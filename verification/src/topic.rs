//! Translation of slash-delimited (MQTT-style) topic names into
//! dot-delimited (NATS-style) subjects.
//!
//! A single slash standing between two plain characters becomes a dot; a
//! doubled slash between plain characters becomes `./.`; a leading slash or
//! doubled slash, and a trailing slash, are escaped with an extra placeholder
//! segment.  Leading and trailing whitespace is stripped first.

use vstd::prelude::*;
use vstd::string::*;

verus! {

/// A character that can stand beside a separator: not a slash, a dot or a
/// space.
pub open spec fn plain_char(c: char) -> bool {
    c != '/' && c != '.' && c != ' '
}

/// Whitespace stripped from the ends of a subject before translation.
pub open spec fn space_char(c: char) -> bool {
    c == ' ' || c == '\t' || c == '\n' || c == '\r'
}

pub open spec fn strip_front(s: Seq<char>) -> Seq<char>
    decreases s.len(),
{
    if s.len() > 0 && space_char(s[0]) {
        strip_front(s.skip(1))
    } else {
        s
    }
}

pub open spec fn strip_back(s: Seq<char>) -> Seq<char>
    decreases s.len(),
{
    if s.len() > 0 && space_char(s[s.len() - 1]) {
        strip_back(s.take(s.len() - 1))
    } else {
        s
    }
}

pub open spec fn strip_spaces(s: Seq<char>) -> Seq<char> {
    strip_back(strip_front(s))
}

/// Separator rewriting in the interior of a subject: between two plain
/// characters a doubled slash becomes `./.` and a single slash becomes a
/// dot; everything else is copied unchanged.
pub open spec fn rewrite_mid(s: Seq<char>) -> Seq<char>
    decreases s.len(),
{
    if s.len() >= 4 && plain_char(s[0]) && s[1] == '/' && s[2] == '/' && plain_char(s[3]) {
        seq![s[0], '.', '/', '.'] + rewrite_mid(s.skip(3))
    } else if s.len() >= 3 && plain_char(s[0]) && s[1] == '/' && plain_char(s[2]) {
        seq![s[0], '.'] + rewrite_mid(s.skip(2))
    } else if s.len() >= 1 {
        seq![s[0]] + rewrite_mid(s.skip(1))
    } else {
        s
    }
}

/// Interior rewriting plus the escape for a trailing slash.
pub open spec fn rewrite_tail(s: Seq<char>) -> Seq<char> {
    if s.len() >= 1 && s[s.len() - 1] == '/' {
        rewrite_mid(s.take(s.len() - 1)) + seq!['.', '/']
    } else {
        rewrite_mid(s)
    }
}

/// The whole translation of an already-stripped subject: the escape for a
/// leading slash or doubled slash, then the tail rewriting of the rest.
pub open spec fn rewrite_subject(s: Seq<char>) -> Seq<char> {
    if s.len() >= 2 && s[0] == '/' && s[1] == '/' {
        seq!['/', '.', '/', '.'] + rewrite_tail(s.skip(2))
    } else if s.len() >= 1 && s[0] == '/' {
        seq!['/', '.'] + rewrite_tail(s.skip(1))
    } else {
        rewrite_tail(s)
    }
}

/// What `mqtt_to_nats` returns: the subject stripped of surrounding
/// whitespace, with every separator translated or escaped.
pub open spec fn nats_subject_of(s: Seq<char>) -> Seq<char> {
    rewrite_subject(strip_spaces(s))
}

fn plain_char_x(c: char) -> (b: bool)
    ensures
        b == plain_char(c),
{
    c != '/' && c != '.' && c != ' '
}

fn space_char_x(c: char) -> (b: bool)
    ensures
        b == space_char(c),
{
    c == ' ' || c == '\t' || c == '\n' || c == '\r'
}

/// Relies on `String: FromIterator<char>`: collecting an iterator of
/// characters yields the string of exactly those characters in order.
#[verifier::external_body]
pub(crate) fn string_from_chars(v: Vec<char>) -> (r: String)
    ensures
        r@ == v@,
{
    v.into_iter().collect()
}

pub(crate) fn chars_of(s: &str) -> (v: Vec<char>)
    ensures
        v@ == s@,
{
    let n: usize = s.unicode_len();
    let mut v: Vec<char> = Vec::new();
    let mut i: usize = 0;
    while i < n
        invariant
            i <= n,
            n == s@.len(),
            v@ =~= s@.take(i as int),
        decreases n - i,
    {
        let c = s.get_char(i);
        v.push(c);
        assert(v@ =~= s@.take(i + 1));
        i = i + 1;
    }
    assert(v@ =~= s@);
    v
}

proof fn lemma_strip_front_index(s: Seq<char>, k: int)
    requires
        0 <= k <= s.len(),
        forall|i: int| 0 <= i < k ==> space_char(s[i]),
        k < s.len() ==> !space_char(s[k]),
    ensures
        strip_front(s) == s.skip(k),
    decreases k,
{
    if k == 0 {
        assert(s.skip(0) =~= s);
    } else {
        assert(space_char(s[0]));
        lemma_strip_front_index(s.skip(1), k - 1);
        assert(s.skip(1).skip(k - 1) =~= s.skip(k));
    }
}

proof fn lemma_strip_back_index(s: Seq<char>, k: int)
    requires
        0 <= k <= s.len(),
        forall|i: int| k <= i < s.len() ==> space_char(s[i]),
        k > 0 ==> !space_char(s[k - 1]),
    ensures
        strip_back(s) == s.take(k),
    decreases s.len() - k,
{
    if k == s.len() {
        assert(s.take(k) =~= s);
    } else {
        assert(space_char(s[s.len() - 1]));
        lemma_strip_back_index(s.take(s.len() - 1), k);
        assert(s.take(s.len() - 1).take(k) =~= s.take(k));
    }
}

/// Copies `t[start..end]`, rewriting interior separators as `rewrite_mid`
/// describes, onto the end of `out`.
fn rewrite_mid_onto(t: &Vec<char>, start: usize, end: usize, out: &mut Vec<char>)
    requires
        start <= end <= t@.len(),
    ensures
        final(out)@ == old(out)@ + rewrite_mid(t@.subrange(start as int, end as int)),
{
    let ghost m = t@.subrange(start as int, end as int);
    let ghost base = out@;
    let mut k: usize = start;
    assert(m.skip(0) =~= m);
    while k < end
        invariant
            start <= k <= end <= t@.len(),
            m == t@.subrange(start as int, end as int),
            out@ + rewrite_mid(m.skip(k - start)) == base + rewrite_mid(m),
        decreases end - k,
    {
        let ghost d = k - start;
        assert(forall|i: int| 0 <= i < m.len() - d ==> m.skip(d)[i] == t@[k + i]);
        if end - k >= 4 && plain_char_x(t[k]) && t[k + 1] == '/' && t[k + 2] == '/'
            && plain_char_x(t[k + 3]) {
            proof {
                let ms = m.skip(d);
                assert(ms.len() == end - k);
                assert(ms[0] == t@[k as int] && ms[1] == t@[k + 1] && ms[2] == t@[k + 2]
                    && ms[3] == t@[k + 3]);
                assert(rewrite_mid(ms) == seq![ms[0], '.', '/', '.'] + rewrite_mid(ms.skip(3)));
                assert(ms.skip(3) =~= m.skip(d + 3));
            }
            let c = t[k];
            out.push(c);
            out.push('.');
            out.push('/');
            out.push('.');
            k = k + 3;
            assert(out@ + rewrite_mid(m.skip(k - start)) =~= base + rewrite_mid(m));
        } else if end - k >= 3 && plain_char_x(t[k]) && t[k + 1] == '/' && plain_char_x(t[k + 2]) {
            proof {
                let ms = m.skip(d);
                assert(ms.len() == end - k);
                assert(ms[0] == t@[k as int] && ms[1] == t@[k + 1] && ms[2] == t@[k + 2]);
                assert(!(ms.len() >= 4 && plain_char(ms[0]) && ms[1] == '/' && ms[2] == '/'
                    && plain_char(ms[3])));
                assert(rewrite_mid(ms) == seq![ms[0], '.'] + rewrite_mid(ms.skip(2)));
                assert(ms.skip(2) =~= m.skip(d + 2));
            }
            let c = t[k];
            out.push(c);
            out.push('.');
            k = k + 2;
            assert(out@ + rewrite_mid(m.skip(k - start)) =~= base + rewrite_mid(m));
        } else {
            proof {
                let ms = m.skip(d);
                assert(ms.len() == end - k);
                assert(ms[0] == t@[k as int]);
                if ms.len() >= 4 && plain_char(ms[0]) && ms[1] == '/' && ms[2] == '/'
                    && plain_char(ms[3]) {
                    assert(ms[1] == t@[k + 1] && ms[2] == t@[k + 2] && ms[3] == t@[k + 3]);
                    assert(false);
                }
                if ms.len() >= 3 && plain_char(ms[0]) && ms[1] == '/' && plain_char(ms[2]) {
                    assert(ms[1] == t@[k + 1] && ms[2] == t@[k + 2]);
                    assert(false);
                }
                assert(rewrite_mid(ms) == seq![ms[0]] + rewrite_mid(ms.skip(1)));
                assert(ms.skip(1) =~= m.skip(d + 1));
            }
            let c = t[k];
            out.push(c);
            k = k + 1;
            assert(out@ + rewrite_mid(m.skip(k - start)) =~= base + rewrite_mid(m));
        }
    }
    assert(m.skip(end - start).len() == 0);
    assert(rewrite_mid(m.skip(end - start)) =~= Seq::<char>::empty());
    assert(out@ =~= base + rewrite_mid(m));
}

/// Translates a slash-delimited topic name into a dot-delimited subject,
/// stripping surrounding whitespace and escaping leading, doubled and
/// trailing separators.
pub fn mqtt_to_nats(input: String) -> (r: String)
    ensures
        r@ == nats_subject_of(input@),
{
    let v = chars_of(input.as_str());
    let n: usize = v.len();

    // Strip whitespace from both ends.
    let mut lo: usize = 0;
    while lo < n && space_char_x(v[lo])
        invariant
            lo <= n,
            n == v@.len(),
            forall|i: int| 0 <= i < lo ==> space_char(v@[i]),
        decreases n - lo,
    {
        lo = lo + 1;
    }
    let mut hi: usize = n;
    while hi > lo && space_char_x(v[hi - 1])
        invariant
            lo <= hi <= n,
            n == v@.len(),
            forall|i: int| hi <= i < n ==> space_char(v@[i]),
        decreases hi,
    {
        hi = hi - 1;
    }
    proof {
        lemma_strip_front_index(v@, lo as int);
        lemma_strip_back_index(v@.skip(lo as int), hi - lo);
        assert(v@.skip(lo as int).take(hi - lo) =~= v@.subrange(lo as int, hi as int));
    }
    let mut t: Vec<char> = Vec::new();
    let mut j: usize = lo;
    while j < hi
        invariant
            lo <= j <= hi <= n,
            n == v@.len(),
            t@ =~= v@.subrange(lo as int, j as int),
        decreases hi - j,
    {
        let c = v[j];
        t.push(c);
        assert(t@ =~= v@.subrange(lo as int, j + 1));
        j = j + 1;
    }
    assert(t@ == strip_spaces(input@));

    // Escape a leading slash or doubled slash.
    let m: usize = t.len();
    let mut out: Vec<char> = Vec::new();
    let mut start: usize = 0;
    let lead2: bool = m >= 2 && t[0] == '/' && t[1] == '/';
    let lead1: bool = !lead2 && m >= 1 && t[0] == '/';
    if lead2 {
        out.push('/');
        out.push('.');
        out.push('/');
        out.push('.');
        start = 2;
        assert(out@ =~= seq!['/', '.', '/', '.']);
    } else if lead1 {
        out.push('/');
        out.push('.');
        start = 1;
        assert(out@ =~= seq!['/', '.']);
    }
    let ghost pre = out@;
    let ghost rest = t@.skip(start as int);
    assert(forall|i: int| 0 <= i < rest.len() ==> rest[i] == t@[start + i]);

    // Escape a trailing slash; rewrite interior separators in between.
    let mut end: usize = m;
    let trailing: bool = end > start && t[end - 1] == '/';
    if trailing {
        end = end - 1;
    }
    proof {
        if trailing {
            assert(rest.len() >= 1 && rest[rest.len() - 1] == '/');
            assert(rest.take(rest.len() - 1) =~= t@.subrange(start as int, end as int));
        } else {
            assert(!(rest.len() >= 1 && rest[rest.len() - 1] == '/'));
            assert(rest =~= t@.subrange(start as int, end as int));
        }
    }
    rewrite_mid_onto(&t, start, end, &mut out);
    if trailing {
        out.push('.');
        out.push('/');
    }
    proof {
        let s = t@;
        let mid = rewrite_mid(s.subrange(start as int, end as int));
        if trailing {
            assert(rewrite_tail(rest) == rewrite_mid(rest.take(rest.len() - 1)) + seq!['.', '/']);
            assert(rest.take(rest.len() - 1) =~= s.subrange(start as int, end as int));
            assert(out@ =~= pre + mid + seq!['.', '/']);
            assert(out@ =~= pre + rewrite_tail(rest));
        } else {
            assert(rest =~= s.subrange(start as int, end as int));
            assert(rewrite_tail(rest) == mid);
            assert(out@ =~= pre + rewrite_tail(rest));
        }
        if lead2 {
            assert(s.len() >= 2 && s[0] == '/' && s[1] == '/');
            assert(rewrite_subject(s) == seq!['/', '.', '/', '.'] + rewrite_tail(rest));
        } else if lead1 {
            assert(rewrite_subject(s) == seq!['/', '.'] + rewrite_tail(rest));
        } else {
            assert(rest =~= s);
            assert(rewrite_subject(s) == rewrite_tail(rest));
            assert(pre =~= Seq::<char>::empty());
        }
        assert(out@ =~= rewrite_subject(s));
    }
    string_from_chars(out)
}

} // verus!
