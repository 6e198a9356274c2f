//! Connection configuration for a consumer session: which subjects carry
//! heartbeats, where the bus lives, and how the connection authenticates.
//!
//! A per-session override merges onto a provider-wide default: non-empty
//! override fields replace the corresponding default field wholesale.

use vstd::prelude::*;
use vstd::string::*;

verus! {

/// Configuration for connecting a bus client.
pub struct ConnectionConfig {
    /// Subjects to subscribe to for sensor heartbeats, each optionally
    /// `subject|queueGroup`.
    pub subscriptions: Vec<String>,
    pub cluster_uris: Vec<String>,
    pub auth_jwt: Option<String>,
    pub auth_seed: Option<String>,
    /// Ping interval in seconds.
    pub ping_interval_sec: Option<u16>,
}

/// The mathematical content of a configuration: every string as its
/// character sequence.
#[verifier::ext_equal]
pub ghost struct ConfigView {
    pub subscriptions: Seq<Seq<char>>,
    pub cluster_uris: Seq<Seq<char>>,
    pub auth_jwt: Option<Seq<char>>,
    pub auth_seed: Option<Seq<char>>,
    pub ping_interval_sec: Option<u16>,
}

pub open spec fn views_of(v: Seq<String>) -> Seq<Seq<char>> {
    v.map_values(|x: String| x@)
}

pub open spec fn opt_view(o: Option<String>) -> Option<Seq<char>> {
    match o {
        Some(s) => Some(s@),
        None => None,
    }
}

impl View for ConnectionConfig {
    type V = ConfigView;

    open spec fn view(&self) -> ConfigView {
        ConfigView {
            subscriptions: views_of(self.subscriptions@),
            cluster_uris: views_of(self.cluster_uris@),
            auth_jwt: opt_view(self.auth_jwt),
            auth_seed: opt_view(self.auth_seed),
            ping_interval_sec: self.ping_interval_sec,
        }
    }
}

/// The configuration used when nothing is specified: no heartbeat
/// subscriptions, the local bus address, no credentials.
pub open spec fn default_config_view() -> ConfigView {
    ConfigView {
        subscriptions: Seq::empty(),
        cluster_uris: seq!["0.0.0.0:4222"@],
        auth_jwt: None,
        auth_seed: None,
        ping_interval_sec: None,
    }
}

/// The bus address assumed when none is configured.
pub fn default_nats_uri() -> (r: String)
    ensures
        r@ == "0.0.0.0:4222"@,
{
    String::from_str("0.0.0.0:4222")
}

/// Why a configuration was rejected.
#[derive(Clone, Copy, PartialEq, Eq, Structural, Debug)]
pub enum ConfigError {
    /// A JWT was supplied without the seed that must accompany it.
    JwtWithoutSeed,
    /// Exactly one of the two credentials was present at connect time.
    IncompleteCredentials,
    /// No bus address to connect to.
    NoClusterUri,
}

impl ConfigError {
    pub fn message(&self) -> (r: String)
        ensures
            *self is JwtWithoutSeed ==> r@ == "if you specify jwt, you must also specify a seed"@,
            *self is IncompleteCredentials ==> r@
                == "must provide both jwt and seed for jwt authentication"@,
            *self is NoClusterUri ==> r@ == "no cluster uri to connect to"@,
    {
        match self {
            ConfigError::JwtWithoutSeed => String::from_str(
                "if you specify jwt, you must also specify a seed",
            ),
            ConfigError::IncompleteCredentials => String::from_str(
                "must provide both jwt and seed for jwt authentication",
            ),
            ConfigError::NoClusterUri => String::from_str("no cluster uri to connect to"),
        }
    }
}

fn clone_strings(v: &Vec<String>) -> (r: Vec<String>)
    ensures
        r@ == v@,
{
    let mut r: Vec<String> = Vec::new();
    let mut i: usize = 0;
    while i < v.len()
        invariant
            i <= v@.len(),
            r@ =~= v@.take(i as int),
        decreases v@.len() - i,
    {
        r.push(v[i].clone());
        assert(r@ =~= v@.take(i + 1));
        i = i + 1;
    }
    assert(r@ =~= v@);
    r
}

fn clone_opt_string(o: &Option<String>) -> (r: Option<String>)
    ensures
        r == *o,
{
    match o {
        Some(s) => Some(s.clone()),
        None => None,
    }
}

impl Clone for ConnectionConfig {
    fn clone(&self) -> (r: Self)
        ensures
            r@ == self@,
    {
        ConnectionConfig {
            subscriptions: clone_strings(&self.subscriptions),
            cluster_uris: clone_strings(&self.cluster_uris),
            auth_jwt: clone_opt_string(&self.auth_jwt),
            auth_seed: clone_opt_string(&self.auth_seed),
            ping_interval_sec: self.ping_interval_sec,
        }
    }
}

impl Default for ConnectionConfig {
    fn default() -> (r: Self)
        ensures
            r@ == default_config_view(),
    {
        let mut uris: Vec<String> = Vec::new();
        uris.push(default_nats_uri());
        let r = ConnectionConfig {
            subscriptions: Vec::new(),
            cluster_uris: uris,
            auth_jwt: None,
            auth_seed: None,
            ping_interval_sec: None,
        };
        assert(r@ =~= default_config_view());
        r
    }
}

/// What merging an override onto a base yields: a non-empty or present
/// override field replaces the base's field wholesale.
pub open spec fn merged_config(base: ConfigView, extra: ConfigView) -> ConfigView {
    ConfigView {
        subscriptions: if extra.subscriptions.len() > 0 {
            extra.subscriptions
        } else {
            base.subscriptions
        },
        cluster_uris: if extra.cluster_uris.len() > 0 {
            extra.cluster_uris
        } else {
            base.cluster_uris
        },
        auth_jwt: if extra.auth_jwt is Some {
            extra.auth_jwt
        } else {
            base.auth_jwt
        },
        auth_seed: if extra.auth_seed is Some {
            extra.auth_seed
        } else {
            base.auth_seed
        },
        ping_interval_sec: if extra.ping_interval_sec is Some {
            extra.ping_interval_sec
        } else {
            base.ping_interval_sec
        },
    }
}

impl ConnectionConfig {
    /// Merges a per-link override onto this configuration: each non-empty
    /// or present field of `extra` replaces the corresponding field here.
    pub fn merge(&self, extra: &ConnectionConfig) -> (out: ConnectionConfig)
        ensures
            out@ == merged_config(self@, extra@),
    {
        let mut out = self.clone();
        if !extra.subscriptions.is_empty() {
            out.subscriptions = clone_strings(&extra.subscriptions);
        }
        if !extra.cluster_uris.is_empty() {
            out.cluster_uris = clone_strings(&extra.cluster_uris);
        }
        if extra.auth_jwt.is_some() {
            out.auth_jwt = clone_opt_string(&extra.auth_jwt);
        }
        if extra.auth_seed.is_some() {
            out.auth_seed = clone_opt_string(&extra.auth_seed);
        }
        if extra.ping_interval_sec.is_some() {
            out.ping_interval_sec = extra.ping_interval_sec;
        }
        assert(out@ =~= merged_config(self@, extra@));
        out
    }
}

/// Splitting at commas, piece by piece: `cur` is the piece being read.
pub open spec fn split_acc(s: Seq<char>, cur: Seq<char>) -> Seq<Seq<char>>
    decreases s.len(),
{
    if s.len() == 0 {
        seq![cur]
    } else if s[0] == ',' {
        seq![cur] + split_acc(s.skip(1), Seq::empty())
    } else {
        split_acc(s.skip(1), cur.push(s[0]))
    }
}

/// The pieces of `s` between its commas, in order; always at least one.
pub open spec fn split_at_commas(s: Seq<char>) -> Seq<Seq<char>> {
    split_acc(s, Seq::empty())
}

/// Splits a comma-separated list into its pieces.
pub fn split_commas(s: &str) -> (r: Vec<String>)
    ensures
        views_of(r@) == split_at_commas(s@),
{
    let n: usize = s.unicode_len();
    let mut r: Vec<String> = Vec::new();
    let mut start: usize = 0;
    let mut i: usize = 0;
    proof {
        assert(s@.skip(0) =~= s@);
        assert(s@.subrange(0, 0) =~= Seq::<char>::empty());
    }
    while i < n
        invariant
            start <= i <= n,
            n == s@.len(),
            views_of(r@) + split_acc(s@.skip(i as int), s@.subrange(start as int, i as int))
                =~= split_at_commas(s@),
        decreases n - i,
    {
        let ghost cur = s@.subrange(start as int, i as int);
        let c = s.get_char(i);
        assert(s@.skip(i as int)[0] == s@[i as int]);
        assert(s@.skip(i as int).skip(1) =~= s@.skip(i + 1));
        if c == ',' {
            let piece = s.substring_char(start, i).to_owned();
            assert(piece@ == cur);
            let ghost r0 = r@;
            r.push(piece);
            proof {
                assert(views_of(r@) =~= views_of(r0).push(cur));
                assert(split_acc(s@.skip(i as int), cur) == seq![cur] + split_acc(
                    s@.skip(i + 1),
                    Seq::empty(),
                ));
                assert(views_of(r0).push(cur) =~= views_of(r0) + seq![cur]);
                assert(s@.subrange(i + 1, i + 1) =~= Seq::<char>::empty());
            }
            start = i + 1;
        } else {
            proof {
                assert(split_acc(s@.skip(i as int), cur) == split_acc(
                    s@.skip(i + 1),
                    cur.push(s@[i as int]),
                ));
                assert(s@.subrange(start as int, i + 1) =~= cur.push(s@[i as int]));
            }
        }
        i = i + 1;
    }
    let ghost cur = s@.subrange(start as int, n as int);
    assert(s@.skip(n as int).len() == 0);
    assert(split_acc(s@.skip(n as int), cur) == seq![cur]);
    let piece = s.substring_char(start, n).to_owned();
    let ghost r0 = r@;
    r.push(piece);
    proof {
        assert(views_of(r@) =~= views_of(r0).push(cur));
        assert(views_of(r0).push(cur) =~= views_of(r0) + seq![cur]);
    }
    r
}

/// The configuration that a set of link values resolves to, before
/// validation and the default-address fallback: a comma-separated
/// subscription list extends the base's, a comma-separated address list
/// replaces it, and credentials override field by field.
pub open spec fn resolved_config(
    base: ConfigView,
    subscription: Option<Seq<char>>,
    uri: Option<Seq<char>>,
    jwt: Option<Seq<char>>,
    seed: Option<Seq<char>>,
) -> ConfigView {
    ConfigView {
        subscriptions: match subscription {
            Some(s) => base.subscriptions + split_at_commas(s),
            None => base.subscriptions,
        },
        cluster_uris: match uri {
            Some(u) => split_at_commas(u),
            None => base.cluster_uris,
        },
        auth_jwt: if jwt is Some {
            jwt
        } else {
            base.auth_jwt
        },
        auth_seed: if seed is Some {
            seed
        } else {
            base.auth_seed
        },
        ping_interval_sec: base.ping_interval_sec,
    }
}

/// A resolved configuration with the default bus address supplied if none
/// was configured.
pub open spec fn with_default_uri(c: ConfigView) -> ConfigView {
    if c.cluster_uris.len() == 0 {
        ConfigView { cluster_uris: seq!["0.0.0.0:4222"@], ..c }
    } else {
        c
    }
}

impl ConnectionConfig {
    /// Builds a configuration from a link's values: a base parsed from the
    /// link's own blob (if any), then the single-value overrides.  Rejected,
    /// not thrown: a JWT without a seed is a configuration error.
    pub fn new_from(
        base: Option<ConnectionConfig>,
        subscription: Option<String>,
        uri: Option<String>,
        jwt: Option<String>,
        seed: Option<String>,
    ) -> (r: Result<ConnectionConfig, ConfigError>)
        ensures
            ({
                let b = match base {
                    Some(c) => c@,
                    None => default_config_view(),
                };
                let rc = resolved_config(
                    b,
                    opt_view(subscription),
                    opt_view(uri),
                    opt_view(jwt),
                    opt_view(seed),
                );
                match r {
                    Ok(c) => !(rc.auth_jwt is Some && rc.auth_seed is None) && c@
                        == with_default_uri(rc),
                    Err(e) => rc.auth_jwt is Some && rc.auth_seed is None && e is JwtWithoutSeed,
                }
            }),
    {
        let mut config = match base {
            Some(c) => c,
            None => ConnectionConfig::default(),
        };
        let ghost b = config@;
        if let Some(sub) = &subscription {
            let pieces = split_commas(sub.as_str());
            let ghost s0 = config.subscriptions@;
            let ghost cfg0 = config;
            let mut k: usize = 0;
            while k < pieces.len()
                invariant
                    k <= pieces@.len(),
                    config.subscriptions@ =~= s0 + pieces@.take(k as int),
                    config.cluster_uris == cfg0.cluster_uris,
                    config.auth_jwt == cfg0.auth_jwt,
                    config.auth_seed == cfg0.auth_seed,
                    config.ping_interval_sec == cfg0.ping_interval_sec,
                decreases pieces@.len() - k,
            {
                config.subscriptions.push(pieces[k].clone());
                assert(config.subscriptions@ =~= s0 + pieces@.take(k + 1));
                k = k + 1;
            }
            assert(config.subscriptions@ =~= s0 + pieces@);
            assert(views_of(s0 + pieces@) =~= views_of(s0) + views_of(pieces@));
        }
        match &uri {
            Some(u) => {
                config.cluster_uris = split_commas(u.as_str());
                assert(opt_view(uri) == Some(u@));
                assert(views_of(config.cluster_uris@) == split_at_commas(u@));
            },
            None => {
                assert(opt_view(uri) is None);
                assert(views_of(config.cluster_uris@) == b.cluster_uris);
            },
        }
        if jwt.is_some() {
            config.auth_jwt = clone_opt_string(&jwt);
        }
        if seed.is_some() {
            config.auth_seed = clone_opt_string(&seed);
        }
        let ghost rc = resolved_config(b, opt_view(subscription), opt_view(uri), opt_view(jwt),
            opt_view(seed));
        proof {
            assert(config@.subscriptions =~~= rc.subscriptions);
            assert(config@.cluster_uris =~~= rc.cluster_uris);
            assert(config@ =~~= rc);
        }
        if config.auth_jwt.is_some() && config.auth_seed.is_none() {
            return Err(ConfigError::JwtWithoutSeed);
        }
        if config.cluster_uris.is_empty() {
            config.cluster_uris.push(default_nats_uri());
            assert(config@.cluster_uris =~= seq!["0.0.0.0:4222"@]);
        }
        assert(config@ =~= with_default_uri(rc));
        Ok(config)
    }
}

/// How the bus connection authenticates.
pub enum AuthMode {
    Anonymous,
    JwtAuth { jwt: String, seed: String },
}

/// Decides how the connection authenticates: both credentials give JWT
/// authentication, neither gives an anonymous connection, and one alone is
/// rejected.
pub fn auth_mode(cfg: &ConnectionConfig) -> (r: Result<AuthMode, ConfigError>)
    ensures
        match r {
            Ok(m) => match m {
                AuthMode::Anonymous => cfg@.auth_jwt is None && cfg@.auth_seed is None,
                AuthMode::JwtAuth { jwt, seed } => cfg@.auth_jwt == Some(jwt@) && cfg@.auth_seed
                    == Some(seed@),
            },
            Err(e) => e is IncompleteCredentials && ((cfg@.auth_jwt is Some) != (cfg@.auth_seed
                is Some)),
        },
{
    match (&cfg.auth_jwt, &cfg.auth_seed) {
        (Some(j), Some(s)) => Ok(AuthMode::JwtAuth { jwt: j.clone(), seed: s.clone() }),
        (None, None) => Ok(AuthMode::Anonymous),
        _ => Err(ConfigError::IncompleteCredentials),
    }
}

/// The address the connection is made to: the first configured one.
pub fn first_uri(cfg: &ConnectionConfig) -> (r: Result<String, ConfigError>)
    ensures
        cfg@.cluster_uris.len() > 0 ==> (r matches Ok(u) && u@ == cfg@.cluster_uris[0]),
        cfg@.cluster_uris.len() == 0 ==> (r matches Err(e) && e is NoClusterUri),
{
    if cfg.cluster_uris.is_empty() {
        Err(ConfigError::NoClusterUri)
    } else {
        Ok(cfg.cluster_uris[0].clone())
    }
}

/// One heartbeat subscription to make: a subject, optionally consumed
/// through a queue group.
pub struct SubscriptionSpec {
    pub subject: String,
    pub queue: Option<String>,
}

pub open spec fn plan_views(v: Seq<SubscriptionSpec>) -> Seq<(Seq<char>, Option<Seq<char>>)> {
    v.map_values(|p: SubscriptionSpec| (p.subject@, opt_view(p.queue)))
}

/// Where a configured subscription entry splits: at the first bar the
/// subject ends and the queue group begins; with no bar there is no queue
/// group.
pub open spec fn split_at_bar(s: Seq<char>) -> (Seq<char>, Option<Seq<char>>) {
    match s.index_of_first('|') {
        Some(i) => (s.take(i), Some(s.skip(i + 1))),
        None => (s, None),
    }
}

/// The subscriptions a configuration asks for: each non-empty entry, split
/// into subject and optional queue group, in order.
pub open spec fn heartbeat_plans(subs: Seq<Seq<char>>) -> Seq<(Seq<char>, Option<Seq<char>>)>
    decreases subs.len(),
{
    if subs.len() == 0 {
        Seq::empty()
    } else {
        heartbeat_plans(subs.drop_last()) + (if subs.last().len() > 0 {
            seq![split_at_bar(subs.last())]
        } else {
            Seq::<(Seq<char>, Option<Seq<char>>)>::empty()
        })
    }
}

fn find_bar(s: &str) -> (r: Option<usize>)
    ensures
        match r {
            Some(i) => 0 <= i < s@.len() && s@.index_of_first('|') == Some(i as int),
            None => s@.index_of_first('|') is None,
        },
{
    let n: usize = s.unicode_len();
    let mut i: usize = 0;
    while i < n
        invariant
            i <= n,
            n == s@.len(),
            forall|j: int| 0 <= j < i ==> s@[j] != '|',
        decreases n - i,
    {
        if s.get_char(i) == '|' {
            proof {
                s@.index_of_first_ensures('|');
            }
            return Some(i);
        }
        i = i + 1;
    }
    proof {
        s@.index_of_first_ensures('|');
    }
    None
}

/// Parses the heartbeat subscriptions out of a configuration: empty entries
/// are dropped, and `subject|queueGroup` entries are split at the first bar.
pub fn subscription_plans(cfg: &ConnectionConfig) -> (r: Vec<SubscriptionSpec>)
    ensures
        plan_views(r@) == heartbeat_plans(cfg@.subscriptions),
{
    let mut r: Vec<SubscriptionSpec> = Vec::new();
    let mut k: usize = 0;
    let n = cfg.subscriptions.len();
    proof {
        assert(cfg@.subscriptions.take(0) =~= Seq::<Seq<char>>::empty());
    }
    while k < n
        invariant
            k <= n,
            n == cfg.subscriptions@.len(),
            cfg@.subscriptions == views_of(cfg.subscriptions@),
            plan_views(r@) =~= heartbeat_plans(cfg@.subscriptions.take(k as int)),
        decreases n - k,
    {
        let ghost pre = cfg@.subscriptions.take(k as int);
        let ghost full = cfg@.subscriptions.take(k + 1);
        proof {
            assert(full.drop_last() =~= pre);
            assert(full.last() == cfg@.subscriptions[k as int]);
        }
        let entry: &String = &cfg.subscriptions[k];
        if !entry.as_str().is_empty() {
            let ghost r0 = r@;
            match find_bar(entry.as_str()) {
                Some(i) => {
                    let m: usize = entry.as_str().unicode_len();
                    let subject = entry.as_str().substring_char(0, i).to_owned();
                    let queue = entry.as_str().substring_char(i + 1, m).to_owned();
                    proof {
                        assert(entry@.take(i as int) =~= entry@.subrange(0, i as int));
                        assert(entry@.skip(i + 1) =~= entry@.subrange(i + 1, entry@.len() as int));
                    }
                    r.push(SubscriptionSpec { subject, queue: Some(queue) });
                    proof {
                        assert(plan_views(r@) =~= plan_views(r0).push(split_at_bar(entry@)));
                    }
                },
                None => {
                    r.push(SubscriptionSpec { subject: entry.clone(), queue: None });
                    proof {
                        assert(plan_views(r@) =~= plan_views(r0).push(split_at_bar(entry@)));
                    }
                },
            }
            proof {
                assert(heartbeat_plans(full) == heartbeat_plans(pre) + seq![split_at_bar(
                    entry@,
                )]);
                assert(plan_views(r@) =~= heartbeat_plans(full));
            }
        } else {
            proof {
                assert(heartbeat_plans(full) =~= heartbeat_plans(pre));
            }
        }
        k = k + 1;
    }
    proof {
        assert(cfg@.subscriptions.take(n as int) =~= cfg@.subscriptions);
    }
    r
}

} // verus!
