//! The per-session schedule: for each poll interval, the identities of the
//! sensors currently sharing it.

use vstd::prelude::*;
use std::collections::HashMap;

verus! {

broadcast use vstd::std_specs::hash::group_hash_axioms;

pub struct Schedule {
    map: HashMap<u64, Vec<u128>>,
}

impl View for Schedule {
    type V = Map<u64, Seq<u128>>;

    closed spec fn view(&self) -> Map<u64, Seq<u128>> {
        Map::new(
            |ivl: u64| self.map@.dom().contains(ivl),
            |ivl: u64| self.map@[ivl]@,
        )
    }
}

impl Schedule {
    pub fn new() -> (r: Self)
        ensures
            r@ == Map::<u64, Seq<u128>>::empty(),
    {
        let r = Schedule { map: HashMap::new() };
        assert(r@ =~= Map::<u64, Seq<u128>>::empty());
        r
    }

    pub fn has_bucket(&self, ivl: u64) -> (b: bool)
        ensures
            b == self@.contains_key(ivl),
    {
        self.map.contains_key(&ivl)
    }

    /// The identities currently sharing an interval.
    pub fn bucket(&self, ivl: u64) -> (r: Option<&Vec<u128>>)
        ensures
            match r {
                Some(ids) => self@.contains_key(ivl) && ids@ == self@[ivl],
                None => !self@.contains_key(ivl),
            },
    {
        self.map.get(&ivl)
    }

    /// Puts an identity into the bucket of its interval, creating the bucket
    /// if the interval had none; says whether it was created.
    pub fn add_sensor(&mut self, ivl: u64, id: u128) -> (created: bool)
        ensures
            created == !old(self)@.contains_key(ivl),
            created ==> final(self)@ == old(self)@.insert(ivl, seq![id]),
            !created ==> final(self)@ == old(self)@.insert(ivl, old(self)@[ivl].push(id)),
    {
        match self.map.remove(&ivl) {
            Some(mut ids) => {
                let ghost before = ids@;
                ids.push(id);
                self.map.insert(ivl, ids);
                proof {
                    assert(self@ =~= old(self)@.insert(ivl, before.push(id)));
                }
                false
            },
            None => {
                let mut ids: Vec<u128> = Vec::new();
                ids.push(id);
                self.map.insert(ivl, ids);
                proof {
                    assert(self@ =~= old(self)@.insert(ivl, seq![id]));
                }
                true
            },
        }
    }

    /// Takes one identity out of its interval's bucket; a bucket left empty
    /// is removed, so a bucket never exists without a member.
    pub fn remove_sensor(&mut self, ivl: u64, id: u128)
        ensures
            !old(self)@.contains_key(ivl) ==> final(self)@ == old(self)@,
            old(self)@.contains_key(ivl) ==> match old(self)@[ivl].index_of_first(id) {
                None => final(self)@ == old(self)@,
                Some(at) => final(self)@ == if old(self)@[ivl].len() == 1 {
                    old(self)@.remove(ivl)
                } else {
                    old(self)@.insert(ivl, old(self)@[ivl].remove(at))
                },
            },
    {
        match self.map.remove(&ivl) {
            Some(mut ids) => {
                let ghost before = ids@;
                let n = ids.len();
                let mut k: usize = 0;
                let mut pos: Option<usize> = None;
                while k < n
                    invariant
                        k <= n,
                        n == ids@.len(),
                        before == ids@,
                        match pos {
                            None => forall|j: int| 0 <= j < k ==> ids@[j] != id,
                            Some(p) => p < n && ids@[p as int] == id && (forall|j: int|
                                0 <= j < p ==> ids@[j] != id),
                        },
                    decreases n - k,
                {
                    if pos.is_none() && ids[k] == id {
                        pos = Some(k);
                    }
                    k = k + 1;
                }
                match pos {
                    Some(at) => {
                        proof {
                            before.index_of_first_ensures(id);
                            assert(before.index_of_first(id) == Some(at as int));
                        }
                        if n == 1 {
                            proof {
                                assert(self@ =~= old(self)@.remove(ivl));
                            }
                        } else {
                            ids.remove(at);
                            self.map.insert(ivl, ids);
                            proof {
                                assert(self@ =~= old(self)@.insert(ivl, before.remove(at as int)));
                            }
                        }
                    },
                    None => {
                        proof {
                            before.index_of_first_ensures(id);
                            assert(before.index_of_first(id) is None);
                        }
                        self.map.insert(ivl, ids);
                        proof {
                            assert(self.map@ =~= old(self).map@);
                            assert(self@ =~= old(self)@);
                        }
                    },
                }
            },
            None => {
                proof {
                    assert(self@ =~= old(self)@);
                }
            },
        }
    }

    pub fn clear(&mut self)
        ensures
            final(self)@ == Map::<u64, Seq<u128>>::empty(),
    {
        self.map.clear();
        assert(self@ =~= Map::<u64, Seq<u128>>::empty());
    }
}

} // verus!
