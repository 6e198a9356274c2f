//! The provider's session manager: one independent session per linked
//! consumer, attached on link, torn down on unlink or shutdown.

use vstd::prelude::*;
use crate::config::{
    default_config_view, merged_config, opt_view, resolved_config, with_default_uri, ConfigError,
    ConfigView, ConnectionConfig,
};
use crate::sensor::SensorDescriptor;
use crate::session::{
    register_spawns, register_step, tick_step, tick_terminates, RegisterOutcome, Session,
    SessionModel, TickOutcome,
};

verus! {

/// The sessions a manager serves, by consumer.
pub open spec fn models_of(ss: Seq<Session>) -> Map<Seq<char>, SessionModel>
    decreases ss.len(),
{
    if ss.len() == 0 {
        Map::empty()
    } else {
        models_of(ss.drop_last()).insert(ss.last().model().consumer, ss.last().model())
    }
}

pub open spec fn unique_consumers(ss: Seq<Session>) -> bool {
    forall|i: int, j: int|
        0 <= i < j < ss.len() ==> (#[trigger] ss[i]).model().consumer != (#[trigger] ss[j])
            .model().consumer
}

/// What a heartbeat for a consumer does to the manager: the consumer's
/// session takes a registration step; an unknown consumer changes nothing.
pub open spec fn manager_register_step(
    mm: Map<Seq<char>, SessionModel>,
    c: Seq<char>,
    d: SensorDescriptor,
) -> Map<Seq<char>, SessionModel> {
    if mm.contains_key(c) {
        mm.insert(c, register_step(mm[c], d))
    } else {
        mm
    }
}

/// What a tick for a consumer does to the manager.
pub open spec fn manager_tick_step(
    mm: Map<Seq<char>, SessionModel>,
    c: Seq<char>,
    ivl: u64,
) -> Map<Seq<char>, SessionModel> {
    if mm.contains_key(c) {
        mm.insert(c, tick_step(mm[c], ivl))
    } else {
        mm
    }
}

proof fn lemma_models_contains(ss: Seq<Session>, c: Seq<char>)
    ensures
        models_of(ss).contains_key(c) <==> (exists|i: int|
            0 <= i < ss.len() && (#[trigger] ss[i]).model().consumer == c),
    decreases ss.len(),
{
    if ss.len() > 0 {
        lemma_models_contains(ss.drop_last(), c);
        if ss.last().model().consumer == c {
            assert((ss[ss.len() - 1]).model().consumer == c);
        } else {
            if models_of(ss).contains_key(c) {
                let i = choose|i: int|
                    0 <= i < ss.drop_last().len() && (#[trigger] ss.drop_last()[i])
                        .model().consumer == c;
                assert((ss[i]).model().consumer == c);
            }
            if exists|i: int| 0 <= i < ss.len() && (#[trigger] ss[i]).model().consumer == c {
                let i = choose|i: int|
                    0 <= i < ss.len() && (#[trigger] ss[i]).model().consumer == c;
                assert(i < ss.len() - 1);
                assert((ss.drop_last()[i]).model().consumer == c);
            }
        }
    }
}

proof fn lemma_models_value(ss: Seq<Session>, i: int)
    requires
        unique_consumers(ss),
        0 <= i < ss.len(),
    ensures
        models_of(ss).contains_key(ss[i].model().consumer),
        models_of(ss)[ss[i].model().consumer] == ss[i].model(),
    decreases ss.len(),
{
    if i == ss.len() - 1 {
    } else {
        assert(unique_consumers(ss.drop_last())) by {
            assert(forall|a: int, b: int|
                0 <= a < b < ss.drop_last().len() ==> (#[trigger] ss.drop_last()[a])
                    .model().consumer != (#[trigger] ss.drop_last()[b]).model().consumer) by {
                assert(forall|a: int|
                    0 <= a < ss.drop_last().len() ==> ss.drop_last()[a] == ss[a]);
            }
        }
        assert(ss.drop_last()[i] == ss[i]);
        lemma_models_value(ss.drop_last(), i);
        assert(ss[i].model().consumer != ss.last().model().consumer);
    }
}

proof fn lemma_models_remove(ss: Seq<Session>, i: int)
    requires
        unique_consumers(ss),
        0 <= i < ss.len(),
    ensures
        models_of(ss.remove(i)) == models_of(ss).remove(ss[i].model().consumer),
    decreases ss.len(),
{
    let c = ss[i].model().consumer;
    if i == ss.len() - 1 {
        assert(ss.remove(i) =~= ss.drop_last());
        lemma_models_contains(ss.drop_last(), c);
        assert(!models_of(ss.drop_last()).contains_key(c)) by {
            if models_of(ss.drop_last()).contains_key(c) {
                let j = choose|j: int|
                    0 <= j < ss.drop_last().len() && (#[trigger] ss.drop_last()[j])
                        .model().consumer == c;
                assert(ss[j].model().consumer == c);
            }
        }
        assert(models_of(ss).remove(c) =~= models_of(ss.drop_last()));
    } else {
        let dl = ss.drop_last();
        assert(unique_consumers(dl)) by {
            assert(forall|a: int| 0 <= a < dl.len() ==> dl[a] == ss[a]);
        }
        assert(dl[i] == ss[i]);
        lemma_models_remove(dl, i);
        assert(ss.remove(i).drop_last() =~= dl.remove(i));
        assert(ss.remove(i).last() == ss.last());
        let clast = ss.last().model().consumer;
        assert(models_of(ss.remove(i)) == models_of(dl.remove(i)).insert(
            clast,
            ss.last().model(),
        ));
        assert(c != clast);
        assert(models_of(dl).remove(c).insert(clast, ss.last().model()) =~= models_of(dl).insert(
            clast,
            ss.last().model(),
        ).remove(c));
    }
}

/// The values a consumer's link supplies: a base configuration parsed from
/// its own blob, and the single-value overrides.
pub struct LinkValues {
    pub base: Option<ConnectionConfig>,
    pub subscription: Option<String>,
    pub uri: Option<String>,
    pub jwt: Option<String>,
    pub seed: Option<String>,
}

/// The provider: a default configuration and the sessions of all linked
/// consumers, each independent of the others.
pub struct SessionManager {
    sessions: Vec<Session>,
    default_config: ConnectionConfig,
}

impl SessionManager {
    pub closed spec fn model(&self) -> Map<Seq<char>, SessionModel> {
        models_of(self.sessions@)
    }

    pub closed spec fn default_config_model(&self) -> ConfigView {
        self.default_config@
    }

    pub closed spec fn wf(&self) -> bool {
        &&& unique_consumers(self.sessions@)
        &&& forall|i: int| 0 <= i < self.sessions@.len() ==> (#[trigger] self.sessions@[i]).wf()
    }

    pub fn new(default_config: ConnectionConfig) -> (r: SessionManager)
        ensures
            r.wf(),
            r.model() == Map::<Seq<char>, SessionModel>::empty(),
            r.default_config_model() == default_config@,
    {
        SessionManager { sessions: Vec::new(), default_config }
    }

    /// The configuration a new link runs under: with no values, the
    /// provider's default; otherwise the values resolved and merged onto
    /// the default.  An invalid configuration is a rejection, not a panic.
    pub fn link_config(&self, values: Option<LinkValues>) -> (r: Result<
        ConnectionConfig,
        ConfigError,
    >)
        ensures
            values is None ==> (r matches Ok(c) && c@ == self.default_config_model()),
            values matches Some(v) ==> ({
                let b = match v.base {
                    Some(base) => base@,
                    None => default_config_view(),
                };
                let rc = resolved_config(
                    b,
                    opt_view(v.subscription),
                    opt_view(v.uri),
                    opt_view(v.jwt),
                    opt_view(v.seed),
                );
                match r {
                    Ok(c) => !(rc.auth_jwt is Some && rc.auth_seed is None) && c@
                        == merged_config(self.default_config_model(), with_default_uri(rc)),
                    Err(e) => rc.auth_jwt is Some && rc.auth_seed is None && e is JwtWithoutSeed,
                }
            }),
    {
        match values {
            None => Ok(self.default_config.clone()),
            Some(v) => {
                match ConnectionConfig::new_from(v.base, v.subscription, v.uri, v.jwt, v.seed) {
                    Ok(c) => Ok(self.default_config.merge(&c)),
                    Err(e) => Err(e),
                }
            },
        }
    }

    fn locate(&self, consumer: &String) -> (r: Option<usize>)
        ensures
            match r {
                Some(i) => i < self.sessions@.len() && self.sessions@[i as int].model().consumer
                    == consumer@,
                None => forall|i: int|
                    0 <= i < self.sessions@.len() ==> (#[trigger] self.sessions@[i])
                        .model().consumer != consumer@,
            },
    {
        let n = self.sessions.len();
        let mut k: usize = 0;
        while k < n
            invariant
                k <= n,
                n == self.sessions@.len(),
                forall|i: int|
                    0 <= i < k ==> (#[trigger] self.sessions@[i]).model().consumer != consumer@,
            decreases n - k,
        {
            if self.sessions[k].consumer().eq(consumer) {
                return Some(k);
            }
            k = k + 1;
        }
        None
    }

    pub fn has_session(&self, consumer: &String) -> (b: bool)
        ensures
            b == self.model().contains_key(consumer@),
    {
        proof {
            lemma_models_contains(self.sessions@, consumer@);
        }
        self.locate(consumer).is_some()
    }

    /// Stores a connected session under its consumer; a session already
    /// stored for that consumer is replaced and handed back for teardown.
    pub fn attach(&mut self, session: Session) -> (replaced: Option<Session>)
        requires
            old(self).wf(),
            session.wf(),
        ensures
            final(self).wf(),
            final(self).model() == old(self).model().insert(
                session.model().consumer,
                session.model(),
            ),
            final(self).default_config_model() == old(self).default_config_model(),
            replaced is Some <==> old(self).model().contains_key(session.model().consumer),
            replaced matches Some(s) ==> s.wf() && s.model() == old(self).model()[
                session.model().consumer],
    {
        let ghost ss0 = self.sessions@;
        let ghost c = session.model().consumer;
        let found = self.locate(session.consumer());
        match found {
            Some(i) => {
                proof {
                    lemma_models_value(ss0, i as int);
                    lemma_models_remove(ss0, i as int);
                    lemma_models_contains(ss0, c);
                }
                let prior = self.sessions.remove(i);
                let ghost ss1 = self.sessions@;
                self.sessions.push(session);
                proof {
                    assert(self.sessions@.drop_last() =~= ss1);
                    assert(self.sessions@.last() == session);
                    assert(models_of(self.sessions@) == models_of(ss1).insert(
                        c,
                        session.model(),
                    ));
                    assert(models_of(ss0).remove(c).insert(c, session.model()) =~= models_of(
                        ss0,
                    ).insert(c, session.model()));
                    lemma_unique_after_replace(ss0, i as int, session);
                }
                Some(prior)
            },
            None => {
                proof {
                    lemma_models_contains(ss0, c);
                }
                self.sessions.push(session);
                proof {
                    assert(self.sessions@.drop_last() =~= ss0);
                    assert(forall|a: int| 0 <= a < ss0.len() ==> self.sessions@[a] == ss0[a]);
                }
                None
            },
        }
    }

    /// Removes a consumer's session.  The caller owns what comes back: its
    /// task handles are to be aborted and every subscription it lists
    /// released, so nothing of the session outlives the unlink.
    pub fn detach(&mut self, consumer: &String) -> (removed: Option<Session>)
        requires
            old(self).wf(),
        ensures
            final(self).wf(),
            final(self).model() == old(self).model().remove(consumer@),
            final(self).default_config_model() == old(self).default_config_model(),
            removed is Some <==> old(self).model().contains_key(consumer@),
            removed matches Some(s) ==> s.wf() && s.model() == old(self).model()[consumer@],
    {
        let ghost ss0 = self.sessions@;
        proof {
            lemma_models_contains(ss0, consumer@);
        }
        match self.locate(consumer) {
            Some(i) => {
                proof {
                    lemma_models_value(ss0, i as int);
                    lemma_models_remove(ss0, i as int);
                }
                let prior = self.sessions.remove(i);
                proof {
                    assert(forall|a: int, b: int|
                        0 <= a < b < self.sessions@.len() ==> (#[trigger] self.sessions@[a])
                            .model().consumer != (#[trigger] self.sessions@[b]).model().consumer)
                        by {
                        assert(forall|a: int|
                            0 <= a < self.sessions@.len() ==> self.sessions@[a] == (if a < i {
                                ss0[a]
                            } else {
                                ss0[a + 1]
                            }));
                    }
                }
                Some(prior)
            },
            None => {
                proof {
                    assert(old(self).model().remove(consumer@) =~= old(self).model());
                }
                None
            },
        }
    }

    /// Detaches every session at provider shutdown; the caller tears each
    /// one down.
    pub fn shutdown_all(&mut self) -> (all: Vec<Session>)
        requires
            old(self).wf(),
        ensures
            final(self).wf(),
            final(self).model() == Map::<Seq<char>, SessionModel>::empty(),
            final(self).default_config_model() == old(self).default_config_model(),
            models_of(all@) == old(self).model(),
            forall|i: int| 0 <= i < all@.len() ==> (#[trigger] all@[i]).wf(),
    {
        let mut all: Vec<Session> = Vec::new();
        core::mem::swap(&mut self.sessions, &mut all);
        all
    }

    /// Routes one decoded heartbeat to its consumer's session; for a
    /// detached consumer nothing happens and nothing changes.
    pub fn register_for(&mut self, consumer: &String, d: SensorDescriptor) -> (o: Option<
        RegisterOutcome,
    >)
        requires
            old(self).wf(),
        ensures
            final(self).wf(),
            final(self).model() == manager_register_step(old(self).model(), consumer@, d),
            final(self).default_config_model() == old(self).default_config_model(),
            o is Some <==> old(self).model().contains_key(consumer@),
            o matches Some(out) ==> {
                let m = old(self).model()[consumer@];
                &&& (out is Duplicate <==> m.registry.contains_key(d.id))
                &&& (out matches RegisterOutcome::Registered { spawn_ticker } ==> spawn_ticker
                    == register_spawns(m, d))
            },
    {
        let ghost ss0 = self.sessions@;
        proof {
            lemma_models_contains(ss0, consumer@);
        }
        match self.locate(consumer) {
            Some(i) => {
                proof {
                    lemma_models_value(ss0, i as int);
                    lemma_models_remove(ss0, i as int);
                }
                let mut s = self.sessions.remove(i);
                let out = s.register(d);
                let ghost ss1 = self.sessions@;
                let ghost c = consumer@;
                let ghost snew = s.model();
                self.sessions.push(s);
                proof {
                    assert(self.sessions@.drop_last() =~= ss1);
                    assert(models_of(self.sessions@) == models_of(ss1).insert(c, snew));
                    assert(models_of(ss0).remove(c).insert(c, snew) =~= models_of(ss0).insert(
                        c,
                        snew,
                    ));
                    lemma_unique_after_replace_model(ss0, i as int, self.sessions@);
                }
                Some(out)
            },
            None => None,
        }
    }

    /// Routes one tick to its consumer's session; for a detached consumer
    /// nothing happens and nothing changes.
    pub fn tick_for(&mut self, consumer: &String, ivl: u64) -> (o: Option<TickOutcome>)
        requires
            old(self).wf(),
        ensures
            final(self).wf(),
            final(self).model() == manager_tick_step(old(self).model(), consumer@, ivl),
            final(self).default_config_model() == old(self).default_config_model(),
            o is Some <==> old(self).model().contains_key(consumer@),
            o matches Some(out) ==> {
                let m = old(self).model()[consumer@];
                &&& (out is Terminate <==> tick_terminates(m, ivl))
                &&& (out matches TickOutcome::Cohort(cohort) ==> {
                    let b = m.schedule[ivl];
                    &&& cohort@.len() == b.len()
                    &&& forall|k: int| 0 <= k < b.len() ==> cohort@[k] == m.registry[b[k]]
                })
            },
    {
        let ghost ss0 = self.sessions@;
        proof {
            lemma_models_contains(ss0, consumer@);
        }
        match self.locate(consumer) {
            Some(i) => {
                proof {
                    lemma_models_value(ss0, i as int);
                    lemma_models_remove(ss0, i as int);
                }
                let mut s = self.sessions.remove(i);
                let out = s.tick(ivl);
                let ghost ss1 = self.sessions@;
                let ghost c = consumer@;
                let ghost snew = s.model();
                self.sessions.push(s);
                proof {
                    assert(self.sessions@.drop_last() =~= ss1);
                    assert(models_of(self.sessions@) == models_of(ss1).insert(c, snew));
                    assert(models_of(ss0).remove(c).insert(c, snew) =~= models_of(ss0).insert(
                        c,
                        snew,
                    ));
                    lemma_unique_after_replace_model(ss0, i as int, self.sessions@);
                }
                Some(out)
            },
            None => None,
        }
    }
}

proof fn lemma_unique_after_replace(ss0: Seq<Session>, i: int, snew: Session)
    requires
        unique_consumers(ss0),
        0 <= i < ss0.len(),
        snew.model().consumer == ss0[i].model().consumer,
    ensures
        unique_consumers(ss0.remove(i).push(snew)),
{
    let ss1 = ss0.remove(i).push(snew);
    assert forall|a: int, b: int| 0 <= a < b < ss1.len() implies (#[trigger] ss1[a])
        .model().consumer != (#[trigger] ss1[b]).model().consumer by {
        if b == ss1.len() - 1 {
            let ja = if a < i {
                a
            } else {
                a + 1
            };
            assert(ss1[a] == ss0[ja]);
            assert(ss1[b] == snew);
            assert(ja != i);
        } else {
            let ja = if a < i {
                a
            } else {
                a + 1
            };
            let jb = if b < i {
                b
            } else {
                b + 1
            };
            assert(ss1[a] == ss0[ja]);
            assert(ss1[b] == ss0[jb]);
        }
    }
}

proof fn lemma_unique_after_replace_model(ss0: Seq<Session>, i: int, ss1: Seq<Session>)
    requires
        unique_consumers(ss0),
        0 <= i < ss0.len(),
        ss1.len() == ss0.len(),
        ss1.drop_last() == ss0.remove(i),
        ss1.last().model().consumer == ss0[i].model().consumer,
    ensures
        unique_consumers(ss1),
{
    assert forall|a: int, b: int| 0 <= a < b < ss1.len() implies (#[trigger] ss1[a])
        .model().consumer != (#[trigger] ss1[b]).model().consumer by {
        let ja = if a < i {
            a
        } else {
            a + 1
        };
        assert(ss1[a] == ss0.remove(i)[a]);
        assert(ss1[a] == ss0[ja]);
        if b == ss1.len() - 1 {
            assert(ja != i);
        } else {
            let jb = if b < i {
                b
            } else {
                b + 1
            };
            assert(ss1[b] == ss1.drop_last()[b]);
            assert(ss1[b] == ss0.remove(i)[b]);
            assert(ss1[b] == ss0[jb]);
        }
    }
}

/// Teardown completeness: once a consumer's session is detached, the
/// consumer is gone from the manager, and neither a heartbeat-driven
/// registration nor a tick for that consumer changes anything ever after.
pub proof fn lemma_teardown_completeness(
    mm: Map<Seq<char>, SessionModel>,
    c: Seq<char>,
    d: SensorDescriptor,
    ivl: u64,
)
    ensures
        !mm.remove(c).contains_key(c),
        manager_register_step(mm.remove(c), c, d) == mm.remove(c),
        manager_tick_step(mm.remove(c), c, ivl) == mm.remove(c),
{
}

} // verus!
