//! One consumer's session: the registry of discovered sensors, the schedule
//! of per-interval cohorts, and the set of live ticker tasks, advanced one
//! atomic decision at a time.
//!
//! The session state is modelled by [`SessionModel`]; every operation's
//! contract pins the new model as a function of the old one, so the shell
//! that drives the bus can be thin and every scheduling decision is proved.

use vstd::prelude::*;
use crate::config::views_of;
use crate::registry::Registry;
use crate::schedule::Schedule;
use crate::sensor::SensorDescriptor;

verus! {

/// The mathematical state of one session.
#[verifier::ext_equal]
pub ghost struct SessionModel {
    /// The consumer this session serves.
    pub consumer: Seq<char>,
    /// Each registered sensor's descriptor, by identity.
    pub registry: Map<u128, SensorDescriptor>,
    /// For each poll interval with members, the identities sharing it.
    pub schedule: Map<u64, Seq<u128>>,
    /// The intervals whose ticker task is alive.
    pub tickers: Seq<u64>,
    /// The bus subscriptions this session owns.
    pub subscriptions: Seq<Seq<char>>,
}

/// The session invariant: descriptors are keyed by their own id; every
/// registered sensor sits in the bucket of its declared interval; every
/// bucket is non-empty, holds each id once, and holds only sensors
/// registered with that interval; every bucket has a live ticker; and no
/// interval has two tickers.
pub open spec fn session_inv(m: SessionModel) -> bool {
    &&& forall|id: u128| #[trigger] m.registry.contains_key(id) ==> m.registry[id].id == id
    &&& forall|id: u128| #[trigger] m.registry.contains_key(id) ==> {
        let ivl = m.registry[id].poll_interval;
        m.schedule.contains_key(ivl) && m.schedule[ivl].contains(id)
    }
    &&& forall|ivl: u64| #[trigger] m.schedule.contains_key(ivl) ==> m.schedule[ivl].len() > 0
    &&& forall|ivl: u64, k: int|
        #![trigger m.schedule[ivl][k]]
        m.schedule.contains_key(ivl) && 0 <= k < m.schedule[ivl].len() ==> {
            &&& m.registry.contains_key(m.schedule[ivl][k])
            &&& m.registry[m.schedule[ivl][k]].poll_interval == ivl
        }
    &&& forall|ivl: u64, k1: int, k2: int|
        #![trigger m.schedule[ivl][k1], m.schedule[ivl][k2]]
        m.schedule.contains_key(ivl) && 0 <= k1 < k2 < m.schedule[ivl].len()
            ==> m.schedule[ivl][k1] != m.schedule[ivl][k2]
    &&& forall|ivl: u64| #[trigger] m.schedule.contains_key(ivl) ==> m.tickers.contains(ivl)
    &&& forall|k1: int, k2: int|
        #![trigger m.tickers[k1], m.tickers[k2]]
        0 <= k1 < k2 < m.tickers.len() ==> m.tickers[k1] != m.tickers[k2]
}

/// What registering a heartbeat does to a session: a known id changes
/// nothing; a new sensor is recorded, joins the bucket of its interval
/// (creating it if absent), and gets a ticker if its interval has none.
pub open spec fn register_step(m: SessionModel, d: SensorDescriptor) -> SessionModel {
    if m.registry.contains_key(d.id) {
        m
    } else {
        SessionModel {
            registry: m.registry.insert(d.id, d),
            schedule: if m.schedule.contains_key(d.poll_interval) {
                m.schedule.insert(d.poll_interval, m.schedule[d.poll_interval].push(d.id))
            } else {
                m.schedule.insert(d.poll_interval, seq![d.id])
            },
            tickers: if m.tickers.contains(d.poll_interval) {
                m.tickers
            } else {
                m.tickers.push(d.poll_interval)
            },
            ..m
        }
    }
}

/// Whether registering `d` must spawn a ticker task: only a new sensor
/// whose interval has no live ticker.
pub open spec fn register_spawns(m: SessionModel, d: SensorDescriptor) -> bool {
    !m.registry.contains_key(d.id) && !m.tickers.contains(d.poll_interval)
}

pub open spec fn remove_first(s: Seq<u64>, x: u64) -> Seq<u64> {
    match s.index_of_first(x) {
        Some(i) => s.remove(i),
        None => s,
    }
}

/// A tick terminates its ticker exactly when its interval no longer has a
/// bucket.
pub open spec fn tick_terminates(m: SessionModel, ivl: u64) -> bool {
    !m.schedule.contains_key(ivl)
}

/// What one tick does to a session: a terminated ticker leaves the live
/// set; otherwise nothing changes.
pub open spec fn tick_step(m: SessionModel, ivl: u64) -> SessionModel {
    if tick_terminates(m, ivl) {
        SessionModel { tickers: remove_first(m.tickers, ivl), ..m }
    } else {
        m
    }
}

/// What deregistering does: an unknown id changes nothing; a known sensor
/// leaves the registry and its bucket, and a bucket left empty is removed.
pub open spec fn deregister_step(m: SessionModel, id: u128) -> SessionModel {
    if !m.registry.contains_key(id) {
        m
    } else {
        let ivl = m.registry[id].poll_interval;
        let b = m.schedule[ivl];
        SessionModel {
            registry: m.registry.remove(id),
            schedule: match b.index_of_first(id) {
                Some(at) => if b.len() == 1 {
                    m.schedule.remove(ivl)
                } else {
                    m.schedule.insert(ivl, b.remove(at))
                },
                None => m.schedule,
            },
            ..m
        }
    }
}

/// A torn-down session: registry, schedule and tickers all cleared.
pub open spec fn cleared(m: SessionModel) -> SessionModel {
    SessionModel {
        registry: Map::empty(),
        schedule: Map::empty(),
        tickers: Seq::empty(),
        ..m
    }
}

/// The outcome of handling one heartbeat.
pub enum RegisterOutcome {
    /// The id was already registered: the heartbeat is a no-op.
    Duplicate,
    /// The sensor was registered; if `spawn_ticker`, a ticker task must be
    /// started for its interval.
    Registered { spawn_ticker: bool },
}

/// The outcome of one tick.
pub enum TickOutcome {
    /// The interval has no members left: the ticker must exit.
    Terminate,
    /// The cohort due this tick: one resolved descriptor per member.
    Cohort(Vec<SensorDescriptor>),
}

fn contains_u64(v: &Vec<u64>, x: u64) -> (b: bool)
    ensures
        b == v@.contains(x),
{
    let mut k: usize = 0;
    while k < v.len()
        invariant
            k <= v@.len(),
            forall|j: int| 0 <= j < k ==> v@[j] != x,
        decreases v@.len() - k,
    {
        if v[k] == x {
            return true;
        }
        k = k + 1;
    }
    false
}

fn remove_first_u64(v: &mut Vec<u64>, x: u64)
    ensures
        final(v)@ == remove_first(old(v)@, x),
{
    let ghost before = v@;
    let n = v.len();
    let mut k: usize = 0;
    let mut pos: Option<usize> = None;
    while k < n
        invariant
            k <= n,
            n == v@.len(),
            before == v@,
            match pos {
                None => forall|j: int| 0 <= j < k ==> v@[j] != x,
                Some(p) => p < n && v@[p as int] == x && (forall|j: int| 0 <= j < p ==> v@[j]
                    != x),
            },
        decreases n - k,
    {
        if pos.is_none() && v[k] == x {
            pos = Some(k);
        }
        k = k + 1;
    }
    match pos {
        Some(at) => {
            proof {
                before.index_of_first_ensures(x);
                assert(before.index_of_first(x) == Some(at as int));
            }
            v.remove(at);
        },
        None => {
            proof {
                before.index_of_first_ensures(x);
                assert(before.index_of_first(x) is None);
            }
        },
    }
}

fn clone_ids(v: &Vec<u128>) -> (r: Vec<u128>)
    ensures
        r@ == v@,
{
    let mut r: Vec<u128> = Vec::new();
    let mut k: usize = 0;
    while k < v.len()
        invariant
            k <= v@.len(),
            r@ =~= v@.take(k as int),
        decreases v@.len() - k,
    {
        r.push(v[k]);
        assert(r@ =~= v@.take(k + 1));
        k = k + 1;
    }
    assert(r@ =~= v@);
    r
}

/// One consumer's session state.
pub struct Session {
    consumer: String,
    registry: Registry,
    schedule: Schedule,
    tickers: Vec<u64>,
    subscriptions: Vec<String>,
}

impl Session {
    pub closed spec fn model(&self) -> SessionModel {
        SessionModel {
            consumer: self.consumer@,
            registry: self.registry@,
            schedule: self.schedule@,
            tickers: self.tickers@,
            subscriptions: views_of(self.subscriptions@),
        }
    }

    pub open spec fn wf(&self) -> bool {
        session_inv(self.model())
    }

    /// A fresh session for one consumer, owning the given bus
    /// subscriptions, with nothing registered and nothing scheduled.
    pub fn new(consumer: String, subscriptions: Vec<String>) -> (s: Session)
        ensures
            s.wf(),
            s.model() == (SessionModel {
                consumer: consumer@,
                registry: Map::<u128, SensorDescriptor>::empty(),
                schedule: Map::<u64, Seq<u128>>::empty(),
                tickers: Seq::<u64>::empty(),
                subscriptions: views_of(subscriptions@),
            }),
    {
        let s = Session {
            consumer,
            registry: Registry::new(),
            schedule: Schedule::new(),
            tickers: Vec::new(),
            subscriptions,
        };
        proof {
            assert(s.model() =~~= SessionModel {
                consumer: s.consumer@,
                registry: Map::<u128, SensorDescriptor>::empty(),
                schedule: Map::<u64, Seq<u128>>::empty(),
                tickers: Seq::<u64>::empty(),
                subscriptions: views_of(s.subscriptions@),
            });
        }
        s
    }

    pub fn consumer(&self) -> (r: &String)
        ensures
            r@ == self.model().consumer,
    {
        &self.consumer
    }

    /// The bus subscriptions this session owns, to be released on teardown.
    pub fn subscriptions(&self) -> (r: &Vec<String>)
        ensures
            views_of(r@) == self.model().subscriptions,
    {
        &self.subscriptions
    }

    /// How many sensors are registered.
    pub fn sensor_count(&self) -> (n: usize)
        ensures
            n == self.model().registry.dom().len(),
    {
        self.registry.len()
    }

    /// Whether an interval currently has a bucket.
    pub fn has_bucket(&self, ivl: u64) -> (b: bool)
        ensures
            b == self.model().schedule.contains_key(ivl),
    {
        self.schedule.has_bucket(ivl)
    }

    /// Whether a sensor is registered.
    pub fn is_registered(&self, id: u128) -> (b: bool)
        ensures
            b == self.model().registry.contains_key(id),
    {
        self.registry.contains(id)
    }

    /// Handles one decoded heartbeat: a duplicate id is ignored, a new
    /// sensor is registered and scheduled, and the outcome says whether a
    /// ticker task must be spawned for its interval.  The check and the
    /// insertion are one atomic step, so no interval ever gains two tickers.
    pub fn register(&mut self, d: SensorDescriptor) -> (o: RegisterOutcome)
        requires
            old(self).wf(),
        ensures
            final(self).wf(),
            final(self).model() == register_step(old(self).model(), d),
            o is Duplicate <==> old(self).model().registry.contains_key(d.id),
            o matches RegisterOutcome::Registered { spawn_ticker } ==> spawn_ticker
                == register_spawns(old(self).model(), d),
    {
        let ghost m0 = self.model();
        if self.registry.contains(d.id) {
            proof {
                assert(self.model() =~~= register_step(m0, d));
            }
            RegisterOutcome::Duplicate
        } else {
            let id = d.id;
            let ivl = d.poll_interval;
            self.registry.insert_new(d);
            let created = self.schedule.add_sensor(ivl, id);
            let spawn: bool;
            if created {
                spawn = !contains_u64(&self.tickers, ivl);
                if spawn {
                    self.tickers.push(ivl);
                }
            } else {
                proof {
                    assert(m0.schedule.contains_key(ivl));
                    assert(m0.tickers.contains(ivl));
                }
                spawn = false;
            }
            proof {
                lemma_register_preserves_inv(m0, self.model(), d);
            }
            RegisterOutcome::Registered { spawn_ticker: spawn }
        }
    }

    /// One tick of the interval's ticker: if the bucket is gone the ticker
    /// terminates (a later heartbeat spawns a fresh one); otherwise the
    /// bucket is snapshotted and resolved to the cohort of descriptors due
    /// this tick.
    pub fn tick(&mut self, ivl: u64) -> (o: TickOutcome)
        requires
            old(self).wf(),
        ensures
            final(self).wf(),
            final(self).model() == tick_step(old(self).model(), ivl),
            o is Terminate <==> tick_terminates(old(self).model(), ivl),
            o matches TickOutcome::Cohort(c) ==> {
                let b = old(self).model().schedule[ivl];
                &&& c@.len() == b.len()
                &&& forall|k: int|
                    0 <= k < b.len() ==> c@[k] == old(self).model().registry[b[k]]
            },
    {
        let ghost m0 = self.model();
        let snapshot: Vec<u128> = match self.schedule.bucket(ivl) {
            Some(ids) => clone_ids(ids),
            None => {
                remove_first_u64(&mut self.tickers, ivl);
                proof {
                    lemma_ticker_removal_preserves_inv(m0, self.model(), ivl);
                    assert(self.model() =~~= tick_step(m0, ivl));
                }
                return TickOutcome::Terminate;
            },
        };
        let ghost b = m0.schedule[ivl];
        let mut cohort: Vec<SensorDescriptor> = Vec::new();
        let mut k: usize = 0;
        let n = snapshot.len();
        while k < n
            invariant
                k <= n,
                n == b.len(),
                snapshot@ == b,
                *self == *old(self),
                self.model() == m0,
                session_inv(m0),
                m0.schedule.contains_key(ivl) && m0.schedule[ivl] == b,
                cohort@.len() == k,
                forall|j: int| 0 <= j < k ==> cohort@[j] == m0.registry[b[j]],
            decreases n - k,
        {
            let id = snapshot[k];
            assert(m0.registry.contains_key(id) && m0.registry[id].poll_interval == ivl);
            match self.registry.get(id) {
                Some(d) => {
                    cohort.push(d.clone());
                },
                None => {
                    // A member of a live bucket is always registered.
                    proof {
                        assert(false);
                    }
                },
            }
            k = k + 1;
        }
        proof {
            assert(self.model() =~~= tick_step(m0, ivl));
        }
        TickOutcome::Cohort(cohort)
    }

    /// Removes one sensor: it leaves the registry and its interval's
    /// bucket, and a bucket left empty is removed, so its ticker terminates
    /// on its next tick.
    pub fn deregister(&mut self, id: u128) -> (removed: bool)
        requires
            old(self).wf(),
        ensures
            final(self).wf(),
            final(self).model() == deregister_step(old(self).model(), id),
            removed <==> old(self).model().registry.contains_key(id),
    {
        let ghost m0 = self.model();
        let ivl = match self.registry.get(id) {
            Some(d) => d.poll_interval,
            None => {
                proof {
                    assert(self.model() =~~= deregister_step(m0, id));
                }
                return false;
            },
        };
        self.registry.remove(id);
        self.schedule.remove_sensor(ivl, id);
        proof {
            lemma_deregister_preserves_inv(m0, self.model(), id);
        }
        true
    }

    /// Tears the session's state down: everything registered and scheduled
    /// is dropped.  The owned bus subscriptions are still listed, so the
    /// shell can release them.
    pub fn clear(&mut self)
        ensures
            final(self).wf(),
            final(self).model() == cleared(old(self).model()),
    {
        self.registry.clear();
        self.schedule.clear();
        self.tickers.clear();
        proof {
            assert(self.model() =~~= cleared(old(self).model()));
        }
    }
}

proof fn lemma_register_preserves_inv(m0: SessionModel, m1: SessionModel, d: SensorDescriptor)
    requires
        session_inv(m0),
        !m0.registry.contains_key(d.id),
        m1 == register_step(m0, d),
    ensures
        session_inv(m1),
{
    let ivl = d.poll_interval;
    let b1 = m1.schedule[ivl];
    if m0.schedule.contains_key(ivl) {
        assert(b1 == m0.schedule[ivl].push(d.id));
    }
    assert forall|id: u128| #[trigger] m1.registry.contains_key(id) implies {
        let iv = m1.registry[id].poll_interval;
        m1.schedule.contains_key(iv) && m1.schedule[iv].contains(id)
    } by {
        if id == d.id {
            if m0.schedule.contains_key(ivl) {
                assert(b1[b1.len() - 1] == d.id);
                assert(b1.contains(d.id));
            } else {
                assert(b1[0] == d.id);
                assert(b1.contains(d.id));
            }
        } else {
            let iv = m0.registry[id].poll_interval;
            assert(m0.schedule.contains_key(iv) && m0.schedule[iv].contains(id));
            if iv == ivl {
                let j = choose|j: int| 0 <= j < m0.schedule[iv].len() && m0.schedule[iv][j] == id;
                assert(b1[j] == id);
                assert(b1.contains(id));
            } else {
                assert(m1.schedule[iv] == m0.schedule[iv]);
            }
        }
    }
    assert forall|iv: u64, k: int|
        m1.schedule.contains_key(iv) && 0 <= k < m1.schedule[iv].len() implies {
        &&& #[trigger] m1.registry.contains_key(m1.schedule[iv][k])
        &&& m1.registry[m1.schedule[iv][k]].poll_interval == iv
    } by {
        if iv == ivl {
            if m0.schedule.contains_key(ivl) {
                if k < m0.schedule[ivl].len() {
                    assert(b1[k] == m0.schedule[ivl][k]);
                } else {
                    assert(b1[k] == d.id);
                }
            } else {
                assert(b1[k] == d.id);
            }
        }
    }
    assert forall|iv: u64, k1: int, k2: int|
        m1.schedule.contains_key(iv) && 0 <= k1 < k2 < m1.schedule[iv].len() implies
        m1.schedule[iv][k1] != m1.schedule[iv][k2] by {
        if iv == ivl && m0.schedule.contains_key(ivl) {
            let b0 = m0.schedule[ivl];
            if k2 == b0.len() {
                // the new member is d.id, which was not yet registered, so
                // it cannot already sit in the bucket
                assert(b1[k2] == d.id);
                assert(b1[k1] == b0[k1]);
                assert(m0.registry.contains_key(b0[k1]));
            }
        }
    }
    assert forall|iv: u64| #[trigger] m1.schedule.contains_key(iv) implies m1.tickers.contains(
        iv,
    ) by {
        if iv == ivl {
            if m0.tickers.contains(ivl) {
                if !m1.tickers.contains(ivl) {
                    let j = choose|j: int| 0 <= j < m0.tickers.len() && m0.tickers[j] == ivl;
                    assert(m1.tickers[j] == ivl);
                }
            } else {
                assert(m1.tickers == m0.tickers.push(ivl));
                assert(m1.tickers[m1.tickers.len() - 1] == ivl);
            }
        } else {
            assert(m0.schedule.contains_key(iv));
            let j = choose|j: int| 0 <= j < m0.tickers.len() && m0.tickers[j] == iv;
            assert(m1.tickers[j] == iv);
        }
    }
    assert forall|k1: int, k2: int| 0 <= k1 < k2 < m1.tickers.len() implies m1.tickers[k1]
        != m1.tickers[k2] by {
        if !m0.tickers.contains(ivl) {
            if k2 == m0.tickers.len() {
                assert(m1.tickers[k2] == ivl);
                assert(m1.tickers[k1] == m0.tickers[k1]);
                assert(m0.tickers.contains(m0.tickers[k1]));
            }
        }
    }
}

proof fn lemma_ticker_removal_preserves_inv(m0: SessionModel, m1: SessionModel, ivl: u64)
    requires
        session_inv(m0),
        !m0.schedule.contains_key(ivl),
        m1 == (SessionModel { tickers: remove_first(m0.tickers, ivl), ..m0 }),
    ensures
        session_inv(m1),
{
    m0.tickers.index_of_first_ensures(ivl);
    match m0.tickers.index_of_first(ivl) {
        Some(at) => {
            assert(m1.tickers == m0.tickers.remove(at));
            assert forall|iv: u64| #[trigger] m1.schedule.contains_key(iv) implies m1
                .tickers.contains(iv) by {
                assert(m0.tickers.contains(iv));
                let j = choose|j: int| 0 <= j < m0.tickers.len() && m0.tickers[j] == iv;
                assert(iv != ivl);
                if j < at {
                    assert(m1.tickers[j] == iv);
                } else {
                    assert(j > at);
                    assert(m1.tickers[j - 1] == iv);
                }
            }
            assert forall|k1: int, k2: int| 0 <= k1 < k2 < m1.tickers.len() implies m1.tickers[k1]
                != m1.tickers[k2] by {
                let j1 = if k1 < at { k1 } else { k1 + 1 };
                let j2 = if k2 < at { k2 } else { k2 + 1 };
                assert(m1.tickers[k1] == m0.tickers[j1]);
                assert(m1.tickers[k2] == m0.tickers[j2]);
            }
        },
        None => {
            assert(m1.tickers == m0.tickers);
        },
    }
}

proof fn lemma_deregister_preserves_inv(m0: SessionModel, m1: SessionModel, id: u128)
    requires
        session_inv(m0),
        m0.registry.contains_key(id),
        m1 == deregister_step(m0, id),
    ensures
        session_inv(m1),
{
    let ivl = m0.registry[id].poll_interval;
    let b = m0.schedule[ivl];
    assert(m0.schedule.contains_key(ivl) && b.contains(id));
    b.index_of_first_ensures(id);
    let at = b.index_of_first(id)->Some_0;
    assert(b[at] == id);
    // the id sits in the bucket exactly once
    assert forall|j: int| 0 <= j < b.len() && j != at implies b[j] != id by {}
    if b.len() == 1 {
        // the bucket goes away with its only member
        assert forall|sid: u128| #[trigger] m1.registry.contains_key(sid) implies {
            let iv = m1.registry[sid].poll_interval;
            m1.schedule.contains_key(iv) && m1.schedule[iv].contains(sid)
        } by {
            assert(sid != id);
            let iv = m0.registry[sid].poll_interval;
            assert(m0.schedule.contains_key(iv) && m0.schedule[iv].contains(sid));
            if iv == ivl {
                let j = choose|j: int| 0 <= j < b.len() && b[j] == sid;
                assert(j == at);
                assert(false);
            }
        }
    } else {
        let b1 = b.remove(at);
        assert(m1.schedule[ivl] == b1);
        assert forall|sid: u128| #[trigger] m1.registry.contains_key(sid) implies {
            let iv = m1.registry[sid].poll_interval;
            m1.schedule.contains_key(iv) && m1.schedule[iv].contains(sid)
        } by {
            assert(sid != id);
            let iv = m0.registry[sid].poll_interval;
            assert(m0.schedule.contains_key(iv) && m0.schedule[iv].contains(sid));
            if iv == ivl {
                let j = choose|j: int| 0 <= j < b.len() && b[j] == sid;
                assert(j != at);
                if j < at {
                    assert(b1[j] == sid);
                } else {
                    assert(b1[j - 1] == sid);
                }
                assert(b1.contains(sid));
            }
        }
        assert forall|iv: u64, k: int|
            m1.schedule.contains_key(iv) && 0 <= k < m1.schedule[iv].len() implies {
            &&& #[trigger] m1.registry.contains_key(m1.schedule[iv][k])
            &&& m1.registry[m1.schedule[iv][k]].poll_interval == iv
        } by {
            if iv == ivl {
                let j = if k < at { k } else { k + 1 };
                assert(b1[k] == b[j]);
                assert(b[j] != id);
            }
        }
        assert forall|iv: u64, k1: int, k2: int|
            m1.schedule.contains_key(iv) && 0 <= k1 < k2 < m1.schedule[iv].len() implies m1
            .schedule[iv][k1] != m1.schedule[iv][k2] by {
            if iv == ivl {
                let j1 = if k1 < at { k1 } else { k1 + 1 };
                let j2 = if k2 < at { k2 } else { k2 + 1 };
                assert(b1[k1] == b[j1] && b1[k2] == b[j2]);
            }
        }
        assert forall|iv: u64| #[trigger] m1.schedule.contains_key(iv) implies m1.tickers.contains(
            iv,
        ) by {
            assert(m0.schedule.contains_key(iv));
        }
    }
}

/// Idempotent registration: registering the same descriptor a second time
/// changes nothing at all — one registry entry, and its id in exactly one
/// bucket.
pub proof fn lemma_register_idempotent(m: SessionModel, d: SensorDescriptor)
    ensures
        register_step(register_step(m, d), d) == register_step(m, d),
{
    let m1 = register_step(m, d);
    assert(m1.registry.contains_key(d.id));
}

/// A sensor's id sits in at most one bucket: two buckets that both hold it
/// are the same bucket.
pub proof fn lemma_id_in_one_bucket(m: SessionModel, id: u128, ivl1: u64, ivl2: u64)
    requires
        session_inv(m),
        m.schedule.contains_key(ivl1) && m.schedule[ivl1].contains(id),
        m.schedule.contains_key(ivl2) && m.schedule[ivl2].contains(id),
    ensures
        ivl1 == ivl2,
{
    let k1 = choose|k: int| 0 <= k < m.schedule[ivl1].len() && m.schedule[ivl1][k] == id;
    let k2 = choose|k: int| 0 <= k < m.schedule[ivl2].len() && m.schedule[ivl2][k] == id;
    assert(m.registry[m.schedule[ivl1][k1]].poll_interval == ivl1);
    assert(m.registry[m.schedule[ivl2][k2]].poll_interval == ivl2);
}

/// Bucket lifecycle: an interval has a bucket exactly when some
/// currently-registered sensor declares that interval.
pub proof fn lemma_bucket_iff_registered(m: SessionModel, ivl: u64)
    requires
        session_inv(m),
    ensures
        m.schedule.contains_key(ivl) <==> exists|id: u128|
            #![trigger m.registry[id]]
            m.registry.contains_key(id) && m.registry[id].poll_interval == ivl,
{
    if m.schedule.contains_key(ivl) {
        let b = m.schedule[ivl];
        assert(b.len() > 0);
        let witness = b[0];
        assert(m.registry.contains_key(witness) && m.registry[witness].poll_interval == ivl);
    }
    if exists|id: u128|
        #![trigger m.registry[id]]
        m.registry.contains_key(id) && m.registry[id].poll_interval == ivl {
        let id = choose|id: u128|
            #![trigger m.registry[id]]
            m.registry.contains_key(id) && m.registry[id].poll_interval == ivl;
        assert(m.schedule.contains_key(ivl));
    }
}

/// Bucket lifecycle, across operations: removing the last sensor of an
/// interval removes its bucket, so the interval's ticker terminates on its
/// next tick; a later heartbeat declaring that interval recreates the
/// bucket, so ticks resume.
pub proof fn lemma_bucket_lifecycle(m: SessionModel, id: u128, d: SensorDescriptor)
    requires
        session_inv(m),
        m.registry.contains_key(id),
        m.schedule[m.registry[id].poll_interval].len() == 1,
        d.id == id || !m.registry.contains_key(d.id),
        d.poll_interval == m.registry[id].poll_interval,
    ensures
        tick_terminates(deregister_step(m, id), m.registry[id].poll_interval),
        !tick_terminates(register_step(deregister_step(m, id), d), d.poll_interval),
{
    let ivl = m.registry[id].poll_interval;
    let b = m.schedule[ivl];
    assert(b.contains(id));
    b.index_of_first_ensures(id);
    let m1 = deregister_step(m, id);
    assert(!m1.schedule.contains_key(ivl));
    assert(!m1.registry.contains_key(d.id));
    assert(register_step(m1, d).schedule.contains_key(ivl));
}

} // verus!
