use sensor_polling::config::ConnectionConfig;
use sensor_polling::manager::{LinkValues, SessionManager};
use sensor_polling::reading::make_reading;
use sensor_polling::sensor::{normalize_descriptor, SensorDescriptor};
use sensor_polling::session::{RegisterOutcome, Session, TickOutcome};

fn descriptor(id: u128, alias: &str, interval: u64) -> SensorDescriptor {
    SensorDescriptor {
        alias: alias.to_string(),
        id,
        poll_interval: interval,
        poll_topic: format!("sim/{}/poll", alias),
        read_topic: format!("sim/{}/read", alias),
        disconnect_topic: format!("sim/{}/disconnect", alias),
        ip_addr: "10.0.0.2".to_string(),
        mac_addr: [0, 1, 2, 3, 4, 5],
        location: "lab".to_string(),
    }
}

fn fresh_session() -> Session {
    Session::new("consumer-a".to_string(), vec!["sim.heartbeat".to_string()])
}

#[test]
fn normalization_translates_all_topics() {
    let d = normalize_descriptor(descriptor(1, "t1", 1000));
    assert_eq!(d.poll_topic, "sim.t1.poll");
    assert_eq!(d.read_topic, "sim.t1.read");
    assert_eq!(d.disconnect_topic, "sim.t1.disconnect");
    assert_eq!(d.alias, "t1");
    assert_eq!(d.id, 1);
}

#[test]
fn first_registration_spawns_a_ticker() {
    let mut s = fresh_session();
    match s.register(descriptor(1, "t1", 1000)) {
        RegisterOutcome::Registered { spawn_ticker } => assert!(spawn_ticker),
        _ => panic!("a new sensor must be registered"),
    }
    assert!(s.is_registered(1));
    assert!(s.has_bucket(1000));
    assert_eq!(s.sensor_count(), 1);
}

#[test]
fn duplicate_heartbeat_is_ignored() {
    let mut s = fresh_session();
    s.register(descriptor(1, "t1", 1000));
    // the same descriptor again, and also a different one under the same id
    match s.register(descriptor(1, "t1", 1000)) {
        RegisterOutcome::Duplicate => {}
        _ => panic!("a repeated heartbeat must be a duplicate"),
    }
    match s.register(descriptor(1, "t1-renamed", 9999)) {
        RegisterOutcome::Duplicate => {}
        _ => panic!("a known id must never be re-registered"),
    }
    assert_eq!(s.sensor_count(), 1);
    assert!(!s.has_bucket(9999));
}

#[test]
fn sensors_sharing_an_interval_share_one_ticker() {
    let mut s = fresh_session();
    match s.register(descriptor(1, "t1", 1000)) {
        RegisterOutcome::Registered { spawn_ticker } => assert!(spawn_ticker),
        _ => panic!("first sensor must register"),
    }
    match s.register(descriptor(2, "t2", 1000)) {
        RegisterOutcome::Registered { spawn_ticker } => assert!(!spawn_ticker),
        _ => panic!("second sensor must register"),
    }
    match s.tick(1000) {
        TickOutcome::Cohort(cohort) => {
            let mut ids: Vec<u128> = cohort.iter().map(|d| d.id).collect();
            ids.sort();
            assert_eq!(ids, vec![1, 2]);
        }
        _ => panic!("a populated bucket must yield its cohort"),
    }
}

#[test]
fn bucket_lifecycle_terminates_and_respawns() {
    let mut s = fresh_session();
    s.register(descriptor(1, "t1", 1000));
    assert!(s.has_bucket(1000));

    // removing the last sensor of the interval empties and removes the bucket
    assert!(s.deregister(1));
    assert!(!s.has_bucket(1000));

    // the ticker observes the missing bucket and terminates
    match s.tick(1000) {
        TickOutcome::Terminate => {}
        _ => panic!("an empty interval must terminate its ticker"),
    }

    // a fresh heartbeat for the same interval must spawn a fresh ticker
    match s.register(descriptor(2, "t2", 1000)) {
        RegisterOutcome::Registered { spawn_ticker } => assert!(spawn_ticker),
        _ => panic!("the interval must be recreated"),
    }
    match s.tick(1000) {
        TickOutcome::Cohort(cohort) => assert_eq!(cohort.len(), 1),
        _ => panic!("the recreated bucket must tick again"),
    }
}

#[test]
fn ticker_survives_while_members_remain() {
    let mut s = fresh_session();
    s.register(descriptor(1, "t1", 1000));
    s.register(descriptor(2, "t2", 1000));
    assert!(s.deregister(1));
    assert!(s.has_bucket(1000));
    match s.tick(1000) {
        TickOutcome::Cohort(cohort) => {
            assert_eq!(cohort.len(), 1);
            assert_eq!(cohort[0].id, 2);
        }
        _ => panic!("one member must keep the bucket alive"),
    }
    assert!(!s.deregister(1));
}

#[test]
fn test_end_to_end_two_intervals() {
    // Sensor A polls at 1000 ms, sensor B at 2000 ms.
    let mut s = fresh_session();
    s.register(normalize_descriptor(descriptor(1, "a", 1000)));
    s.register(normalize_descriptor(descriptor(2, "b", 2000)));

    // After ~1000 ms only A's ticker fires: one tick covering {A}.
    let first = match s.tick(1000) {
        TickOutcome::Cohort(c) => c,
        _ => panic!("interval 1000 must tick"),
    };
    assert_eq!(first.len(), 1);
    assert_eq!(first[0].id, 1);

    // After ~2000 ms both tickers fire: one tick covering {A}, one {B}.
    let again = match s.tick(1000) {
        TickOutcome::Cohort(c) => c,
        _ => panic!("interval 1000 must tick again"),
    };
    let other = match s.tick(2000) {
        TickOutcome::Cohort(c) => c,
        _ => panic!("interval 2000 must tick"),
    };
    assert_eq!(again.len(), 1);
    assert_eq!(again[0].id, 1);
    assert_eq!(other.len(), 1);
    assert_eq!(other[0].id, 2);

    // Each tick yields one reading per covered sensor.
    let readings: Vec<_> = other
        .iter()
        .map(|d| make_reading(d, 42, Some(b"\"5.0\"".to_vec())))
        .collect();
    assert_eq!(readings.len(), 1);
    assert_eq!(readings[0].source, "lab.b");
}

#[test]
fn manager_routes_by_consumer() {
    let mut m = SessionManager::new(ConnectionConfig::default());
    assert!(m.attach(fresh_session()).is_none());
    let c = "consumer-a".to_string();
    assert!(m.has_session(&c));

    match m.register_for(&c, descriptor(1, "t1", 1000)) {
        Some(RegisterOutcome::Registered { spawn_ticker }) => assert!(spawn_ticker),
        _ => panic!("an attached consumer's heartbeat must register"),
    }
    match m.tick_for(&c, 1000) {
        Some(TickOutcome::Cohort(cohort)) => assert_eq!(cohort.len(), 1),
        _ => panic!("an attached consumer's ticker must tick"),
    }

    let stranger = "consumer-b".to_string();
    assert!(m.register_for(&stranger, descriptor(2, "t2", 1000)).is_none());
    assert!(m.tick_for(&stranger, 1000).is_none());
}

#[test]
fn detach_is_complete() {
    let mut m = SessionManager::new(ConnectionConfig::default());
    m.attach(fresh_session());
    let c = "consumer-a".to_string();
    m.register_for(&c, descriptor(1, "t1", 1000));

    let removed = m.detach(&c).expect("the attached session must come back");
    assert_eq!(removed.consumer(), &c);
    assert_eq!(removed.subscriptions(), &vec!["sim.heartbeat".to_string()]);

    // after the detach: no session, no registration, no tick
    assert!(!m.has_session(&c));
    assert!(m.register_for(&c, descriptor(2, "t2", 1000)).is_none());
    assert!(m.tick_for(&c, 1000).is_none());
    assert!(m.detach(&c).is_none());
}

#[test]
fn attach_replaces_a_relinked_consumer() {
    let mut m = SessionManager::new(ConnectionConfig::default());
    m.attach(fresh_session());
    let c = "consumer-a".to_string();
    m.register_for(&c, descriptor(1, "t1", 1000));

    let replaced = m
        .attach(Session::new(c.clone(), vec![]))
        .expect("relinking must hand the old session back");
    assert_eq!(replaced.consumer(), &c);

    // the fresh session starts empty
    match m.register_for(&c, descriptor(1, "t1", 1000)) {
        Some(RegisterOutcome::Registered { .. }) => {}
        _ => panic!("the replacement session must be empty"),
    }
}

#[test]
fn shutdown_detaches_every_session() {
    let mut m = SessionManager::new(ConnectionConfig::default());
    m.attach(Session::new("one".to_string(), vec![]));
    m.attach(Session::new("two".to_string(), vec![]));
    let all = m.shutdown_all();
    assert_eq!(all.len(), 2);
    assert!(!m.has_session(&"one".to_string()));
    assert!(!m.has_session(&"two".to_string()));
}

#[test]
fn link_config_uses_default_when_no_values() {
    let mut def = ConnectionConfig::default();
    def.subscriptions.push("sim.heartbeat".to_string());
    let m = SessionManager::new(def);
    let c = m.link_config(None).unwrap();
    assert_eq!(c.subscriptions, vec!["sim.heartbeat".to_string()]);

    let over = m
        .link_config(Some(LinkValues {
            base: None,
            subscription: Some("iiot.heartbeat|pollers".to_string()),
            uri: Some("nats://two:4222".to_string()),
            jwt: None,
            seed: None,
        }))
        .unwrap();
    // the link's values resolve first, then replace the default's fields
    assert_eq!(over.subscriptions, vec!["iiot.heartbeat|pollers".to_string()]);
    assert_eq!(over.cluster_uris, vec!["nats://two:4222".to_string()]);
}

#[test]
fn ticker_is_reused_before_it_terminates() {
    // Emptying an interval and refilling it before its ticker observes the
    // empty bucket must not spawn a second ticker for the interval.
    let mut s = fresh_session();
    s.register(descriptor(1, "t1", 1000));
    assert!(s.deregister(1));
    match s.register(descriptor(2, "t2", 1000)) {
        RegisterOutcome::Registered { spawn_ticker } => assert!(!spawn_ticker),
        _ => panic!("the sensor must register"),
    }
    match s.tick(1000) {
        TickOutcome::Cohort(cohort) => assert_eq!(cohort[0].id, 2),
        _ => panic!("the surviving ticker must serve the refilled bucket"),
    }
}

#[test]
fn clear_drops_all_state() {
    let mut s = fresh_session();
    s.register(descriptor(1, "t1", 1000));
    s.register(descriptor(2, "t2", 2000));
    s.clear();
    assert_eq!(s.sensor_count(), 0);
    assert!(!s.has_bucket(1000));
    assert!(!s.has_bucket(2000));
    match s.tick(1000) {
        TickOutcome::Terminate => {}
        _ => panic!("a cleared session must terminate every ticker"),
    }
    // the owned subscriptions are still listed for release
    assert_eq!(s.subscriptions(), &vec!["sim.heartbeat".to_string()]);
}

#[test]
fn a_large_cohort_is_covered_completely() {
    let mut s = fresh_session();
    for id in 1..=50u128 {
        s.register(descriptor(id, &format!("t{id}"), 1000));
    }
    match s.tick(1000) {
        TickOutcome::Cohort(cohort) => {
            assert_eq!(cohort.len(), 50);
            let mut ids: Vec<u128> = cohort.iter().map(|d| d.id).collect();
            ids.sort();
            assert_eq!(ids, (1..=50u128).collect::<Vec<u128>>());
        }
        _ => panic!("the full cohort must be due"),
    }
}
