use sensor_polling::config::{
    auth_mode, first_uri, split_commas, subscription_plans, AuthMode, ConfigError,
    ConnectionConfig,
};

fn base_config() -> ConnectionConfig {
    ConnectionConfig {
        subscriptions: vec!["sim.heartbeat".to_string()],
        cluster_uris: vec!["nats://one:4222".to_string()],
        auth_jwt: None,
        auth_seed: None,
        ping_interval_sec: Some(15),
    }
}

#[test]
fn merge_replaces_non_empty_fields() {
    let base = base_config();
    let extra = ConnectionConfig {
        subscriptions: vec!["iiot.heartbeat".to_string(), "lab.heartbeat".to_string()],
        cluster_uris: vec![],
        auth_jwt: Some("SECRET-REDACTED".to_string()),
        auth_seed: Some("SECRET-REDACTED".to_string()),
        ping_interval_sec: None,
    };
    let merged = base.merge(&extra);
    assert_eq!(
        merged.subscriptions,
        vec!["iiot.heartbeat".to_string(), "lab.heartbeat".to_string()]
    );
    assert_eq!(merged.cluster_uris, vec!["nats://one:4222".to_string()]);
    assert_eq!(merged.auth_jwt, Some("SECRET-REDACTED".to_string()));
    assert_eq!(merged.auth_seed, Some("SECRET-REDACTED".to_string()));
    assert_eq!(merged.ping_interval_sec, Some(15));
}

#[test]
fn merge_of_empty_override_keeps_base() {
    let base = base_config();
    let merged = base.merge(&ConnectionConfig {
        subscriptions: vec![],
        cluster_uris: vec![],
        auth_jwt: None,
        auth_seed: None,
        ping_interval_sec: None,
    });
    assert_eq!(merged.subscriptions, base.subscriptions);
    assert_eq!(merged.cluster_uris, base.cluster_uris);
    assert_eq!(merged.ping_interval_sec, Some(15));
}

#[test]
fn default_points_at_local_bus() {
    let d = ConnectionConfig::default();
    assert!(d.subscriptions.is_empty());
    assert_eq!(d.cluster_uris, vec!["0.0.0.0:4222".to_string()]);
    assert_eq!(d.auth_jwt, None);
    assert_eq!(d.auth_seed, None);
    assert_eq!(d.ping_interval_sec, None);
}

#[test]
fn new_from_nothing_is_default() {
    let c = ConnectionConfig::new_from(None, None, None, None, None).unwrap();
    assert!(c.subscriptions.is_empty());
    assert_eq!(c.cluster_uris, vec!["0.0.0.0:4222".to_string()]);
}

#[test]
fn new_from_extends_subscriptions_and_replaces_uris() {
    let c = ConnectionConfig::new_from(
        Some(base_config()),
        Some("a.hb,b.hb".to_string()),
        Some("nats://two:4222,nats://three:4222".to_string()),
        None,
        None,
    )
    .unwrap();
    assert_eq!(
        c.subscriptions,
        vec!["sim.heartbeat".to_string(), "a.hb".to_string(), "b.hb".to_string()]
    );
    assert_eq!(
        c.cluster_uris,
        vec!["nats://two:4222".to_string(), "nats://three:4222".to_string()]
    );
}

#[test]
fn new_from_rejects_jwt_without_seed() {
    let r = ConnectionConfig::new_from(None, None, None, Some("SECRET-REDACTED".to_string()), None);
    match r {
        Err(ConfigError::JwtWithoutSeed) => {}
        _ => panic!("a jwt without a seed must be rejected"),
    }
    let e = ConfigError::JwtWithoutSeed;
    assert_eq!(e.message(), "if you specify jwt, you must also specify a seed");
}

#[test]
fn new_from_accepts_seed_alone_but_connect_rejects_it() {
    let c = ConnectionConfig::new_from(None, None, None, None, Some("SECRET-REDACTED".to_string()))
        .unwrap();
    match auth_mode(&c) {
        Err(ConfigError::IncompleteCredentials) => {}
        _ => panic!("one credential alone must not authenticate"),
    }
}

#[test]
fn auth_mode_cases() {
    let mut c = ConnectionConfig::default();
    match auth_mode(&c) {
        Ok(AuthMode::Anonymous) => {}
        _ => panic!("no credentials must connect anonymously"),
    }
    c.auth_jwt = Some("SECRET-REDACTED".to_string());
    c.auth_seed = Some("SECRET-REDACTED".to_string());
    match auth_mode(&c) {
        Ok(AuthMode::JwtAuth { jwt, seed }) => {
            assert_eq!(jwt, "SECRET-REDACTED");
            assert_eq!(seed, "SECRET-REDACTED");
        }
        _ => panic!("both credentials must authenticate with them"),
    }
}

#[test]
fn first_uri_and_missing_uri() {
    let c = base_config();
    assert_eq!(first_uri(&c).unwrap(), "nats://one:4222");
    let empty = ConnectionConfig {
        subscriptions: vec![],
        cluster_uris: vec![],
        auth_jwt: None,
        auth_seed: None,
        ping_interval_sec: None,
    };
    match first_uri(&empty) {
        Err(ConfigError::NoClusterUri) => {}
        _ => panic!("an empty address list must be rejected"),
    }
}

#[test]
fn split_commas_keeps_empty_pieces() {
    let parts = split_commas("a,,b,");
    assert_eq!(
        parts,
        vec!["a".to_string(), "".to_string(), "b".to_string(), "".to_string()]
    );
    assert_eq!(split_commas(""), vec!["".to_string()]);
    assert_eq!(split_commas("one"), vec!["one".to_string()]);
}

#[test]
fn subscription_plans_split_queue_groups() {
    let c = ConnectionConfig {
        subscriptions: vec![
            "sim.heartbeat".to_string(),
            "".to_string(),
            "iiot.heartbeat|pollers".to_string(),
        ],
        cluster_uris: vec![],
        auth_jwt: None,
        auth_seed: None,
        ping_interval_sec: None,
    };
    let plans = subscription_plans(&c);
    assert_eq!(plans.len(), 2);
    assert_eq!(plans[0].subject, "sim.heartbeat");
    assert_eq!(plans[0].queue, None);
    assert_eq!(plans[1].subject, "iiot.heartbeat");
    assert_eq!(plans[1].queue, Some("pollers".to_string()));
}
