use sensor_polling::poller::{FanOut, DEFAULT_FANOUT_LIMIT, POLL_TIMEOUT_MS};
use sensor_polling::reading::{make_reading, poll_result_from, ReadStatus};
use sensor_polling::sensor::SensorDescriptor;

fn sensor() -> SensorDescriptor {
    SensorDescriptor {
        alias: "temp_01".to_string(),
        id: 7,
        poll_interval: 1000,
        poll_topic: "picow.temp_01.poll".to_string(),
        read_topic: "picow.temp_01.read".to_string(),
        disconnect_topic: "picow.temp_01.disconnect".to_string(),
        ip_addr: "192.168.1.1".to_string(),
        mac_addr: [0, 1, 2, 3, 4, 255],
        location: "rp-pico-w".to_string(),
    }
}

#[test]
fn no_reply_is_a_comm_error() {
    let r = make_reading(&sensor(), 1700000000, None);
    assert!(matches!(r.status, ReadStatus::CommError));
    assert_eq!(r.value, "N/A");
    assert_eq!(r.source, "rp-pico-w.temp_01");
    assert_eq!(r.message, "rp-pico-w.temp_01: N/A");
    assert_eq!(r.timestamp, 1700000000);
    assert_eq!(r.status.label(), "COMM_ERROR");
}

#[test]
fn json_string_reply_is_a_success() {
    let r = make_reading(&sensor(), 5, Some(b"\"23.51\"".to_vec()));
    assert!(matches!(r.status, ReadStatus::Success));
    assert_eq!(r.value, "23.51");
    assert_eq!(r.message, "rp-pico-w.temp_01: 23.51");
    assert_eq!(r.status.label(), "SUCCESS");
}

#[test]
fn undecodable_reply_is_a_value_error() {
    let r = make_reading(&sensor(), 5, Some(b"not json at all".to_vec()));
    assert!(matches!(r.status, ReadStatus::ValueError));
    assert!(!r.value.is_empty());
    assert_eq!(r.status.label(), "VALUE_ERROR");

    // a JSON number is not a JSON string: reported, not crashed
    let n = make_reading(&sensor(), 5, Some(b"23.51".to_vec()));
    assert!(matches!(n.status, ReadStatus::ValueError));
}

#[test]
fn serialized_batch_is_delivered_as_data() {
    let r = poll_result_from(Ok(b"[]".to_vec()));
    assert_eq!(r.data, Some(b"[]".to_vec()));
    assert!(r.error.is_none());
}

#[test]
fn failed_serialization_becomes_an_error_frame() {
    let r = poll_result_from(Err("boom".to_string()));
    assert!(r.data.is_none());
    let e = r.error.expect("a failed batch must yield a structured error");
    assert_eq!(e.error_type, "BLOB_SER");
    assert_eq!(e.description, Some("boom".to_string()));
}

#[test]
fn fan_out_slots_stay_bounded() {
    assert_eq!(DEFAULT_FANOUT_LIMIT, 20);
    assert_eq!(POLL_TIMEOUT_MS, 500);
    let mut f = FanOut::new(2);
    assert!(f.try_start());
    assert!(f.try_start());
    assert!(!f.try_start());
    assert_eq!(f.outstanding(), 2);
    f.complete();
    assert!(f.try_start());
    assert!(!f.try_start());
    f.complete();
    f.complete();
    assert_eq!(f.outstanding(), 0);
}

#[test]
fn large_cohort_never_exceeds_the_limit() {
    // drive a cohort of 50 exchanges through the slot counter: at no
    // instant are more than the configured limit outstanding
    let mut f = FanOut::new(DEFAULT_FANOUT_LIMIT);
    let mut started: usize = 0;
    let mut finished: usize = 0;
    let total: usize = 50;
    while finished < total {
        while started < total && f.try_start() {
            started += 1;
            assert!(f.outstanding() <= DEFAULT_FANOUT_LIMIT);
        }
        assert!(f.outstanding() == DEFAULT_FANOUT_LIMIT || started == total);
        f.complete();
        finished += 1;
    }
    assert_eq!(f.outstanding(), 0);
}
