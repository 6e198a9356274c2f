use sensor_polling::topic::mqtt_to_nats;

#[test]
fn test_mqtt_to_nats() {
    let test_cases = vec![
        ("foo/bar", "foo.bar"),
        ("/foo/bar", "/.foo.bar"),
        ("foo/bar/", "foo.bar./"),
        ("foo//bar", "foo./.bar"),
        ("foo//bar/", "foo./.bar./"),
        ("//foo//bar", "/./.foo./.bar"),
        ("//foo//bar/", "/./.foo./.bar./"),
        ("/foo//bar", "/.foo./.bar"),
        ("/foo//bar/", "/.foo./.bar./"),
        ("/foo/bar/", "/.foo.bar./"),
        ("picow/temp_01/poll", "picow.temp_01.poll"),
    ];

    for (input, expected) in test_cases {
        let output = mqtt_to_nats(input.to_string());
        assert_eq!(output, expected.to_string());
    }
}

#[test]
fn whitespace_is_stripped() {
    assert_eq!(mqtt_to_nats("  foo/bar \n".to_string()), "foo.bar");
    assert_eq!(mqtt_to_nats("\tpicow/read\t".to_string()), "picow.read");
}

#[test]
fn edge_subjects() {
    assert_eq!(mqtt_to_nats(String::new()), "");
    assert_eq!(mqtt_to_nats("foo".to_string()), "foo");
    assert_eq!(mqtt_to_nats("/".to_string()), "/.");
    assert_eq!(mqtt_to_nats("//".to_string()), "/./.");
    assert_eq!(mqtt_to_nats("a.b/c".to_string()), "a.b.c");
    assert_eq!(mqtt_to_nats("a//".to_string()), "a/./");
}
