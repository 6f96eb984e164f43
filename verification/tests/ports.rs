use deltax2::ports::enumerate_ports;

#[test]
fn configured_port_comes_first_even_when_nothing_is_detected() {
    assert_eq!(enumerate_ports("/dev/ttyUSB0", Vec::new()), vec!["/dev/ttyUSB0".to_string()]);
}

#[test]
fn detected_ports_follow_without_the_configured_one() {
    let detected = vec![
        "/dev/ttyACM0".to_string(),
        "/dev/ttyUSB0".to_string(),
        "/dev/ttyS0".to_string(),
    ];
    assert_eq!(
        enumerate_ports("/dev/ttyUSB0", detected),
        vec!["/dev/ttyUSB0", "/dev/ttyACM0", "/dev/ttyS0"]
    );
}

#[test]
fn repeated_detected_ports_are_listed_once() {
    let detected = vec![
        "/dev/a".to_string(),
        "/dev/a".to_string(),
        "/dev/ttyUSB0".to_string(),
        "/dev/b".to_string(),
        "/dev/a".to_string(),
        "/dev/ttyUSB0".to_string(),
    ];
    assert_eq!(
        enumerate_ports("/dev/ttyUSB0", detected),
        vec!["/dev/ttyUSB0", "/dev/a", "/dev/b"]
    );
}
