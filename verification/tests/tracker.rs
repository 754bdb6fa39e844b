use moreland::daemon::tracker::{
    next_update, parse_devices, parse_length, parse_status, payload_text, request_outcome,
    request_text, AdbStatus, LengthError, RequestError, TRACK_REQUEST,
};

#[test]
fn parses_device_list() {
    let devices = parse_devices("ABCD1234\tdevice\nemulator-5554\toffline\n");
    assert_eq!(devices.len(), 2);
    assert_eq!(devices[0].serial, "ABCD1234");
    assert!(devices[0].is_ready());
    assert!(!devices[1].is_ready());
}

#[test]
fn empty_list_is_no_devices() {
    assert!(parse_devices("").is_empty());
}

#[test]
fn short_lines_are_passed_over() {
    let devices = parse_devices("\nlonely\n  A \u{2003} unauthorized extra\r\n");
    assert_eq!(devices.len(), 1);
    assert_eq!(devices[0].serial, "A");
    assert_eq!(devices[0].state, "unauthorized");
}

#[test]
fn requests_carry_their_length() {
    assert_eq!(request_text(TRACK_REQUEST), "0012host:track-devices");
    assert_eq!(request_text("\u{e9}"), "0002\u{e9}");
    assert_eq!(request_text(""), "0000");
}

#[test]
fn statuses() {
    assert_eq!(parse_status(*b"OKAY"), AdbStatus::Okay);
    assert_eq!(parse_status(*b"FAIL"), AdbStatus::Fail);
    assert_eq!(parse_status(*b"OKAx"), AdbStatus::Other("OKAx".to_string()));
    assert_eq!(request_outcome(*b"OKAY", None), Ok(()));
    assert_eq!(
        request_outcome(*b"FAIL", Some("no".to_string())),
        Err(RequestError::Rejected("no".to_string()))
    );
    assert_eq!(
        request_outcome(*b"FAIL", None),
        Err(RequestError::Rejected(String::new()))
    );
    assert_eq!(
        request_outcome([0xff, b'a', b'b', b'c'], None),
        Err(RequestError::UnexpectedStatus("\u{fffd}abc".to_string()))
    );
}

#[test]
fn lengths() {
    assert_eq!(parse_length(*b"0012"), Ok(18));
    assert_eq!(parse_length(*b"FFff"), Ok(65535));
    assert_eq!(parse_length(*b"+0aF"), Ok(175));
    assert_eq!(parse_length(*b"-001"), Err(LengthError::NotHex));
    assert_eq!(parse_length(*b" 001"), Err(LengthError::NotHex));
    assert_eq!(parse_length([0xff, 0x30, 0x30, 0x30]), Err(LengthError::NotUtf8));
}

#[test]
fn updates_are_decoded_from_bytes() {
    let devices = next_update(b"A\tdevice\nB\xff\toffline\n");
    assert_eq!(devices.len(), 2);
    assert_eq!(devices[1].serial, "B\u{fffd}");
    assert_eq!(payload_text(b"plain"), "plain");
}
