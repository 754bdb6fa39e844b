use moreland::protocol::{
    decode_reverse_message, encode_ack, encode_touch, Codec, ControlKind, ControlMessage,
    FrameHeader, ProtocolError, ReverseMessage, StreamHeader, TouchAction, TouchMessage,
    BASE_PORT, DEFAULT_PORT, FLAG_CONTROL, FLAG_KEYFRAME, MSG_ACK, MSG_TOUCH, PORT_RANGE,
    REVERSE_MSG_LEN, SOCKET_NAME, VERSION,
};

#[test]
fn stream_header_round_trips() {
    let header = StreamHeader {
        width: 1920,
        height: 1200,
        framerate: 60,
        codec: Codec::H264,
    };
    let decoded = StreamHeader::decode(&header.encode()).unwrap();
    assert_eq!(decoded.width, 1920);
    assert_eq!(decoded.height, 1200);
    assert_eq!(decoded.framerate, 60);
    assert_eq!(decoded.codec, Codec::H264);
}

#[test]
fn stream_header_rejects_v2() {
    let mut buf = StreamHeader {
        width: 1,
        height: 1,
        framerate: 60,
        codec: Codec::H264,
    }
    .encode();
    buf[4..6].copy_from_slice(&2u16.to_be_bytes());
    let err = StreamHeader::decode(&buf).unwrap_err();
    assert!(err.message().contains("version 2"));
    assert!(err.message().contains("expected 3"));
}

#[test]
fn frame_header_round_trips() {
    let header = FrameHeader {
        length: 32357,
        pts_ns: 1_666_666_600,
        keyframe: true,
        control: false,
    };
    let decoded = FrameHeader::decode(&header.encode()).unwrap();
    assert_eq!(decoded.length, 32357);
    assert!(decoded.keyframe);
    assert!(!decoded.control);
}

#[test]
fn frame_header_control_flag_round_trips() {
    let header = FrameHeader {
        length: ControlMessage::LEN as u32,
        pts_ns: 0,
        keyframe: false,
        control: true,
    };
    let decoded = FrameHeader::decode(&header.encode()).unwrap();
    assert!(!decoded.keyframe);
    assert!(decoded.control);
}

#[test]
fn brightness_message_round_trips() {
    let msg = ControlMessage::brightness(75);
    let decoded = ControlMessage::decode(&msg.encode()).unwrap();
    assert_eq!(decoded.kind, ControlKind::Brightness);
    assert_eq!(decoded.value, 75);
}

#[test]
fn brightness_clamps_at_100() {
    assert_eq!(ControlMessage::brightness(255).value, 100);
}

#[test]
fn rotation_message_round_trips() {
    for (degrees, wire) in [(0u16, 0u8), (90, 1), (180, 2), (270, 3)] {
        let msg = ControlMessage::rotation(degrees).unwrap();
        assert_eq!(msg.value, wire);
        let decoded = ControlMessage::decode(&msg.encode()).unwrap();
        assert_eq!(decoded.rotation_degrees(), degrees);
    }
}

#[test]
fn rejects_unknown_rotation() {
    assert!(ControlMessage::rotation(45).is_err());
    assert!(ControlMessage::rotation(360).is_err());
}

#[test]
fn rejects_unknown_control_kind() {
    assert!(ControlMessage::decode(&[0xFF, 0]).is_err());
    assert!(ControlMessage::decode(&[1]).is_err());
}

#[test]
fn rejects_bad_magic() {
    let mut buf = StreamHeader {
        width: 1,
        height: 1,
        framerate: 60,
        codec: Codec::H264,
    }
    .encode();
    buf[0] = b'X';
    assert!(StreamHeader::decode(&buf).is_err());
}

#[test]
fn ack_round_trips() {
    let bytes = encode_ack(0x0123_4567_89AB_CDEF);
    assert_eq!(bytes[0], MSG_ACK);
    match decode_reverse_message(&bytes).unwrap() {
        ReverseMessage::Ack(pts) => assert_eq!(pts, 0x0123_4567_89AB_CDEF),
        other => panic!("expected Ack, got {other:?}"),
    }
}

#[test]
fn touch_actions_round_trip() {
    for action in [
        TouchAction::Down,
        TouchAction::Move,
        TouchAction::Up,
        TouchAction::Cancel,
    ] {
        let msg = TouchMessage {
            action,
            x: 0x1234,
            y: 0xABCD,
        };
        let bytes = encode_touch(&msg);
        match decode_reverse_message(&bytes).unwrap() {
            ReverseMessage::Touch(decoded) => assert_eq!(decoded, msg),
            other => panic!("expected Touch, got {other:?}"),
        }
    }
}

#[test]
fn rejects_unknown_touch_action() {
    let mut payload = [0u8; TouchMessage::LEN];
    payload[0] = 0x7F;
    assert!(TouchMessage::decode(&payload).is_err());
}

#[test]
fn rejects_unknown_reverse_message_type() {
    let mut buf = [0u8; REVERSE_MSG_LEN];
    buf[0] = 0xEE;
    assert!(decode_reverse_message(&buf).is_err());
}

#[test]
fn rejects_short_reverse_message() {
    assert!(decode_reverse_message(&[MSG_ACK; 4]).is_err());
}

// --------------------------------------------------------- exact layouts ---

#[test]
fn stream_header_layout() {
    let header = StreamHeader {
        width: 0x0102,
        height: 0x0304,
        framerate: 0x0506,
        codec: Codec::H265,
    };
    assert_eq!(
        header.encode(),
        [b'M', b'R', b'L', b'D', 0, 3, 1, 2, 3, 4, 5, 6, 1, 0, 0, 0]
    );
    assert_eq!(VERSION, 3);
}

#[test]
fn frame_header_layout() {
    let header = FrameHeader {
        length: 0x0102_0304,
        pts_ns: 0x0506_0708_090A_0B0C,
        keyframe: true,
        control: true,
    };
    assert_eq!(
        header.encode(),
        [1, 2, 3, 4, 5, 6, 7, 8, 9, 10, 11, 12, 3, 0, 0, 0]
    );
    assert_eq!(FLAG_KEYFRAME | FLAG_CONTROL, 3);
}

#[test]
fn frame_header_ignores_unknown_flags_and_reserved_bytes() {
    let mut buf = [0u8; 20];
    buf[12] = 0xFD;
    buf[13] = 0xEE;
    let decoded = FrameHeader::decode(&buf).unwrap();
    assert!(decoded.keyframe);
    assert!(!decoded.control);
    assert_eq!(decoded.length, 0);
}

#[test]
fn stream_header_ignores_reserved_bytes() {
    let header = StreamHeader {
        width: 7,
        height: 8,
        framerate: 9,
        codec: Codec::H265,
    };
    let mut buf = header.encode();
    buf[13] = 1;
    buf[14] = 2;
    buf[15] = 3;
    assert_eq!(StreamHeader::decode(&buf), Ok(header));
}

#[test]
fn reverse_message_layouts() {
    assert_eq!(
        encode_ack(0x0102_0304_0506_0708),
        [MSG_ACK, 1, 2, 3, 4, 5, 6, 7, 8]
    );
    let touch = TouchMessage {
        action: TouchAction::Cancel,
        x: 0x0102,
        y: 0xFFFE,
    };
    assert_eq!(
        encode_touch(&touch),
        [MSG_TOUCH, 3, 0, 1, 2, 0xFF, 0xFE, 0, 0]
    );
}

#[test]
fn every_error_has_its_text() {
    let cases: Vec<(ProtocolError, &str)> = vec![
        (Codec::from_u8(255).unwrap_err(), "unknown codec id 255"),
        (
            StreamHeader::decode(&[0; 15]).unwrap_err(),
            "stream header too short: 15 bytes",
        ),
        (
            StreamHeader::decode(&[0x0f; 16]).unwrap_err(),
            "bad magic: [0f, 0f, 0f, 0f]",
        ),
        (
            ProtocolError::UnsupportedVersion(2),
            "unsupported protocol version 2 (expected 3)",
        ),
        (
            FrameHeader::decode(&[0; 3]).unwrap_err(),
            "frame header too short: 3 bytes",
        ),
        (ControlKind::from_u8(3).unwrap_err(), "unknown control kind 3"),
        (
            ControlMessage::rotation(45).unwrap_err(),
            "rotation must be 0, 90, 180, or 270 (got 45)",
        ),
        (
            ControlMessage::decode(&[1]).unwrap_err(),
            "control message too short: 1 bytes",
        ),
        (TouchAction::from_u8(4).unwrap_err(), "unknown touch action 4"),
        (
            TouchMessage::decode(&[0; 7]).unwrap_err(),
            "touch payload too short: 7 bytes",
        ),
        (
            decode_reverse_message(&[]).unwrap_err(),
            "reverse message too short: 0 bytes",
        ),
        (
            decode_reverse_message(&[0xEE; 9]).unwrap_err(),
            "unknown reverse message type 238",
        ),
    ];
    for (error, text) in cases {
        assert_eq!(error.message(), text);
    }
}

#[test]
fn codec_names_and_ids() {
    assert_eq!(Codec::from_u8(0), Ok(Codec::H264));
    assert_eq!(Codec::from_u8(1), Ok(Codec::H265));
    assert_eq!(Codec::H264.mime(), "video/avc");
    assert_eq!(Codec::H265.mime(), "video/hevc");
}

#[test]
fn unknown_rotation_value_is_upright() {
    let msg = ControlMessage {
        kind: ControlKind::Rotation,
        value: 9,
    };
    assert_eq!(msg.rotation_degrees(), 0);
}

#[test]
fn constants() {
    assert_eq!((BASE_PORT, DEFAULT_PORT, PORT_RANGE), (27183, 27183, 100));
    assert_eq!(SOCKET_NAME, "moreland");
}
