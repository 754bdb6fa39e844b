use moreland::command::outcome;
use moreland::protocol::{Codec, ControlMessage, FrameHeader, StreamHeader};
use moreland::transport::adb::{
    adb_binary, adb_reply, devices, display_size, shell, stream_resolution, DisplaySizeError,
    Forward,
};
use moreland::transport::sender::{stream_header, Sender, VectoredWrite, WriteStep};

#[test]
fn scales_16_10_panel_cleanly() {
    assert_eq!(stream_resolution((2880, 1800), 1920), (1920, 1200));
}

#[test]
fn leaves_smaller_panels_alone() {
    assert_eq!(stream_resolution((1920, 1080), 1920), (1920, 1080));
    assert_eq!(stream_resolution((1280, 800), 1920), (1280, 800));
}

#[test]
fn preserves_16_9_exactly() {
    assert_eq!(stream_resolution((2560, 1440), 1920), (1920, 1080));
    assert_eq!(stream_resolution((3840, 2160), 1920), (1920, 1080));
}

#[test]
fn output_is_always_even() {
    for panel in [(2000, 1234), (1234, 999), (3000, 2001), (2160, 1080)] {
        let (w, h) = stream_resolution(panel, 1920);
        assert_eq!(w % 2, 0, "width {w} is odd");
        assert_eq!(h % 2, 0, "height {h} is odd");
    }
}

#[test]
fn aspect_ratio_is_preserved_closely() {
    for panel in [(2880, 1800), (2560, 1440), (2000, 1234), (2160, 1620)] {
        let (w, h) = stream_resolution(panel, 1920);
        let want = f64::from(panel.0) / f64::from(panel.1);
        let got = f64::from(w) / f64::from(h);
        assert!(
            (want - got).abs() / want < 0.01,
            "aspect drift for {panel:?}: wanted {want:.4}, got {got:.4}"
        );
    }
}

#[test]
fn tiny_panels_get_at_least_two_pixels() {
    assert_eq!(stream_resolution((1, 1), 1920), (2, 2));
    assert_eq!(stream_resolution((100, 1), 0), (2, 2));
    // Twice the height no longer fits in 32 bits, so it wraps around.
    assert_eq!(stream_resolution((1, 0x8000_0005), 1920), (2, 10));
}

#[test]
fn device_listing() {
    let out = "List of devices attached\n\
               ABCD1234               device usb:1-2 product:pipa model:Pad_6 device:pipa\n\
               emulator-5554          offline\n\
               \n\
               lonely\n\
               EFGH   device usb:3\n\
               IJKL   unauthorized model:x\r\n\
               MNOP   device model:model:twice model:other\n";
    let found = devices(out);
    let rows: Vec<(String, Option<String>)> =
        found.into_iter().map(|d| (d.serial, d.model)).collect();
    assert_eq!(
        rows,
        vec![
            ("ABCD1234".to_string(), Some("Pad_6".to_string())),
            ("EFGH".to_string(), None),
            ("MNOP".to_string(), Some("twice".to_string())),
        ]
    );
    assert!(devices("").is_empty());
    assert!(devices("SERIAL device").is_empty());
}

#[test]
fn adb_replies() {
    let args = vec!["-s".to_string(), "S".to_string(), "shell".to_string()];
    assert_eq!(adb_reply(&args, true, b"out\n", b"noise"), Ok("out\n".to_string()));
    assert_eq!(
        adb_reply(&args, false, b"out", b"  device offline\n"),
        Err("adb -s S shell failed: device offline".to_string())
    );
    assert_eq!(
        adb_reply(&args, true, &[0x61, 0xff, 0x62], b""),
        Ok("a\u{fffd}b".to_string())
    );
    assert_eq!(
        outcome("hyprctl", &vec![], false, String::new(), " no\t"),
        Err("hyprctl  failed: no".to_string())
    );
    assert_eq!(adb_binary(None), "adb");
    assert_eq!(adb_binary(Some("/opt/adb".to_string())), "/opt/adb");
}

#[test]
fn forward_rules() {
    let rule = Forward::new("SER", 27190, "localabstract:moreland");
    assert_eq!(rule.local, "tcp:27190");
    assert_eq!(rule.local_port(), Some(27190));
    assert_eq!(
        rule.remove_args(),
        ["-s", "SER", "forward", "--remove", "tcp:27190"]
    );
    assert_eq!(
        rule.install_args(),
        ["-s", "SER", "forward", "tcp:27190", "localabstract:moreland"]
    );
    assert_eq!(shell("SER", "wm size"), ["-s", "SER", "shell", "wm size"]);
}

#[test]
fn display_sizes() {
    assert_eq!(display_size("Physical size: 1800x2880\n"), Ok((2880, 1800)));
    assert_eq!(
        display_size("Physical size: 1800x2880\nOverride size: 1440x2304\n"),
        Ok((2304, 1440))
    );
    assert_eq!(
        display_size("Override size: none\r\n  Physical size:  100 x 50 : more"),
        Ok((100, 50))
    );
    assert_eq!(display_size(""), Err(DisplaySizeError::Unparsable));
    assert_eq!(display_size("Physical size 1x2"), Err(DisplaySizeError::Unparsable));
    assert_eq!(
        display_size("Physical size: 0x7"),
        Err(DisplaySizeError::ZeroDimension(0, 7))
    );
    assert_eq!(
        display_size("Physical size: 4294967296x7"),
        Err(DisplaySizeError::Unparsable)
    );
}

#[test]
fn sender_counts_what_went_out() {
    let header = stream_header(1920, 1200, 90);
    let (mut sender, bytes) = Sender::connect(&header);
    assert_eq!(StreamHeader::decode(&bytes), Ok(header));
    assert_eq!((sender.frames_sent(), sender.bytes_sent()), (0, 16));

    let payload = vec![7u8; 100];
    let frame = Sender::frame_header(&payload, 55, true);
    assert_eq!(
        FrameHeader::decode(&frame),
        Ok(FrameHeader {
            length: 100,
            pts_ns: 55,
            keyframe: true,
            control: false
        })
    );
    sender.send_frame(payload.len());
    assert_eq!((sender.frames_sent(), sender.bytes_sent()), (1, 132));

    let control = Sender::control_frame(&ControlMessage::brightness(40));
    assert_eq!(
        control,
        [0, 0, 0, 2, 0, 0, 0, 0, 0, 0, 0, 0, 2, 0, 0, 0, 1, 40]
    );
    sender.send_control();
    assert_eq!((sender.frames_sent(), sender.bytes_sent()), (1, 150));
}

#[test]
fn stream_header_truncates_to_sixteen_bits() {
    let header = stream_header(0x1_0002, 0x3_0004, 60);
    assert_eq!((header.width, header.height), (2, 4));
    assert_eq!(header.codec, Codec::H264);
}

#[test]
fn short_writes_are_resumed() {
    let mut write = VectoredWrite::new(16, 10);
    assert_eq!(write.offsets(), (0, 0));
    assert_eq!(write.advance(6), WriteStep::More);
    assert_eq!(write.offsets(), (6, 0));
    assert_eq!(write.advance(12), WriteStep::More);
    assert_eq!(write.offsets(), (16, 2));
    assert_eq!(write.advance(0), WriteStep::WriteZero);
    assert_eq!(write.offsets(), (16, 2));
    assert_eq!(write.advance(8), WriteStep::Finished);
}

#[test]
fn resolution_is_stable() {
    for (panel, max_width) in
        [((2880, 1800), 1920), ((1601, 2561), 1001), ((1, 7), 0), ((3, 1), 1), ((1340, 800), 4096)]
    {
        let once = stream_resolution(panel, max_width);
        assert_eq!(stream_resolution(once, max_width), once);
    }
}
