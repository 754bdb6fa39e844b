use moreland::capture::session::BufferMode;
use moreland::daemon::input::TouchMode;
use moreland::daemon::output::{Compositor, VirtualOutput};
use moreland::daemon::run::{Geometry, RunAction, RunError, RunEvent, RunStage, SessionRun};
use moreland::daemon::session::{
    app_installed, report, Config, FrameClock, ReadStep, ReverseReader, RoundTrips,
};
use moreland::encoder::{FormatValue, PadTemplate};
use moreland::protocol::{
    encode_ack, encode_touch, Codec, ControlKind, ProtocolError, ReverseMessage, TouchAction,
    TouchMessage,
};
use moreland::stats::Summary;
use moreland::transport::adb::DisplaySizeError;

const GEOMETRY: Geometry = Geometry {
    width: 1920,
    height: 1200,
    fourcc: 0x3432_5258,
    modifier: 7,
};

fn adb(action: RunAction) -> Vec<String> {
    match action {
        RunAction::Adb(args) => args,
        other => panic!("expected adb, got {other:?}"),
    }
}

fn ok(text: &str) -> RunEvent {
    RunEvent::Adb(Ok(text.to_string()))
}

fn bad(text: &str) -> RunEvent {
    RunEvent::Adb(Err(text.to_string()))
}

fn owned() -> RunEvent {
    RunEvent::Output(Ok(VirtualOutput::Owned {
        compositor: Compositor::Hyprland,
        name: "moreland".to_string(),
    }))
}

/// A session that has got as far as the list of packages.
fn begun(config: Config, compositor: Compositor) -> SessionRun {
    let mut run = SessionRun::new("SER", config, compositor);
    assert_eq!(
        adb(run.step(RunEvent::Done)),
        ["-s", "SER", "shell", "pm list packages com.moreland.display"]
    );
    run
}

/// A session that has asked for its output.
fn with_output(config: Config, compositor: Compositor, output: RunEvent) -> SessionRun {
    let config = Config { resolution: Some((1000, 500)), ..config };
    let mut run = begun(config, compositor);
    run.step(ok("package:com.moreland.display\n"));
    assert_eq!(
        adb(run.step(output)),
        ["-s", "SER", "forward", "--remove", "tcp:27183"]
    );
    run
}

/// A session that is about to open its source.
fn launched(config: Config, compositor: Compositor, output: RunEvent) -> SessionRun {
    let mut run = with_output(config, compositor, output);
    assert_eq!(
        adb(run.step(bad("no such rule"))),
        ["-s", "SER", "forward", "tcp:27183", "localabstract:moreland"]
    );
    assert_eq!(
        adb(run.step(ok("")))[3],
        "am force-stop com.moreland.display"
    );
    assert!(matches!(run.step(bad("x")), RunAction::Sleep(500)));
    assert_eq!(adb(run.step(RunEvent::Done))[3], "input keyevent KEYCODE_WAKEUP");
    assert_eq!(adb(run.step(bad("x")))[3], "wm dismiss-keyguard");
    assert!(matches!(run.step(bad("x")), RunAction::Sleep(400)));
    assert_eq!(
        adb(run.step(RunEvent::Done))[3],
        "am start -n com.moreland.display/.DisplayActivity"
    );
    assert!(matches!(run.step(ok("")), RunAction::Sleep(2500)));
    assert!(matches!(run.step(RunEvent::Done), RunAction::ProbeEncoder));
    run
}

fn connected(config: Config, compositor: Compositor) -> (SessionRun, RunAction) {
    let mut run = launched(config, compositor, owned());
    run.step(RunEvent::Templates(Vec::new()));
    assert!(matches!(run.step(RunEvent::Opened(Ok(()))), RunAction::WaitForFormat));
    match run.step(RunEvent::Format(Ok(GEOMETRY))) {
        RunAction::StartEncoder(c) => {
            assert_eq!((c.width, c.height, c.framerate), (1920, 1200, 90));
            assert_eq!((c.fourcc, c.modifier, c.bitrate_kbps), (0x3432_5258, 7, 20_000));
            assert_eq!((c.keyframe_interval, c.target_usage, c.num_slices), (600, 3, 1));
            assert_eq!(c.rate_control, "vbr");
        }
        other => panic!("got {other:?}"),
    }
    let action = run.step(RunEvent::Opened(Ok(())));
    (run, action)
}

#[test]
fn app_presence() {
    assert!(app_installed("package:com.other\npackage:com.moreland.display\n"));
    assert!(!app_installed("package:com.moreland\n"));
    assert!(!app_installed(""));
}

#[test]
fn sessions_refuse_before_touching_anything() {
    let mut run = begun(Config::default(), Compositor::Hyprland);
    assert!(matches!(
        run.step(ok("package:com.other\n")),
        RunAction::Fail(RunError::AppNotInstalled)
    ));
    assert_eq!(run.stage, RunStage::Ended);
    let mut run = begun(Config { rotation: 45, ..Config::default() }, Compositor::Hyprland);
    assert!(matches!(
        run.step(ok("package:com.moreland.display\n")),
        RunAction::Fail(RunError::BadRotation(45))
    ));
    let mut run = begun(Config::default(), Compositor::Hyprland);
    assert!(matches!(
        run.step(bad("device offline")),
        RunAction::Fail(RunError::Adb(e)) if e == "device offline"
    ));
}

#[test]
fn size_comes_from_the_panel() {
    for (rotation, want) in [(0, (1920, 1200)), (90, (1200, 1920)), (180, (1920, 1200)), (270, (1200, 1920))] {
        let mut run = begun(Config { rotation, ..Config::default() }, Compositor::Hyprland);
        assert_eq!(
            adb(run.step(ok("package:com.moreland.display\n"))),
            ["-s", "SER", "shell", "wm size"]
        );
        match run.step(ok("Physical size: 1800x2880\n")) {
            RunAction::CreateOutput(r) => {
                assert_eq!(r.name, "moreland");
                assert_eq!((r.width, r.height), want);
                assert_eq!((r.refresh, r.x, r.y), (90, 0, 1080));
            }
            other => panic!("got {other:?}"),
        }
    }
    for (reply, want) in [
        ("nonsense", DisplaySizeError::Unparsable),
        ("Physical size: 0x5", DisplaySizeError::ZeroDimension(0, 5)),
    ] {
        let mut run = begun(Config::default(), Compositor::Hyprland);
        run.step(ok("package:com.moreland.display\n"));
        match run.step(ok(reply)) {
            RunAction::Fail(RunError::DisplaySize(e)) => assert_eq!(e, want),
            other => panic!("got {other:?}"),
        }
    }
}

#[test]
fn an_explicit_size_is_taken_as_it_is() {
    let config = Config {
        resolution: Some((1281, 799)),
        rotation: 90,
        ..Config::default()
    };
    let mut run = begun(config, Compositor::Hyprland);
    match run.step(ok("package:com.moreland.display\n")) {
        RunAction::CreateOutput(r) => assert_eq!((r.width, r.height), (799, 1281)),
        other => panic!("got {other:?}"),
    }
}

#[test]
fn early_failures_carry_their_reason() {
    let mut run = begun(
        Config { resolution: Some((2, 2)), ..Config::default() },
        Compositor::Hyprland,
    );
    run.step(ok("package:com.moreland.display\n"));
    assert!(matches!(
        run.step(RunEvent::Output(Err("no output".to_string()))),
        RunAction::Fail(RunError::Output(e)) if e == "no output"
    ));
    let mut run = with_output(Config::default(), Compositor::Hyprland, owned());
    run.step(ok(""));
    assert!(matches!(run.step(bad("busy")), RunAction::Fail(RunError::Forward(e)) if e == "busy"));
    let mut run = with_output(Config::default(), Compositor::Hyprland, owned());
    run.step(ok(""));
    run.step(ok(""));
    run.step(ok(""));
    run.step(RunEvent::Done);
    run.step(ok(""));
    run.step(ok(""));
    run.step(RunEvent::Done);
    assert!(matches!(run.step(bad("locked")), RunAction::Fail(RunError::Launch(e)) if e == "locked"));
}

#[test]
fn sources_by_output() {
    let mut run = launched(
        Config { paint_cursor: true, ..Config::default() },
        Compositor::Hyprland,
        owned(),
    );
    let templates = vec![PadTemplate {
        sink: true,
        formats: vec![FormatValue::Text("XR24:0x0200000000000901".to_string())],
    }];
    match run.step(RunEvent::Templates(templates)) {
        RunAction::OpenCapture(name, c) => {
            assert_eq!(name, "moreland");
            assert_eq!((c.mode, c.pool_size, c.paint_cursor), (BufferMode::Dmabuf, 3, true));
            assert_eq!(c.allowed_modifiers, [0x0200_0000_0000_0901, 0]);
        }
        other => panic!("got {other:?}"),
    }
    assert!(matches!(
        run.step(RunEvent::Opened(Err("gone".to_string()))),
        RunAction::Fail(RunError::Source(_))
    ));

    let kwin = RunEvent::Output(Ok(VirtualOutput::Kwin(Some("moreland".to_string()))));
    let mut run = launched(Config::default(), Compositor::Kwin, kwin);
    assert!(matches!(
        run.step(RunEvent::Templates(Vec::new())),
        RunAction::OpenPlasma(name) if name == "moreland"
    ));
    let mut run = launched(
        Config::default(),
        Compositor::Kwin,
        RunEvent::Output(Ok(VirtualOutput::Kwin(None))),
    );
    assert!(matches!(
        run.step(RunEvent::Templates(Vec::new())),
        RunAction::Fail(RunError::Consumed)
    ));
}

#[test]
fn touch_devices() {
    let (mut run, action) = connected(Config::default(), Compositor::Kwin);
    match action {
        RunAction::OpenTouch { mode, name, width, height } => {
            assert_eq!(mode, TouchMode::Screen);
            assert_eq!(name, "moreland-touch");
            assert_eq!((width, height), (1920, 1200));
        }
        other => panic!("got {other:?}"),
    }
    match run.step(RunEvent::Opened(Ok(()))) {
        RunAction::Associate { device_name, output_name } => {
            assert_eq!((device_name.as_str(), output_name.as_str()), ("moreland-touch", "moreland"));
        }
        other => panic!("got {other:?}"),
    }
    assert!(matches!(run.step(RunEvent::Done), RunAction::StartTouchWorker));
    match run.step(RunEvent::Opened(Ok(()))) {
        RunAction::Connect { port, header } => {
            assert_eq!(port, 27183);
            assert_eq!((header.width, header.height, header.framerate), (1920, 1200, 90));
            assert_eq!(header.codec, Codec::H264);
        }
        other => panic!("got {other:?}"),
    }
    // Without a device, and on another compositor, it goes straight on.
    let (mut run, _) = connected(Config::default(), Compositor::Kwin);
    assert!(matches!(
        run.step(RunEvent::Opened(Err("no uinput".to_string()))),
        RunAction::Connect { .. }
    ));
    let (mut run, _) = connected(Config::default(), Compositor::Hyprland);
    assert!(matches!(run.step(RunEvent::Opened(Ok(()))), RunAction::StartTouchWorker));
    assert!(matches!(run.step(RunEvent::Opened(Ok(()))), RunAction::Connect { .. }));
    let pointer = Config { touch_mode: TouchMode::Pointer, ..Config::default() };
    let (mut run, _) = connected(pointer, Compositor::Kwin);
    assert!(matches!(run.step(RunEvent::Opened(Ok(()))), RunAction::StartTouchWorker));
    assert!(matches!(run.step(RunEvent::Opened(Ok(()))), RunAction::Connect { .. }));
    let off = Config { enable_touch: false, ..Config::default() };
    let (_, action) = connected(off, Compositor::Kwin);
    assert!(matches!(action, RunAction::Connect { .. }));
}

#[test]
fn controls_then_video_then_the_end() {
    let config = Config {
        enable_touch: false,
        brightness: Some(130),
        rotation: 180,
        stats: true,
        ..Config::default()
    };
    let (mut run, _) = connected(config, Compositor::Hyprland);
    match run.step(RunEvent::Opened(Ok(()))) {
        RunAction::Send(m) => assert_eq!((m.kind, m.value), (ControlKind::Brightness, 100)),
        other => panic!("got {other:?}"),
    }
    match run.step(RunEvent::Opened(Ok(()))) {
        RunAction::Send(m) => assert_eq!((m.kind, m.value), (ControlKind::Rotation, 2)),
        other => panic!("got {other:?}"),
    }
    assert!(matches!(run.step(RunEvent::Opened(Ok(()))), RunAction::OpenReader));
    assert!(matches!(run.step(RunEvent::Opened(Ok(()))), RunAction::Stream));
    assert!(matches!(
        run.step(RunEvent::StreamEnded(Some("unplugged".to_string()))),
        RunAction::Report
    ));
    assert_eq!(
        adb(run.step(RunEvent::Done))[3],
        "am force-stop com.moreland.display"
    );
    assert!(matches!(
        run.step(bad("offline")),
        RunAction::Finish(Some(e)) if e == "unplugged"
    ));
    assert_eq!(run.stage, RunStage::Ended);

    let quiet = Config { enable_touch: false, ..Config::default() };
    let (mut run, _) = connected(quiet, Compositor::Hyprland);
    match run.step(RunEvent::Opened(Ok(()))) {
        RunAction::Send(m) => assert_eq!((m.kind, m.value), (ControlKind::Rotation, 0)),
        other => panic!("got {other:?}"),
    }
    run.step(RunEvent::Opened(Ok(())));
    run.step(RunEvent::Opened(Ok(())));
    adb(run.step(RunEvent::StreamEnded(None)));
    assert!(matches!(run.step(ok("")), RunAction::Finish(None)));
}

#[test]
fn late_failures_carry_their_reason() {
    let quiet = || Config {
        enable_touch: false,
        brightness: Some(1),
        ..Config::default()
    };
    let fail = || RunEvent::Opened(Err("why".to_string()));
    let (mut run, _) = connected(quiet(), Compositor::Hyprland);
    assert!(matches!(run.step(fail()), RunAction::Fail(RunError::Connect(_))));
    let (mut run, _) = connected(quiet(), Compositor::Hyprland);
    run.step(RunEvent::Opened(Ok(())));
    assert!(matches!(run.step(fail()), RunAction::Fail(RunError::Brightness(_))));
    let (mut run, _) = connected(quiet(), Compositor::Hyprland);
    run.step(RunEvent::Opened(Ok(())));
    run.step(RunEvent::Opened(Ok(())));
    assert!(matches!(run.step(fail()), RunAction::Fail(RunError::Rotation(_))));
    let (mut run, _) = connected(quiet(), Compositor::Hyprland);
    run.step(RunEvent::Opened(Ok(())));
    run.step(RunEvent::Opened(Ok(())));
    run.step(RunEvent::Opened(Ok(())));
    assert!(matches!(run.step(fail()), RunAction::Fail(RunError::Reader(e)) if e == "why"));
    assert_eq!(run.stage, RunStage::Ended);
    let (mut run, _) = connected(Config::default(), Compositor::Hyprland);
    run.step(RunEvent::Opened(Ok(())));
    assert!(matches!(run.step(fail()), RunAction::Fail(RunError::TouchWorker(e)) if e == "why"));
    assert_eq!(run.stage, RunStage::Ended);

    let mut run = launched(Config::default(), Compositor::Hyprland, owned());
    run.step(RunEvent::Templates(Vec::new()));
    run.step(RunEvent::Opened(Ok(())));
    assert!(matches!(
        run.step(RunEvent::Format(Err("dead".to_string()))),
        RunAction::Fail(RunError::Format(_))
    ));
    let mut run = launched(Config::default(), Compositor::Hyprland, owned());
    run.step(RunEvent::Templates(Vec::new()));
    run.step(RunEvent::Opened(Ok(())));
    run.step(RunEvent::Format(Ok(GEOMETRY)));
    assert!(matches!(run.step(fail()), RunAction::Fail(RunError::Encoder(_))));
}

#[test]
fn messages_survive_any_cut() {
    let touch = TouchMessage { action: TouchAction::Move, x: 3, y: 4 };
    let mut wire = Vec::new();
    wire.extend(encode_ack(5));
    wire.extend(encode_touch(&touch));
    wire.extend([0xee; 9]);
    wire.extend(encode_ack(6));
    for piece in 1..=9usize {
        let mut reader = ReverseReader::new();
        let mut at = 0;
        let mut heard = Vec::new();
        while at < wire.len() {
            let n = piece.min(reader.wanted()).min(wire.len() - at);
            match reader.on_read(&wire[at..at + n]) {
                ReadStep::More => {}
                step => heard.push(step),
            }
            at += n;
        }
        assert_eq!(
            heard,
            vec![
                ReadStep::Message(ReverseMessage::Ack(5)),
                ReadStep::Message(ReverseMessage::Touch(touch)),
                ReadStep::Malformed(ProtocolError::UnknownReverseType(0xee)),
                ReadStep::Message(ReverseMessage::Ack(6)),
            ],
            "in pieces of {piece}"
        );
    }
    assert_eq!(ReverseReader::new().on_read(&[]), ReadStep::End);
}

#[test]
fn acknowledgements_match_in_order() {
    let mut r = RoundTrips::new();
    r.acknowledged(1);
    assert!(r.trips.is_empty());
    r.sent(10);
    r.sent(20);
    r.acknowledged(25);
    r.sent(30);
    r.acknowledged(26);
    r.acknowledged(29);
    assert_eq!(r.trips, [15, 6, 0]);
    assert!(r.sent_at.is_empty());
}

#[test]
fn frames_are_evenly_spaced() {
    let mut clock = FrameClock::new(90);
    assert_eq!(clock.pts(), 0);
    clock.advance();
    assert_eq!(clock.pts(), 11_111_111);
    clock.advance();
    assert_eq!((clock.index, clock.pts()), (2, 22_222_222));
}

#[test]
fn reports() {
    let r = report(&vec![], 10, 2000);
    assert_eq!((r.frames, r.bytes, r.acks), (10, 2000, 0));
    assert_eq!(r.round_trip, None);
    let trips: Vec<u64> = (1..=100).rev().collect();
    let r = report(&trips, 1, 2);
    assert_eq!(
        r.round_trip,
        Some(Summary { min: 1, median: 51, p95: 96, max: 100 })
    );
}
