use moreland::capture::discovery::{
    advertised, missing_globals, output_globals, Discovery, GlobalInfo, OutputEvent, OutputInfo,
    RegistryGlobal,
};
use moreland::capture::dmabuf::{
    allocate, modifier_words, placement, resolve_render_node, sibling_render_node, DriEntry, Placement,
    RenderNode, UnknownFourcc,
};
use moreland::capture::frames::{FrameAction, FrameDone, FrameFailure, FrameRun, FrameStage};
use moreland::capture::plasma::{
    find_output as find_named, next_frame, outputs_to_bind, process, stream_properties,
    takes_description, BufferAction, CursorMode, Found, NegotiatedFormat, NextFrame,
    PlasmaVirtualOutput, Received, Settle, StreamEvent, StreamState, VideoInfo,
};
use moreland::capture::session::{
    find_output, is_countable, order_of, pick_dmabuf_format, pick_shm_format, words, words_in,
    AfterAttempt, Announcement, BufferMode, ByteOrder, Capture, CaptureConfig, CaptureError, FailureReason, FrameEvent,
    GeometryChanged, Negotiation, PoolError, PoolPlan, SessionEvent, State, SHM_ARGB8888,
    SHM_XRGB8888,
};
use moreland::capture::shm::{ShmBuffer, ShmError};
use moreland::capture::{fourcc_name, AR24, FALLBACK_MODIFIERS, REQUIRED_GLOBALS, XR24};

fn global(name: u32, interface: &str, version: u32) -> RegistryGlobal {
    RegistryGlobal {
        name,
        interface: interface.to_string(),
        version,
    }
}

fn negotiated() -> State {
    let mut s = State::new();
    s.on_announcement(Announcement::BufferSize(1920, 1200));
    s.on_announcement(Announcement::ShmFormat(Some(SHM_ARGB8888)));
    s.on_announcement(Announcement::DmabufFormat(AR24, vec![3]));
    s.on_announcement(Announcement::DmabufFormat(XR24, vec![1, 2, 3]));
    s.on_announcement(Announcement::DmabufDevice(vec![226]));
    s.on_announcement(Announcement::Done);
    s
}

fn capture(mode: BufferMode, allowed: &[u64]) -> Capture {
    let config = CaptureConfig {
        mode,
        pool_size: 3,
        allowed_modifiers: allowed.to_vec(),
        paint_cursor: false,
    };
    Capture::new(&config, negotiated(), true)
}

fn with_pool() -> Capture {
    let mut c = capture(BufferMode::Dmabuf, &[]);
    let plan = c.allocate_pool().unwrap();
    c.pool_allocated(&plan, Some(2));
    c
}

#[test]
fn names_of_formats() {
    assert_eq!(XR24, u32::from_le_bytes(*b"XR24"));
    assert_eq!(AR24, u32::from_le_bytes(*b"AR24"));
    assert_eq!(fourcc_name(XR24), "XR24");
    assert_eq!(fourcc_name(1), "0x00000001");
    assert_eq!(fourcc_name(u32::from_le_bytes(*b"R8  ")), "0x20203852");
    assert_eq!(FALLBACK_MODIFIERS, [0]);
}

#[test]
fn globals_in_order() {
    let list = vec![
        global(1, "wl_shm", 1),
        global(2, "wl_output", 3),
        global(3, "wl_compositor", 6),
        global(4, "wl_output", 5),
        global(5, "wl", 1),
    ];
    let rows: Vec<(String, u32)> =
        advertised(&list).into_iter().map(|g| (g.interface, g.version)).collect();
    assert_eq!(
        rows,
        [
            ("wl".to_string(), 1),
            ("wl_compositor".to_string(), 6),
            ("wl_output".to_string(), 3),
            ("wl_output".to_string(), 5),
            ("wl_shm".to_string(), 1),
        ]
    );
    assert_eq!(output_globals(&list), [(2, 3), (4, 4)]);
    assert_eq!(outputs_to_bind(&list), [4]);
}

#[test]
fn required_globals() {
    let all: Vec<GlobalInfo> = REQUIRED_GLOBALS
        .iter()
        .map(|i| GlobalInfo { interface: i.to_string(), version: 1 })
        .collect();
    assert!(missing_globals(&all).is_empty());
    assert_eq!(
        missing_globals(&all[..1].to_vec()),
        [
            "zwp_linux_dmabuf_v1",
            "ext_image_copy_capture_manager_v1",
            "ext_output_image_capture_source_manager_v1"
        ]
    );
}

#[test]
fn outputs_are_discovered() {
    let mut d = Discovery::new();
    assert_eq!(d.add(), 0);
    assert_eq!(d.add(), 1);
    d.on_event(1, OutputEvent::Name("HEADLESS-3".to_string()));
    d.on_event(1, OutputEvent::Description("virtual".to_string()));
    d.on_event(1, OutputEvent::Mode { current: false, width: 1, height: 2, refresh: 3 });
    d.on_event(1, OutputEvent::Mode { current: true, width: 1920, height: 1200, refresh: 60_000 });
    d.on_event(1, OutputEvent::Other);
    d.on_event(7, OutputEvent::Name("nobody".to_string()));
    let o = &d.outputs[1];
    assert_eq!((o.width, o.height, o.refresh_mhz), (1920, 1200, 60_000));
    assert_eq!(o.description, "virtual");
    assert!(o.is_headless());
    assert!(!d.outputs[0].is_headless());
    assert_eq!(OutputInfo::default().name, "");
}

#[test]
fn shared_memory_layouts() {
    let b = ShmBuffer::new(1920, 1200).unwrap();
    assert_eq!((b.stride, b.size()), (7680, 9_216_000));
    assert_eq!(ShmBuffer::new(1 << 30, 1), Err(ShmError::StrideOverflow));
    assert_eq!(ShmBuffer::new(1 << 29, 2), Err(ShmError::SizeOverflow));
    assert_eq!(ShmBuffer::new(0, u32::MAX).unwrap().size(), 0);
}

#[test]
fn allocation() {
    assert_eq!(placement(true, 1, &vec![]), Ok(Placement::Linear));
    assert_eq!(placement(false, 7, &vec![1]), Err(UnknownFourcc { code: 7 }));
    assert_eq!(allocate(XR24, &vec![]), Ok(Placement::Linear));
    assert_eq!(allocate(XR24, &vec![0]), Ok(Placement::AnyOffered));
    assert_eq!(allocate(1, &vec![]), Err(UnknownFourcc { code: 1 }));
    assert_eq!(modifier_words(0x0200_0000_0000_0901), (0x0200_0000, 0x901));
}

#[test]
fn render_nodes() {
    let entries = vec![
        DriEntry { name: "by-path".to_string(), rdev: None },
        DriEntry { name: "card1".to_string(), rdev: Some(10) },
        DriEntry { name: "renderD128".to_string(), rdev: Some(20) },
    ];
    assert!(matches!(resolve_render_node(&entries, 30), RenderNode::NoMatch));
    assert!(matches!(
        resolve_render_node(&entries, 20),
        RenderNode::At(p) if p == "/dev/dri/renderD128"
    ));
    match resolve_render_node(&entries, 10) {
        RenderNode::BesidePrimary { name, directory } => {
            assert_eq!(name, "card1");
            assert_eq!(directory, "/sys/class/drm/card1/device/drm");
        }
        other => panic!("got {other:?}"),
    }
    let names = vec!["card1".to_string(), "renderD129".to_string()];
    assert_eq!(sibling_render_node(&names).as_deref(), Some("/dev/dri/renderD129"));
    assert_eq!(sibling_render_node(&vec![]), None);
}

#[test]
fn words_in_either_order() {
    let bytes = [1, 2, 3, 4, 5, 6, 7, 8, 0, 0, 0, 0, 0, 0, 0, 9, 1, 2];
    assert_eq!(words_in(&bytes, ByteOrder::Big), [0x0102_0304_0506_0708, 9]);
    assert_eq!(
        words_in(&bytes, ByteOrder::Little),
        [0x0807_0605_0403_0201, 9 << 56]
    );
    assert_eq!(order_of(1), ByteOrder::Big);
    assert_eq!(order_of(1 << 56), ByteOrder::Little);
}

#[test]
fn native_words() {
    let mut bytes = Vec::new();
    bytes.extend(0x0102_0304_0506_0708u64.to_ne_bytes());
    bytes.extend(9u64.to_ne_bytes());
    bytes.extend([1, 2, 3]);
    assert_eq!(words(&bytes), [0x0102_0304_0506_0708, 9]);
    assert!(words(&[1; 7]).is_empty());

    let mut s = State::new();
    s.on_session_event(SessionEvent::DmabufDevice(7u64.to_ne_bytes().to_vec()));
    s.on_session_event(SessionEvent::DmabufDevice(vec![1, 2]));
    s.on_session_event(SessionEvent::DmabufFormat(5, bytes));
    assert_eq!(s.caps.dmabuf_device, Some(7));
    assert_eq!(s.caps.dmabuf_formats, [(5, vec![0x0102_0304_0506_0708, 9])]);
}

#[test]
fn a_new_generation_starts_with_any_constraint() {
    let kinds = vec![
        SessionEvent::BufferSize(1, 2),
        SessionEvent::ShmFormat(Some(1)),
        SessionEvent::ShmFormat(None),
        SessionEvent::DmabufDevice(vec![0; 8]),
        SessionEvent::DmabufFormat(1, vec![]),
    ];
    for kind in kinds {
        let mut s = negotiated();
        s.caps_consumed = true;
        let said = format!("{kind:?}");
        s.on_session_event(kind);
        assert!(!s.session_done && !s.caps_consumed, "{said}");
        let left = usize::from(s.caps.buffer_size.is_some())
            + s.caps.shm_formats.len()
            + s.caps.dmabuf_formats.len()
            + usize::from(s.caps.dmabuf_device.is_some());
        assert!(left <= 1, "{said} left {left}");
    }
    let mut s = negotiated();
    s.caps_consumed = true;
    s.on_session_event(SessionEvent::Done);
    s.on_session_event(SessionEvent::Stopped);
    s.on_session_event(SessionEvent::Other);
    assert!(s.caps_consumed && s.session_stopped);
    assert_eq!(s.caps.dmabuf_formats.len(), 2);
}

#[test]
fn captured_outputs_by_name() {
    let mut s = State::new();
    assert_eq!(s.add_output(), 0);
    assert_eq!(s.add_output(), 1);
    s.on_output_name(1, "moreland".to_string());
    s.on_output_name(5, "nobody".to_string());
    assert_eq!(find_output(&s.outputs, "moreland").unwrap(), 1);
    s.on_output_name(0, "eDP-1".to_string());
    let e = find_output(&s.outputs, "HDMI").unwrap_err();
    assert_eq!((e.wanted.as_str(), e.known.as_str()), ("HDMI", "eDP-1, moreland"));
}

#[test]
fn frame_events() {
    let mut s = State::new();
    let time = FrameEvent::PresentationTime { tv_sec_hi: 1, tv_sec_lo: 2, tv_nsec: 3 };
    assert!(is_countable(time));
    s.on_frame_event(time);
    assert_eq!(s.presentation_ns, Some(((1u64 << 32) + 2) * 1_000_000_000 + 3));
    assert!(!is_countable(FrameEvent::PresentationTime {
        tv_sec_hi: u32::MAX,
        tv_sec_lo: 0,
        tv_nsec: 0
    }));
    s.on_frame_event(FrameEvent::Failed(FailureReason::Stopped));
    s.on_frame_event(FrameEvent::FailedUnknown(9));
    s.on_frame_event(FrameEvent::Ready);
    assert_eq!(s.frame_failed, Some(FailureReason::Stopped));
    assert_eq!(s.frame_failed_raw, Some(9));
    assert!(s.frame_ready);
}

#[test]
fn format_choices() {
    assert_eq!(pick_shm_format(&vec![SHM_ARGB8888, SHM_XRGB8888]), Ok(SHM_XRGB8888));
    assert_eq!(pick_shm_format(&vec![7, SHM_ARGB8888]), Ok(SHM_ARGB8888));
    assert_eq!(pick_shm_format(&vec![7]), Err(PoolError::NoShmFormat));

    let offered = vec![(AR24, vec![9]), (XR24, vec![1, 2, 3]), (XR24, vec![7])];
    assert_eq!(pick_dmabuf_format(&offered, &vec![]), Ok((XR24, vec![1, 2, 3])));
    assert_eq!(pick_dmabuf_format(&offered, &vec![3, 1]), Ok((XR24, vec![3])));
    assert_eq!(pick_dmabuf_format(&offered, &vec![9]), Ok((AR24, vec![9])));
    assert_eq!(pick_dmabuf_format(&offered, &vec![7]), Err(PoolError::NoSharedModifier));
    assert_eq!(pick_dmabuf_format(&vec![], &vec![]), Err(PoolError::NoDmabufFormat));
}

#[test]
fn pools() {
    let mut c = capture(BufferMode::Dmabuf, &[2, 1]);
    match c.allocate_pool().unwrap() {
        PoolPlan::Dmabuf { width, height, fourcc, modifiers, device, reuse } => {
            assert_eq!((width, height, fourcc), (1920, 1200, XR24));
            assert_eq!((modifiers, device, reuse), (vec![2], 226, false));
        }
        other => panic!("got {other:?}"),
    }
    let mut c = with_pool();
    assert_eq!((c.width, c.height, c.format, c.modifier()), (1920, 1200, XR24, 2));
    assert_eq!(c.buffers, 3);
    assert!(c.state.caps_consumed);
    assert!(matches!(c.allocate_pool(), Ok(PoolPlan::Dmabuf { reuse: true, .. })));
    assert_eq!(c.buffers, 0);
    c.state.caps.dmabuf_device = Some(5);
    assert!(matches!(c.allocate_pool(), Ok(PoolPlan::Dmabuf { reuse: false, .. })));
    assert_eq!(c.open_device, None);

    let mut c = capture(BufferMode::Shm, &[]);
    let plan = c.allocate_pool().unwrap();
    assert!(matches!(&plan, PoolPlan::Shm { format: SHM_ARGB8888, buffer } if buffer.stride == 7680));
    c.pool_allocated(&plan, None);
    assert_eq!((c.width, c.format, c.modifier()), (1920, SHM_ARGB8888, 0));
}

#[test]
fn pool_errors() {
    let mut c = capture(BufferMode::Shm, &[]);
    c.state.caps.buffer_size = Some((1 << 30, 1));
    assert!(matches!(c.allocate_pool(), Err(PoolError::Shm(ShmError::StrideOverflow))));
    c.state.caps.shm_formats.clear();
    assert!(matches!(c.allocate_pool(), Err(PoolError::NoShmFormat)));
    c.state.caps.buffer_size = None;
    assert!(matches!(c.allocate_pool(), Err(PoolError::NoBufferSize)));

    let mut c = capture(BufferMode::Dmabuf, &[]);
    c.state.caps.dmabuf_device = None;
    assert!(matches!(c.allocate_pool(), Err(PoolError::NoDmabufDevice)));
    c.has_dmabuf = false;
    assert!(matches!(c.allocate_pool(), Err(PoolError::NoDmabufGlobal)));
    let empty = CaptureConfig { pool_size: 0, ..CaptureConfig::default() };
    assert_eq!(Capture::new(&empty, State::new(), false).pool_size, 1);
}

#[test]
fn buffers_take_turns() {
    let mut c = with_pool();
    let turns: Vec<usize> = (0..7).map(|_| c.begin_frame().unwrap()).collect();
    assert_eq!(turns, [0, 1, 2, 0, 1, 2, 0]);
    c.state.session_stopped = true;
    assert_eq!(c.begin_frame(), Err(CaptureError::Stopped));
    let mut c = capture(BufferMode::Dmabuf, &[]);
    assert_eq!(c.begin_frame(), Err(CaptureError::EmptyPool));
}

#[test]
fn frame_results() {
    let mut c = with_pool();
    let index = c.begin_frame().unwrap();
    assert!(!c.frame_settled());
    c.state.on_frame_event(FrameEvent::PresentationTime { tv_sec_hi: 0, tv_sec_lo: 1, tv_nsec: 0 });
    c.state.on_frame_event(FrameEvent::Ready);
    assert!(c.frame_settled());
    let t = c.try_capture_frame(index, 5, 1_000_000_007).unwrap();
    assert_eq!((t.latency, t.age, t.buffer_index), (5, Some(7), 0));
    assert_eq!(t.presentation_ns, Some(1_000_000_000));
    assert_eq!(c.try_capture_frame(index, 5, 3).unwrap().age, Some(0));

    for (event, want) in [
        (FrameEvent::Failed(FailureReason::BufferConstraints), CaptureError::BufferConstraints),
        (FrameEvent::Failed(FailureReason::Stopped), CaptureError::Stopped),
        (FrameEvent::Failed(FailureReason::Unknown), CaptureError::Failed),
        (FrameEvent::FailedUnknown(42), CaptureError::UnknownReason(42)),
    ] {
        c.begin_frame().unwrap();
        c.state.on_frame_event(event);
        assert_eq!(c.try_capture_frame(1, 0, 0), Err(want));
    }
}

#[test]
fn changed_constraints_are_retried_once() {
    let changed = Err(CaptureError::BufferConstraints);
    assert_eq!(Capture::capture_frame(changed, false), AfterAttempt::Renegotiate);
    assert_eq!(
        Capture::capture_frame(changed, true),
        AfterAttempt::Fail(CaptureError::BufferConstraints)
    );
    assert_eq!(
        Capture::capture_frame(Err(CaptureError::Stopped), false),
        AfterAttempt::Fail(CaptureError::Stopped)
    );
}

#[test]
fn negotiations() {
    let mut s = State::new();
    assert_eq!(Capture::negotiation(&s), Negotiation::Wait);
    s.session_done = true;
    assert_eq!(Capture::negotiation(&s), Negotiation::Complete);
    s.session_stopped = true;
    assert_eq!(Capture::negotiation(&s), Negotiation::Stopped);

    let mut c = with_pool();
    assert_eq!(c.renegotiate(9, 5), Negotiation::Complete);
    c.state.session_done = false;
    assert_eq!(c.renegotiate(5, 5), Negotiation::Wait);
    assert_eq!(c.renegotiate(6, 5), Negotiation::TimedOut);
    c.state.session_stopped = true;
    assert_eq!(c.renegotiate(6, 5), Negotiation::Stopped);
}

#[test]
fn a_new_size_is_not_absorbed() {
    let mut c = with_pool();
    assert_eq!(c.renegotiated(1920, 1200), Ok(()));
    assert!(!c.geometry_changed());
    assert_eq!(
        c.renegotiated(1280, 800),
        Err(GeometryChanged { old_width: 1280, old_height: 800, width: 1920, height: 1200 })
    );
    assert!(c.geometry_changed());
}

#[test]
fn plasma_streams_settle() {
    assert_eq!(
        [CursorMode::Hidden.to_u32(), CursorMode::Embedded.to_u32(), CursorMode::Metadata.to_u32()],
        [1, 2, 4]
    );
    assert!(takes_description(4) && !takes_description(3));
    let mut s = StreamState::new();
    assert!(matches!(s.settle(4, 5), Settle::Wait));
    assert!(matches!(s.settle(5, 5), Settle::TimedOut));
    s.on_event(StreamEvent::Serial { object_serial_hi: 1, object_serial_low: 2 });
    assert!(s.settled());
    assert!(matches!(s.settle(9, 5), Settle::Ready));
    assert_eq!(s.object_serial, Some((1 << 32) + 2));
    s.on_event(StreamEvent::Closed);
    assert!(matches!(s.settle(9, 5), Settle::Closed));
    s.on_event(StreamEvent::Failed("no".to_string()));
    assert!(matches!(s.settle(9, 5), Settle::Refused(e) if e == "no"));
}

#[test]
fn plasma_outputs() {
    assert!(PlasmaVirtualOutput::create("m", StreamState::new()).is_err());
    let mut s = StreamState::new();
    s.on_event(StreamEvent::Created(77));
    let mut o = PlasmaVirtualOutput::create("m", s).unwrap();
    assert_eq!((o.name(), o.node_id(), o.object_serial()), ("m", Some(77), None));
    assert_eq!(o.target().unwrap(), "77");
    o.state.on_event(StreamEvent::Serial { object_serial_hi: 0, object_serial_low: 500 });
    assert_eq!(o.target().unwrap(), "500");
    assert!(o.poll());
    o.state.on_event(StreamEvent::Closed);
    assert!(!o.poll());
    let mirror = PlasmaVirtualOutput::mirror("eDP-1", StreamState::new());
    assert!(mirror.target().is_err());
    let props = stream_properties("5");
    assert_eq!(props.len(), 4);
    assert_eq!(props[3], ("target.object".to_string(), "5".to_string()));
}

#[test]
fn plasma_output_search() {
    let names = vec![None, Some("eDP-1".to_string()), Some("m".to_string())];
    assert_eq!(find_named(&names, "m", 9, 0), Found::At(2));
    assert_eq!(find_named(&names, "x", 4, 5), Found::Again);
    assert_eq!(find_named(&names, "x", 5, 5), Found::TimedOut);
}

#[test]
fn pipewire_formats_and_buffers() {
    let mut f = NegotiatedFormat::default();
    assert!(f.wait_for_format());
    assert_eq!(process(Some(3), &f), BufferAction::Skip);
    f.param_changed(None);
    assert_eq!(f, NegotiatedFormat::default());
    f.param_changed(Some(VideoInfo { width: 100, height: 50, modifier: 9, format: 0x0c }));
    assert_eq!((f.width, f.height, f.modifier, f.fourcc), (100, 50, 9, XR24));
    assert_eq!((f.stride, f.offset), (400, 0));
    f.param_changed(Some(VideoInfo { width: 200, height: 50, modifier: 9, format: 8 }));
    assert_eq!((f.width, f.stride, f.fourcc), (200, 400, 8));
    assert!(!f.wait_for_format());
    assert_eq!(process(None, &f), BufferAction::Skip);
    assert_eq!(process(Some(-1), &f), BufferAction::NoFd);
    assert_eq!(process(Some(0), &f), BufferAction::Deliver { offset: 0, stride: 400 });
}

#[test]
fn waiting_for_frames() {
    assert!(matches!(next_frame(Received::Frame, Some("x".to_string())), NextFrame::Return));
    assert!(matches!(next_frame(Received::Timeout, None), NextFrame::Again));
    assert!(matches!(
        next_frame(Received::Timeout, Some("gone".to_string())),
        NextFrame::Fail(e) if e == "PipeWire stream failed: gone"
    ));
    assert!(matches!(
        next_frame(Received::Disconnected, None),
        NextFrame::Fail(e) if e == "PipeWire stream ended"
    ));
}

fn submit(run: &mut FrameRun, c: &mut Capture) -> usize {
    match run.step(c, FrameDone::Done, 10) {
        FrameAction::Submit(index) => index,
        other => panic!("got {other:?}"),
    }
}

#[test]
fn a_frame_is_waited_for() {
    let mut c = with_pool();
    let mut run = FrameRun::new();
    assert_eq!(submit(&mut run, &mut c), 0);
    assert_eq!(run.step(&mut c, FrameDone::Done, 100), FrameAction::Dispatch);
    assert_eq!(run.step(&mut c, FrameDone::Done, 150), FrameAction::Dispatch);
    c.state.on_frame_event(FrameEvent::Ready);
    match run.step(&mut c, FrameDone::Done, 175) {
        FrameAction::Return(t) => {
            assert_eq!((t.latency, t.buffer_index, t.age), (75, 0, None));
        }
        other => panic!("got {other:?}"),
    }
    assert_eq!(run.stage, FrameStage::Ended);
}

fn constrained(c: &mut Capture) -> FrameRun {
    let mut run = FrameRun::new();
    submit(&mut run, c);
    c.state.on_frame_event(FrameEvent::Failed(FailureReason::BufferConstraints));
    c.state.on_announcement(Announcement::BufferSize(1920, 1200));
    assert_eq!(run.step(c, FrameDone::Done, 20), FrameAction::Dispatch);
    assert_eq!(run.stage, FrameStage::Renegotiating);
    run
}

#[test]
fn changed_constraints_make_a_new_pool() {
    let mut c = with_pool();
    let mut run = constrained(&mut c);
    c.state.on_announcement(Announcement::DmabufFormat(AR24, vec![4]));
    c.state.on_announcement(Announcement::DmabufDevice(vec![226]));
    c.state.on_announcement(Announcement::Done);
    assert_eq!(run.step(&mut c, FrameDone::Done, 30), FrameAction::Allocate);
    assert!(matches!(&run.plan, Some(PoolPlan::Dmabuf { fourcc: AR24, reuse: true, .. })));
    assert_eq!(run.step(&mut c, FrameDone::Allocated(Some(4)), 40), FrameAction::Submit(0));
    assert_eq!((c.format, c.modifier()), (AR24, 4));
    // A second change is an error.
    c.state.on_frame_event(FrameEvent::Failed(FailureReason::BufferConstraints));
    assert_eq!(
        run.step(&mut c, FrameDone::Done, 50),
        FrameAction::Fail(FrameFailure::Capture(CaptureError::BufferConstraints))
    );
}

#[test]
fn renegotiation_can_fail() {
    let mut c = with_pool();
    let mut run = constrained(&mut c);
    assert_eq!(
        run.step(&mut c, FrameDone::Done, 20 + 5_000_000_001),
        FrameAction::Fail(FrameFailure::TimedOut)
    );
    let mut c = with_pool();
    let mut run = constrained(&mut c);
    c.state.on_announcement(Announcement::Stopped);
    assert_eq!(
        run.step(&mut c, FrameDone::Done, 30),
        FrameAction::Fail(FrameFailure::StoppedRenegotiating)
    );
    let mut c = with_pool();
    let mut run = constrained(&mut c);
    c.state.on_announcement(Announcement::Done);
    assert_eq!(
        run.step(&mut c, FrameDone::Done, 30),
        FrameAction::Fail(FrameFailure::Pool(PoolError::NoDmabufFormat))
    );
    assert_eq!(
        FrameRun::new().step(&mut c, FrameDone::Done, 40),
        FrameAction::Fail(FrameFailure::Capture(CaptureError::EmptyPool))
    );
}

#[test]
fn resized_outputs_end_the_session() {
    let mut c = with_pool();
    let mut run = constrained(&mut c);
    c.state.on_announcement(Announcement::BufferSize(1280, 800));
    c.state.on_announcement(Announcement::DmabufFormat(XR24, vec![4]));
    c.state.on_announcement(Announcement::DmabufDevice(vec![226]));
    c.state.on_announcement(Announcement::Done);
    assert_eq!(run.step(&mut c, FrameDone::Done, 30), FrameAction::Allocate);
    assert_eq!(
        run.step(&mut c, FrameDone::Allocated(None), 40),
        FrameAction::Fail(FrameFailure::Geometry(GeometryChanged {
            old_width: 1920,
            old_height: 1200,
            width: 1280,
            height: 800
        }))
    );
    assert!(c.geometry_changed());
}
