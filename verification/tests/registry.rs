use moreland::daemon::args::{parse_args, Args, Outcome};
use moreland::daemon::registry::{
    allocate_port, bump_cooldown, is_timeout, panic_message, resolve_output_name, serial_suffix,
    Cause, Cooldown, Idle, NameError, PanicPayload, PortError, Registry, Running, SessionEnd,
    SpawnError, TrackerEvent, SPAWN_DEBOUNCE_NS,
};
use moreland::daemon::tracker::Device;
use moreland::table::Table;

const SECOND: u64 = 1_000_000_000;

fn device(serial: &str, state: &str) -> Device {
    Device {
        serial: serial.to_string(),
        state: state.to_string(),
    }
}

fn args(line: &str) -> Args {
    let words: Vec<String> = line.split(' ').filter(|w| !w.is_empty()).map(String::from).collect();
    match parse_args(&words) {
        Outcome::Run(args) => args,
        other => panic!("got {other:?}"),
    }
}

fn running(rows: &[(&str, u16, &str)]) -> Table<Running> {
    let mut table = Table::new();
    for (serial, port, name) in rows {
        table.insert(
            serial.to_string(),
            Running {
                port: *port,
                output_name: name.to_string(),
                stopping: false,
            },
        );
    }
    table
}

fn serials(devices: &[Device]) -> Vec<String> {
    devices.iter().map(|d| d.serial.clone()).collect()
}

fn start(registry: &mut Registry, serial: &str, args: &Args) -> (u16, String) {
    let config = registry.spawn_session(serial, args).unwrap();
    registry.session_started(serial, &config);
    (config.port, config.output_name.clone())
}

#[test]
fn ports_are_the_lowest_free_ones() {
    assert_eq!(allocate_port(&running(&[]), 27183), Ok(27183));
    let two = running(&[("a", 27183, "x"), ("b", 27185, "y")]);
    assert_eq!(allocate_port(&two, 27183), Ok(27184));
    let last = running(&[("a", 65534, "x"), ("b", 65535, "y")]);
    assert_eq!(allocate_port(&last, 65534), Err(PortError::Overflow));
    let mut full = Table::new();
    for i in 0..100u16 {
        full.insert(
            format!("s{i}"),
            Running {
                port: 1000 + i,
                output_name: format!("o{i}"),
                stopping: false,
            },
        );
    }
    assert_eq!(allocate_port(&full, 1000), Err(PortError::Exhausted(1000, 1099)));
}

#[test]
fn output_names() {
    let none = running(&[]);
    assert_eq!(resolve_output_name(false, "moreland", "X", &none).unwrap(), "moreland");
    let one = running(&[("A", 1, "moreland")]);
    assert_eq!(
        resolve_output_name(false, "moreland", "RF8N50QRDNV", &one).unwrap(),
        "moreland-rdnv"
    );
    let two = running(&[("A", 1, "moreland"), ("B", 2, "moreland-rdnv")]);
    assert_eq!(
        resolve_output_name(false, "moreland", "RF8N50QRDNV", &two).unwrap(),
        "moreland-RF8N50QRDNV"
    );
    let three = running(&[
        ("A", 1, "moreland"),
        ("B", 2, "moreland-rdnv"),
        ("C", 3, "moreland-RF8N50QRDNV"),
    ]);
    match resolve_output_name(false, "moreland", "RF8N50QRDNV", &three) {
        Err(NameError::Ambiguous { name, serial }) => {
            assert_eq!((name.as_str(), serial.as_str()), ("moreland", "RF8N50QRDNV"));
        }
        other => panic!("got {other:?}"),
    }
    assert_eq!(resolve_output_name(true, "desk", "X", &one).unwrap(), "desk");
    match resolve_output_name(true, "moreland", "X", &one) {
        Err(NameError::Held { name, holder, serial }) => {
            assert_eq!(
                (name.as_str(), holder.as_str(), serial.as_str()),
                ("moreland", "A", "X")
            );
        }
        other => panic!("got {other:?}"),
    }
}

#[test]
fn suffixes() {
    assert_eq!(serial_suffix("RF8N50QRDNV", 4), "rdnv");
    assert_eq!(serial_suffix("emulator-5554", 4), "5554");
    assert_eq!(serial_suffix("192.168.0.7:5555", 6), "075555");
    assert_eq!(serial_suffix("A_", 4), "a");
    assert_eq!(serial_suffix("", 4), "");
}

#[test]
fn cooldowns_grow_and_stop_growing() {
    let mut table: Table<Cooldown> = Table::new();
    let mut waits = Vec::new();
    for _ in 0..10 {
        let said = bump_cooldown(&mut table, "S", 5 * SECOND);
        let entry = table.get("S").unwrap();
        waits.push((entry.next_attempt / SECOND - 5, said));
    }
    assert_eq!(
        waits,
        vec![
            (2, None),
            (4, None),
            (6, Some(6)),
            (8, Some(8)),
            (10, Some(10)),
            (12, Some(12)),
            (14, Some(14)),
            (16, Some(16)),
            (16, Some(16)),
            (16, Some(16)),
        ]
    );
    assert!(table.get("T").is_none());
}

#[test]
fn a_device_has_to_settle() {
    let mut r = Registry::new();
    assert!(r.on_tracker(TrackerEvent::Update(vec![device("A", "device"), device("B", "offline")])));
    assert!(r.reconcile(false, 0).start.is_empty());
    assert!(r.reconcile(false, SPAWN_DEBOUNCE_NS - 1).start.is_empty());
    assert_eq!(serials(&r.reconcile(false, SPAWN_DEBOUNCE_NS).start), ["A"]);

    // It drops out and comes back: the clock starts over.
    r.on_tracker(TrackerEvent::Update(vec![device("A", "offline")]));
    r.reconcile(false, SPAWN_DEBOUNCE_NS + 1);
    r.on_tracker(TrackerEvent::Update(vec![device("A", "device")]));
    assert!(r.reconcile(false, SPAWN_DEBOUNCE_NS + 2).start.is_empty());
    assert_eq!(serials(&r.reconcile(false, 2 * SPAWN_DEBOUNCE_NS + 2).start), ["A"]);
}

#[test]
fn sessions_get_their_own_ports_and_names() {
    let mut r = Registry::new();
    let a = args("--rotation 90 --brightness AbC=30 --rotation aBc=270 -b 60");
    assert_eq!(start(&mut r, "ONE1", &a), (27183, "moreland".to_string()));
    assert_eq!(start(&mut r, "ABC", &a), (27184, "moreland-abc".to_string()));
    let config = r.spawn_session("ABC", &a).unwrap();
    assert_eq!((config.brightness, config.rotation), (Some(30), 270));
    let other = r.spawn_session("XYZ", &a).unwrap();
    assert_eq!((other.brightness, other.rotation), (Some(60), 90));
    assert_eq!(other.port, 27185);
    assert!(r.has_session("ABC") && !r.has_session("XYZ"));

    // A port is free again once its session has ended.
    assert_eq!(r.reap_finished("ONE1", SessionEnd::Clean, 0), None);
    assert_eq!(start(&mut r, "NEW", &a), (27183, "moreland".to_string()));
}

#[test]
fn planning_can_fail() {
    let mut r = Registry::new();
    let explicit = args("--output-name desk");
    start(&mut r, "A", &explicit);
    match r.spawn_session("B", &explicit) {
        Err(SpawnError::Name(NameError::Held { holder, .. })) => assert_eq!(holder, "A"),
        other => panic!("got {other:?}"),
    }
    let mut full = Registry::new();
    let mut late = args("");
    late.config.port = 65535;
    start(&mut full, "A", &late);
    match full.spawn_session("B", &late) {
        Err(SpawnError::Port(e)) => assert_eq!(e, PortError::Overflow),
        other => panic!("got {other:?}"),
    }
}

#[test]
fn vanished_devices_stop_their_sessions_only() {
    let mut r = Registry::new();
    let a = args("");
    r.on_tracker(TrackerEvent::Update(vec![device("A", "device"), device("B", "device")]));
    r.reconcile(false, 0);
    start(&mut r, "A", &a);
    start(&mut r, "B", &a);
    r.on_tracker(TrackerEvent::Update(vec![device("A", "unauthorized"), device("B", "device")]));
    let plan = r.reconcile(false, SECOND);
    assert_eq!(plan.stop, ["A"]);
    assert!(plan.start.is_empty());
    assert!(r.sessions.get("A").unwrap().stopping);
    assert!(!r.sessions.get("B").unwrap().stopping);
}

#[test]
fn a_lost_tracker_stops_nothing() {
    let mut r = Registry::new();
    let a = args("");
    r.on_tracker(TrackerEvent::Update(vec![device("A", "device")]));
    r.reconcile(false, 0);
    start(&mut r, "A", &a);
    assert!(!r.on_tracker(TrackerEvent::Lost));
    assert!(r.on_tracker(TrackerEvent::Quiet));
    assert!(r.reconcile(false, SECOND).stop.is_empty());
    assert_eq!(r.devices.len(), 1);
}

#[test]
fn failures_put_one_device_off() {
    let mut r = Registry::new();
    let a = args("");
    r.on_tracker(TrackerEvent::Update(vec![device("A", "device"), device("B", "device")]));
    r.reconcile(false, 0);
    start(&mut r, "A", &a);
    assert_eq!(r.reap_finished("A", SessionEnd::Panicked, 10 * SECOND), None);
    assert_eq!(serials(&r.reconcile(false, 11 * SECOND).start), ["B"]);
    assert_eq!(serials(&r.reconcile(false, 12 * SECOND).start), ["A", "B"]);
    r.spawn_failed("A", 12 * SECOND);
    assert_eq!(r.cooldowns.get("A").unwrap().failures, 2);
    start(&mut r, "A", &a);
    r.reap_finished("A", SessionEnd::Clean, 13 * SECOND);
    assert!(r.cooldowns.get("A").is_none());
    // Nothing is known of a session that is not there.
    assert_eq!(r.reap_finished("Z", SessionEnd::Failed, 13 * SECOND), None);
    assert!(r.cooldowns.get("Z").is_none());
}

#[test]
fn once_serves_what_is_ready_when_it_arms() {
    let mut r = Registry::new();
    let a = args("--once");
    r.on_tracker(TrackerEvent::Update(vec![device("A", "device")]));
    assert!(r.reconcile(true, 0).start.is_empty());
    assert!(!r.finished(true));
    // B has just arrived, but A has settled.
    r.on_tracker(TrackerEvent::Update(vec![
        device("A", "device"),
        device("B", "device"),
        device("C", "offline"),
    ]));
    assert_eq!(serials(&r.reconcile(true, SPAWN_DEBOUNCE_NS).start), ["A", "B"]);
    start(&mut r, "A", &a);
    assert!(!r.finished(true));
    assert!(r.reconcile(true, 10 * SECOND).start.is_empty());
    r.reap_finished("A", SessionEnd::Clean, 11 * SECOND);
    assert!(r.finished(true));
    assert!(!r.finished(false));
}

#[test]
fn idling_is_announced_once() {
    let mut r = Registry::new();
    assert!(matches!(r.announce_idle(), Idle::NoDevice));
    assert!(matches!(r.announce_idle(), Idle::Silent));
    r.on_tracker(TrackerEvent::Update(vec![device("A", "unauthorized"), device("B", "device")]));
    match r.announce_idle() {
        Idle::Waiting(list) => assert_eq!(serials(&list), ["A"]),
        other => panic!("got {other:?}"),
    }
    assert!(matches!(r.announce_idle(), Idle::Silent));
    let a = args("");
    start(&mut r, "B", &a);
    assert!(matches!(r.announce_idle(), Idle::Silent));
}

#[test]
fn timeouts_and_panics() {
    assert!(is_timeout(&vec![Cause::NotIo, Cause::WouldBlock]));
    assert!(is_timeout(&vec![Cause::TimedOut]));
    assert!(!is_timeout(&vec![Cause::NotIo, Cause::OtherIo]));
    assert!(!is_timeout(&vec![]));
    assert_eq!(panic_message(&PanicPayload::Text("boom".to_string())), "boom");
    assert_eq!(panic_message(&PanicPayload::Other), "<non-string panic payload>");
}

#[test]
fn tables() {
    let mut t: Table<u8> = Table::new();
    assert!(t.is_empty());
    t.insert("a".to_string(), 1);
    t.insert("b".to_string(), 2);
    t.insert("a".to_string(), 3);
    assert_eq!(t.entries.len(), 2);
    assert_eq!(t.get("a"), Some(&3));
    assert!(t.contains("b") && !t.contains("c"));
    assert_eq!(t.remove("a"), Some(3));
    assert_eq!(t.remove("a"), None);
    assert_eq!(t.get("b"), Some(&2));
}
