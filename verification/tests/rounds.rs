use moreland::daemon::args::{parse_args, Args, Outcome};
use moreland::daemon::registry::{
    Attempt, Idle, NameError, Registry, SessionEnd, SpawnError, TrackerEvent, SPAWN_DEBOUNCE_NS,
};
use moreland::daemon::rounds::{Phase, RoundAction, RoundEvent, Rounds};
use moreland::daemon::tracker::Device;

const SECOND: u64 = 1_000_000_000;

fn args(line: &str) -> Args {
    let words: Vec<String> = line.split(' ').filter(|w| !w.is_empty()).map(String::from).collect();
    match parse_args(&words) {
        Outcome::Run(args) => args,
        other => panic!("got {other:?}"),
    }
}

fn list(serials: &[&str]) -> RoundEvent {
    RoundEvent::Tracker(TrackerEvent::Update(
        serials
            .iter()
            .map(|s| Device {
                serial: s.to_string(),
                state: "device".to_string(),
            })
            .collect(),
    ))
}

fn quiet() -> RoundEvent {
    RoundEvent::Tracker(TrackerEvent::Quiet)
}

/// A round that starts nothing.
fn idle_round(r: &mut Rounds, news: RoundEvent, now: u64) -> (Vec<String>, Idle) {
    assert!(matches!(r.step(RoundEvent::Done, now), RoundAction::Poll));
    let stop = match r.step(news, now) {
        RoundAction::Stop(stop) => stop,
        other => panic!("got {other:?}"),
    };
    let idle = match r.step(RoundEvent::Done, now) {
        RoundAction::Announce(idle) => idle,
        other => panic!("got {other:?}"),
    };
    assert!(matches!(r.step(RoundEvent::Done, now), RoundAction::Again));
    (stop, idle)
}

#[test]
fn rounds_start_and_stop_sessions() {
    let mut r = Rounds::new(args(""));
    let (_, idle) = idle_round(&mut r, list(&["A", "B"]), 0);
    assert!(matches!(idle, Idle::Waiting(list) if list.is_empty()));

    let later = SPAWN_DEBOUNCE_NS;
    r.step(RoundEvent::Done, later);
    assert!(matches!(r.step(quiet(), later), RoundAction::Stop(s) if s.is_empty()));
    match r.step(RoundEvent::Done, later) {
        RoundAction::Start(serial, config) => {
            assert_eq!((serial.as_str(), config.port), ("A", 27183));
            assert_eq!(config.output_name, "moreland");
        }
        other => panic!("got {other:?}"),
    }
    match r.step(RoundEvent::Started, later) {
        RoundAction::Start(serial, config) => {
            assert_eq!((serial.as_str(), config.port), ("B", 27184));
            assert_eq!(config.output_name, "moreland-b");
        }
        other => panic!("got {other:?}"),
    }
    match r.step(RoundEvent::StartFailed, later) {
        RoundAction::Refuse(serial, None, None) => assert_eq!(serial, "B"),
        other => panic!("got {other:?}"),
    }
    assert!(matches!(
        r.step(RoundEvent::Done, later),
        RoundAction::Announce(Idle::Silent)
    ));
    assert!(matches!(r.step(RoundEvent::Done, later), RoundAction::Again));
    assert_eq!(r.phase, Phase::Top);
    assert!(r.registry.has_session("A") && !r.registry.has_session("B"));

    // B is put off; A is gone.
    let (stop, _) = idle_round(&mut r, list(&["B"]), later + SECOND);
    assert_eq!(stop, ["A"]);
    assert_eq!(r.session_ended("A", SessionEnd::Clean, later + SECOND), None);
    assert!(r.registry.sessions.is_empty());
}

#[test]
fn a_lost_tracker_is_connected_again() {
    let mut r = Rounds::new(args(""));
    idle_round(&mut r, list(&["A"]), 0);
    r.step(RoundEvent::Done, 1);
    assert!(matches!(
        r.step(RoundEvent::Tracker(TrackerEvent::Lost), 1),
        RoundAction::Reconnect
    ));
    assert_eq!(r.registry.devices.len(), 1);
    assert!(matches!(r.step(RoundEvent::Done, 1), RoundAction::Again));
}

#[test]
fn refusals_are_reported() {
    let mut r = Rounds::new(args("--output-name desk"));
    idle_round(&mut r, list(&["A", "B"]), 0);
    let later = SPAWN_DEBOUNCE_NS;
    r.step(RoundEvent::Done, later);
    r.step(quiet(), later);
    assert!(matches!(r.step(RoundEvent::Done, later), RoundAction::Start(..)));
    match r.step(RoundEvent::Started, later) {
        RoundAction::Refuse(serial, Some(SpawnError::Name(NameError::Held { holder, .. })), None) => {
            assert_eq!((serial.as_str(), holder.as_str()), ("B", "A"));
        }
        other => panic!("got {other:?}"),
    }
    assert_eq!(r.registry.cooldowns.get("B").unwrap().failures, 1);
}

#[test]
fn a_device_listed_twice_is_started_once() {
    let mut r = Rounds::new(args(""));
    idle_round(&mut r, list(&["A", "A"]), 0);
    let later = SPAWN_DEBOUNCE_NS;
    r.step(RoundEvent::Done, later);
    r.step(quiet(), later);
    assert!(matches!(r.step(RoundEvent::Done, later), RoundAction::Start(..)));
    assert!(matches!(
        r.step(RoundEvent::Started, later),
        RoundAction::Announce(Idle::Silent)
    ));
}

#[test]
fn once_exits_when_all_is_over() {
    let mut r = Rounds::new(args("--once"));
    idle_round(&mut r, list(&["A"]), 0);
    let later = SPAWN_DEBOUNCE_NS;
    r.step(RoundEvent::Done, later);
    r.step(quiet(), later);
    assert!(matches!(r.step(RoundEvent::Done, later), RoundAction::Start(..)));
    r.step(RoundEvent::Started, later);
    r.step(RoundEvent::Done, later);
    assert!(matches!(r.step(RoundEvent::Done, later), RoundAction::Poll));
    r.step(quiet(), later);
    r.step(RoundEvent::Done, later);
    r.step(RoundEvent::Done, later);
    r.session_ended("A", SessionEnd::Failed, later);
    assert!(matches!(r.step(RoundEvent::Done, later), RoundAction::Exit));
    assert_eq!(r.phase, Phase::Over);
}

#[test]
fn counting_has_its_limits() {
    let mut r = Rounds::new(args(""));
    assert!(r.can_count(0));
    assert!(!r.can_count(u64::MAX - SECOND));
    r.registry.cooldowns.insert(
        "A".to_string(),
        moreland::daemon::registry::Cooldown {
            failures: u32::MAX,
            next_attempt: 0,
        },
    );
    assert!(!r.can_count(0));
}

#[test]
fn attempts() {
    let mut r = Registry::new();
    let a = args("--output-name desk");
    let device = Device {
        serial: "A".to_string(),
        state: "device".to_string(),
    };
    match r.attempt(&device, &a, 0) {
        Attempt::Start(config) => r.session_started("A", &config),
        other => panic!("got {other:?}"),
    }
    assert!(matches!(r.attempt(&device, &a, 0), Attempt::Skip));
}

#[test]
fn the_first_round_knows_nothing() {
    let r = Rounds::new(args(""));
    assert_eq!(r.phase, Phase::Top);
    assert!(r.waiting.is_empty() && r.starting.is_none());
    assert!(r.registry.devices.is_empty() && r.registry.sessions.entries.is_empty());
    assert!(r.registry.cooldowns.entries.is_empty());
    assert!(r.registry.seen_ready_at.entries.is_empty());
    assert!(!r.registry.announced_idle && !r.registry.once_armed);
}
