//! The loops of a running stream.

use moreland::daemon::session::{FrameClock, RoundTrips};
use moreland::daemon::stream::{
    Drain, DrainAction, DrainEvent, DrainStage, Feed, FeedAction, FeedEvent, FeedStage,
    ListenAction, ListenEvent, ListenStage, Listener, PULL_TIMEOUT_MS,
};
use moreland::encoder::EncodedPacket;
use moreland::protocol::{encode_ack, encode_touch, ProtocolError, TouchAction, TouchMessage};

#[test]
fn frames_are_timed_by_their_place() {
    let mut feed = Feed::new(60);
    for time in [0, 16_666_666, 33_333_332] {
        assert!(matches!(feed.step(FeedEvent::Shutdown(false)), FeedAction::NextFrame));
        match feed.step(FeedEvent::Frame(Ok(()))) {
            FeedAction::Push(pts) => assert_eq!(pts, time),
            other => panic!("{other:?}"),
        }
        assert!(matches!(feed.step(FeedEvent::Pushed(Ok(()))), FeedAction::Watch));
    }
    assert_eq!(feed.clock.index, 3);
}

#[test]
fn streams_end_for_a_reason() {
    let mut feed = Feed::new(60);
    assert!(matches!(feed.step(FeedEvent::Shutdown(true)), FeedAction::End(None)));
    assert_eq!(feed.stage, FeedStage::Over);

    let mut feed = Feed::new(60);
    feed.step(FeedEvent::Shutdown(false));
    match feed.step(FeedEvent::Frame(Err("no frame".to_string()))) {
        FeedAction::End(Some(why)) => assert_eq!(why, "no frame"),
        other => panic!("{other:?}"),
    }

    let mut feed = Feed::new(60);
    feed.step(FeedEvent::Shutdown(false));
    feed.step(FeedEvent::Frame(Ok(())));
    match feed.step(FeedEvent::Pushed(Err("full".to_string()))) {
        FeedAction::End(Some(why)) => assert_eq!(why, "full"),
        other => panic!("{other:?}"),
    }
    assert_eq!((feed.stage, feed.clock.index), (FeedStage::Over, 0));
}

#[test]
fn clocks_run_out() {
    assert!(Feed::new(60).clock.has_room());
    assert!(!FrameClock { index: u64::MAX, frame_duration_ns: 0 }.has_room());
    assert!(FrameClock { index: u64::MAX / 2, frame_duration_ns: 2 }.has_room());
    assert!(!FrameClock { index: u64::MAX / 2 + 1, frame_duration_ns: 2 }.has_room());
}

fn packet() -> EncodedPacket {
    EncodedPacket { data: vec![1, 2, 3], pts_ns: 7, keyframe: true }
}

#[test]
fn every_packet_is_sent_and_noted() {
    let mut trips = RoundTrips::new();
    let mut drain = Drain::new();
    match drain.step(DrainEvent::Running(true), &mut trips, 1) {
        DrainAction::Pull(ms) => assert_eq!((ms, PULL_TIMEOUT_MS), (100, 100)),
        other => panic!("{other:?}"),
    }
    assert!(matches!(
        drain.step(DrainEvent::Pulled(Ok(None)), &mut trips, 2),
        DrainAction::Watch
    ));
    assert!(trips.sent_at.is_empty());
    drain.step(DrainEvent::Running(true), &mut trips, 3);
    match drain.step(DrainEvent::Pulled(Ok(Some(packet()))), &mut trips, 4) {
        DrainAction::Send(p) => {
            assert_eq!((p.data, p.pts_ns, p.keyframe), (vec![1, 2, 3], 7, true))
        }
        other => panic!("{other:?}"),
    }
    assert_eq!(trips.sent_at, [4]);
    assert!(matches!(
        drain.step(DrainEvent::Sent(Ok(())), &mut trips, 5),
        DrainAction::Watch
    ));
    assert!(matches!(
        drain.step(DrainEvent::Running(false), &mut trips, 6),
        DrainAction::End(None)
    ));
    assert_eq!((drain.stage, trips.sent_at.len()), (DrainStage::Over, 1));
}

#[test]
fn draining_stops_on_failure() {
    let mut trips = RoundTrips::new();
    let mut drain = Drain::new();
    drain.step(DrainEvent::Running(true), &mut trips, 1);
    match drain.step(DrainEvent::Pulled(Err("bus".to_string())), &mut trips, 2) {
        DrainAction::End(Some(why)) => assert_eq!(why, "bus"),
        other => panic!("{other:?}"),
    }

    let mut drain = Drain::new();
    drain.step(DrainEvent::Running(true), &mut trips, 1);
    drain.step(DrainEvent::Pulled(Ok(Some(packet()))), &mut trips, 2);
    assert!(matches!(
        drain.step(DrainEvent::Sent(Err("gone".to_string())), &mut trips, 3),
        DrainAction::End(None)
    ));
}

const TOUCH: TouchMessage = TouchMessage { action: TouchAction::Down, x: 8, y: 9 };

fn said(touch: bool, trips: &mut RoundTrips) -> Vec<ListenAction> {
    let mut wire = Vec::new();
    wire.extend(encode_ack(5));
    wire.extend(encode_touch(&TOUCH));
    wire.extend([0xee; 9]);
    wire.extend(encode_ack(6));
    let mut listener = Listener::new(touch);
    let mut done = Vec::new();
    let mut at = 0;
    while at < wire.len() {
        let wanted = match listener.step(ListenEvent::Running(true), trips, 0) {
            ListenAction::Read(n) => n,
            other => panic!("{other:?}"),
        };
        let n = wanted.min(4);
        match listener.step(ListenEvent::Read(wire[at..at + n].to_vec()), trips, 50) {
            ListenAction::Watch => {}
            action => done.push(action),
        }
        at += n;
    }
    done
}

#[test]
fn every_message_is_acted_on() {
    let dropped = ListenAction::Complain(ProtocolError::UnknownReverseType(0xee));
    let mut trips = RoundTrips::new();
    trips.sent(10);
    trips.sent(20);
    trips.sent(30);
    assert_eq!(said(true, &mut trips), [ListenAction::Touch(TOUCH), dropped]);
    assert_eq!(trips.trips, [40, 30]);
    assert_eq!(trips.sent_at, [30]);
    assert_eq!(said(false, &mut trips), [dropped]);
}

#[test]
fn only_the_line_ends_listening() {
    let mut trips = RoundTrips::new();
    let mut listener = Listener::new(true);
    assert_eq!(
        listener.step(ListenEvent::Running(true), &mut trips, 0),
        ListenAction::Read(9)
    );
    listener.step(ListenEvent::Read(vec![1, 2]), &mut trips, 0);
    assert_eq!(
        listener.step(ListenEvent::Running(true), &mut trips, 0),
        ListenAction::Read(7)
    );
    assert_eq!(
        listener.step(ListenEvent::NothingYet, &mut trips, 0),
        ListenAction::Watch
    );
    assert_eq!(
        listener.step(ListenEvent::Running(true), &mut trips, 0),
        ListenAction::Read(7)
    );
    assert_eq!(
        listener.step(ListenEvent::Read(vec![]), &mut trips, 0),
        ListenAction::End
    );
    assert_eq!(listener.stage, ListenStage::Over);

    let mut listener = Listener::new(true);
    assert_eq!(
        listener.step(ListenEvent::Running(false), &mut trips, 0),
        ListenAction::End
    );
    let mut listener = Listener::new(true);
    listener.step(ListenEvent::Running(true), &mut trips, 0);
    assert_eq!(
        listener.step(ListenEvent::Broken, &mut trips, 0),
        ListenAction::End
    );
}
