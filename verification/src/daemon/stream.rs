//! The three loops of a running stream: frames go into the encoder, packets go
//! out to the tablet, and messages come back from it.

use vstd::prelude::*;

use crate::daemon::session::{
    fed, flat, frame_time, heard, messages_survive_any_cut, pieces_fit, spoken, ticked, FrameClock,
    ReadStep, ReverseReader, RoundTrips, Tick,
};
use crate::encoder::EncodedPacket;
use crate::protocol::{ProtocolError, ReverseMessage, TouchMessage, REVERSE_MSG_LEN};

verus! {

/// How long to wait for a packet before looking whether the stream still runs.
pub const PULL_TIMEOUT_MS: u64 = 100;

// ------------------------------------------------------------------ frames ---

/// What the loop that feeds the encoder waits for.
#[derive(Debug, Clone, Copy, PartialEq, Eq, Structural)]
pub enum FeedStage {
    Watching,
    AwaitFrame,
    AwaitPush,
    Over,
}

/// What came of the last step.
#[derive(Debug)]
pub enum FeedEvent {
    /// Whether the session has been asked to end.
    Shutdown(bool),
    /// A frame was captured, or could not be for this reason.
    Frame(Result<(), String>),
    /// The frame went into the encoder, or did not for this reason.
    Pushed(Result<(), String>),
}

#[derive(Debug)]
pub enum FeedAction {
    /// Look whether the session has been asked to end.
    Watch,
    NextFrame,
    /// Hand the frame to the encoder, with this time.
    Push(u64),
    /// The stream is over, and broke for this reason, if any.
    End(Option<String>),
}

pub ghost enum FeedActionView {
    Watch,
    NextFrame,
    Push(u64),
    End(Option<Seq<char>>),
}

impl View for FeedAction {
    type V = FeedActionView;

    open spec fn view(&self) -> FeedActionView {
        match self {
            FeedAction::Watch => FeedActionView::Watch,
            FeedAction::NextFrame => FeedActionView::NextFrame,
            FeedAction::Push(pts) => FeedActionView::Push(*pts),
            FeedAction::End(None) => FeedActionView::End(None),
            FeedAction::End(Some(why)) => FeedActionView::End(Some(why@)),
        }
    }
}

/// The loop that feeds the encoder.
#[derive(Debug, Clone, Copy, PartialEq, Eq, Structural)]
pub struct Feed {
    pub stage: FeedStage,
    /// How many frames have gone in.
    pub clock: FrameClock,
}

impl Feed {
    pub open spec fn expects(self, event: FeedEvent) -> bool {
        match self.stage {
            FeedStage::Watching => event is Shutdown,
            FeedStage::AwaitFrame => event is Frame,
            FeedStage::AwaitPush => event is Pushed,
            FeedStage::Over => false,
        }
    }

    pub open spec fn at(self, stage: FeedStage) -> Feed {
        Feed { stage, ..self }
    }

    /// The next step: frames are captured and pushed in turn until the session
    /// is asked to end or something breaks. Only a frame that went in counts.
    pub open spec fn next(self, event: FeedEvent) -> (Feed, FeedActionView) {
        match event {
            FeedEvent::Shutdown(true) => (self.at(FeedStage::Over), FeedActionView::End(None)),
            FeedEvent::Shutdown(false) => (
                self.at(FeedStage::AwaitFrame),
                FeedActionView::NextFrame,
            ),
            FeedEvent::Frame(Ok(_)) => (
                self.at(FeedStage::AwaitPush),
                FeedActionView::Push((self.clock.index * self.clock.frame_duration_ns) as u64),
            ),
            FeedEvent::Pushed(Ok(_)) => (
                Feed {
                    stage: FeedStage::Watching,
                    clock: FrameClock { index: (self.clock.index + 1) as u64, ..self.clock },
                },
                FeedActionView::Watch,
            ),
            FeedEvent::Frame(Err(e)) | FeedEvent::Pushed(Err(e)) => (
                self.at(FeedStage::Over),
                FeedActionView::End(Some(e@)),
            ),
        }
    }

    /// A loop that first looks whether it is to run at all.
    pub fn new(fps: u32) -> (r: Self)
        requires
            fps > 0,
        ensures
            r.stage == FeedStage::Watching,
            r.clock.index == 0,
            r.clock.frame_duration_ns == 1_000_000_000int / fps as int,
    {
        Feed { stage: FeedStage::Watching, clock: FrameClock::new(fps) }
    }

    /// The next step, after what came of the last.
    pub fn step(&mut self, event: FeedEvent) -> (r: FeedAction)
        requires
            old(self).expects(event),
            old(self).clock.room(),
        ensures
            (*final(self), r@) == old(self).next(event),
    {
        match event {
            FeedEvent::Shutdown(asked) => if asked {
                self.stage = FeedStage::Over;
                FeedAction::End(None)
            } else {
                self.stage = FeedStage::AwaitFrame;
                FeedAction::NextFrame
            },
            FeedEvent::Frame(Ok(_)) => {
                self.stage = FeedStage::AwaitPush;
                FeedAction::Push(self.clock.pts())
            },
            FeedEvent::Pushed(Ok(_)) => {
                self.stage = FeedStage::Watching;
                self.clock.advance();
                FeedAction::Watch
            },
            FeedEvent::Frame(Err(e)) => {
                self.stage = FeedStage::Over;
                FeedAction::End(Some(e))
            },
            FeedEvent::Pushed(Err(e)) => {
                self.stage = FeedStage::Over;
                FeedAction::End(Some(e))
            },
        }
    }
}

/// A loop after some events, and what it did.
pub open spec fn feed_run(start: Feed, events: Seq<FeedEvent>) -> (Feed, Seq<FeedActionView>)
    decreases events.len(),
{
    if events.len() == 0 {
        (start, Seq::empty())
    } else {
        let (feed, actions) = feed_run(start, events.drop_last());
        let (next, action) = feed.next(events.last());
        (next, actions.push(action))
    }
}

/// Whether events are what the loop waits for, one after the other.
pub open spec fn feed_takes(start: Feed, events: Seq<FeedEvent>) -> bool
    decreases events.len(),
{
    events.len() > 0 ==> {
        let feed = feed_run(start, events.drop_last()).0;
        &&& feed_takes(start, events.drop_last())
        &&& feed.expects(events.last())
        &&& feed.clock.room()
    }
}

/// The times of the frames that were pushed.
pub open spec fn pushed_times(actions: Seq<FeedActionView>) -> Seq<u64>
    decreases actions.len(),
{
    if actions.len() == 0 {
        Seq::empty()
    } else {
        let before = pushed_times(actions.drop_last());
        match actions.last() {
            FeedActionView::Push(pts) => before.push(pts),
            _ => before,
        }
    }
}

/// Each frame that is pushed bears the time that its place in the stream gives
/// it, and every one of them is counted, save a last one that may be on its way
/// or lost.
pub proof fn frames_are_timed_by_their_place(start: Feed, fps: u32, events: Seq<FeedEvent>)
    requires
        fps > 0,
        start.stage == FeedStage::Watching,
        start.clock.index == 0,
        start.clock.frame_duration_ns == 1_000_000_000int / fps as int,
        feed_takes(start, events),
    ensures
        ({
            let (feed, actions) = feed_run(start, events);
            let times = pushed_times(actions);
            &&& forall|k: int|
                0 <= k < times.len() ==> #[trigger] times[k] == frame_time(fps, k)
            &&& feed.clock.frame_duration_ns == start.clock.frame_duration_ns
            &&& feed.clock.index <= times.len() <= feed.clock.index + 1
            &&& feed.stage == FeedStage::Watching || feed.stage == FeedStage::AwaitFrame
                ==> times.len() == feed.clock.index
            &&& feed.stage == FeedStage::AwaitPush ==> times.len() == feed.clock.index + 1
        }),
    decreases events.len(),
{
    if events.len() > 0 {
        frames_are_timed_by_their_place(start, fps, events.drop_last());
        let (feed, actions) = feed_run(start, events.drop_last());
        let (next, action) = feed.next(events.last());
        assert(actions.push(action).drop_last() =~= actions);
    }
}

/// Once the session has been asked to end, no further frame is captured, and
/// the stream ends without a complaint; where something breaks it ends with
/// that very reason.
pub proof fn streams_end_for_a_reason(feed: Feed, event: FeedEvent)
    requires
        feed.expects(event),
        feed.clock.room(),
    ensures
        feed.next(event).1 == FeedActionView::End(None) <==> event == FeedEvent::Shutdown(true),
        forall|why: Seq<char>|
            feed.next(event).1 == FeedActionView::End(Some(why)) <==> ((event matches
                FeedEvent::Frame(Err(e)) && e@ == why) || (event matches FeedEvent::Pushed(Err(e))
                && e@ == why)),
        feed.next(event).0.stage == FeedStage::Over <==> feed.next(event).1 is End,
{
}

// ----------------------------------------------------------------- packets ---

/// What the loop that sends packets waits for.
#[derive(Debug, Clone, Copy, PartialEq, Eq, Structural)]
pub enum DrainStage {
    Watching,
    AwaitPacket,
    AwaitSend,
    Over,
}

/// What came of the last step.
#[derive(Debug)]
pub enum DrainEvent {
    /// Whether the stream still runs.
    Running(bool),
    /// What the encoder gave, or why it failed.
    Pulled(Result<Option<EncodedPacket>, String>),
    Sent(Result<(), String>),
}

#[derive(Debug)]
pub enum DrainAction {
    /// Look whether the stream still runs.
    Watch,
    /// Ask the encoder for a packet, for this many milliseconds at most.
    Pull(u64),
    Send(EncodedPacket),
    /// No more packets are sent. What the encoder failed of, if it did, is to
    /// be logged; a tablet that is gone shows elsewhere.
    End(Option<String>),
}

pub ghost enum DrainActionView {
    Watch,
    Pull(u64),
    Send { data: Seq<u8>, pts_ns: u64, keyframe: bool },
    End(Option<Seq<char>>),
}

impl View for DrainAction {
    type V = DrainActionView;

    open spec fn view(&self) -> DrainActionView {
        match self {
            DrainAction::Watch => DrainActionView::Watch,
            DrainAction::Pull(ms) => DrainActionView::Pull(*ms),
            DrainAction::Send(p) => DrainActionView::Send {
                data: p.data@,
                pts_ns: p.pts_ns,
                keyframe: p.keyframe,
            },
            DrainAction::End(None) => DrainActionView::End(None),
            DrainAction::End(Some(why)) => DrainActionView::End(Some(why@)),
        }
    }
}

impl DrainStage {
    pub open spec fn expects(self, event: DrainEvent) -> bool {
        match self {
            DrainStage::Watching => event is Running,
            DrainStage::AwaitPacket => event is Pulled,
            DrainStage::AwaitSend => event is Sent,
            DrainStage::Over => false,
        }
    }

    /// The next step: every packet that comes is sent, until the stream ends,
    /// the encoder fails or the tablet takes no more.
    pub open spec fn next(self, event: DrainEvent) -> (DrainStage, DrainActionView) {
        match event {
            DrainEvent::Running(true) => (
                DrainStage::AwaitPacket,
                DrainActionView::Pull(PULL_TIMEOUT_MS),
            ),
            DrainEvent::Pulled(Ok(Some(p))) => (
                DrainStage::AwaitSend,
                DrainActionView::Send { data: p.data@, pts_ns: p.pts_ns, keyframe: p.keyframe },
            ),
            DrainEvent::Pulled(Ok(None)) | DrainEvent::Sent(Ok(_)) => (
                DrainStage::Watching,
                DrainActionView::Watch,
            ),
            DrainEvent::Running(false) | DrainEvent::Sent(Err(_)) => (
                DrainStage::Over,
                DrainActionView::End(None),
            ),
            DrainEvent::Pulled(Err(e)) => (DrainStage::Over, DrainActionView::End(Some(e@))),
        }
    }
}

/// The loop that sends packets.
#[derive(Debug, Clone, Copy, PartialEq, Eq, Structural)]
pub struct Drain {
    pub stage: DrainStage,
}

/// What a step of the sending loop adds to the log of round trips.
pub open spec fn drain_ticked(
    before: (Seq<u64>, Seq<u64>),
    event: DrainEvent,
    now: u64,
) -> (Seq<u64>, Seq<u64>) {
    match event {
        DrainEvent::Pulled(Ok(Some(_))) => ticked(before, Tick::Sent(now)),
        _ => before,
    }
}

impl Drain {
    /// A loop that first looks whether it is to run at all.
    pub fn new() -> (r: Self)
        ensures
            r.stage == DrainStage::Watching,
    {
        Drain { stage: DrainStage::Watching }
    }

    /// The next step, after what came of the last. A packet is noted right
    /// before it is sent.
    pub fn step(&mut self, event: DrainEvent, trips: &mut RoundTrips, now: u64) -> (r: DrainAction)
        requires
            old(self).stage.expects(event),
        ensures
            (final(self).stage, r@) == old(self).stage.next(event),
            final(trips)@ == drain_ticked(old(trips)@, event, now),
    {
        match event {
            DrainEvent::Running(runs) => if runs {
                self.stage = DrainStage::AwaitPacket;
                DrainAction::Pull(PULL_TIMEOUT_MS)
            } else {
                self.stage = DrainStage::Over;
                DrainAction::End(None)
            },
            DrainEvent::Pulled(Ok(Some(p))) => {
                trips.sent(now);
                self.stage = DrainStage::AwaitSend;
                DrainAction::Send(p)
            },
            DrainEvent::Pulled(Ok(None)) => {
                self.stage = DrainStage::Watching;
                DrainAction::Watch
            },
            DrainEvent::Pulled(Err(e)) => {
                self.stage = DrainStage::Over;
                DrainAction::End(Some(e))
            },
            DrainEvent::Sent(Ok(_)) => {
                self.stage = DrainStage::Watching;
                DrainAction::Watch
            },
            DrainEvent::Sent(Err(_)) => {
                self.stage = DrainStage::Over;
                DrainAction::End(None)
            },
        }
    }
}

/// Every packet that the encoder gives is sent as it is, nothing else is, and
/// exactly those that are sent are noted.
pub proof fn every_packet_is_sent_and_noted(
    stage: DrainStage,
    event: DrainEvent,
    before: (Seq<u64>, Seq<u64>),
    now: u64,
)
    requires
        stage.expects(event),
    ensures
        stage.next(event).1 is Send <==> event matches DrainEvent::Pulled(Ok(Some(_))),
        event matches DrainEvent::Pulled(Ok(Some(p))) ==> stage.next(event).1 == (
        DrainActionView::Send { data: p.data@, pts_ns: p.pts_ns, keyframe: p.keyframe }),
        stage.next(event).1 is Send ==> drain_ticked(before, event, now) == (
            before.0.push(now),
            before.1,
        ),
        !(stage.next(event).1 is Send) ==> drain_ticked(before, event, now) == before,
{
}

// ---------------------------------------------------------------- messages ---

/// What the loop that listens to the tablet waits for.
#[derive(Debug, Clone, Copy, PartialEq, Eq, Structural)]
pub enum ListenStage {
    Watching,
    AwaitBytes,
    Over,
}

/// What came of the last step.
#[derive(Debug)]
pub enum ListenEvent {
    /// Whether the stream still runs.
    Running(bool),
    /// A read gave these bytes.
    Read(Vec<u8>),
    /// A read timed out.
    NothingYet,
    /// A read failed.
    Broken,
}

pub ghost enum ListenEventView {
    Running(bool),
    Read(Seq<u8>),
    NothingYet,
    Broken,
}

impl View for ListenEvent {
    type V = ListenEventView;

    open spec fn view(&self) -> ListenEventView {
        match self {
            ListenEvent::Running(runs) => ListenEventView::Running(*runs),
            ListenEvent::Read(bytes) => ListenEventView::Read(bytes@),
            ListenEvent::NothingYet => ListenEventView::NothingYet,
            ListenEvent::Broken => ListenEventView::Broken,
        }
    }
}

#[derive(Debug, Clone, Copy, PartialEq, Eq, Structural)]
pub enum ListenAction {
    /// Look whether the stream still runs.
    Watch,
    /// Read this many bytes at most.
    Read(usize),
    /// Hand the touch to the input device.
    Touch(TouchMessage),
    /// Log that a message was dropped.
    Complain(ProtocolError),
    End,
}

/// The loop that listens to the tablet.
#[derive(Debug)]
pub struct Listener {
    pub stage: ListenStage,
    pub reader: ReverseReader,
    /// Whether there is an input device.
    pub touch: bool,
}

pub ghost struct ListenerView {
    pub stage: ListenStage,
    pub pending: Seq<u8>,
    pub touch: bool,
}

impl View for Listener {
    type V = ListenerView;

    open spec fn view(&self) -> ListenerView {
        ListenerView { stage: self.stage, pending: self.reader.pending@, touch: self.touch }
    }
}

/// What a message, or the lack of one, leads to. Touches are passed over
/// silently where there is no device.
pub open spec fn answer_to(step: ReadStep, touch: bool) -> ListenAction {
    match step {
        ReadStep::Message(ReverseMessage::Touch(m)) => if touch {
            ListenAction::Touch(m)
        } else {
            ListenAction::Watch
        },
        ReadStep::Malformed(e) => ListenAction::Complain(e),
        ReadStep::End => ListenAction::End,
        _ => ListenAction::Watch,
    }
}

impl ListenerView {
    pub open spec fn wf(self) -> bool {
        self.pending.len() < REVERSE_MSG_LEN
    }

    pub open spec fn expects(self, event: ListenEventView) -> bool {
        match (self.stage, event) {
            (ListenStage::Watching, ListenEventView::Running(_)) => true,
            (ListenStage::AwaitBytes, ListenEventView::Read(bytes)) => self.pending.len()
                + bytes.len() <= REVERSE_MSG_LEN,
            (ListenStage::AwaitBytes, ListenEventView::NothingYet) => true,
            (ListenStage::AwaitBytes, ListenEventView::Broken) => true,
            _ => false,
        }
    }

    pub open spec fn at(self, stage: ListenStage) -> ListenerView {
        ListenerView { stage, ..self }
    }

    /// The next step: the tablet is listened to until the stream ends or the
    /// line does.
    pub open spec fn next(self, event: ListenEventView) -> (ListenerView, ListenAction) {
        match event {
            ListenEventView::Running(true) => (
                self.at(ListenStage::AwaitBytes),
                ListenAction::Read((REVERSE_MSG_LEN - self.pending.len()) as usize),
            ),
            ListenEventView::Read(bytes) => {
                let (pending, step) = fed(self.pending, bytes);
                let stage = if step is End {
                    ListenStage::Over
                } else {
                    ListenStage::Watching
                };
                (ListenerView { stage, pending, ..self }, answer_to(step, self.touch))
            },
            ListenEventView::NothingYet => (self.at(ListenStage::Watching), ListenAction::Watch),
            ListenEventView::Running(false) | ListenEventView::Broken => (
                self.at(ListenStage::Over),
                ListenAction::End,
            ),
        }
    }

    /// Whether an event completes an acknowledgement.
    pub open spec fn acknowledges(self, event: ListenEventView) -> bool {
        event matches ListenEventView::Read(bytes) && (fed(
            self.pending,
            bytes,
        ).1 matches ReadStep::Message(ReverseMessage::Ack(_)))
    }
}

impl Listener {
    pub fn new(touch: bool) -> (r: Self)
        ensures
            r@ == (ListenerView { stage: ListenStage::Watching, pending: Seq::empty(), touch }),
    {
        Listener { stage: ListenStage::Watching, reader: ReverseReader::new(), touch }
    }

    /// The next step, after what came of the last. An acknowledgement is
    /// matched with the frame it is for.
    pub fn step(&mut self, event: ListenEvent, trips: &mut RoundTrips, now: u64) -> (r:
        ListenAction)
        requires
            old(self)@.wf(),
            old(self)@.expects(event@),
        ensures
            final(self)@.wf(),
            (final(self)@, r) == old(self)@.next(event@),
            final(trips)@ == if old(self)@.acknowledges(event@) {
                ticked(old(trips)@, Tick::Acknowledged(now))
            } else {
                old(trips)@
            },
    {
        match event {
            ListenEvent::Running(runs) => if runs {
                self.stage = ListenStage::AwaitBytes;
                ListenAction::Read(self.reader.wanted())
            } else {
                self.stage = ListenStage::Over;
                ListenAction::End
            },
            ListenEvent::Read(bytes) => {
                self.stage = ListenStage::Watching;
                match self.reader.on_read(bytes.as_slice()) {
                    ReadStep::End => {
                        self.stage = ListenStage::Over;
                        ListenAction::End
                    },
                    ReadStep::More => ListenAction::Watch,
                    ReadStep::Malformed(e) => ListenAction::Complain(e),
                    ReadStep::Message(ReverseMessage::Ack(_)) => {
                        trips.acknowledged(now);
                        ListenAction::Watch
                    },
                    ReadStep::Message(ReverseMessage::Touch(m)) => if self.touch {
                        ListenAction::Touch(m)
                    } else {
                        ListenAction::Watch
                    },
                }
            },
            ListenEvent::NothingYet => {
                self.stage = ListenStage::Watching;
                ListenAction::Watch
            },
            ListenEvent::Broken => {
                self.stage = ListenStage::Over;
                ListenAction::End
            },
        }
    }
}

/// Only the end of the stream or of the line ends the listening: a message that
/// makes no sense is dropped, and a silence is waited out.
pub proof fn only_the_line_ends_listening(v: ListenerView, event: ListenEventView)
    requires
        v.wf(),
        v.expects(event),
    ensures
        v.next(event).1 is End <==> event == ListenEventView::Running(false) || event is Broken
            || (event matches ListenEventView::Read(bytes) && bytes.len() == 0),
        v.next(event).0.stage == ListenStage::Over <==> v.next(event).1 is End,
        event is NothingYet ==> v.next(event).0.pending == v.pending,
        v.next(event).0.wf(),
{
}

/// What the loop does with bytes that arrive in pieces while the stream runs,
/// apart from looking whether it does.
pub open spec fn listened(v: ListenerView, pieces: Seq<Seq<u8>>) -> Seq<ListenAction>
    decreases pieces.len(),
{
    if pieces.len() == 0 {
        Seq::empty()
    } else {
        let reading = v.next(ListenEventView::Running(true)).0;
        let (next, action) = reading.next(ListenEventView::Read(pieces[0]));
        let rest = listened(next, pieces.skip(1));
        if action is Watch {
            rest
        } else {
            seq![action] + rest
        }
    }
}

/// How many acknowledgements the loop takes from them.
pub open spec fn acks_taken(v: ListenerView, pieces: Seq<Seq<u8>>) -> nat
    decreases pieces.len(),
{
    if pieces.len() == 0 {
        0
    } else {
        let reading = v.next(ListenEventView::Running(true)).0;
        let event = ListenEventView::Read(pieces[0]);
        let rest = acks_taken(reading.next(event).0, pieces.skip(1));
        if reading.acknowledges(event) {
            rest + 1
        } else {
            rest
        }
    }
}

/// The touches among some messages.
pub open spec fn touches_among(messages: Seq<ReverseMessage>) -> Seq<ListenAction>
    decreases messages.len(),
{
    if messages.len() == 0 {
        Seq::empty()
    } else {
        let rest = touches_among(messages.skip(1));
        match messages[0] {
            ReverseMessage::Touch(m) => seq![ListenAction::Touch(m)] + rest,
            ReverseMessage::Ack(_) => rest,
        }
    }
}

/// The number of acknowledgements among some messages.
pub open spec fn acks_among(messages: Seq<ReverseMessage>) -> nat
    decreases messages.len(),
{
    if messages.len() == 0 {
        0
    } else if messages[0] is Ack {
        acks_among(messages.skip(1)) + 1
    } else {
        acks_among(messages.skip(1))
    }
}

/// What is heard decides what is done.
proof fn lemma_listened(v: ListenerView, pieces: Seq<Seq<u8>>, messages: Seq<ReverseMessage>)
    requires
        v.wf(),
        v.stage == ListenStage::Watching,
        pieces_fit(v.pending, pieces),
        heard(v.pending, pieces) == messages.map_values(
            |m: ReverseMessage| ReadStep::Message(m),
        ),
    ensures
        listened(v, pieces) == if v.touch {
            touches_among(messages)
        } else {
            Seq::empty()
        },
        acks_taken(v, pieces) == acks_among(messages),
    decreases pieces.len(),
{
    let told = messages.map_values(|m: ReverseMessage| ReadStep::Message(m));
    if pieces.len() == 0 {
        assert(told.len() == 0);
    } else {
        let reading = v.next(ListenEventView::Running(true)).0;
        let next = reading.next(ListenEventView::Read(pieces[0])).0;
        let (left, step) = fed(v.pending, pieces[0]);
        let rest = heard(left, pieces.skip(1));
        if step is More {
            lemma_listened(next, pieces.skip(1), messages);
        } else {
            assert(told == seq![step] + rest);
            assert(told[0] == step);
            assert(told.skip(1) =~= rest);
            assert(messages.skip(1).map_values(|m: ReverseMessage| ReadStep::Message(m))
                =~= told.skip(1));
            lemma_listened(next, pieces.skip(1), messages.skip(1));
        }
    }
}

/// However the messages of the tablet are cut into pieces on their way, every
/// touch reaches the input device, in order and unchanged, and every
/// acknowledgement is taken; without a device no touch goes anywhere.
pub proof fn every_message_is_acted_on(
    v: ListenerView,
    pieces: Seq<Seq<u8>>,
    messages: Seq<ReverseMessage>,
)
    requires
        v.wf(),
        v.stage == ListenStage::Watching,
        pieces_fit(v.pending, pieces),
        v.pending + flat(pieces) == spoken(messages),
    ensures
        listened(v, pieces) == if v.touch {
            touches_among(messages)
        } else {
            Seq::empty()
        },
        acks_taken(v, pieces) == acks_among(messages),
{
    messages_survive_any_cut(v.pending, pieces, messages);
    lemma_listened(v, pieces, messages);
}

/// While the session is not asked to end, a frame is captured, pushed, and the next
/// one looked to; nothing is left out.
pub proof fn feeding_goes_on(feed: Feed)
    requires
        feed.clock.room(),
    ensures
        feed.next(FeedEvent::Shutdown(false)) == (
            Feed { stage: FeedStage::AwaitFrame, ..feed },
            FeedActionView::NextFrame,
        ),
        feed.next(FeedEvent::Frame(Ok(()))).1 is Push,
        feed.next(FeedEvent::Frame(Ok(()))).0.clock == feed.clock,
        feed.next(FeedEvent::Frame(Ok(()))).0.stage == FeedStage::AwaitPush,
        feed.next(FeedEvent::Pushed(Ok(()))).0.stage == FeedStage::Watching,
        feed.next(FeedEvent::Pushed(Ok(()))).0.clock.index == feed.clock.index + 1,
        feed.next(FeedEvent::Pushed(Ok(()))).1 is Watch,
{
}

/// Packets are asked for and sent until the stream ends, the encoder fails or the
/// tablet takes no more; only what the encoder failed of is told.
pub proof fn draining_goes_on(stage: DrainStage, event: DrainEvent)
    requires
        stage.expects(event),
    ensures
        stage.next(event).1 is End <==> event == DrainEvent::Running(false) || (event matches
            DrainEvent::Pulled(Err(_))) || (event matches DrainEvent::Sent(Err(_))),
        event == DrainEvent::Running(true) <==> stage.next(event).1 is Pull,
        event matches DrainEvent::Pulled(Err(e)) ==> stage.next(event).1 == DrainActionView::End(
            Some(e@),
        ),
        stage.next(event).1 matches DrainActionView::End(Some(why)) ==> (event matches
            DrainEvent::Pulled(Err(e)) && e@ == why),
        stage.next(event).0 == DrainStage::Over <==> stage.next(event).1 is End,
        stage.next(event).1 is Watch ==> stage.next(event).0 == DrainStage::Watching,
{
}

/// While the stream runs the tablet is listened to, for no more bytes than complete a
/// message.
pub proof fn listening_goes_on(v: ListenerView)
    requires
        v.wf(),
    ensures
        v.next(ListenEventView::Running(true)).1 matches ListenAction::Read(n) && n == 9
            - v.pending.len() && n > 0,
        v.next(ListenEventView::Running(true)).0 == (ListenerView {
            stage: ListenStage::AwaitBytes,
            ..v
        }),
        v.next(ListenEventView::NothingYet).1 == ListenAction::Watch,
{
}

/// A message that makes no sense is told of and dropped; an acknowledgement is the
/// only thing that is matched with a frame.
pub proof fn messages_are_told_apart(v: ListenerView, bytes: Seq<u8>)
    requires
        v.wf(),
        0 < bytes.len(),
        v.pending.len() + bytes.len() == 9,
    ensures
        ({
            let event = ListenEventView::Read(bytes);
            let (after, action) = v.next(event);
            match crate::protocol::reverse_of(v.pending + bytes) {
                Ok(ReverseMessage::Ack(_)) => action == ListenAction::Watch && v.acknowledges(event),
                Ok(ReverseMessage::Touch(m)) => !v.acknowledges(event) && action == if v.touch {
                    ListenAction::Touch(m)
                } else {
                    ListenAction::Watch
                },
                Err(e) => !v.acknowledges(event) && action == ListenAction::Complain(e),
            }
        }),
        v.next(ListenEventView::Read(bytes)).0.pending.len() == 0,
        v.next(ListenEventView::Read(bytes)).0.stage == ListenStage::Watching,
{
}

} // verus!
