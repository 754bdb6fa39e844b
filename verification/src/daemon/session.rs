//! One streaming session: virtual output -> capture -> encode -> USB -> tablet.

use vstd::prelude::*;

use std::collections::VecDeque;

use crate::capture::VIRTUAL_OUTPUT_NAME;
use crate::daemon::input::TouchMode;
use crate::protocol::{
    decode_reverse_message, reverse_bytes, reverse_of, reverse_round_trip, ProtocolError,
    ReverseMessage, DEFAULT_PORT, REVERSE_MSG_LEN,
};
use crate::stats::{sorted_from, summarise, summary_of, Summary};
use crate::text::{chars_of, contains, occurs_in};

verus! {

/// The app on the tablet.
pub const APP_PACKAGE: &'static str = "com.moreland.display";

/// The part of the app that shows the picture.
pub const APP_ACTIVITY: &'static str = "com.moreland.display/.DisplayActivity";

#[derive(Debug, Clone)]
pub struct Config {
    pub resolution: Option<(u32, u32)>,
    pub max_width: u32,
    pub fps: u32,
    pub bitrate_kbps: u32,
    pub position_x: i32,
    pub position_y: i32,
    pub output_name: String,
    /// Host-side port for this session's `adb forward`. The daemon picks a
    /// free port per device; the default is the base of the range, which is
    /// correct when only one session runs.
    pub port: u16,
    pub paint_cursor: bool,
    pub stats: bool,
    /// Requested tablet brightness, 0-100. `None` leaves the device alone.
    pub brightness: Option<u8>,
    /// Requested rotation in degrees, one of 0/90/180/270. `90` and `270`
    /// make the virtual output portrait.
    pub rotation: u16,
    /// Whether to create the virtual input device.
    pub enable_touch: bool,
    /// Which kind of input device to create.
    pub touch_mode: TouchMode,
    /// Print the end-of-session statistics as a JSON object instead of a
    /// human-readable block, one object per session and line.
    pub json_output: bool,
}

/// A configuration with its output name as text.
pub ghost struct ConfigView {
    pub resolution: Option<(u32, u32)>,
    pub max_width: u32,
    pub fps: u32,
    pub bitrate_kbps: u32,
    pub position_x: i32,
    pub position_y: i32,
    pub output_name: Seq<char>,
    pub port: u16,
    pub paint_cursor: bool,
    pub stats: bool,
    pub brightness: Option<u8>,
    pub rotation: u16,
    pub enable_touch: bool,
    pub touch_mode: TouchMode,
    pub json_output: bool,
}

impl View for Config {
    type V = ConfigView;

    open spec fn view(&self) -> ConfigView {
        ConfigView {
            resolution: self.resolution,
            max_width: self.max_width,
            fps: self.fps,
            bitrate_kbps: self.bitrate_kbps,
            position_x: self.position_x,
            position_y: self.position_y,
            output_name: self.output_name@,
            port: self.port,
            paint_cursor: self.paint_cursor,
            stats: self.stats,
            brightness: self.brightness,
            rotation: self.rotation,
            enable_touch: self.enable_touch,
            touch_mode: self.touch_mode,
            json_output: self.json_output,
        }
    }
}

/// What a session is like when nothing is asked for.
pub open spec fn default_config() -> ConfigView {
    ConfigView {
        resolution: None,
        max_width: 1920,
        fps: 90,
        bitrate_kbps: 20_000,
        position_x: 0,
        position_y: 1080,
        output_name: VIRTUAL_OUTPUT_NAME@,
        port: DEFAULT_PORT,
        paint_cursor: false,
        stats: false,
        brightness: None,
        rotation: 0,
        enable_touch: true,
        touch_mode: TouchMode::Screen,
        json_output: false,
    }
}

impl Default for Config {
    fn default() -> (r: Self)
        ensures
            r@ == default_config(),
    {
        Config {
            resolution: None,
            max_width: 1920,
            fps: 90,
            bitrate_kbps: 20_000,
            position_x: 0,
            position_y: 1080,
            output_name: String::from_str(VIRTUAL_OUTPUT_NAME),
            port: DEFAULT_PORT,
            paint_cursor: false,
            stats: false,
            brightness: None,
            rotation: 0,
            enable_touch: true,
            touch_mode: TouchMode::Screen,
            json_output: false,
        }
    }
}

impl Config {
    /// The same configuration again.
    pub fn copy(&self) -> (r: Config)
        ensures
            r@ == self@,
    {
        Config {
            resolution: self.resolution,
            max_width: self.max_width,
            fps: self.fps,
            bitrate_kbps: self.bitrate_kbps,
            position_x: self.position_x,
            position_y: self.position_y,
            output_name: self.output_name.clone(),
            port: self.port,
            paint_cursor: self.paint_cursor,
            stats: self.stats,
            brightness: self.brightness,
            rotation: self.rotation,
            enable_touch: self.enable_touch,
            touch_mode: self.touch_mode,
            json_output: self.json_output,
        }
    }
}

/// Whether the app is on the tablet, from the list of its packages.
pub fn app_installed(packages: &str) -> (r: bool)
    ensures
        r == occurs_in(packages@, APP_PACKAGE@),
{
    let cs = chars_of(packages);
    let package = chars_of(APP_PACKAGE);
    contains(cs.as_slice(), package.as_slice())
}

// --------------------------------------------------------- reverse channel ---

/// The messages that come back from the tablet, put together from whatever
/// pieces they arrive in.
#[derive(Debug)]
pub struct ReverseReader {
    /// What has arrived of the current message.
    pub pending: Vec<u8>,
}

/// What a read from the tablet comes to.
#[derive(Debug, Clone, Copy, PartialEq, Eq, Structural)]
pub enum ReadStep {
    /// The message is not complete.
    More,
    Message(ReverseMessage),
    /// A message that makes no sense; it is dropped.
    Malformed(ProtocolError),
    /// The tablet is gone.
    End,
}

/// The message that nine bytes are, or that they are none.
pub open spec fn message_step(bytes: Seq<u8>) -> ReadStep {
    match reverse_of(bytes) {
        Ok(m) => ReadStep::Message(m),
        Err(e) => ReadStep::Malformed(e),
    }
}

/// What is pending after a piece has arrived, and what it comes to.
pub open spec fn fed(pending: Seq<u8>, piece: Seq<u8>) -> (Seq<u8>, ReadStep) {
    if piece.len() == 0 {
        (pending, ReadStep::End)
    } else if pending.len() + piece.len() < REVERSE_MSG_LEN {
        (pending + piece, ReadStep::More)
    } else {
        (Seq::empty(), message_step(pending + piece))
    }
}

impl ReverseReader {
    pub open spec fn wf(self) -> bool {
        self.pending@.len() < REVERSE_MSG_LEN
    }

    pub fn new() -> (r: Self)
        ensures
            r.wf(),
            r.pending@ == Seq::<u8>::empty(),
    {
        let r = ReverseReader { pending: Vec::new() };
        assert(r.pending@ =~= Seq::<u8>::empty());
        r
    }

    /// How many bytes to ask for at most: what is left of the message.
    pub fn wanted(&self) -> (r: usize)
        requires
            self.wf(),
        ensures
            r == REVERSE_MSG_LEN - self.pending@.len(),
            r > 0,
    {
        REVERSE_MSG_LEN - self.pending.len()
    }

    /// Take in what a read gave.
    pub fn on_read(&mut self, piece: &[u8]) -> (r: ReadStep)
        requires
            old(self).wf(),
            old(self).pending@.len() + piece@.len() <= REVERSE_MSG_LEN,
        ensures
            final(self).wf(),
            (final(self).pending@, r) == fed(old(self).pending@, piece@),
    {
        if piece.len() == 0 {
            return ReadStep::End;
        }
        self.pending.extend_from_slice(piece);
        assert(self.pending@ =~= old(self).pending@ + piece@);
        if self.pending.len() < REVERSE_MSG_LEN {
            return ReadStep::More;
        }
        let step = match decode_reverse_message(self.pending.as_slice()) {
            Ok(m) => ReadStep::Message(m),
            Err(e) => ReadStep::Malformed(e),
        };
        self.pending = Vec::new();
        assert(self.pending@ =~= Seq::<u8>::empty());
        step
    }
}

/// Whether pieces keep within their messages, as reads that ask for no more
/// than what is left of one do.
pub open spec fn pieces_fit(pending: Seq<u8>, pieces: Seq<Seq<u8>>) -> bool
    decreases pieces.len(),
{
    if pieces.len() == 0 {
        true
    } else {
        &&& 0 < pieces[0].len()
        &&& pending.len() + pieces[0].len() <= REVERSE_MSG_LEN
        &&& pieces_fit(fed(pending, pieces[0]).0, pieces.skip(1))
    }
}

/// The messages that pieces come to.
pub open spec fn heard(pending: Seq<u8>, pieces: Seq<Seq<u8>>) -> Seq<ReadStep>
    decreases pieces.len(),
{
    if pieces.len() == 0 {
        Seq::empty()
    } else {
        let (left, step) = fed(pending, pieces[0]);
        let rest = heard(left, pieces.skip(1));
        if step is More {
            rest
        } else {
            seq![step] + rest
        }
    }
}

/// Pieces, or messages, one after the other.
pub open spec fn flat(pieces: Seq<Seq<u8>>) -> Seq<u8>
    decreases pieces.len(),
{
    if pieces.len() == 0 {
        Seq::empty()
    } else {
        pieces[0] + flat(pieces.skip(1))
    }
}

/// Messages on the wire, one after the other.
pub open spec fn spoken(messages: Seq<ReverseMessage>) -> Seq<u8>
    decreases messages.len(),
{
    if messages.len() == 0 {
        Seq::empty()
    } else {
        reverse_bytes(messages[0]) + spoken(messages.skip(1))
    }
}

/// However the bytes of some messages are cut into pieces on their way, the
/// same messages are heard, in the same order.
pub proof fn messages_survive_any_cut(
    pending: Seq<u8>,
    pieces: Seq<Seq<u8>>,
    messages: Seq<ReverseMessage>,
)
    requires
        pending.len() < REVERSE_MSG_LEN,
        pieces_fit(pending, pieces),
        pending + flat(pieces) == spoken(messages),
    ensures
        heard(pending, pieces) == messages.map_values(|m: ReverseMessage| ReadStep::Message(m)),
    decreases pieces.len(),
{
    let want = messages.map_values(|m: ReverseMessage| ReadStep::Message(m));
    if messages.len() > 0 {
        reverse_round_trip(messages[0], Seq::empty());
        assert(reverse_bytes(messages[0]) + Seq::<u8>::empty() =~= reverse_bytes(messages[0]));
    }
    if pieces.len() == 0 {
        assert(pending + flat(pieces) =~= pending);
        assert(messages.len() == 0) by {
            if messages.len() > 0 {
                assert(spoken(messages).len() >= REVERSE_MSG_LEN);
            }
        }
        assert(heard(pending, pieces) =~= want);
    } else {
        let piece = pieces[0];
        let rest = pieces.skip(1);
        let joined = pending + piece;
        assert(pending + flat(pieces) =~= joined + flat(rest));
        if joined.len() < REVERSE_MSG_LEN {
            messages_survive_any_cut(joined, rest, messages);
        } else {
            assert(messages.len() > 0);
            let first = reverse_bytes(messages[0]);
            let others = spoken(messages.skip(1));
            assert(first + others == joined + flat(rest));
            assert(joined =~= (joined + flat(rest)).take(REVERSE_MSG_LEN as int));
            assert(first =~= (first + others).take(REVERSE_MSG_LEN as int));
            assert(joined == first);
            assert(flat(rest) =~= (joined + flat(rest)).skip(REVERSE_MSG_LEN as int));
            assert(others =~= (first + others).skip(REVERSE_MSG_LEN as int));
            assert(Seq::<u8>::empty() + flat(rest) =~= others);
            messages_survive_any_cut(Seq::empty(), rest, messages.skip(1));
            assert(want =~= seq![ReadStep::Message(messages[0])] + messages.skip(1).map_values(
                |m: ReverseMessage| ReadStep::Message(m),
            ));
        }
    }
}

// -------------------------------------------------------------- round trip ---

/// When frames went out, and how long each took to be acknowledged.
#[derive(Debug)]
pub struct RoundTrips {
    /// The frames that have not been acknowledged.
    pub sent_at: VecDeque<u64>,
    pub trips: Vec<u64>,
}

/// What is open, and what has been measured.
impl View for RoundTrips {
    type V = (Seq<u64>, Seq<u64>);

    open spec fn view(&self) -> (Seq<u64>, Seq<u64>) {
        (self.sent_at@, self.trips@)
    }
}

impl RoundTrips {
    pub fn new() -> (r: Self)
        ensures
            r@ == measured(Seq::empty()),
    {
        let r = RoundTrips { sent_at: VecDeque::new(), trips: Vec::new() };
        assert(r.sent_at@ =~= Seq::<u64>::empty());
        assert(r.trips@ =~= Seq::<u64>::empty());
        r
    }

    /// A frame goes out.
    pub fn sent(&mut self, now: u64)
        ensures
            final(self)@ == ticked(old(self)@, Tick::Sent(now)),
    {
        self.sent_at.push_back(now);
    }

    /// A frame is acknowledged. It is the oldest that has not been: the
    /// timestamp in the message is the decoder's, not the one that was
    /// submitted, and the transport keeps the order both ways.
    pub fn acknowledged(&mut self, now: u64)
        ensures
            final(self)@ == ticked(old(self)@, Tick::Acknowledged(now)),
    {
        match self.sent_at.pop_front() {
            Some(sent) => {
                self.trips.push(now.saturating_sub(sent));
                assert(self.sent_at@ =~= old(self).sent_at@.skip(1));
            },
            None => {},
        }
    }
}

/// A frame that goes out, or an acknowledgement that comes in, and when.
pub ghost enum Tick {
    Sent(u64),
    Acknowledged(u64),
}

/// How long it is from `a` to `b`, and nothing where the clock went back.
pub open spec fn elapsed(a: u64, b: u64) -> u64 {
    if b >= a {
        (b - a) as u64
    } else {
        0
    }
}

/// What is open and what has been measured after one more tick.
pub open spec fn ticked(before: (Seq<u64>, Seq<u64>), tick: Tick) -> (Seq<u64>, Seq<u64>) {
    let (open, trips) = before;
    match tick {
        Tick::Sent(t) => (open.push(t), trips),
        Tick::Acknowledged(t) => if open.len() == 0 {
            (open, trips)
        } else {
            (open.skip(1), trips.push(elapsed(open[0], t)))
        },
    }
}

/// What is open and what has been measured after a log of ticks.
pub open spec fn measured(log: Seq<Tick>) -> (Seq<u64>, Seq<u64>)
    decreases log.len(),
{
    if log.len() == 0 {
        (Seq::empty(), Seq::empty())
    } else {
        ticked(measured(log.drop_last()), log.last())
    }
}

/// When frames went out.
pub open spec fn sent_times(log: Seq<Tick>) -> Seq<u64>
    decreases log.len(),
{
    if log.len() == 0 {
        Seq::empty()
    } else {
        match log.last() {
            Tick::Sent(t) => sent_times(log.drop_last()).push(t),
            Tick::Acknowledged(_) => sent_times(log.drop_last()),
        }
    }
}

/// When acknowledgements came in.
pub open spec fn ack_times(log: Seq<Tick>) -> Seq<u64>
    decreases log.len(),
{
    if log.len() == 0 {
        Seq::empty()
    } else {
        match log.last() {
            Tick::Sent(_) => ack_times(log.drop_last()),
            Tick::Acknowledged(t) => ack_times(log.drop_last()).push(t),
        }
    }
}

/// Every acknowledgement comes after the frame it is for.
pub open spec fn in_order(log: Seq<Tick>) -> bool
    decreases log.len(),
{
    log.len() > 0 ==> in_order(log.drop_last()) && ack_times(log).len() <= sent_times(log).len()
}

/// The first acknowledgement is matched with the first frame, the second with
/// the second, and so on, however the two are interleaved.
pub proof fn acknowledgements_match_in_order(log: Seq<Tick>)
    requires
        in_order(log),
    ensures
        ack_times(log).len() <= sent_times(log).len(),
        measured(log).0 == sent_times(log).skip(ack_times(log).len() as int),
        measured(log).1.len() == ack_times(log).len(),
        forall|k: int|
            0 <= k < ack_times(log).len() ==> #[trigger] measured(log).1[k] == elapsed(
                sent_times(log)[k],
                ack_times(log)[k],
            ),
    decreases log.len(),
{
    if log.len() == 0 {
        assert(measured(log).0 =~= sent_times(log).skip(0));
    } else {
        let head = log.drop_last();
        acknowledgements_match_in_order(head);
        let (open, trips) = measured(head);
        let sents = sent_times(head);
        let acks = ack_times(head);
        match log.last() {
            Tick::Sent(t) => {
                assert(sents.push(t).skip(acks.len() as int) =~= sents.skip(acks.len() as int).push(
                    t,
                ));
            },
            Tick::Acknowledged(t) => {
                assert(open.len() > 0);
                assert(open.skip(1) =~= sents.skip((acks.len() + 1) as int));
                assert(open[0] == sents[acks.len() as int]);
            },
        }
    }
}

// ------------------------------------------------------------------ frames ---

/// The frames of a session, counted and spread evenly in time.
#[derive(Debug, Clone, Copy, PartialEq, Eq, Structural)]
pub struct FrameClock {
    pub index: u64,
    pub frame_duration_ns: u64,
}

/// The time of a frame.
pub open spec fn frame_time(fps: u32, index: int) -> int {
    index * (1_000_000_000int / fps as int)
}

impl FrameClock {
    pub fn new(fps: u32) -> (r: Self)
        requires
            fps > 0,
        ensures
            r.index == 0,
            r.frame_duration_ns == 1_000_000_000int / fps as int,
    {
        FrameClock { index: 0, frame_duration_ns: 1_000_000_000 / fps as u64 }
    }

    /// Whether the next frame can still be timed and counted.
    pub open spec fn room(self) -> bool {
        self.index < u64::MAX && self.index * self.frame_duration_ns <= u64::MAX
    }

    pub fn has_room(&self) -> (r: bool)
        ensures
            r == self.room(),
    {
        self.index < u64::MAX && self.index.checked_mul(self.frame_duration_ns).is_some()
    }

    /// The time of the next frame.
    pub fn pts(&self) -> (r: u64)
        requires
            self.index * self.frame_duration_ns <= u64::MAX,
        ensures
            r == self.index * self.frame_duration_ns,
    {
        self.index * self.frame_duration_ns
    }

    /// A frame has been submitted.
    pub fn advance(&mut self)
        requires
            old(self).index < u64::MAX,
        ensures
            final(self).index == old(self).index + 1,
            final(self).frame_duration_ns == old(self).frame_duration_ns,
    {
        self.index = self.index + 1;
    }
}

/// Frames are evenly spaced, and a later frame never has an earlier time.
pub proof fn frames_are_evenly_spaced(fps: u32, i: int, j: int)
    requires
        fps > 0,
        0 <= i <= j,
    ensures
        frame_time(fps, 0) == 0,
        frame_time(fps, i + 1) - frame_time(fps, i) == 1_000_000_000int / fps as int,
        frame_time(fps, i) <= frame_time(fps, j),
{
    let d = 1_000_000_000int / fps as int;
    assert(0 * d == 0 && (i + 1) * d - i * d == d) by (nonlinear_arith);
    assert(d >= 0) by (nonlinear_arith)
        requires
            d == 1_000_000_000int / fps as int,
            fps > 0,
    ;
    assert(i * d <= j * d) by (nonlinear_arith)
        requires
            i <= j,
            d >= 0,
    ;
}

// ------------------------------------------------------------------ report ---

/// What is said of a session at its end.
#[derive(Debug, Clone, Copy, PartialEq, Eq, Structural)]
pub struct Report {
    pub frames: u64,
    pub bytes: u64,
    pub acks: usize,
    /// There is none where nothing was acknowledged.
    pub round_trip: Option<Summary>,
}

/// Sum a session up.
pub fn report(trips: &Vec<u64>, frames: u64, bytes: u64) -> (r: Report)
    requires
        trips@.len() * 95 <= usize::MAX,
    ensures
        r.frames == frames,
        r.bytes == bytes,
        r.acks == trips@.len(),
        r.round_trip is None <==> trips@.len() == 0,
        r.round_trip matches Some(s) ==> exists|sorted: Seq<u64>| #[trigger]
            sorted_from(sorted, trips@) && sorted.len() == trips@.len() && s == summary_of(sorted),
{
    Report { frames, bytes, acks: trips.len(), round_trip: summarise(trips) }
}

/// A round trip is as long as what has passed from the frame to its acknowledgement.
pub proof fn round_trips_are_differences(a: u64, b: u64)
    ensures
        a <= b ==> a + elapsed(a, b) == b,
        a > b ==> elapsed(a, b) == 0,
{
}

/// Nine bytes at a time are one message or none, whatever they are: what makes no
/// sense is dropped on its own and spoils nothing behind it.
pub proof fn blocks_are_heard_one_by_one(block: Seq<u8>, pieces: Seq<Seq<u8>>)
    requires
        block.len() == 9,
    ensures
        heard(Seq::empty(), seq![block] + pieces) == seq![
            match reverse_of(block) {
                Ok(m) => ReadStep::Message(m),
                Err(e) => ReadStep::Malformed(e),
            },
        ] + heard(Seq::empty(), pieces),
{
    let all = seq![block] + pieces;
    assert(all.skip(1) =~= pieces);
    assert(Seq::<u8>::empty() + block =~= block);
}

/// A piece that does not complete a message is kept, and a read that gives nothing is
/// the end.
pub proof fn pieces_are_kept(pending: Seq<u8>, piece: Seq<u8>)
    requires
        pending.len() + piece.len() <= 9,
    ensures
        fed(pending, Seq::empty()) == (pending, ReadStep::End),
        0 < piece.len() && pending.len() + piece.len() < 9 ==> fed(pending, piece) == (
            pending + piece,
            ReadStep::More,
        ),
        0 < piece.len() && pending.len() + piece.len() == 9 ==> fed(pending, piece).0
            == Seq::<u8>::empty() && (match reverse_of(pending + piece) {
            Ok(m) => fed(pending, piece).1 == ReadStep::Message(m),
            Err(e) => fed(pending, piece).1 == ReadStep::Malformed(e),
        }),
{
}

} // verus!
