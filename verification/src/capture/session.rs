//! Persistent capture session over `ext-image-copy-capture-v1`.
//!
//! The session and its buffer pool are made once and used for every frame; only
//! the short-lived frame object is per capture, because the protocol permits
//! just one at a time. The compositor may change what it wants of the buffers
//! at any time; it then announces a new set of constraints, and the pool is
//! made anew.
//!
//! Points in time are nanoseconds on the monotonic clock, on which the
//! compositor reports presentation times too.

use vstd::prelude::*;

use crate::bytes::{be_value, read_u64};
use crate::capture::shm::{layout, ShmBuffer, ShmError};
use crate::capture::{AR24, XR24};
use crate::text::{join, join_of, same_str, strings};

verus! {

/// Which buffer type to hand the compositor.
#[derive(Debug, Clone, Copy, PartialEq, Eq, Structural)]
pub enum BufferMode {
    /// CPU-visible shared memory. Costs a full frame copy.
    Shm,
    /// GPU buffer shared by fd. Zero-copy into the encoder.
    Dmabuf,
}

/// How to set up a capture session.
#[derive(Debug, Clone)]
pub struct CaptureConfig {
    pub mode: BufferMode,
    pub pool_size: usize,
    /// DRM format modifiers the *consumer* of these buffers can accept, in
    /// preference order. Empty means that any will do.
    ///
    /// Left to itself the allocator picks the most capable modifier on offer,
    /// which may be one the encoder cannot read. The result would not be an
    /// error but a silent fallback to a CPU copy.
    pub allowed_modifiers: Vec<u64>,
    /// Ask the compositor to composite the mouse cursor into captured frames.
    pub paint_cursor: bool,
}

impl Default for CaptureConfig {
    fn default() -> (r: Self)
        ensures
            r.mode == BufferMode::Dmabuf,
            r.pool_size == 2,
            r.allowed_modifiers@.len() == 0,
            !r.paint_cursor,
    {
        CaptureConfig {
            mode: BufferMode::Dmabuf,
            pool_size: 2,
            allowed_modifiers: Vec::new(),
            paint_cursor: false,
        }
    }
}

/// What the compositor advertised for this source.
#[derive(Debug)]
pub struct SessionCaps {
    pub buffer_size: Option<(u32, u32)>,
    pub shm_formats: Vec<u32>,
    pub dmabuf_formats: Vec<(u32, Vec<u64>)>,
    pub dmabuf_device: Option<u64>,
}

pub ghost struct CapsView {
    pub buffer_size: Option<(u32, u32)>,
    pub shm_formats: Seq<u32>,
    pub dmabuf_formats: Seq<(u32, Seq<u64>)>,
    pub dmabuf_device: Option<u64>,
}

pub open spec fn format_views(v: Seq<(u32, Vec<u64>)>) -> Seq<(u32, Seq<u64>)> {
    v.map_values(|f: (u32, Vec<u64>)| (f.0, f.1@))
}

impl View for SessionCaps {
    type V = CapsView;

    open spec fn view(&self) -> CapsView {
        CapsView {
            buffer_size: self.buffer_size,
            shm_formats: self.shm_formats@,
            dmabuf_formats: format_views(self.dmabuf_formats@),
            dmabuf_device: self.dmabuf_device,
        }
    }
}

/// Nothing has been advertised.
pub open spec fn no_caps() -> CapsView {
    CapsView {
        buffer_size: None,
        shm_formats: Seq::empty(),
        dmabuf_formats: Seq::empty(),
        dmabuf_device: None,
    }
}

impl Default for SessionCaps {
    fn default() -> (r: Self)
        ensures
            r@ == no_caps(),
    {
        let r = SessionCaps {
            buffer_size: None,
            shm_formats: Vec::new(),
            dmabuf_formats: Vec::new(),
            dmabuf_device: None,
        };
        assert(r@.shm_formats =~= Seq::<u32>::empty());
        assert(r@.dmabuf_formats =~= Seq::<(u32, Seq<u64>)>::empty());
        r
    }
}

fn copy_words(v: &Vec<u64>) -> (r: Vec<u64>)
    ensures
        r@ == v@,
{
    let mut out: Vec<u64> = Vec::new();
    out.extend_from_slice(v.as_slice());
    assert(out@ =~= v@);
    out
}

impl SessionCaps {
    /// The same again.
    pub fn copy(&self) -> (r: SessionCaps)
        ensures
            r@ == self@,
    {
        let mut shm_formats: Vec<u32> = Vec::new();
        shm_formats.extend_from_slice(self.shm_formats.as_slice());
        let mut dmabuf_formats: Vec<(u32, Vec<u64>)> = Vec::new();
        let mut i: usize = 0;
        while i < self.dmabuf_formats.len()
            invariant
                i <= self.dmabuf_formats@.len(),
                format_views(dmabuf_formats@) =~= format_views(self.dmabuf_formats@).take(i as int),
            decreases self.dmabuf_formats@.len() - i,
        {
            let entry = &self.dmabuf_formats[i];
            let ghost had = dmabuf_formats@;
            let copied = (entry.0, copy_words(&entry.1));
            dmabuf_formats.push(copied);
            proof {
                let all = format_views(self.dmabuf_formats@);
                assert(all[i as int] == (copied.0, copied.1@));
                assert(all.take(i + 1) =~= all.take(i as int).push(all[i as int]));
                assert(format_views(dmabuf_formats@) =~= format_views(had).push(
                    (copied.0, copied.1@),
                ));
            }
            i += 1;
        }
        let r = SessionCaps {
            buffer_size: self.buffer_size,
            shm_formats,
            dmabuf_formats,
            dmabuf_device: self.dmabuf_device,
        };
        assert(r@.shm_formats =~= self@.shm_formats);
        assert(r@.dmabuf_formats =~= self@.dmabuf_formats);
        r
    }
}

/// Timing for one captured frame.
#[derive(Debug, Clone, Copy, PartialEq, Eq, Structural)]
pub struct FrameTiming {
    /// Time from asking for the frame to its being ready. At a steady frame
    /// rate this is dominated by waiting for the compositor's next frame.
    pub latency: u64,
    /// Compositor presentation timestamp.
    pub presentation_ns: Option<u64>,
    /// How old the frame already was when it became ready. This is the figure
    /// that enters the end-to-end latency.
    pub age: Option<u64>,
    /// Index into the buffer pool that received this frame.
    pub buffer_index: usize,
}

// ------------------------------------------------------------------- words ---

/// `u64::from_ne_bytes`: the number in eight bytes, in the byte order of the
/// machine. Which of the two orders that is, is left unsaid.
#[verifier::external_body]
fn native_word(bytes: [u8; 8]) -> (r: u64)
    ensures
        r == be_value(bytes@) || r == be_value(bytes@.reverse()),
{
    u64::from_ne_bytes(bytes)
}

/// The order in which a number lies in memory.
#[derive(Debug, Clone, Copy, PartialEq, Eq, Structural)]
pub enum ByteOrder {
    /// The highest byte first.
    Big,
    /// The lowest byte first.
    Little,
}

/// The byte order of a machine, told by what it makes of a one behind seven
/// zeros.
pub fn order_of(probe: u64) -> (r: ByteOrder)
    ensures
        r == (if probe == 1 {
            ByteOrder::Big
        } else {
            ByteOrder::Little
        }),
{
    if probe == 1 {
        ByteOrder::Big
    } else {
        ByteOrder::Little
    }
}

/// The number in some bytes.
pub open spec fn word_of(bytes: Seq<u8>, order: ByteOrder) -> nat {
    match order {
        ByteOrder::Big => be_value(bytes),
        ByteOrder::Little => be_value(bytes.reverse()),
    }
}

/// Whether words are those that a byte string holds, eight bytes each; what is
/// left over at the end is passed over.
pub open spec fn are_words_in(bytes: Seq<u8>, order: ByteOrder, read: Seq<u64>) -> bool {
    &&& read.len() == bytes.len() / 8
    &&& forall|i: int|
        0 <= i < read.len() ==> #[trigger] read[i] == word_of(
            bytes.subrange(8 * i, 8 * i + 8),
            order,
        )
}

/// Whether words are those that a byte string holds, in one order or the other,
/// the same for all of them.
pub open spec fn are_words(bytes: Seq<u8>, read: Seq<u64>) -> bool {
    exists|order: ByteOrder| are_words_in(bytes, order, read)
}

/// The words that a byte string holds, in a given order.
pub fn words_in(bytes: &[u8], order: ByteOrder) -> (r: Vec<u64>)
    ensures
        are_words_in(bytes@, order, r@),
{
    let mut out: Vec<u64> = Vec::new();
    let len: usize = bytes.len();
    let count: usize = len / 8;
    let mut i: usize = 0;
    while i < count
        invariant
            i <= count,
            len == bytes@.len(),
            count == len / 8,
            out@.len() == i,
            forall|j: int|
                0 <= j < i ==> #[trigger] out@[j] == word_of(
                    bytes@.subrange(8 * j, 8 * j + 8),
                    order,
                ),
        decreases count - i,
    {
        let at: usize = 8 * i;
        let ghost chunk = bytes@.subrange(8 * i, 8 * i + 8);
        let word: u64 = match order {
            ByteOrder::Big => read_u64(bytes, at),
            ByteOrder::Little => {
                let turned = [
                    bytes[at + 7],
                    bytes[at + 6],
                    bytes[at + 5],
                    bytes[at + 4],
                    bytes[at + 3],
                    bytes[at + 2],
                    bytes[at + 1],
                    bytes[at],
                ];
                assert(turned@.subrange(0, 8) =~= chunk.reverse());
                read_u64(turned.as_slice(), 0)
            },
        };
        out.push(word);
        i += 1;
    }
    out
}

/// The words that a byte string holds, in the order of the machine. Which of the
/// two that is, is left unsaid.
pub fn words(bytes: &[u8]) -> (r: Vec<u64>)
    ensures
        are_words(bytes@, r@),
{
    let probe: u64 = native_word([0, 0, 0, 0, 0, 0, 0, 1]);
    words_in(bytes, order_of(probe))
}

// ------------------------------------------------------------------ events ---

/// What the compositor says of the session, as it comes in.
#[derive(Debug)]
pub enum SessionEvent {
    BufferSize(u32, u32),
    /// A format by its number, where that has a meaning.
    ShmFormat(Option<u32>),
    /// A device number, as bytes.
    DmabufDevice(Vec<u8>),
    /// A format and its modifiers, as bytes.
    DmabufFormat(u32, Vec<u8>),
    Done,
    Stopped,
    Other,
}

/// The same with the bytes read.
#[derive(Debug)]
pub enum Announcement {
    BufferSize(u32, u32),
    ShmFormat(Option<u32>),
    /// The words that were sent as the device number.
    DmabufDevice(Vec<u64>),
    DmabufFormat(u32, Vec<u64>),
    Done,
    Stopped,
    Other,
}

/// Whether an announcement is what an event says.
pub open spec fn announces(event: SessionEvent, a: Announcement) -> bool {
    match (event, a) {
        (SessionEvent::BufferSize(w, h), Announcement::BufferSize(x, y)) => w == x && h == y,
        (SessionEvent::ShmFormat(f), Announcement::ShmFormat(g)) => f == g,
        (SessionEvent::DmabufDevice(bytes), Announcement::DmabufDevice(read)) => are_words(
            bytes@,
            read@,
        ),
        (SessionEvent::DmabufFormat(f, bytes), Announcement::DmabufFormat(g, read)) => f == g
            && are_words(bytes@, read@),
        (SessionEvent::Done, Announcement::Done) => true,
        (SessionEvent::Stopped, Announcement::Stopped) => true,
        (SessionEvent::Other, Announcement::Other) => true,
        _ => false,
    }
}

/// Read the bytes of an event.
pub fn read_event(event: SessionEvent) -> (r: Announcement)
    ensures
        announces(event, r),
{
    match event {
        SessionEvent::BufferSize(w, h) => Announcement::BufferSize(w, h),
        SessionEvent::ShmFormat(f) => Announcement::ShmFormat(f),
        SessionEvent::DmabufDevice(bytes) => Announcement::DmabufDevice(words(bytes.as_slice())),
        SessionEvent::DmabufFormat(f, bytes) => Announcement::DmabufFormat(
            f,
            words(bytes.as_slice()),
        ),
        SessionEvent::Done => Announcement::Done,
        SessionEvent::Stopped => Announcement::Stopped,
        SessionEvent::Other => Announcement::Other,
    }
}

/// Why the compositor did not deliver a frame.
#[derive(Debug, Clone, Copy, PartialEq, Eq, Structural)]
pub enum FailureReason {
    Unknown,
    BufferConstraints,
    Stopped,
}

/// What the compositor says of a frame.
#[derive(Debug, Clone, Copy, PartialEq, Eq, Structural)]
pub enum FrameEvent {
    PresentationTime { tv_sec_hi: u32, tv_sec_lo: u32, tv_nsec: u32 },
    Ready,
    Failed(FailureReason),
    /// A reason without a meaning.
    FailedUnknown(u32),
    Other,
}

/// A presentation time in nanoseconds.
pub open spec fn event_time(tv_sec_hi: u32, tv_sec_lo: u32, tv_nsec: u32) -> int {
    (tv_sec_hi * 0x1_0000_0000 + tv_sec_lo) * 1_000_000_000 + tv_nsec
}

/// Whether the time in an event can be counted in nanoseconds.
pub open spec fn countable(event: FrameEvent) -> bool {
    event matches FrameEvent::PresentationTime { tv_sec_hi, tv_sec_lo, tv_nsec } ==> event_time(
        tv_sec_hi,
        tv_sec_lo,
        tv_nsec,
    ) <= u64::MAX
}

/// Whether the time in an event can be counted in nanoseconds.
pub fn is_countable(event: FrameEvent) -> (r: bool)
    ensures
        r == countable(event),
{
    match event {
        FrameEvent::PresentationTime { tv_sec_hi, tv_sec_lo, tv_nsec } => {
            let secs: u128 = tv_sec_hi as u128 * 0x1_0000_0000 + tv_sec_lo as u128;
            secs * 1_000_000_000 + tv_nsec as u128 <= u64::MAX as u128
        },
        _ => true,
    }
}

// ------------------------------------------------------------------- state ---

/// What the compositor has said so far.
#[derive(Debug)]
pub struct State {
    /// The names of the outputs, in the order in which they were bound.
    pub outputs: Vec<String>,
    pub caps: SessionCaps,
    pub session_done: bool,
    /// The current constraints have been used to make a pool. The next
    /// constraint of *any* kind then begins a fresh set: the protocol does not
    /// say which kind comes first.
    pub caps_consumed: bool,
    pub session_stopped: bool,
    pub frame_ready: bool,
    pub frame_failed: Option<FailureReason>,
    pub frame_failed_raw: Option<u32>,
    pub presentation_ns: Option<u64>,
}

pub ghost struct StateView {
    pub outputs: Seq<Seq<char>>,
    pub caps: CapsView,
    pub session_done: bool,
    pub caps_consumed: bool,
    pub session_stopped: bool,
    pub frame_ready: bool,
    pub frame_failed: Option<FailureReason>,
    pub frame_failed_raw: Option<u32>,
    pub presentation_ns: Option<u64>,
}

impl View for State {
    type V = StateView;

    open spec fn view(&self) -> StateView {
        StateView {
            outputs: strings(self.outputs@),
            caps: self.caps@,
            session_done: self.session_done,
            caps_consumed: self.caps_consumed,
            session_stopped: self.session_stopped,
            frame_ready: self.frame_ready,
            frame_failed: self.frame_failed,
            frame_failed_raw: self.frame_failed_raw,
            presentation_ns: self.presentation_ns,
        }
    }
}

impl StateView {
    /// Before a constraint is taken in.
    pub open spec fn in_generation(self) -> StateView {
        if self.caps_consumed {
            StateView { caps: no_caps(), caps_consumed: false, session_done: false, ..self }
        } else {
            self
        }
    }

    /// With other constraints.
    pub open spec fn with_caps(self, caps: CapsView) -> StateView {
        StateView { caps, ..self }
    }

    /// After the compositor has said something of the session.
    pub open spec fn told(self, a: Announcement) -> StateView {
        let s = self.in_generation();
        match a {
            Announcement::BufferSize(w, h) => s.with_caps(
                CapsView { buffer_size: Some((w, h)), ..s.caps },
            ),
            Announcement::ShmFormat(Some(f)) => s.with_caps(
                CapsView { shm_formats: s.caps.shm_formats.push(f), ..s.caps },
            ),
            Announcement::ShmFormat(None) => s,
            Announcement::DmabufDevice(read) => if read@.len() > 0 {
                s.with_caps(CapsView { dmabuf_device: Some(read@[0]), ..s.caps })
            } else {
                s
            },
            Announcement::DmabufFormat(f, read) => s.with_caps(
                CapsView { dmabuf_formats: s.caps.dmabuf_formats.push((f, read@)), ..s.caps },
            ),
            Announcement::Done => StateView { session_done: true, ..self },
            Announcement::Stopped => StateView { session_stopped: true, ..self },
            Announcement::Other => self,
        }
    }

    /// After the compositor has said something of the frame.
    pub open spec fn told_of_frame(self, event: FrameEvent) -> StateView {
        match event {
            FrameEvent::PresentationTime { tv_sec_hi, tv_sec_lo, tv_nsec } => StateView {
                presentation_ns: Some(event_time(tv_sec_hi, tv_sec_lo, tv_nsec) as u64),
                ..self
            },
            FrameEvent::Ready => StateView { frame_ready: true, ..self },
            FrameEvent::Failed(reason) => StateView { frame_failed: Some(reason), ..self },
            FrameEvent::FailedUnknown(raw) => StateView { frame_failed_raw: Some(raw), ..self },
            FrameEvent::Other => self,
        }
    }

    /// Before a frame is asked for.
    pub open spec fn no_frame(self) -> StateView {
        StateView {
            frame_ready: false,
            frame_failed: None,
            frame_failed_raw: None,
            presentation_ns: None,
            ..self
        }
    }

    /// Whether the frame is ready or has failed.
    pub open spec fn settled(self) -> bool {
        self.frame_ready || self.frame_failed is Some || self.frame_failed_raw is Some
    }
}

impl State {
    /// Nothing has been said.
    pub fn new() -> (r: Self)
        ensures
            r@ == (StateView {
                outputs: Seq::empty(),
                caps: no_caps(),
                session_done: false,
                caps_consumed: false,
                session_stopped: false,
                frame_ready: false,
                frame_failed: None,
                frame_failed_raw: None,
                presentation_ns: None,
            }),
    {
        let r = State {
            outputs: Vec::new(),
            caps: SessionCaps::default(),
            session_done: false,
            caps_consumed: false,
            session_stopped: false,
            frame_ready: false,
            frame_failed: None,
            frame_failed_raw: None,
            presentation_ns: None,
        };
        assert(strings(r.outputs@) =~= Seq::<Seq<char>>::empty());
        r
    }

    /// Make room for one more output, with no name yet.
    pub fn add_output(&mut self) -> (index: usize)
        ensures
            index == old(self)@.outputs.len(),
            final(self)@ == (StateView {
                outputs: old(self)@.outputs.push(Seq::empty()),
                ..old(self)@
            }),
    {
        let index: usize = self.outputs.len();
        let ghost before = self.outputs@;
        let name = String::new();
        assert(name@ =~= Seq::<char>::empty());
        self.outputs.push(name);
        assert(strings(self.outputs@) =~= strings(before).push(Seq::empty()));
        index
    }

    /// The compositor names an output; one that is not there is passed over.
    pub fn on_output_name(&mut self, index: usize, name: String)
        ensures
            final(self)@ == (StateView {
                outputs: if index < old(self)@.outputs.len() {
                    old(self)@.outputs.update(index as int, name@)
                } else {
                    old(self)@.outputs
                },
                ..old(self)@
            }),
    {
        if index < self.outputs.len() {
            let ghost before = self.outputs@;
            self.outputs[index] = name;
            assert(strings(self.outputs@) =~= strings(before).update(index as int, name@));
        }
    }

    /// Start accumulating a new set of constraints, if the previous one has
    /// already been used.
    fn begin_generation(&mut self)
        ensures
            final(self)@ == old(self)@.in_generation(),
    {
        if self.caps_consumed {
            self.caps = SessionCaps::default();
            self.caps_consumed = false;
            self.session_done = false;
        }
    }

    /// Take in what the compositor said of the session, with its bytes read.
    pub fn on_announcement(&mut self, a: Announcement)
        ensures
            final(self)@ == old(self)@.told(a),
    {
        match a {
            Announcement::BufferSize(w, h) => {
                self.begin_generation();
                self.caps.buffer_size = Some((w, h));
            },
            Announcement::ShmFormat(format) => {
                self.begin_generation();
                match format {
                    Some(f) => {
                        self.caps.shm_formats.push(f);
                    },
                    None => {},
                }
            },
            Announcement::DmabufDevice(read) => {
                self.begin_generation();
                if read.len() > 0 {
                    self.caps.dmabuf_device = Some(read[0]);
                }
            },
            Announcement::DmabufFormat(f, read) => {
                self.begin_generation();
                let ghost before = self.caps.dmabuf_formats@;
                self.caps.dmabuf_formats.push((f, read));
                assert(format_views(self.caps.dmabuf_formats@) =~= format_views(before).push(
                    (f, read@),
                ));
            },
            Announcement::Done => {
                self.session_done = true;
            },
            Announcement::Stopped => {
                self.session_stopped = true;
            },
            Announcement::Other => {},
        }
    }

    /// Take in what the compositor said of the session.
    pub fn on_session_event(&mut self, event: SessionEvent)
        ensures
            exists|a: Announcement| #[trigger]
                announces(event, a) && final(self)@ == old(self)@.told(a),
    {
        let a = read_event(event);
        self.on_announcement(a);
    }

    /// Take in what the compositor said of the frame.
    pub fn on_frame_event(&mut self, event: FrameEvent)
        requires
            countable(event),
        ensures
            final(self)@ == old(self)@.told_of_frame(event),
    {
        match event {
            FrameEvent::PresentationTime { tv_sec_hi, tv_sec_lo, tv_nsec } => {
                let secs: u64 = tv_sec_hi as u64 * 0x1_0000_0000 + tv_sec_lo as u64;
                self.presentation_ns = Some(secs * 1_000_000_000 + tv_nsec as u64);
            },
            FrameEvent::Ready => {
                self.frame_ready = true;
            },
            FrameEvent::Failed(reason) => {
                self.frame_failed = Some(reason);
            },
            FrameEvent::FailedUnknown(raw) => {
                self.frame_failed_raw = Some(raw);
            },
            FrameEvent::Other => {},
        }
    }
}

// ----------------------------------------------------------------- formats ---

/// 8 bits per channel, the fourth unused, as shared memory numbers it.
pub const SHM_XRGB8888: u32 = 1;

/// 8 bits per channel with alpha, as shared memory numbers it.
pub const SHM_ARGB8888: u32 = 0;

/// Why no pool can be made.
#[derive(Debug, Clone, Copy, PartialEq, Eq, Structural)]
pub enum PoolError {
    NoBufferSize,
    NoShmFormat,
    Shm(ShmError),
    /// There is no global to make buffers with.
    NoDmabufGlobal,
    NoDmabufFormat,
    /// The compositor and the consumer have no modifier in common.
    NoSharedModifier,
    NoDmabufDevice,
}

/// The shared-memory format to use: without alpha where that is offered.
pub open spec fn shm_choice(formats: Seq<u32>) -> Result<u32, PoolError> {
    if formats.contains(SHM_XRGB8888) {
        Ok(SHM_XRGB8888)
    } else if formats.contains(SHM_ARGB8888) {
        Ok(SHM_ARGB8888)
    } else {
        Err(PoolError::NoShmFormat)
    }
}

fn has_format(formats: &Vec<u32>, wanted: u32) -> (r: bool)
    ensures
        r == formats@.contains(wanted),
{
    let mut i: usize = 0;
    while i < formats.len()
        invariant
            i <= formats@.len(),
            forall|j: int| 0 <= j < i ==> formats@[j] != wanted,
        decreases formats@.len() - i,
    {
        if formats[i] == wanted {
            return true;
        }
        i += 1;
    }
    false
}

pub fn pick_shm_format(formats: &Vec<u32>) -> (r: Result<u32, PoolError>)
    ensures
        r == shm_choice(formats@),
{
    if has_format(formats, SHM_XRGB8888) {
        Ok(SHM_XRGB8888)
    } else if has_format(formats, SHM_ARGB8888) {
        Ok(SHM_ARGB8888)
    } else {
        Err(PoolError::NoShmFormat)
    }
}

/// The modifiers that are offered with a format, where it is offered.
pub open spec fn offered_with(formats: Seq<(u32, Seq<u64>)>, wanted: u32) -> Option<Seq<u64>>
    decreases formats.len(),
{
    if formats.len() == 0 {
        None
    } else if formats[0].0 == wanted {
        Some(formats[0].1)
    } else {
        offered_with(formats.skip(1), wanted)
    }
}

/// The first allowed modifier that is offered.
pub open spec fn first_shared(allowed: Seq<u64>, offered: Seq<u64>) -> Option<u64>
    decreases allowed.len(),
{
    if allowed.len() == 0 {
        None
    } else if offered.contains(allowed[0]) {
        Some(allowed[0])
    } else {
        first_shared(allowed.skip(1), offered)
    }
}

/// The modifiers to use with a format: all that are offered where any will do,
/// else the one that the consumer likes best, so that nothing else can be
/// substituted.
pub open spec fn usable_with(
    formats: Seq<(u32, Seq<u64>)>,
    allowed: Seq<u64>,
    wanted: u32,
) -> Option<Seq<u64>> {
    match offered_with(formats, wanted) {
        None => None,
        Some(offered) => if allowed.len() == 0 {
            Some(offered)
        } else {
            match first_shared(allowed, offered) {
                Some(modifier) => Some(seq![modifier]),
                None => None,
            }
        },
    }
}

/// The format to use and its modifiers: without alpha where that is usable,
/// since the output is opaque.
pub open spec fn dmabuf_choice(
    formats: Seq<(u32, Seq<u64>)>,
    allowed: Seq<u64>,
) -> Result<(u32, Seq<u64>), PoolError> {
    match usable_with(formats, allowed, XR24) {
        Some(modifiers) => Ok((XR24, modifiers)),
        None => match usable_with(formats, allowed, AR24) {
            Some(modifiers) => Ok((AR24, modifiers)),
            None => if allowed.len() == 0 {
                Err(PoolError::NoDmabufFormat)
            } else {
                Err(PoolError::NoSharedModifier)
            },
        },
    }
}

fn has_word(list: &Vec<u64>, wanted: u64) -> (r: bool)
    ensures
        r == list@.contains(wanted),
{
    let mut i: usize = 0;
    while i < list.len()
        invariant
            i <= list@.len(),
            forall|j: int| 0 <= j < i ==> list@[j] != wanted,
        decreases list@.len() - i,
    {
        if list[i] == wanted {
            return true;
        }
        i += 1;
    }
    false
}

fn shared_modifier(allowed: &Vec<u64>, offered: &Vec<u64>) -> (r: Option<u64>)
    ensures
        r == first_shared(allowed@, offered@),
{
    let mut i: usize = 0;
    assert(allowed@.skip(0) =~= allowed@);
    while i < allowed.len()
        invariant
            i <= allowed@.len(),
            first_shared(allowed@, offered@) == first_shared(allowed@.skip(i as int), offered@),
        decreases allowed@.len() - i,
    {
        assert(allowed@.skip(i as int).skip(1) =~= allowed@.skip(i + 1));
        if has_word(offered, allowed[i]) {
            return Some(allowed[i]);
        }
        i += 1;
    }
    None
}

fn usable(formats: &Vec<(u32, Vec<u64>)>, allowed: &Vec<u64>, wanted: u32) -> (r: Option<Vec<u64>>)
    ensures
        (match r {
            Some(v) => Some(v@),
            None => None,
        }) == usable_with(format_views(formats@), allowed@, wanted),
{
    let ghost views = format_views(formats@);
    let mut i: usize = 0;
    assert(views.skip(0) =~= views);
    while i < formats.len() && formats[i].0 != wanted
        invariant
            i <= formats@.len(),
            views == format_views(formats@),
            offered_with(views, wanted) == offered_with(views.skip(i as int), wanted),
        decreases formats@.len() - i,
    {
        assert(views.skip(i as int).skip(1) =~= views.skip(i + 1));
        i += 1;
    }
    if i == formats.len() {
        return None;
    }
    assert(views.skip(i as int)[0] == (formats@[i as int].0, formats@[i as int].1@));
    let offered = &formats[i].1;
    if allowed.len() == 0 {
        return Some(copy_words(offered));
    }
    match shared_modifier(allowed, offered) {
        Some(modifier) => {
            let mut one: Vec<u64> = Vec::new();
            one.push(modifier);
            assert(one@ =~= seq![modifier]);
            Some(one)
        },
        None => None,
    }
}

/// Prefer XR24 — the virtual output is opaque, and dropping alpha keeps the
/// encoder's colour conversion trivial. Where the consumer restricts modifiers,
/// exactly one is returned.
pub fn pick_dmabuf_format(formats: &Vec<(u32, Vec<u64>)>, allowed: &Vec<u64>) -> (r: Result<
    (u32, Vec<u64>),
    PoolError,
>)
    ensures
        (match r {
            Ok((f, m)) => Ok((f, m@)),
            Err(e) => Err(e),
        }) == dmabuf_choice(format_views(formats@), allowed@),
{
    match usable(formats, allowed, XR24) {
        Some(modifiers) => {
            return Ok((XR24, modifiers));
        },
        None => {},
    }
    match usable(formats, allowed, AR24) {
        Some(modifiers) => {
            return Ok((AR24, modifiers));
        },
        None => {},
    }
    if allowed.len() == 0 {
        Err(PoolError::NoDmabufFormat)
    } else {
        Err(PoolError::NoSharedModifier)
    }
}

// -------------------------------------------------------------------- pool ---

/// The buffers to make.
#[derive(Debug)]
pub enum PoolPlan {
    Shm { buffer: ShmBuffer, format: u32 },
    /// `reuse` says that the device is the one that is open already.
    Dmabuf { width: u32, height: u32, fourcc: u32, modifiers: Vec<u64>, device: u64, reuse: bool },
}

pub ghost enum PlanView {
    Shm { buffer: ShmBuffer, format: u32 },
    Dmabuf { width: u32, height: u32, fourcc: u32, modifiers: Seq<u64>, device: u64, reuse: bool },
}

impl View for PoolPlan {
    type V = PlanView;

    open spec fn view(&self) -> PlanView {
        match self {
            PoolPlan::Shm { buffer, format } => PlanView::Shm { buffer: *buffer, format: *format },
            PoolPlan::Dmabuf { width, height, fourcc, modifiers, device, reuse } =>
                PlanView::Dmabuf {
                    width: *width,
                    height: *height,
                    fourcc: *fourcc,
                    modifiers: modifiers@,
                    device: *device,
                    reuse: *reuse,
                },
        }
    }
}

/// The buffers that constraints call for.
pub open spec fn planned(
    caps: CapsView,
    mode: BufferMode,
    allowed: Seq<u64>,
    has_dmabuf: bool,
    open_device: Option<u64>,
) -> Result<PlanView, PoolError> {
    match caps.buffer_size {
        None => Err(PoolError::NoBufferSize),
        Some((width, height)) => match mode {
            BufferMode::Shm => match shm_choice(caps.shm_formats) {
                Err(e) => Err(e),
                Ok(format) => match layout(width, height) {
                    Err(e) => Err(PoolError::Shm(e)),
                    Ok(buffer) => Ok(PlanView::Shm { buffer, format }),
                },
            },
            BufferMode::Dmabuf => if !has_dmabuf {
                Err(PoolError::NoDmabufGlobal)
            } else {
                match dmabuf_choice(caps.dmabuf_formats, allowed) {
                    Err(e) => Err(e),
                    Ok((fourcc, modifiers)) => match caps.dmabuf_device {
                        None => Err(PoolError::NoDmabufDevice),
                        Some(device) => Ok(
                            PlanView::Dmabuf {
                                width,
                                height,
                                fourcc,
                                modifiers,
                                device,
                                reuse: open_device == Some(device),
                            },
                        ),
                    },
                }
            },
        },
    }
}

/// Distinguishes recoverable capture failures from fatal ones.
#[derive(Debug, Clone, Copy, PartialEq, Eq, Structural)]
pub enum CaptureError {
    /// The pool no longer matches the session; make it anew and retry.
    BufferConstraints,
    Stopped,
    EmptyPool,
    /// The compositor gave no further reason.
    Failed,
    UnknownReason(u32),
}

/// What to do while the compositor settles its constraints.
#[derive(Debug, Clone, Copy, PartialEq, Eq, Structural)]
pub enum Negotiation {
    /// Wait for the next event.
    Wait,
    /// The constraints are complete.
    Complete,
    Stopped,
    TimedOut,
}

/// How long to wait for new constraints.
pub const RENEGOTIATION_NS: u64 = 5_000_000_000;

/// The output was resized: everything downstream was set up for the old size.
#[derive(Debug, Clone, Copy, PartialEq, Eq, Structural)]
pub struct GeometryChanged {
    pub old_width: u32,
    pub old_height: u32,
    pub width: u32,
    pub height: u32,
}

/// What follows an attempt to capture a frame.
#[derive(Debug, Clone, Copy, PartialEq, Eq, Structural)]
pub enum AfterAttempt {
    Return(FrameTiming),
    Fail(CaptureError),
    /// Make the pool anew, then try once more.
    Renegotiate,
}

/// No output has the name; the names there are.
#[derive(Debug)]
pub struct NoSuchOutput {
    pub wanted: String,
    pub known: String,
}

/// The first name that is the wanted one, or the number of names.
pub open spec fn position_of(names: Seq<Seq<char>>, wanted: Seq<char>) -> int
    decreases names.len(),
{
    if names.len() == 0 {
        0
    } else if names[0] == wanted {
        0
    } else {
        1 + position_of(names.skip(1), wanted)
    }
}

/// The output to capture.
pub fn find_output(names: &Vec<String>, wanted: &str) -> (r: Result<usize, NoSuchOutput>)
    ensures
        position_of(strings(names@), wanted@) < names@.len() ==> (r matches Ok(i) && i
            == position_of(strings(names@), wanted@)),
        position_of(strings(names@), wanted@) >= names@.len() ==> (r matches Err(e) && e.wanted@
            == wanted@ && e.known@ == join_of(strings(names@), ", "@)),
{
    let ghost all = strings(names@);
    let mut i: usize = 0;
    assert(all.skip(0) =~= all);
    while i < names.len()
        invariant
            i <= names@.len(),
            all == strings(names@),
            position_of(all, wanted@) == i + position_of(all.skip(i as int), wanted@),
        decreases names@.len() - i,
    {
        assert(all.skip(i as int).skip(1) =~= all.skip(i + 1));
        assert(all.skip(i as int)[0] == names@[i as int]@);
        if same_str(names[i].as_str(), wanted) {
            return Ok(i);
        }
        i += 1;
    }
    Err(NoSuchOutput { wanted: String::from_str(wanted), known: join(names, ", ") })
}

/// A live capture session bound to one output.
#[derive(Debug)]
pub struct Capture {
    pub state: State,
    /// The number of buffers in the pool.
    pub buffers: usize,
    pub next_buffer: usize,
    pub width: u32,
    pub height: u32,
    pub mode: BufferMode,
    pub caps: SessionCaps,
    /// Format actually negotiated (a shared-memory format, or a DRM fourcc).
    pub format: u32,
    pub modifier: Option<u64>,
    pub pool_size: usize,
    pub allowed_modifiers: Vec<u64>,
    pub geometry_changed: bool,
    pub has_dmabuf: bool,
    /// The device that buffers were last allocated on.
    pub open_device: Option<u64>,
}

impl Capture {
    pub open spec fn wf(self) -> bool {
        &&& self.buffers > 0 ==> self.next_buffer < self.buffers
        &&& self.pool_size >= 1
    }

    /// What letting go of the pool changes, and what the new one is to be.
    pub open spec fn emptied(self, after: Capture, r: Result<PoolPlan, PoolError>) -> bool {
        &&& (match r {
            Ok(plan) => Ok(plan@),
            Err(e) => Err(e),
        }) == planned(
            self.state.caps@,
            self.mode,
            self.allowed_modifiers@,
            self.has_dmabuf,
            self.open_device,
        )
        &&& after == (Capture {
            buffers: 0,
            open_device: if r matches Ok(PoolPlan::Dmabuf { reuse: false, .. }) {
                None
            } else {
                self.open_device
            },
            ..self
        })
    }

    /// What a new pool changes: its constraints are in use from then on.
    pub open spec fn filled(self, plan: PlanView, modifier: Option<u64>, after: Capture) -> bool {
        &&& after.buffers == self.pool_size
        &&& after.next_buffer == 0
        &&& match plan {
            PlanView::Shm { buffer, format } => {
                &&& after.width == buffer.width
                &&& after.height == buffer.height
                &&& after.format == format
                &&& after.modifier is None
                &&& after.open_device == self.open_device
            },
            PlanView::Dmabuf { width, height, fourcc, device, .. } => {
                &&& after.width == width
                &&& after.height == height
                &&& after.format == fourcc
                &&& after.modifier == modifier
                &&& after.open_device == Some(device)
            },
        }
        &&& after.caps@ == self.state@.caps
        &&& after.state@ == (StateView { caps_consumed: true, ..self.state@ })
        &&& after.mode == self.mode
        &&& after.pool_size == self.pool_size
        &&& after.allowed_modifiers == self.allowed_modifiers
        &&& after.geometry_changed == self.geometry_changed
        &&& after.has_dmabuf == self.has_dmabuf
    }

    /// What comparing the size with the old one changes: only that it is noted
    /// where it differs.
    pub open spec fn compared(
        self,
        old_width: u32,
        old_height: u32,
        after: Capture,
        r: Result<(), GeometryChanged>,
    ) -> bool {
        &&& r == (if self.width == old_width && self.height == old_height {
            Ok(())
        } else {
            Err(
                GeometryChanged {
                    old_width,
                    old_height,
                    width: self.width,
                    height: self.height,
                },
            )
        })
        &&& after == (Capture {
            geometry_changed: self.geometry_changed || r is Err,
            ..self
        })
    }

    /// The buffer that the next frame goes into.
    pub open spec fn turn(self) -> Result<usize, CaptureError> {
        if self.state.session_stopped {
            Err(CaptureError::Stopped)
        } else if self.buffers == 0 {
            Err(CaptureError::EmptyPool)
        } else {
            Ok(self.next_buffer)
        }
    }

    /// Where the wait for new constraints stands.
    pub open spec fn renegotiation(self, now: u64, deadline: u64) -> Negotiation {
        if self.state.session_done {
            Negotiation::Complete
        } else if self.state.session_stopped {
            Negotiation::Stopped
        } else if now > deadline {
            Negotiation::TimedOut
        } else {
            Negotiation::Wait
        }
    }

    /// What asking for a frame changes, and the buffer it goes into.
    pub open spec fn began(self, after: Capture, r: Result<usize, CaptureError>) -> bool {
        &&& r == self.turn()
        &&& r is Err ==> after == self
        &&& r is Ok ==> {
            &&& after.next_buffer == (self.next_buffer + 1) % (self.buffers as int)
            &&& after.state@ == self.state@.no_frame()
            &&& after == (Capture {
                next_buffer: after.next_buffer,
                state: after.state,
                ..self
            })
        }
    }

    /// A session whose constraints are complete, with no pool yet.
    pub fn new(config: &CaptureConfig, state: State, has_dmabuf: bool) -> (r: Self)
        ensures
            r.wf(),
            r.state == state,
            r.buffers == 0,
            r.next_buffer == 0,
            r.width == 0,
            r.height == 0,
            r.mode == config.mode,
            r.caps@ == no_caps(),
            r.format == 0,
            r.modifier is None,
            r.pool_size == (if config.pool_size >= 1 {
                config.pool_size
            } else {
                1
            }),
            r.allowed_modifiers@ == config.allowed_modifiers@,
            !r.geometry_changed,
            r.has_dmabuf == has_dmabuf,
            r.open_device is None,
    {
        Capture {
            state,
            buffers: 0,
            next_buffer: 0,
            width: 0,
            height: 0,
            mode: config.mode,
            caps: SessionCaps::default(),
            format: 0,
            modifier: None,
            pool_size: if config.pool_size >= 1 {
                config.pool_size
            } else {
                1
            },
            allowed_modifiers: copy_words(&config.allowed_modifiers),
            geometry_changed: false,
            has_dmabuf,
            open_device: None,
        }
    }

    /// After an event of the first negotiation.
    pub fn negotiation(state: &State) -> (r: Negotiation)
        ensures
            r == (if state.session_stopped {
                Negotiation::Stopped
            } else if state.session_done {
                Negotiation::Complete
            } else {
                Negotiation::Wait
            }),
    {
        if state.session_stopped {
            Negotiation::Stopped
        } else if state.session_done {
            Negotiation::Complete
        } else {
            Negotiation::Wait
        }
    }

    /// Let go of the pool and plan a new one from the current constraints. A
    /// device that is not the one wanted is let go of too.
    pub fn allocate_pool(&mut self) -> (r: Result<PoolPlan, PoolError>)
        requires
            old(self).wf(),
        ensures
            final(self).wf(),
            old(self).emptied(*final(self), r),
    {
        self.buffers = 0;
        let (width, height) = match self.state.caps.buffer_size {
            Some(size) => size,
            None => {
                return Err(PoolError::NoBufferSize);
            },
        };
        match self.mode {
            BufferMode::Shm => {
                let format: u32 = match pick_shm_format(&self.state.caps.shm_formats) {
                    Ok(format) => format,
                    Err(e) => {
                        return Err(e);
                    },
                };
                match ShmBuffer::new(width, height) {
                    Ok(buffer) => Ok(PoolPlan::Shm { buffer, format }),
                    Err(e) => Err(PoolError::Shm(e)),
                }
            },
            BufferMode::Dmabuf => {
                if !self.has_dmabuf {
                    return Err(PoolError::NoDmabufGlobal);
                }
                let (fourcc, modifiers) = match pick_dmabuf_format(
                    &self.state.caps.dmabuf_formats,
                    &self.allowed_modifiers,
                ) {
                    Ok(choice) => choice,
                    Err(e) => {
                        return Err(e);
                    },
                };
                let device: u64 = match self.state.caps.dmabuf_device {
                    Some(device) => device,
                    None => {
                        return Err(PoolError::NoDmabufDevice);
                    },
                };
                let reuse = match self.open_device {
                    Some(open) => open == device,
                    None => false,
                };
                if !reuse {
                    self.open_device = None;
                }
                Ok(PoolPlan::Dmabuf { width, height, fourcc, modifiers, device, reuse })
            },
        }
    }

    /// Take over a pool that was made as planned. `modifier` is the one that
    /// the buffers have, where they have one.
    pub fn pool_allocated(&mut self, plan: &PoolPlan, modifier: Option<u64>)
        requires
            old(self).wf(),
        ensures
            final(self).wf(),
            old(self).filled(plan@, modifier, *final(self)),
    {
        self.buffers = self.pool_size;
        self.next_buffer = 0;
        self.caps = self.state.caps.copy();
        self.state.caps_consumed = true;
        match plan {
            PoolPlan::Shm { buffer, format } => {
                self.width = buffer.width;
                self.height = buffer.height;
                self.format = *format;
                self.modifier = None;
            },
            PoolPlan::Dmabuf { width, height, fourcc, device, .. } => {
                self.width = *width;
                self.height = *height;
                self.format = *fourcc;
                self.modifier = modifier;
                self.open_device = Some(*device);
            },
        }
    }

    /// What to do while new constraints come in. Waiting for them to be
    /// complete again is what keeps in step with the compositor: the first of
    /// them marks them as incomplete.
    pub fn renegotiate(&self, now: u64, deadline: u64) -> (r: Negotiation)
        ensures
            r == self.renegotiation(now, deadline),
    {
        if self.state.session_done {
            Negotiation::Complete
        } else if self.state.session_stopped {
            Negotiation::Stopped
        } else if now > deadline {
            Negotiation::TimedOut
        } else {
            Negotiation::Wait
        }
    }

    /// After a new pool: a change of format is absorbed, a change of size is
    /// not, since the encoder and the device's decoder are set up for the old
    /// size and neither is told.
    pub fn renegotiated(&mut self, old_width: u32, old_height: u32) -> (r: Result<
        (),
        GeometryChanged,
    >)
        ensures
            old(self).wf() ==> final(self).wf(),
            old(self).compared(old_width, old_height, *final(self), r),
    {
        if self.width != old_width || self.height != old_height {
            self.geometry_changed = true;
            return Err(
                GeometryChanged { old_width, old_height, width: self.width, height: self.height },
            );
        }
        Ok(())
    }

    /// True when the session ended because the output was resized under us.
    pub fn geometry_changed(&self) -> (r: bool)
        ensures
            r == self.geometry_changed,
    {
        self.geometry_changed
    }

    /// The buffer to capture the next frame into. The buffers take turns.
    pub fn begin_frame(&mut self) -> (r: Result<usize, CaptureError>)
        requires
            old(self).wf(),
        ensures
            final(self).wf(),
            old(self).began(*final(self), r),
    {
        if self.state.session_stopped {
            return Err(CaptureError::Stopped);
        }
        if self.buffers == 0 {
            return Err(CaptureError::EmptyPool);
        }
        let index: usize = self.next_buffer;
        self.next_buffer = if index + 1 == self.buffers {
            0
        } else {
            index + 1
        };
        assert(self.next_buffer == (index + 1) % (self.buffers as int)) by (nonlinear_arith)
            requires
                index < self.buffers,
                self.next_buffer == (if index + 1 == self.buffers {
                    0
                } else {
                    index + 1
                }),
        ;
        self.state.frame_ready = false;
        self.state.frame_failed = None;
        self.state.frame_failed_raw = None;
        self.state.presentation_ns = None;
        Ok(index)
    }

    /// Whether the frame is ready or has failed.
    pub fn frame_settled(&self) -> (r: bool)
        ensures
            r == self.state@.settled(),
    {
        self.state.frame_ready || self.state.frame_failed.is_some()
            || self.state.frame_failed_raw.is_some()
    }

    /// What came of a frame.
    pub open spec fn frame_result(
        self,
        buffer_index: usize,
        latency: u64,
        received_ns: u64,
    ) -> Result<FrameTiming, CaptureError> {
        match self.state.frame_failed {
            Some(FailureReason::BufferConstraints) => Err(CaptureError::BufferConstraints),
            Some(FailureReason::Stopped) => Err(CaptureError::Stopped),
            Some(FailureReason::Unknown) => Err(CaptureError::Failed),
            None => match self.state.frame_failed_raw {
                Some(raw) => Err(CaptureError::UnknownReason(raw)),
                None => Ok(
                    FrameTiming {
                        latency,
                        presentation_ns: self.state.presentation_ns,
                        age: match self.state.presentation_ns {
                            Some(p) => Some(
                                if received_ns >= p {
                                    (received_ns - p) as u64
                                } else {
                                    0
                                },
                            ),
                            None => None,
                        },
                        buffer_index,
                    },
                ),
            },
        }
    }

    /// What came of the frame that was captured into a buffer.
    pub fn try_capture_frame(&self, buffer_index: usize, latency: u64, received_ns: u64) -> (r:
        Result<FrameTiming, CaptureError>)
        requires
            self.state@.settled(),
        ensures
            r == self.frame_result(buffer_index, latency, received_ns),
    {
        match self.state.frame_failed {
            Some(FailureReason::BufferConstraints) => {
                return Err(CaptureError::BufferConstraints);
            },
            Some(FailureReason::Stopped) => {
                return Err(CaptureError::Stopped);
            },
            Some(FailureReason::Unknown) => {
                return Err(CaptureError::Failed);
            },
            None => {},
        }
        match self.state.frame_failed_raw {
            Some(raw) => {
                return Err(CaptureError::UnknownReason(raw));
            },
            None => {},
        }
        let age: Option<u64> = match self.state.presentation_ns {
            Some(p) => Some(received_ns.saturating_sub(p)),
            None => None,
        };
        Ok(
            FrameTiming {
                latency,
                presentation_ns: self.state.presentation_ns,
                age,
                buffer_index,
            },
        )
    }

    /// What to do after an attempt to capture a frame. Changed constraints are
    /// no error the first time: the protocol says to make new buffers and try
    /// again.
    pub fn capture_frame(attempt: Result<FrameTiming, CaptureError>, retried: bool) -> (r:
        AfterAttempt)
        ensures
            r == (match attempt {
                Ok(timing) => AfterAttempt::Return(timing),
                Err(CaptureError::BufferConstraints) if !retried => AfterAttempt::Renegotiate,
                Err(e) => AfterAttempt::Fail(e),
            }),
    {
        match attempt {
            Ok(timing) => AfterAttempt::Return(timing),
            Err(CaptureError::BufferConstraints) => {
                if retried {
                    AfterAttempt::Fail(CaptureError::BufferConstraints)
                } else {
                    AfterAttempt::Renegotiate
                }
            },
            Err(e) => AfterAttempt::Fail(e),
        }
    }

    /// The modifier of the frames; the linear one where they have none.
    pub fn modifier(&self) -> (r: u64)
        ensures
            r == match self.modifier {
                Some(m) => m,
                None => 0,
            },
    {
        match self.modifier {
            Some(m) => m,
            None => 0,
        }
    }
}

// -------------------------------------------------------------------- laws ---

/// Once a pool has been made, the first constraint that comes in, of whatever
/// kind, starts over: nothing of the old set is left, and the new set is not
/// complete before the compositor says so again.
pub proof fn first_constraint_starts_over(s: StateView, a: Announcement)
    requires
        s.caps_consumed,
        a is BufferSize || a is ShmFormat || a is DmabufDevice || a is DmabufFormat,
    ensures
        !s.told(a).session_done,
        !s.told(a).caps_consumed,
        s.told(a) == (StateView {
            caps: no_caps(),
            caps_consumed: false,
            session_done: false,
            ..s
        }).told(a),
{
}

/// Constraints of one set accumulate, in whatever order they come.
pub proof fn constraints_accumulate(s: StateView, size: (u32, u32), format: u32)
    requires
        !s.caps_consumed,
    ensures
        s.told(Announcement::BufferSize(size.0, size.1)).told(
            Announcement::ShmFormat(Some(format)),
        ) == s.told(Announcement::ShmFormat(Some(format))).told(
            Announcement::BufferSize(size.0, size.1),
        ),
{
}

/// The format that is chosen is one that both sides can handle: it is offered,
/// and where the consumer restricts modifiers the one chosen is both allowed
/// and offered, and every modifier that the consumer likes better is not
/// offered with that format.
pub proof fn chosen_format_suits_both(
    formats: Seq<(u32, Seq<u64>)>,
    allowed: Seq<u64>,
    fourcc: u32,
    modifiers: Seq<u64>,
)
    requires
        dmabuf_choice(formats, allowed) == Ok::<(u32, Seq<u64>), PoolError>((fourcc, modifiers)),
    ensures
        fourcc == XR24 || fourcc == AR24,
        offered_with(formats, fourcc) is Some,
        allowed.len() == 0 ==> modifiers == offered_with(formats, fourcc)->0,
        allowed.len() > 0 ==> modifiers.len() == 1 && exists|i: int|
            0 <= i < allowed.len() && #[trigger] allowed[i] == modifiers[0] && offered_with(
                formats,
                fourcc,
            )->0.contains(allowed[i]) && forall|j: int|
                0 <= j < i ==> !offered_with(formats, fourcc)->0.contains(#[trigger] allowed[j]),
{
    if allowed.len() > 0 {
        let offered = offered_with(formats, fourcc)->0;
        lemma_first_shared(allowed, offered);
    }
}

proof fn lemma_first_shared(allowed: Seq<u64>, offered: Seq<u64>)
    ensures
        first_shared(allowed, offered) matches Some(m) ==> exists|i: int|
            0 <= i < allowed.len() && #[trigger] allowed[i] == m && offered.contains(allowed[i])
                && forall|j: int| 0 <= j < i ==> !offered.contains(#[trigger] allowed[j]),
        first_shared(allowed, offered) is None ==> forall|i: int|
            0 <= i < allowed.len() ==> !offered.contains(#[trigger] allowed[i]),
    decreases allowed.len(),
{
    if allowed.len() > 0 && !offered.contains(allowed[0]) {
        let rest = allowed.skip(1);
        lemma_first_shared(rest, offered);
        match first_shared(rest, offered) {
            Some(m) => {
                let i = choose|i: int|
                    0 <= i < rest.len() && #[trigger] rest[i] == m && offered.contains(rest[i])
                        && forall|j: int| 0 <= j < i ==> !offered.contains(#[trigger] rest[j]);
                assert(allowed[i + 1] == m);
                assert forall|j: int| 0 <= j < i + 1 implies !offered.contains(
                    #[trigger] allowed[j],
                ) by {
                    if j > 0 {
                        assert(rest[j - 1] == allowed[j]);
                    }
                }
            },
            None => {
                assert forall|i: int| 0 <= i < allowed.len() implies !offered.contains(
                    #[trigger] allowed[i],
                ) by {
                    if i > 0 {
                        assert(rest[i - 1] == allowed[i]);
                    }
                }
            },
        }
    }
}

/// Every buffer of the pool has its turn: the one used `n` captures later.
pub open spec fn turn_after(next_buffer: int, buffers: int, n: nat) -> int
    decreases n,
{
    if n == 0 {
        next_buffer
    } else {
        (turn_after(next_buffer, buffers, (n - 1) as nat) + 1) % buffers
    }
}

/// The buffers take turns: the same one comes up again after as many captures
/// as there are buffers, and not before.
pub proof fn buffers_take_turns(next_buffer: int, buffers: int, n: nat)
    requires
        0 <= next_buffer < buffers,
    ensures
        turn_after(next_buffer, buffers, n) == (next_buffer + n) % buffers,
        0 < n < buffers ==> turn_after(next_buffer, buffers, n) != next_buffer,
        n == buffers ==> turn_after(next_buffer, buffers, n) == next_buffer,
    decreases n,
{
    if n > 0 {
        buffers_take_turns(next_buffer, buffers, (n - 1) as nat);
        vstd::arithmetic::div_mod::lemma_add_mod_noop(next_buffer + (n - 1), 1, buffers);
        if buffers > 1 {
            vstd::arithmetic::div_mod::lemma_small_mod(1, buffers as nat);
        }
        assert(turn_after(next_buffer, buffers, n) == (next_buffer + n) % buffers) by {
            if buffers == 1 {
                vstd::arithmetic::div_mod::lemma_mod_bound(next_buffer + n, 1);
                vstd::arithmetic::div_mod::lemma_mod_bound(
                    turn_after(next_buffer, buffers, (n - 1) as nat) + 1,
                    1,
                );
            }
        }
    } else {
        vstd::arithmetic::div_mod::lemma_small_mod(next_buffer as nat, buffers as nat);
    }
    if n == buffers {
        vstd::arithmetic::div_mod::lemma_mod_add_multiples_vanish(next_buffer, buffers);
        vstd::arithmetic::div_mod::lemma_small_mod(next_buffer as nat, buffers as nat);
    }
    if 0 < n < buffers {
        if next_buffer + n < buffers {
            vstd::arithmetic::div_mod::lemma_small_mod((next_buffer + n) as nat, buffers as nat);
        } else {
            let rest = next_buffer + n - buffers;
            vstd::arithmetic::div_mod::lemma_mod_add_multiples_vanish(rest, buffers);
            vstd::arithmetic::div_mod::lemma_small_mod(rest as nat, buffers as nat);
        }
    }
}

/// Whether an entry is the first for a format: the one that counts.
pub open spec fn first_for(formats: Seq<(u32, Seq<u64>)>, i: int, code: u32) -> bool {
    &&& 0 <= i < formats.len() && formats[i].0 == code
    &&& forall|j: int| 0 <= j < i ==> (#[trigger] formats[j]).0 != code
}

/// Whether a modifier is allowed, is offered by an entry, and is the one that the
/// consumer likes best of those.
pub open spec fn best_of(allowed: Seq<u64>, k: int, offered: Seq<u64>) -> bool {
    &&& 0 <= k < allowed.len() && offered.contains(allowed[k])
    &&& forall|j: int| 0 <= j < k ==> !offered.contains(#[trigger] allowed[j])
}

/// Whether some allowed modifier is offered with a format.
pub open spec fn has_shared(
    formats: Seq<(u32, Seq<u64>)>,
    allowed: Seq<u64>,
    code: u32,
) -> bool {
    exists|i: int, k: int|
        first_for(formats, i, code) && 0 <= k < allowed.len() && (#[trigger] formats[i]).1.contains(
            #[trigger] allowed[k],
        )
}

proof fn lemma_offered(formats: Seq<(u32, Seq<u64>)>, i: int, code: u32)
    requires
        first_for(formats, i, code),
    ensures
        offered_with(formats, code) == Some(formats[i].1),
    decreases formats.len(),
{
    if i > 0 {
        let rest = formats.skip(1);
        assert(rest[i - 1] == formats[i]);
        assert forall|j: int| 0 <= j < i - 1 implies (#[trigger] rest[j]).0 != code by {
            assert(rest[j] == formats[j + 1]);
        }
        assert(formats[0].0 != code);
        lemma_offered(rest, i - 1, code);
    }
}

proof fn lemma_not_offered(formats: Seq<(u32, Seq<u64>)>, code: u32) -> (i: int)
    ensures
        offered_with(formats, code) is Some ==> first_for(formats, i, code),
        offered_with(formats, code) is None ==> forall|j: int|
            0 <= j < formats.len() ==> (#[trigger] formats[j]).0 != code,
    decreases formats.len(),
{
    if formats.len() == 0 {
        0
    } else if formats[0].0 == code {
        0
    } else {
        let rest = formats.skip(1);
        let i = lemma_not_offered(rest, code);
        if offered_with(formats, code) is Some {
            assert(rest[i] == formats[i + 1]);
            assert forall|j: int| 0 <= j < i + 1 implies (#[trigger] formats[j]).0 != code by {
                if j > 0 {
                    assert(rest[j - 1] == formats[j]);
                }
            }
        } else {
            assert forall|j: int| 0 <= j < formats.len() implies (#[trigger] formats[j]).0
                != code by {
                if j > 0 {
                    assert(rest[j - 1] == formats[j]);
                }
            }
        }
        i + 1
    }
}

proof fn lemma_best(allowed: Seq<u64>, k: int, offered: Seq<u64>)
    requires
        best_of(allowed, k, offered),
    ensures
        first_shared(allowed, offered) == Some(allowed[k]),
    decreases allowed.len(),
{
    if k > 0 {
        let rest = allowed.skip(1);
        assert(!offered.contains(allowed[0]));
        assert(rest[k - 1] == allowed[k]);
        assert forall|j: int| 0 <= j < k - 1 implies !offered.contains(#[trigger] rest[j]) by {
            assert(rest[j] == allowed[j + 1]);
        }
        lemma_best(rest, k - 1, offered);
    }
}

/// Where the compositor offers XR24, or else AR24, with a modifier that the
/// consumer takes, that format is chosen, with the one of those modifiers that
/// the consumer likes best and no other.
pub proof fn shared_modifiers_are_chosen(
    formats: Seq<(u32, Seq<u64>)>,
    allowed: Seq<u64>,
    i: int,
    k: int,
    code: u32,
)
    requires
        code == 0x34325258 || code == 0x34325241 && !has_shared(formats, allowed, 0x34325258),
        first_for(formats, i, code),
        best_of(allowed, k, formats[i].1),
    ensures
        dmabuf_choice(formats, allowed) == Ok::<(u32, Seq<u64>), PoolError>(
            (code, seq![allowed[k]]),
        ),
{
    lemma_offered(formats, i, code);
    lemma_best(allowed, k, formats[i].1);
    if code != 0x34325258 {
        let x = lemma_not_offered(formats, XR24);
        if offered_with(formats, XR24) is Some {
            lemma_offered(formats, x, XR24);
            lemma_first_shared(allowed, formats[x].1);
            if first_shared(allowed, formats[x].1) is Some {
                let m = choose|m: int|
                    0 <= m < allowed.len() && formats[x].1.contains(#[trigger] allowed[m]);
                assert(formats[x].1.contains(allowed[m]));
                assert(has_shared(formats, allowed, 0x34325258));
            }
        }
    }
}

/// The choice fails for want of a common modifier only where there is none: no
/// allowed modifier is offered with either format.
pub proof fn refusals_are_for_want_of_a_modifier(
    formats: Seq<(u32, Seq<u64>)>,
    allowed: Seq<u64>,
)
    ensures
        dmabuf_choice(formats, allowed) is Ok <==> if allowed.len() > 0 {
            has_shared(formats, allowed, 0x34325258) || has_shared(formats, allowed, 0x34325241)
        } else {
            exists|i: int|
                0 <= i < formats.len() && ((#[trigger] formats[i]).0 == 0x34325258 || formats[i].0
                    == 0x34325241)
        },
        dmabuf_choice(formats, allowed) is Ok && has_shared(formats, allowed, 0x34325258) ==> (
        dmabuf_choice(formats, allowed)->Ok_0).0 == 0x34325258,
        dmabuf_choice(formats, allowed) matches Err(e) ==> e == if allowed.len() > 0 {
            PoolError::NoSharedModifier
        } else {
            PoolError::NoDmabufFormat
        },
{
    let x = lemma_not_offered(formats, XR24);
    let a = lemma_not_offered(formats, AR24);
    if offered_with(formats, XR24) is Some {
        lemma_offered(formats, x, XR24);
        lemma_first_shared(allowed, formats[x].1);
    }
    if offered_with(formats, AR24) is Some {
        lemma_offered(formats, a, AR24);
        lemma_first_shared(allowed, formats[a].1);
    }
    lemma_shared(formats, allowed, XR24);
    lemma_shared(formats, allowed, AR24);
}

proof fn lemma_shared(formats: Seq<(u32, Seq<u64>)>, allowed: Seq<u64>, code: u32)
    ensures
        has_shared(formats, allowed, code) <==> (offered_with(formats, code) matches Some(offered)
            && first_shared(allowed, offered) is Some),
{
    let x = lemma_not_offered(formats, code);
    if offered_with(formats, code) is Some {
        lemma_offered(formats, x, code);
        lemma_first_shared(allowed, formats[x].1);
        if first_shared(allowed, formats[x].1) is Some {
            let m = choose|m: int|
                0 <= m < allowed.len() && formats[x].1.contains(#[trigger] allowed[m]);
            assert(formats[x].1.contains(allowed[m]));
        }
    }
    if has_shared(formats, allowed, code) {
        let (i, k) = choose|i: int, k: int|
            first_for(formats, i, code) && 0 <= k < allowed.len() && (
            #[trigger] formats[i]).1.contains(#[trigger] allowed[k]);
        lemma_offered(formats, i, code);
        lemma_first_shared(allowed, formats[i].1);
    }
}

/// Where any modifier will do, all those that are offered with the format are
/// kept, and XR24 comes before AR24.
pub proof fn unrestricted_choice_keeps_the_offer(formats: Seq<(u32, Seq<u64>)>, i: int, code: u32)
    requires
        first_for(formats, i, code),
        code == 0x34325258 || code == 0x34325241 && forall|j: int|
            0 <= j < formats.len() ==> (#[trigger] formats[j]).0 != 0x34325258,
    ensures
        dmabuf_choice(formats, Seq::empty()) == Ok::<(u32, Seq<u64>), PoolError>(
            (code, formats[i].1),
        ),
{
    lemma_offered(formats, i, code);
    let x = lemma_not_offered(formats, XR24);
}

/// In shared memory the format without alpha comes first, then the one with it,
/// and no other will do.
pub proof fn shm_formats_are_chosen(formats: Seq<u32>)
    ensures
        formats.contains(1u32) ==> shm_choice(formats) == Ok::<u32, PoolError>(1),
        !formats.contains(1u32) && formats.contains(0u32) ==> shm_choice(formats) == Ok::<
            u32,
            PoolError,
        >(0),
        !formats.contains(1u32) && !formats.contains(0u32) ==> shm_choice(formats) == Err::<
            u32,
            PoolError,
        >(PoolError::NoShmFormat),
{
}

/// What the compositor says is kept as it was said, next to what it said before.
pub proof fn constraints_are_kept(s: StateView, a: Announcement)
    requires
        !s.caps_consumed,
    ensures
        ({
            let t = s.told(a).caps;
            &&& t.buffer_size == if a is BufferSize {
                Some((a->BufferSize_0, a->BufferSize_1))
            } else {
                s.caps.buffer_size
            }
            &&& t.shm_formats == match a {
                Announcement::ShmFormat(Some(f)) => s.caps.shm_formats.push(f),
                _ => s.caps.shm_formats,
            }
            &&& t.dmabuf_formats == if a is DmabufFormat {
                s.caps.dmabuf_formats.push((a->DmabufFormat_0, a->DmabufFormat_1@))
            } else {
                s.caps.dmabuf_formats
            }
            &&& a matches Announcement::DmabufDevice(words) ==> words@.len() > 0
                ==> t.dmabuf_device == Some(words@[0])
            &&& !(a is DmabufDevice) ==> t.dmabuf_device == s.caps.dmabuf_device
            &&& s.told(a).session_done == (s.session_done || a is Done)
            &&& s.told(a).session_stopped == (s.session_stopped || a is Stopped)
            &&& s.told(a).outputs == s.outputs
        }),
{
}

/// The pool that is planned has the size that the compositor asked for; in shared
/// memory its lines hold four bytes per pixel and nothing else.
pub proof fn pools_have_the_size_asked_for(
    caps: CapsView,
    mode: BufferMode,
    allowed: Seq<u64>,
    has_dmabuf: bool,
    open_device: Option<u64>,
)
    ensures
        planned(caps, mode, allowed, has_dmabuf, open_device) matches Ok(
            PlanView::Shm { buffer, format },
        ) ==> mode == BufferMode::Shm && caps.buffer_size == Some((buffer.width, buffer.height))
            && buffer.stride == 4 * buffer.width && caps.shm_formats.contains(format),
        planned(caps, mode, allowed, has_dmabuf, open_device) matches Ok(
            PlanView::Dmabuf { width, height, fourcc, modifiers, device, reuse },
        ) ==> mode == BufferMode::Dmabuf && caps.buffer_size == Some((width, height))
            && caps.dmabuf_device == Some(device) && dmabuf_choice(caps.dmabuf_formats, allowed)
            == Ok::<(u32, Seq<u64>), PoolError>((fourcc, modifiers)) && reuse == (open_device
            == Some(device)),
{
}

/// A pool can be planned wherever there is all that it needs.
pub proof fn pools_are_planned_where_they_can_be(
    caps: CapsView,
    mode: BufferMode,
    allowed: Seq<u64>,
    has_dmabuf: bool,
    open_device: Option<u64>,
    width: u32,
    height: u32,
)
    requires
        caps.buffer_size == Some((width, height)),
    ensures
        mode == BufferMode::Dmabuf ==> (planned(caps, mode, allowed, has_dmabuf, open_device) is Ok
            <==> has_dmabuf && caps.dmabuf_device is Some && dmabuf_choice(
            caps.dmabuf_formats,
            allowed,
        ) is Ok),
        mode == BufferMode::Shm ==> (planned(caps, mode, allowed, has_dmabuf, open_device) is Ok
            <==> (caps.shm_formats.contains(1u32) || caps.shm_formats.contains(0u32))
            && width * 4 * height < 0x1_0000_0000 && width * 4 < 0x1_0000_0000),
{
}

/// Once a pool has been planned and made, the session captures frames of the size,
/// the format and the modifier that it has, into all of its buffers; and the
/// constraints that it was made from are used up.
pub proof fn pools_are_taken_over(
    c: Capture,
    d: Capture,
    e: Capture,
    plan: PoolPlan,
    modifier: Option<u64>,
)
    requires
        c.emptied(d, Ok::<PoolPlan, PoolError>(plan)),
        d.filled(plan@, modifier, e),
    ensures
        d.buffers == 0,
        Some((e.width, e.height)) == c.state@.caps.buffer_size,
        e.buffers == c.pool_size && e.next_buffer == 0,
        e.caps@ == c.state@.caps,
        e.state@.caps_consumed,
        c.mode == BufferMode::Dmabuf ==> e.modifier == modifier && e.open_device
            == c.state@.caps.dmabuf_device && (e.format == 0x34325258 || e.format == 0x34325241),
        c.mode == BufferMode::Shm ==> e.modifier is None && c.state@.caps.shm_formats.contains(
            e.format,
        ),
        e.mode == c.mode && e.pool_size == c.pool_size && e.allowed_modifiers
            == c.allowed_modifiers && e.has_dmabuf == c.has_dmabuf,
{
}

/// Frames go into the buffers of the pool in turn: after one buffer comes the
/// next, and after the last the first; whatever was known of the frame before is
/// forgotten.
pub proof fn next_frame_takes_the_next_buffer(
    c: Capture,
    d: Capture,
    e: Capture,
    i: usize,
    j: usize,
)
    requires
        c.wf(),
        c.began(d, Ok::<usize, CaptureError>(i)),
        d.began(e, Ok::<usize, CaptureError>(j)),
    ensures
        i < c.buffers && j < c.buffers,
        i == c.next_buffer,
        j == if i + 1 < c.buffers {
            i + 1
        } else {
            0
        },
        !d.state@.settled(),
        d.state@.presentation_ns is None,
        d.width == c.width && d.height == c.height && d.format == c.format && d.modifier
            == c.modifier && d.buffers == c.buffers,
{
    assert((i + 1) % (c.buffers as int) == if i + 1 < c.buffers {
        i + 1
    } else {
        0
    }) by (nonlinear_arith)
        requires
            i < c.buffers,
    ;
}

/// A frame can be asked for wherever there is a pool and the session goes on.
pub proof fn frames_can_be_asked_for(c: Capture)
    ensures
        c.turn() is Ok <==> c.buffers > 0 && !c.state@.session_stopped,
        c.state@.session_stopped ==> c.turn() == Err::<usize, CaptureError>(CaptureError::Stopped),
{
}

/// A frame that became ready is handed back with the buffer it went into and the
/// time at which it was shown, and its age is what has passed since; one that
/// failed is handed back with the reason.
pub proof fn frames_are_handed_back(c: Capture, index: usize, latency: u64, received: u64)
    ensures
        c.frame_result(index, latency, received) is Ok <==> c.state.frame_failed is None
            && c.state.frame_failed_raw is None,
        c.frame_result(index, latency, received) matches Ok(t) ==> {
            &&& t.buffer_index == index && t.latency == latency
            &&& t.presentation_ns == c.state.presentation_ns
            &&& t.age is Some <==> t.presentation_ns is Some
            &&& t.presentation_ns matches Some(shown) ==> t.age->0 == if shown <= received {
                received - shown
            } else {
                0
            }
        },
        c.state.frame_failed == Some(FailureReason::BufferConstraints) <==> c.frame_result(
            index,
            latency,
            received,
        ) == Err::<FrameTiming, CaptureError>(CaptureError::BufferConstraints),
        c.state.frame_failed == Some(FailureReason::Stopped) <==> c.frame_result(
            index,
            latency,
            received,
        ) == Err::<FrameTiming, CaptureError>(CaptureError::Stopped),
{
}

/// The time at which a frame was shown is the sum of its parts: the high and the
/// low half of the seconds, and the nanoseconds.
pub proof fn presentation_times_add_up(s: StateView, hi: u32, lo: u32, nsec: u32)
    requires
        (hi * 4294967296 + lo) * 1_000_000_000 + nsec <= u64::MAX,
    ensures
        s.told_of_frame(
            FrameEvent::PresentationTime { tv_sec_hi: hi, tv_sec_lo: lo, tv_nsec: nsec },
        ).presentation_ns matches Some(t) && t == hi * 4294967296 * 1_000_000_000 + lo
            * 1_000_000_000 + nsec,
        countable(FrameEvent::PresentationTime { tv_sec_hi: hi, tv_sec_lo: lo, tv_nsec: nsec }),
{
}

/// A frame is settled once it is ready or has failed for any reason, and what was
/// said of it stays known.
pub proof fn frames_settle(s: StateView, event: FrameEvent)
    ensures
        s.told_of_frame(event).settled() <==> s.settled() || event is Ready || event is Failed
            || event is FailedUnknown,
        event matches FrameEvent::Failed(why) ==> s.told_of_frame(event).frame_failed == Some(why),
        event is Ready ==> s.told_of_frame(event).frame_ready && s.told_of_frame(event).frame_failed
            == s.frame_failed && s.told_of_frame(event).presentation_ns == s.presentation_ns,
        s.told_of_frame(event).caps == s.caps && s.told_of_frame(event).session_done
            == s.session_done && s.told_of_frame(event).session_stopped == s.session_stopped,
{
}

/// The output that is captured is the first with the wanted name.
pub proof fn wanted_outputs_are_found(names: Seq<Seq<char>>, wanted: Seq<char>)
    ensures
        names.contains(wanted) <==> position_of(names, wanted) < names.len(),
        position_of(names, wanted) >= 0,
        position_of(names, wanted) < names.len() ==> names[position_of(names, wanted)] == wanted,
        forall|j: int| 0 <= j < position_of(names, wanted) && j < names.len() ==> #[trigger] names[j]
            != wanted,
    decreases names.len(),
{
    if names.len() > 0 && names[0] != wanted {
        let rest = names.skip(1);
        wanted_outputs_are_found(rest, wanted);
        let p = position_of(rest, wanted);
        if p < rest.len() {
            assert(rest[p] == names[p + 1]);
            assert(names.contains(names[p + 1]));
        }
        if names.contains(wanted) {
            let k = names.index_of(wanted);
            assert(rest[k - 1] == wanted);
            assert(rest.contains(wanted));
        }
        assert forall|j: int| 0 <= j < p + 1 && j < names.len() implies #[trigger] names[j]
            != wanted by {
            if j > 0 {
                assert(rest[j - 1] == names[j]);
            }
        }
    } else if names.len() > 0 {
        assert(names.contains(names[0]));
    }
}

} // verus!
