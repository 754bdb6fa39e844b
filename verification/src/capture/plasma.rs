//! KDE Plasma capture backend.
//!
//! KWin implements no `ext-` or `wlr-` capture protocol. What it offers is
//! `zkde_screencast_unstable_v1`, whose `stream_virtual_output` request creates
//! a virtual output and returns a PipeWire node for it in a single call.
//!
//! The output's lifetime is that of its stream: closing the stream removes the
//! monitor. Points in time are nanoseconds on one monotonic clock.

use vstd::prelude::*;

use crate::capture::discovery::RegistryGlobal;
use crate::capture::XR24;
use crate::number::{decimal, push_decimal};
use crate::text::{joined, same_str, text_of};

verus! {

/// How the cursor is handled in the stream.
#[derive(Debug, Clone, Copy, PartialEq, Eq, Structural)]
pub enum CursorMode {
    /// No cursor in the stream.
    Hidden,
    /// Cursor composited into the frames. What a second monitor wants: the
    /// pointer has to be visible once it moves onto the tablet.
    Embedded,
    /// Cursor position sent as metadata, for the consumer to draw.
    Metadata,
}

impl CursorMode {
    /// The number that the protocol has for the mode.
    pub fn to_u32(self) -> (r: u32)
        ensures
            r == match self {
                CursorMode::Hidden => 1u32,
                CursorMode::Embedded => 2,
                CursorMode::Metadata => 4,
            },
    {
        match self {
            CursorMode::Hidden => 1,
            CursorMode::Embedded => 2,
            CursorMode::Metadata => 4,
        }
    }
}

/// The name of the global.
pub const INTERFACE: &'static str = "zkde_screencast_unstable_v1";

/// `stream_virtual_output` arrived in version 2; nothing below that is usable.
pub const MIN_VERSION: u32 = 2;

pub const MAX_VERSION: u32 = 6;

/// `stream_virtual_output_with_description` arrived in version 4.
pub const DESCRIPTION_SINCE: u32 = 4;

/// How long KWin gets to answer.
pub const CREATE_TIMEOUT_NS: u64 = 5_000_000_000;

/// How long to wait before looking for an output again.
pub const FIND_PAUSE_MS: u64 = 100;

/// Whether the request takes a description. The plain request is the poorer
/// one, so the other is preferred wherever there is one.
pub fn takes_description(version: u32) -> (r: bool)
    ensures
        r == (version >= DESCRIPTION_SINCE),
{
    version >= DESCRIPTION_SINCE
}

// ------------------------------------------------------------------ stream ---

/// What KWin says of a stream.
#[derive(Debug)]
pub enum StreamEvent {
    Created(u32),
    Serial { object_serial_hi: u32, object_serial_low: u32 },
    Failed(String),
    Closed,
}

/// What KWin has said so far.
#[derive(Debug)]
pub struct StreamState {
    pub node_id: Option<u32>,
    /// Preferred over `node_id`: node ids are recycled.
    pub object_serial: Option<u64>,
    pub failed: Option<String>,
    pub closed: bool,
}

pub ghost struct StreamView {
    pub node_id: Option<u32>,
    pub object_serial: Option<u64>,
    pub failed: Option<Seq<char>>,
    pub closed: bool,
}

impl View for StreamState {
    type V = StreamView;

    open spec fn view(&self) -> StreamView {
        StreamView {
            node_id: self.node_id,
            object_serial: self.object_serial,
            failed: text_of(self.failed),
            closed: self.closed,
        }
    }
}

impl StreamView {
    /// Whether KWin has said anything conclusive. From version 6 on, success is
    /// announced with both a node and a serial; before that with a node alone.
    /// Either proves it.
    pub open spec fn settled(self) -> bool {
        self.object_serial is Some || self.node_id is Some || self.failed is Some || self.closed
    }

    /// After KWin has said something.
    pub open spec fn told(self, event: StreamEvent) -> StreamView {
        match event {
            StreamEvent::Created(node) => StreamView { node_id: Some(node), ..self },
            StreamEvent::Serial { object_serial_hi, object_serial_low } => StreamView {
                object_serial: Some(
                    (object_serial_hi * 0x1_0000_0000 + object_serial_low) as u64,
                ),
                ..self
            },
            StreamEvent::Failed(error) => StreamView { failed: Some(error@), ..self },
            StreamEvent::Closed => StreamView { closed: true, ..self },
        }
    }
}

/// Where the wait for an answer stands.
#[derive(Debug)]
pub enum Settle {
    /// Wait for the next event.
    Wait,
    /// The time is up: close the stream and give up.
    TimedOut,
    /// KWin said no, for this reason.
    Refused(String),
    /// KWin closed the stream before it was there.
    Closed,
    Ready,
}

impl StreamState {
    pub fn new() -> (r: Self)
        ensures
            r@ == (StreamView { node_id: None, object_serial: None, failed: None, closed: false }),
    {
        StreamState { node_id: None, object_serial: None, failed: None, closed: false }
    }

    pub fn on_event(&mut self, event: StreamEvent)
        ensures
            final(self)@ == old(self)@.told(event),
    {
        match event {
            StreamEvent::Created(node) => {
                self.node_id = Some(node);
            },
            StreamEvent::Serial { object_serial_hi, object_serial_low } => {
                self.object_serial = Some(
                    object_serial_hi as u64 * 0x1_0000_0000 + object_serial_low as u64,
                );
            },
            StreamEvent::Failed(error) => {
                self.failed = Some(error);
            },
            StreamEvent::Closed => {
                self.closed = true;
            },
        }
    }

    /// Whether KWin has said anything conclusive.
    pub fn settled(&self) -> (r: bool)
        ensures
            r == self@.settled(),
    {
        self.object_serial.is_some() || self.node_id.is_some() || self.failed.is_some()
            || self.closed
    }

    /// What to do about the answer.
    pub fn settle(&self, now: u64, deadline: u64) -> (r: Settle)
        ensures
            match self@ {
                s if !s.settled() => if now >= deadline {
                    r is TimedOut
                } else {
                    r is Wait
                },
                StreamView { failed: Some(error), .. } => r matches Settle::Refused(e) && e@
                    == error,
                StreamView { closed: true, .. } => r is Closed,
                _ => r is Ready,
            },
    {
        if !self.settled() {
            if now >= deadline {
                return Settle::TimedOut;
            }
            return Settle::Wait;
        }
        match &self.failed {
            Some(error) => {
                return Settle::Refused(error.clone());
            },
            None => {},
        }
        if self.closed {
            return Settle::Closed;
        }
        Settle::Ready
    }
}

/// A KWin virtual output and its PipeWire stream.
#[derive(Debug)]
pub struct PlasmaVirtualOutput {
    pub name: String,
    /// Node id as of when the stream was ready; may be missing from version 6
    /// on.
    pub node_id: Option<u32>,
    pub state: StreamState,
}

/// KWin named neither a serial nor a node, and did not fail.
#[derive(Debug, Clone, Copy, PartialEq, Eq, Structural)]
pub struct NoIdentity;

impl PlasmaVirtualOutput {
    /// The output of a stream that is ready.
    pub fn create(name: &str, state: StreamState) -> (r: Result<Self, NoIdentity>)
        ensures
            r is Err <==> state.node_id is None && state.object_serial is None,
            r matches Ok(output) ==> output.name@ == name@ && output.node_id == state.node_id
                && output.state == state,
    {
        if state.node_id.is_none() && state.object_serial.is_none() {
            return Err(NoIdentity);
        }
        Ok(PlasmaVirtualOutput { name: String::from_str(name), node_id: state.node_id, state })
    }

    /// The stream of an **existing** output, which mirrors a display that is
    /// there already. It is a diagnostic.
    pub fn mirror(output_name: &str, state: StreamState) -> (r: Self)
        ensures
            r.name@ == output_name@,
            r.node_id == state.node_id,
            r.state == state,
    {
        PlasmaVirtualOutput {
            name: String::from_str(output_name),
            node_id: state.node_id,
            state,
        }
    }

    /// PipeWire node carrying this output's frames, if KWin named one.
    pub fn node_id(&self) -> (r: Option<u32>)
        ensures
            r == self.node_id,
    {
        self.node_id
    }

    /// PipeWire object serial, when KWin is new enough to send one.
    pub fn object_serial(&self) -> (r: Option<u64>)
        ensures
            r == self.state.object_serial,
    {
        self.state.object_serial
    }

    pub fn name(&self) -> (r: &str)
        ensures
            r@ == self.name@,
    {
        self.name.as_str()
    }

    /// False once KWin has closed the stream, which is how an output that was
    /// removed from outside is noticed.
    pub fn poll(&self) -> (r: bool)
        ensures
            r == !self.state.closed,
    {
        !self.state.closed
    }

    /// What the consumer connects to: the serial, which linking goes by, or
    /// else the node.
    pub fn target(&self) -> (r: Result<String, NoIdentity>)
        ensures
            match (self.state.object_serial, self.node_id) {
                (Some(serial), _) => r matches Ok(t) && t@ == decimal(serial as nat),
                (None, Some(node)) => r matches Ok(t) && t@ == decimal(node as nat),
                (None, None) => r is Err,
            },
    {
        let id: u64 = match self.state.object_serial {
            Some(serial) => serial,
            None => match self.node_id {
                Some(node) => node as u64,
                None => {
                    return Err(NoIdentity);
                },
            },
        };
        let mut out = String::new();
        push_decimal(&mut out, id);
        assert(out@ =~= decimal(id as nat));
        Ok(out)
    }
}

/// What a stream says of itself, and the node that it is to be linked with:
/// without that it would be linked with the first that comes along.
pub fn stream_properties(target: &str) -> (r: Vec<(String, String)>)
    ensures
        r@.map_values(|p: (String, String)| (p.0@, p.1@)) == seq![
            ("media.type"@, "Video"@),
            ("media.category"@, "Capture"@),
            ("media.role"@, "Screen"@),
            ("target.object"@, target@),
        ],
{
    let mut out: Vec<(String, String)> = Vec::new();
    out.push((String::from_str("media.type"), String::from_str("Video")));
    out.push((String::from_str("media.category"), String::from_str("Capture")));
    out.push((String::from_str("media.role"), String::from_str("Screen")));
    out.push((String::from_str("target.object"), String::from_str(target)));
    assert(out@.map_values(|p: (String, String)| (p.0@, p.1@)) =~= seq![
        ("media.type"@, "Video"@),
        ("media.category"@, "Capture"@),
        ("media.role"@, "Screen"@),
        ("target.object"@, target@),
    ]);
    out
}

/// A stream that is ready has an identity, so that the consumer has something
/// to connect to.
pub proof fn ready_streams_have_a_target(s: StreamView)
    requires
        s.settled(),
        s.failed is None,
        !s.closed,
    ensures
        s.object_serial is Some || s.node_id is Some,
{
}

/// What KWin says later never takes back that it has answered.
pub proof fn answers_stand(s: StreamView, event: StreamEvent)
    ensures
        s.told(event).settled(),
        s.closed ==> s.told(event).closed,
        s.failed is Some ==> s.told(event).failed is Some,
{
}

// ----------------------------------------------------------------- outputs ---

/// The outputs that say their name: version 4 or later.
pub open spec fn named_outputs(globals: Seq<RegistryGlobal>) -> Seq<u32>
    decreases globals.len(),
{
    if globals.len() == 0 {
        Seq::empty()
    } else {
        let earlier = named_outputs(globals.drop_last());
        let g = globals.last();
        if g.interface@ == "wl_output"@ && g.version >= 4 {
            earlier.push(g.name)
        } else {
            earlier
        }
    }
}

/// The outputs to bind, at version 4, when looking for one by its name.
pub fn outputs_to_bind(globals: &Vec<RegistryGlobal>) -> (r: Vec<u32>)
    ensures
        r@ == named_outputs(globals@),
{
    let mut out: Vec<u32> = Vec::new();
    let mut i: usize = 0;
    while i < globals.len()
        invariant
            i <= globals@.len(),
            out@ == named_outputs(globals@.take(i as int)),
        decreases globals@.len() - i,
    {
        assert(globals@.take(i + 1).drop_last() =~= globals@.take(i as int));
        if same_str(globals[i].interface.as_str(), "wl_output") && globals[i].version >= 4 {
            out.push(globals[i].name);
        }
        i += 1;
    }
    assert(globals@.take(i as int) =~= globals@);
    out
}

/// Where the search for an output stands.
#[derive(Debug, Clone, Copy, PartialEq, Eq, Structural)]
pub enum Found {
    At(usize),
    /// Not yet: look again.
    Again,
    TimedOut,
}

/// Whether an output has told the wanted name.
pub open spec fn has_name(name: Option<String>, wanted: Seq<char>) -> bool {
    text_of(name) == Some(wanted)
}

/// Look for an output among the names that have been told. It may trail a
/// request by a beat, so it is looked for until the time is up.
pub fn find_output(names: &Vec<Option<String>>, wanted: &str, now: u64, deadline: u64) -> (r: Found)
    ensures
        match r {
            Found::At(i) => {
                &&& i < names@.len()
                &&& has_name(names@[i as int], wanted@)
                &&& forall|j: int| 0 <= j < i ==> !has_name(#[trigger] names@[j], wanted@)
            },
            Found::Again => {
                &&& now < deadline
                &&& forall|j: int| 0 <= j < names@.len() ==> !has_name(#[trigger] names@[j], wanted@)
            },
            Found::TimedOut => {
                &&& now >= deadline
                &&& forall|j: int| 0 <= j < names@.len() ==> !has_name(#[trigger] names@[j], wanted@)
            },
        },
{
    let mut i: usize = 0;
    while i < names.len()
        invariant
            i <= names@.len(),
            forall|j: int| 0 <= j < i ==> !has_name(#[trigger] names@[j], wanted@),
        decreases names@.len() - i,
    {
        match &names[i] {
            Some(name) => {
                if same_str(name.as_str(), wanted) {
                    return Found::At(i);
                }
            },
            None => {},
        }
        i += 1;
    }
    if now >= deadline {
        Found::TimedOut
    } else {
        Found::Again
    }
}

// ---------------------------------------------------------------- pipewire ---

/// Negotiated stream format. The encoder is configured from this, not from what
/// was asked for, because KWin is free to ignore the size that was suggested.
#[derive(Debug, Clone, Copy, PartialEq, Eq, Structural)]
pub struct NegotiatedFormat {
    pub width: u32,
    pub height: u32,
    pub fourcc: u32,
    pub modifier: u64,
    pub stride: u32,
    pub offset: u32,
}

impl Default for NegotiatedFormat {
    fn default() -> (r: Self)
        ensures
            r == (NegotiatedFormat {
                width: 0,
                height: 0,
                fourcc: 0,
                modifier: 0,
                stride: 0,
                offset: 0,
            }),
    {
        NegotiatedFormat { width: 0, height: 0, fourcc: 0, modifier: 0, stride: 0, offset: 0 }
    }
}

/// The number of the video format that stands for "as DRM has it".
pub const SPA_VIDEO_FORMAT_DMA_DRM: u32 = 0x0c;

/// The video format that KWin settled on.
#[derive(Debug, Clone, Copy, PartialEq, Eq, Structural)]
pub struct VideoInfo {
    pub width: u32,
    pub height: u32,
    pub modifier: u64,
    /// The number of the format.
    pub format: u32,
}

impl NegotiatedFormat {
    /// After a parameter of the stream has changed. Only one that is the
    /// format, and describes raw video, says anything. The DRM format itself is
    /// not told; KWin offers only one for its virtual output.
    pub open spec fn changed(self, info: Option<VideoInfo>) -> NegotiatedFormat {
        match info {
            None => self,
            Some(i) => NegotiatedFormat {
                width: i.width,
                height: i.height,
                modifier: i.modifier,
                fourcc: if i.format == SPA_VIDEO_FORMAT_DMA_DRM {
                    XR24
                } else {
                    i.format
                },
                stride: if self.stride == 0 {
                    (i.width * 4) as u32
                } else {
                    self.stride
                },
                offset: if self.stride == 0 {
                    0
                } else {
                    self.offset
                },
            },
        }
    }

    /// Take in a changed parameter; `info` is there where it is the format and
    /// describes raw video.
    pub fn param_changed(&mut self, info: Option<VideoInfo>)
        requires
            info is Some && old(self).stride == 0 ==> info->0.width * 4 <= u32::MAX,
        ensures
            *final(self) == old(self).changed(info),
    {
        match info {
            None => {},
            Some(i) => {
                self.width = i.width;
                self.height = i.height;
                self.modifier = i.modifier;
                self.fourcc = if i.format == SPA_VIDEO_FORMAT_DMA_DRM {
                    XR24
                } else {
                    i.format
                };
                if self.stride == 0 {
                    self.stride = i.width * 4;
                    self.offset = 0;
                }
            },
        }
    }

    /// Whether a first frame has to be waited for before the format is known.
    pub fn wait_for_format(&self) -> (r: bool)
        ensures
            r == (self.width == 0),
    {
        self.width == 0
    }
}

/// What to do with a buffer that came in.
#[derive(Debug, Clone, Copy, PartialEq, Eq, Structural)]
pub enum BufferAction {
    /// Nothing to deliver.
    Skip,
    /// It is not backed by a file descriptor.
    NoFd,
    /// Duplicate the descriptor and deliver it as a frame.
    Deliver { offset: u32, stride: u32 },
}

/// What a buffer calls for: `fd` is the descriptor of its first block of data,
/// where there is one, and negative where that has none.
pub open spec fn buffer_action(fd: Option<i64>, format: NegotiatedFormat) -> BufferAction {
    match fd {
        None => BufferAction::Skip,
        Some(n) => if n < 0 {
            BufferAction::NoFd
        } else if format.width == 0 {
            BufferAction::Skip
        } else {
            BufferAction::Deliver { offset: format.offset, stride: format.stride }
        },
    }
}

/// What to do with a buffer that came in.
pub fn process(fd: Option<i64>, format: &NegotiatedFormat) -> (r: BufferAction)
    ensures
        r == buffer_action(fd, *format),
{
    match fd {
        None => BufferAction::Skip,
        Some(n) => {
            if n < 0 {
                BufferAction::NoFd
            } else if format.width == 0 {
                // Format negotiation has not completed yet.
                BufferAction::Skip
            } else {
                BufferAction::Deliver { offset: format.offset, stride: format.stride }
            }
        },
    }
}

/// What came of waiting for a frame.
#[derive(Debug, Clone, Copy, PartialEq, Eq, Structural)]
pub enum Received {
    Frame,
    Timeout,
    Disconnected,
}

/// What to do after waiting for a frame.
#[derive(Debug)]
pub enum NextFrame {
    Return,
    Again,
    Fail(String),
}

/// What to do after waiting for a frame, given the error that the stream has
/// run into, if any: so that a stream that died reports why.
pub fn next_frame(received: Received, error: Option<String>) -> (r: NextFrame)
    ensures
        match received {
            Received::Frame => r is Return,
            Received::Timeout => match error {
                Some(e) => r matches NextFrame::Fail(text) && text@ == "PipeWire stream failed: "@
                    + e@,
                None => r is Again,
            },
            Received::Disconnected => r matches NextFrame::Fail(text) && text@
                == "PipeWire stream ended"@,
        },
{
    match received {
        Received::Frame => NextFrame::Return,
        Received::Timeout => match error {
            Some(e) => NextFrame::Fail(joined("PipeWire stream failed: ", e.as_str())),
            None => NextFrame::Again,
        },
        Received::Disconnected => NextFrame::Fail(String::from_str("PipeWire stream ended")),
    }
}

/// No frame is delivered before a format has been told, whatever comes in.
pub proof fn frames_follow_the_format(fd: Option<i64>, format: NegotiatedFormat)
    requires
        format.width == 0,
    ensures
        !(buffer_action(fd, format) is Deliver),
        format.changed(None) == format,
{
}

/// What KWin says of a stream is kept as it was said: its node, its serial with the
/// high half first, its failure, its end.
pub proof fn streams_are_described(s: StreamView, event: StreamEvent)
    ensures
        ({
            let t = s.told(event);
            &&& event matches StreamEvent::Created(n) ==> t.node_id == Some(n)
            &&& !(event is Created) ==> t.node_id == s.node_id
            &&& event matches StreamEvent::Serial { object_serial_hi, object_serial_low } ==> (
            t.object_serial matches Some(serial) && serial == object_serial_hi * 4294967296
                + object_serial_low)
            &&& !(event is Serial) ==> t.object_serial == s.object_serial
            &&& event matches StreamEvent::Failed(e) ==> t.failed == Some(e@)
            &&& !(event is Failed) ==> t.failed == s.failed
            &&& t.closed <==> s.closed || event is Closed
        }),
        s.settled() <==> s.node_id is Some || s.object_serial is Some || s.failed is Some
            || s.closed,
{
}

/// The format that KWin settled on is the format of the frames: its size and its
/// modifier as they are, XR24 where it says only that it is DRM's, and four bytes per
/// pixel from the start of the buffer unless more is known.
pub proof fn formats_are_taken_over(f: NegotiatedFormat, i: VideoInfo)
    requires
        i.width * 4 <= u32::MAX,
    ensures
        ({
            let after = f.changed(Some(i));
            &&& after.width == i.width && after.height == i.height && after.modifier == i.modifier
            &&& i.format == 12 ==> after.fourcc == 0x34325258
            &&& i.format != 12 ==> after.fourcc == i.format
            &&& f.stride == 0 ==> after.stride == 4 * i.width && after.offset == 0
            &&& f.stride != 0 ==> after.stride == f.stride && after.offset == f.offset
        }),
        f.changed(None) == f,
{
}

/// Once a format is known every buffer with a descriptor is a frame, laid out as the
/// format says.
pub proof fn buffers_become_frames(fd: i64, f: NegotiatedFormat)
    ensures
        f.width > 0 && fd >= 0 ==> buffer_action(Some(fd), f) == (BufferAction::Deliver {
            offset: f.offset,
            stride: f.stride,
        }),
        fd < 0 ==> buffer_action(Some(fd), f) == BufferAction::NoFd,
        buffer_action(None, f) == BufferAction::Skip,
{
}

/// Every output that can say its name is looked at, in order, and no other.
pub proof fn named_outputs_are_all_looked_at(globals: Seq<RegistryGlobal>, g: RegistryGlobal)
    ensures
        named_outputs(Seq::<RegistryGlobal>::empty()) == Seq::<u32>::empty(),
        g.interface@ == "wl_output"@ && g.version >= 4 ==> named_outputs(globals.push(g))
            == named_outputs(globals).push(g.name),
        g.interface@ != "wl_output"@ || g.version < 4 ==> named_outputs(globals.push(g))
            == named_outputs(globals),
{
    assert(globals.push(g).drop_last() =~= globals);
}

} // verus!
