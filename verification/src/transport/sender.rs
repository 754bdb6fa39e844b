//! Framing and accounting for the video stream.

use vstd::prelude::*;

use crate::protocol::{
    control_bytes, frame_header_bytes, frame_header_round_trip, stream_header_bytes, Codec,
    ControlMessage, FrameHeader, StreamHeader, FRAME_HEADER_LEN, STREAM_HEADER_LEN,
};

verus! {

/// How long a write to the device may take before it counts as failed.
pub const WRITE_TIMEOUT_MS: u64 = 5000;

/// How long a read of an acknowledgement may take.
pub const ACK_TIMEOUT_MS: u64 = 500;

/// What has gone out on one connection.
#[derive(Debug, Clone, Copy, PartialEq, Eq, Structural)]
pub struct Sender {
    pub frames_sent: u64,
    pub bytes_sent: u64,
}

/// The header of a frame that carries video.
pub open spec fn video_header(payload_len: nat, pts_ns: u64, keyframe: bool) -> FrameHeader {
    FrameHeader {
        length: (payload_len % 0x1_0000_0000) as u32,
        pts_ns,
        keyframe,
        control: false,
    }
}

/// The header of a frame that carries a control message.
pub open spec fn control_header() -> FrameHeader {
    FrameHeader { length: ControlMessage::LEN as u32, pts_ns: 0, keyframe: false, control: true }
}

impl Sender {
    /// A connection that has just been opened, and the bytes that it starts with.
    pub fn connect(header: &StreamHeader) -> (r: (Sender, [u8; STREAM_HEADER_LEN]))
        ensures
            r.0.frames_sent == 0,
            r.0.bytes_sent == STREAM_HEADER_LEN,
            r.1@ == stream_header_bytes(*header),
    {
        (Sender { frames_sent: 0, bytes_sent: STREAM_HEADER_LEN as u64 }, header.encode())
    }

    /// The header that goes out in front of one access unit.
    pub fn frame_header(payload: &[u8], pts_ns: u64, keyframe: bool) -> (r: [u8; FRAME_HEADER_LEN])
        ensures
            r@ == frame_header_bytes(video_header(payload@.len(), pts_ns, keyframe)),
    {
        let length: u32 = (payload.len() as u64 % 0x1_0000_0000) as u32;
        FrameHeader { length, pts_ns, keyframe, control: false }.encode()
    }

    /// Count an access unit that has gone out.
    pub fn send_frame(&mut self, payload_len: usize)
        requires
            old(self).frames_sent < u64::MAX,
            old(self).bytes_sent + FRAME_HEADER_LEN + payload_len <= u64::MAX,
        ensures
            final(self).frames_sent == old(self).frames_sent + 1,
            final(self).bytes_sent == old(self).bytes_sent + FRAME_HEADER_LEN + payload_len,
    {
        self.frames_sent = self.frames_sent + 1;
        self.bytes_sent = self.bytes_sent + FRAME_HEADER_LEN as u64 + payload_len as u64;
    }

    pub fn frames_sent(&self) -> (r: u64)
        ensures
            r == self.frames_sent,
    {
        self.frames_sent
    }

    /// The bytes of a control message in its envelope: the same frame as video
    /// has, marked as control, so that the device sorts it out before the
    /// decoder sees it.
    pub fn control_frame(msg: &ControlMessage) -> (r: Vec<u8>)
        ensures
            r@ == frame_header_bytes(control_header()) + control_bytes(*msg),
    {
        let header = FrameHeader {
            length: ControlMessage::LEN as u32,
            pts_ns: 0,
            keyframe: false,
            control: true,
        }.encode();
        let payload = msg.encode();
        let mut out: Vec<u8> = Vec::new();
        out.extend_from_slice(header.as_slice());
        out.extend_from_slice(payload.as_slice());
        assert(out@ =~= frame_header_bytes(control_header()) + control_bytes(*msg));
        out
    }

    /// Count a control message that has gone out.
    pub fn send_control(&mut self)
        requires
            old(self).bytes_sent + FRAME_HEADER_LEN + ControlMessage::LEN <= u64::MAX,
        ensures
            final(self).frames_sent == old(self).frames_sent,
            final(self).bytes_sent == old(self).bytes_sent + FRAME_HEADER_LEN + ControlMessage::LEN,
    {
        self.bytes_sent = self.bytes_sent + FRAME_HEADER_LEN as u64 + ControlMessage::LEN as u64;
    }

    pub fn bytes_sent(&self) -> (r: u64)
        ensures
            r == self.bytes_sent,
    {
        self.bytes_sent
    }
}

/// How far a header and its payload have gone out together. One write takes
/// both, so that they are not split into separate segments; it may accept fewer
/// bytes than it was offered.
#[derive(Debug, Clone, Copy, PartialEq, Eq, Structural)]
pub struct VectoredWrite {
    pub header_len: usize,
    pub payload_len: usize,
    pub done: usize,
}

/// What one write did.
#[derive(Debug, Clone, Copy, PartialEq, Eq, Structural)]
pub enum WriteStep {
    /// Nothing is left.
    Finished,
    /// Some bytes are left.
    More,
    /// The socket accepted no bytes, so the frame cannot be sent.
    WriteZero,
}

impl VectoredWrite {
    pub open spec fn wf(self) -> bool {
        &&& self.header_len + self.payload_len <= usize::MAX
        &&& self.done <= self.header_len + self.payload_len
    }

    /// The number of bytes that are left.
    pub open spec fn left(self) -> int {
        self.header_len + self.payload_len - self.done
    }

    pub fn new(header_len: usize, payload_len: usize) -> (r: Self)
        requires
            header_len + payload_len <= usize::MAX,
        ensures
            r.wf(),
            r == (VectoredWrite { header_len, payload_len, done: 0 }),
    {
        VectoredWrite { header_len, payload_len, done: 0 }
    }

    /// Where the next write starts in the header and in the payload.
    pub fn offsets(&self) -> (r: (usize, usize))
        requires
            self.wf(),
        ensures
            r.0 <= self.header_len,
            r.1 <= self.payload_len,
            r.0 + r.1 == self.done,
            r.1 > 0 ==> r.0 == self.header_len,
            forall|header: Seq<u8>, payload: Seq<u8>|
                header.len() == self.header_len && payload.len() == self.payload_len ==> #[trigger] (
                header + payload).skip(self.done as int) == header.skip(r.0 as int) + payload.skip(
                    r.1 as int,
                ),
    {
        let r = if self.done <= self.header_len {
            (self.done, 0usize)
        } else {
            (self.header_len, self.done - self.header_len)
        };
        assert forall|header: Seq<u8>, payload: Seq<u8>|
            header.len() == self.header_len && payload.len() == self.payload_len implies #[trigger] (
        header + payload).skip(self.done as int) == header.skip(r.0 as int) + payload.skip(
            r.1 as int,
        ) by {
            assert((header + payload).skip(self.done as int) =~= header.skip(r.0 as int)
                + payload.skip(r.1 as int));
        }
        r
    }

    /// Take note that a write accepted `written` bytes.
    pub fn advance(&mut self, written: usize) -> (r: WriteStep)
        requires
            old(self).wf(),
            written <= old(self).left(),
        ensures
            final(self).wf(),
            *final(self) == (VectoredWrite {
                done: (old(self).done + written) as usize,
                ..*old(self)
            }),
            r == if written == 0 {
                WriteStep::WriteZero
            } else if final(self).left() == 0 {
                WriteStep::Finished
            } else {
                WriteStep::More
            },
    {
        if written == 0 {
            return WriteStep::WriteZero;
        }
        self.done = self.done + written;
        if self.done == self.header_len + self.payload_len {
            WriteStep::Finished
        } else {
            WriteStep::More
        }
    }
}

/// Convenience for the common case.
pub fn stream_header(width: u32, height: u32, framerate: u32) -> (r: StreamHeader)
    ensures
        r.width == width % 0x1_0000,
        r.height == height % 0x1_0000,
        r.framerate == framerate % 0x1_0000,
        r.codec == Codec::H264,
{
    StreamHeader {
        width: (width % 0x1_0000) as u16,
        height: (height % 0x1_0000) as u16,
        framerate: (framerate % 0x1_0000) as u16,
        codec: Codec::H264,
    }
}

/// The number of bytes accepted by a run of writes.
pub open spec fn accepted(writes: Seq<nat>) -> nat
    decreases writes.len(),
{
    if writes.len() == 0 {
        0
    } else {
        accepted(writes.drop_last()) + writes.last()
    }
}

/// The bytes on the wire after a run of writes, each of which took some bytes
/// off the front of what was offered.
pub open spec fn on_the_wire(frame: Seq<u8>, writes: Seq<nat>) -> Seq<u8>
    decreases writes.len(),
{
    if writes.len() == 0 {
        Seq::empty()
    } else {
        let before = accepted(writes.drop_last()) as int;
        on_the_wire(frame, writes.drop_last()) + frame.skip(before).take(writes.last() as int)
    }
}

/// However a frame is cut up by short writes, what arrives is the front of it,
/// and all of it once every byte has been accepted.
pub proof fn short_writes_lose_nothing(frame: Seq<u8>, writes: Seq<nat>)
    requires
        accepted(writes) <= frame.len(),
    ensures
        on_the_wire(frame, writes) == frame.take(accepted(writes) as int),
        accepted(writes) == frame.len() ==> on_the_wire(frame, writes) == frame,
    decreases writes.len(),
{
    if writes.len() > 0 {
        short_writes_lose_nothing(frame, writes.drop_last());
        let before = accepted(writes.drop_last()) as int;
        assert(frame.take(before) + frame.skip(before).take(writes.last() as int) =~= frame.take(
            accepted(writes) as int,
        ));
    } else {
        assert(on_the_wire(frame, writes) =~= frame.take(0));
    }
    assert(frame.take(frame.len() as int) =~= frame);
}

/// A device that reads a frame header and then as many bytes as it announces
/// takes in exactly one frame, whatever comes after it.
pub proof fn frames_are_self_delimiting(
    payload: Seq<u8>,
    pts_ns: u64,
    keyframe: bool,
    rest: Seq<u8>,
)
    requires
        payload.len() < 0x1_0000_0000,
    ensures
        ({
            let header = video_header(payload.len(), pts_ns, keyframe);
            let wire = frame_header_bytes(header) + payload + rest;
            &&& crate::protocol::frame_header_of(wire) == Ok::<
                FrameHeader,
                crate::protocol::ProtocolError,
            >(header)
            &&& wire.subrange(
                FRAME_HEADER_LEN as int,
                FRAME_HEADER_LEN + header.length,
            ) == payload
        }),
{
    let header = video_header(payload.len(), pts_ns, keyframe);
    frame_header_round_trip(header, payload + rest);
    let wire = frame_header_bytes(header) + payload + rest;
    assert(wire =~= frame_header_bytes(header) + (payload + rest));
    assert(wire.subrange(FRAME_HEADER_LEN as int, FRAME_HEADER_LEN + header.length) =~= payload);
}

/// Something that goes out after the stream header.
pub ghost enum Outgoing {
    Frame { payload: Seq<u8>, pts_ns: u64, keyframe: bool },
    Control(ControlMessage),
}

/// One of these on the wire.
pub open spec fn outgoing_bytes(o: Outgoing) -> Seq<u8> {
    match o {
        Outgoing::Frame { payload, pts_ns, keyframe } => frame_header_bytes(
            video_header(payload.len(), pts_ns, keyframe),
        ) + payload,
        Outgoing::Control(m) => frame_header_bytes(control_header()) + control_bytes(m),
    }
}

/// All that is on the wire of a connection.
pub open spec fn wire(header: StreamHeader, log: Seq<Outgoing>) -> Seq<u8>
    decreases log.len(),
{
    if log.len() == 0 {
        stream_header_bytes(header)
    } else {
        wire(header, log.drop_last()) + outgoing_bytes(log.last())
    }
}

/// The frames and the bytes that have been counted.
pub open spec fn counted(log: Seq<Outgoing>) -> (int, int)
    decreases log.len(),
{
    if log.len() == 0 {
        (0, STREAM_HEADER_LEN as int)
    } else {
        let (frames, bytes) = counted(log.drop_last());
        match log.last() {
            Outgoing::Frame { payload, .. } => (
                frames + 1,
                bytes + FRAME_HEADER_LEN + payload.len(),
            ),
            Outgoing::Control(_) => (frames, bytes + FRAME_HEADER_LEN + ControlMessage::LEN),
        }
    }
}

/// The bytes that are counted are the bytes that are on the wire, the stream
/// header among them.
pub proof fn every_byte_is_counted(header: StreamHeader, log: Seq<Outgoing>)
    ensures
        counted(log).1 == wire(header, log).len(),
    decreases log.len(),
{
    if log.len() == 0 {
        crate::protocol::stream_header_round_trip(header, Seq::empty());
    } else {
        every_byte_is_counted(header, log.drop_last());
        match log.last() {
            Outgoing::Frame { payload, pts_ns, keyframe } => {
                frame_header_round_trip(
                    video_header(payload.len(), pts_ns, keyframe),
                    Seq::empty(),
                );
            },
            Outgoing::Control(m) => {
                frame_header_round_trip(control_header(), Seq::empty());
            },
        }
    }
}

/// What goes out for an access unit is a header with its length, its time and whether
/// it is a keyframe, not marked as control, and then the unit itself.
pub proof fn units_go_out_behind_their_header(payload: Seq<u8>, pts_ns: u64, keyframe: bool)
    requires
        payload.len() < 0x1_0000_0000,
    ensures
        ({
            let b = outgoing_bytes(Outgoing::Frame { payload, pts_ns, keyframe });
            &&& b.len() == 16 + payload.len()
            &&& crate::protocol::frame_header_of(b) matches Ok(h) && h.length == payload.len()
                && h.pts_ns == pts_ns && h.keyframe == keyframe && !h.control
            &&& b.skip(16) == payload
        }),
{
    let header = video_header(payload.len(), pts_ns, keyframe);
    frame_header_round_trip(header, payload);
    let b = outgoing_bytes(Outgoing::Frame { payload, pts_ns, keyframe });
    assert(b.skip(16) =~= payload);
}

/// What goes out for a control message is a header marked as control, with the length
/// of the message and no time, and then the message itself.
pub proof fn controls_go_out_behind_their_header(m: ControlMessage)
    ensures
        ({
            let b = outgoing_bytes(Outgoing::Control(m));
            &&& b.len() == 18
            &&& crate::protocol::frame_header_of(b) matches Ok(h) && h.length == 2 && h.pts_ns == 0
                && !h.keyframe && h.control
            &&& b.skip(16) == control_bytes(m)
        }),
{
    frame_header_round_trip(control_header(), control_bytes(m));
    let b = outgoing_bytes(Outgoing::Control(m));
    assert(b.skip(16) =~= control_bytes(m));
}

/// A connection starts with the stream header, which is counted, and every access
/// unit is one frame more; a control message is none.
pub proof fn frames_are_counted(header: StreamHeader, log: Seq<Outgoing>, o: Outgoing)
    ensures
        counted(Seq::<Outgoing>::empty()).0 == 0 && counted(Seq::<Outgoing>::empty()).1 == 16,
        wire(header, Seq::<Outgoing>::empty()) == stream_header_bytes(header),
        o matches Outgoing::Frame { payload, .. } ==> counted(log.push(o)).0 == counted(log).0 + 1
            && counted(log.push(o)).1 == counted(log).1 + 16 + payload.len(),
        o is Control ==> counted(log.push(o)).0 == counted(log).0 && counted(log.push(o)).1
            == counted(log).1 + 18,
        wire(header, log.push(o)) == wire(header, log) + outgoing_bytes(o),
{
    assert(log.push(o).drop_last() =~= log);
}

} // verus!
