//! Wire format between the host daemon and the Android app.
//!
//! One stream header at connect, then a frame header and an Annex-B payload per
//! access unit; in the other direction a stream of 9-byte reverse messages:
//!
//! ```text
//! StreamHeader (16 bytes)
//!   0..4   magic  "MRLD"
//!   4..6   version          u16
//!   6..8   width            u16
//!   8..10  height           u16
//!  10..12  framerate        u16
//!     12   codec            u8
//!  13..16  reserved
//!
//! FrameHeader (16 bytes), repeated
//!   0..4   payload length   u32
//!   4..12  pts, nanoseconds u64
//!     12   flags            u8   bit 0 = keyframe, bit 1 = control
//!  13..16  reserved
//!
//! ReverseMessage (9 bytes), repeated, device -> host
//!      0   type             u8   MSG_ACK | MSG_TOUCH
//!   1..9   payload          8 bytes, type-dependent
//! ```
//!
//! Every multi-byte field is **big-endian**, which is how the device side reads
//! integers natively.
//!
//! The reverse direction uses a leading type byte rather than a full frame
//! header: both message types are small and of fixed size, so a length field
//! would be larger than what it describes, and the ack path fires once per frame.

use vstd::prelude::*;
use vstd::slice::slice_subrange;

use crate::bytes::{
    be16, be32, be64, be_bytes, be_bytes_round_trip, be_value, be_value_round_trip,
    lemma_be_bytes_len, lemma_capacities, read_u16, read_u32, read_u64,
};
use crate::number::{decimal, hex_padded, push_decimal, push_hex};

verus! {

pub const MAGIC: [u8; 4] = [0x4d, 0x52, 0x4c, 0x44];

/// A device -> host message is nine bytes from version 3 on, where version 2
/// had a bare 8-byte ack. Mismatched pairs fail on the stream header.
pub const VERSION: u16 = 3;

pub const STREAM_HEADER_LEN: usize = 16;

pub const FRAME_HEADER_LEN: usize = 16;

/// Length of every device -> host message: one type byte plus eight bytes of
/// payload, whatever the type.
pub const REVERSE_MSG_LEN: usize = 9;

/// Reverse-message type discriminators.
pub const MSG_ACK: u8 = 0x01;

pub const MSG_TOUCH: u8 = 0x02;

/// Base of the host-side port range the daemon claims for `adb forward`.
pub const BASE_PORT: u16 = 27183;

/// Alias for [`BASE_PORT`].
pub const DEFAULT_PORT: u16 = BASE_PORT;

/// Number of consecutive host-side ports the daemon will claim.
pub const PORT_RANGE: u16 = 100;

/// Abstract Unix socket the device app listens on.
pub const SOCKET_NAME: &'static str = "moreland";

pub const FLAG_KEYFRAME: u8 = 1;

/// Frame payload is a [`ControlMessage`], not video. Host -> device only.
pub const FLAG_CONTROL: u8 = 2;

// ---------------------------------------------------------------- errors ---

/// Why a message could not be made or understood.
#[derive(Debug, Clone, Copy, PartialEq, Eq, Structural)]
pub enum ProtocolError {
    UnknownCodec(u8),
    StreamHeaderTooShort(usize),
    BadMagic(u8, u8, u8, u8),
    UnsupportedVersion(u16),
    FrameHeaderTooShort(usize),
    UnknownControlKind(u8),
    BadRotation(u16),
    ControlMessageTooShort(usize),
    UnknownTouchAction(u8),
    TouchPayloadTooShort(usize),
    ReverseMessageTooShort(usize),
    UnknownReverseType(u8),
}

/// `text`, then `n` in decimal.
pub open spec fn with_number(text: Seq<char>, n: nat) -> Seq<char> {
    text + decimal(n)
}

/// `text`, then `n` in decimal, then the word for bytes.
pub open spec fn with_length(text: Seq<char>, n: nat) -> Seq<char> {
    text + decimal(n) + " bytes"@
}

impl ProtocolError {
    /// The wording of each error.
    pub open spec fn text(self) -> Seq<char> {
        match self {
            ProtocolError::UnknownCodec(id) => with_number("unknown codec id "@, id as nat),
            ProtocolError::StreamHeaderTooShort(n) => with_length(
                "stream header too short: "@,
                n as nat,
            ),
            ProtocolError::BadMagic(a, b, c, d) => "bad magic: ["@ + hex_padded(a as nat, 2) + ", "@
                + hex_padded(b as nat, 2) + ", "@ + hex_padded(c as nat, 2) + ", "@ + hex_padded(
                d as nat,
                2,
            ) + "]"@,
            ProtocolError::UnsupportedVersion(v) => "unsupported protocol version "@ + decimal(
                v as nat,
            ) + " (expected "@ + decimal(VERSION as nat) + ")"@,
            ProtocolError::FrameHeaderTooShort(n) => with_length(
                "frame header too short: "@,
                n as nat,
            ),
            ProtocolError::UnknownControlKind(k) => with_number(
                "unknown control kind "@,
                k as nat,
            ),
            ProtocolError::BadRotation(d) => "rotation must be 0, 90, 180, or 270 (got "@ + decimal(
                d as nat,
            ) + ")"@,
            ProtocolError::ControlMessageTooShort(n) => with_length(
                "control message too short: "@,
                n as nat,
            ),
            ProtocolError::UnknownTouchAction(a) => with_number(
                "unknown touch action "@,
                a as nat,
            ),
            ProtocolError::TouchPayloadTooShort(n) => with_length(
                "touch payload too short: "@,
                n as nat,
            ),
            ProtocolError::ReverseMessageTooShort(n) => with_length(
                "reverse message too short: "@,
                n as nat,
            ),
            ProtocolError::UnknownReverseType(t) => with_number(
                "unknown reverse message type "@,
                t as nat,
            ),
        }
    }

    /// The error as a line of text.
    pub fn message(&self) -> (r: String)
        ensures
            r@ == self.text(),
    {
        match *self {
            ProtocolError::UnknownCodec(id) => number_text("unknown codec id ", id as u64),
            ProtocolError::StreamHeaderTooShort(n) => length_text("stream header too short: ", n),
            ProtocolError::BadMagic(a, b, c, d) => {
                let mut out = String::from_str("bad magic: [");
                push_hex(&mut out, a as u64, 2);
                out.append(", ");
                push_hex(&mut out, b as u64, 2);
                out.append(", ");
                push_hex(&mut out, c as u64, 2);
                out.append(", ");
                push_hex(&mut out, d as u64, 2);
                out.append("]");
                out
            },
            ProtocolError::UnsupportedVersion(v) => {
                let mut out = String::from_str("unsupported protocol version ");
                push_decimal(&mut out, v as u64);
                out.append(" (expected ");
                push_decimal(&mut out, VERSION as u64);
                out.append(")");
                out
            },
            ProtocolError::FrameHeaderTooShort(n) => length_text("frame header too short: ", n),
            ProtocolError::UnknownControlKind(k) => number_text("unknown control kind ", k as u64),
            ProtocolError::BadRotation(d) => {
                let mut out = String::from_str("rotation must be 0, 90, 180, or 270 (got ");
                push_decimal(&mut out, d as u64);
                out.append(")");
                out
            },
            ProtocolError::ControlMessageTooShort(n) => length_text(
                "control message too short: ",
                n,
            ),
            ProtocolError::UnknownTouchAction(a) => number_text("unknown touch action ", a as u64),
            ProtocolError::TouchPayloadTooShort(n) => length_text("touch payload too short: ", n),
            ProtocolError::ReverseMessageTooShort(n) => length_text(
                "reverse message too short: ",
                n,
            ),
            ProtocolError::UnknownReverseType(t) => number_text(
                "unknown reverse message type ",
                t as u64,
            ),
        }
    }
}

fn number_text(text: &str, n: u64) -> (r: String)
    ensures
        r@ == with_number(text@, n as nat),
{
    let mut out = String::from_str(text);
    push_decimal(&mut out, n);
    out
}

fn length_text(text: &str, n: usize) -> (r: String)
    ensures
        r@ == with_length(text@, n as nat),
{
    let mut out = String::from_str(text);
    push_decimal(&mut out, n as u64);
    out.append(" bytes");
    out
}

// ---------------------------------------------------------------- headers ---

#[derive(Debug, Clone, Copy, PartialEq, Eq, Structural)]
pub enum Codec {
    H264,
    H265,
}

impl Codec {
    /// The byte that stands for the codec on the wire.
    pub open spec fn id(self) -> u8 {
        match self {
            Codec::H264 => 0,
            Codec::H265 => 1,
        }
    }

    pub fn to_u8(self) -> (r: u8)
        ensures
            r == self.id(),
    {
        match self {
            Codec::H264 => 0,
            Codec::H265 => 1,
        }
    }

    pub fn from_u8(value: u8) -> (r: Result<Self, ProtocolError>)
        ensures
            r == codec_of(value),
    {
        match value {
            0 => Ok(Codec::H264),
            1 => Ok(Codec::H265),
            other => Err(ProtocolError::UnknownCodec(other)),
        }
    }

    /// MIME type the device's decoder expects.
    pub fn mime(self) -> (r: &'static str)
        ensures
            r@ == match self {
                Codec::H264 => "video/avc"@,
                Codec::H265 => "video/hevc"@,
            },
    {
        match self {
            Codec::H264 => "video/avc",
            Codec::H265 => "video/hevc",
        }
    }
}

/// The codec with the given id, if there is one.
pub open spec fn codec_of(value: u8) -> Result<Codec, ProtocolError> {
    if value == Codec::H264.id() {
        Ok(Codec::H264)
    } else if value == Codec::H265.id() {
        Ok(Codec::H265)
    } else {
        Err(ProtocolError::UnknownCodec(value))
    }
}

#[derive(Debug, Clone, Copy, PartialEq, Eq, Structural)]
pub struct StreamHeader {
    pub width: u16,
    pub height: u16,
    pub framerate: u16,
    pub codec: Codec,
}

/// A stream header on the wire.
pub open spec fn stream_header_bytes(h: StreamHeader) -> Seq<u8> {
    MAGIC@ + be_bytes(VERSION as nat, 2) + be_bytes(h.width as nat, 2) + be_bytes(
        h.height as nat,
        2,
    ) + be_bytes(h.framerate as nat, 2) + seq![h.codec.id(), 0u8, 0u8, 0u8]
}

/// What the given bytes say as a stream header.
pub open spec fn stream_header_of(buf: Seq<u8>) -> Result<StreamHeader, ProtocolError> {
    if buf.len() < STREAM_HEADER_LEN {
        Err(ProtocolError::StreamHeaderTooShort(buf.len() as usize))
    } else if buf.subrange(0, 4) != MAGIC@ {
        Err(ProtocolError::BadMagic(buf[0], buf[1], buf[2], buf[3]))
    } else if be_value(buf.subrange(4, 6)) != VERSION {
        Err(ProtocolError::UnsupportedVersion(be_value(buf.subrange(4, 6)) as u16))
    } else {
        match codec_of(buf[12]) {
            Ok(codec) => Ok(
                StreamHeader {
                    width: be_value(buf.subrange(6, 8)) as u16,
                    height: be_value(buf.subrange(8, 10)) as u16,
                    framerate: be_value(buf.subrange(10, 12)) as u16,
                    codec,
                },
            ),
            Err(e) => Err(e),
        }
    }
}

impl StreamHeader {
    pub fn encode(&self) -> (r: [u8; STREAM_HEADER_LEN])
        ensures
            r@ == stream_header_bytes(*self),
    {
        let v = be16(VERSION);
        let w = be16(self.width);
        let h = be16(self.height);
        let f = be16(self.framerate);
        let r = [
            MAGIC[0],
            MAGIC[1],
            MAGIC[2],
            MAGIC[3],
            v[0],
            v[1],
            w[0],
            w[1],
            h[0],
            h[1],
            f[0],
            f[1],
            self.codec.to_u8(),
            0,
            0,
            0,
        ];
        proof {
            broadcast use lemma_be_bytes_len;

            assert(r@ =~= stream_header_bytes(*self));
        }
        r
    }

    pub fn decode(buf: &[u8]) -> (r: Result<Self, ProtocolError>)
        ensures
            r == stream_header_of(buf@),
    {
        if buf.len() < STREAM_HEADER_LEN {
            return Err(ProtocolError::StreamHeaderTooShort(buf.len()));
        }
        if buf[0] != MAGIC[0] || buf[1] != MAGIC[1] || buf[2] != MAGIC[2] || buf[3] != MAGIC[3] {
            proof {
                let head = buf@.subrange(0, 4);
                assert(head[0] == buf@[0] && head[1] == buf@[1] && head[2] == buf@[2] && head[3]
                    == buf@[3]);
            }
            return Err(ProtocolError::BadMagic(buf[0], buf[1], buf[2], buf[3]));
        }
        assert(buf@.subrange(0, 4) =~= MAGIC@);
        let version: u16 = read_u16(buf, 4);
        if version != VERSION {
            return Err(ProtocolError::UnsupportedVersion(version));
        }
        match Codec::from_u8(buf[12]) {
            Ok(codec) => Ok(
                StreamHeader {
                    width: read_u16(buf, 6),
                    height: read_u16(buf, 8),
                    framerate: read_u16(buf, 10),
                    codec,
                },
            ),
            Err(e) => Err(e),
        }
    }
}

#[derive(Debug, Clone, Copy, PartialEq, Eq, Structural)]
pub struct FrameHeader {
    pub length: u32,
    pub pts_ns: u64,
    pub keyframe: bool,
    pub control: bool,
}

/// The flag byte of a frame header.
pub open spec fn flag_byte(keyframe: bool, control: bool) -> u8 {
    let k: int = if keyframe {
        FLAG_KEYFRAME as int
    } else {
        0
    };
    let c: int = if control {
        FLAG_CONTROL as int
    } else {
        0
    };
    (k + c) as u8
}

/// A frame header on the wire.
pub open spec fn frame_header_bytes(h: FrameHeader) -> Seq<u8> {
    be_bytes(h.length as nat, 4) + be_bytes(h.pts_ns as nat, 8) + seq![
        flag_byte(h.keyframe, h.control),
        0u8,
        0u8,
        0u8,
    ]
}

/// What the given bytes say as a frame header.
pub open spec fn frame_header_of(buf: Seq<u8>) -> Result<FrameHeader, ProtocolError> {
    if buf.len() < FRAME_HEADER_LEN {
        Err(ProtocolError::FrameHeaderTooShort(buf.len() as usize))
    } else {
        Ok(
            FrameHeader {
                length: be_value(buf.subrange(0, 4)) as u32,
                pts_ns: be_value(buf.subrange(4, 12)) as u64,
                keyframe: buf[12] & FLAG_KEYFRAME != 0,
                control: buf[12] & FLAG_CONTROL != 0,
            },
        )
    }
}

impl FrameHeader {
    pub fn encode(&self) -> (r: [u8; FRAME_HEADER_LEN])
        ensures
            r@ == frame_header_bytes(*self),
    {
        let l = be32(self.length);
        let p = be64(self.pts_ns);
        let mut flags: u8 = 0;
        if self.keyframe {
            flags = flags + FLAG_KEYFRAME;
        }
        if self.control {
            flags = flags + FLAG_CONTROL;
        }
        let r = [
            l[0],
            l[1],
            l[2],
            l[3],
            p[0],
            p[1],
            p[2],
            p[3],
            p[4],
            p[5],
            p[6],
            p[7],
            flags,
            0,
            0,
            0,
        ];
        proof {
            broadcast use lemma_be_bytes_len;

            assert(r@ =~= frame_header_bytes(*self));
        }
        r
    }

    pub fn decode(buf: &[u8]) -> (r: Result<Self, ProtocolError>)
        ensures
            r == frame_header_of(buf@),
    {
        if buf.len() < FRAME_HEADER_LEN {
            return Err(ProtocolError::FrameHeaderTooShort(buf.len()));
        }
        let flags: u8 = buf[12];
        Ok(
            FrameHeader {
                length: read_u32(buf, 0),
                pts_ns: read_u64(buf, 4),
                keyframe: flags & FLAG_KEYFRAME != 0,
                control: flags & FLAG_CONTROL != 0,
            },
        )
    }
}

// --------------------------------------------------------------- controls ---

#[derive(Debug, Clone, Copy, PartialEq, Eq, Structural)]
pub enum ControlKind {
    Brightness,
    Rotation,
}

impl ControlKind {
    /// The byte that stands for the kind on the wire.
    pub open spec fn id(self) -> u8 {
        match self {
            ControlKind::Brightness => 1,
            ControlKind::Rotation => 2,
        }
    }

    pub fn to_u8(self) -> (r: u8)
        ensures
            r == self.id(),
    {
        match self {
            ControlKind::Brightness => 1,
            ControlKind::Rotation => 2,
        }
    }

    pub fn from_u8(value: u8) -> (r: Result<Self, ProtocolError>)
        ensures
            r == control_kind_of(value),
    {
        match value {
            1 => Ok(ControlKind::Brightness),
            2 => Ok(ControlKind::Rotation),
            other => Err(ProtocolError::UnknownControlKind(other)),
        }
    }
}

/// The control kind with the given id, if there is one.
pub open spec fn control_kind_of(value: u8) -> Result<ControlKind, ProtocolError> {
    if value == ControlKind::Brightness.id() {
        Ok(ControlKind::Brightness)
    } else if value == ControlKind::Rotation.id() {
        Ok(ControlKind::Rotation)
    } else {
        Err(ProtocolError::UnknownControlKind(value))
    }
}

/// A host -> device control message carried in a frame-shaped envelope.
#[derive(Debug, Clone, Copy, PartialEq, Eq, Structural)]
pub struct ControlMessage {
    pub kind: ControlKind,
    pub value: u8,
}

/// Whether the device can be turned by so many degrees.
pub open spec fn is_rotation(degrees: u16) -> bool {
    degrees == 0 || degrees == 90 || degrees == 180 || degrees == 270
}

/// The request to turn the picture by `degrees`.
pub open spec fn rotation_of(degrees: u16) -> Result<ControlMessage, ProtocolError> {
    if is_rotation(degrees) {
        Ok(ControlMessage { kind: ControlKind::Rotation, value: (degrees / 90) as u8 })
    } else {
        Err(ProtocolError::BadRotation(degrees))
    }
}

/// The angle that a rotation value stands for; none for a value past the last.
pub open spec fn degrees_of(value: u8) -> u16 {
    if value <= 3 {
        (90 * value) as u16
    } else {
        0
    }
}

/// A control message on the wire.
pub open spec fn control_bytes(m: ControlMessage) -> Seq<u8> {
    seq![m.kind.id(), m.value]
}

/// What the given bytes say as a control message.
pub open spec fn control_of(buf: Seq<u8>) -> Result<ControlMessage, ProtocolError> {
    if buf.len() < ControlMessage::LEN {
        Err(ProtocolError::ControlMessageTooShort(buf.len() as usize))
    } else {
        match control_kind_of(buf[0]) {
            Ok(kind) => Ok(ControlMessage { kind, value: buf[1] }),
            Err(e) => Err(e),
        }
    }
}

impl ControlMessage {
    pub const LEN: usize = 2;

    /// Brightness is a percentage of full scale. Values above 100 clamp.
    pub fn brightness(percent: u8) -> (r: Self)
        ensures
            r.kind == ControlKind::Brightness,
            r.value == if percent <= 100 {
                percent
            } else {
                100u8
            },
    {
        ControlMessage {
            kind: ControlKind::Brightness,
            value: if percent <= 100 {
                percent
            } else {
                100
            },
        }
    }

    /// `degrees` is one of 0, 90, 180, 270.
    pub fn rotation(degrees: u16) -> (r: Result<Self, ProtocolError>)
        ensures
            r == rotation_of(degrees),
    {
        let value: u8 = match degrees {
            0 => 0,
            90 => 1,
            180 => 2,
            270 => 3,
            other => {
                return Err(ProtocolError::BadRotation(other));
            },
        };
        Ok(ControlMessage { kind: ControlKind::Rotation, value })
    }

    /// The angle that the value stands for; none for a value past the last.
    pub fn rotation_degrees(&self) -> (r: u16)
        ensures
            r == degrees_of(self.value),
    {
        match self.value {
            0 => 0,
            1 => 90,
            2 => 180,
            3 => 270,
            _ => 0,
        }
    }

    pub fn encode(&self) -> (r: [u8; Self::LEN])
        ensures
            r@ == control_bytes(*self),
    {
        let r = [self.kind.to_u8(), self.value];
        assert(r@ =~= control_bytes(*self));
        r
    }

    pub fn decode(buf: &[u8]) -> (r: Result<Self, ProtocolError>)
        ensures
            r == control_of(buf@),
    {
        if buf.len() < Self::LEN {
            return Err(ProtocolError::ControlMessageTooShort(buf.len()));
        }
        match ControlKind::from_u8(buf[0]) {
            Ok(kind) => Ok(ControlMessage { kind, value: buf[1] }),
            Err(e) => Err(e),
        }
    }
}

// -------------------------------------------------------- reverse channel ---

/// Single-contact touch action. There are no other codes.
#[derive(Debug, Clone, Copy, PartialEq, Eq, Structural)]
pub enum TouchAction {
    Down,
    Move,
    Up,
    Cancel,
}

impl TouchAction {
    /// The byte that stands for the action on the wire.
    pub open spec fn id(self) -> u8 {
        match self {
            TouchAction::Down => 0,
            TouchAction::Move => 1,
            TouchAction::Up => 2,
            TouchAction::Cancel => 3,
        }
    }

    pub fn to_u8(self) -> (r: u8)
        ensures
            r == self.id(),
    {
        match self {
            TouchAction::Down => 0,
            TouchAction::Move => 1,
            TouchAction::Up => 2,
            TouchAction::Cancel => 3,
        }
    }

    pub fn from_u8(value: u8) -> (r: Result<Self, ProtocolError>)
        ensures
            r == touch_action_of(value),
    {
        match value {
            0 => Ok(TouchAction::Down),
            1 => Ok(TouchAction::Move),
            2 => Ok(TouchAction::Up),
            3 => Ok(TouchAction::Cancel),
            other => Err(ProtocolError::UnknownTouchAction(other)),
        }
    }
}

/// The touch action with the given id, if there is one.
pub open spec fn touch_action_of(value: u8) -> Result<TouchAction, ProtocolError> {
    if value == TouchAction::Down.id() {
        Ok(TouchAction::Down)
    } else if value == TouchAction::Move.id() {
        Ok(TouchAction::Move)
    } else if value == TouchAction::Up.id() {
        Ok(TouchAction::Up)
    } else if value == TouchAction::Cancel.id() {
        Ok(TouchAction::Cancel)
    } else {
        Err(ProtocolError::UnknownTouchAction(value))
    }
}

/// One device -> host touch event with a single contact point.
///
/// `x` and `y` are fixed-point: 0 is the left or top edge of the tablet's
/// surface and 65535 the right or bottom edge.
#[derive(Debug, Clone, Copy, PartialEq, Eq, Structural)]
pub struct TouchMessage {
    pub action: TouchAction,
    pub x: u16,
    pub y: u16,
}

/// The payload of a touch message on the wire.
pub open spec fn touch_bytes(m: TouchMessage) -> Seq<u8> {
    seq![m.action.id(), 0u8] + be_bytes(m.x as nat, 2) + be_bytes(m.y as nat, 2) + seq![0u8, 0u8]
}

/// What the given bytes say as the payload of a touch message.
pub open spec fn touch_of(payload: Seq<u8>) -> Result<TouchMessage, ProtocolError> {
    if payload.len() < TouchMessage::LEN {
        Err(ProtocolError::TouchPayloadTooShort(payload.len() as usize))
    } else {
        match touch_action_of(payload[0]) {
            Ok(action) => Ok(
                TouchMessage {
                    action,
                    x: be_value(payload.subrange(2, 4)) as u16,
                    y: be_value(payload.subrange(4, 6)) as u16,
                },
            ),
            Err(e) => Err(e),
        }
    }
}

impl TouchMessage {
    /// Length of the *payload*, not the full reverse message.
    pub const LEN: usize = 8;

    pub fn encode(&self) -> (r: [u8; Self::LEN])
        ensures
            r@ == touch_bytes(*self),
    {
        let x = be16(self.x);
        let y = be16(self.y);
        let r = [self.action.to_u8(), 0, x[0], x[1], y[0], y[1], 0, 0];
        proof {
            broadcast use lemma_be_bytes_len;

            assert(r@ =~= touch_bytes(*self));
        }
        r
    }

    pub fn decode(payload: &[u8]) -> (r: Result<Self, ProtocolError>)
        ensures
            r == touch_of(payload@),
    {
        if payload.len() < Self::LEN {
            return Err(ProtocolError::TouchPayloadTooShort(payload.len()));
        }
        match TouchAction::from_u8(payload[0]) {
            Ok(action) => Ok(
                TouchMessage { action, x: read_u16(payload, 2), y: read_u16(payload, 4) },
            ),
            Err(e) => Err(e),
        }
    }
}

/// A parsed reverse message.
#[derive(Debug, Clone, Copy, PartialEq, Eq, Structural)]
pub enum ReverseMessage {
    Ack(u64),
    Touch(TouchMessage),
}

/// A reverse message on the wire.
pub open spec fn reverse_bytes(m: ReverseMessage) -> Seq<u8> {
    match m {
        ReverseMessage::Ack(pts_ns) => seq![MSG_ACK] + be_bytes(pts_ns as nat, 8),
        ReverseMessage::Touch(touch) => seq![MSG_TOUCH] + touch_bytes(touch),
    }
}

/// What the given bytes say as a reverse message.
pub open spec fn reverse_of(buf: Seq<u8>) -> Result<ReverseMessage, ProtocolError> {
    if buf.len() < REVERSE_MSG_LEN {
        Err(ProtocolError::ReverseMessageTooShort(buf.len() as usize))
    } else if buf[0] == MSG_ACK {
        Ok(ReverseMessage::Ack(be_value(buf.subrange(1, 9)) as u64))
    } else if buf[0] == MSG_TOUCH {
        match touch_of(buf.subrange(1, 9)) {
            Ok(touch) => Ok(ReverseMessage::Touch(touch)),
            Err(e) => Err(e),
        }
    } else {
        Err(ProtocolError::UnknownReverseType(buf[0]))
    }
}

/// Encode an ack into the 9-byte reverse-message format.
pub fn encode_ack(pts_ns: u64) -> (r: [u8; REVERSE_MSG_LEN])
    ensures
        r@ == reverse_bytes(ReverseMessage::Ack(pts_ns)),
{
    let p = be64(pts_ns);
    let r = [MSG_ACK, p[0], p[1], p[2], p[3], p[4], p[5], p[6], p[7]];
    proof {
        broadcast use lemma_be_bytes_len;

        assert(r@ =~= reverse_bytes(ReverseMessage::Ack(pts_ns)));
    }
    r
}

/// Encode a touch message into the 9-byte reverse-message format.
pub fn encode_touch(msg: &TouchMessage) -> (r: [u8; REVERSE_MSG_LEN])
    ensures
        r@ == reverse_bytes(ReverseMessage::Touch(*msg)),
{
    let p = msg.encode();
    let r = [MSG_TOUCH, p[0], p[1], p[2], p[3], p[4], p[5], p[6], p[7]];
    proof {
        broadcast use lemma_be_bytes_len;

        assert(r@ =~= reverse_bytes(ReverseMessage::Touch(*msg)));
    }
    r
}

/// Decode a full 9-byte reverse message.
pub fn decode_reverse_message(buf: &[u8]) -> (r: Result<ReverseMessage, ProtocolError>)
    ensures
        r == reverse_of(buf@),
{
    if buf.len() < REVERSE_MSG_LEN {
        return Err(ProtocolError::ReverseMessageTooShort(buf.len()));
    }
    let kind: u8 = buf[0];
    if kind == MSG_ACK {
        Ok(ReverseMessage::Ack(read_u64(buf, 1)))
    } else if kind == MSG_TOUCH {
        match TouchMessage::decode(slice_subrange(buf, 1, 9)) {
            Ok(touch) => Ok(ReverseMessage::Touch(touch)),
            Err(e) => Err(e),
        }
    } else {
        Err(ProtocolError::UnknownReverseType(kind))
    }
}

// ------------------------------------------------------------------- laws ---

/// A stream header survives the wire, whatever follows it.
pub proof fn stream_header_round_trip(h: StreamHeader, rest: Seq<u8>)
    ensures
        stream_header_bytes(h).len() == STREAM_HEADER_LEN,
        stream_header_of(stream_header_bytes(h) + rest) == Ok::<StreamHeader, ProtocolError>(h),
{
    broadcast use lemma_be_bytes_len;

    lemma_capacities();
    let buf = stream_header_bytes(h) + rest;
    assert(buf.subrange(0, 4) =~= MAGIC@);
    assert(buf.subrange(4, 6) =~= be_bytes(VERSION as nat, 2));
    assert(buf.subrange(6, 8) =~= be_bytes(h.width as nat, 2));
    assert(buf.subrange(8, 10) =~= be_bytes(h.height as nat, 2));
    assert(buf.subrange(10, 12) =~= be_bytes(h.framerate as nat, 2));
    assert(buf[12] == h.codec.id());
    be_bytes_round_trip(VERSION as nat, 2);
    be_bytes_round_trip(h.width as nat, 2);
    be_bytes_round_trip(h.height as nat, 2);
    be_bytes_round_trip(h.framerate as nat, 2);
}

/// Bytes are accepted as a stream header exactly when they begin with some
/// header's encoding, up to the reserved bytes at the end.
pub proof fn stream_header_is_canonical(buf: Seq<u8>, h: StreamHeader)
    requires
        buf.len() >= STREAM_HEADER_LEN,
    ensures
        stream_header_of(buf) == Ok::<StreamHeader, ProtocolError>(h) <==> buf.subrange(0, 13)
            == stream_header_bytes(h).subrange(0, 13),
{
    broadcast use lemma_be_bytes_len;

    lemma_capacities();
    let own = stream_header_bytes(h);
    stream_header_round_trip(h, Seq::empty());
    assert(own + Seq::<u8>::empty() =~= own);
    if buf.subrange(0, 13) == own.subrange(0, 13) {
        assert(forall|i: int| 0 <= i < 13 ==> buf[i] == buf.subrange(0, 13)[i]);
        assert(forall|i: int| 0 <= i < 13 ==> own[i] == own.subrange(0, 13)[i]);
        assert(buf.subrange(0, 4) =~= own.subrange(0, 4));
        assert(buf.subrange(4, 6) =~= own.subrange(4, 6));
        assert(buf.subrange(6, 8) =~= own.subrange(6, 8));
        assert(buf.subrange(8, 10) =~= own.subrange(8, 10));
        assert(buf.subrange(10, 12) =~= own.subrange(10, 12));
    }
    if stream_header_of(buf) == Ok::<StreamHeader, ProtocolError>(h) {
        be_value_round_trip(buf.subrange(4, 6));
        be_value_round_trip(buf.subrange(6, 8));
        be_value_round_trip(buf.subrange(8, 10));
        be_value_round_trip(buf.subrange(10, 12));
        assert(buf.subrange(0, 13) =~= buf.subrange(0, 4) + buf.subrange(4, 6) + buf.subrange(6, 8)
            + buf.subrange(8, 10) + buf.subrange(10, 12) + seq![buf[12]]);
        assert(buf.subrange(0, 13) =~= own.subrange(0, 13));
    }
}

/// A peer that speaks another version is refused, and the error says which.
pub proof fn other_versions_are_refused(h: StreamHeader, version: u16)
    requires
        version != VERSION,
    ensures
        stream_header_of(
            MAGIC@ + be_bytes(version as nat, 2) + stream_header_bytes(h).skip(6),
        ) == Err::<StreamHeader, ProtocolError>(ProtocolError::UnsupportedVersion(version)),
{
    broadcast use lemma_be_bytes_len;

    lemma_capacities();
    let buf = MAGIC@ + be_bytes(version as nat, 2) + stream_header_bytes(h).skip(6);
    assert(buf.subrange(0, 4) =~= MAGIC@);
    assert(buf.subrange(4, 6) =~= be_bytes(version as nat, 2));
    be_bytes_round_trip(version as nat, 2);
}

proof fn lemma_flags(keyframe: bool, control: bool)
    ensures
        (flag_byte(keyframe, control) & FLAG_KEYFRAME != 0) == keyframe,
        (flag_byte(keyframe, control) & FLAG_CONTROL != 0) == control,
{
    assert(0u8 & 1 == 0 && 1u8 & 1 == 1 && 2u8 & 1 == 0 && 3u8 & 1 == 1) by (bit_vector);
    assert(0u8 & 2 == 0 && 1u8 & 2 == 0 && 2u8 & 2 == 2 && 3u8 & 2 == 2) by (bit_vector);
}

/// A frame header survives the wire, whatever follows it.
pub proof fn frame_header_round_trip(h: FrameHeader, rest: Seq<u8>)
    ensures
        frame_header_bytes(h).len() == FRAME_HEADER_LEN,
        frame_header_of(frame_header_bytes(h) + rest) == Ok::<FrameHeader, ProtocolError>(h),
{
    broadcast use lemma_be_bytes_len;

    lemma_capacities();
    let buf = frame_header_bytes(h) + rest;
    assert(buf.subrange(0, 4) =~= be_bytes(h.length as nat, 4));
    assert(buf.subrange(4, 12) =~= be_bytes(h.pts_ns as nat, 8));
    be_bytes_round_trip(h.length as nat, 4);
    be_bytes_round_trip(h.pts_ns as nat, 8);
    lemma_flags(h.keyframe, h.control);
}

/// Flag bits without a meaning, and the reserved bytes, change nothing.
pub proof fn frame_header_ignores_reserved(a: Seq<u8>, b: Seq<u8>)
    requires
        a.len() >= FRAME_HEADER_LEN,
        b.len() >= FRAME_HEADER_LEN,
        a.subrange(0, 12) == b.subrange(0, 12),
        a[12] & FLAG_KEYFRAME == b[12] & FLAG_KEYFRAME,
        a[12] & FLAG_CONTROL == b[12] & FLAG_CONTROL,
    ensures
        frame_header_of(a) == frame_header_of(b),
{
    assert(a.subrange(0, 4) =~= a.subrange(0, 12).subrange(0, 4));
    assert(b.subrange(0, 4) =~= b.subrange(0, 12).subrange(0, 4));
    assert(a.subrange(4, 12) =~= a.subrange(0, 12).subrange(4, 12));
    assert(b.subrange(4, 12) =~= b.subrange(0, 12).subrange(4, 12));
}

/// A control message survives the wire, whatever follows it.
pub proof fn control_round_trip(m: ControlMessage, rest: Seq<u8>)
    ensures
        control_bytes(m).len() == ControlMessage::LEN,
        control_of(control_bytes(m) + rest) == Ok::<ControlMessage, ProtocolError>(m),
{
}

/// The angle asked for is the angle that arrives.
pub proof fn rotation_round_trip(degrees: u16)
    requires
        is_rotation(degrees),
    ensures
        rotation_of(degrees) matches Ok(m) && control_of(control_bytes(m)) == Ok::<
            ControlMessage,
            ProtocolError,
        >(m) && degrees_of(m.value) == degrees,
{
}

/// The payload of a touch message survives the wire, whatever follows it.
pub proof fn touch_round_trip(m: TouchMessage, rest: Seq<u8>)
    ensures
        touch_bytes(m).len() == TouchMessage::LEN,
        touch_of(touch_bytes(m) + rest) == Ok::<TouchMessage, ProtocolError>(m),
{
    broadcast use lemma_be_bytes_len;

    lemma_capacities();
    let buf = touch_bytes(m) + rest;
    assert(buf.subrange(2, 4) =~= be_bytes(m.x as nat, 2));
    assert(buf.subrange(4, 6) =~= be_bytes(m.y as nat, 2));
    be_bytes_round_trip(m.x as nat, 2);
    be_bytes_round_trip(m.y as nat, 2);
}

/// Every reverse message is nine bytes and survives the wire, whatever follows it.
pub proof fn reverse_round_trip(m: ReverseMessage, rest: Seq<u8>)
    ensures
        reverse_bytes(m).len() == REVERSE_MSG_LEN,
        reverse_of(reverse_bytes(m) + rest) == Ok::<ReverseMessage, ProtocolError>(m),
{
    broadcast use lemma_be_bytes_len;

    let buf = reverse_bytes(m) + rest;
    match m {
        ReverseMessage::Ack(pts_ns) => {
            lemma_capacities();
            assert(buf.subrange(1, 9) =~= be_bytes(pts_ns as nat, 8));
            be_bytes_round_trip(pts_ns as nat, 8);
        },
        ReverseMessage::Touch(touch) => {
            touch_round_trip(touch, Seq::empty());
            assert(touch_bytes(touch) + Seq::<u8>::empty() =~= touch_bytes(touch));
            assert(buf.subrange(1, 9) =~= touch_bytes(touch));
        },
    }
}

// ----------------------------------------------------------------- layout ---

/// Two bytes as a number, the high one first.
pub open spec fn pair(hi: u8, lo: u8) -> int {
    hi * 256 + lo
}

/// Four bytes as a number, the highest first.
pub open spec fn four(a: u8, b: u8, c: u8, d: u8) -> int {
    pair(a, b) * 65536 + pair(c, d)
}

proof fn lemma_two(s: Seq<u8>)
    requires
        s.len() == 2,
    ensures
        be_value(s) == pair(s[0], s[1]),
{
    reveal_with_fuel(be_value, 3);
}

proof fn lemma_four(s: Seq<u8>)
    requires
        s.len() == 4,
    ensures
        be_value(s) == four(s[0], s[1], s[2], s[3]),
{
    reveal_with_fuel(be_value, 5);
    let a = s.drop_last();
    let b = a.drop_last();
    let c = b.drop_last();
    assert(a.last() == s[2] && b.last() == s[1] && c.last() == s[0]);
    assert(be_value(c) == s[0]);
    assert(be_value(b) == s[0] * 256 + s[1]);
    assert(be_value(a) == be_value(b) * 256 + s[2]);
    assert(be_value(s) == be_value(a) * 256 + s[3]);
}

proof fn lemma_eight(s: Seq<u8>)
    requires
        s.len() == 8,
    ensures
        be_value(s) == four(s[0], s[1], s[2], s[3]) * 4294967296 + four(s[4], s[5], s[6], s[7]),
{
    let t = s.take(4);
    lemma_four(t);
    let p7 = s.drop_last();
    let p6 = p7.drop_last();
    let p5 = p6.drop_last();
    let p4 = p5.drop_last();
    assert(p4 =~= t);
    assert(p7.last() == s[6] && p6.last() == s[5] && p5.last() == s[4]);
    assert(be_value(p5) == be_value(p4) * 256 + s[4]);
    assert(be_value(p6) == be_value(p5) * 256 + s[5]);
    assert(be_value(p7) == be_value(p6) * 256 + s[6]);
    assert(be_value(s) == be_value(p7) * 256 + s[7]);
}

/// What a stream header says, byte for byte: `MRLD`, the version, then width,
/// height and rate with the high byte first, and the codec.
pub proof fn stream_headers_are_read_by_place(b: Seq<u8>)
    requires
        b.len() >= 16,
    ensures
        stream_header_of(b) is Ok <==> b[0] == 0x4d && b[1] == 0x52 && b[2] == 0x4c && b[3] == 0x44
            && b[4] == 0 && b[5] == 3 && b[12] <= 1,
        stream_header_of(b) matches Ok(h) ==> h.width == pair(b[6], b[7]) && h.height == pair(
            b[8],
            b[9],
        ) && h.framerate == pair(b[10], b[11]) && (h.codec == Codec::H264 <==> b[12] == 0) && (
        h.codec == Codec::H265 <==> b[12] == 1),
        stream_header_of(b) matches Err(e) ==> match e {
            ProtocolError::BadMagic(w, x, y, z) => w == b[0] && x == b[1] && y == b[2] && z == b[3],
            ProtocolError::UnsupportedVersion(v) => v == pair(b[4], b[5]),
            ProtocolError::UnknownCodec(c) => c == b[12],
            _ => false,
        },
{
    lemma_two(b.subrange(4, 6));
    lemma_two(b.subrange(6, 8));
    lemma_two(b.subrange(8, 10));
    lemma_two(b.subrange(10, 12));
    let m = b.subrange(0, 4);
    if b[0] == 0x4d && b[1] == 0x52 && b[2] == 0x4c && b[3] == 0x44 {
        assert(m =~= MAGIC@);
    }
    if m == MAGIC@ {
        assert(m[0] == 0x4d && m[1] == 0x52 && m[2] == 0x4c && m[3] == 0x44);
    }
}

/// A stream header byte for byte, as it goes out; what is reserved is zero.
pub proof fn stream_headers_are_written_by_place(h: StreamHeader)
    ensures
        ({
            let b = stream_header_bytes(h);
            &&& b.len() == 16
            &&& b[0] == 0x4d && b[1] == 0x52 && b[2] == 0x4c && b[3] == 0x44
            &&& b[4] == 0 && b[5] == 3
            &&& pair(b[6], b[7]) == h.width && pair(b[8], b[9]) == h.height && pair(b[10], b[11])
                == h.framerate
            &&& b[12] == if h.codec == Codec::H264 {
                0
            } else {
                1u8
            }
            &&& b[13] == 0 && b[14] == 0 && b[15] == 0
        }),
{
    broadcast use lemma_be_bytes_len;

    let b = stream_header_bytes(h);
    stream_header_round_trip(h, Seq::empty());
    assert(b + Seq::<u8>::empty() =~= b);
    stream_headers_are_read_by_place(b);
}

/// What a frame header says, byte for byte: the length, the time, both with the
/// highest byte first, and a bit each for keyframes and control messages.
pub proof fn frame_headers_are_read_by_place(b: Seq<u8>)
    requires
        b.len() >= 16,
    ensures
        frame_header_of(b) matches Ok(h) && h.length == four(b[0], b[1], b[2], b[3]) && h.pts_ns
            == four(b[4], b[5], b[6], b[7]) * 4294967296 + four(b[8], b[9], b[10], b[11]) && (
        h.keyframe <==> b[12] % 2 == 1) && (h.control <==> b[12] / 2 % 2 == 1),
{
    lemma_four(b.subrange(0, 4));
    lemma_eight(b.subrange(4, 12));
    let f = b[12];
    assert((f & 1 != 0) == (f % 2 == 1)) by (bit_vector);
    assert((f & 2 != 0) == (f / 2 % 2 == 1)) by (bit_vector);
}

/// A frame header byte for byte, as it goes out; what is reserved is zero.
pub proof fn frame_headers_are_written_by_place(h: FrameHeader)
    ensures
        ({
            let b = frame_header_bytes(h);
            &&& b.len() == 16
            &&& four(b[0], b[1], b[2], b[3]) == h.length
            &&& four(b[4], b[5], b[6], b[7]) * 4294967296 + four(b[8], b[9], b[10], b[11])
                == h.pts_ns
            &&& b[12] == (if h.keyframe {
                1int
            } else {
                0
            }) + (if h.control {
                2int
            } else {
                0
            })
            &&& b[13] == 0 && b[14] == 0 && b[15] == 0
        }),
{
    broadcast use lemma_be_bytes_len;

    let b = frame_header_bytes(h);
    frame_header_round_trip(h, Seq::empty());
    assert(b + Seq::<u8>::empty() =~= b);
    frame_headers_are_read_by_place(b);
}

/// A control message is its kind, one for brightness and two for rotation, and its
/// value.
pub proof fn control_messages_by_place(m: ControlMessage, b: Seq<u8>)
    requires
        b.len() >= 2,
    ensures
        control_bytes(m).len() == 2,
        control_bytes(m)[0] == if m.kind == ControlKind::Brightness {
            1
        } else {
            2u8
        },
        control_bytes(m)[1] == m.value,
        control_of(b) is Ok <==> b[0] == 1 || b[0] == 2,
        control_of(b) matches Ok(said) ==> said.value == b[1] && (said.kind
            == ControlKind::Brightness <==> b[0] == 1),
        control_of(b) matches Err(e) ==> e == ProtocolError::UnknownControlKind(b[0]),
{
}

/// A rotation is told in quarter turns, and only whole ones can be asked for.
pub proof fn rotations_are_quarter_turns(degrees: u16, value: u8)
    ensures
        rotation_of(degrees) is Ok <==> degrees < 360 && degrees % 90 == 0,
        rotation_of(degrees) matches Ok(m) ==> m.kind == ControlKind::Rotation && m.value * 90
            == degrees,
        rotation_of(degrees) matches Err(e) ==> e == ProtocolError::BadRotation(degrees),
        value < 4 ==> degrees_of(value) == value * 90,
        value >= 4 ==> degrees_of(value) == 0,
{
}

/// What a message from the tablet says, byte for byte: one and the time of the
/// frame that it acknowledges, or two, what the finger did, and where.
pub proof fn reverse_messages_are_read_by_place(b: Seq<u8>)
    requires
        b.len() >= 9,
    ensures
        reverse_of(b) is Ok <==> b[0] == 1 || b[0] == 2 && b[1] <= 3,
        reverse_of(b) matches Ok(ReverseMessage::Ack(t)) ==> b[0] == 1 && t == four(
            b[1],
            b[2],
            b[3],
            b[4],
        ) * 4294967296 + four(b[5], b[6], b[7], b[8]),
        reverse_of(b) matches Ok(ReverseMessage::Touch(t)) ==> b[0] == 2 && t.x == pair(b[3], b[4])
            && t.y == pair(b[5], b[6]) && (t.action == TouchAction::Down <==> b[1] == 0) && (t.action
            == TouchAction::Move <==> b[1] == 1) && (t.action == TouchAction::Up <==> b[1] == 2) && (
        t.action == TouchAction::Cancel <==> b[1] == 3),
        reverse_of(b) matches Err(e) ==> e == if b[0] == 2 {
            ProtocolError::UnknownTouchAction(b[1])
        } else {
            ProtocolError::UnknownReverseType(b[0])
        },
{
    let p = b.subrange(1, 9);
    lemma_eight(p);
    lemma_two(p.subrange(2, 4));
    lemma_two(p.subrange(4, 6));
}

/// A message from the tablet byte for byte; what is reserved is zero.
pub proof fn reverse_messages_are_written_by_place(m: ReverseMessage)
    ensures
        ({
            let b = reverse_bytes(m);
            &&& b.len() == 9
            &&& m matches ReverseMessage::Ack(t) ==> b[0] == 1 && t == four(b[1], b[2], b[3], b[4])
                * 4294967296 + four(b[5], b[6], b[7], b[8])
            &&& m matches ReverseMessage::Touch(t) ==> b[0] == 2 && b[2] == 0 && pair(b[3], b[4])
                == t.x && pair(b[5], b[6]) == t.y && b[7] == 0 && b[8] == 0 && b[1] == match t.action {
                TouchAction::Down => 0u8,
                TouchAction::Move => 1,
                TouchAction::Up => 2,
                TouchAction::Cancel => 3,
            }
        }),
{
    broadcast use lemma_be_bytes_len;

    let b = reverse_bytes(m);
    reverse_round_trip(m, Seq::empty());
    assert(b + Seq::<u8>::empty() =~= b);
    reverse_messages_are_read_by_place(b);
}

/// What is too short for a message is none, and its length is told.
pub proof fn short_messages_are_refused(b: Seq<u8>)
    requires
        b.len() <= usize::MAX,
    ensures
        b.len() < 16 <==> stream_header_of(b) == Err::<StreamHeader, ProtocolError>(
            ProtocolError::StreamHeaderTooShort(b.len() as usize),
        ),
        b.len() < 16 <==> frame_header_of(b) == Err::<FrameHeader, ProtocolError>(
            ProtocolError::FrameHeaderTooShort(b.len() as usize),
        ),
        b.len() < 2 <==> control_of(b) == Err::<ControlMessage, ProtocolError>(
            ProtocolError::ControlMessageTooShort(b.len() as usize),
        ),
        b.len() < 9 <==> reverse_of(b) == Err::<ReverseMessage, ProtocolError>(
            ProtocolError::ReverseMessageTooShort(b.len() as usize),
        ),
{
}

} // verus!
