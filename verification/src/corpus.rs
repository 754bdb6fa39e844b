//! The cross-language protocol conformance corpus.
//!
//! One row per case:
//!
//! ```text
//! name  kind  direction  expect  fields  hex
//! ```
//!
//! `kind` is one of `stream_header`, `frame_header`, `control`, `ack`,
//! `touch`, `reverse`. `direction` is `h2d` (parsed by the device) or `d2h`
//! (encoded by the device). `expect` is `ok` or `err`; `fields` is
//! `k=v;k=v;...` on `ok` and a part of the error message on `err`, empty for
//! "any error". Both ends are held to the same corpus, so that the two never
//! disagree about a byte.

use vstd::prelude::*;

use crate::bytes::{be_bytes, lemma_be_bytes_len};
use crate::number::{decimal, digits, hex_padded, push_decimal, push_hex};
use crate::protocol::{
    control_bytes, control_of, control_round_trip, encode_ack, encode_touch, frame_header_bytes,
    frame_header_of, frame_header_round_trip, other_versions_are_refused, reverse_bytes,
    reverse_of, reverse_round_trip, stream_header_bytes, stream_header_of,
    stream_header_round_trip, Codec, ControlKind, ControlMessage, FrameHeader,
    ProtocolError, ReverseMessage, StreamHeader, TouchAction, TouchMessage, MAGIC, VERSION,
};
use crate::text::occurs_in;

verus! {

/// What the bytes of a case are.
#[derive(Debug, Clone, Copy, PartialEq, Eq, Structural)]
pub enum CaseKind {
    StreamHeader,
    FrameHeader,
    Control,
    Ack,
    Touch,
    Reverse,
}

/// What the bytes of a case say.
#[derive(Debug)]
pub enum Expect {
    Stream(StreamHeader),
    Frame(FrameHeader),
    Control(ControlMessage),
    Reverse(ReverseMessage),
    /// An error whose message has this in it.
    Error(String),
}

/// One case.
#[derive(Debug)]
pub struct Case {
    pub name: String,
    pub kind: CaseKind,
    pub expect: Expect,
    pub bytes: Vec<u8>,
}

pub ghost enum ExpectView {
    Stream(StreamHeader),
    Frame(FrameHeader),
    Control(ControlMessage),
    Reverse(ReverseMessage),
    Error(Seq<char>),
}

pub ghost struct CaseView {
    pub name: Seq<char>,
    pub kind: CaseKind,
    pub expect: ExpectView,
    pub bytes: Seq<u8>,
}

impl View for Expect {
    type V = ExpectView;

    open spec fn view(&self) -> ExpectView {
        match self {
            Expect::Stream(h) => ExpectView::Stream(*h),
            Expect::Frame(h) => ExpectView::Frame(*h),
            Expect::Control(m) => ExpectView::Control(*m),
            Expect::Reverse(m) => ExpectView::Reverse(*m),
            Expect::Error(part) => ExpectView::Error(part@),
        }
    }
}

impl View for Case {
    type V = CaseView;

    open spec fn view(&self) -> CaseView {
        CaseView {
            name: self.name@,
            kind: self.kind,
            expect: self.expect@,
            bytes: self.bytes@,
        }
    }
}

pub open spec fn case_views(v: Seq<Case>) -> Seq<CaseView> {
    v.map_values(|c: Case| c@)
}

/// Whether an error is the one expected.
pub open spec fn is_error(e: ProtocolError, expect: ExpectView) -> bool {
    expect matches ExpectView::Error(part) && occurs_in(e.text(), part)
}

/// Whether the decoders say of the bytes what the case says.
pub open spec fn agrees(c: CaseView) -> bool {
    match c.kind {
        CaseKind::StreamHeader => match stream_header_of(c.bytes) {
            Ok(h) => c.expect == ExpectView::Stream(h),
            Err(e) => is_error(e, c.expect),
        },
        CaseKind::FrameHeader => match frame_header_of(c.bytes) {
            Ok(h) => c.expect == ExpectView::Frame(h),
            Err(e) => is_error(e, c.expect),
        },
        CaseKind::Control => match control_of(c.bytes) {
            Ok(m) => c.expect == ExpectView::Control(m),
            Err(e) => is_error(e, c.expect),
        },
        _ => match reverse_of(c.bytes) {
            Ok(m) => c.expect == ExpectView::Reverse(m),
            Err(e) => is_error(e, c.expect),
        },
    }
}

// ------------------------------------------------------------------- forms ---

/// The stream header that the cases are made from.
pub open spec fn sample_header(codec: Codec) -> StreamHeader {
    StreamHeader { width: 1920, height: 1200, framerate: 60, codec }
}

pub open spec fn sample_bytes() -> Seq<u8> {
    stream_header_bytes(sample_header(Codec::H264))
}

pub open spec fn stream_case(name: Seq<char>, header: StreamHeader) -> CaseView {
    CaseView {
        name,
        kind: CaseKind::StreamHeader,
        expect: ExpectView::Stream(header),
        bytes: stream_header_bytes(header),
    }
}

pub open spec fn error_case(
    name: Seq<char>,
    kind: CaseKind,
    part: Seq<char>,
    bytes: Seq<u8>,
) -> CaseView {
    CaseView { name, kind, expect: ExpectView::Error(part), bytes }
}

pub open spec fn version_bytes(version: u16) -> Seq<u8> {
    MAGIC@ + be_bytes(version as nat, 2) + sample_bytes().skip(6)
}

pub open spec fn version_case(version: u16) -> CaseView {
    error_case(
        "stream_header_version_"@ + decimal(version as nat),
        CaseKind::StreamHeader,
        "version "@ + decimal(version as nat),
        version_bytes(version),
    )
}

pub open spec fn frame(length: u32, pts_ns: u64, keyframe: bool, control: bool) -> FrameHeader {
    FrameHeader { length, pts_ns, keyframe, control }
}

pub open spec fn frame_case(name: Seq<char>, header: FrameHeader) -> CaseView {
    CaseView {
        name,
        kind: CaseKind::FrameHeader,
        expect: ExpectView::Frame(header),
        bytes: frame_header_bytes(header),
    }
}

pub open spec fn control_case(name: Seq<char>, kind: ControlKind, value: u8) -> CaseView {
    let m = ControlMessage { kind, value };
    CaseView {
        name,
        kind: CaseKind::Control,
        expect: ExpectView::Control(m),
        bytes: control_bytes(m),
    }
}

pub open spec fn ack_case(name: Seq<char>, pts_ns: u64) -> CaseView {
    let m = ReverseMessage::Ack(pts_ns);
    CaseView {
        name,
        kind: CaseKind::Ack,
        expect: ExpectView::Reverse(m),
        bytes: reverse_bytes(m),
    }
}

pub open spec fn touch_case(name: Seq<char>, action: TouchAction, x: u16, y: u16) -> CaseView {
    let m = ReverseMessage::Touch(TouchMessage { action, x, y });
    CaseView {
        name,
        kind: CaseKind::Touch,
        expect: ExpectView::Reverse(m),
        bytes: reverse_bytes(m),
    }
}

// ------------------------------------------------------------------- cases ---

pub open spec fn stream_cases() -> Seq<CaseView> {
    seq![
        stream_case("stream_header_valid_h264"@, sample_header(Codec::H264)),
        stream_case("stream_header_valid_h265"@, sample_header(Codec::H265)),
        error_case(
            "stream_header_bad_magic"@,
            CaseKind::StreamHeader,
            "bad magic"@,
            seq![0x58u8, 0x58, 0x58, 0x58] + sample_bytes().skip(4),
        ),
        version_case(0),
        version_case(1),
        version_case(2),
        version_case(4),
        error_case(
            "stream_header_unknown_codec"@,
            CaseKind::StreamHeader,
            "codec id 255"@,
            sample_bytes().update(12, 0xff),
        ),
        error_case(
            "stream_header_truncated_8"@,
            CaseKind::StreamHeader,
            ""@,
            sample_bytes().take(8),
        ),
        error_case(
            "stream_header_truncated_15"@,
            CaseKind::StreamHeader,
            ""@,
            sample_bytes().take(15),
        ),
    ]
}

pub open spec fn frame_cases() -> Seq<CaseView> {
    seq![
        frame_case("frame_header_valid_keyframe"@, frame(32389, 1666666560, true, false)),
        frame_case("frame_header_valid_delta"@, frame(32389, 1666666560, false, false)),
        frame_case("frame_header_control"@, frame(2, 0, false, true)),
        frame_case("frame_header_both_flags"@, frame(2, 0, true, true)),
        frame_case("frame_header_zero_length"@, frame(0, 0, false, false)),
        CaseView {
            bytes: frame_header_bytes(frame(1, 0, false, false)).update(12, 0x04),
            ..frame_case("frame_header_unknown_flag_bit"@, frame(1, 0, false, false))
        },
        error_case(
            "frame_header_truncated_8"@,
            CaseKind::FrameHeader,
            ""@,
            frame_header_bytes(frame(1, 0, false, false)).take(8),
        ),
    ]
}

pub open spec fn control_cases() -> Seq<CaseView> {
    seq![
        control_case("control_brightness_0"@, ControlKind::Brightness, 0),
        control_case("control_brightness_100"@, ControlKind::Brightness, 100),
        control_case("control_rotation_0"@, ControlKind::Rotation, 0),
        control_case("control_rotation_270"@, ControlKind::Rotation, 3),
        control_case("control_rotation_out_of_range"@, ControlKind::Rotation, 0xff),
        error_case(
            "control_unknown_kind"@,
            CaseKind::Control,
            "unknown control kind"@,
            seq![0xffu8, 0u8],
        ),
        error_case(
            "control_unknown_kind_zero"@,
            CaseKind::Control,
            "unknown control kind"@,
            seq![0u8, 0u8],
        ),
        error_case("control_truncated_1"@, CaseKind::Control, ""@, seq![0x01u8]),
        error_case("control_truncated_0"@, CaseKind::Control, ""@, Seq::empty()),
    ]
}

pub open spec fn reverse_cases() -> Seq<CaseView> {
    seq![
        ack_case("ack_zero"@, 0),
        ack_case("ack_typical"@, 1666666560),
        ack_case("ack_max"@, u64::MAX),
        touch_case("touch_down_0_0"@, TouchAction::Down, 0, 0),
        touch_case("touch_move_center"@, TouchAction::Move, 32768, 32768),
        touch_case("touch_up_max"@, TouchAction::Up, 65535, 65535),
        touch_case("touch_cancel"@, TouchAction::Cancel, 0x1234, 0xabcd),
        error_case(
            "reverse_unknown_type"@,
            CaseKind::Reverse,
            "unknown reverse message type"@,
            seq![0xeeu8, 0, 0, 0, 0, 0, 0, 0, 0],
        ),
        error_case(
            "reverse_truncated"@,
            CaseKind::Reverse,
            ""@,
            seq![0x01u8, 0, 0, 0],
        ),
        error_case(
            "touch_unknown_action"@,
            CaseKind::Reverse,
            "unknown touch action"@,
            seq![0x02u8, 0x7f, 0, 0, 0, 0, 0, 0, 0],
        ),
    ]
}

/// The whole corpus.
pub open spec fn corpus() -> Seq<CaseView> {
    stream_cases() + frame_cases() + control_cases() + reverse_cases()
}

fn bytes_of(slice: &[u8]) -> (r: Vec<u8>)
    ensures
        r@ == slice@,
{
    let mut out: Vec<u8> = Vec::new();
    out.extend_from_slice(slice);
    assert(out@ =~= slice@);
    out
}

fn make_stream(name: &str, header: StreamHeader) -> (r: Case)
    ensures
        r@ == stream_case(name@, header),
{
    Case {
        name: String::from_str(name),
        kind: CaseKind::StreamHeader,
        expect: Expect::Stream(header),
        bytes: bytes_of(header.encode().as_slice()),
    }
}

fn make_error(name: &str, kind: CaseKind, part: &str, bytes: Vec<u8>) -> (r: Case)
    ensures
        r@ == error_case(name@, kind, part@, bytes@),
{
    Case {
        name: String::from_str(name),
        kind,
        expect: Expect::Error(String::from_str(part)),
        bytes,
    }
}

fn make_frame(name: &str, length: u32, pts_ns: u64, keyframe: bool, control: bool) -> (r: Case)
    ensures
        r@ == frame_case(name@, frame(length, pts_ns, keyframe, control)),
{
    let header = FrameHeader { length, pts_ns, keyframe, control };
    Case {
        name: String::from_str(name),
        kind: CaseKind::FrameHeader,
        expect: Expect::Frame(header),
        bytes: bytes_of(header.encode().as_slice()),
    }
}

fn make_control(name: &str, kind: ControlKind, value: u8) -> (r: Case)
    ensures
        r@ == control_case(name@, kind, value),
{
    let m = ControlMessage { kind, value };
    Case {
        name: String::from_str(name),
        kind: CaseKind::Control,
        expect: Expect::Control(m),
        bytes: bytes_of(m.encode().as_slice()),
    }
}

fn make_ack(name: &str, pts_ns: u64) -> (r: Case)
    ensures
        r@ == ack_case(name@, pts_ns),
{
    Case {
        name: String::from_str(name),
        kind: CaseKind::Ack,
        expect: Expect::Reverse(ReverseMessage::Ack(pts_ns)),
        bytes: bytes_of(encode_ack(pts_ns).as_slice()),
    }
}

fn make_touch(name: &str, action: TouchAction, x: u16, y: u16) -> (r: Case)
    ensures
        r@ == touch_case(name@, action, x, y),
{
    let m = TouchMessage { action, x, y };
    Case {
        name: String::from_str(name),
        kind: CaseKind::Touch,
        expect: Expect::Reverse(ReverseMessage::Touch(m)),
        bytes: bytes_of(encode_touch(&m).as_slice()),
    }
}

fn make_sample() -> (r: Vec<u8>)
    ensures
        r@ == sample_bytes(),
        r@.len() == 16,
{
    let header = StreamHeader { width: 1920, height: 1200, framerate: 60, codec: Codec::H264 };
    let r = bytes_of(header.encode().as_slice());
    proof {
        stream_header_round_trip(sample_header(Codec::H264), Seq::empty());
    }
    r
}

fn make_version(version: u16) -> (r: Case)
    ensures
        r@ == version_case(version),
{
    let mut name = String::from_str("stream_header_version_");
    push_decimal(&mut name, version as u64);
    let mut part = String::from_str("version ");
    push_decimal(&mut part, version as u64);
    let v = crate::bytes::be16(version);
    let mut bytes = make_sample();
    proof {
        lemma_be_bytes_len(version as nat, 2);
        lemma_be_bytes_len(VERSION as nat, 2);
    }
    bytes[4] = v[0];
    bytes[5] = v[1];
    assert(bytes@ =~= version_bytes(version)) by {
        assert(sample_bytes().take(4) =~= MAGIC@);
        assert(forall|i: int| 0 <= i < 4 ==> sample_bytes().take(4)[i] == sample_bytes()[i]);
    }
    make_error(name.as_str(), CaseKind::StreamHeader, part.as_str(), bytes)
}

fn make_stream_cases() -> (r: Vec<Case>)
    ensures
        case_views(r@) == stream_cases(),
{
    let mut v: Vec<Case> = Vec::new();
    v.push(
        make_stream(
            "stream_header_valid_h264",
            StreamHeader { width: 1920, height: 1200, framerate: 60, codec: Codec::H264 },
        ),
    );
    v.push(
        make_stream(
            "stream_header_valid_h265",
            StreamHeader { width: 1920, height: 1200, framerate: 60, codec: Codec::H265 },
        ),
    );
    let mut bad = make_sample();
    bad[0] = 0x58;
    bad[1] = 0x58;
    bad[2] = 0x58;
    bad[3] = 0x58;
    assert(bad@ =~= seq![0x58u8, 0x58, 0x58, 0x58] + sample_bytes().skip(4));
    v.push(
        make_error("stream_header_bad_magic", CaseKind::StreamHeader, "bad magic", bad),
    );
    v.push(make_version(0));
    v.push(make_version(1));
    v.push(make_version(2));
    v.push(make_version(4));
    let mut codec = make_sample();
    codec[12] = 0xff;
    v.push(
        make_error("stream_header_unknown_codec", CaseKind::StreamHeader, "codec id 255", codec),
    );
    let mut eight = make_sample();
    eight.truncate(8);
    assert(eight@ =~= sample_bytes().take(8));
    v.push(make_error("stream_header_truncated_8", CaseKind::StreamHeader, "", eight));
    let mut fifteen = make_sample();
    fifteen.truncate(15);
    assert(fifteen@ =~= sample_bytes().take(15));
    v.push(make_error("stream_header_truncated_15", CaseKind::StreamHeader, "", fifteen));
    assert(case_views(v@) =~= stream_cases());
    v
}

fn make_frame_cases() -> (r: Vec<Case>)
    ensures
        case_views(r@) == frame_cases(),
{
    let mut v: Vec<Case> = Vec::new();
    v.push(make_frame("frame_header_valid_keyframe", 32389, 1666666560, true, false));
    v.push(make_frame("frame_header_valid_delta", 32389, 1666666560, false, false));
    v.push(make_frame("frame_header_control", 2, 0, false, true));
    v.push(make_frame("frame_header_both_flags", 2, 0, true, true));
    v.push(make_frame("frame_header_zero_length", 0, 0, false, false));
    proof {
        frame_header_round_trip(frame(1, 0, false, false), Seq::empty());
    }
    let mut unknown = make_frame("frame_header_unknown_flag_bit", 1, 0, false, false);
    let mut bytes = bytes_of(unknown.bytes.as_slice());
    bytes[12] = 0x04;
    unknown.bytes = bytes;
    v.push(unknown);
    let mut eight = make_frame("", 1, 0, false, false).bytes;
    eight.truncate(8);
    assert(eight@ =~= frame_header_bytes(frame(1, 0, false, false)).take(8));
    v.push(make_error("frame_header_truncated_8", CaseKind::FrameHeader, "", eight));
    assert(case_views(v@) =~= frame_cases());
    v
}

fn make_control_cases() -> (r: Vec<Case>)
    ensures
        case_views(r@) == control_cases(),
{
    let mut v: Vec<Case> = Vec::new();
    v.push(make_control("control_brightness_0", ControlKind::Brightness, 0));
    v.push(make_control("control_brightness_100", ControlKind::Brightness, 100));
    v.push(make_control("control_rotation_0", ControlKind::Rotation, 0));
    v.push(make_control("control_rotation_270", ControlKind::Rotation, 3));
    v.push(make_control("control_rotation_out_of_range", ControlKind::Rotation, 0xff));
    let a: Vec<u8> = vec![0xff, 0];
    let b: Vec<u8> = vec![0, 0];
    let c: Vec<u8> = vec![0x01];
    let d: Vec<u8> = Vec::new();
    assert(a@ =~= seq![0xffu8, 0u8]);
    assert(b@ =~= seq![0u8, 0u8]);
    assert(c@ =~= seq![0x01u8]);
    assert(d@ =~= Seq::<u8>::empty());
    v.push(make_error("control_unknown_kind", CaseKind::Control, "unknown control kind", a));
    v.push(make_error("control_unknown_kind_zero", CaseKind::Control, "unknown control kind", b));
    v.push(make_error("control_truncated_1", CaseKind::Control, "", c));
    v.push(make_error("control_truncated_0", CaseKind::Control, "", d));
    assert(case_views(v@) =~= control_cases());
    v
}

fn make_reverse_cases() -> (r: Vec<Case>)
    ensures
        case_views(r@) == reverse_cases(),
{
    let mut v: Vec<Case> = Vec::new();
    v.push(make_ack("ack_zero", 0));
    v.push(make_ack("ack_typical", 1666666560));
    v.push(make_ack("ack_max", u64::MAX));
    v.push(make_touch("touch_down_0_0", TouchAction::Down, 0, 0));
    v.push(make_touch("touch_move_center", TouchAction::Move, 32768, 32768));
    v.push(make_touch("touch_up_max", TouchAction::Up, 65535, 65535));
    v.push(make_touch("touch_cancel", TouchAction::Cancel, 0x1234, 0xabcd));
    let a: Vec<u8> = vec![0xee, 0, 0, 0, 0, 0, 0, 0, 0];
    let b: Vec<u8> = vec![0x01, 0, 0, 0];
    let c: Vec<u8> = vec![0x02, 0x7f, 0, 0, 0, 0, 0, 0, 0];
    assert(a@ =~= seq![0xeeu8, 0, 0, 0, 0, 0, 0, 0, 0]);
    assert(b@ =~= seq![0x01u8, 0, 0, 0]);
    assert(c@ =~= seq![0x02u8, 0x7f, 0, 0, 0, 0, 0, 0, 0]);
    v.push(
        make_error("reverse_unknown_type", CaseKind::Reverse, "unknown reverse message type", a),
    );
    v.push(make_error("reverse_truncated", CaseKind::Reverse, "", b));
    v.push(make_error("touch_unknown_action", CaseKind::Reverse, "unknown touch action", c));
    assert(case_views(v@) =~= reverse_cases());
    v
}

/// The whole corpus.
pub fn cases() -> (r: Vec<Case>)
    ensures
        case_views(r@) == corpus(),
{
    let mut all = make_stream_cases();
    let mut frames = make_frame_cases();
    let mut controls = make_control_cases();
    let mut reverses = make_reverse_cases();
    let ghost a = all@;
    let ghost b = frames@;
    let ghost c = controls@;
    let ghost d = reverses@;
    all.append(&mut frames);
    all.append(&mut controls);
    all.append(&mut reverses);
    proof {
        assert(all@ =~= a + b + c + d);
        assert(case_views(all@) =~= case_views(a) + case_views(b) + case_views(c) + case_views(d));
    }
    all
}

// -------------------------------------------------------------------- text ---

pub open spec fn kind_text(kind: CaseKind) -> Seq<char> {
    match kind {
        CaseKind::StreamHeader => "stream_header"@,
        CaseKind::FrameHeader => "frame_header"@,
        CaseKind::Control => "control"@,
        CaseKind::Ack => "ack"@,
        CaseKind::Touch => "touch"@,
        CaseKind::Reverse => "reverse"@,
    }
}

pub open spec fn direction_text(kind: CaseKind) -> Seq<char> {
    match kind {
        CaseKind::StreamHeader | CaseKind::FrameHeader | CaseKind::Control => "h2d"@,
        _ => "d2h"@,
    }
}

pub open spec fn bool_text(b: bool) -> Seq<char> {
    if b {
        "true"@
    } else {
        "false"@
    }
}

pub open spec fn codec_text(codec: Codec) -> Seq<char> {
    match codec {
        Codec::H264 => "H264"@,
        Codec::H265 => "H265"@,
    }
}

pub open spec fn control_kind_text(kind: ControlKind) -> Seq<char> {
    match kind {
        ControlKind::Brightness => "Brightness"@,
        ControlKind::Rotation => "Rotation"@,
    }
}

pub open spec fn action_text(action: TouchAction) -> Seq<char> {
    match action {
        TouchAction::Down => "Down"@,
        TouchAction::Move => "Move"@,
        TouchAction::Up => "Up"@,
        TouchAction::Cancel => "Cancel"@,
    }
}

/// What a case expects, as text.
pub open spec fn fields_text(expect: ExpectView) -> Seq<char> {
    match expect {
        ExpectView::Stream(h) => "width="@ + decimal(h.width as nat) + ";height="@ + decimal(
            h.height as nat,
        ) + ";framerate="@ + decimal(h.framerate as nat) + ";codec="@ + codec_text(h.codec),
        ExpectView::Frame(h) => "length="@ + decimal(h.length as nat) + ";pts_ns="@ + decimal(
            h.pts_ns as nat,
        ) + ";keyframe="@ + bool_text(h.keyframe) + ";control="@ + bool_text(h.control),
        ExpectView::Control(m) => "kind="@ + control_kind_text(m.kind) + ";value="@ + decimal(
            m.value as nat,
        ),
        ExpectView::Reverse(ReverseMessage::Ack(pts_ns)) => "pts_ns="@ + decimal(pts_ns as nat),
        ExpectView::Reverse(ReverseMessage::Touch(t)) => "action="@ + action_text(t.action) + ";x="@
            + decimal(t.x as nat) + ";y="@ + decimal(t.y as nat),
        ExpectView::Error(part) => part,
    }
}

/// Bytes in hexadecimal, two digits each.
pub open spec fn hex_text(bytes: Seq<u8>) -> Seq<char>
    decreases bytes.len(),
{
    if bytes.len() == 0 {
        Seq::empty()
    } else {
        hex_text(bytes.drop_last()) + hex_padded(bytes.last() as nat, 2)
    }
}

/// One row of the corpus.
pub open spec fn row_text(c: CaseView) -> Seq<char> {
    c.name + "\t"@ + kind_text(c.kind) + "\t"@ + direction_text(c.kind) + "\t"@
        + (if c.expect is Error {
        "err"@
    } else {
        "ok"@
    }) + "\t"@ + fields_text(c.expect) + "\t"@ + hex_text(c.bytes) + "\n"@
}

/// All rows.
pub open spec fn rows_text(cases: Seq<CaseView>) -> Seq<char>
    decreases cases.len(),
{
    if cases.len() == 0 {
        Seq::empty()
    } else {
        rows_text(cases.drop_last()) + row_text(cases.last())
    }
}

/// What stands above the rows.
pub open spec fn heading_text() -> Seq<char> {
    "# moreland protocol conformance corpus\n# protocol VERSION: "@ + decimal(VERSION as nat)
        + "\n# columns: name\\tkind\\tdirection\\texpect\\tfields\\thex\n"@
}

fn push_fields(out: &mut String, expect: &Expect)
    ensures
        final(out)@ == old(out)@ + fields_text(expect@),
{
    match expect {
        Expect::Stream(h) => {
            out.append("width=");
            push_decimal(out, h.width as u64);
            out.append(";height=");
            push_decimal(out, h.height as u64);
            out.append(";framerate=");
            push_decimal(out, h.framerate as u64);
            out.append(";codec=");
            out.append(
                match h.codec {
                    Codec::H264 => "H264",
                    Codec::H265 => "H265",
                },
            );
        },
        Expect::Frame(h) => {
            out.append("length=");
            push_decimal(out, h.length as u64);
            out.append(";pts_ns=");
            push_decimal(out, h.pts_ns);
            out.append(";keyframe=");
            push_bool(out, h.keyframe);
            out.append(";control=");
            push_bool(out, h.control);
        },
        Expect::Control(m) => {
            out.append("kind=");
            out.append(
                match m.kind {
                    ControlKind::Brightness => "Brightness",
                    ControlKind::Rotation => "Rotation",
                },
            );
            out.append(";value=");
            push_decimal(out, m.value as u64);
        },
        Expect::Reverse(m) => {
            match m {
                ReverseMessage::Ack(pts_ns) => {
                    out.append("pts_ns=");
                    push_decimal(out, *pts_ns);
                },
                ReverseMessage::Touch(t) => {
                    out.append("action=");
                    out.append(
                        match t.action {
                            TouchAction::Down => "Down",
                            TouchAction::Move => "Move",
                            TouchAction::Up => "Up",
                            TouchAction::Cancel => "Cancel",
                        },
                    );
                    out.append(";x=");
                    push_decimal(out, t.x as u64);
                    out.append(";y=");
                    push_decimal(out, t.y as u64);
                },
            }
        },
        Expect::Error(part) => {
            out.append(part.as_str());
        },
    }
    assert(out@ =~= old(out)@ + fields_text(expect@));
}

fn push_bool(out: &mut String, b: bool)
    ensures
        final(out)@ == old(out)@ + bool_text(b),
{
    if b {
        out.append("true");
    } else {
        out.append("false");
    }
}

fn push_bytes(out: &mut String, bytes: &Vec<u8>)
    ensures
        final(out)@ == old(out)@ + hex_text(bytes@),
{
    let mut i: usize = 0;
    assert(out@ =~= old(out)@ + hex_text(bytes@.take(0)));
    while i < bytes.len()
        invariant
            i <= bytes@.len(),
            out@ == old(out)@ + hex_text(bytes@.take(i as int)),
        decreases bytes@.len() - i,
    {
        assert(bytes@.take(i + 1).drop_last() =~= bytes@.take(i as int));
        let ghost before = out@;
        push_hex(out, bytes[i] as u64, 2);
        assert(out@ =~= old(out)@ + hex_text(bytes@.take(i + 1)));
        i += 1;
    }
    assert(bytes@.take(i as int) =~= bytes@);
}

/// One row of the corpus.
pub fn row(c: &Case) -> (r: String)
    ensures
        r@ == row_text(c@),
{
    let mut out = String::from_str(c.name.as_str());
    out.append("\t");
    out.append(
        match c.kind {
            CaseKind::StreamHeader => "stream_header",
            CaseKind::FrameHeader => "frame_header",
            CaseKind::Control => "control",
            CaseKind::Ack => "ack",
            CaseKind::Touch => "touch",
            CaseKind::Reverse => "reverse",
        },
    );
    out.append("\t");
    out.append(
        match c.kind {
            CaseKind::StreamHeader => "h2d",
            CaseKind::FrameHeader => "h2d",
            CaseKind::Control => "h2d",
            _ => "d2h",
        },
    );
    out.append("\t");
    out.append(
        match c.expect {
            Expect::Error(_) => "err",
            _ => "ok",
        },
    );
    out.append("\t");
    push_fields(&mut out, &c.expect);
    out.append("\t");
    push_bytes(&mut out, &c.bytes);
    out.append("\n");
    out
}

/// The corpus as it is written to a file.
pub fn corpus_text() -> (r: String)
    ensures
        r@ == heading_text() + rows_text(corpus()),
{
    let all = cases();
    let ghost views = case_views(all@);
    let mut out = String::from_str("# moreland protocol conformance corpus\n# protocol VERSION: ");
    push_decimal(&mut out, VERSION as u64);
    out.append("\n# columns: name\\tkind\\tdirection\\texpect\\tfields\\thex\n");
    let mut i: usize = 0;
    assert(out@ =~= heading_text() + rows_text(views.take(0)));
    while i < all.len()
        invariant
            i <= all@.len(),
            views == case_views(all@),
            out@ == heading_text() + rows_text(views.take(i as int)),
        decreases all@.len() - i,
    {
        assert(views.take(i + 1).drop_last() =~= views.take(i as int));
        assert(views.take(i + 1).last() == all@[i as int]@);
        out.append(row(&all[i]).as_str());
        assert(out@ =~= heading_text() + rows_text(views.take(i + 1)));
        i += 1;
    }
    assert(views.take(i as int) =~= views);
    out
}

// -------------------------------------------------------------------- laws ---

proof fn lemma_occurs(text: Seq<char>, part: Seq<char>, at: int)
    requires
        0 <= at <= text.len() - part.len(),
        text.subrange(at, at + part.len()) == part,
    ensures
        occurs_in(text, part),
{
}

proof fn lemma_any_error(e: ProtocolError)
    ensures
        is_error(e, ExpectView::Error(""@)),
{
    reveal_strlit("");
    assert(e.text().subrange(0, 0) =~= ""@);
    lemma_occurs(e.text(), ""@, 0);
}

proof fn lemma_version_case(version: u16)
    requires
        version != VERSION,
    ensures
        agrees(version_case(version)),
{
    other_versions_are_refused(sample_header(Codec::H264), version);
    let text = ProtocolError::UnsupportedVersion(version).text();
    let part = "version "@ + decimal(version as nat);
    reveal_strlit("unsupported protocol version ");
    reveal_strlit("version ");
    assert(text.subrange(21, (21 + part.len()) as int) =~= part);
    lemma_occurs(text, part, 21);
}

proof fn lemma_stream_cases(i: int)
    requires
        0 <= i < stream_cases().len(),
    ensures
        agrees(stream_cases()[i]),
{
    broadcast use lemma_be_bytes_len;

    let sample = sample_bytes();
    stream_header_round_trip(sample_header(Codec::H264), Seq::empty());
    stream_header_round_trip(sample_header(Codec::H265), Seq::empty());
    assert(sample + Seq::<u8>::empty() =~= sample);
    let other = stream_header_bytes(sample_header(Codec::H265));
    assert(other + Seq::<u8>::empty() =~= other);
    lemma_version_case(0);
    lemma_version_case(1);
    lemma_version_case(2);
    lemma_version_case(4);
    if i == 2 {
        let bytes = stream_cases()[2].bytes;
        assert(bytes.subrange(0, 4)[0] != MAGIC@[0]);
        let e = ProtocolError::BadMagic(bytes[0], bytes[1], bytes[2], bytes[3]);
        reveal_strlit("bad magic: [");
        reveal_strlit("bad magic");
        assert(e.text().subrange(0, 9) =~= "bad magic"@);
        lemma_occurs(e.text(), "bad magic"@, 0);
    }
    if i == 7 {
        let bytes = sample.update(12, 0xff);
        assert(bytes.subrange(0, 4) =~= sample.subrange(0, 4));
        assert(bytes.subrange(4, 6) =~= sample.subrange(4, 6));
        let e = ProtocolError::UnknownCodec(0xff);
        reveal_strlit("unknown codec id ");
        reveal_strlit("codec id 255");
        reveal_with_fuel(digits, 4);
        assert(decimal(255) =~= seq!['2', '5', '5']);
        assert(e.text().subrange(8, 20) =~= "codec id 255"@);
        lemma_occurs(e.text(), "codec id 255"@, 8);
    }
    if i == 8 {
        lemma_any_error(ProtocolError::StreamHeaderTooShort(8));
    }
    if i == 9 {
        lemma_any_error(ProtocolError::StreamHeaderTooShort(15));
    }
}

proof fn lemma_frame_cases(i: int)
    requires
        0 <= i < frame_cases().len(),
    ensures
        agrees(frame_cases()[i]),
{
    broadcast use lemma_be_bytes_len;

    if i < 5 {
        let c = frame_cases()[i];
        let h = c.expect->Frame_0;
        assert(c == frame_case(c.name, h));
        frame_header_round_trip(h, Seq::empty());
        assert(frame_header_bytes(h) + Seq::<u8>::empty() =~= frame_header_bytes(h));
    } else {
        let h = frame(1, 0, false, false);
        let plain = frame_header_bytes(h);
        frame_header_round_trip(h, Seq::empty());
        assert(plain + Seq::<u8>::empty() =~= plain);
        if i == 5 {
            let bytes = plain.update(12, 0x04);
            assert(0x04u8 & 1 == 0 && 0x04u8 & 2 == 0) by (bit_vector);
            assert(bytes.subrange(0, 4) =~= plain.subrange(0, 4));
            assert(bytes.subrange(4, 12) =~= plain.subrange(4, 12));
        } else {
            lemma_any_error(ProtocolError::FrameHeaderTooShort(8));
        }
    }
}

proof fn lemma_control_cases(i: int)
    requires
        0 <= i < control_cases().len(),
    ensures
        agrees(control_cases()[i]),
{
    if i < 5 {
        let c = control_cases()[i];
        let m = c.expect->Control_0;
        control_round_trip(m, Seq::empty());
        assert(control_bytes(m) + Seq::<u8>::empty() =~= control_bytes(m));
    } else if i < 7 {
        let e = ProtocolError::UnknownControlKind(control_cases()[i].bytes[0]);
        reveal_strlit("unknown control kind ");
        reveal_strlit("unknown control kind");
        assert(e.text().subrange(0, 20) =~= "unknown control kind"@);
        lemma_occurs(e.text(), "unknown control kind"@, 0);
    } else if i == 7 {
        lemma_any_error(ProtocolError::ControlMessageTooShort(1));
    } else {
        lemma_any_error(ProtocolError::ControlMessageTooShort(0));
    }
}

proof fn lemma_reverse_cases(i: int)
    requires
        0 <= i < reverse_cases().len(),
    ensures
        agrees(reverse_cases()[i]),
{
    if i < 7 {
        let c = reverse_cases()[i];
        let m = c.expect->Reverse_0;
        reverse_round_trip(m, Seq::empty());
        assert(reverse_bytes(m) + Seq::<u8>::empty() =~= reverse_bytes(m));
    } else if i == 7 {
        let e = ProtocolError::UnknownReverseType(0xee);
        reveal_strlit("unknown reverse message type ");
        reveal_strlit("unknown reverse message type");
        assert(e.text().subrange(0, 28) =~= "unknown reverse message type"@);
        lemma_occurs(e.text(), "unknown reverse message type"@, 0);
    } else if i == 8 {
        lemma_any_error(ProtocolError::ReverseMessageTooShort(4));
    } else {
        let bytes = reverse_cases()[9].bytes;
        let payload = bytes.subrange(1, 9);
        assert(payload[0] == 0x7f);
        let e = ProtocolError::UnknownTouchAction(0x7f);
        reveal_strlit("unknown touch action ");
        reveal_strlit("unknown touch action");
        assert(e.text().subrange(0, 20) =~= "unknown touch action"@);
        lemma_occurs(e.text(), "unknown touch action"@, 0);
    }
}

/// The decoders say of every case what the corpus says.
pub proof fn corpus_holds(i: int)
    requires
        0 <= i < corpus().len(),
    ensures
        agrees(corpus()[i]),
{
    let a = stream_cases().len() as int;
    let b = a + frame_cases().len();
    let c = b + control_cases().len();
    if i < a {
        lemma_stream_cases(i);
    } else if i < b {
        lemma_frame_cases(i - a);
        assert(corpus()[i] == frame_cases()[i - a]);
    } else if i < c {
        lemma_control_cases(i - b);
        assert(corpus()[i] == control_cases()[i - b]);
    } else {
        lemma_reverse_cases(i - c);
        assert(corpus()[i] == reverse_cases()[i - c]);
    }
}

// ------------------------------------------------------------------- names ---

/// Where a case stands in the corpus, told by the length of its name and its
/// last two characters.
spec fn place(name: Seq<char>) -> int {
    let last = name[name.len() - 1];
    let before = name[name.len() - 2];
    if name.len() == 7 {
        28
    } else if name.len() == 8 {
        26
    } else if name.len() == 11 {
        27
    } else if name.len() == 12 {
        if last == 'x' {
            31
        } else {
            32
        }
    } else if name.len() == 14 {
        29
    } else if name.len() == 17 {
        if last == 'r' {
            30
        } else {
            34
        }
    } else if name.len() == 18 {
        19
    } else if name.len() == 19 {
        if last == '1' {
            24
        } else {
            25
        }
    } else if name.len() == 20 {
        if last == 'l' {
            12
        } else if last == '0' {
            if before == '_' {
                17
            } else {
                20
            }
        } else if last == 'd' {
            22
        } else if last == 'e' {
            33
        } else {
            35
        }
    } else if name.len() == 22 {
        18
    } else if name.len() == 23 {
        if last == 'c' {
            2
        } else if last == '0' {
            3
        } else if last == '1' {
            4
        } else if last == '2' {
            5
        } else if last == '4' {
            6
        } else {
            13
        }
    } else if name.len() == 24 {
        if last == '4' {
            0
        } else if last == '5' {
            1
        } else if last == 'a' {
            11
        } else if last == 'h' {
            14
        } else {
            16
        }
    } else if name.len() == 25 {
        if last == '8' {
            8
        } else {
            23
        }
    } else if name.len() == 26 {
        9
    } else if name.len() == 27 {
        if last == 'c' {
            7
        } else {
            10
        }
    } else {
        if last == 't' {
            15
        } else {
            21
        }
    }
}

proof fn lemma_stream_places(i: int)
    requires
        0 <= i < stream_cases().len(),
    ensures
        place(stream_cases()[i].name) == i,
{
    reveal_strlit("stream_header_valid_h264");
    reveal_strlit("stream_header_valid_h265");
    reveal_strlit("stream_header_bad_magic");
    reveal_strlit("stream_header_version_");
    reveal_strlit("stream_header_unknown_codec");
    reveal_strlit("stream_header_truncated_8");
    reveal_strlit("stream_header_truncated_15");
    reveal_with_fuel(digits, 2);
    assert(decimal(0) =~= seq!['0']);
    assert(decimal(1) =~= seq!['1']);
    assert(decimal(2) =~= seq!['2']);
    assert(decimal(4) =~= seq!['4']);
}

proof fn lemma_frame_places(i: int)
    requires
        0 <= i < frame_cases().len(),
    ensures
        place(frame_cases()[i].name) == 10 + i,
{
    reveal_strlit("frame_header_valid_keyframe");
    reveal_strlit("frame_header_valid_delta");
    reveal_strlit("frame_header_control");
    reveal_strlit("frame_header_both_flags");
    reveal_strlit("frame_header_zero_length");
    reveal_strlit("frame_header_unknown_flag_bit");
    reveal_strlit("frame_header_truncated_8");
}

proof fn lemma_control_places(i: int)
    requires
        0 <= i < control_cases().len(),
    ensures
        place(control_cases()[i].name) == 17 + i,
{
    reveal_strlit("control_brightness_0");
    reveal_strlit("control_brightness_100");
    reveal_strlit("control_rotation_0");
    reveal_strlit("control_rotation_270");
    reveal_strlit("control_rotation_out_of_range");
    reveal_strlit("control_unknown_kind");
    reveal_strlit("control_unknown_kind_zero");
    reveal_strlit("control_truncated_1");
    reveal_strlit("control_truncated_0");
}

proof fn lemma_reverse_places(i: int)
    requires
        0 <= i < reverse_cases().len(),
    ensures
        place(reverse_cases()[i].name) == 26 + i,
{
    reveal_strlit("ack_zero");
    reveal_strlit("ack_typical");
    reveal_strlit("ack_max");
    reveal_strlit("touch_down_0_0");
    reveal_strlit("touch_move_center");
    reveal_strlit("touch_up_max");
    reveal_strlit("touch_cancel");
    reveal_strlit("reverse_unknown_type");
    reveal_strlit("reverse_truncated");
    reveal_strlit("touch_unknown_action");
}

proof fn lemma_place(i: int)
    requires
        0 <= i < corpus().len(),
    ensures
        place(corpus()[i].name) == i,
{
    let a = stream_cases().len() as int;
    let b = a + frame_cases().len();
    let c = b + control_cases().len();
    if i < a {
        lemma_stream_places(i);
    } else if i < b {
        lemma_frame_places(i - a);
        assert(corpus()[i] == frame_cases()[i - a]);
    } else if i < c {
        lemma_control_places(i - b);
        assert(corpus()[i] == control_cases()[i - b]);
    } else {
        lemma_reverse_places(i - c);
        assert(corpus()[i] == reverse_cases()[i - c]);
    }
}

/// No two cases have the same name.
pub proof fn case_names_differ(i: int, j: int)
    requires
        0 <= i < j < corpus().len(),
    ensures
        corpus()[i].name != corpus()[j].name,
{
    lemma_place(i);
    lemma_place(j);
}

/// What an acknowledgement or a touch in the corpus says is encoded as the
/// bytes that stand beside it.
pub proof fn reverse_cases_encode_back(i: int)
    requires
        0 <= i < corpus().len(),
        corpus()[i].kind == CaseKind::Ack || corpus()[i].kind == CaseKind::Touch,
    ensures
        corpus()[i].expect matches ExpectView::Reverse(m) && corpus()[i].bytes == reverse_bytes(m),
{
    let c = (stream_cases().len() + frame_cases().len() + control_cases().len()) as int;
    if i >= c {
        assert(corpus()[i] == reverse_cases()[i - c]);
    } else if i >= stream_cases().len() + frame_cases().len() {
        let b = stream_cases().len() + frame_cases().len();
        assert(corpus()[i] == control_cases()[i - b]);
    } else if i >= stream_cases().len() {
        assert(corpus()[i] == frame_cases()[i - stream_cases().len()]);
    }
}

/// Every byte of a case is two digits of its row, in order.
pub proof fn bytes_are_two_digits_each(bytes: Seq<u8>, b: u8)
    ensures
        hex_text(Seq::<u8>::empty()) == Seq::<char>::empty(),
        hex_text(bytes.push(b)) == hex_text(bytes) + hex_padded(b as nat, 2),
{
    assert(bytes.push(b).drop_last() =~= bytes);
}

/// Every case is one row, in order.
pub proof fn cases_are_one_row_each(cases: Seq<CaseView>, c: CaseView)
    ensures
        rows_text(Seq::<CaseView>::empty()) == Seq::<char>::empty(),
        rows_text(cases.push(c)) == rows_text(cases) + row_text(c),
{
    assert(cases.push(c).drop_last() =~= cases);
}

} // verus!
