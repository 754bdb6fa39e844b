//! Screen capture of the virtual output.

pub mod discovery;
pub mod dmabuf;
pub mod frames;
pub mod plasma;
pub mod session;
pub mod shm;

use vstd::prelude::*;

use crate::number::{hex_padded, push_hex};

verus! {

/// Name of the virtual output. Hyprland accepts an explicit name, so it is
/// never guessed.
pub const VIRTUAL_OUTPUT_NAME: &'static str = "moreland";

/// `XR24` — opaque 8-bit BGRX, the format captured from the virtual output.
pub const XR24: u32 = 0x3432_5258;

/// `AR24` — the same with alpha.
pub const AR24: u32 = 0x3432_5241;

/// Modifiers to use when the encoder cannot be probed: the linear one, which
/// everything can import.
pub const FALLBACK_MODIFIERS: [u64; 1] = [0];

/// Wayland globals the capture pipeline depends on.
pub const REQUIRED_GLOBALS: [&'static str; 4] = [
    "wl_shm",
    "zwp_linux_dmabuf_v1",
    "ext_image_copy_capture_manager_v1",
    "ext_output_image_capture_source_manager_v1",
];

/// The `i`-th byte of a fourcc.
pub open spec fn fourcc_byte(code: u32, i: int) -> int {
    if i == 0 {
        code as int % 0x100
    } else if i == 1 {
        code as int / 0x100 % 0x100
    } else if i == 2 {
        code as int / 0x1_0000 % 0x100
    } else {
        code as int / 0x100_0000 % 0x100
    }
}

/// Whether a byte is an ASCII character that leaves a mark.
pub open spec fn is_graphic(b: int) -> bool {
    0x21 <= b <= 0x7e
}

/// A fourcc as four characters where it has four, else as a number.
pub open spec fn fourcc_text(code: u32) -> Seq<char> {
    if forall|i: int| 0 <= i < 4 ==> is_graphic(#[trigger] fourcc_byte(code, i)) {
        Seq::new(4, |i: int| fourcc_byte(code, i) as char)
    } else {
        "0x"@ + hex_padded(code as nat, 8)
    }
}

/// A fourcc for people to read.
pub fn fourcc_name(code: u32) -> (r: String)
    ensures
        r@ == fourcc_text(code),
{
    let a: u8 = (code % 0x100) as u8;
    let b: u8 = (code / 0x100 % 0x100) as u8;
    let c: u8 = (code / 0x1_0000 % 0x100) as u8;
    let d: u8 = (code / 0x100_0000 % 0x100) as u8;
    assert(a == fourcc_byte(code, 0) && b == fourcc_byte(code, 1) && c == fourcc_byte(code, 2) && d
        == fourcc_byte(code, 3));
    let mut out = String::new();
    if graphic(a) && graphic(b) && graphic(c) && graphic(d) {
        out.push(a as char);
        out.push(b as char);
        out.push(c as char);
        out.push(d as char);
        assert(out@ =~= fourcc_text(code));
    } else {
        out.append("0x");
        push_hex(&mut out, code as u64, 8);
        assert(out@ =~= fourcc_text(code));
    }
    out
}

fn graphic(b: u8) -> (r: bool)
    ensures
        r == is_graphic(b as int),
{
    0x21 <= b && b <= 0x7e
}

/// The name of a fourcc is its four characters, the first from the lowest byte, where
/// all of them leave a mark; else it is the number, in hexadecimal with all its digits.
pub proof fn fourccs_are_named_by_their_characters(a: u8, b: u8, c: u8, d: u8, code: u32)
    requires
        code == a + 256 * b + 65536 * c + 16777216 * d,
    ensures
        0x21 <= a <= 0x7e && 0x21 <= b <= 0x7e && 0x21 <= c <= 0x7e && 0x21 <= d <= 0x7e
            ==> fourcc_text(code) == seq![a as char, b as char, c as char, d as char],
        !(0x21 <= a <= 0x7e && 0x21 <= b <= 0x7e && 0x21 <= c <= 0x7e && 0x21 <= d <= 0x7e)
            ==> fourcc_text(code) == "0x"@ + hex_padded(code as nat, 8),
{
    assert(fourcc_byte(code, 0) == a && fourcc_byte(code, 1) == b && fourcc_byte(code, 2) == c
        && fourcc_byte(code, 3) == d);
    if 0x21 <= a <= 0x7e && 0x21 <= b <= 0x7e && 0x21 <= c <= 0x7e && 0x21 <= d <= 0x7e {
        assert(forall|i: int| 0 <= i < 4 ==> is_graphic(#[trigger] fourcc_byte(code, i)));
        assert(fourcc_text(code) =~= seq![a as char, b as char, c as char, d as char]);
    } else {
        assert(!is_graphic(fourcc_byte(code, 0)) || !is_graphic(fourcc_byte(code, 1))
            || !is_graphic(fourcc_byte(code, 2)) || !is_graphic(fourcc_byte(code, 3)));
    }
}

} // verus!
