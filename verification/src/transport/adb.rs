//! Requests to the `adb` command line tool, and what its replies say.

use vstd::prelude::*;
use vstd::slice::slice_subrange;

use crate::command::{failure_text, reply};
use crate::number::{decimal, decimal_round_trip, parse_u16, parse_u32, parsed, push_decimal};
use crate::text::{
    begins_with, chars_of, find_char, index_of, is_text, lemma_map_push, lines, lines_of,
    lossy_text, split_whitespace, starts_with, string_of, strings, text_of, texts, trim,
    trim_start_matches, trimmed, without_prefixes, words,
};

verus! {

/// The command to run: the given override when there is one, else `adb`.
pub fn adb_binary(configured: Option<String>) -> (r: String)
    ensures
        r@ == match configured {
            Some(path) => path@,
            None => "adb"@,
        },
{
    match configured {
        Some(path) => path,
        None => String::from_str("adb"),
    }
}

/// What a run of `adb` with the given arguments gives: its output when it
/// succeeded, else a line that says what went wrong.
pub fn adb_reply(args: &Vec<String>, success: bool, stdout: &[u8], stderr: &[u8]) -> (r: Result<
    String,
    String,
>)
    ensures
        success ==> (r matches Ok(out) && out@ == lossy_text(stdout@)),
        !success ==> (r matches Err(e) && e@ == failure_text(
            "adb"@,
            strings(args@),
            lossy_text(stderr@),
        )),
{
    reply("adb", args, success, stdout, stderr)
}

// --------------------------------------------------------------- devices ---

#[derive(Debug, Clone)]
pub struct Device {
    pub serial: String,
    pub model: Option<String>,
}

/// A device as its texts.
pub ghost struct DeviceView {
    pub serial: Seq<char>,
    pub model: Option<Seq<char>>,
}

impl View for Device {
    type V = DeviceView;

    open spec fn view(&self) -> DeviceView {
        DeviceView { serial: self.serial@, model: text_of(self.model) }
    }
}

/// The devices of a list, as texts.
pub open spec fn device_views(v: Seq<Device>) -> Seq<DeviceView> {
    v.map_values(|d: Device| d@)
}

/// What follows the label in the first of the fields that carries it.
pub open spec fn model_among(fields: Seq<Seq<char>>) -> Option<Seq<char>>
    decreases fields.len(),
{
    if fields.len() == 0 {
        None
    } else if begins_with(fields[0], "model:"@) {
        Some(without_prefixes(fields[0], "model:"@))
    } else {
        model_among(fields.skip(1))
    }
}

/// The devices in the `device` state on the given lines.
pub open spec fn devices_on(lines: Seq<Seq<char>>) -> Seq<DeviceView>
    decreases lines.len(),
{
    if lines.len() == 0 {
        Seq::empty()
    } else {
        let earlier = devices_on(lines.drop_last());
        let fields = words(lines.last());
        if fields.len() >= 2 && fields[1] == "device"@ {
            earlier.push(DeviceView { serial: fields[0], model: model_among(fields.skip(2)) })
        } else {
            earlier
        }
    }
}

/// The lines of a text after the first.
pub open spec fn after_heading(lines: Seq<Seq<char>>) -> Seq<Seq<char>> {
    if lines.len() == 0 {
        lines
    } else {
        lines.skip(1)
    }
}

fn find_model(fields: &Vec<Vec<char>>) -> (r: Option<String>)
    requires
        fields@.len() >= 2,
    ensures
        text_of(r) == model_among(texts(fields@).skip(2)),
{
    let label = chars_of("model:");
    let mut i: usize = 2;
    while i < fields.len()
        invariant
            2 <= i <= fields@.len(),
            label@ == "model:"@,
            model_among(texts(fields@).skip(2)) == model_among(texts(fields@).skip(i as int)),
        decreases fields@.len() - i,
    {
        assert(texts(fields@).skip(i as int).skip(1) =~= texts(fields@).skip(i + 1));
        assert(texts(fields@).skip(i as int)[0] == fields@[i as int]@);
        if starts_with(fields[i].as_slice(), label.as_slice()) {
            let rest = trim_start_matches(fields[i].as_slice(), label.as_slice());
            return Some(string_of(rest));
        }
        i += 1;
    }
    None
}

/// Devices in the `device` state, from the output of `adb devices -l`. Ignores
/// `unauthorized` and `offline` ones, which cannot be forwarded to.
pub fn devices(listing: &str) -> (r: Vec<Device>)
    ensures
        device_views(r@) == devices_on(after_heading(lines_of(listing@))),
{
    broadcast use lemma_map_push;

    let cs = chars_of(listing);
    let all = lines(cs.as_slice());
    let mut out: Vec<Device> = Vec::new();
    if all.len() == 0 {
        assert(texts(all@) =~= Seq::<Seq<char>>::empty());
        return out;
    }
    let ghost body = texts(all@).skip(1);
    let mut i: usize = 1;
    while i < all.len()
        invariant
            1 <= i <= all@.len(),
            body == texts(all@).skip(1),
            device_views(out@) == devices_on(body.take(i - 1)),
        decreases all@.len() - i,
    {
        let fields = split_whitespace(all[i].as_slice());
        proof {
            assert(body.take(i as int).drop_last() =~= body.take(i - 1));
            assert(body.take(i as int).last() == all@[i as int]@);
            assert(texts(fields@).len() == fields@.len());
        }
        if fields.len() >= 2 && is_text(fields[1].as_slice(), "device") {
            let device = Device {
                serial: string_of(fields[0].as_slice()),
                model: find_model(&fields),
            };
            out.push(device);
        }
        i += 1;
    }
    assert(body.take(i - 1) =~= body);
    out
}

// --------------------------------------------------------------- forward ---

/// An `adb forward` rule.
///
/// The remote end is a `localabstract:` socket in production so traffic never
/// touches Android's TCP stack or `netd`; `tcp:` is used for host-side testing.
#[derive(Debug, Clone)]
pub struct Forward {
    pub serial: String,
    pub local: String,
    pub remote: String,
}

impl Forward {
    /// The rule `tcp:<local_port> -> <remote>` for `serial`.
    pub fn new(serial: &str, local_port: u16, remote: &str) -> (r: Self)
        ensures
            r.serial@ == serial@,
            r.local@ == "tcp:"@ + decimal(local_port as nat),
            r.remote@ == remote@,
    {
        let mut local = String::from_str("tcp:");
        push_decimal(&mut local, local_port as u64);
        Forward {
            serial: String::from_str(serial),
            local,
            remote: String::from_str(remote),
        }
    }

    /// Arguments that take the rule away. They run before the rule is installed
    /// too, so that a stale rule from a crashed run does not survive, and again
    /// when the session ends.
    pub fn remove_args(&self) -> (r: Vec<String>)
        ensures
            strings(r@) == seq!["-s"@, self.serial@, "forward"@, "--remove"@, self.local@],
    {
        let mut args: Vec<String> = Vec::new();
        args.push(String::from_str("-s"));
        args.push(self.serial.clone());
        args.push(String::from_str("forward"));
        args.push(String::from_str("--remove"));
        args.push(self.local.clone());
        assert(strings(args@) =~= seq![
            "-s"@,
            self.serial@,
            "forward"@,
            "--remove"@,
            self.local@,
        ]);
        args
    }

    /// Arguments that install the rule.
    pub fn install_args(&self) -> (r: Vec<String>)
        ensures
            strings(r@) == seq!["-s"@, self.serial@, "forward"@, self.local@, self.remote@],
    {
        let mut args: Vec<String> = Vec::new();
        args.push(String::from_str("-s"));
        args.push(self.serial.clone());
        args.push(String::from_str("forward"));
        args.push(self.local.clone());
        args.push(self.remote.clone());
        assert(strings(args@) =~= seq![
            "-s"@,
            self.serial@,
            "forward"@,
            self.local@,
            self.remote@,
        ]);
        args
    }

    /// The host-side port, if the local end of the rule names one.
    pub fn local_port(&self) -> (r: Option<u16>)
        ensures
            r == port_of(self.local@),
    {
        let cs = chars_of(self.local.as_str());
        let label = chars_of("tcp:");
        parse_u16(trim_start_matches(cs.as_slice(), label.as_slice()))
    }
}

/// The port that the local end of a rule names.
pub open spec fn port_of(local: Seq<char>) -> Option<u16> {
    match parsed(without_prefixes(local, "tcp:"@), 10, 0xffff) {
        Some(n) => Some(n as u16),
        None => None,
    }
}

/// The port that a rule is made for is the port that it reports.
pub proof fn forward_port_round_trip(port: u16)
    ensures
        port_of("tcp:"@ + decimal(port as nat)) == Some(port),
{
    reveal_strlit("tcp:");
    let n = decimal(port as nat);
    let local = "tcp:"@ + n;
    decimal_round_trip(port as nat, 0xffff);
    assert(local.take(4) =~= "tcp:"@);
    assert(local.skip(4) =~= n);
    assert(without_prefixes(local, "tcp:"@) == without_prefixes(n, "tcp:"@));
    assert(!begins_with(n, "tcp:"@)) by {
        if begins_with(n, "tcp:"@) {
            assert(n.take(4)[0] == 't');
            assert(n[0] == 't');
            crate::number::lemma_decimal_shape(port as nat);
        }
    }
}

/// Arguments that run a command on the device.
pub fn shell(serial: &str, command: &str) -> (r: Vec<String>)
    ensures
        strings(r@) == seq!["-s"@, serial@, "shell"@, command@],
{
    let mut args: Vec<String> = Vec::new();
    args.push(String::from_str("-s"));
    args.push(String::from_str(serial));
    args.push(String::from_str("shell"));
    args.push(String::from_str(command));
    assert(strings(args@) =~= seq!["-s"@, serial@, "shell"@, command@]);
    args
}

// ----------------------------------------------------------- display size ---

/// Why a display size could not be had.
#[derive(Debug, Clone, Copy, PartialEq, Eq, Structural)]
pub enum DisplaySizeError {
    Unparsable,
    ZeroDimension(u32, u32),
}

/// The first of the lines that, without the whitespace around it, begins with
/// `prefix`.
pub open spec fn line_with(lines: Seq<Seq<char>>, prefix: Seq<char>) -> Option<Seq<char>>
    decreases lines.len(),
{
    if lines.len() == 0 {
        None
    } else if begins_with(trimmed(lines[0]), prefix) {
        Some(lines[0])
    } else {
        line_with(lines.skip(1), prefix)
    }
}

/// What stands between the first colon and the next, or the end.
pub open spec fn after_colon(line: Seq<char>) -> Option<Seq<char>> {
    let at = index_of(line, ':');
    if at < line.len() {
        let rest = line.skip(at + 1);
        Some(rest.take(index_of(rest, ':')))
    } else {
        None
    }
}

/// Two numbers with an `x` between them.
pub open spec fn dimensions(spec_text: Seq<char>) -> Option<(u32, u32)> {
    let at = index_of(spec_text, 'x');
    if at < spec_text.len() {
        match (
            parsed(trimmed(spec_text.take(at)), 10, 0xffff_ffff),
            parsed(trimmed(spec_text.skip(at + 1)), 10, 0xffff_ffff),
        ) {
            (Some(w), Some(h)) => Some((w as u32, h as u32)),
            _ => None,
        }
    } else {
        None
    }
}

/// The size that the line with the given label reports.
pub open spec fn labelled_size(lines: Seq<Seq<char>>, label: Seq<char>) -> Option<(u32, u32)> {
    match line_with(lines, label) {
        Some(line) => match after_colon(line) {
            Some(field) => dimensions(trimmed(field)),
            None => None,
        },
        None => None,
    }
}

/// The size that `wm size` reports: an override where there is one, since that
/// is what apps get, else the physical size.
pub open spec fn reported_size(lines: Seq<Seq<char>>) -> Option<(u32, u32)> {
    match labelled_size(lines, "Override size"@) {
        Some(size) => Some(size),
        None => labelled_size(lines, "Physical size"@),
    }
}

fn parse_dimensions(cs: &[char]) -> (r: Option<(u32, u32)>)
    ensures
        r == dimensions(cs@),
{
    let at: usize = find_char(cs, 'x');
    if at == cs.len() {
        return None;
    }
    proof {
        assert(cs@.subrange(0, at as int) =~= cs@.take(at as int));
        assert(cs@.subrange(at + 1, cs@.len() as int) =~= cs@.skip(at + 1));
    }
    let w = match parse_u32(trim(slice_subrange(cs, 0, at))) {
        Some(w) => w,
        None => {
            return None;
        },
    };
    let h = match parse_u32(trim(slice_subrange(cs, at + 1, cs.len()))) {
        Some(h) => h,
        None => {
            return None;
        },
    };
    Some((w, h))
}

fn parse_labelled(all: &Vec<Vec<char>>, label: &str) -> (r: Option<(u32, u32)>)
    ensures
        r == labelled_size(texts(all@), label@),
{
    let prefix = chars_of(label);
    let ghost whole = texts(all@);
    let mut i: usize = 0;
    assert(whole.skip(0) =~= whole);
    while i < all.len() && !starts_with(trim(all[i].as_slice()), prefix.as_slice())
        invariant
            i <= all@.len(),
            whole == texts(all@),
            prefix@ == label@,
            line_with(whole, label@) == line_with(whole.skip(i as int), label@),
        decreases all@.len() - i,
    {
        assert(whole.skip(i as int).skip(1) =~= whole.skip(i + 1));
        assert(whole.skip(i as int)[0] == all@[i as int]@);
        i += 1;
    }
    if i == all.len() {
        return None;
    }
    assert(whole.skip(i as int)[0] == all@[i as int]@);
    let line = all[i].as_slice();
    let at: usize = find_char(line, ':');
    if at == line.len() {
        return None;
    }
    let rest = slice_subrange(line, at + 1, line.len());
    let end: usize = find_char(rest, ':');
    proof {
        assert(rest@ =~= line@.skip(at + 1));
        assert(rest@.subrange(0, end as int) =~= rest@.take(end as int));
    }
    parse_dimensions(trim(slice_subrange(rest, 0, end)))
}

/// The device's panel size, in **landscape** orientation, from the output of
/// `wm size`.
///
/// `wm size` reports the panel as the hardware sees it, which on a tablet is
/// portrait (e.g. `1800x2880`). The virtual output is landscape, so the axes
/// are swapped here rather than at every call site.
pub fn display_size(reply: &str) -> (r: Result<(u32, u32), DisplaySizeError>)
    ensures
        match reported_size(lines_of(reply@)) {
            None => r == Err::<(u32, u32), DisplaySizeError>(DisplaySizeError::Unparsable),
            Some((w, h)) => if w == 0 || h == 0 {
                r == Err::<(u32, u32), DisplaySizeError>(DisplaySizeError::ZeroDimension(w, h))
            } else {
                r == Ok::<(u32, u32), DisplaySizeError>(
                    if w >= h {
                        (w, h)
                    } else {
                        (h, w)
                    },
                )
            },
        },
        r matches Ok((w, h)) ==> w >= h > 0,
{
    let cs = chars_of(reply);
    let all = lines(cs.as_slice());
    let found = match parse_labelled(&all, "Override size") {
        Some(size) => Some(size),
        None => parse_labelled(&all, "Physical size"),
    };
    match found {
        None => Err(DisplaySizeError::Unparsable),
        Some((w, h)) => {
            if w == 0 || h == 0 {
                return Err(DisplaySizeError::ZeroDimension(w, h));
            }
            Ok(
                if w >= h {
                    (w, h)
                } else {
                    (h, w)
                },
            )
        },
    }
}

// ------------------------------------------------------ stream resolution ---

/// `value` without its lowest bit.
pub open spec fn even_part(value: int) -> int {
    value - value % 2
}

/// The width to stream at: no wider than the panel or `max_width`, and at least
/// two.
pub open spec fn stream_width(panel_width: u32, max_width: u32) -> int {
    let fitted = if panel_width <= max_width {
        panel_width
    } else {
        max_width
    };
    if fitted >= 2 {
        fitted as int
    } else {
        2
    }
}

/// The height that goes with a width, in proportion to the panel.
pub open spec fn stream_height(panel: (u32, u32), width: int) -> int {
    let scaled = (width * panel.1 / panel.0 as int) % 0x1_0000_0000;
    if scaled >= 2 {
        scaled
    } else {
        2
    }
}

/// Pick a streaming resolution matching the device's aspect ratio.
///
/// A tablet's native panel is usually more pixels than anyone can resolve at
/// arm's length, and pushes the encoder hard. Scaling to fit `max_width` while
/// preserving aspect keeps the upscale on the device clean.
///
/// Both axes are rounded to even numbers, which is all NV12 chroma subsampling
/// requires; aligning to 16 would turn 1080 into 1088 and break 16:9.
pub fn stream_resolution(panel: (u32, u32), max_width: u32) -> (r: (u32, u32))
    requires
        panel.0 > 0,
    ensures
        r.0 == even_part(stream_width(panel.0, max_width)),
        r.1 == even_part(stream_height(panel, stream_width(panel.0, max_width))),
{
    let (pw, ph) = panel;
    let fitted: u32 = if pw <= max_width {
        pw
    } else {
        max_width
    };
    let width: u32 = if fitted >= 2 {
        fitted
    } else {
        2
    };
    assert(width * ph <= 0xffff_ffff * 0xffff_ffff) by (nonlinear_arith)
        requires
            width <= 0xffff_ffff,
            ph <= 0xffff_ffff,
    ;
    let scaled: u64 = (width as u64 * ph as u64) / pw as u64;
    let height: u32 = (scaled % 0x1_0000_0000) as u32;
    (
        align2(width),
        align2(
            if height >= 2 {
                height
            } else {
                2
            },
        ),
    )
}

fn align2(value: u32) -> (r: u32)
    ensures
        r == even_part(value as int),
{
    value - value % 2
}

/// The chosen resolution is even on both axes, never empty, and no wider than
/// asked for.
pub proof fn resolution_is_even_and_fits(panel: (u32, u32), max_width: u32)
    requires
        panel.0 > 0,
        max_width >= 2,
    ensures
        ({
            let w = even_part(stream_width(panel.0, max_width));
            let h = even_part(stream_height(panel, stream_width(panel.0, max_width)));
            &&& w % 2 == 0 && h % 2 == 0
            &&& w >= 2 && h >= 2
            &&& w <= max_width
        }),
{
}

/// The aspect ratio of the panel is kept up to the rounding to even numbers:
/// the exact height for the unrounded width lies less than two lines above the
/// chosen one.
pub proof fn resolution_keeps_aspect(panel: (u32, u32), max_width: u32)
    requires
        panel.0 >= 2,
        stream_width(panel.0, max_width) * panel.1 >= 2 * panel.0,
    ensures
        ({
            let width = stream_width(panel.0, max_width);
            let w = even_part(width);
            let h = even_part(stream_height(panel, width));
            &&& w <= width <= w + 1
            &&& w <= panel.0 && h <= panel.1
            &&& h * panel.0 <= width * panel.1 < (h + 2) * panel.0
        }),
{
    let width = stream_width(panel.0, max_width);
    let pw = panel.0 as int;
    let ph = panel.1 as int;
    let q = width * ph / pw;
    assert(q * pw <= width * ph < (q + 1) * pw && q <= ph && q >= 2) by (nonlinear_arith)
        requires
            q == width * ph / pw,
            pw >= 2,
            2 <= width <= pw,
            ph >= 0,
            width * ph >= 2 * pw,
    ;
    let h = even_part(stream_height(panel, width));
    assert(h <= q <= h + 1);
    assert(h * pw <= q * pw && (q + 1) * pw <= (h + 2) * pw) by (nonlinear_arith)
        requires
            h <= q <= h + 1,
            pw >= 2,
    ;
}

/// A panel whose scaled size comes out in whole even numbers is scaled exactly.
pub proof fn resolution_is_exact(panel: (u32, u32), max_width: u32, height: u32)
    requires
        panel.0 > 0,
        2 <= max_width <= panel.0,
        max_width % 2 == 0,
        height % 2 == 0,
        height >= 2,
        height * panel.0 == max_width * panel.1,
    ensures
        even_part(stream_width(panel.0, max_width)) == max_width,
        even_part(stream_height(panel, stream_width(panel.0, max_width))) == height,
{
    assert(max_width as int * panel.1 as int / panel.0 as int == height) by (nonlinear_arith)
        requires
            panel.0 > 0,
            height as int * panel.0 as int == max_width as int * panel.1 as int,
    ;
}

/// A panel that already fits, with even sides, is streamed as it is.
pub proof fn small_panels_are_left_alone(panel: (u32, u32), max_width: u32)
    requires
        2 <= panel.0 <= max_width,
        panel.1 >= 2,
        panel.0 % 2 == 0,
        panel.1 % 2 == 0,
    ensures
        even_part(stream_width(panel.0, max_width)) == panel.0,
        even_part(stream_height(panel, stream_width(panel.0, max_width))) == panel.1,
{
    assert(panel.0 as int * panel.1 as int / panel.0 as int == panel.1) by (nonlinear_arith)
        requires
            panel.0 > 0,
    ;
}

/// A size that has been chosen is chosen again: scaling it once more to the same
/// width changes nothing.
pub proof fn resolution_is_stable(panel: (u32, u32), max_width: u32, chosen: (u32, u32))
    requires
        panel.0 > 0,
        chosen.0 == even_part(stream_width(panel.0, max_width)),
        chosen.1 == even_part(stream_height(panel, stream_width(panel.0, max_width))),
    ensures
        even_part(stream_width(chosen.0, max_width)) == chosen.0,
        even_part(stream_height(chosen, stream_width(chosen.0, max_width))) == chosen.1,
{
    assert(chosen.0 as int * chosen.1 as int / chosen.0 as int == chosen.1) by (nonlinear_arith)
        requires
            chosen.0 > 0,
    ;
}

/// The width that is chosen is the panel's or the widest that is allowed,
/// whichever is less, rounded down to an even number.
pub proof fn the_widest_that_fits_is_chosen(panel: (u32, u32), max_width: u32)
    requires
        panel.0 >= 2,
        max_width >= 2,
    ensures
        ({
            let w = even_part(stream_width(panel.0, max_width));
            &&& w % 2 == 0 && w <= panel.0 && w <= max_width
            &&& w + 2 > panel.0 || w + 2 > max_width
        }),
{
}

/// The height that is chosen goes with that width as the panel's does with its
/// own, rounded down to an even number.
pub proof fn the_height_goes_with_the_width(panel: (u32, u32), max_width: u32, cap: u32)
    requires
        panel.0 >= 2,
        max_width >= 2,
        cap == panel.0 && panel.0 <= max_width || cap == max_width && max_width <= panel.0,
        cap * panel.1 >= 2 * panel.0,
    ensures
        ({
            let h = even_part(stream_height(panel, stream_width(panel.0, max_width)));
            &&& h % 2 == 0
            &&& h * panel.0 <= cap * panel.1 < (h + 2) * panel.0
        }),
{
    resolution_keeps_aspect(panel, max_width);
}

proof fn lemma_decimal_plain(n: nat)
    ensures
        decimal(n).len() > 0,
        !decimal(n).contains('x') && !decimal(n).contains(':'),
        trimmed(decimal(n)) == decimal(n),
        !crate::text::is_space(decimal(n)[0]) && !crate::text::is_space(decimal(n).last()),
{
    crate::number::lemma_decimal_shape(n);
    let s = decimal(n);
    assert forall|i: int| 0 <= i < s.len() implies s[i] != 'x' && s[i] != ':'
        && !crate::text::is_space(#[trigger] s[i]) by {
        crate::number::decimals_are_digits(n, i);
    }
    assert(s.last() == s[s.len() - 1]);
    crate::text::lemma_nothing_to_trim(s);
}

proof fn lemma_dimensions(w: u32, h: u32)
    ensures
        dimensions(decimal(w as nat) + seq!['x'] + decimal(h as nat)) == Some((w, h)),
{
    let a = decimal(w as nat);
    let b = decimal(h as nat);
    let s = a + seq!['x'] + b;
    lemma_decimal_plain(w as nat);
    lemma_decimal_plain(h as nat);
    assert forall|i: int| 0 <= i < a.len() implies s[i] != 'x' by {
        assert(s[i] == a[i]);
        assert(a.contains(a[i]));
    }
    crate::text::lemma_index_of_unique(s, 'x', a.len() as int);
    assert(s.take(a.len() as int) =~= a);
    assert(s.skip((a.len() + 1) as int) =~= b);
    decimal_round_trip(w as nat, 0xffff_ffff);
    decimal_round_trip(h as nat, 0xffff_ffff);
}

proof fn lemma_line_with(
    before: Seq<Seq<char>>,
    line: Seq<char>,
    after: Seq<Seq<char>>,
    prefix: Seq<char>,
)
    requires
        forall|i: int| 0 <= i < before.len() ==> !begins_with(trimmed(#[trigger] before[i]), prefix),
        begins_with(trimmed(line), prefix),
    ensures
        line_with(before + seq![line] + after, prefix) == Some(line),
    decreases before.len(),
{
    let all = before + seq![line] + after;
    if before.len() > 0 {
        assert(all[0] == before[0]);
        assert(!begins_with(trimmed(before[0]), prefix));
        let rest = before.skip(1);
        assert(all.skip(1) =~= rest + seq![line] + after);
        assert forall|i: int| 0 <= i < rest.len() implies !begins_with(
            trimmed(#[trigger] rest[i]),
            prefix,
        ) by {
            assert(rest[i] == before[i + 1]);
        }
        lemma_line_with(rest, line, after, prefix);
    }
}

/// A size that a line reports behind its label is read as it stands there: the
/// width, an `x`, the height.
pub proof fn labelled_sizes_are_read(
    before: Seq<Seq<char>>,
    label: Seq<char>,
    w: u32,
    h: u32,
    after: Seq<Seq<char>>,
)
    requires
        label.len() > 0,
        !crate::text::is_space(label[0]),
        !label.contains(':'),
        forall|i: int| 0 <= i < before.len() ==> !begins_with(trimmed(#[trigger] before[i]), label),
    ensures
        labelled_size(
            before + seq![
                label + seq![':', ' '] + decimal(w as nat) + seq!['x'] + decimal(h as nat),
            ] + after,
            label,
        ) == Some((w, h)),
{
    let size = decimal(w as nat) + seq!['x'] + decimal(h as nat);
    let line = label + seq![':', ' '] + decimal(w as nat) + seq!['x'] + decimal(h as nat);
    lemma_decimal_plain(w as nat);
    lemma_decimal_plain(h as nat);
    assert(line =~= label + (seq![':', ' '] + size));
    assert(line[0] == label[0]);
    assert(line.last() == decimal(h as nat).last());
    crate::text::lemma_nothing_to_trim(line);
    crate::text::parts_occur(Seq::empty(), label, seq![':', ' '] + size);
    lemma_line_with(before, line, after, label);
    assert forall|i: int| 0 <= i < label.len() implies line[i] != ':' by {
        assert(line[i] == label[i]);
        assert(label.contains(label[i]));
    }
    crate::text::lemma_index_of_unique(line, ':', label.len() as int);
    let rest = line.skip((label.len() + 1) as int);
    assert(rest =~= seq![' '] + size);
    assert forall|i: int| 0 <= i < rest.len() implies rest[i] != ':' by {
        let a = decimal(w as nat);
        let b = decimal(h as nat);
        if 1 <= i < 1 + a.len() {
            assert(rest[i] == a[i - 1]);
            assert(a.contains(a[i - 1]));
        } else if i > 1 + a.len() {
            assert(rest[i] == b[i - 2 - a.len()]);
            assert(b.contains(b[i - 2 - a.len()]));
        }
    }
    crate::text::lemma_index_of_unique(rest, ':', rest.len() as int);
    assert(rest.take(rest.len() as int) =~= rest);
    assert(size.last() == decimal(h as nat).last());
    assert(size[0] == decimal(w as nat)[0]);
    assert(crate::text::is_blank(seq![' ']));
    crate::text::blanks_are_trimmed(seq![' '], size, Seq::empty());
    assert(seq![' '] + size + Seq::<char>::empty() =~= rest);
    lemma_dimensions(w, h);
}

/// An override of the size counts more than the physical size, which counts where
/// there is none.
pub proof fn overrides_count_more(lines: Seq<Seq<char>>)
    ensures
        labelled_size(lines, "Override size"@) matches Some(size) ==> reported_size(lines) == Some(
            size,
        ),
        labelled_size(lines, "Override size"@) is None ==> reported_size(lines) == labelled_size(
            lines,
            "Physical size"@,
        ),
{
}

proof fn lemma_devices_joined(a: Seq<Seq<char>>, b: Seq<Seq<char>>)
    ensures
        devices_on(a + b) == devices_on(a) + devices_on(b),
    decreases b.len(),
{
    if b.len() == 0 {
        assert(a + b =~= a);
        assert(devices_on(a) + devices_on(b) =~= devices_on(a));
    } else {
        assert((a + b).drop_last() =~= a + b.drop_last());
        assert((a + b).last() == b.last());
        lemma_devices_joined(a, b.drop_last());
        assert(devices_on(a + b) =~= devices_on(a) + devices_on(b));
    }
}

/// Each line whose second word is `device` is one device with its first word as the
/// serial, in the order of the lines; any other line is none.
pub proof fn listed_devices_are_read(line: Seq<char>, rest: Seq<Seq<char>>)
    ensures
        words(line).len() >= 2 && words(line)[1] == "device"@ ==> {
            let all = devices_on(seq![line] + rest);
            &&& all.len() == devices_on(rest).len() + 1
            &&& all[0].serial == words(line)[0]
            &&& all.skip(1) == devices_on(rest)
        },
        words(line).len() < 2 || words(line)[1] != "device"@ ==> devices_on(seq![line] + rest)
            == devices_on(rest),
{
    let one = seq![line];
    assert(one.drop_last() =~= Seq::<Seq<char>>::empty());
    lemma_devices_joined(one, rest);
    let none = Seq::<DeviceView>::empty();
    assert(devices_on(one.drop_last()) == none);
    if words(line).len() >= 2 && words(line)[1] == "device"@ {
        assert(devices_on(one).len() == 1);
        assert(devices_on(seq![line] + rest).skip(1) =~= devices_on(rest));
    } else {
        assert(devices_on(one) == none);
        assert(none + devices_on(rest) =~= devices_on(rest));
    }
}

/// The model of a device is what follows `model:` in the first word that begins so.
pub proof fn models_are_read(before: Seq<Seq<char>>, model: Seq<char>, after: Seq<Seq<char>>)
    requires
        forall|i: int| 0 <= i < before.len() ==> !begins_with(#[trigger] before[i], "model:"@),
        !begins_with(model, "model:"@),
    ensures
        model_among(before + seq!["model:"@ + model] + after) == Some(model),
        model_among(before) is None,
    decreases before.len(),
{
    let all = before + seq!["model:"@ + model] + after;
    reveal_strlit("model:");
    if before.len() > 0 {
        let rest = before.skip(1);
        assert(all[0] == before[0]);
        assert(!begins_with(before[0], "model:"@));
        assert(all.skip(1) =~= rest + seq!["model:"@ + model] + after);
        assert forall|i: int| 0 <= i < rest.len() implies !begins_with(
            #[trigger] rest[i],
            "model:"@,
        ) by {
            assert(rest[i] == before[i + 1]);
        }
        models_are_read(rest, model, after);
    } else {
        let field = "model:"@ + model;
        assert(all[0] == field);
        assert(field.take(6) =~= "model:"@);
        assert(field.skip(6) =~= model);
        assert(without_prefixes(field, "model:"@) == without_prefixes(model, "model:"@));
    }
}

} // verus!
