//! Reading and restoring the monitor layout of Hyprland.
//!
//! Creating a headless output makes Hyprland lay its monitors out anew, so the
//! layout is read before and restored after.

use vstd::prelude::*;

use crate::number::{decimal, push_decimal, push_signed, signed_decimal};
use crate::text::{
    chars_of, join, join_of, lemma_map_push, same_str, string_of, strings, text_of,
    trim_end_matches, without_trailing,
};

verus! {

// ----------------------------------------------------------------- reading ---

/// What the monitor list says of one monitor, each entry where it is there and
/// of the right kind. The refresh rate is in decimal with six places, the scale
/// in decimal with as many as it needs.
#[derive(Debug)]
pub struct MonitorRow {
    pub name: Option<String>,
    pub x: Option<i64>,
    pub y: Option<i64>,
    pub width: Option<u64>,
    pub height: Option<u64>,
    pub refresh_rate: Option<String>,
    pub scale: Option<String>,
    pub transform: Option<i64>,
}

/// A row as its texts.
pub ghost struct RowView {
    pub name: Option<Seq<char>>,
    pub x: Option<i64>,
    pub y: Option<i64>,
    pub width: Option<u64>,
    pub height: Option<u64>,
    pub refresh_rate: Option<Seq<char>>,
    pub scale: Option<Seq<char>>,
    pub transform: Option<i64>,
}

impl View for MonitorRow {
    type V = RowView;

    open spec fn view(&self) -> RowView {
        RowView {
            name: text_of(self.name),
            x: self.x,
            y: self.y,
            width: self.width,
            height: self.height,
            refresh_rate: text_of(self.refresh_rate),
            scale: text_of(self.scale),
            transform: self.transform,
        }
    }
}

pub open spec fn row_views(rows: Seq<MonitorRow>) -> Seq<RowView> {
    rows.map_values(|r: MonitorRow| r@)
}

/// The error of `serde_json::from_str`.
#[verifier::external_type_specification]
#[verifier::external_body]
pub struct ExJsonError(serde_json::Error);

/// What `serde_json::from_str` reads from a text: nothing where it is not JSON,
/// no rows where it is not an array, else one row per element.
pub uninterp spec fn json_rows(json: Seq<char>) -> Option<Option<Seq<RowView>>>;

/// `serde_json::from_str` into a `serde_json::Value`, and its accessors: the
/// elements of the array, and of each the members by name. A member that is
/// missing or of another kind reads as nothing.
#[verifier::external_body]
fn read_rows(json: &str) -> (r: Result<Option<Vec<MonitorRow>>, serde_json::Error>)
    ensures
        r is Err <==> json_rows(json@) is None,
        r matches Ok(None) ==> json_rows(json@) == Some(None::<Seq<RowView>>),
        r matches Ok(Some(rows)) ==> json_rows(json@) == Some(Some(row_views(rows@))),
{
    let value: serde_json::Value = serde_json::from_str(json)?;
    let row = |m: &serde_json::Value| MonitorRow {
        name: m["name"].as_str().map(String::from),
        x: m["x"].as_i64(),
        y: m["y"].as_i64(),
        width: m["width"].as_u64(),
        height: m["height"].as_u64(),
        refresh_rate: m["refreshRate"].as_f64().map(|v| format!("{v:.6}")),
        scale: m["scale"].as_f64().map(|v| format!("{v}")),
        transform: m["transform"].as_i64(),
    };
    Ok(value.as_array().map(|list| list.iter().map(row).collect()))
}

/// Why the monitor list could not be understood.
#[derive(Debug, Clone, Copy, PartialEq, Eq, Structural)]
pub enum MonitorError {
    NotJson,
    NotAnArray,
    NoName,
    NoX,
    NoY,
    NoWidth,
    NoHeight,
    NoRefreshRate,
    NoScale,
    NoTransform,
    XOutOfRange,
    YOutOfRange,
    WidthOutOfRange,
    HeightOutOfRange,
    TransformOutOfRange,
}

/// One monitor.
#[derive(Debug)]
pub struct MonitorState {
    pub name: String,
    pub x: i32,
    pub y: i32,
    pub width: u32,
    pub height: u32,
    /// Hertz, in decimal with six places.
    pub refresh_rate: String,
    /// In decimal.
    pub scale: String,
    pub transform: i32,
}

/// A monitor as its texts.
pub ghost struct MonitorView {
    pub name: Seq<char>,
    pub x: i32,
    pub y: i32,
    pub width: u32,
    pub height: u32,
    pub refresh_rate: Seq<char>,
    pub scale: Seq<char>,
    pub transform: i32,
}

impl View for MonitorState {
    type V = MonitorView;

    open spec fn view(&self) -> MonitorView {
        MonitorView {
            name: self.name@,
            x: self.x,
            y: self.y,
            width: self.width,
            height: self.height,
            refresh_rate: self.refresh_rate@,
            scale: self.scale@,
            transform: self.transform,
        }
    }
}

pub open spec fn monitor_views(v: Seq<MonitorState>) -> Seq<MonitorView> {
    v.map_values(|m: MonitorState| m@)
}

pub open spec fn in_i32(n: i64) -> bool {
    -0x8000_0000 <= n <= 0x7fff_ffff
}

pub open spec fn in_u32(n: u64) -> bool {
    n <= 0xffff_ffff
}

/// The monitor that a row describes. Every entry has to be there before any is
/// held to its range.
pub open spec fn monitor_of(row: RowView) -> Result<MonitorView, MonitorError> {
    if row.name is None {
        Err(MonitorError::NoName)
    } else if row.x is None {
        Err(MonitorError::NoX)
    } else if row.y is None {
        Err(MonitorError::NoY)
    } else if row.width is None {
        Err(MonitorError::NoWidth)
    } else if row.height is None {
        Err(MonitorError::NoHeight)
    } else if row.refresh_rate is None {
        Err(MonitorError::NoRefreshRate)
    } else if row.scale is None {
        Err(MonitorError::NoScale)
    } else if row.transform is None {
        Err(MonitorError::NoTransform)
    } else if !in_i32(row.x->0) {
        Err(MonitorError::XOutOfRange)
    } else if !in_i32(row.y->0) {
        Err(MonitorError::YOutOfRange)
    } else if !in_u32(row.width->0) {
        Err(MonitorError::WidthOutOfRange)
    } else if !in_u32(row.height->0) {
        Err(MonitorError::HeightOutOfRange)
    } else if !in_i32(row.transform->0) {
        Err(MonitorError::TransformOutOfRange)
    } else {
        Ok(
            MonitorView {
                name: row.name->0,
                x: row.x->0 as i32,
                y: row.y->0 as i32,
                width: row.width->0 as u32,
                height: row.height->0 as u32,
                refresh_rate: row.refresh_rate->0,
                scale: row.scale->0,
                transform: row.transform->0 as i32,
            },
        )
    }
}

/// The monitors that rows describe, or what is wrong with the first row that
/// describes none.
pub open spec fn monitors_of(rows: Seq<RowView>) -> Result<Seq<MonitorView>, MonitorError>
    decreases rows.len(),
{
    if rows.len() == 0 {
        Ok(Seq::empty())
    } else {
        match monitors_of(rows.drop_last()) {
            Err(e) => Err(e),
            Ok(earlier) => match monitor_of(rows.last()) {
                Err(e) => Err(e),
                Ok(monitor) => Ok(earlier.push(monitor)),
            },
        }
    }
}

/// What a monitor list says that has been read this far: not at all where it
/// is not JSON, and without rows where it is not an array.
pub open spec fn monitors_in(rows: Option<Option<Seq<RowView>>>) -> Result<
    Seq<MonitorView>,
    MonitorError,
> {
    match rows {
        None => Err(MonitorError::NotJson),
        Some(None) => Err(MonitorError::NotAnArray),
        Some(Some(rows)) => monitors_of(rows),
    }
}

/// What a monitor list says.
pub open spec fn monitor_list(json: Seq<char>) -> Result<Seq<MonitorView>, MonitorError> {
    monitors_in(json_rows(json))
}

fn to_i32(n: i64) -> (r: Option<i32>)
    ensures
        r is Some == in_i32(n),
        r matches Some(v) ==> v == n,
{
    if -0x8000_0000 <= n && n <= 0x7fff_ffff {
        Some(n as i32)
    } else {
        None
    }
}

fn to_u32(n: u64) -> (r: Option<u32>)
    ensures
        r is Some == in_u32(n),
        r matches Some(v) ==> v == n,
{
    if n <= 0xffff_ffff {
        Some(n as u32)
    } else {
        None
    }
}

/// Whether a reading of a row, or the lack of one, is what it should be.
pub open spec fn reads_monitor(
    r: Result<MonitorState, MonitorError>,
    want: Result<MonitorView, MonitorError>,
) -> bool {
    match r {
        Ok(m) => want == Ok::<MonitorView, MonitorError>(m@),
        Err(e) => want == Err::<MonitorView, MonitorError>(e),
    }
}

/// Whether a reading of a list, or the lack of one, is what it should be.
pub open spec fn reads_monitors(
    r: Result<Vec<MonitorState>, MonitorError>,
    want: Result<Seq<MonitorView>, MonitorError>,
) -> bool {
    match r {
        Ok(list) => want == Ok::<Seq<MonitorView>, MonitorError>(monitor_views(list@)),
        Err(e) => want == Err::<Seq<MonitorView>, MonitorError>(e),
    }
}

fn read_monitor(row: &MonitorRow) -> (r: Result<MonitorState, MonitorError>)
    ensures
        reads_monitor(r, monitor_of(row@)),
{
    let name = match &row.name {
        Some(v) => v,
        None => {
            return Err(MonitorError::NoName);
        },
    };
    let x: i64 = match row.x {
        Some(v) => v,
        None => {
            return Err(MonitorError::NoX);
        },
    };
    let y: i64 = match row.y {
        Some(v) => v,
        None => {
            return Err(MonitorError::NoY);
        },
    };
    let width: u64 = match row.width {
        Some(v) => v,
        None => {
            return Err(MonitorError::NoWidth);
        },
    };
    let height: u64 = match row.height {
        Some(v) => v,
        None => {
            return Err(MonitorError::NoHeight);
        },
    };
    let refresh_rate = match &row.refresh_rate {
        Some(v) => v,
        None => {
            return Err(MonitorError::NoRefreshRate);
        },
    };
    let scale = match &row.scale {
        Some(v) => v,
        None => {
            return Err(MonitorError::NoScale);
        },
    };
    let transform: i64 = match row.transform {
        Some(v) => v,
        None => {
            return Err(MonitorError::NoTransform);
        },
    };
    let x: i32 = match to_i32(x) {
        Some(v) => v,
        None => {
            return Err(MonitorError::XOutOfRange);
        },
    };
    let y: i32 = match to_i32(y) {
        Some(v) => v,
        None => {
            return Err(MonitorError::YOutOfRange);
        },
    };
    let width: u32 = match to_u32(width) {
        Some(v) => v,
        None => {
            return Err(MonitorError::WidthOutOfRange);
        },
    };
    let height: u32 = match to_u32(height) {
        Some(v) => v,
        None => {
            return Err(MonitorError::HeightOutOfRange);
        },
    };
    let transform: i32 = match to_i32(transform) {
        Some(v) => v,
        None => {
            return Err(MonitorError::TransformOutOfRange);
        },
    };
    Ok(
        MonitorState {
            name: name.clone(),
            x,
            y,
            width,
            height,
            refresh_rate: refresh_rate.clone(),
            scale: scale.clone(),
            transform,
        },
    )
}

/// The monitors that rows describe.
pub fn monitors_from_rows(rows: &Vec<MonitorRow>) -> (r: Result<Vec<MonitorState>, MonitorError>)
    ensures
        reads_monitors(r, monitors_of(row_views(rows@))),
{
    broadcast use lemma_map_push;

    let ghost views = row_views(rows@);
    let mut out: Vec<MonitorState> = Vec::new();
    let mut i: usize = 0;
    assert(monitor_views(out@) =~= Seq::<MonitorView>::empty());
    while i < rows.len()
        invariant
            i <= rows@.len(),
            views == row_views(rows@),
            monitors_of(views.take(i as int)) == Ok::<Seq<MonitorView>, MonitorError>(
                monitor_views(out@),
            ),
        decreases rows@.len() - i,
    {
        proof {
            assert(views.take(i + 1).drop_last() =~= views.take(i as int));
            assert(views.take(i + 1).last() == rows@[i as int]@);
        }
        match read_monitor(&rows[i]) {
            Ok(monitor) => {
                let ghost had = monitor_views(out@);
                out.push(monitor);
                assert(monitor_views(out@) == had.push(monitor@));
                assert(monitor_of(views.take(i + 1).last()) == Ok::<MonitorView, MonitorError>(
                    monitor@,
                ));
            },
            Err(e) => {
                proof {
                    lemma_first_error(views, i + 1, e);
                }
                return Err(e);
            },
        }
        i += 1;
    }
    assert(views.take(i as int) =~= views);
    Ok(out)
}

proof fn lemma_first_error(rows: Seq<RowView>, n: int, e: MonitorError)
    requires
        0 <= n <= rows.len(),
        monitors_of(rows.take(n)) == Err::<Seq<MonitorView>, MonitorError>(e),
    ensures
        monitors_of(rows) == Err::<Seq<MonitorView>, MonitorError>(e),
    decreases rows.len() - n,
{
    if n < rows.len() {
        assert(rows.take(n + 1).drop_last() =~= rows.take(n));
        lemma_first_error(rows, n + 1, e);
    } else {
        assert(rows.take(n) =~= rows);
    }
}

/// The rows of a monitor list that has been read, as far as there are any.
pub open spec fn rows_in(rows: Option<Option<Vec<MonitorRow>>>) -> Option<Option<Seq<RowView>>> {
    match rows {
        None => None,
        Some(None) => Some(None),
        Some(Some(list)) => Some(Some(row_views(list@))),
    }
}

/// The monitors in a list that has been read, as far as it could be.
pub fn monitors_from_list(rows: Option<Option<Vec<MonitorRow>>>) -> (r: Result<
    Vec<MonitorState>,
    MonitorError,
>)
    ensures
        reads_monitors(r, monitors_in(rows_in(rows))),
{
    match rows {
        None => Err(MonitorError::NotJson),
        Some(None) => Err(MonitorError::NotAnArray),
        Some(Some(list)) => monitors_from_rows(&list),
    }
}

/// The monitors in the output of `hyprctl monitors -j`.
pub fn hyprland_monitor_state(json: &str) -> (r: Result<Vec<MonitorState>, MonitorError>)
    ensures
        reads_monitors(r, monitor_list(json@)),
{
    match read_rows(json) {
        Err(_) => monitors_from_list(None),
        Ok(rows) => monitors_from_list(Some(rows)),
    }
}

// --------------------------------------------------------------------- Lua ---

/// One character inside a Lua string.
pub open spec fn escaped_char(c: char) -> Seq<char> {
    if c == '\\' {
        seq!['\\', '\\']
    } else if c == '"' {
        seq!['\\', '"']
    } else if c == '\n' {
        seq!['\\', 'n']
    } else if c == '\r' {
        seq!['\\', 'r']
    } else if c == '\t' {
        seq!['\\', 't']
    } else {
        seq![c]
    }
}

/// A text inside a Lua string.
pub open spec fn escaped(s: Seq<char>) -> Seq<char>
    decreases s.len(),
{
    if s.len() == 0 {
        Seq::empty()
    } else {
        escaped_char(s[0]) + escaped(s.skip(1))
    }
}

/// A text as a Lua string, with its quotes.
pub open spec fn quoted(s: Seq<char>) -> Seq<char> {
    seq!['"'] + escaped(s) + seq!['"']
}

fn push_escaped(out: &mut String, c: char)
    ensures
        final(out)@ == old(out)@ + escaped_char(c),
{
    if c == '\\' {
        out.push('\\');
        out.push('\\');
    } else if c == '"' {
        out.push('\\');
        out.push('"');
    } else if c == '\n' {
        out.push('\\');
        out.push('n');
    } else if c == '\r' {
        out.push('\\');
        out.push('r');
    } else if c == '\t' {
        out.push('\\');
        out.push('t');
    } else {
        out.push(c);
    }
    assert(out@ =~= old(out)@ + escaped_char(c));
}

/// A text as a Lua string.
pub fn lua_string(value: &str) -> (r: String)
    ensures
        r@ == quoted(value@),
{
    let cs = chars_of(value);
    let mut out = String::new();
    out.push('"');
    let mut i: usize = 0;
    proof {
        assert(cs@.skip(0) =~= cs@);
        assert(out@ + escaped(cs@) =~= seq!['"'] + escaped(cs@));
    }
    while i < cs.len()
        invariant
            i <= cs@.len(),
            out@ + escaped(cs@.skip(i as int)) == seq!['"'] + escaped(cs@),
        decreases cs@.len() - i,
    {
        let ghost before = out@;
        let ghost rest = cs@.skip(i as int);
        push_escaped(&mut out, cs[i]);
        assert(rest.skip(1) =~= cs@.skip(i + 1));
        assert(out@ + escaped(cs@.skip(i + 1)) =~= before + escaped(rest));
        i += 1;
    }
    out.push('"');
    assert(escaped(cs@.skip(i as int)) =~= Seq::<char>::empty());
    assert(out@ =~= quoted(value@));
    out
}

/// What the inside of a Lua string denotes: a backslash and the character
/// after it stand for one character.
pub open spec fn unescaped(s: Seq<char>) -> Seq<char>
    decreases s.len(),
{
    if s.len() == 0 {
        Seq::empty()
    } else if s[0] == '\\' && s.len() > 1 {
        let c = if s[1] == 'n' {
            '\n'
        } else if s[1] == 'r' {
            '\r'
        } else if s[1] == 't' {
            '\t'
        } else {
            s[1]
        };
        seq![c] + unescaped(s.skip(2))
    } else {
        seq![s[0]] + unescaped(s.skip(1))
    }
}

/// A Lua string denotes the text that it was made from.
pub proof fn lua_string_round_trip(s: Seq<char>)
    ensures
        unescaped(escaped(s)) == s,
    decreases s.len(),
{
    if s.len() > 0 {
        let rest = s.skip(1);
        lua_string_round_trip(rest);
        let all = escaped(s);
        let one = escaped_char(s[0]);
        assert(all.skip(one.len() as int) =~= escaped(rest));
        assert(all[0] == one[0]);
        if one.len() == 2 {
            assert(all[1] == one[1]);
        }
        assert(seq![s[0]] + rest =~= s);
    } else {
        assert(unescaped(escaped(s)) =~= s);
    }
}

/// How many backslashes stand right before a place in a text.
pub open spec fn slashes_before(s: Seq<char>, i: int) -> nat
    decreases i,
{
    if 0 < i <= s.len() && s[i - 1] == '\\' {
        slashes_before(s, i - 1) + 1
    } else {
        0
    }
}

proof fn lemma_slashes(a: Seq<char>, b: Seq<char>, i: int)
    requires
        0 <= i <= b.len(),
    ensures
        slashes_before(b, i) <= i,
        slashes_before(a + b, a.len() + i) == if slashes_before(b, i) == i {
            slashes_before(b, i) + slashes_before(a, a.len() as int)
        } else {
            slashes_before(b, i)
        },
    decreases i,
{
    let all = a + b;
    if i > 0 {
        lemma_slashes(a, b, i - 1);
        assert(all[a.len() + i - 1] == b[i - 1]);
    } else {
        lemma_slashes_in_front(a, b, a.len() as int);
    }
}

proof fn lemma_slashes_in_front(a: Seq<char>, b: Seq<char>, i: int)
    requires
        0 <= i <= a.len(),
    ensures
        slashes_before(a + b, i) == slashes_before(a, i),
    decreases i,
{
    if i > 0 {
        lemma_slashes_in_front(a, b, i - 1);
        assert((a + b)[i - 1] == a[i - 1]);
    }
}

/// Inside a Lua string nothing ends it early: every quote in it is escaped, by a
/// backslash that is not itself escaped, and no line of it ends. Nor does it
/// hold a tab.
pub proof fn lua_string_is_closed(s: Seq<char>, i: int)
    requires
        0 <= i < escaped(s).len(),
    ensures
        escaped(s)[i] != '\n',
        escaped(s)[i] != '\r',
        escaped(s)[i] != '\t',
        escaped(s)[i] == '"' ==> slashes_before(escaped(s), i) % 2 == 1,
    decreases s.len(),
{
    if s.len() > 0 {
        let one = escaped_char(s[0]);
        let rest = escaped(s.skip(1));
        reveal_with_fuel(slashes_before, 3);
        if i >= one.len() {
            lua_string_is_closed(s.skip(1), i - one.len());
            assert(escaped(s)[i] == rest[i - one.len()]);
            lemma_slashes(one, rest, i - one.len());
            assert(slashes_before(one, one.len() as int) % 2 == 0);
        } else {
            assert(escaped(s)[i] == one[i]);
            lemma_slashes_in_front(one, rest, i);
        }
    }
}

/// The quote that ends a Lua string is not escaped: an even number of
/// backslashes stands before it.
pub proof fn lua_string_ends(s: Seq<char>)
    ensures
        slashes_before(escaped(s), escaped(s).len() as int) % 2 == 0,
    decreases s.len(),
{
    if s.len() > 0 {
        let one = escaped_char(s[0]);
        let rest = escaped(s.skip(1));
        reveal_with_fuel(slashes_before, 3);
        lua_string_ends(s.skip(1));
        lemma_slashes(one, rest, rest.len() as int);
        assert(slashes_before(one, one.len() as int) % 2 == 0);
    }
}

/// A refresh rate without the zeros, and the point, that say nothing.
pub open spec fn short_rate(rate: Seq<char>) -> Seq<char> {
    without_trailing(without_trailing(rate, '0'), '.')
}

/// Width, height and refresh rate.
pub open spec fn mode_text(width: u32, height: u32, rate: Seq<char>) -> Seq<char> {
    decimal(width as nat) + "x"@ + decimal(height as nat) + "@"@ + rate
}

/// A place on the desktop.
pub open spec fn place_text(x: i32, y: i32) -> Seq<char> {
    signed_decimal(x as int) + "x"@ + signed_decimal(y as int)
}

/// The call that gives a monitor back its layout.
pub open spec fn restore_call(m: MonitorView) -> Seq<char> {
    "hl.monitor({ output = "@ + quoted(m.name) + ", mode = \""@ + mode_text(
        m.width,
        m.height,
        short_rate(m.refresh_rate),
    ) + "\", position = \""@ + place_text(m.x, m.y) + "\", scale = "@ + m.scale + ", transform = "@
        + signed_decimal(m.transform as int) + " })"@
}

/// The calls for all monitors but the excluded one, in order.
pub open spec fn restore_calls(monitors: Seq<MonitorView>, excluded: Seq<char>) -> Seq<Seq<char>>
    decreases monitors.len(),
{
    if monitors.len() == 0 {
        Seq::empty()
    } else {
        let earlier = restore_calls(monitors.drop_last(), excluded);
        if monitors.last().name == excluded {
            earlier
        } else {
            earlier.push(restore_call(monitors.last()))
        }
    }
}

pub(crate) fn push_mode(out: &mut String, width: u32, height: u32, rate: &str)
    ensures
        final(out)@ == old(out)@ + mode_text(width, height, rate@),
{
    push_decimal(out, width as u64);
    out.append("x");
    push_decimal(out, height as u64);
    out.append("@");
    out.append(rate);
    assert(out@ =~= old(out)@ + mode_text(width, height, rate@));
}

pub(crate) fn push_place(out: &mut String, x: i32, y: i32)
    ensures
        final(out)@ == old(out)@ + place_text(x, y),
{
    push_signed(out, x as i64);
    out.append("x");
    push_signed(out, y as i64);
    assert(out@ =~= old(out)@ + place_text(x, y));
}

fn restore_one(m: &MonitorState) -> (r: String)
    ensures
        r@ == restore_call(m@),
{
    let rate = chars_of(m.refresh_rate.as_str());
    let rate = string_of(trim_end_matches(trim_end_matches(rate.as_slice(), '0'), '.'));
    let mut out = String::from_str("hl.monitor({ output = ");
    out.append(lua_string(m.name.as_str()).as_str());
    out.append(", mode = \"");
    push_mode(&mut out, m.width, m.height, rate.as_str());
    out.append("\", position = \"");
    push_place(&mut out, m.x, m.y);
    out.append("\", scale = ");
    out.append(m.scale.as_str());
    out.append(", transform = ");
    push_signed(&mut out, m.transform as i64);
    out.append(" })");
    out
}

/// The script that gives every monitor but the excluded one its layout back.
pub fn restore_hyprland_monitor_state(states: &Vec<MonitorState>, excluded_output: &str) -> (r:
    String)
    ensures
        r@ == join_of(restore_calls(monitor_views(states@), excluded_output@), "; "@),
{
    broadcast use lemma_map_push;

    let ghost views = monitor_views(states@);
    let mut calls: Vec<String> = Vec::new();
    let mut i: usize = 0;
    assert(strings(calls@) =~= Seq::<Seq<char>>::empty());
    while i < states.len()
        invariant
            i <= states@.len(),
            views == monitor_views(states@),
            strings(calls@) == restore_calls(views.take(i as int), excluded_output@),
        decreases states@.len() - i,
    {
        assert(views.take(i + 1).drop_last() =~= views.take(i as int));
        assert(views.take(i + 1).last() == states@[i as int]@);
        if !same_str(states[i].name.as_str(), excluded_output) {
            calls.push(restore_one(&states[i]));
        }
        i += 1;
    }
    assert(views.take(i as int) =~= views);
    join(&calls, "; ")
}

// -------------------------------------------------------------------- laws ---

/// A monitor is read from a row with everything in it and everything in range, as
/// the row says; from any other row none is.
pub proof fn monitors_are_read_from_full_rows(row: RowView)
    ensures
        monitor_of(row) is Ok <==> {
            &&& row.name is Some && row.refresh_rate is Some && row.scale is Some
            &&& row.x matches Some(x) && -2147483648 <= x <= 2147483647
            &&& row.y matches Some(y) && -2147483648 <= y <= 2147483647
            &&& row.width matches Some(w) && w <= 4294967295
            &&& row.height matches Some(h) && h <= 4294967295
            &&& row.transform matches Some(t) && -2147483648 <= t <= 2147483647
        },
        monitor_of(row) matches Ok(m) ==> {
            &&& row.name == Some(m.name) && row.refresh_rate == Some(m.refresh_rate) && row.scale
                == Some(m.scale)
            &&& row.x == Some(m.x as i64) && row.y == Some(m.y as i64)
            &&& row.width == Some(m.width as u64) && row.height == Some(m.height as u64)
            &&& row.transform == Some(m.transform as i64)
        },
{
}

/// A list of full rows is a list of as many monitors, in the same order, each read
/// from its row; one row that is not full spoils the list.
pub proof fn lists_are_read_row_by_row(rows: Seq<RowView>)
    ensures
        monitors_of(rows) is Ok <==> forall|i: int|
            0 <= i < rows.len() ==> monitor_of(#[trigger] rows[i]) is Ok,
        monitors_of(rows) matches Ok(list) ==> list.len() == rows.len() && forall|i: int|
            0 <= i < rows.len() ==> monitor_of(#[trigger] rows[i]) == Ok::<
                MonitorView,
                MonitorError,
            >(list[i]),
    decreases rows.len(),
{
    if rows.len() > 0 {
        let head = rows.drop_last();
        lists_are_read_row_by_row(head);
        assert(rows.last() == rows[rows.len() - 1]);
        if monitors_of(rows) is Ok {
            assert forall|i: int| 0 <= i < rows.len() implies monitor_of(#[trigger] rows[i])
                is Ok by {
                if i < head.len() {
                    assert(head[i] == rows[i]);
                }
            }
            let list = monitors_of(rows)->Ok_0;
            assert forall|i: int| 0 <= i < rows.len() implies monitor_of(#[trigger] rows[i])
                == Ok::<MonitorView, MonitorError>(list[i]) by {
                if i < head.len() {
                    assert(head[i] == rows[i]);
                }
            }
        } else if forall|i: int| 0 <= i < rows.len() ==> monitor_of(#[trigger] rows[i]) is Ok {
            assert forall|i: int| 0 <= i < head.len() implies monitor_of(#[trigger] head[i])
                is Ok by {
                assert(head[i] == rows[i]);
            }
        }
    }
}

/// The first row with something wrong is the one that is told of, and what is not a
/// list at all is told of as that.
pub proof fn the_first_bad_row_is_told(rows: Seq<RowView>, i: int, e: MonitorError)
    requires
        0 <= i < rows.len(),
        monitor_of(rows[i]) == Err::<MonitorView, MonitorError>(e),
        forall|j: int| 0 <= j < i ==> monitor_of(#[trigger] rows[j]) is Ok,
    ensures
        monitors_of(rows) == Err::<Seq<MonitorView>, MonitorError>(e),
        monitors_in(Some(Some(rows))) == Err::<Seq<MonitorView>, MonitorError>(e),
        monitors_in(Some(None::<Seq<RowView>>)) == Err::<Seq<MonitorView>, MonitorError>(
            MonitorError::NotAnArray,
        ),
        monitors_in(None::<Option<Seq<RowView>>>) == Err::<Seq<MonitorView>, MonitorError>(
            MonitorError::NotJson,
        ),
{
    let head = rows.take(i);
    assert forall|j: int| 0 <= j < head.len() implies monitor_of(#[trigger] head[j]) is Ok by {
        assert(head[j] == rows[j]);
    }
    lists_are_read_row_by_row(head);
    let upto = rows.take(i + 1);
    assert(upto.drop_last() =~= head);
    assert(upto.last() == rows[i]);
    lemma_first_error(rows, i + 1, e);
}

/// A monitor is given back its own size, rate, place, scale and turn, under its own
/// name.
pub proof fn monitors_get_their_own_layout_back(m: MonitorView)
    ensures
        restore_call(m) == "hl.monitor({ output = "@ + quoted(m.name) + ", mode = \""@ + decimal(
            m.width as nat,
        ) + "x"@ + decimal(m.height as nat) + "@"@ + short_rate(m.refresh_rate)
            + "\", position = \""@ + signed_decimal(m.x as int) + "x"@ + signed_decimal(m.y as int)
            + "\", scale = "@ + m.scale + ", transform = "@ + signed_decimal(m.transform as int)
            + " })"@,
{
    assert(restore_call(m) =~= "hl.monitor({ output = "@ + quoted(m.name) + ", mode = \""@
        + decimal(m.width as nat) + "x"@ + decimal(m.height as nat) + "@"@ + short_rate(
        m.refresh_rate,
    ) + "\", position = \""@ + signed_decimal(m.x as int) + "x"@ + signed_decimal(m.y as int)
        + "\", scale = "@ + m.scale + ", transform = "@ + signed_decimal(m.transform as int)
        + " })"@);
}

proof fn lemma_zeros(s: Seq<char>, n: nat)
    ensures
        without_trailing(s + Seq::new(n, |i: int| '0'), '0') == without_trailing(s, '0'),
    decreases n,
{
    let all = s + Seq::new(n, |i: int| '0');
    if n == 0 {
        assert(all =~= s);
    } else {
        let m = (n - 1) as nat;
        assert(all =~= (s + Seq::new(m, |i: int| '0')).push('0'));
        crate::text::trailing_characters_are_dropped(s + Seq::new(m, |i: int| '0'), '0');
        lemma_zeros(s, m);
    }
}

/// A rate keeps every digit that says something: only zeros behind the last other
/// digit of a fraction go, and the point with them where nothing else is left of
/// the fraction.
pub proof fn rates_keep_what_they_say(whole: Seq<char>, fraction: Seq<char>, zeros: nat)
    requires
        whole.len() > 0 && whole.last() != '.',
        fraction.len() > 0 && fraction.last() != '0' && fraction.last() != '.',
    ensures
        short_rate(whole + seq!['.'] + fraction + Seq::new(zeros, |i: int| '0')) == whole + seq!['.']
            + fraction,
        short_rate(whole + seq!['.'] + Seq::new(zeros, |i: int| '0')) == whole,
{
    let long = whole + seq!['.'] + fraction;
    lemma_zeros(long, zeros);
    assert(long.last() == fraction.last());
    crate::text::trailing_characters_are_dropped(long, '0');
    crate::text::trailing_characters_are_dropped(long, '.');
    let pointed = whole + seq!['.'];
    lemma_zeros(pointed, zeros);
    assert(pointed.last() == '.');
    crate::text::trailing_characters_are_dropped(pointed, '0');
    assert(pointed =~= whole.push('.'));
    crate::text::trailing_characters_are_dropped(whole, '.');
}

/// A text in a script stands between two quotes.
pub proof fn quoted_texts_stand_in_quotes(s: Seq<char>)
    ensures
        quoted(s).len() >= 2,
        quoted(s)[0] == '"',
        quoted(s).last() == '"',
        unescaped(quoted(s).subrange(1, quoted(s).len() - 1)) == s,
{
    lua_string_round_trip(s);
    assert(quoted(s).subrange(1, quoted(s).len() - 1) =~= escaped(s));
}

} // verus!
