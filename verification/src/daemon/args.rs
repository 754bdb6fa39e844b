//! The command line.

use vstd::prelude::*;
use vstd::slice::slice_subrange;

use crate::daemon::input::TouchMode;
use crate::daemon::session::{default_config, Config, ConfigView};
use crate::number::{parse_i32, parse_u16, parse_u32, parse_unsigned, parsed, parsed_signed};
use crate::protocol::is_rotation;
use crate::table::Table;
use crate::text::{
    chars_of, find_char, index_of, lemma_map_push, lowered, same_str, string_of, strings, text_of,
    to_lower,
};

verus! {

// ------------------------------------------------------------------ flags ---

/// What a word on the command line asks for.
#[derive(Debug, Clone, Copy, PartialEq, Eq, Structural)]
pub enum Flag {
    Width,
    Height,
    MaxWidth,
    Native,
    Fps,
    Bitrate,
    PositionX,
    PositionY,
    OutputName,
    Brightness,
    Rotation,
    ShowCursor,
    NoTouch,
    Json,
    TouchMode,
    PointerSensitivity,
    Once,
    Stats,
    Seconds,
    Help,
    Unknown,
}

/// The flag that a word stands for.
pub open spec fn flag_of(word: Seq<char>) -> Flag {
    if word == "--width"@ {
        Flag::Width
    } else if word == "--height"@ {
        Flag::Height
    } else if word == "--max-width"@ {
        Flag::MaxWidth
    } else if word == "--native"@ {
        Flag::Native
    } else if word == "--fps"@ {
        Flag::Fps
    } else if word == "--bitrate"@ {
        Flag::Bitrate
    } else if word == "--position"@ {
        Flag::PositionX
    } else if word == "--position-y"@ {
        Flag::PositionY
    } else if word == "--output-name"@ {
        Flag::OutputName
    } else if word == "-b"@ || word == "--brightness"@ {
        Flag::Brightness
    } else if word == "--rotation"@ {
        Flag::Rotation
    } else if word == "--show-cursor"@ {
        Flag::ShowCursor
    } else if word == "--no-touch"@ {
        Flag::NoTouch
    } else if word == "--json"@ {
        Flag::Json
    } else if word == "--touch-mode"@ {
        Flag::TouchMode
    } else if word == "--pointer-sensitivity"@ {
        Flag::PointerSensitivity
    } else if word == "--once"@ {
        Flag::Once
    } else if word == "--stats"@ {
        Flag::Stats
    } else if word == "--seconds"@ {
        Flag::Seconds
    } else if word == "--help"@ || word == "-h"@ {
        Flag::Help
    } else {
        Flag::Unknown
    }
}

/// Whether the word after the flag belongs to it.
pub open spec fn takes_value(flag: Flag) -> bool {
    match flag {
        Flag::Native | Flag::ShowCursor | Flag::NoTouch | Flag::Json | Flag::Once | Flag::Stats
        | Flag::Help | Flag::Unknown => false,
        _ => true,
    }
}

/// The flag that a word stands for.
pub fn classify(word: &str) -> (r: Flag)
    ensures
        r == flag_of(word@),
{
    if same_str(word, "--width") {
        Flag::Width
    } else if same_str(word, "--height") {
        Flag::Height
    } else if same_str(word, "--max-width") {
        Flag::MaxWidth
    } else if same_str(word, "--native") {
        Flag::Native
    } else if same_str(word, "--fps") {
        Flag::Fps
    } else if same_str(word, "--bitrate") {
        Flag::Bitrate
    } else if same_str(word, "--position") {
        Flag::PositionX
    } else if same_str(word, "--position-y") {
        Flag::PositionY
    } else if same_str(word, "--output-name") {
        Flag::OutputName
    } else if same_str(word, "-b") || same_str(word, "--brightness") {
        Flag::Brightness
    } else if same_str(word, "--rotation") {
        Flag::Rotation
    } else if same_str(word, "--show-cursor") {
        Flag::ShowCursor
    } else if same_str(word, "--no-touch") {
        Flag::NoTouch
    } else if same_str(word, "--json") {
        Flag::Json
    } else if same_str(word, "--touch-mode") {
        Flag::TouchMode
    } else if same_str(word, "--pointer-sensitivity") {
        Flag::PointerSensitivity
    } else if same_str(word, "--once") {
        Flag::Once
    } else if same_str(word, "--stats") {
        Flag::Stats
    } else if same_str(word, "--seconds") {
        Flag::Seconds
    } else if same_str(word, "--help") || same_str(word, "-h") {
        Flag::Help
    } else {
        Flag::Unknown
    }
}

fn needs_value(flag: Flag) -> (r: bool)
    ensures
        r == takes_value(flag),
{
    match flag {
        Flag::Native => false,
        Flag::ShowCursor => false,
        Flag::NoTouch => false,
        Flag::Json => false,
        Flag::Once => false,
        Flag::Stats => false,
        Flag::Help => false,
        Flag::Unknown => false,
        _ => true,
    }
}

// ----------------------------------------------------------------- values ---

/// A number in decimal no larger than `max`, or the default where the word is
/// missing or is no such number.
pub open spec fn number_or(value: Option<Seq<char>>, max: nat, default: nat) -> nat {
    match value {
        Some(word) => match parsed(word, 10, max) {
            Some(n) => n,
            None => default,
        },
        None => default,
    }
}

/// A signed number in decimal, or the default likewise.
pub open spec fn signed_or(value: Option<Seq<char>>, default: i32) -> int {
    match value {
        Some(word) => match parsed_signed(word, 0x7fff_ffff) {
            Some(n) => n,
            None => default as int,
        },
        None => default as int,
    }
}

/// The text of an optional word, empty where it is missing.
pub open spec fn word_or_empty(value: Option<Seq<char>>) -> Seq<char> {
    match value {
        Some(word) => word,
        None => Seq::empty(),
    }
}

/// The device that a setting is for, in lower case, where the word has one in
/// front of an equals sign; and the setting itself.
pub open spec fn split_setting(raw: Seq<char>) -> (Option<Seq<char>>, Seq<char>) {
    let at = index_of(raw, '=');
    if 0 < at < raw.len() {
        (Some(lowered(raw.take(at))), raw.skip(at + 1))
    } else {
        (None, raw)
    }
}

/// The brightness that a setting asks for: more than full is full.
pub open spec fn brightness_of(setting: Seq<char>) -> Option<u8> {
    match parsed(setting, 10, 0xffff_ffff) {
        Some(n) => Some(
            if n <= 100 {
                n as u8
            } else {
                100
            },
        ),
        None => None,
    }
}

/// The rotation that a setting asks for.
pub open spec fn rotation_setting(setting: Seq<char>) -> Option<u16> {
    match parsed(setting, 10, 0xffff) {
        Some(n) => if is_rotation(n as u16) {
            Some(n as u16)
        } else {
            None
        },
        None => None,
    }
}

/// The input device that a word asks for.
pub open spec fn touch_mode_of(word: Seq<char>) -> Option<TouchMode> {
    if word == "screen"@ || word == "touchscreen"@ {
        Some(TouchMode::Screen)
    } else if word == "pointer"@ || word == "mouse"@ {
        Some(TouchMode::Pointer)
    } else {
        None
    }
}

fn read_u32(value: &Option<String>, default: u32) -> (r: u32)
    ensures
        r == number_or(text_of(*value), 0xffff_ffff, default as nat),
{
    match value {
        Some(word) => {
            let cs = chars_of(word.as_str());
            match parse_u32(cs.as_slice()) {
                Some(n) => n,
                None => default,
            }
        },
        None => default,
    }
}

fn read_i32(value: &Option<String>, default: i32) -> (r: i32)
    ensures
        r == signed_or(text_of(*value), default),
{
    match value {
        Some(word) => {
            let cs = chars_of(word.as_str());
            match parse_i32(cs.as_slice()) {
                Some(n) => n,
                None => default,
            }
        },
        None => default,
    }
}

fn split(raw: &str) -> (r: (Option<String>, Vec<char>))
    ensures
        text_of(r.0) == split_setting(raw@).0,
        r.1@ == split_setting(raw@).1,
{
    let cs = chars_of(raw);
    let at: usize = find_char(cs.as_slice(), '=');
    if 0 < at && at < cs.len() {
        let serial = to_lower(slice_subrange(cs.as_slice(), 0, at));
        let rest = crate::text::copy_of(slice_subrange(cs.as_slice(), at + 1, cs.len()));
        assert(cs@.subrange(0, at as int) =~= cs@.take(at as int));
        assert(cs@.subrange(at + 1, cs@.len() as int) =~= cs@.skip(at + 1));
        (Some(string_of(serial.as_slice())), rest)
    } else {
        (None, cs)
    }
}

// ------------------------------------------------------------------ state ---

/// What has been gathered from the words so far.
pub ghost struct ScanView {
    pub config: ConfigView,
    pub explicit_output_name: bool,
    pub once: bool,
    pub seconds: Option<u64>,
    pub width: Option<u32>,
    pub height: Option<u32>,
    pub pointer_sensitivity: Option<Seq<char>>,
    pub brightness_overrides: Map<Seq<char>, u8>,
    pub rotation_overrides: Map<Seq<char>, u16>,
    /// The brightness settings that were passed over.
    pub ignored: Seq<Seq<char>>,
}

/// Where a word leads. What stops the scan also tells which brightness settings
/// were passed over before it.
pub ghost enum Step {
    Go(ScanView),
    Help { ignored: Seq<Seq<char>> },
    BadRotation { raw: Seq<char>, ignored: Seq<Seq<char>> },
    BadTouchMode { raw: Seq<char>, ignored: Seq<Seq<char>> },
}

/// Before the first word.
pub open spec fn scan_start() -> ScanView {
    ScanView {
        config: default_config(),
        explicit_output_name: false,
        once: false,
        seconds: None,
        width: None,
        height: None,
        pointer_sensitivity: None,
        brightness_overrides: Map::empty(),
        rotation_overrides: Map::empty(),
        ignored: Seq::empty(),
    }
}

/// A brightness setting, for one device or for all.
pub open spec fn with_brightness(s: ScanView, raw: Seq<char>) -> ScanView {
    let (serial, setting) = split_setting(raw);
    match brightness_of(setting) {
        Some(percent) => match serial {
            Some(key) => ScanView {
                brightness_overrides: s.brightness_overrides.insert(key, percent),
                ..s
            },
            None => ScanView {
                config: ConfigView { brightness: Some(percent), ..s.config },
                ..s
            },
        },
        None => ScanView { ignored: s.ignored.push(raw), ..s },
    }
}

/// A rotation setting, for one device or for all. Anything but the four angles
/// ends the run, since a typo that silently gives landscape would go unnoticed.
pub open spec fn with_rotation(s: ScanView, raw: Seq<char>) -> Step {
    let (serial, setting) = split_setting(raw);
    match rotation_setting(setting) {
        Some(degrees) => Step::Go(
            match serial {
                Some(key) => ScanView {
                    rotation_overrides: s.rotation_overrides.insert(key, degrees),
                    ..s
                },
                None => ScanView { config: ConfigView { rotation: degrees, ..s.config }, ..s },
            },
        ),
        None => Step::BadRotation { raw, ignored: s.ignored },
    }
}

/// What one flag, with the word after it where it takes one, changes.
#[verifier::opaque]
pub open spec fn applied(s: ScanView, flag: Flag, value: Option<Seq<char>>) -> Step {
    let c = s.config;
    match flag {
        Flag::Width => Step::Go(
            ScanView { width: Some(number_or(value, 0xffff_ffff, 1920) as u32), ..s },
        ),
        Flag::Height => Step::Go(
            ScanView { height: Some(number_or(value, 0xffff_ffff, 1200) as u32), ..s },
        ),
        Flag::MaxWidth => Step::Go(
            ScanView {
                config: ConfigView { max_width: number_or(value, 0xffff_ffff, 1920) as u32, ..c },
                ..s
            },
        ),
        Flag::Native => Step::Go(
            ScanView { config: ConfigView { max_width: u32::MAX, ..c }, ..s },
        ),
        Flag::Fps => Step::Go(
            ScanView {
                config: ConfigView { fps: number_or(value, 0xffff_ffff, 60) as u32, ..c },
                ..s
            },
        ),
        Flag::Bitrate => Step::Go(
            ScanView {
                config: ConfigView {
                    bitrate_kbps: number_or(value, 0xffff_ffff, 20_000) as u32,
                    ..c
                },
                ..s
            },
        ),
        Flag::PositionX => Step::Go(
            ScanView {
                config: ConfigView { position_x: signed_or(value, c.position_x) as i32, ..c },
                ..s
            },
        ),
        Flag::PositionY => Step::Go(
            ScanView {
                config: ConfigView { position_y: signed_or(value, c.position_y) as i32, ..c },
                ..s
            },
        ),
        Flag::OutputName => Step::Go(
            match value {
                Some(name) => ScanView {
                    config: ConfigView { output_name: name, ..c },
                    explicit_output_name: true,
                    ..s
                },
                None => s,
            },
        ),
        Flag::Brightness => Step::Go(with_brightness(s, word_or_empty(value))),
        Flag::Rotation => with_rotation(s, word_or_empty(value)),
        Flag::ShowCursor => Step::Go(
            ScanView { config: ConfigView { paint_cursor: true, ..c }, ..s },
        ),
        Flag::NoTouch => Step::Go(
            ScanView { config: ConfigView { enable_touch: false, ..c }, ..s },
        ),
        Flag::Json => Step::Go(
            ScanView { config: ConfigView { json_output: true, ..c }, ..s },
        ),
        Flag::TouchMode => match touch_mode_of(word_or_empty(value)) {
            Some(mode) => Step::Go(
                ScanView { config: ConfigView { touch_mode: mode, ..c }, ..s },
            ),
            None => Step::BadTouchMode { raw: word_or_empty(value), ignored: s.ignored },
        },
        Flag::PointerSensitivity => Step::Go(
            ScanView { pointer_sensitivity: Some(word_or_empty(value)), ..s },
        ),
        Flag::Once => Step::Go(ScanView { once: true, ..s }),
        Flag::Stats => Step::Go(ScanView { config: ConfigView { stats: true, ..c }, ..s }),
        Flag::Seconds => Step::Go(
            ScanView {
                seconds: match value {
                    Some(word) => match parsed(word, 10, u64::MAX as nat) {
                        Some(n) => Some(n as u64),
                        None => None,
                    },
                    None => None,
                },
                config: ConfigView { stats: true, ..c },
                ..s
            },
        ),
        Flag::Help => Step::Help { ignored: s.ignored },
        Flag::Unknown => Step::Go(s),
    }
}

/// The word after the first, if there is one.
pub open spec fn second(words: Seq<Seq<char>>) -> Option<Seq<char>> {
    if words.len() > 1 {
        Some(words[1])
    } else {
        None
    }
}

/// What is left after a flag and its value.
pub open spec fn after_flag(words: Seq<Seq<char>>) -> Seq<Seq<char>> {
    if takes_value(flag_of(words[0])) && words.len() > 1 {
        words.skip(2)
    } else {
        words.skip(1)
    }
}

/// Where all the words lead, from left to right.
pub open spec fn scanned(s: ScanView, words: Seq<Seq<char>>) -> Step
    decreases words.len(),
{
    if words.len() == 0 {
        Step::Go(s)
    } else {
        match applied(s, flag_of(words[0]), second(words)) {
            Step::Go(next) => scanned(next, after_flag(words)),
            other => other,
        }
    }
}

/// What the command line comes to.
pub ghost enum OutcomeView {
    Run(ArgsView),
    Help { ignored: Seq<Seq<char>> },
    BadRotation { raw: Seq<char>, ignored: Seq<Seq<char>> },
    BadTouchMode { raw: Seq<char>, ignored: Seq<Seq<char>> },
}

/// The settings of a run.
pub ghost struct ArgsView {
    pub config: ConfigView,
    pub explicit_output_name: bool,
    pub once: bool,
    pub seconds: Option<u64>,
    pub pointer_sensitivity: Option<Seq<char>>,
    pub brightness_overrides: Map<Seq<char>, u8>,
    pub rotation_overrides: Map<Seq<char>, u16>,
    pub ignored_brightness: Seq<Seq<char>>,
    pub half_resolution: bool,
}

/// Only an explicit pair pins the resolution; one side alone would distort the
/// aspect ratio, so it is passed over.
pub open spec fn pinned(width: Option<u32>, height: Option<u32>) -> Option<(u32, u32)> {
    match (width, height) {
        (Some(w), Some(h)) => Some((w, h)),
        _ => None,
    }
}

/// The settings of a run that ended in `s`.
pub open spec fn settings(s: ScanView) -> ArgsView {
    ArgsView {
        config: ConfigView { resolution: pinned(s.width, s.height), ..s.config },
        explicit_output_name: s.explicit_output_name,
        once: s.once,
        seconds: s.seconds,
        pointer_sensitivity: s.pointer_sensitivity,
        brightness_overrides: s.brightness_overrides,
        rotation_overrides: s.rotation_overrides,
        ignored_brightness: s.ignored,
        half_resolution: (s.width is Some) != (s.height is Some),
    }
}

/// What a command line comes to.
pub open spec fn outcome_of(words: Seq<Seq<char>>) -> OutcomeView {
    match scanned(scan_start(), words) {
        Step::Go(s) => OutcomeView::Run(settings(s)),
        Step::Help { ignored } => OutcomeView::Help { ignored },
        Step::BadRotation { raw, ignored } => OutcomeView::BadRotation { raw, ignored },
        Step::BadTouchMode { raw, ignored } => OutcomeView::BadTouchMode { raw, ignored },
    }
}

/// The settings of a run.
#[derive(Debug)]
pub struct Args {
    pub config: Config,
    /// True when the output name was given. It is then used verbatim for every
    /// session, and a collision with an active session is refused.
    pub explicit_output_name: bool,
    pub once: bool,
    pub seconds: Option<u64>,
    /// Cursor speed as it was given, for pointer mode.
    pub pointer_sensitivity: Option<String>,
    /// Brightness per serial, in lower case. A device absent from this map
    /// falls back to the brightness of `config`.
    pub brightness_overrides: Table<u8>,
    /// Rotation per serial, likewise.
    pub rotation_overrides: Table<u16>,
    /// Brightness settings that made no sense and were passed over.
    pub ignored_brightness: Vec<String>,
    /// Only one of width and height was given.
    pub half_resolution: bool,
}

impl View for Args {
    type V = ArgsView;

    open spec fn view(&self) -> ArgsView {
        ArgsView {
            config: self.config@,
            explicit_output_name: self.explicit_output_name,
            once: self.once,
            seconds: self.seconds,
            pointer_sensitivity: text_of(self.pointer_sensitivity),
            brightness_overrides: self.brightness_overrides@,
            rotation_overrides: self.rotation_overrides@,
            ignored_brightness: strings(self.ignored_brightness@),
            half_resolution: self.half_resolution,
        }
    }
}

impl Args {
    pub open spec fn wf(self) -> bool {
        self.brightness_overrides.wf() && self.rotation_overrides.wf()
    }
}

/// What the command line comes to. Brightness settings that were passed over on
/// the way are told of in any case.
#[derive(Debug)]
pub enum Outcome {
    Run(Args),
    /// Usage was asked for.
    Help { ignored: Vec<String> },
    /// A rotation other than 0, 90, 180 or 270; the whole word.
    BadRotation { raw: String, ignored: Vec<String> },
    /// An input device other than screen or pointer.
    BadTouchMode { raw: String, ignored: Vec<String> },
}

impl View for Outcome {
    type V = OutcomeView;

    open spec fn view(&self) -> OutcomeView {
        match self {
            Outcome::Run(args) => OutcomeView::Run(args@),
            Outcome::Help { ignored } => OutcomeView::Help { ignored: strings(ignored@) },
            Outcome::BadRotation { raw, ignored } => OutcomeView::BadRotation {
                raw: raw@,
                ignored: strings(ignored@),
            },
            Outcome::BadTouchMode { raw, ignored } => OutcomeView::BadTouchMode {
                raw: raw@,
                ignored: strings(ignored@),
            },
        }
    }
}

/// What stops the scan.
enum Stop {
    Help,
    BadRotation(String),
    BadTouchMode(String),
}

impl Stop {
    spec fn step(self, ignored: Seq<Seq<char>>) -> Step {
        match self {
            Stop::Help => Step::Help { ignored },
            Stop::BadRotation(raw) => Step::BadRotation { raw: raw@, ignored },
            Stop::BadTouchMode(raw) => Step::BadTouchMode { raw: raw@, ignored },
        }
    }
}

struct Scan {
    config: Config,
    explicit_output_name: bool,
    once: bool,
    seconds: Option<u64>,
    width: Option<u32>,
    height: Option<u32>,
    pointer_sensitivity: Option<String>,
    brightness_overrides: Table<u8>,
    rotation_overrides: Table<u16>,
    ignored: Vec<String>,
}

impl Scan {
    spec fn wf(self) -> bool {
        self.brightness_overrides.wf() && self.rotation_overrides.wf()
    }

    spec fn state(self) -> ScanView {
        ScanView {
            config: self.config@,
            explicit_output_name: self.explicit_output_name,
            once: self.once,
            seconds: self.seconds,
            width: self.width,
            height: self.height,
            pointer_sensitivity: text_of(self.pointer_sensitivity),
            brightness_overrides: self.brightness_overrides@,
            rotation_overrides: self.rotation_overrides@,
            ignored: strings(self.ignored@),
        }
    }

    fn brightness(&mut self, raw: String)
        requires
            old(self).wf(),
        ensures
            final(self).wf(),
            final(self).state() == with_brightness(old(self).state(), raw@),
    {
        broadcast use lemma_map_push;

        let (serial, setting) = split(raw.as_str());
        match parse_u32(setting.as_slice()) {
            Some(n) => {
                let percent: u8 = if n <= 100 {
                    n as u8
                } else {
                    100
                };
                match serial {
                    Some(key) => self.brightness_overrides.insert(key, percent),
                    None => {
                        self.config.brightness = Some(percent);
                    },
                }
            },
            None => {
                self.ignored.push(raw);
            },
        }
    }

    fn rotation(&mut self, raw: &str) -> (r: bool)
        requires
            old(self).wf(),
        ensures
            final(self).wf(),
            r ==> with_rotation(old(self).state(), raw@) == Step::Go(final(self).state()),
            !r ==> final(self).state() == old(self).state() && with_rotation(
                old(self).state(),
                raw@,
            ) == (Step::BadRotation { raw: raw@, ignored: old(self).state().ignored }),
    {
        let (serial, setting) = split(raw);
        let degrees: u16 = match parse_u16(setting.as_slice()) {
            Some(n) => n,
            None => {
                return false;
            },
        };
        if degrees != 0 && degrees != 90 && degrees != 180 && degrees != 270 {
            return false;
        }
        match serial {
            Some(key) => self.rotation_overrides.insert(key, degrees),
            None => {
                self.config.rotation = degrees;
            },
        }
        true
    }

    /// Take in a flag; something to stop for is handed back.
    fn apply(&mut self, flag: Flag, value: Option<String>) -> (r: Option<Stop>)
        requires
            old(self).wf(),
        ensures
            final(self).wf(),
            r is None ==> applied(old(self).state(), flag, text_of(value)) == Step::Go(
                final(self).state(),
            ),
            r matches Some(stop) ==> applied(old(self).state(), flag, text_of(value)) == stop.step(
                final(self).state().ignored,
            ),
    {
        proof {
            reveal(applied);
        }
        match flag {
            Flag::Width => {
                self.width = Some(read_u32(&value, 1920));
            },
            Flag::Height => {
                self.height = Some(read_u32(&value, 1200));
            },
            Flag::MaxWidth => {
                self.config.max_width = read_u32(&value, 1920);
            },
            Flag::Native => {
                self.config.max_width = u32::MAX;
            },
            Flag::Fps => {
                self.config.fps = read_u32(&value, 60);
            },
            Flag::Bitrate => {
                self.config.bitrate_kbps = read_u32(&value, 20_000);
            },
            Flag::PositionX => {
                self.config.position_x = read_i32(&value, self.config.position_x);
            },
            Flag::PositionY => {
                self.config.position_y = read_i32(&value, self.config.position_y);
            },
            Flag::OutputName => {
                match value {
                    Some(name) => {
                        self.config.output_name = name;
                        self.explicit_output_name = true;
                    },
                    None => {},
                }
            },
            Flag::Brightness => {
                let raw = word(value);
                self.brightness(raw);
            },
            Flag::Rotation => {
                let raw = word(value);
                if !self.rotation(raw.as_str()) {
                    return Some(Stop::BadRotation(raw));
                }
            },
            Flag::ShowCursor => {
                self.config.paint_cursor = true;
            },
            Flag::NoTouch => {
                self.config.enable_touch = false;
            },
            Flag::Json => {
                self.config.json_output = true;
            },
            Flag::TouchMode => {
                let raw = word(value);
                if same_str(raw.as_str(), "screen") || same_str(raw.as_str(), "touchscreen") {
                    self.config.touch_mode = TouchMode::Screen;
                } else if same_str(raw.as_str(), "pointer") || same_str(raw.as_str(), "mouse") {
                    self.config.touch_mode = TouchMode::Pointer;
                } else {
                    return Some(Stop::BadTouchMode(raw));
                }
            },
            Flag::PointerSensitivity => {
                self.pointer_sensitivity = Some(word(value));
            },
            Flag::Once => {
                self.once = true;
            },
            Flag::Stats => {
                self.config.stats = true;
            },
            Flag::Seconds => {
                self.seconds = match value {
                    Some(text) => {
                        let cs = chars_of(text.as_str());
                        parse_unsigned(cs.as_slice(), 10, u64::MAX)
                    },
                    None => None,
                };
                self.config.stats = true;
            },
            Flag::Help => {
                return Some(Stop::Help);
            },
            Flag::Unknown => {},
        }
        None
    }
}

proof fn lemma_value_is_unused(
    s: ScanView,
    flag: Flag,
    a: Option<Seq<char>>,
    b: Option<Seq<char>>,
)
    ensures
        !takes_value(flag) ==> applied(s, flag, a) == applied(s, flag, b),
{
    reveal(applied);
}

fn word(value: Option<String>) -> (r: String)
    ensures
        r@ == word_or_empty(text_of(value)),
{
    match value {
        Some(text) => text,
        None => {
            let empty = String::new();
            assert(empty@ =~= Seq::<char>::empty());
            empty
        },
    }
}

/// Read the command line, without the name of the program.
pub fn parse_args(args: &Vec<String>) -> (r: Outcome)
    ensures
        r@ == outcome_of(strings(args@)),
        r matches Outcome::Run(run) ==> run.wf(),
{
    let mut scan = Scan {
        config: Config::default(),
        explicit_output_name: false,
        once: false,
        seconds: None,
        width: None,
        height: None,
        pointer_sensitivity: None,
        brightness_overrides: Table::new(),
        rotation_overrides: Table::new(),
        ignored: Vec::new(),
    };
    let ghost words = strings(args@);
    let mut at: usize = 0;
    proof {
        assert(strings(scan.ignored@) =~= Seq::<Seq<char>>::empty());
        assert(scan.state() == scan_start());
        assert(words.skip(0) =~= words);
    }
    while at < args.len()
        invariant
            at <= args@.len(),
            words == strings(args@),
            scan.wf(),
            scanned(scan_start(), words) == scanned(scan.state(), words.skip(at as int)),
        decreases args@.len() - at,
    {
        let flag = classify(args[at].as_str());
        let ghost rest = words.skip(at as int);
        let ghost before = scan.state();
        assert(rest[0] == args@[at as int]@);
        assert(rest.len() > 1 ==> rest[1] == args@[at + 1]@);
        let mut next: usize = at + 1;
        let value: Option<String> = if needs_value(flag) && next < args.len() {
            next = next + 1;
            Some(args[at + 1].clone())
        } else {
            None
        };
        assert(takes_value(flag) ==> text_of(value) == second(rest));
        proof {
            lemma_value_is_unused(before, flag, text_of(value), second(rest));
        }
        assert(after_flag(rest) =~= words.skip(next as int));
        match scan.apply(flag, value) {
            Some(stop) => {
                let ignored = scan.ignored;
                return match stop {
                    Stop::Help => Outcome::Help { ignored },
                    Stop::BadRotation(raw) => Outcome::BadRotation { raw, ignored },
                    Stop::BadTouchMode(raw) => Outcome::BadTouchMode { raw, ignored },
                };
            },
            None => {},
        }
        at = next;
    }
    assert(words.skip(at as int).len() == 0);
    let half = scan.width.is_some() != scan.height.is_some();
    let mut config = scan.config;
    config.resolution = match (scan.width, scan.height) {
        (Some(w), Some(h)) => Some((w, h)),
        _ => None,
    };
    Outcome::Run(
        Args {
            config,
            explicit_output_name: scan.explicit_output_name,
            once: scan.once,
            seconds: scan.seconds,
            pointer_sensitivity: scan.pointer_sensitivity,
            brightness_overrides: scan.brightness_overrides,
            rotation_overrides: scan.rotation_overrides,
            ignored_brightness: scan.ignored,
            half_resolution: half,
        },
    )
}

// -------------------------------------------------------------------- laws ---

/// Whether settings can be carried out: every rotation is one of the four, and
/// no brightness is more than full.
pub open spec fn valid_settings(
    config: ConfigView,
    brightness: Map<Seq<char>, u8>,
    rotation: Map<Seq<char>, u16>,
) -> bool {
    &&& is_rotation(config.rotation)
    &&& config.brightness matches Some(percent) ==> percent <= 100
    &&& forall|k: Seq<char>| #[trigger] brightness.contains_key(k) ==> brightness[k] <= 100
    &&& forall|k: Seq<char>| #[trigger] rotation.contains_key(k) ==> is_rotation(rotation[k])
}

proof fn lemma_other_flags(s: ScanView, flag: Flag, value: Option<Seq<char>>)
    requires
        flag != Flag::Brightness,
        flag != Flag::Rotation,
    ensures
        applied(s, flag, value) matches Step::Go(next) ==> next.config.rotation
            == s.config.rotation && next.config.brightness == s.config.brightness
            && next.brightness_overrides == s.brightness_overrides && next.rotation_overrides
            == s.rotation_overrides,
{
    reveal(applied);
}

proof fn lemma_setting_flags(s: ScanView, value: Option<Seq<char>>)
    ensures
        applied(s, Flag::Brightness, value) == Step::Go(with_brightness(s, word_or_empty(value))),
        applied(s, Flag::Rotation, value) == with_rotation(s, word_or_empty(value)),
{
    reveal(applied);
}

proof fn lemma_applied_valid(s: ScanView, flag: Flag, value: Option<Seq<char>>)
    requires
        valid_settings(s.config, s.brightness_overrides, s.rotation_overrides),
    ensures
        applied(s, flag, value) matches Step::Go(next) ==> valid_settings(
            next.config,
            next.brightness_overrides,
            next.rotation_overrides,
        ),
{
    if flag == Flag::Brightness || flag == Flag::Rotation {
        lemma_setting_flags(s, value);
    } else {
        lemma_other_flags(s, flag, value);
    }
}

proof fn lemma_scanned_valid(s: ScanView, words: Seq<Seq<char>>)
    requires
        valid_settings(s.config, s.brightness_overrides, s.rotation_overrides),
    ensures
        scanned(s, words) matches Step::Go(end) ==> valid_settings(
            end.config,
            end.brightness_overrides,
            end.rotation_overrides,
        ),
    decreases words.len(),
{
    if words.len() > 0 {
        lemma_applied_valid(s, flag_of(words[0]), second(words));
        match applied(s, flag_of(words[0]), second(words)) {
            Step::Go(next) => {
                lemma_scanned_valid(next, after_flag(words));
            },
            _ => {},
        }
    }
}

/// Whatever is on the command line, a run that comes of it has settings that
/// can be carried out.
pub proof fn runs_have_valid_settings(words: Seq<Seq<char>>)
    ensures
        outcome_of(words) matches OutcomeView::Run(a) ==> valid_settings(
            a.config,
            a.brightness_overrides,
            a.rotation_overrides,
        ),
{
    lemma_scanned_valid(scan_start(), words);
}

/// A word that means nothing changes nothing, wherever a flag could stand.
pub proof fn unknown_words_are_passed_over(s: ScanView, word: Seq<char>, rest: Seq<Seq<char>>)
    requires
        flag_of(word) == Flag::Unknown,
    ensures
        scanned(s, seq![word] + rest) == scanned(s, rest),
{
    reveal(applied);
    let words = seq![word] + rest;
    assert(words.skip(1) =~= rest);
}

/// Asking for usage gives usage, whatever follows; what was passed over before
/// is still told of.
pub proof fn help_ends_the_scan(s: ScanView, word: Seq<char>, rest: Seq<Seq<char>>)
    requires
        flag_of(word) == Flag::Help,
    ensures
        scanned(s, seq![word] + rest) == (Step::Help { ignored: s.ignored }),
{
    reveal(applied);
}

// ---------------------------------------------------- what each option does ---

/// The names of the options differ in their length or in one letter.
proof fn lemma_flags()
    ensures
        flag_of("--width"@) == Flag::Width,
        flag_of("--height"@) == Flag::Height,
        flag_of("--max-width"@) == Flag::MaxWidth,
        flag_of("--native"@) == Flag::Native,
        flag_of("--fps"@) == Flag::Fps,
        flag_of("--bitrate"@) == Flag::Bitrate,
        flag_of("--position"@) == Flag::PositionX,
        flag_of("--position-y"@) == Flag::PositionY,
        flag_of("--output-name"@) == Flag::OutputName,
        flag_of("-b"@) == Flag::Brightness,
        flag_of("--brightness"@) == Flag::Brightness,
        flag_of("--rotation"@) == Flag::Rotation,
        flag_of("--show-cursor"@) == Flag::ShowCursor,
        flag_of("--no-touch"@) == Flag::NoTouch,
        flag_of("--json"@) == Flag::Json,
        flag_of("--touch-mode"@) == Flag::TouchMode,
        flag_of("--pointer-sensitivity"@) == Flag::PointerSensitivity,
        flag_of("--once"@) == Flag::Once,
        flag_of("--stats"@) == Flag::Stats,
        flag_of("--seconds"@) == Flag::Seconds,
        flag_of("--help"@) == Flag::Help,
        flag_of("-h"@) == Flag::Help,
{
    reveal_strlit("--width");
    reveal_strlit("--height");
    reveal_strlit("--max-width");
    reveal_strlit("--native");
    reveal_strlit("--fps");
    reveal_strlit("--bitrate");
    reveal_strlit("--position");
    reveal_strlit("--position-y");
    reveal_strlit("--output-name");
    reveal_strlit("-b");
    reveal_strlit("--brightness");
    reveal_strlit("--rotation");
    reveal_strlit("--show-cursor");
    reveal_strlit("--no-touch");
    reveal_strlit("--json");
    reveal_strlit("--touch-mode");
    reveal_strlit("--pointer-sensitivity");
    reveal_strlit("--once");
    reveal_strlit("--stats");
    reveal_strlit("--seconds");
    reveal_strlit("--help");
    reveal_strlit("-h");
    assert("--width"@.len() == 7);
    assert("--height"@.len() == 8);
    assert("--max-width"@.len() == 11);
    assert("--native"@.len() == 8);
    assert("--fps"@.len() == 5);
    assert("--bitrate"@.len() == 9);
    assert("--position"@.len() == 10);
    assert("--position-y"@.len() == 12);
    assert("--output-name"@.len() == 13);
    assert("-b"@.len() == 2);
    assert("--brightness"@.len() == 12);
    assert("--rotation"@.len() == 10);
    assert("--show-cursor"@.len() == 13);
    assert("--no-touch"@.len() == 10);
    assert("--json"@.len() == 6);
    assert("--touch-mode"@.len() == 12);
    assert("--pointer-sensitivity"@.len() == 21);
    assert("--once"@.len() == 6);
    assert("--stats"@.len() == 7);
    assert("--seconds"@.len() == 9);
    assert("--help"@.len() == 6);
    assert("-h"@.len() == 2);
    assert(flag_of("--width"@) == Flag::Width);
    assert(flag_of("--height"@) == Flag::Height);
    assert(flag_of("--max-width"@) == Flag::MaxWidth);
    assert("--native"@[2] != "--height"@[2]);
    assert("--native"@ != "--height"@);
    assert(flag_of("--native"@) == Flag::Native);
    assert(flag_of("--fps"@) == Flag::Fps);
    assert(flag_of("--bitrate"@) == Flag::Bitrate);
    assert(flag_of("--position"@) == Flag::PositionX);
    assert(flag_of("--position-y"@) == Flag::PositionY);
    assert(flag_of("--output-name"@) == Flag::OutputName);
    assert(flag_of("-b"@) == Flag::Brightness);
    assert("--brightness"@[2] != "--position-y"@[2]);
    assert("--brightness"@ != "--position-y"@);
    assert(flag_of("--brightness"@) == Flag::Brightness);
    assert("--rotation"@[2] != "--position"@[2]);
    assert("--rotation"@ != "--position"@);
    assert(flag_of("--rotation"@) == Flag::Rotation);
    assert("--show-cursor"@[2] != "--output-name"@[2]);
    assert("--show-cursor"@ != "--output-name"@);
    assert(flag_of("--show-cursor"@) == Flag::ShowCursor);
    assert("--no-touch"@[2] != "--position"@[2]);
    assert("--no-touch"@ != "--position"@);
    assert("--no-touch"@[2] != "--rotation"@[2]);
    assert("--no-touch"@ != "--rotation"@);
    assert(flag_of("--no-touch"@) == Flag::NoTouch);
    assert(flag_of("--json"@) == Flag::Json);
    assert("--touch-mode"@[2] != "--position-y"@[2]);
    assert("--touch-mode"@ != "--position-y"@);
    assert("--touch-mode"@[2] != "--brightness"@[2]);
    assert("--touch-mode"@ != "--brightness"@);
    assert(flag_of("--touch-mode"@) == Flag::TouchMode);
    assert(flag_of("--pointer-sensitivity"@) == Flag::PointerSensitivity);
    assert("--once"@[2] != "--json"@[2]);
    assert("--once"@ != "--json"@);
    assert(flag_of("--once"@) == Flag::Once);
    assert("--stats"@[2] != "--width"@[2]);
    assert("--stats"@ != "--width"@);
    assert(flag_of("--stats"@) == Flag::Stats);
    assert("--seconds"@[2] != "--bitrate"@[2]);
    assert("--seconds"@ != "--bitrate"@);
    assert(flag_of("--seconds"@) == Flag::Seconds);
    assert("--help"@[2] != "--json"@[2]);
    assert("--help"@ != "--json"@);
    assert("--help"@[2] != "--once"@[2]);
    assert("--help"@ != "--once"@);
    assert(flag_of("--help"@) == Flag::Help);
    assert("-h"@[1] != "-b"@[1]);
    assert("-h"@ != "-b"@);
    assert(flag_of("-h"@) == Flag::Help);
}

proof fn lemma_with_value(s: ScanView, word: Seq<char>, value: Seq<char>, rest: Seq<Seq<char>>)
    requires
        takes_value(flag_of(word)),
    ensures
        applied(s, flag_of(word), Some(value)) matches Step::Go(next) ==> scanned(
            s,
            seq![word, value] + rest,
        ) == scanned(next, rest),
        !(applied(s, flag_of(word), Some(value)) is Go) ==> scanned(s, seq![word, value] + rest)
            == applied(s, flag_of(word), Some(value)),
{
    let words = seq![word, value] + rest;
    assert(words.skip(2) =~= rest);
    assert(second(words) == Some(value));
}

proof fn lemma_alone(s: ScanView, word: Seq<char>, rest: Seq<Seq<char>>)
    requires
        !takes_value(flag_of(word)),
    ensures
        applied(s, flag_of(word), second(seq![word] + rest)) matches Step::Go(next) ==> scanned(
            s,
            seq![word] + rest,
        ) == scanned(next, rest),
{
    let words = seq![word] + rest;
    assert(words.skip(1) =~= rest);
}

/// A number behind an option is what the option sets, and nothing else changes: the
/// size of the output, the widest it may be, the rate and the bitrate.
pub proof fn numbers_reach_their_settings(s: ScanView, n: u32, rest: Seq<Seq<char>>)
    ensures
        ({
            let d = crate::number::decimal(n as nat);
            let c = s.config;
            &&& scanned(s, seq!["--width"@, d] + rest) == scanned(
                ScanView { width: Some(n), ..s },
                rest,
            )
            &&& scanned(s, seq!["--height"@, d] + rest) == scanned(
                ScanView { height: Some(n), ..s },
                rest,
            )
            &&& scanned(s, seq!["--max-width"@, d] + rest) == scanned(
                ScanView { config: ConfigView { max_width: n, ..c }, ..s },
                rest,
            )
            &&& scanned(s, seq!["--fps"@, d] + rest) == scanned(
                ScanView { config: ConfigView { fps: n, ..c }, ..s },
                rest,
            )
            &&& scanned(s, seq!["--bitrate"@, d] + rest) == scanned(
                ScanView { config: ConfigView { bitrate_kbps: n, ..c }, ..s },
                rest,
            )
        }),
{
    reveal(applied);
    lemma_flags();
    let d = crate::number::decimal(n as nat);
    crate::number::decimal_round_trip(n as nat, 0xffff_ffff);
    lemma_with_value(s, "--width"@, d, rest);
    lemma_with_value(s, "--height"@, d, rest);
    lemma_with_value(s, "--max-width"@, d, rest);
    lemma_with_value(s, "--fps"@, d, rest);
    lemma_with_value(s, "--bitrate"@, d, rest);
}

/// A place behind an option is where the output goes, to either side of the origin.
pub proof fn places_reach_their_settings(s: ScanView, n: i32, rest: Seq<Seq<char>>)
    ensures
        ({
            let d = crate::number::signed_decimal(n as int);
            let c = s.config;
            &&& scanned(s, seq!["--position"@, d] + rest) == scanned(
                ScanView { config: ConfigView { position_x: n, ..c }, ..s },
                rest,
            )
            &&& scanned(s, seq!["--position-y"@, d] + rest) == scanned(
                ScanView { config: ConfigView { position_y: n, ..c }, ..s },
                rest,
            )
        }),
{
    reveal(applied);
    lemma_flags();
    let d = crate::number::signed_decimal(n as int);
    crate::number::signed_decimal_round_trip(n as int, 0x7fff_ffff);
    lemma_with_value(s, "--position"@, d, rest);
    lemma_with_value(s, "--position-y"@, d, rest);
}

/// The words behind the options that take one reach their settings as they are: the
/// name of the output, the cursor speed, and the input device by any of its names.
pub proof fn words_reach_their_settings(s: ScanView, word: Seq<char>, rest: Seq<Seq<char>>)
    ensures
        scanned(s, seq!["--output-name"@, word] + rest) == scanned(
            ScanView {
                config: ConfigView { output_name: word, ..s.config },
                explicit_output_name: true,
                ..s
            },
            rest,
        ),
        scanned(s, seq!["--pointer-sensitivity"@, word] + rest) == scanned(
            ScanView { pointer_sensitivity: Some(word), ..s },
            rest,
        ),
        word == "screen"@ || word == "touchscreen"@ ==> scanned(
            s,
            seq!["--touch-mode"@, word] + rest,
        ) == scanned(
            ScanView { config: ConfigView { touch_mode: TouchMode::Screen, ..s.config }, ..s },
            rest,
        ),
        word == "pointer"@ || word == "mouse"@ ==> scanned(s, seq!["--touch-mode"@, word] + rest)
            == scanned(
            ScanView { config: ConfigView { touch_mode: TouchMode::Pointer, ..s.config }, ..s },
            rest,
        ),
        word != "screen"@ && word != "touchscreen"@ && word != "pointer"@ && word != "mouse"@
            ==> scanned(s, seq!["--touch-mode"@, word] + rest) == (Step::BadTouchMode {
            raw: word,
            ignored: s.ignored,
        }),
{
    reveal(applied);
    lemma_flags();
    reveal_strlit("screen");
    reveal_strlit("touchscreen");
    reveal_strlit("pointer");
    reveal_strlit("mouse");
    lemma_with_value(s, "--output-name"@, word, rest);
    lemma_with_value(s, "--pointer-sensitivity"@, word, rest);
    lemma_with_value(s, "--touch-mode"@, word, rest);
}

/// An option without a value sets just what it is for.
pub proof fn switches_set_what_they_are_for(s: ScanView, rest: Seq<Seq<char>>)
    ensures
        ({
            let c = s.config;
            &&& scanned(s, seq!["--native"@] + rest) == scanned(
                ScanView { config: ConfigView { max_width: 4294967295, ..c }, ..s },
                rest,
            )
            &&& scanned(s, seq!["--show-cursor"@] + rest) == scanned(
                ScanView { config: ConfigView { paint_cursor: true, ..c }, ..s },
                rest,
            )
            &&& scanned(s, seq!["--no-touch"@] + rest) == scanned(
                ScanView { config: ConfigView { enable_touch: false, ..c }, ..s },
                rest,
            )
            &&& scanned(s, seq!["--json"@] + rest) == scanned(
                ScanView { config: ConfigView { json_output: true, ..c }, ..s },
                rest,
            )
            &&& scanned(s, seq!["--stats"@] + rest) == scanned(
                ScanView { config: ConfigView { stats: true, ..c }, ..s },
                rest,
            )
            &&& scanned(s, seq!["--once"@] + rest) == scanned(ScanView { once: true, ..s }, rest)
        }),
{
    reveal(applied);
    lemma_flags();
    lemma_alone(s, "--native"@, rest);
    lemma_alone(s, "--show-cursor"@, rest);
    lemma_alone(s, "--no-touch"@, rest);
    lemma_alone(s, "--json"@, rest);
    lemma_alone(s, "--stats"@, rest);
    lemma_alone(s, "--once"@, rest);
}

/// A run that is to end after so many seconds ends after just so many, and says how
/// it went.
pub proof fn seconds_reach_their_setting(s: ScanView, n: u64, rest: Seq<Seq<char>>)
    ensures
        scanned(s, seq!["--seconds"@, crate::number::decimal(n as nat)] + rest) == scanned(
            ScanView {
                seconds: Some(n),
                config: ConfigView { stats: true, ..s.config },
                ..s
            },
            rest,
        ),
{
    reveal(applied);
    lemma_flags();
    crate::number::decimal_round_trip(n as nat, u64::MAX as nat);
    lemma_with_value(s, "--seconds"@, crate::number::decimal(n as nat), rest);
}

proof fn lemma_no_device(n: nat)
    ensures
        split_setting(crate::number::decimal(n)) == (None::<Seq<char>>, crate::number::decimal(n)),
{
    let d = crate::number::decimal(n);
    crate::text::lemma_index_of(d, '=');
    if index_of(d, '=') < d.len() {
        crate::number::decimals_are_digits(n, index_of(d, '='));
    }
}

proof fn lemma_device(serial: Seq<char>, n: nat)
    requires
        serial.len() > 0,
        !serial.contains('='),
    ensures
        split_setting(serial + seq!['='] + crate::number::decimal(n)) == (
            Some(lowered(serial)),
            crate::number::decimal(n),
        ),
{
    let d = crate::number::decimal(n);
    let raw = serial + seq!['='] + d;
    assert forall|i: int| 0 <= i < serial.len() implies raw[i] != '=' by {
        assert(raw[i] == serial[i]);
        assert(serial.contains(serial[i]));
    }
    crate::text::lemma_index_of_unique(raw, '=', serial.len() as int);
    assert(raw.take(serial.len() as int) =~= serial);
    assert(raw.skip((serial.len() + 1) as int) =~= d);
}

/// A brightness is for all devices, or for the one that is named in front of it, in
/// any case of letters; more than full is full.
pub proof fn brightness_reaches_its_devices(
    s: ScanView,
    n: u32,
    serial: Seq<char>,
    rest: Seq<Seq<char>>,
)
    requires
        serial.len() > 0,
        !serial.contains('='),
    ensures
        ({
            let d = crate::number::decimal(n as nat);
            let percent = if n < 100 {
                n as u8
            } else {
                100
            };
            let all = ScanView {
                config: ConfigView { brightness: Some(percent), ..s.config },
                ..s
            };
            let one = ScanView {
                brightness_overrides: s.brightness_overrides.insert(lowered(serial), percent),
                ..s
            };
            &&& scanned(s, seq!["--brightness"@, d] + rest) == scanned(all, rest)
            &&& scanned(s, seq!["-b"@, d] + rest) == scanned(all, rest)
            &&& scanned(s, seq!["--brightness"@, serial + seq!['='] + d] + rest) == scanned(
                one,
                rest,
            )
            &&& scanned(s, seq!["-b"@, serial + seq!['='] + d] + rest) == scanned(one, rest)
        }),
{
    let d = crate::number::decimal(n as nat);
    crate::number::decimal_round_trip(n as nat, 0xffff_ffff);
    lemma_flags();
    lemma_no_device(n as nat);
    lemma_device(serial, n as nat);
    let named = serial + seq!['='] + d;
    lemma_setting_flags(s, Some(d));
    lemma_setting_flags(s, Some(named));
    lemma_with_value(s, "--brightness"@, d, rest);
    lemma_with_value(s, "-b"@, d, rest);
    lemma_with_value(s, "--brightness"@, named, rest);
    lemma_with_value(s, "-b"@, named, rest);
}

/// A rotation is for all devices, or for the one that is named in front of it; only
/// the four right angles will do, and any other number ends the run with the word as
/// it was given.
pub proof fn rotation_reaches_its_devices(
    s: ScanView,
    n: u16,
    serial: Seq<char>,
    rest: Seq<Seq<char>>,
)
    requires
        serial.len() > 0,
        !serial.contains('='),
    ensures
        ({
            let d = crate::number::decimal(n as nat);
            let named = serial + seq!['='] + d;
            &&& n == 0 || n == 90 || n == 180 || n == 270 ==> {
                &&& scanned(s, seq!["--rotation"@, d] + rest) == scanned(
                    ScanView { config: ConfigView { rotation: n, ..s.config }, ..s },
                    rest,
                )
                &&& scanned(s, seq!["--rotation"@, named] + rest) == scanned(
                    ScanView {
                        rotation_overrides: s.rotation_overrides.insert(lowered(serial), n),
                        ..s
                    },
                    rest,
                )
            }
            &&& n != 0 && n != 90 && n != 180 && n != 270 ==> {
                &&& scanned(s, seq!["--rotation"@, d] + rest) == (Step::BadRotation {
                    raw: d,
                    ignored: s.ignored,
                })
                &&& scanned(s, seq!["--rotation"@, named] + rest) == (Step::BadRotation {
                    raw: named,
                    ignored: s.ignored,
                })
            }
        }),
{
    let d = crate::number::decimal(n as nat);
    crate::number::decimal_round_trip(n as nat, 0xffff);
    lemma_flags();
    lemma_no_device(n as nat);
    lemma_device(serial, n as nat);
    let named = serial + seq!['='] + d;
    lemma_setting_flags(s, Some(d));
    lemma_setting_flags(s, Some(named));
    lemma_with_value(s, "--rotation"@, d, rest);
    lemma_with_value(s, "--rotation"@, named, rest);
}

/// A run has the settings that the scan ended with; a size counts only where both
/// sides of it were given.
pub proof fn scans_become_settings(words: Seq<Seq<char>>, s: ScanView)
    requires
        scanned(scan_start(), words) == Step::Go(s),
    ensures
        outcome_of(words) matches OutcomeView::Run(a) && {
            &&& a.config == (ConfigView { resolution: a.config.resolution, ..s.config })
            &&& a.config.resolution == match (s.width, s.height) {
                (Some(w), Some(h)) => Some((w, h)),
                _ => None::<(u32, u32)>,
            }
            &&& a.half_resolution <==> (s.width is Some && s.height is None) || (s.width is None
                && s.height is Some)
            &&& a.explicit_output_name == s.explicit_output_name && a.once == s.once && a.seconds
                == s.seconds
            &&& a.pointer_sensitivity == s.pointer_sensitivity && a.brightness_overrides
                == s.brightness_overrides && a.rotation_overrides == s.rotation_overrides
            &&& a.ignored_brightness == s.ignored
        },
{
}

/// A size that makes no sense counts as the usual one.
pub proof fn senseless_sizes_count_as_usual(s: ScanView, word: Seq<char>, rest: Seq<Seq<char>>)
    requires
        parsed(word, 10, 0xffff_ffff) is None,
    ensures
        scanned(s, seq!["--width"@, word] + rest) == scanned(
            ScanView { width: Some(1920), ..s },
            rest,
        ),
        scanned(s, seq!["--height"@, word] + rest) == scanned(
            ScanView { height: Some(1200), ..s },
            rest,
        ),
        scanned(s, seq!["--max-width"@, word] + rest) == scanned(
            ScanView { config: ConfigView { max_width: 1920, ..s.config }, ..s },
            rest,
        ),
{
    reveal(applied);
    lemma_flags();
    lemma_with_value(s, "--width"@, word, rest);
    lemma_with_value(s, "--height"@, word, rest);
    lemma_with_value(s, "--max-width"@, word, rest);
}

/// A rate or a bitrate that makes no sense counts as the usual one.
pub proof fn senseless_rates_count_as_usual(s: ScanView, word: Seq<char>, rest: Seq<Seq<char>>)
    requires
        parsed(word, 10, 0xffff_ffff) is None,
    ensures
        scanned(s, seq!["--fps"@, word] + rest) == scanned(
            ScanView { config: ConfigView { fps: 60, ..s.config }, ..s },
            rest,
        ),
        scanned(s, seq!["--bitrate"@, word] + rest) == scanned(
            ScanView { config: ConfigView { bitrate_kbps: 20_000, ..s.config }, ..s },
            rest,
        ),
{
    reveal(applied);
    lemma_flags();
    lemma_with_value(s, "--fps"@, word, rest);
    lemma_with_value(s, "--bitrate"@, word, rest);
}

/// A place that makes no sense leaves the one that stands, and a time that makes none
/// is no limit.
pub proof fn senseless_places_change_nothing(s: ScanView, word: Seq<char>, rest: Seq<Seq<char>>)
    requires
        parsed(word, 10, u64::MAX as nat) is None,
        parsed_signed(word, 0x7fff_ffff) is None,
    ensures
        scanned(s, seq!["--position"@, word] + rest) == scanned(s, rest),
        scanned(s, seq!["--position-y"@, word] + rest) == scanned(s, rest),
        scanned(s, seq!["--seconds"@, word] + rest) == scanned(
            ScanView { seconds: None, config: ConfigView { stats: true, ..s.config }, ..s },
            rest,
        ),
{
    reveal(applied);
    lemma_flags();
    lemma_with_value(s, "--position"@, word, rest);
    lemma_with_value(s, "--position-y"@, word, rest);
    lemma_with_value(s, "--seconds"@, word, rest);
}

/// A brightness that makes no sense changes nothing and is told of, as it was given.
pub proof fn senseless_brightness_is_told(s: ScanView, word: Seq<char>, rest: Seq<Seq<char>>)
    requires
        !word.contains('='),
        parsed(word, 10, 0xffff_ffff) is None,
    ensures
        scanned(s, seq!["--brightness"@, word] + rest) == scanned(
            ScanView { ignored: s.ignored.push(word), ..s },
            rest,
        ),
        scanned(s, seq!["-b"@, word] + rest) == scanned(
            ScanView { ignored: s.ignored.push(word), ..s },
            rest,
        ),
{
    lemma_flags();
    crate::text::lemma_index_of(word, '=');
    if index_of(word, '=') < word.len() {
        assert(word.contains(word[index_of(word, '=')]));
    }
    lemma_setting_flags(s, Some(word));
    lemma_with_value(s, "--brightness"@, word, rest);
    lemma_with_value(s, "-b"@, word, rest);
}

} // verus!
