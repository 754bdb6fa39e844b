//! What the measuring programs decide.

use vstd::prelude::*;

use crate::capture::session::{BufferMode, CaptureConfig};
use crate::capture::FALLBACK_MODIFIERS;
use crate::number::{parse_unsigned, parsed};
use crate::text::{chars_of, same_str, strings, text_of, trim, trimmed};

verus! {

// ----------------------------------------------------------------- capture ---

/// What the capture probe is asked for.
#[derive(Debug)]
pub struct ProbeArgs {
    pub output: Option<String>,
    pub mode: BufferMode,
    pub frames: usize,
    pub png: Option<String>,
    /// Leave the choice of a modifier to the allocator.
    pub any_modifier: bool,
}

pub ghost struct ProbeArgsView {
    pub output: Option<Seq<char>>,
    pub mode: BufferMode,
    pub frames: usize,
    pub png: Option<Seq<char>>,
    pub any_modifier: bool,
}

impl View for ProbeArgs {
    type V = ProbeArgsView;

    open spec fn view(&self) -> ProbeArgsView {
        ProbeArgsView {
            output: text_of(self.output),
            mode: self.mode,
            frames: self.frames,
            png: text_of(self.png),
            any_modifier: self.any_modifier,
        }
    }
}

/// When nothing is asked for.
pub open spec fn probe_defaults() -> ProbeArgsView {
    ProbeArgsView {
        output: None,
        mode: BufferMode::Dmabuf,
        frames: 120,
        png: None,
        any_modifier: false,
    }
}

/// The word after the first, if there is one.
pub open spec fn following(words: Seq<Seq<char>>) -> Option<Seq<char>> {
    if words.len() > 1 {
        Some(words[1])
    } else {
        None
    }
}

/// Whether the word after this one belongs to it.
pub open spec fn takes_next(word: Seq<char>) -> bool {
    word == "--frames"@ || word == "--png"@
}

/// What one word, with the one after it where it takes one, changes.
pub open spec fn probe_word(
    a: ProbeArgsView,
    word: Seq<char>,
    value: Option<Seq<char>>,
) -> ProbeArgsView {
    if word == "--dmabuf"@ {
        ProbeArgsView { mode: BufferMode::Dmabuf, ..a }
    } else if word == "--shm"@ {
        ProbeArgsView { mode: BufferMode::Shm, ..a }
    } else if word == "--any-modifier"@ {
        ProbeArgsView { any_modifier: true, ..a }
    } else if word == "--frames"@ {
        ProbeArgsView {
            frames: match value {
                Some(v) => match parsed(v, 10, usize::MAX as nat) {
                    Some(n) => n as usize,
                    None => 120,
                },
                None => 120,
            },
            ..a
        }
    } else if word == "--png"@ {
        ProbeArgsView { png: value, ..a }
    } else {
        ProbeArgsView { output: Some(word), ..a }
    }
}

/// What all the words come to.
pub open spec fn probe_words(a: ProbeArgsView, words: Seq<Seq<char>>) -> ProbeArgsView
    decreases words.len(),
{
    if words.len() == 0 {
        a
    } else {
        let rest = if takes_next(words[0]) && words.len() > 1 {
            words.skip(2)
        } else {
            words.skip(1)
        };
        probe_words(probe_word(a, words[0], following(words)), rest)
    }
}

/// Read the command line of the capture probe, without the name of the program.
pub fn parse_args(args: &Vec<String>) -> (r: ProbeArgs)
    ensures
        r@ == probe_words(probe_defaults(), strings(args@)),
{
    let mut out = ProbeArgs {
        output: None,
        mode: BufferMode::Dmabuf,
        frames: 120,
        png: None,
        any_modifier: false,
    };
    let ghost words = strings(args@);
    let mut at: usize = 0;
    assert(words.skip(0) =~= words);
    while at < args.len()
        invariant
            at <= args@.len(),
            words == strings(args@),
            probe_words(probe_defaults(), words) == probe_words(out@, words.skip(at as int)),
        decreases args@.len() - at,
    {
        let word = args[at].as_str();
        let ghost rest = words.skip(at as int);
        let ghost before = out@;
        assert(rest[0] == word@);
        assert(rest.len() > 1 ==> rest[1] == args@[at + 1]@);
        let takes = same_str(word, "--frames") || same_str(word, "--png");
        let value: Option<String> = if takes && at + 1 < args.len() {
            Some(args[at + 1].clone())
        } else {
            None
        };
        assert(takes ==> text_of(value) == following(rest));
        let next: usize = if value.is_some() {
            at + 2
        } else {
            at + 1
        };
        if same_str(word, "--dmabuf") {
            out.mode = BufferMode::Dmabuf;
        } else if same_str(word, "--shm") {
            out.mode = BufferMode::Shm;
        } else if same_str(word, "--any-modifier") {
            out.any_modifier = true;
        } else if same_str(word, "--frames") {
            out.frames = match value {
                Some(v) => {
                    let cs = chars_of(v.as_str());
                    match parse_unsigned(cs.as_slice(), 10, usize::MAX as u64) {
                        Some(n) => n as usize,
                        None => 120,
                    }
                },
                None => 120,
            };
        } else if same_str(word, "--png") {
            out.png = value;
        } else {
            out.output = Some(String::from_str(word));
        }
        assert(out@ == probe_word(before, rest[0], following(rest)));
        proof {
            if takes_next(rest[0]) && rest.len() > 1 {
                assert(rest.skip(2) =~= words.skip(next as int));
            } else {
                assert(rest.skip(1) =~= words.skip(next as int));
            }
        }
        at = next;
    }
    assert(words.skip(at as int).len() == 0);
    out
}

/// How the capture probe captures.
pub fn capture_config(args: &ProbeArgs) -> (r: CaptureConfig)
    ensures
        r.mode == args.mode,
        r.pool_size == 2,
        r.allowed_modifiers@ == (if args.any_modifier {
            Seq::empty()
        } else {
            FALLBACK_MODIFIERS@
        }),
        !r.paint_cursor,
{
    let mut allowed_modifiers: Vec<u64> = Vec::new();
    if !args.any_modifier {
        allowed_modifiers.push(FALLBACK_MODIFIERS[0]);
    }
    assert(allowed_modifiers@ =~= (if args.any_modifier {
        Seq::empty()
    } else {
        FALLBACK_MODIFIERS@
    }));
    CaptureConfig { mode: args.mode, pool_size: 2, allowed_modifiers, paint_cursor: false }
}

// --------------------------------------------------------------- transport ---

/// Frame sizes like those of the encoder at 1920x1200 and 60 frames a second:
/// mostly about 32 KB, now and then a large keyframe.
pub fn synthetic_frame_size(index: usize) -> (r: usize)
    ensures
        r == (if index % 600 == 0 {
            108_943int
        } else if index % 7 == 0 {
            45_000
        } else {
            32_357
        }),
{
    if index % 600 == 0 {
        108_943
    } else if index % 7 == 0 {
        45_000
    } else {
        32_357
    }
}

/// How many bytes landed on the tablet, from what it says of the file; none
/// where that makes no sense.
pub fn received_bytes(reply: &str) -> (r: u64)
    ensures
        r == (match parsed(trimmed(reply@), 10, u64::MAX as nat) {
            Some(n) => n,
            None => 0,
        }),
{
    let cs = chars_of(reply);
    match parse_unsigned(trim(cs.as_slice()), 10, u64::MAX) {
        Some(n) => n,
        None => 0,
    }
}

/// Whether nothing more arrives: as much as at the last look, and not nothing.
pub fn has_drained(before: u64, now: u64) -> (r: bool)
    ensures
        r == (now == before && now > 0),
{
    now == before && now > 0
}

/// How often to look at the tablet, at most.
pub const LOOKS: u32 = 40;

/// Whether to look at the tablet again, after some looks.
pub fn looks_again(looks: u32, drained: bool) -> (r: bool)
    ensures
        r == (looks < LOOKS && !drained),
{
    looks < LOOKS && !drained
}

/// How many milliseconds to wait for a packet: longer once all frames are in,
/// so that whatever is still in flight comes out.
pub fn pull_wait_ms(done: bool) -> (r: u64)
    ensures
        r == (if done {
            200u64
        } else {
            100u64
        }),
{
    if done {
        200
    } else {
        100
    }
}

/// Whether no more packets are to be expected: all frames are in, and waiting
/// brought none.
pub fn drain_ends(done: bool, came: bool) -> (r: bool)
    ensures
        r == (done && !came),
{
    done && !came
}

/// How many bytes went missing.
pub fn missing_bytes(sent: u64, received: u64) -> (r: u64)
    ensures
        r == (if sent >= received {
            sent - received
        } else {
            0
        }),
{
    sent.saturating_sub(received)
}

// -------------------------------------------------------------------- laws ---

/// Each word of the capture probe's command line sets what it is for, and nothing
/// else; a word that is no option is the output.
pub proof fn probe_words_set_what_they_are_for(a: ProbeArgsView, word: Seq<char>, n: usize)
    ensures
        probe_word(a, "--shm"@, None) == (ProbeArgsView { mode: BufferMode::Shm, ..a }),
        probe_word(a, "--dmabuf"@, None) == (ProbeArgsView { mode: BufferMode::Dmabuf, ..a }),
        probe_word(a, "--any-modifier"@, None) == (ProbeArgsView { any_modifier: true, ..a }),
        probe_word(a, "--frames"@, Some(crate::number::decimal(n as nat))) == (ProbeArgsView {
            frames: n,
            ..a
        }),
        probe_word(a, "--png"@, Some(word)) == (ProbeArgsView { png: Some(word), ..a }),
        word != "--shm"@ && word != "--dmabuf"@ && word != "--any-modifier"@ && word != "--frames"@
            && word != "--png"@ ==> probe_word(a, word, None) == (ProbeArgsView {
            output: Some(word),
            ..a
        }),
{
    reveal_strlit("--shm");
    reveal_strlit("--dmabuf");
    reveal_strlit("--any-modifier");
    reveal_strlit("--frames");
    reveal_strlit("--png");
    assert("--shm"@.len() == 5 && "--png"@.len() == 5 && "--shm"@[2] != "--png"@[2]);
    assert("--dmabuf"@.len() == 8 && "--frames"@.len() == 8 && "--dmabuf"@[2] != "--frames"@[2]);
    assert("--any-modifier"@.len() == 14);
    crate::number::decimal_round_trip(n as nat, usize::MAX as nat);
}

} // verus!
