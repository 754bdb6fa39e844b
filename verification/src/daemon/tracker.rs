//! Device hotplug detection over the ADB server protocol.
//!
//! `host:track-devices` streams a fresh device list every time one changes,
//! which is why no udev rule is needed. Requests and replies carry a length of
//! four hexadecimal digits in front.

use vstd::prelude::*;
use vstd::utf8::{
    decode_utf8, encode_utf8, encode_utf8_decode_utf8, encode_utf8_valid_utf8,
    is_ascii_chars_encode_utf8, valid_utf8,
};

use crate::number::{
    hex_padded, hex_round_trip, lemma_four_digits, parse_unsigned, parsed, push_hex,
};
use crate::text::{
    chars_of, lemma_map_push, lines, lines_of, lossy, lossy_text, same_str, split_whitespace,
    string_of, texts, words,
};

verus! {

pub const ADB_SERVER: &'static str = "127.0.0.1:5037";

pub const TRACK_REQUEST: &'static str = "host:track-devices";

#[derive(Debug, Clone, PartialEq, Eq)]
pub struct Device {
    pub serial: String,
    pub state: String,
}

/// A device as its texts.
pub ghost struct DeviceView {
    pub serial: Seq<char>,
    pub state: Seq<char>,
}

impl View for Device {
    type V = DeviceView;

    open spec fn view(&self) -> DeviceView {
        DeviceView { serial: self.serial@, state: self.state@ }
    }
}

impl DeviceView {
    /// Whether the device accepts requests.
    pub open spec fn ready(self) -> bool {
        self.state == "device"@
    }
}

/// The devices of a list, as texts.
pub open spec fn device_views(v: Seq<Device>) -> Seq<DeviceView> {
    v.map_values(|d: Device| d@)
}

impl Device {
    /// Only the `device` state can be forwarded to; `unauthorized` and `offline`
    /// look connected but reject every request.
    pub fn is_ready(&self) -> (r: bool)
        ensures
            r == self@.ready(),
    {
        same_str(self.state.as_str(), "device")
    }

    /// The same device again.
    pub fn copy(&self) -> (r: Device)
        ensures
            r@ == self@,
    {
        Device { serial: self.serial.clone(), state: self.state.clone() }
    }
}

/// The devices on the given lines: a serial and a state each. Lines with fewer
/// than two words are passed over.
pub open spec fn devices_on(lines: Seq<Seq<char>>) -> Seq<DeviceView>
    decreases lines.len(),
{
    if lines.len() == 0 {
        Seq::empty()
    } else {
        let earlier = devices_on(lines.drop_last());
        let fields = words(lines.last());
        if fields.len() >= 2 {
            earlier.push(DeviceView { serial: fields[0], state: fields[1] })
        } else {
            earlier
        }
    }
}

/// The devices in a list sent by the ADB server.
pub fn parse_devices(payload: &str) -> (r: Vec<Device>)
    ensures
        device_views(r@) == devices_on(lines_of(payload@)),
{
    broadcast use lemma_map_push;

    let cs = chars_of(payload);
    let all = lines(cs.as_slice());
    let mut out: Vec<Device> = Vec::new();
    let mut i: usize = 0;
    while i < all.len()
        invariant
            i <= all@.len(),
            device_views(out@) == devices_on(texts(all@).take(i as int)),
        decreases all@.len() - i,
    {
        let fields = split_whitespace(all[i].as_slice());
        proof {
            assert(texts(all@).take(i + 1).drop_last() =~= texts(all@).take(i as int));
            assert(texts(fields@).len() == fields@.len());
        }
        if fields.len() >= 2 {
            let device = Device {
                serial: string_of(fields[0].as_slice()),
                state: string_of(fields[1].as_slice()),
            };
            out.push(device);
        }
        i += 1;
    }
    assert(texts(all@).take(i as int) =~= texts(all@));
    out
}

/// A request as it goes to the ADB server: the length of the request in bytes,
/// then the request.
pub fn request_text(request: &str) -> (r: String)
    ensures
        r@ == hex_padded(encode_utf8(request@).len(), 4) + request@,
{
    let mut out = String::new();
    push_hex(&mut out, request.as_bytes().len() as u64, 4);
    out.append(request);
    assert(out@ =~= hex_padded(encode_utf8(request@).len(), 4) + request@);
    out
}

/// The ADB server's answer to a request.
#[derive(Debug, Clone, PartialEq, Eq)]
pub enum AdbStatus {
    Okay,
    Fail,
    Other(String),
}

/// The four bytes of the answer that a request is accepted with.
pub open spec fn okay_bytes() -> Seq<u8> {
    seq![0x4fu8, 0x4b, 0x41, 0x59]
}

/// The four bytes of the answer that a request is refused with.
pub open spec fn fail_bytes() -> Seq<u8> {
    seq![0x46u8, 0x41, 0x49, 0x4c]
}

/// Understand the first four bytes of an answer.
pub fn parse_status(status: [u8; 4]) -> (r: AdbStatus)
    ensures
        r is Okay <==> status@ == okay_bytes(),
        r is Fail <==> status@ == fail_bytes(),
        r matches AdbStatus::Other(text) ==> text@ == lossy_text(status@),
{
    if status[0] == 0x4f && status[1] == 0x4b && status[2] == 0x41 && status[3] == 0x59 {
        assert(status@ =~= okay_bytes());
        assert(status@[0] != fail_bytes()[0]);
        AdbStatus::Okay
    } else if status[0] == 0x46 && status[1] == 0x41 && status[2] == 0x49 && status[3] == 0x4c {
        assert(status@ =~= fail_bytes());
        assert(status@[0] != okay_bytes()[0]);
        AdbStatus::Fail
    } else {
        proof {
            let s = status@;
            assert(s == okay_bytes() ==> s[0] == okay_bytes()[0] && s[1] == okay_bytes()[1] && s[2]
                == okay_bytes()[2] && s[3] == okay_bytes()[3]);
            assert(s == fail_bytes() ==> s[0] == fail_bytes()[0] && s[1] == fail_bytes()[1] && s[2]
                == fail_bytes()[2] && s[3] == fail_bytes()[3]);
        }
        AdbStatus::Other(lossy(status.as_slice()))
    }
}

/// Why a request to the ADB server was not accepted.
#[derive(Debug, Clone, PartialEq, Eq)]
pub enum RequestError {
    /// The server said no, for the given reason.
    Rejected(String),
    /// The server gave no known answer.
    UnexpectedStatus(String),
}

/// What becomes of a request: `reason` is the text that follows a refusal, when
/// it could be read.
pub fn request_outcome(status: [u8; 4], reason: Option<String>) -> (r: Result<(), RequestError>)
    ensures
        r is Ok <==> status@ == okay_bytes(),
        status@ == fail_bytes() ==> (r matches Err(RequestError::Rejected(text)) && text@
            == match reason {
            Some(t) => t@,
            None => Seq::empty(),
        }),
        status@ != okay_bytes() && status@ != fail_bytes() ==> (r matches Err(
            RequestError::UnexpectedStatus(text),
        ) && text@ == lossy_text(status@)),
{
    match parse_status(status) {
        AdbStatus::Okay => Ok(()),
        AdbStatus::Fail => Err(
            RequestError::Rejected(
                match reason {
                    Some(text) => text,
                    None => String::new(),
                },
            ),
        ),
        AdbStatus::Other(text) => Err(RequestError::UnexpectedStatus(text)),
    }
}

/// Why a length could not be read.
#[derive(Debug, Clone, Copy, PartialEq, Eq, Structural)]
pub enum LengthError {
    NotUtf8,
    NotHex,
}

/// The length that four bytes announce.
pub open spec fn length_of(len_hex: Seq<u8>) -> Result<usize, LengthError> {
    if !valid_utf8(len_hex) {
        Err(LengthError::NotUtf8)
    } else {
        match parsed(decode_utf8(len_hex), 16, usize::MAX as nat) {
            Some(n) => Ok(n as usize),
            None => Err(LengthError::NotHex),
        }
    }
}

/// The length that stands in front of a payload.
pub fn parse_length(len_hex: [u8; 4]) -> (r: Result<usize, LengthError>)
    ensures
        r == length_of(len_hex@),
{
    match std::str::from_utf8(len_hex.as_slice()) {
        Ok(text) => {
            let cs = chars_of(text);
            match parse_unsigned(cs.as_slice(), 16, usize::MAX as u64) {
                Some(n) => Ok(n as usize),
                None => Err(LengthError::NotHex),
            }
        },
        Err(_) => Err(LengthError::NotUtf8),
    }
}

/// The text of a payload.
pub fn payload_text(payload: &[u8]) -> (r: String)
    ensures
        r@ == lossy_text(payload@),
        valid_utf8(payload@) ==> r@ == decode_utf8(payload@),
{
    lossy(payload)
}

/// The devices in a payload that the ADB server sent.
pub fn next_update(payload: &[u8]) -> (r: Vec<Device>)
    ensures
        device_views(r@) == devices_on(lines_of(lossy_text(payload@))),
{
    let text = payload_text(payload);
    parse_devices(text.as_str())
}

// -------------------------------------------------------------------- laws ---

/// The length that a request announces is the length that is read back, as long
/// as four digits can hold it.
pub proof fn announced_length_round_trip(n: nat)
    requires
        n <= 0xffff,
    ensures
        length_of(encode_utf8(hex_padded(n, 4))) == Ok::<usize, LengthError>(n as usize),
        encode_utf8(hex_padded(n, 4)).len() == 4,
{
    let text = hex_padded(n, 4);
    encode_utf8_valid_utf8(text);
    encode_utf8_decode_utf8(text);
    hex_round_trip(n, 4, usize::MAX as nat);
    lemma_four_digits(n);
    is_ascii_chars_encode_utf8(text);
}

proof fn lemma_devices_joined(a: Seq<Seq<char>>, b: Seq<Seq<char>>)
    ensures
        devices_on(a + b) == devices_on(a) + devices_on(b),
    decreases b.len(),
{
    if b.len() == 0 {
        assert(a + b =~= a);
        assert(devices_on(a) + devices_on(b) =~= devices_on(a));
    } else {
        assert((a + b).drop_last() =~= a + b.drop_last());
        assert((a + b).last() == b.last());
        lemma_devices_joined(a, b.drop_last());
        assert(devices_on(a + b) =~= devices_on(a) + devices_on(b));
    }
}

/// Each line of the list that names a serial and a state is one device with these,
/// in the order of the lines.
pub proof fn listed_devices_are_read(serial: Seq<char>, state: Seq<char>, rest: Seq<char>)
    requires
        crate::text::is_word(serial),
        crate::text::is_word(state),
    ensures
        devices_on(lines_of(Seq::<char>::empty())) == Seq::<DeviceView>::empty(),
        devices_on(lines_of(serial + seq!['\t'] + state + seq!['\n'] + rest)) == seq![
            DeviceView { serial, state },
        ] + devices_on(lines_of(rest)),
{
    let line = serial + seq!['\t'] + state;
    assert(!line.contains('\n')) by {
        assert forall|i: int| 0 <= i < line.len() implies line[i] != '\n' by {
            if i < serial.len() {
                assert(line[i] == serial[i]);
                assert(!crate::text::is_space(serial[i]));
            } else if i > serial.len() {
                assert(line[i] == state[i - serial.len() - 1]);
                assert(!crate::text::is_space(state[i - serial.len() - 1]));
            }
        }
    }
    assert(line.last() == state.last());
    assert(!crate::text::is_space(state[state.len() - 1]));
    crate::text::line_feeds_end_lines(line, rest);
    assert(serial + seq!['\t'] + state + seq!['\n'] + rest =~= line + seq!['\n'] + rest);
    crate::text::blanks_separate_words(serial, '\t', state);
    crate::text::blanks_separate_words(state, '\t', Seq::empty());
    assert(words(line) =~= seq![serial, state]);
    let one = seq![line];
    reveal_with_fuel(devices_on, 2);
    assert(one.last() == line);
    assert(one.drop_last() =~= Seq::<Seq<char>>::empty());
    assert(devices_on(one) =~= seq![DeviceView { serial, state }]);
    lemma_devices_joined(one, lines_of(rest));
}

/// A line with a single word, or with none, names no device.
pub proof fn short_lines_name_no_device(word: Seq<char>, rest: Seq<char>)
    requires
        crate::text::is_word(word),
    ensures
        devices_on(lines_of(word + seq!['\n'] + rest)) == devices_on(lines_of(rest)),
        devices_on(lines_of(seq!['\n'] + rest)) == devices_on(lines_of(rest)),
{
    assert(!word.contains('\n')) by {
        assert forall|i: int| 0 <= i < word.len() implies word[i] != '\n' by {
            assert(!crate::text::is_space(word[i]));
        }
    }
    assert(!crate::text::is_space(word[word.len() - 1]));
    crate::text::line_feeds_end_lines(word, rest);
    crate::text::blanks_separate_words(word, '\t', Seq::empty());
    let empty = Seq::<char>::empty();
    crate::text::line_feeds_end_lines(empty, rest);
    assert(empty + seq!['\n'] + rest =~= seq!['\n'] + rest);
    let one = seq![word];
    let none = seq![empty];
    reveal_with_fuel(devices_on, 2);
    assert(one.last() == word && none.last() == empty);
    assert(one.drop_last() =~= Seq::<Seq<char>>::empty());
    assert(none.drop_last() =~= Seq::<Seq<char>>::empty());
    assert(devices_on(one) =~= Seq::<DeviceView>::empty());
    assert(devices_on(none) =~= Seq::<DeviceView>::empty());
    lemma_devices_joined(one, lines_of(rest));
    lemma_devices_joined(none, lines_of(rest));
    assert(Seq::<DeviceView>::empty() + devices_on(lines_of(rest)) =~= devices_on(lines_of(rest)));
}

} // verus!
