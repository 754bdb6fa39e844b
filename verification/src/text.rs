//! Text handling on sequences of characters.
//!
//! The daemon reads a good deal of free-form text: `adb` listings, `wm size`
//! replies, compositor dumps, command lines. The functions here take that text
//! apart as slices of `char`, with the same rules as the methods of `str` that
//! carry the corresponding names.

use vstd::prelude::*;
use vstd::slice::slice_subrange;
use vstd::utf8::{decode_utf8, valid_utf8};

verus! {

/// `String::push` appends one character.
pub assume_specification[ String::push ](s: &mut String, ch: char)
    ensures
        final(s)@ == old(s)@.push(ch),
;

/// The texts held by a sequence of character vectors.
pub open spec fn texts(v: Seq<Vec<char>>) -> Seq<Seq<char>> {
    v.map_values(|t: Vec<char>| t@)
}

/// The texts held by a sequence of strings.
pub open spec fn strings(v: Seq<String>) -> Seq<Seq<char>> {
    v.map_values(|t: String| t@)
}

/// Mapping after a push is pushing after mapping.
pub broadcast proof fn lemma_map_push<A, B>(s: Seq<A>, a: A, f: spec_fn(A) -> B)
    ensures
        #[trigger] s.push(a).map_values(f) == s.map_values(f).push(f(a)),
{
    assert(s.push(a).map_values(f) =~= s.map_values(f).push(f(a)));
}

/// The text of an optional string.
pub open spec fn text_of(s: Option<String>) -> Option<Seq<char>> {
    match s {
        Some(t) => Some(t@),
        None => None,
    }
}

// ---------------------------------------------------------- conversions ---

/// The characters of a string.
pub fn chars_of(s: &str) -> (r: Vec<char>)
    ensures
        r@ == s@,
{
    let mut out: Vec<char> = Vec::new();
    for c in it: s.chars()
        invariant
            it.seq() == s@,
            out@ == s@.take(it.index() as int),
    {
        out.push(c);
        assert(out@ =~= s@.take(it.index() + 1));
    }
    assert(s@.take(s@.len() as int) =~= s@);
    out
}

/// A string made of the given characters.
pub fn string_of(cs: &[char]) -> (r: String)
    ensures
        r@ == cs@,
{
    let mut out = String::new();
    let mut i: usize = 0;
    while i < cs.len()
        invariant
            i <= cs@.len(),
            out@ == cs@.take(i as int),
        decreases cs@.len() - i,
    {
        out.push(cs[i]);
        i += 1;
        assert(out@ =~= cs@.take(i as int));
    }
    assert(cs@.take(cs@.len() as int) =~= cs@);
    out
}

/// A copy of a slice of characters.
pub fn copy_of(cs: &[char]) -> (r: Vec<char>)
    ensures
        r@ == cs@,
{
    let mut out: Vec<char> = Vec::new();
    let mut i: usize = 0;
    while i < cs.len()
        invariant
            i <= cs@.len(),
            out@ == cs@.take(i as int),
        decreases cs@.len() - i,
    {
        out.push(cs[i]);
        i += 1;
        assert(out@ =~= cs@.take(i as int));
    }
    assert(cs@.take(cs@.len() as int) =~= cs@);
    out
}

/// Whether two character slices hold the same text.
pub fn same(a: &[char], b: &[char]) -> (r: bool)
    ensures
        r == (a@ == b@),
{
    if a.len() != b.len() {
        return false;
    }
    let mut i: usize = 0;
    while i < a.len()
        invariant
            i <= a@.len() == b@.len(),
            a@.take(i as int) == b@.take(i as int),
        decreases a@.len() - i,
    {
        if a[i] != b[i] {
            assert(a@[i as int] != b@[i as int]);
            return false;
        }
        assert(a@.take(i + 1) =~= a@.take(i as int).push(a@[i as int]));
        assert(b@.take(i + 1) =~= b@.take(i as int).push(b@[i as int]));
        i += 1;
    }
    assert(a@.take(a@.len() as int) =~= a@);
    assert(b@.take(b@.len() as int) =~= b@);
    true
}

/// Whether a character slice holds exactly the text of `s`.
pub fn is_text(cs: &[char], s: &str) -> (r: bool)
    ensures
        r == (cs@ == s@),
{
    let other = chars_of(s);
    same(cs, other.as_slice())
}

/// Whether two strings hold the same text.
pub fn same_str(a: &str, b: &str) -> (r: bool)
    ensures
        r == (a@ == b@),
{
    let left = chars_of(a);
    is_text(left.as_slice(), b)
}

// ------------------------------------------------------------- ASCII case ---

/// An ASCII capital in lower case; any other character unchanged.
pub open spec fn lower(c: char) -> char {
    if 'A' <= c && c <= 'Z' {
        ((c as u32 + 32) as u8) as char
    } else {
        c
    }
}

/// A text with its ASCII capitals in lower case.
pub open spec fn lowered(s: Seq<char>) -> Seq<char> {
    s.map_values(|c: char| lower(c))
}

fn lower_char(c: char) -> (r: char)
    ensures
        r == lower(c),
{
    if 'A' <= c && c <= 'Z' {
        (c as u8 + 32) as char
    } else {
        c
    }
}

/// A text with its ASCII capitals in lower case.
pub fn to_lower(cs: &[char]) -> (r: Vec<char>)
    ensures
        r@ == lowered(cs@),
{
    broadcast use lemma_map_push;

    let mut out: Vec<char> = Vec::new();
    let mut i: usize = 0;
    assert(lowered(cs@.take(0)) =~= Seq::<char>::empty());
    while i < cs.len()
        invariant
            i <= cs@.len(),
            out@ == lowered(cs@.take(i as int)),
        decreases cs@.len() - i,
    {
        out.push(lower_char(cs[i]));
        assert(cs@.take(i + 1) =~= cs@.take(i as int).push(cs@[i as int]));
        assert(out@ =~= lowered(cs@.take(i + 1)));
        i += 1;
    }
    assert(cs@.take(i as int) =~= cs@);
    out
}

// ----------------------------------------------------------------- bytes ---

/// What `String::from_utf8_lossy` makes of a byte string.
pub uninterp spec fn lossy_text(bytes: Seq<u8>) -> Seq<char>;

/// `String::from_utf8_lossy`: bytes read as UTF-8, with a replacement character
/// where they are not. Bytes that are UTF-8 throughout are decoded unchanged;
/// how many replacement characters stand for a malformed run is left unsaid.
#[verifier::external_body]
pub(crate) fn lossy(bytes: &[u8]) -> (r: String)
    ensures
        r@ == lossy_text(bytes@),
        valid_utf8(bytes@) ==> r@ == decode_utf8(bytes@),
{
    String::from_utf8_lossy(bytes).into_owned()
}

/// The error of `std::str::from_utf8`.
#[verifier::external_type_specification]
#[verifier::external_body]
pub struct ExUtf8Error(std::str::Utf8Error);

/// `std::str::from_utf8` accepts exactly the byte strings that are UTF-8, and
/// decodes them.
pub assume_specification[ std::str::from_utf8 ](v: &[u8]) -> (r: Result<&str, std::str::Utf8Error>)
    ensures
        r is Ok <==> valid_utf8(v@),
        r matches Ok(s) ==> s@ == decode_utf8(v@),
;

/// A string of `a` followed by `b`.
pub fn joined(a: &str, b: &str) -> (r: String)
    ensures
        r@ == a@ + b@,
{
    let mut out = String::from_str(a);
    out.append(b);
    out
}

/// The texts in order, with `sep` between neighbours.
pub open spec fn join_of(parts: Seq<Seq<char>>, sep: Seq<char>) -> Seq<char>
    decreases parts.len(),
{
    if parts.len() == 0 {
        Seq::empty()
    } else if parts.len() == 1 {
        parts[0]
    } else {
        join_of(parts.drop_last(), sep) + sep + parts.last()
    }
}

/// The texts in order, with `sep` between neighbours.
pub fn join(parts: &Vec<String>, sep: &str) -> (r: String)
    ensures
        r@ == join_of(strings(parts@), sep@),
{
    let mut out = String::new();
    let mut i: usize = 0;
    while i < parts.len()
        invariant
            i <= parts@.len(),
            out@ == join_of(strings(parts@).take(i as int), sep@),
        decreases parts@.len() - i,
    {
        if i > 0 {
            out.append(sep);
        }
        out.append(parts[i].as_str());
        proof {
            let upto = strings(parts@).take(i + 1);
            assert(upto.drop_last() =~= strings(parts@).take(i as int));
            assert(upto.last() == parts@[i as int]@);
            assert(out@ =~= join_of(upto, sep@));
        }
        i += 1;
    }
    assert(strings(parts@).take(i as int) =~= strings(parts@));
    out
}

// ------------------------------------------------------------- searching ---

/// The position of the first `c`, or the length when there is none.
pub open spec fn index_of(s: Seq<char>, c: char) -> int
    decreases s.len(),
{
    if s.len() == 0 {
        0
    } else if s[0] == c {
        0
    } else {
        1 + index_of(s.skip(1), c)
    }
}

pub proof fn lemma_index_of(s: Seq<char>, c: char)
    ensures
        0 <= index_of(s, c) <= s.len(),
        index_of(s, c) < s.len() ==> s[index_of(s, c)] == c,
        forall|i: int| 0 <= i < index_of(s, c) ==> s[i] != c,
    decreases s.len(),
{
    if s.len() > 0 && s[0] != c {
        let t = s.skip(1);
        lemma_index_of(t, c);
        assert forall|i: int| 0 <= i < index_of(s, c) implies s[i] != c by {
            if i > 0 {
                assert(t[i - 1] == s[i]);
            }
        }
    }
}

/// The position with no `c` before it is the first one.
pub proof fn lemma_index_of_unique(s: Seq<char>, c: char, at: int)
    requires
        0 <= at <= s.len(),
        forall|i: int| 0 <= i < at ==> s[i] != c,
        at < s.len() ==> s[at] == c,
    ensures
        index_of(s, c) == at,
{
    lemma_index_of(s, c);
}

/// The position of the first `c`, or the length when there is none.
pub fn find_char(cs: &[char], c: char) -> (r: usize)
    ensures
        r == index_of(cs@, c),
        r <= cs@.len(),
{
    let mut i: usize = 0;
    while i < cs.len() && cs[i] != c
        invariant
            i <= cs@.len(),
            forall|j: int| 0 <= j < i ==> cs@[j] != c,
        decreases cs@.len() - i,
    {
        i += 1;
    }
    proof {
        lemma_index_of_unique(cs@, c, i as int);
    }
    i
}

/// Whether `s` begins with `p`.
pub open spec fn begins_with(s: Seq<char>, p: Seq<char>) -> bool {
    p.len() <= s.len() && s.take(p.len() as int) == p
}

/// Whether `cs` begins with `p`.
pub fn starts_with(cs: &[char], p: &[char]) -> (r: bool)
    ensures
        r == begins_with(cs@, p@),
{
    if p.len() > cs.len() {
        false
    } else {
        same(slice_subrange(cs, 0, p.len()), p)
    }
}

/// Whether `p` occurs in `s`.
pub open spec fn occurs_in(s: Seq<char>, p: Seq<char>) -> bool {
    exists|i: int| 0 <= i <= s.len() - p.len() && #[trigger] s.subrange(i, i + p.len()) == p
}

/// Whether `p` occurs in `cs`.
pub fn contains(cs: &[char], p: &[char]) -> (r: bool)
    ensures
        r == occurs_in(cs@, p@),
{
    if p.len() > cs.len() {
        return false;
    }
    let total: usize = cs.len();
    let last: usize = total - p.len();
    let mut i: usize = 0;
    loop
        invariant
            total == cs@.len(),
            last == cs@.len() - p@.len(),
            i <= last,
            forall|j: int| 0 <= j < i ==> #[trigger] cs@.subrange(j, j + p@.len()) != p@,
        decreases last - i,
    {
        if same(slice_subrange(cs, i, i + p.len()), p) {
            return true;
        }
        if i == last {
            return false;
        }
        i += 1;
    }
}

/// `s` without any number of leading copies of `p`.
pub open spec fn without_prefixes(s: Seq<char>, p: Seq<char>) -> Seq<char>
    decreases s.len(),
{
    if p.len() > 0 && begins_with(s, p) {
        without_prefixes(s.skip(p.len() as int), p)
    } else {
        s
    }
}

/// `cs` without any number of leading copies of `p`.
pub fn trim_start_matches<'a>(cs: &'a [char], p: &[char]) -> (r: &'a [char])
    ensures
        r@ == without_prefixes(cs@, p@),
{
    let mut at: usize = 0;
    assert(cs@.skip(0) =~= cs@);
    while p.len() > 0 && starts_with(slice_subrange(cs, at, cs.len()), p)
        invariant
            at <= cs@.len(),
            without_prefixes(cs@, p@) == without_prefixes(cs@.skip(at as int), p@),
        decreases cs@.len() - at,
    {
        assert(cs@.subrange(at as int, cs@.len() as int) =~= cs@.skip(at as int));
        assert(cs@.skip(at as int).skip(p@.len() as int) =~= cs@.skip(at + p@.len()));
        at += p.len();
    }
    assert(cs@.subrange(at as int, cs@.len() as int) =~= cs@.skip(at as int));
    slice_subrange(cs, at, cs.len())
}

// ------------------------------------------------------------ whitespace ---

/// The characters with the Unicode property `White_Space`.
pub open spec fn is_space(c: char) -> bool {
    let n = c as u32;
    ||| 0x9 <= n <= 0xd
    ||| n == 0x20
    ||| n == 0x85
    ||| n == 0xa0
    ||| n == 0x1680
    ||| 0x2000 <= n <= 0x200a
    ||| n == 0x2028
    ||| n == 0x2029
    ||| n == 0x202f
    ||| n == 0x205f
    ||| n == 0x3000
}

/// Whether a character has the Unicode property `White_Space`.
pub fn is_whitespace(c: char) -> (r: bool)
    ensures
        r == is_space(c),
{
    let n: u32 = c as u32;
    (0x9 <= n && n <= 0xd) || n == 0x20 || n == 0x85 || n == 0xa0 || n == 0x1680 || (0x2000 <= n
        && n <= 0x200a) || n == 0x2028 || n == 0x2029 || n == 0x202f || n == 0x205f || n == 0x3000
}

/// `s` without its leading whitespace.
pub open spec fn trimmed_start(s: Seq<char>) -> Seq<char>
    decreases s.len(),
{
    if s.len() > 0 && is_space(s[0]) {
        trimmed_start(s.skip(1))
    } else {
        s
    }
}

/// `s` without its trailing whitespace.
pub open spec fn trimmed_end(s: Seq<char>) -> Seq<char>
    decreases s.len(),
{
    if s.len() > 0 && is_space(s.last()) {
        trimmed_end(s.drop_last())
    } else {
        s
    }
}

/// `s` without whitespace at either end.
pub open spec fn trimmed(s: Seq<char>) -> Seq<char> {
    trimmed_end(trimmed_start(s))
}

pub proof fn lemma_trimmed_start_len(s: Seq<char>)
    ensures
        trimmed_start(s).len() <= s.len(),
        trimmed_start(s).len() > 0 ==> !is_space(trimmed_start(s)[0]),
    decreases s.len(),
{
    if s.len() > 0 && is_space(s[0]) {
        lemma_trimmed_start_len(s.skip(1));
    }
}

/// A text with no whitespace at either end is left as it is.
pub proof fn lemma_nothing_to_trim(s: Seq<char>)
    requires
        s.len() > 0,
        !is_space(s[0]),
        !is_space(s.last()),
    ensures
        trimmed(s) == s,
{
}

/// `cs` without its leading whitespace.
pub fn trim_start(cs: &[char]) -> (r: &[char])
    ensures
        r@ == trimmed_start(cs@),
{
    let mut at: usize = 0;
    assert(cs@.skip(0) =~= cs@);
    while at < cs.len() && is_whitespace(cs[at])
        invariant
            at <= cs@.len(),
            trimmed_start(cs@) == trimmed_start(cs@.skip(at as int)),
        decreases cs@.len() - at,
    {
        assert(cs@.skip(at as int).skip(1) =~= cs@.skip(at + 1));
        at += 1;
    }
    assert(cs@.subrange(at as int, cs@.len() as int) =~= cs@.skip(at as int));
    slice_subrange(cs, at, cs.len())
}

/// `cs` without its trailing whitespace.
pub fn trim_end(cs: &[char]) -> (r: &[char])
    ensures
        r@ == trimmed_end(cs@),
{
    let mut end: usize = cs.len();
    assert(cs@.take(cs@.len() as int) =~= cs@);
    while end > 0 && is_whitespace(cs[end - 1])
        invariant
            end <= cs@.len(),
            trimmed_end(cs@) == trimmed_end(cs@.take(end as int)),
        decreases end,
    {
        assert(cs@.take(end as int).drop_last() =~= cs@.take(end - 1));
        end -= 1;
    }
    assert(cs@.subrange(0, end as int) =~= cs@.take(end as int));
    slice_subrange(cs, 0, end)
}

/// `cs` without whitespace at either end.
pub fn trim(cs: &[char]) -> (r: &[char])
    ensures
        r@ == trimmed(cs@),
{
    trim_end(trim_start(cs))
}

/// The number of characters before the first whitespace.
pub open spec fn word_len(s: Seq<char>) -> int
    decreases s.len(),
{
    if s.len() == 0 || is_space(s[0]) {
        0
    } else {
        1 + word_len(s.skip(1))
    }
}

pub proof fn lemma_word_len(s: Seq<char>)
    ensures
        0 <= word_len(s) <= s.len(),
    decreases s.len(),
{
    if s.len() > 0 && !is_space(s[0]) {
        lemma_word_len(s.skip(1));
    }
}

/// The runs of non-whitespace characters, in order.
pub open spec fn words(s: Seq<char>) -> Seq<Seq<char>>
    decreases s.len(),
{
    let t = trimmed_start(s);
    if t.len() == 0 {
        Seq::empty()
    } else {
        proof {
            lemma_trimmed_start_len(s);
            lemma_word_len(t);
            lemma_word_len(t.skip(1));
        }
        seq![t.take(word_len(t))] + words(t.skip(word_len(t)))
    }
}

fn word_end(cs: &[char]) -> (r: usize)
    ensures
        r == word_len(cs@),
        r <= cs@.len(),
{
    let mut i: usize = 0;
    assert(cs@.skip(0) =~= cs@);
    while i < cs.len() && !is_whitespace(cs[i])
        invariant
            i <= cs@.len(),
            word_len(cs@) == i + word_len(cs@.skip(i as int)),
        decreases cs@.len() - i,
    {
        assert(cs@.skip(i as int).skip(1) =~= cs@.skip(i + 1));
        i += 1;
    }
    i
}

/// The runs of non-whitespace characters, in order.
pub fn split_whitespace(cs: &[char]) -> (r: Vec<Vec<char>>)
    ensures
        texts(r@) == words(cs@),
{
    broadcast use lemma_map_push;

    let mut out: Vec<Vec<char>> = Vec::new();
    let mut rest: &[char] = trim_start(cs);
    proof {
        lemma_trimmed_start_idem(cs@);
        assert(texts(out@) + words(rest@) =~= words(cs@));
    }
    while rest.len() > 0
        invariant
            rest@ == trimmed_start(rest@),
            texts(out@) + words(rest@) == words(cs@),
        decreases rest@.len(),
    {
        let n: usize = word_end(rest);
        let ghost before = rest@;
        proof {
            lemma_trimmed_start_len(before);
            lemma_word_len(before.skip(1));
            lemma_trimmed_start_idem(before.skip(n as int));
            lemma_trimmed_start_len(before.skip(n as int));
            assert(words(before) =~= seq![before.take(n as int)] + words(before.skip(n as int)));
            assert(before.subrange(0, n as int) =~= before.take(n as int));
            assert(before.subrange(n as int, before.len() as int) =~= before.skip(n as int));
        }
        let word = copy_of(slice_subrange(rest, 0, n));
        let ghost had = texts(out@);
        out.push(word);
        rest = trim_start(slice_subrange(rest, n, rest.len()));
        assert(texts(out@) == had.push(before.take(n as int)));
        assert(texts(out@) + words(rest@) =~= had + words(before));
    }
    assert(words(rest@) =~= Seq::<Seq<char>>::empty());
    assert(texts(out@) + words(rest@) =~= texts(out@));
    out
}

proof fn lemma_trimmed_start_idem(s: Seq<char>)
    ensures
        trimmed_start(trimmed_start(s)) == trimmed_start(s),
        words(trimmed_start(s)) == words(s),
    decreases s.len(),
{
    if s.len() > 0 && is_space(s[0]) {
        lemma_trimmed_start_idem(s.skip(1));
    }
}

// ---------------------------------------------------------------- fields ---

/// What stands before, between and after the separators.
pub open spec fn fields_of(s: Seq<char>, sep: char) -> Seq<Seq<char>>
    decreases s.len(),
{
    let at = index_of(s, sep);
    if 0 <= at < s.len() {
        seq![s.take(at)] + fields_of(s.skip(at + 1), sep)
    } else {
        seq![s]
    }
}

/// What stands before, between and after the separators.
pub fn split_on(cs: &[char], sep: char) -> (r: Vec<Vec<char>>)
    ensures
        texts(r@) == fields_of(cs@, sep),
{
    broadcast use lemma_map_push;

    let mut out: Vec<Vec<char>> = Vec::new();
    let mut rest: &[char] = cs;
    assert(texts(out@) + fields_of(rest@, sep) =~= fields_of(cs@, sep));
    loop
        invariant
            texts(out@) + fields_of(rest@, sep) == fields_of(cs@, sep),
        decreases rest@.len(),
    {
        let at: usize = find_char(rest, sep);
        let ghost had = texts(out@);
        let ghost before = rest@;
        if at == rest.len() {
            out.push(copy_of(rest));
            assert(texts(out@) =~= had + fields_of(before, sep));
            return out;
        }
        proof {
            lemma_index_of(before, sep);
            assert(before.subrange(0, at as int) =~= before.take(at as int));
            assert(before.subrange(at + 1, before.len() as int) =~= before.skip(at + 1));
        }
        out.push(copy_of(slice_subrange(rest, 0, at)));
        rest = slice_subrange(rest, at + 1, rest.len());
        assert(texts(out@) + fields_of(rest@, sep) =~= had + fields_of(before, sep));
    }
}

/// `s` without any number of trailing copies of `c`.
pub open spec fn without_trailing(s: Seq<char>, c: char) -> Seq<char>
    decreases s.len(),
{
    if s.len() > 0 && s.last() == c {
        without_trailing(s.drop_last(), c)
    } else {
        s
    }
}

/// `cs` without any number of trailing copies of `c`.
pub fn trim_end_matches(cs: &[char], c: char) -> (r: &[char])
    ensures
        r@ == without_trailing(cs@, c),
{
    let mut end: usize = cs.len();
    assert(cs@.take(cs@.len() as int) =~= cs@);
    while end > 0 && cs[end - 1] == c
        invariant
            end <= cs@.len(),
            without_trailing(cs@, c) == without_trailing(cs@.take(end as int), c),
        decreases end,
    {
        assert(cs@.take(end as int).drop_last() =~= cs@.take(end - 1));
        end -= 1;
    }
    assert(cs@.subrange(0, end as int) =~= cs@.take(end as int));
    slice_subrange(cs, 0, end)
}

/// Whether two texts are the same but for the case of ASCII letters.
pub fn same_ignoring_case(a: &[char], b: &str) -> (r: bool)
    ensures
        r == (lowered(a@) == lowered(b@)),
{
    let left = to_lower(a);
    let right = chars_of(b);
    let right = to_lower(right.as_slice());
    same(left.as_slice(), right.as_slice())
}

// ----------------------------------------------------------------- lines ---

/// A line without the carriage return that stood before its line feed.
pub open spec fn without_return(s: Seq<char>) -> Seq<char> {
    if s.len() > 0 && s.last() == '\r' {
        s.drop_last()
    } else {
        s
    }
}

/// The lines of a text. A line ends at a line feed, with or without a carriage
/// return before it; the last line may end at the end of the text instead.
pub open spec fn lines_of(s: Seq<char>) -> Seq<Seq<char>>
    decreases s.len(),
{
    if s.len() == 0 {
        Seq::empty()
    } else if index_of(s, '\n') >= s.len() {
        seq![s]
    } else {
        proof {
            lemma_index_of(s, '\n');
        }
        seq![without_return(s.take(index_of(s, '\n')))] + lines_of(
            s.skip(index_of(s, '\n') + 1),
        )
    }
}

/// The lines of a text.
pub fn lines(cs: &[char]) -> (r: Vec<Vec<char>>)
    ensures
        texts(r@) == lines_of(cs@),
{
    broadcast use lemma_map_push;

    let mut out: Vec<Vec<char>> = Vec::new();
    let mut at: usize = 0;
    proof {
        assert(cs@.skip(0) =~= cs@);
        assert(texts(out@) + lines_of(cs@) =~= lines_of(cs@));
    }
    while at < cs.len()
        invariant
            at <= cs@.len(),
            texts(out@) + lines_of(cs@.skip(at as int)) == lines_of(cs@),
        decreases cs@.len() - at,
    {
        let rest = slice_subrange(cs, at, cs.len());
        assert(rest@ =~= cs@.skip(at as int));
        let n: usize = find_char(rest, '\n');
        let ghost had = texts(out@);
        if n == rest.len() {
            out.push(copy_of(rest));
            assert(texts(out@) =~= had + seq![rest@]);
            at = cs.len();
            assert(lines_of(cs@.skip(at as int)) =~= Seq::<Seq<char>>::empty());
            assert(texts(out@) + lines_of(cs@.skip(at as int)) =~= texts(out@));
        } else {
            let end: usize = if n > 0 && rest[n - 1] == '\r' {
                n - 1
            } else {
                n
            };
            let line = copy_of(slice_subrange(rest, 0, end));
            proof {
                let whole = rest@.take(n as int);
                assert(rest@.subrange(0, end as int) =~= without_return(whole));
                assert(rest@.skip(n + 1) =~= cs@.skip(at + n + 1));
            }
            out.push(line);
            assert(texts(out@) == had.push(line@));
            assert(lines_of(rest@) == seq![line@] + lines_of(cs@.skip(at + n + 1)));
            at = at + n + 1;
            assert(texts(out@) + lines_of(cs@.skip(at as int)) =~= had + lines_of(rest@));
        }
    }
    assert(lines_of(cs@.skip(at as int)) =~= Seq::<Seq<char>>::empty());
    assert(texts(out@) + lines_of(cs@.skip(at as int)) =~= texts(out@));
    out
}

// ------------------------------------------------------------ piece by piece ---

/// Whether a text is made of blanks only.
pub open spec fn is_blank(s: Seq<char>) -> bool {
    forall|i: int| 0 <= i < s.len() ==> is_space(#[trigger] s[i])
}

/// Whether a text is a word: not empty, and with no blank in it.
pub open spec fn is_word(s: Seq<char>) -> bool {
    s.len() > 0 && forall|i: int| 0 <= i < s.len() ==> !is_space(#[trigger] s[i])
}

/// Only capitals of ASCII change in lower case, each to the letter 32 further on.
pub proof fn capitals_are_lowered(s: Seq<char>, i: int)
    requires
        0 <= i < s.len(),
    ensures
        lowered(s).len() == s.len(),
        65 <= s[i] as u32 <= 90 ==> lowered(s)[i] as u32 == s[i] as u32 + 32,
        !(65 <= s[i] as u32 <= 90) ==> lowered(s)[i] == s[i],
{
}

proof fn lemma_trimmed_front(a: Seq<char>, m: Seq<char>)
    requires
        is_blank(a),
        m.len() > 0,
        !is_space(m[0]),
    ensures
        trimmed_start(a + m) == m,
    decreases a.len(),
{
    let s = a + m;
    if a.len() > 0 {
        assert(is_space(a[0]));
        assert(s.skip(1) =~= a.skip(1) + m);
        assert forall|i: int| 0 <= i < a.skip(1).len() implies is_space(#[trigger] a.skip(1)[i]) by {
            assert(a.skip(1)[i] == a[i + 1]);
        }
        lemma_trimmed_front(a.skip(1), m);
    } else {
        assert(s =~= m);
    }
}

proof fn lemma_trimmed_back(m: Seq<char>, b: Seq<char>)
    requires
        is_blank(b),
        m.len() > 0,
        !is_space(m.last()),
    ensures
        trimmed_end(m + b) == m,
    decreases b.len(),
{
    let s = m + b;
    if b.len() > 0 {
        assert(s.last() == b.last());
        assert(is_space(b[b.len() - 1]));
        assert(s.drop_last() =~= m + b.drop_last());
        assert forall|i: int| 0 <= i < b.drop_last().len() implies is_space(
            #[trigger] b.drop_last()[i],
        ) by {
            assert(b.drop_last()[i] == b[i]);
        }
        lemma_trimmed_back(m, b.drop_last());
    } else {
        assert(s =~= m);
    }
}

/// Blanks around a text are taken away, and nothing else.
pub proof fn blanks_are_trimmed(a: Seq<char>, m: Seq<char>, b: Seq<char>)
    requires
        is_blank(a),
        is_blank(b),
        m.len() > 0,
        !is_space(m[0]),
        !is_space(m.last()),
    ensures
        trimmed(a + m + b) == m,
        trimmed_end(m + b) == m,
        trimmed_start(a + m) == m,
{
    assert(a + m + b =~= a + (m + b));
    lemma_trimmed_front(a, m + b);
    lemma_trimmed_back(m, b);
    lemma_trimmed_front(a, m);
}

proof fn lemma_word_end(w: Seq<char>, rest: Seq<char>)
    requires
        forall|i: int| 0 <= i < w.len() ==> !is_space(#[trigger] w[i]),
        rest.len() > 0 ==> is_space(rest[0]),
    ensures
        word_len(w + rest) == w.len(),
    decreases w.len(),
{
    let s = w + rest;
    if w.len() > 0 {
        assert(!is_space(w[0]));
        assert(s.skip(1) =~= w.skip(1) + rest);
        assert forall|i: int| 0 <= i < w.skip(1).len() implies !is_space(#[trigger] w.skip(1)[i]) by {
            assert(w.skip(1)[i] == w[i + 1]);
        }
        lemma_word_end(w.skip(1), rest);
    } else {
        assert(s =~= rest);
    }
}

/// The words of a text are told apart by blanks: one in front changes nothing, a
/// word and a blank in front are one more word, and a word alone is one.
pub proof fn blanks_separate_words(w: Seq<char>, blank: char, rest: Seq<char>)
    requires
        is_word(w),
        is_space(blank),
    ensures
        words(Seq::<char>::empty()) == Seq::<Seq<char>>::empty(),
        words(seq![blank] + rest) == words(rest),
        words(w) == seq![w],
        words(w + seq![blank] + rest) == seq![w] + words(rest),
{
    let s = seq![blank] + rest;
    assert(s.skip(1) =~= rest);
    assert(trimmed_start(s) == trimmed_start(rest));
    assert(!is_space(w[0]));
    lemma_word_end(w, Seq::empty());
    assert(w + Seq::<char>::empty() =~= w);
    assert(w.take(w.len() as int) =~= w);
    assert(w.skip(w.len() as int) =~= Seq::<char>::empty());
    assert(words(Seq::<char>::empty()) =~= Seq::<Seq<char>>::empty());
    assert(words(w) =~= seq![w]);
    let all = w + seq![blank] + rest;
    assert(all =~= w + s);
    lemma_word_end(w, s);
    assert(all[0] == w[0]);
    assert(all.take(w.len() as int) =~= w);
    assert(all.skip(w.len() as int) =~= s);
}

/// A line feed ends a line, with or without a carriage return before it; what stands
/// behind the last one is a line too, where there is anything.
pub proof fn line_feeds_end_lines(line: Seq<char>, rest: Seq<char>)
    requires
        !line.contains('\n'),
    ensures
        lines_of(Seq::<char>::empty()) == Seq::<Seq<char>>::empty(),
        line.len() > 0 ==> lines_of(line) == seq![line],
        line.len() == 0 || line.last() != '\r' ==> lines_of(line + seq!['\n'] + rest) == seq![line]
            + lines_of(rest),
        lines_of(line + seq!['\r'] + seq!['\n'] + rest) == seq![line] + lines_of(rest),
{
    lemma_index_of(line, '\n');
    if index_of(line, '\n') < line.len() {
        assert(line.contains(line[index_of(line, '\n')]));
    }
    let all = line + seq!['\n'] + rest;
    assert forall|i: int| 0 <= i < line.len() implies all[i] != '\n' by {
        assert(all[i] == line[i]);
        assert(line.contains(line[i]));
    }
    lemma_index_of_unique(all, '\n', line.len() as int);
    assert(all.take(line.len() as int) =~= line);
    assert(all.skip((line.len() + 1) as int) =~= rest);
    let other = line + seq!['\r'] + seq!['\n'] + rest;
    assert forall|i: int| 0 <= i < line.len() + 1 implies other[i] != '\n' by {
        if i < line.len() {
            assert(other[i] == line[i]);
            assert(line.contains(line[i]));
        }
    }
    lemma_index_of_unique(other, '\n', (line.len() + 1) as int);
    assert(other.take((line.len() + 1) as int) =~= line.push('\r'));
    assert(line.push('\r').drop_last() =~= line);
    assert(other.skip((line.len() + 2) as int) =~= rest);
}

/// A separator ends a field and begins another.
pub proof fn separators_end_fields(field: Seq<char>, sep: char, rest: Seq<char>)
    requires
        !field.contains(sep),
    ensures
        fields_of(field, sep) == seq![field],
        fields_of(field + seq![sep] + rest, sep) == seq![field] + fields_of(rest, sep),
{
    lemma_index_of(field, sep);
    if index_of(field, sep) < field.len() {
        assert(field.contains(field[index_of(field, sep)]));
    }
    let all = field + seq![sep] + rest;
    assert forall|i: int| 0 <= i < field.len() implies all[i] != sep by {
        assert(all[i] == field[i]);
        assert(field.contains(field[i]));
    }
    lemma_index_of_unique(all, sep, field.len() as int);
    assert(all.take(field.len() as int) =~= field);
    assert(all.skip((field.len() + 1) as int) =~= rest);
}

/// What a text is put together from occurs in it, and what it begins with is its
/// front.
pub proof fn parts_occur(a: Seq<char>, p: Seq<char>, b: Seq<char>)
    ensures
        occurs_in(a + p + b, p),
        begins_with(p + b, p),
        begins_with(a, p) ==> a == p + a.skip(p.len() as int),
        occurs_in(a, p) ==> exists|i: int|
            0 <= i <= a.len() - p.len() && a == #[trigger] a.take(i) + p + a.skip(i + p.len()),
{
    let s = a + p + b;
    let at = a.len() as int;
    assert(s.subrange(at, at + p.len()) =~= p);
    assert((p + b).take(p.len() as int) =~= p);
    if begins_with(a, p) {
        assert(a =~= a.take(p.len() as int) + a.skip(p.len() as int));
    }
    if occurs_in(a, p) {
        let i = choose|i: int|
            0 <= i <= a.len() - p.len() && #[trigger] a.subrange(i, i + p.len()) == p;
        assert(a =~= a.take(i) + a.subrange(i, i + p.len()) + a.skip(i + p.len()));
    }
}

/// Texts are joined with the separator between neighbours, and nowhere else.
pub proof fn texts_are_joined(parts: Seq<Seq<char>>, last: Seq<char>, sep: Seq<char>)
    ensures
        join_of(Seq::<Seq<char>>::empty(), sep) == Seq::<char>::empty(),
        join_of(seq![last], sep) == last,
        parts.len() > 0 ==> join_of(parts.push(last), sep) == join_of(parts, sep) + sep + last,
{
    assert(parts.push(last).drop_last() =~= parts);
}

/// Characters at the end are taken away one and all, and nothing else is.
pub proof fn trailing_characters_are_dropped(s: Seq<char>, c: char)
    ensures
        without_trailing(s.push(c), c) == without_trailing(s, c),
        s.len() == 0 || s.last() != c ==> without_trailing(s, c) == s,
{
    assert(s.push(c).drop_last() =~= s);
}

} // verus!
