//! Integers as text: what is printed, and what is accepted when reading.

use vstd::prelude::*;
use vstd::slice::slice_subrange;

verus! {

// -------------------------------------------------------------- printing ---

/// The digit character for `d`, which is below sixteen.
pub open spec fn digit_char(d: nat) -> char {
    if d < 10 {
        (0x30 + d) as char
    } else {
        (0x61 + (d - 10)) as char
    }
}

/// The digits of `n` in the given base, most significant first and with no
/// leading zero; zero itself is one digit.
pub open spec fn digits(n: nat, base: nat) -> Seq<char>
    decreases n,
{
    if base < 2 {
        Seq::empty()
    } else if n < base {
        seq![digit_char(n)]
    } else {
        proof {
            assert(n / base < n) by (nonlinear_arith)
                requires
                    n >= base >= 2,
            ;
        }
        digits(n / base, base).push(digit_char(n % base))
    }
}

/// `n` in decimal.
pub open spec fn decimal(n: nat) -> Seq<char> {
    digits(n, 10)
}

/// `n` in decimal, with a leading minus sign when it is negative.
pub open spec fn signed_decimal(n: int) -> Seq<char> {
    if n < 0 {
        seq!['-'] + decimal((-n) as nat)
    } else {
        decimal(n as nat)
    }
}

/// `s` filled up on the left with zeros until it has `width` characters.
pub open spec fn zero_padded(s: Seq<char>, width: nat) -> Seq<char> {
    if s.len() < width {
        Seq::new((width - s.len()) as nat, |i: int| '0') + s
    } else {
        s
    }
}

/// `n` in lower-case hexadecimal, at least `width` digits wide.
pub open spec fn hex_padded(n: nat, width: nat) -> Seq<char> {
    zero_padded(digits(n, 16), width)
}

fn digit_to_char(d: u64) -> (r: char)
    requires
        d < 16,
    ensures
        r == digit_char(d as nat),
{
    if d < 10 {
        (0x30u8 + d as u8) as char
    } else {
        (0x61u8 + (d as u8 - 10)) as char
    }
}

fn push_digits(out: &mut String, n: u64, base: u64)
    requires
        2 <= base <= 16,
    ensures
        final(out)@ == old(out)@ + digits(n as nat, base as nat),
    decreases n,
{
    if n < base {
        out.push(digit_to_char(n));
        assert(out@ =~= old(out)@ + digits(n as nat, base as nat));
    } else {
        assert(n / base < n) by (nonlinear_arith)
            requires
                n >= base >= 2,
        ;
        push_digits(out, n / base, base);
        assert(0 <= n % base < base) by (nonlinear_arith)
            requires
                base >= 2,
        ;
        let ghost mid = out@;
        out.push(digit_to_char(n % base));
        assert(mid == old(out)@ + digits((n / base) as nat, base as nat));
        assert(digits(n as nat, base as nat) == digits((n / base) as nat, base as nat).push(
            digit_char((n % base) as nat),
        ));
        assert(out@ =~= old(out)@ + digits(n as nat, base as nat));
    }
}

/// Append `n` in decimal.
pub fn push_decimal(out: &mut String, n: u64)
    ensures
        final(out)@ == old(out)@ + decimal(n as nat),
{
    push_digits(out, n, 10)
}

/// Append `n` in decimal, with its sign when it is negative.
pub fn push_signed(out: &mut String, n: i64)
    ensures
        final(out)@ == old(out)@ + signed_decimal(n as int),
{
    if n < 0 {
        out.push('-');
        let magnitude: u64 = if n == i64::MIN {
            0x8000_0000_0000_0000
        } else {
            (-n) as u64
        };
        push_digits(out, magnitude, 10);
        assert(out@ =~= old(out)@ + signed_decimal(n as int));
    } else {
        push_digits(out, n as u64, 10);
    }
}

/// Append `n` in lower-case hexadecimal, at least `width` digits wide.
pub fn push_hex(out: &mut String, n: u64, width: usize)
    ensures
        final(out)@ == old(out)@ + hex_padded(n as nat, width as nat),
{
    let mut body = String::new();
    push_digits(&mut body, n, 16);
    assert(body@ =~= digits(n as nat, 16));
    let len: usize = body.as_str().unicode_len();
    let mut i: usize = len;
    while i < width
        invariant
            len == body@.len(),
            len <= i,
            i <= width || i == len,
            out@ == old(out)@ + Seq::new((i - len) as nat, |j: int| '0'),
        decreases width - i,
    {
        out.push('0');
        i += 1;
        assert(out@ =~= old(out)@ + Seq::new((i - len) as nat, |j: int| '0'));
    }
    let ghost before = out@;
    out.append(body.as_str());
    assert(out@ =~= before + body@);
    assert(out@ =~= old(out)@ + hex_padded(n as nat, width as nat));
}

// ------------------------------------------------------------ conversion ---

/// The signed number with the same 32 bits.
pub open spec fn wrapped(n: u32) -> i32 {
    if n < 0x8000_0000 {
        n as i32
    } else {
        (n - 0x1_0000_0000) as i32
    }
}

/// The signed number with the same 32 bits.
pub fn to_signed(n: u32) -> (r: i32)
    ensures
        r == wrapped(n),
{
    if n < 0x8000_0000 {
        n as i32
    } else {
        (n as i64 - 0x1_0000_0000) as i32
    }
}

// --------------------------------------------------------------- reading ---

/// The value of a digit character in the given base, if it is one.
pub open spec fn digit_value(c: char, base: nat) -> Option<nat> {
    let n = c as u32;
    let v: int = if 0x30 <= n <= 0x39 {
        n - 0x30
    } else if 0x61 <= n <= 0x66 {
        n - 0x61 + 10
    } else if 0x41 <= n <= 0x46 {
        n - 0x41 + 10
    } else {
        16
    };
    if v < base && v < 16 {
        Some(v as nat)
    } else {
        None
    }
}

/// Whether every character is a digit of the given base.
pub open spec fn all_digits(s: Seq<char>, base: nat) -> bool {
    forall|i: int| 0 <= i < s.len() ==> #[trigger] digit_value(s[i], base) is Some
}

/// The number that a row of digits denotes.
pub open spec fn digits_value(s: Seq<char>, base: nat) -> nat
    decreases s.len(),
{
    if s.len() == 0 {
        0
    } else {
        digits_value(s.drop_last(), base) * base + digit_value(s.last(), base).unwrap_or(0)
    }
}

/// The number that a text denotes: an optional plus sign, then at least one
/// digit and nothing else; no more than `max`.
pub open spec fn parsed(s: Seq<char>, base: nat, max: nat) -> Option<nat> {
    let body = if s.len() > 0 && s[0] == '+' {
        s.skip(1)
    } else {
        s
    };
    if body.len() > 0 && all_digits(body, base) && digits_value(body, base) <= max {
        Some(digits_value(body, base))
    } else {
        None
    }
}

/// The same with an optional sign of either kind, between `-max - 1` and `max`.
pub open spec fn parsed_signed(s: Seq<char>, max: nat) -> Option<int> {
    if s.len() > 0 && s[0] == '-' {
        let body = s.skip(1);
        if body.len() > 0 && all_digits(body, 10) && digits_value(body, 10) <= max + 1 {
            Some(-(digits_value(body, 10) as int))
        } else {
            None
        }
    } else {
        match parsed(s, 10, max) {
            Some(n) => Some(n as int),
            None => None,
        }
    }
}

fn digit_of(c: char, base: u64) -> (r: Option<u64>)
    requires
        base <= 16,
    ensures
        r is Some == digit_value(c, base as nat) is Some,
        r is Some ==> r->0 == digit_value(c, base as nat)->0 && r->0 < base,
{
    let n: u32 = c as u32;
    let v: u64 = if 0x30 <= n && n <= 0x39 {
        (n - 0x30) as u64
    } else if 0x61 <= n && n <= 0x66 {
        (n - 0x61 + 10) as u64
    } else if 0x41 <= n && n <= 0x46 {
        (n - 0x41 + 10) as u64
    } else {
        16
    };
    if v < base {
        Some(v)
    } else {
        None
    }
}

/// More digits never make a number smaller.
proof fn lemma_digits_value_grows(s: Seq<char>, base: nat, n: int)
    requires
        0 <= n <= s.len(),
        base >= 1,
    ensures
        digits_value(s.take(n), base) <= digits_value(s, base),
    decreases s.len(),
{
    if n == s.len() {
        assert(s.take(n) =~= s);
    } else {
        lemma_digits_value_grows(s.drop_last(), base, n);
        assert(s.drop_last().take(n) =~= s.take(n));
        assert(digits_value(s.drop_last(), base) <= digits_value(s.drop_last(), base) * base)
            by (nonlinear_arith)
            requires
                base >= 1,
        ;
    }
}

fn parse_digits(cs: &[char], base: u64, max: u64) -> (r: Option<u64>)
    requires
        2 <= base <= 16,
    ensures
        r is Some == (cs@.len() > 0 && all_digits(cs@, base as nat) && digits_value(
            cs@,
            base as nat,
        ) <= max),
        r is Some ==> r->0 == digits_value(cs@, base as nat),
{
    if cs.len() == 0 {
        return None;
    }
    let mut value: u64 = 0;
    let mut i: usize = 0;
    while i < cs.len()
        invariant
            2 <= base <= 16,
            i <= cs@.len(),
            value <= max,
            value == digits_value(cs@.take(i as int), base as nat),
            forall|j: int|
                0 <= j < i ==> #[trigger] digit_value(cs@[j], base as nat) is Some,
        decreases cs@.len() - i,
    {
        let d: u64 = match digit_of(cs[i], base) {
            Some(d) => d,
            None => {
                return None;
            },
        };
        proof {
            assert(cs@.take(i + 1).drop_last() =~= cs@.take(i as int));
            lemma_digits_value_grows(cs@, base as nat, i + 1);
        }
        assert(value * base <= 0xffff_ffff_ffff_ffff * 16) by (nonlinear_arith)
            requires
                value <= 0xffff_ffff_ffff_ffff,
                base <= 16,
        ;
        let next: u128 = (value as u128) * (base as u128) + (d as u128);
        if next > max as u128 {
            return None;
        }
        value = next as u64;
        i += 1;
    }
    assert(cs@.take(i as int) =~= cs@);
    Some(value)
}

/// Read an unsigned number.
pub fn parse_unsigned(cs: &[char], base: u64, max: u64) -> (r: Option<u64>)
    requires
        2 <= base <= 16,
    ensures
        r is Some == parsed(cs@, base as nat, max as nat) is Some,
        r is Some ==> r->0 == parsed(cs@, base as nat, max as nat)->0,
        r is Some ==> r->0 <= max,
{
    if cs.len() > 0 && cs[0] == '+' {
        let rest = slice_subrange(cs, 1, cs.len());
        assert(rest@ =~= cs@.skip(1));
        parse_digits(rest, base, max)
    } else {
        parse_digits(cs, base, max)
    }
}

/// Read a `u16` in decimal.
pub fn parse_u16(cs: &[char]) -> (r: Option<u16>)
    ensures
        r is Some == parsed(cs@, 10, 0xffff) is Some,
        r is Some ==> r->0 == parsed(cs@, 10, 0xffff)->0,
{
    match parse_unsigned(cs, 10, 0xffff) {
        Some(n) => Some(n as u16),
        None => None,
    }
}

/// Read a `u32` in decimal.
pub fn parse_u32(cs: &[char]) -> (r: Option<u32>)
    ensures
        r is Some == parsed(cs@, 10, 0xffff_ffff) is Some,
        r is Some ==> r->0 == parsed(cs@, 10, 0xffff_ffff)->0,
{
    match parse_unsigned(cs, 10, 0xffff_ffff) {
        Some(n) => Some(n as u32),
        None => None,
    }
}

/// Read an `i32` in decimal.
pub fn parse_i32(cs: &[char]) -> (r: Option<i32>)
    ensures
        r is Some == parsed_signed(cs@, 0x7fff_ffff) is Some,
        r is Some ==> r->0 == parsed_signed(cs@, 0x7fff_ffff)->0,
{
    if cs.len() > 0 && cs[0] == '-' {
        let rest = slice_subrange(cs, 1, cs.len());
        assert(rest@ =~= cs@.skip(1));
        match parse_digits(rest, 10, 0x8000_0000) {
            Some(n) => Some((-(n as i64)) as i32),
            None => None,
        }
    } else {
        match parse_unsigned(cs, 10, 0x7fff_ffff) {
            Some(n) => Some(n as i32),
            None => None,
        }
    }
}

// ------------------------------------------------------------------ laws ---

proof fn lemma_digit_char(d: nat, base: nat)
    requires
        d < base <= 16,
    ensures
        digit_value(digit_char(d), base) == Some(d),
        digit_char(d) != '+',
        digit_char(d) != '-',
{
}

proof fn lemma_digits(n: nat, base: nat)
    requires
        2 <= base <= 16,
    ensures
        digits(n, base).len() > 0,
        all_digits(digits(n, base), base),
        digits_value(digits(n, base), base) == n,
        digits(n, base)[0] != '+',
        digits(n, base)[0] != '-',
    decreases n,
{
    let s = digits(n, base);
    if n < base {
        lemma_digit_char(n, base);
        assert(s.drop_last() =~= Seq::<char>::empty());
        assert(digits_value(s.drop_last(), base) == 0);
        assert(0nat * base == 0) by (nonlinear_arith);
        assert(s.last() == digit_char(n));
    } else {
        assert(n / base < n && n % base < base && (n / base) * base + n % base == n)
            by (nonlinear_arith)
            requires
                n >= base >= 2,
        ;
        lemma_digits(n / base, base);
        lemma_digit_char(n % base, base);
        let head = digits(n / base, base);
        assert(s.drop_last() =~= head);
        assert(s.last() == digit_char(n % base));
        assert(digits_value(s, base) == digits_value(head, base) * base + n % base);
        assert forall|i: int| 0 <= i < s.len() implies #[trigger] digit_value(
            s[i],
            base,
        ) is Some by {
            if i < head.len() {
                assert(s[i] == head[i]);
            }
        }
        assert(s[0] == head[0]);
    }
}

/// A number in decimal begins with a digit.
pub proof fn lemma_decimal_shape(n: nat)
    ensures
        decimal(n).len() > 0,
        digit_value(decimal(n)[0], 10) is Some,
{
    lemma_digits(n, 10);
}

/// A number that is printed reads back as itself.
pub proof fn decimal_round_trip(n: nat, max: nat)
    requires
        n <= max,
    ensures
        parsed(decimal(n), 10, max) == Some(n),
{
    lemma_digits(n, 10);
}

/// A negative or positive number that is printed reads back as itself.
pub proof fn signed_decimal_round_trip(n: int, max: nat)
    requires
        -(max as int) - 1 <= n <= max,
    ensures
        parsed_signed(signed_decimal(n), max) == Some(n),
{
    if n < 0 {
        lemma_digits((-n) as nat, 10);
        assert(signed_decimal(n).skip(1) =~= decimal((-n) as nat));
    } else {
        lemma_digits(n as nat, 10);
    }
}

/// Different numbers print differently.
pub proof fn decimal_is_injective(a: nat, b: nat)
    requires
        decimal(a) == decimal(b),
    ensures
        a == b,
{
    lemma_digits(a, 10);
    lemma_digits(b, 10);
}

/// Zeros in front do not change what a number in hexadecimal reads as.
pub proof fn hex_round_trip(n: nat, width: nat, max: nat)
    requires
        n <= max,
    ensures
        parsed(hex_padded(n, width), 16, max) == Some(n),
{
    lemma_digits(n, 16);
    let s = digits(n, 16);
    if s.len() < width {
        let zeros = Seq::new((width - s.len()) as nat, |i: int| '0');
        lemma_leading_zeros(zeros, s, 16);
        assert(hex_padded(n, width)[0] == '0');
    }
}

proof fn lemma_leading_zeros(zeros: Seq<char>, s: Seq<char>, base: nat)
    requires
        2 <= base <= 16,
        forall|i: int| 0 <= i < zeros.len() ==> zeros[i] == '0',
        all_digits(s, base),
    ensures
        all_digits(zeros + s, base),
        digits_value(zeros + s, base) == digits_value(s, base),
    decreases s.len(), zeros.len(),
{
    let both = zeros + s;
    assert forall|i: int| 0 <= i < both.len() implies #[trigger] digit_value(
        both[i],
        base,
    ) is Some by {
        if i >= zeros.len() {
            assert(both[i] == s[i - zeros.len()]);
        }
    }
    if s.len() > 0 {
        assert(all_digits(s.drop_last(), base)) by {
            assert forall|i: int| 0 <= i < s.len() - 1 implies #[trigger] digit_value(
                s.drop_last()[i],
                base,
            ) is Some by {
                assert(s.drop_last()[i] == s[i]);
            }
        }
        lemma_leading_zeros(zeros, s.drop_last(), base);
        assert(both.drop_last() =~= zeros + s.drop_last());
        assert(both.last() == s.last());
    } else if zeros.len() > 0 {
        lemma_leading_zeros(zeros.drop_last(), s, base);
        assert(both.drop_last() =~= zeros.drop_last() + s);
        assert(both.last() == '0');
        assert(0nat * base == 0) by (nonlinear_arith);
    }
}

/// A number that fits in four hexadecimal digits takes four ASCII characters.
pub proof fn lemma_four_digits(n: nat)
    requires
        n <= 0xffff,
    ensures
        hex_padded(n, 4).len() == 4,
        vstd::utf8::is_ascii_chars(hex_padded(n, 4)),
{
    lemma_digits(n, 16);
    lemma_digits_ascii(n, 16);
    reveal_with_fuel(digits, 5);
    let s = digits(n, 16);
    assert(s.len() <= 4);
    let text = hex_padded(n, 4);
    assert forall|i: int| 0 <= i < text.len() implies 0 <= #[trigger] text[i] as nat <= 127 by {
        if i >= 4 - s.len() {
            assert(text[i] == s[i - (4 - s.len())]);
        }
    }
}

proof fn lemma_digits_ascii(n: nat, base: nat)
    requires
        2 <= base <= 16,
    ensures
        forall|i: int|
            0 <= i < digits(n, base).len() ==> (#[trigger] digits(n, base)[i] as nat) <= 127,
    decreases n,
{
    if n >= base {
        assert(n / base < n && n % base < base) by (nonlinear_arith)
            requires
                n >= base >= 2,
        ;
        lemma_digits_ascii(n / base, base);
        let head = digits(n / base, base);
        assert forall|i: int| 0 <= i < digits(n, base).len() implies (#[trigger] digits(
            n,
            base,
        )[i] as nat) <= 127 by {
            if i < head.len() {
                assert(digits(n, base)[i] == head[i]);
            }
        }
    }
}

// --------------------------------------------------------- digit by digit ---

/// A number in decimal is its tenth with one more digit behind it.
pub proof fn decimals_grow_by_a_digit(n: nat, d: nat)
    requires
        d < 10,
    ensures
        decimal(d).len() == 1,
        decimal(d)[0] as u32 == 48 + d,
        n > 0 ==> decimal(10 * n + d).drop_last() == decimal(n) && decimal(10 * n + d).last() as u32
            == 48 + d,
{
    if n > 0 {
        let m = 10 * n + d;
        assert(m / 10 == n && m % 10 == d);
        assert(decimal(m) == decimal(n).push(digit_char(d)));
        assert(decimal(m).drop_last() =~= decimal(n));
    }
}

/// A number in hexadecimal is its sixteenth with one more digit behind it, a letter
/// from ten on, in lower case.
pub proof fn hexadecimals_grow_by_a_digit(n: nat, d: nat)
    requires
        d < 16,
    ensures
        hex_padded(d, 1).len() == 1,
        hex_padded(d, 1)[0] as u32 == if d < 10 {
            48 + d
        } else {
            87 + d
        },
        n > 0 ==> hex_padded(16 * n + d, 0).drop_last() == hex_padded(n, 0) && hex_padded(
            16 * n + d,
            0,
        ).last() == hex_padded(d, 1)[0],
{
    if n > 0 {
        let m = 16 * n + d;
        assert(m / 16 == n && m % 16 == d);
        assert(digits(m, 16) == digits(n, 16).push(digit_char(d)));
        assert(digits(m, 16).drop_last() =~= digits(n, 16));
    }
}

/// A number that must fill a width is filled up with zeros in front.
pub proof fn hexadecimals_are_filled_up(n: nat, width: nat)
    ensures
        hex_padded(n, width).len() >= width,
        hex_padded(n, width).len() >= hex_padded(n, 0).len(),
        hex_padded(n, width).len() == width || hex_padded(n, width) == hex_padded(n, 0),
        hex_padded(n, width).skip(hex_padded(n, width).len() - hex_padded(n, 0).len()) == hex_padded(
            n,
            0,
        ),
        forall|i: int|
            0 <= i < hex_padded(n, width).len() - hex_padded(n, 0).len() ==> #[trigger] hex_padded(
                n,
                width,
            )[i] == '0',
{
    let s = hex_padded(n, 0);
    let t = hex_padded(n, width);
    assert(t.skip(t.len() - s.len()) =~= s);
}

/// A number in decimal is made of digits only.
pub proof fn decimals_are_digits(n: nat, i: int)
    requires
        0 <= i < decimal(n).len(),
    ensures
        '0' <= decimal(n)[i] && decimal(n)[i] <= '9',
    decreases n,
{
    if n >= 10 {
        if i < decimal(n).len() - 1 {
            assert(n / 10 < n);
            decimals_are_digits(n / 10, i);
        }
    }
}

/// One more digit behind a number makes it ten times as much and the digit, as long
/// as that is not too much; anything else behind it makes it none.
pub proof fn numbers_are_read_digit_by_digit(s: Seq<char>, c: char, max: nat, v: nat)
    requires
        parsed(s, 10, max) == Some(v),
    ensures
        '0' <= c && c <= '9' ==> parsed(s.push(c), 10, max) == if 10 * v + (c as u32 - 48) <= max {
            Some((10 * v + (c as u32 - 48)) as nat)
        } else {
            None
        },
        !('0' <= c && c <= '9') ==> parsed(s.push(c), 10, max) is None,
{
    let t = s.push(c);
    let body = if s.len() > 0 && s[0] == '+' {
        s.skip(1)
    } else {
        s
    };
    let longer = if t.len() > 0 && t[0] == '+' {
        t.skip(1)
    } else {
        t
    };
    assert(longer =~= body.push(c));
    assert(longer.drop_last() =~= body);
    assert(longer.last() == c);
    if '0' <= c && c <= '9' {
        assert(digit_value(c, 10) == Some((c as u32 - 48) as nat));
        assert forall|i: int| 0 <= i < longer.len() implies #[trigger] digit_value(longer[i], 10)
            is Some by {
            if i < body.len() {
                assert(longer[i] == body[i]);
            }
        }
    } else {
        assert(digit_value(longer[longer.len() - 1], 10) is None);
    }
}

/// A digit alone is a number; nothing at all is none, and neither is anything that
/// is no digit.
pub proof fn single_digits_are_numbers(c: char, max: nat)
    requires
        max >= 9,
    ensures
        parsed(Seq::<char>::empty(), 10, max) is None,
        '0' <= c && c <= '9' ==> parsed(seq![c], 10, max) == Some((c as u32 - 48) as nat),
        !('0' <= c && c <= '9') ==> parsed(seq![c], 10, max) is None,
{
    let s = seq![c];
    reveal_with_fuel(digits_value, 2);
    if '0' <= c && c <= '9' {
        assert(digit_value(c, 10) == Some((c as u32 - 48) as nat));
        assert(s.drop_last() =~= Seq::<char>::empty());
        assert(all_digits(s, 10));
    } else if c != '+' {
        assert(digit_value(s[0], 10) is None);
        assert(!all_digits(s, 10));
    } else {
        assert(s.skip(1).len() == 0);
    }
}

/// A minus sign in front turns a number into its opposite.
pub proof fn minus_signs_negate(s: Seq<char>, max: nat, n: nat)
    requires
        s.len() > 0,
        s[0] != '+',
        parsed(s, 10, max + 1) == Some(n),
    ensures
        parsed_signed(seq!['-'] + s, max) == Some(-(n as int)),
        n <= max && s[0] != '-' ==> parsed_signed(s, max) == Some(n as int),
{
    assert((seq!['-'] + s).skip(1) =~= s);
}

/// The signed number with the same bits differs by all or nothing of their range.
pub proof fn signed_numbers_keep_their_bits(n: u32)
    ensures
        n <= i32::MAX ==> wrapped(n) == n,
        n > i32::MAX ==> wrapped(n) == n - 4294967296,
{
}

} // verus!
