//! Big-endian integers.

use vstd::prelude::*;

verus! {

/// The number that a run of bytes denotes, most significant byte first.
pub open spec fn be_value(s: Seq<u8>) -> nat
    decreases s.len(),
{
    if s.len() == 0 {
        0
    } else {
        be_value(s.drop_last()) * 256 + s.last() as nat
    }
}

/// The `n` low-order bytes of `v`, most significant byte first.
pub open spec fn be_bytes(v: nat, n: nat) -> Seq<u8>
    decreases n,
{
    if n == 0 {
        Seq::empty()
    } else {
        be_bytes(v / 256, (n - 1) as nat).push((v % 256) as u8)
    }
}

/// How many values `n` bytes can hold.
pub open spec fn capacity(n: nat) -> nat
    decreases n,
{
    if n == 0 {
        1
    } else {
        256 * capacity((n - 1) as nat)
    }
}

pub broadcast proof fn lemma_be_bytes_len(v: nat, n: nat)
    ensures
        #[trigger] be_bytes(v, n).len() == n,
    decreases n,
{
    if n > 0 {
        lemma_be_bytes_len(v / 256, (n - 1) as nat);
    }
}

/// Reading back what was written gives the number that was written.
pub proof fn be_bytes_round_trip(v: nat, n: nat)
    requires
        v < capacity(n),
    ensures
        be_value(be_bytes(v, n)) == v,
    decreases n,
{
    if n > 0 {
        be_bytes_round_trip(v / 256, (n - 1) as nat);
        let head = be_bytes(v / 256, (n - 1) as nat);
        assert(be_bytes(v, n).drop_last() =~= head);
    }
}

/// Writing back what was read gives the bytes that were read.
pub proof fn be_value_round_trip(s: Seq<u8>)
    ensures
        be_bytes(be_value(s), s.len()) == s,
        be_value(s) < capacity(s.len()),
    decreases s.len(),
{
    if s.len() > 0 {
        be_value_round_trip(s.drop_last());
        assert(be_bytes(be_value(s), s.len()) =~= s.drop_last().push(s.last()));
        assert(s.drop_last().push(s.last()) =~= s);
    } else {
        assert(be_bytes(be_value(s), s.len()) =~= s);
    }
}

pub proof fn lemma_capacities()
    ensures
        capacity(1) == 0x100,
        capacity(2) == 0x1_0000,
        capacity(4) == 0x1_0000_0000,
        capacity(8) == 0x1_0000_0000_0000_0000,
{
    reveal_with_fuel(capacity, 9);
}

/// The two bytes of `v`.
pub fn be16(v: u16) -> (r: [u8; 2])
    ensures
        r@ == be_bytes(v as nat, 2),
{
    let r = [(v / 256) as u8, (v % 256) as u8];
    proof {
        reveal_with_fuel(be_bytes, 3);
        assert(r@ =~= be_bytes(v as nat, 2));
    }
    r
}

/// The four bytes of `v`.
pub fn be32(v: u32) -> (r: [u8; 4])
    ensures
        r@ == be_bytes(v as nat, 4),
{
    let v1: u32 = v / 256;
    let v2: u32 = v1 / 256;
    let v3: u32 = v2 / 256;
    let r = [(v3 % 256) as u8, (v2 % 256) as u8, (v1 % 256) as u8, (v % 256) as u8];
    proof {
        lemma_be_step(v as nat, 4);
        lemma_be_step(v1 as nat, 3);
        lemma_be_step(v2 as nat, 2);
        lemma_be_step(v3 as nat, 1);
        assert(r@ =~= be_bytes(v as nat, 4));
    }
    r
}

/// The eight bytes of `v`.
pub fn be64(v: u64) -> (r: [u8; 8])
    ensures
        r@ == be_bytes(v as nat, 8),
{
    let v1: u64 = v / 256;
    let v2: u64 = v1 / 256;
    let v3: u64 = v2 / 256;
    let v4: u64 = v3 / 256;
    let v5: u64 = v4 / 256;
    let v6: u64 = v5 / 256;
    let v7: u64 = v6 / 256;
    let r = [
        (v7 % 256) as u8,
        (v6 % 256) as u8,
        (v5 % 256) as u8,
        (v4 % 256) as u8,
        (v3 % 256) as u8,
        (v2 % 256) as u8,
        (v1 % 256) as u8,
        (v % 256) as u8,
    ];
    proof {
        lemma_be_step(v as nat, 8);
        lemma_be_step(v1 as nat, 7);
        lemma_be_step(v2 as nat, 6);
        lemma_be_step(v3 as nat, 5);
        lemma_be_step(v4 as nat, 4);
        lemma_be_step(v5 as nat, 3);
        lemma_be_step(v6 as nat, 2);
        lemma_be_step(v7 as nat, 1);
        assert(r@ =~= be_bytes(v as nat, 8));
    }
    r
}

proof fn lemma_be_step(v: nat, n: nat)
    requires
        n > 0,
    ensures
        be_bytes(v, n) == be_bytes(v / 256, (n - 1) as nat).push((v % 256) as u8),
        be_bytes(v, n).len() == n,
        n == 1 ==> be_bytes(v, n) == seq![(v % 256) as u8],
{
    lemma_be_bytes_len(v, n);
    if n == 1 {
        assert(be_bytes(v, n) =~= seq![(v % 256) as u8]);
    }
}

/// The number in the `n` bytes that start at `at`.
pub fn read_be(buf: &[u8], at: usize, n: usize) -> (r: u64)
    requires
        at + n <= buf@.len(),
        n <= 8,
    ensures
        r == be_value(buf@.subrange(at as int, at + n)),
    decreases n,
{
    let len: usize = buf.len();
    assert(at + n <= len);
    if n == 0 {
        0
    } else {
        let head: u64 = read_be(buf, at, n - 1);
        let last: u8 = buf[at + (n - 1)];
        proof {
            let whole = buf@.subrange(at as int, at + n);
            assert(whole.drop_last() =~= buf@.subrange(at as int, at + n - 1));
            be_value_round_trip(whole);
            lemma_capacity_small(n as nat);
        }
        head * 256 + last as u64
    }
}

/// The number in the two bytes that start at `at`.
pub fn read_u16(buf: &[u8], at: usize) -> (r: u16)
    requires
        at + 2 <= buf@.len(),
    ensures
        r == be_value(buf@.subrange(at as int, at + 2)),
{
    proof {
        be_value_round_trip(buf@.subrange(at as int, at + 2));
        lemma_capacities();
    }
    read_be(buf, at, 2) as u16
}

/// The number in the four bytes that start at `at`.
pub fn read_u32(buf: &[u8], at: usize) -> (r: u32)
    requires
        at + 4 <= buf@.len(),
    ensures
        r == be_value(buf@.subrange(at as int, at + 4)),
{
    proof {
        be_value_round_trip(buf@.subrange(at as int, at + 4));
        lemma_capacities();
    }
    read_be(buf, at, 4) as u32
}

/// The number in the eight bytes that start at `at`.
pub fn read_u64(buf: &[u8], at: usize) -> (r: u64)
    requires
        at + 8 <= buf@.len(),
    ensures
        r == be_value(buf@.subrange(at as int, at + 8)),
{
    read_be(buf, at, 8)
}

proof fn lemma_capacity_small(n: nat)
    requires
        n <= 8,
    ensures
        capacity(n) <= 0x1_0000_0000_0000_0000,
{
    reveal_with_fuel(capacity, 9);
}

} // verus!
