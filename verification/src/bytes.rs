//! Little-endian numbers and fixed-size fields in byte sequences.

use vstd::arithmetic::div_mod::lemma_mod_breakdown;
use vstd::prelude::*;

verus! {

/// The number that `bytes` write in little-endian order.
pub open spec fn le_value(bytes: Seq<u8>) -> nat
    decreases bytes.len(),
{
    if bytes.len() == 0 {
        0
    } else {
        bytes[0] as nat + 256 * le_value(bytes.drop_first())
    }
}

/// The `n` low bytes of `v`, in little-endian order.
pub open spec fn le_bytes(v: nat, n: nat) -> Seq<u8>
    decreases n,
{
    if n == 0 {
        Seq::empty()
    } else {
        seq![(v % 256) as u8] + le_bytes(v / 256, (n - 1) as nat)
    }
}

/// How many values `n` bytes can hold.
pub open spec fn byte_span(n: nat) -> nat
    decreases n,
{
    if n == 0 {
        1
    } else {
        256 * byte_span((n - 1) as nat)
    }
}

/// A number below 2^64 read as a two's complement integer.
pub open spec fn signed64(v: nat) -> int {
    if v < 0x8000_0000_0000_0000 {
        v as int
    } else {
        v - 0x1_0000_0000_0000_0000
    }
}

/// A two's complement integer as a number below 2^64.
pub open spec fn unsigned64(v: int) -> nat {
    if v >= 0 {
        v as nat
    } else {
        (v + 0x1_0000_0000_0000_0000) as nat
    }
}

/// What some bytes write is below what they can hold.
pub proof fn lemma_le_value_bound(bytes: Seq<u8>)
    ensures
        le_value(bytes) < byte_span(bytes.len()),
    decreases bytes.len(),
{
    if bytes.len() > 0 {
        lemma_le_value_bound(bytes.drop_first());
    }
}

/// What four, seven and eight bytes can hold.
pub proof fn lemma_byte_spans()
    ensures
        byte_span(4) == 0x1_0000_0000,
        byte_span(7) == 0x100_0000_0000_0000,
        byte_span(8) == 0x1_0000_0000_0000_0000,
{
    reveal_with_fuel(byte_span, 9);
}

/// More bytes hold more.
pub proof fn lemma_byte_span_grows(m: nat, n: nat)
    requires
        m <= n,
    ensures
        byte_span(m) <= byte_span(n),
    decreases n,
{
    if m < n {
        lemma_byte_span_grows(m, (n - 1) as nat);
    }
}

/// A number is read back from the bytes it was written in, as far as they hold it: what they cannot
/// hold is left out.
pub proof fn le_bytes_read_back(v: nat, n: nat)
    ensures
        le_bytes(v, n).len() == n,
        le_value(le_bytes(v, n)) == v % byte_span(n),
        v < byte_span(n) ==> le_value(le_bytes(v, n)) == v,
    decreases n,
{
    lemma_byte_span_grows(0, n);
    if n == 0 {
        assert(v % 1 == 0);
    } else {
        let m = byte_span((n - 1) as nat);
        lemma_byte_span_grows(0, (n - 1) as nat);
        lemma_mod_breakdown(v as int, 256, m as int);
        le_bytes_read_back(v / 256, (n - 1) as nat);
        assert(le_bytes(v, n).drop_first() =~= le_bytes(v / 256, (n - 1) as nat));
    }
}

/// Reads a number of at most eight bytes.
fn read_le(data: &[u8], at: usize, width: usize) -> (r: u64)
    requires
        width <= 8,
        at + width <= data@.len(),
    ensures
        r == le_value(data@.subrange(at as int, at + width)),
{
    let len: usize = data.len();
    let ghost field = data@.subrange(at as int, at + width);
    let mut i: usize = width;
    let mut value: u64 = 0;
    assert(field.skip(width as int) =~= Seq::<u8>::empty());
    while i > 0
        invariant
            i <= width <= 8,
            len == data@.len(),
            at + width <= len,
            field == data@.subrange(at as int, at + width),
            value == le_value(field.skip(i as int)),
        decreases i,
    {
        proof {
            lemma_le_value_bound(field.skip(i as int));
            lemma_byte_spans();
            lemma_byte_span_grows((width - i) as nat, 7);
            assert(field.skip(i - 1).drop_first() =~= field.skip(i as int));
        }
        i = i - 1;
        value = data[at + i] as u64 + 256 * value;
    }
    assert(field.skip(0) =~= field);
    value
}

/// Reads the 8-byte number at `at`.
pub fn read_u64(data: &[u8], at: usize) -> (r: u64)
    requires
        at + 8 <= data@.len(),
    ensures
        r == le_value(data@.subrange(at as int, at + 8)),
{
    read_le(data, at, 8)
}

/// Reads the 4-byte number at `at`.
pub fn read_u32(data: &[u8], at: usize) -> (r: u32)
    requires
        at + 4 <= data@.len(),
    ensures
        r == le_value(data@.subrange(at as int, at + 4)),
{
    let value: u64 = read_le(data, at, 4);
    proof {
        lemma_le_value_bound(data@.subrange(at as int, at + 4));
        lemma_byte_spans();
    }
    value as u32
}

/// Reads the 8-byte two's complement integer at `at`.
pub fn read_i64(data: &[u8], at: usize) -> (r: i64)
    requires
        at + 8 <= data@.len(),
    ensures
        r == signed64(le_value(data@.subrange(at as int, at + 8))),
{
    let value: u64 = read_le(data, at, 8);
    if value < 0x8000_0000_0000_0000 {
        value as i64
    } else {
        -((u64::MAX - value) as i64) - 1
    }
}

/// Reads the 32 bytes at `at`.
pub fn read_array32(data: &[u8], at: usize) -> (r: [u8; 32])
    requires
        at + 32 <= data@.len(),
    ensures
        r@ == data@.subrange(at as int, at + 32),
{
    let len: usize = data.len();
    let mut out: [u8; 32] = [0u8; 32];
    let mut i: usize = 0;
    while i < 32
        invariant
            i <= 32,
            len == data@.len(),
            at + 32 <= len,
            forall|j: int| 0 <= j < i ==> out@[j] == data@[at + j],
        decreases 32 - i,
    {
        out[i] = data[at + i];
        i = i + 1;
    }
    assert(out@ =~= data@.subrange(at as int, at + 32));
    out
}

/// Writes the four low bytes of a number, in little-endian order.
pub fn low_u32_le(v: u64) -> (r: Vec<u8>)
    ensures
        r@ == le_bytes(v as nat, 4),
{
    let mut out: Vec<u8> = Vec::new();
    out.push((v % 256) as u8);
    out.push((v / 256 % 256) as u8);
    out.push((v / 256 / 256 % 256) as u8);
    out.push((v / 256 / 256 / 256 % 256) as u8);
    proof {
        reveal_with_fuel(le_bytes, 5);
    }
    assert(out@ =~= le_bytes(v as nat, 4));
    out
}

/// The first byte weighs least: each byte counts 256 times as much as the one before it.
pub proof fn first_byte_weighs_least(bytes: Seq<u8>)
    ensures
        bytes.len() == 4 ==> le_value(bytes) == bytes[0] + bytes[1] * 0x100 + bytes[2] * 0x1_0000
            + bytes[3] * 0x100_0000,
        bytes.len() == 8 ==> le_value(bytes) == bytes[0] + bytes[1] * 0x100 + bytes[2] * 0x1_0000
            + bytes[3] * 0x100_0000 + bytes[4] * 0x1_0000_0000 + bytes[5] * 0x100_0000_0000
            + bytes[6] * 0x1_0000_0000_0000 + bytes[7] * 0x100_0000_0000_0000,
{
    reveal_with_fuel(le_value, 9);
}

/// A two's complement integer and the number that stores it differ by nothing, or by 2^64 where it
/// is negative.
pub proof fn stored_sign_is_read_back(v: int)
    requires
        -0x8000_0000_0000_0000 <= v < 0x8000_0000_0000_0000,
    ensures
        signed64(unsigned64(v)) == v,
        unsigned64(v) < 0x1_0000_0000_0000_0000,
        v >= 0 ==> unsigned64(v) == v,
        v < 0 ==> unsigned64(v) == v + 0x1_0000_0000_0000_0000,
{
}

/// The bytes are written back from the number that they write.
pub proof fn le_value_writes_back(bytes: Seq<u8>)
    ensures
        le_bytes(le_value(bytes), bytes.len()) == bytes,
    decreases bytes.len(),
{
    if bytes.len() > 0 {
        let rest = bytes.drop_first();
        le_value_writes_back(rest);
        assert(le_value(bytes) / 256 == le_value(rest));
        assert(le_value(bytes) % 256 == bytes[0]);
        assert(seq![bytes[0]] + rest =~= bytes);
    } else {
        assert(le_bytes(0, 0) =~= bytes);
    }
}

} // verus!
