//! Fixed-width little-endian integers, as the record and the instruction
//! payload store them.

use vstd::prelude::*;

verus! {

/// The number that a byte string denotes when its first byte is the least
/// significant one.
pub open spec fn le_value(bytes: Seq<u8>) -> nat
    decreases bytes.len(),
{
    if bytes.len() == 0 {
        0
    } else {
        bytes[0] as nat + 256 * le_value(bytes.drop_first())
    }
}

/// The `width` lowest base-256 digits of `n`, least significant first.
pub open spec fn le_bytes(n: nat, width: nat) -> Seq<u8>
    decreases width,
{
    if width == 0 {
        Seq::empty()
    } else {
        seq![(n % 256) as u8] + le_bytes(n / 256, (width - 1) as nat)
    }
}

/// 256 to the power `width`: the number of values that `width` bytes can hold.
pub open spec fn radix(width: nat) -> nat
    decreases width,
{
    if width == 0 {
        1
    } else {
        256 * radix((width - 1) as nat)
    }
}

/// The unsigned number whose 64-bit pattern is the two's complement of `t`.
pub open spec fn to_unsigned(t: int) -> nat {
    if t < 0 {
        (t + 0x1_0000_0000_0000_0000) as nat
    } else {
        t as nat
    }
}

/// The signed number that the 64-bit pattern `n` stands for in two's
/// complement.
pub open spec fn to_signed(n: nat) -> int {
    if n >= 0x8000_0000_0000_0000 {
        n - 0x1_0000_0000_0000_0000
    } else {
        n as int
    }
}

/// Eight bytes hold exactly the numbers below 2^64.
pub proof fn lemma_radix_8()
    ensures
        radix(8) == 0x1_0000_0000_0000_0000,
{
    reveal_with_fuel(radix, 9);
}

/// `le_bytes` yields exactly `width` bytes.
pub proof fn lemma_le_bytes_len(n: nat, width: nat)
    ensures
        le_bytes(n, width).len() == width,
    decreases width,
{
    if width > 0 {
        lemma_le_bytes_len(n / 256, (width - 1) as nat);
    }
}

/// A byte string denotes a number below 256 to the power of its length.
pub proof fn lemma_le_value_bound(bytes: Seq<u8>)
    ensures
        le_value(bytes) < radix(bytes.len()),
    decreases bytes.len(),
{
    if bytes.len() > 0 {
        lemma_le_value_bound(bytes.drop_first());
    }
}

/// Reading back the digits of a number that fits in `width` bytes gives the
/// number.
pub proof fn lemma_le_value_of_bytes(n: nat, width: nat)
    requires
        n < radix(width),
    ensures
        le_value(le_bytes(n, width)) == n,
    decreases width,
{
    if width > 0 {
        let rest = le_bytes(n / 256, (width - 1) as nat);
        lemma_le_value_of_bytes(n / 256, (width - 1) as nat);
        assert(le_bytes(n, width).drop_first() =~= rest);
    }
}

/// Writing out the number that a byte string denotes gives the byte string.
pub proof fn lemma_le_bytes_of_value(bytes: Seq<u8>)
    ensures
        le_bytes(le_value(bytes), bytes.len()) == bytes,
    decreases bytes.len(),
{
    if bytes.len() > 0 {
        let tail = bytes.drop_first();
        lemma_le_bytes_of_value(tail);
        let n = le_value(bytes);
        assert(n % 256 == bytes[0] as nat && n / 256 == le_value(tail));
        assert(le_bytes(n, bytes.len()) =~= bytes);
    } else {
        assert(le_bytes(le_value(bytes), bytes.len()) =~= bytes);
    }
}

/// Two's complement loses nothing on the 64-bit signed range.
pub proof fn lemma_signed_round_trip(t: int)
    requires
        i64::MIN <= t <= i64::MAX,
    ensures
        to_unsigned(t) <= u64::MAX,
        to_signed(to_unsigned(t)) == t,
{
}

/// Every 64-bit pattern stands for one signed number of the 64-bit range.
pub proof fn lemma_unsigned_round_trip(n: nat)
    requires
        n <= u64::MAX,
    ensures
        i64::MIN <= to_signed(n) <= i64::MAX,
        to_unsigned(to_signed(n)) == n,
{
}

/// Reads the eight bytes at `offset` as an unsigned little-endian number.
pub fn read_u64(src: &[u8], offset: usize) -> (value: u64)
    requires
        offset + 8 <= src@.len(),
    ensures
        value == le_value(src@.subrange(offset as int, offset + 8)),
{
    let ghost field = src@.subrange(offset as int, offset + 8);
    let mut value: u64 = 0;
    let mut i: usize = 8;
    proof {
        assert(field.subrange(8, 8) =~= Seq::<u8>::empty());
        assert(src@.len() == src.len());
    }
    while i > 0
        invariant
            i <= 8,
            offset + 8 <= src@.len() <= usize::MAX,
            field == src@.subrange(offset as int, offset + 8),
            value == le_value(field.subrange(i as int, 8)),
        decreases i,
    {
        i = i - 1;
        let ghost upper = field.subrange(i + 1, 8);
        let ghost lower = field.subrange(i as int, 8);
        proof {
            assert(lower.drop_first() =~= upper);
            lemma_le_value_bound(lower);
            lemma_radix_8();
            lemma_radix_monotone(lower.len(), 8);
        }
        value = value * 256 + src[offset + i] as u64;
    }
    proof {
        assert(field.subrange(0, 8) =~= field);
    }
    value
}

/// A longer byte string can hold at least as many values.
pub proof fn lemma_radix_monotone(a: nat, b: nat)
    requires
        a <= b,
    ensures
        radix(a) <= radix(b),
    decreases b,
{
    if a < b {
        lemma_radix_monotone(a, (b - 1) as nat);
    }
}

/// Writes `value` into the eight bytes at `offset`, least significant byte
/// first, and leaves every other byte as it was.
pub fn write_u64(dst: &mut [u8], offset: usize, value: u64)
    requires
        offset + 8 <= old(dst)@.len(),
    ensures
        final(dst)@.len() == old(dst)@.len(),
        final(dst)@.subrange(offset as int, offset + 8) == le_bytes(value as nat, 8),
        forall|j: int|
            0 <= j < old(dst)@.len() && !(offset <= j < offset + 8) ==> final(dst)@[j] == old(
                dst,
            )@[j],
{
    let mut rest: u64 = value;
    let mut i: usize = 0;
    proof {
        assert(dst@.len() == dst.len());
        assert(dst@.subrange(offset as int, offset as int) + le_bytes(value as nat, 8)
            =~= le_bytes(value as nat, 8));
    }
    while i < 8
        invariant
            i <= 8,
            offset + 8 <= dst@.len() <= usize::MAX,
            dst@.len() == old(dst)@.len(),
            dst@.subrange(offset as int, offset + i) + le_bytes(rest as nat, (8 - i) as nat)
                == le_bytes(value as nat, 8),
            forall|j: int|
                0 <= j < dst@.len() && !(offset <= j < offset + 8) ==> dst@[j] == old(dst)@[j],
        decreases 8 - i,
    {
        let ghost before = dst@;
        let digit: u8 = (rest % 256) as u8;
        dst[offset + i] = digit;
        proof {
            let tail = le_bytes((rest / 256) as nat, (8 - i - 1) as nat);
            assert(le_bytes(rest as nat, (8 - i) as nat) == seq![digit] + tail);
            assert(dst@.subrange(offset as int, offset + i + 1) =~= before.subrange(
                offset as int,
                offset + i,
            ) + seq![digit]);
            assert(dst@.subrange(offset as int, offset + i + 1) + tail =~= before.subrange(
                offset as int,
                offset + i,
            ) + (seq![digit] + tail));
        }
        rest = rest / 256;
        i = i + 1;
    }
    proof {
        assert(le_bytes(rest as nat, 0) =~= Seq::<u8>::empty());
        assert(dst@.subrange(offset as int, offset + 8) + Seq::<u8>::empty() =~= dst@.subrange(
            offset as int,
            offset + 8,
        ));
    }
}

/// The 64-bit pattern of a signed number, as an unsigned one.
pub fn unsigned_of(t: i64) -> (n: u64)
    ensures
        n == to_unsigned(t as int),
{
    if t >= 0 {
        t as u64
    } else {
        let lifted: i64 = t + i64::MAX + 1;
        lifted as u64 + 0x8000_0000_0000_0000u64
    }
}

/// The signed number that a 64-bit pattern stands for.
pub fn signed_of(n: u64) -> (t: i64)
    ensures
        t == to_signed(n as nat),
{
    if n < 0x8000_0000_0000_0000u64 {
        n as i64
    } else {
        let lowered: u64 = n - 0x8000_0000_0000_0000u64;
        lowered as i64 + i64::MIN
    }
}

} // verus!
