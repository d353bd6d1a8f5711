//! Little-endian integers as byte sequences.

use vstd::prelude::*;

verus! {

/// The number that `bytes` spell, least significant byte first.
pub open spec fn le_value(bytes: Seq<u8>) -> nat
    decreases bytes.len(),
{
    if bytes.len() == 0 {
        0
    } else {
        bytes[0] as nat + 256 * le_value(bytes.drop_first())
    }
}

/// The low `width` bytes of `value`, least significant byte first.
pub open spec fn le_bytes(value: nat, width: nat) -> Seq<u8>
    decreases width,
{
    if width == 0 {
        Seq::empty()
    } else {
        seq![(value % 256) as u8] + le_bytes(value / 256, (width - 1) as nat)
    }
}

/// How many numbers `width` bytes can spell.
pub open spec fn le_capacity(width: nat) -> nat
    decreases width,
{
    if width == 0 {
        1
    } else {
        256 * le_capacity((width - 1) as nat)
    }
}

/// The two's complement pattern of a signed 64-bit integer, as a number.
pub open spec fn i64_pattern(value: i64) -> nat {
    if value >= 0 {
        value as nat
    } else {
        (value + 0x1_0000_0000_0000_0000) as nat
    }
}

/// The signed 64-bit integer whose two's complement pattern is `pattern`.
pub open spec fn i64_of_pattern(pattern: nat) -> i64 {
    if pattern <= i64::MAX {
        pattern as i64
    } else {
        (pattern - 0x1_0000_0000_0000_0000) as i64
    }
}

/// Writing `value` takes exactly `width` bytes, and reading them back gives
/// `value` whenever it fits.
pub proof fn lemma_le_write_then_read(value: nat, width: nat)
    ensures
        le_bytes(value, width).len() == width,
        value < le_capacity(width) ==> le_value(le_bytes(value, width)) == value,
    decreases width,
{
    if width > 0 {
        let rest = le_bytes(value / 256, (width - 1) as nat);
        lemma_le_write_then_read(value / 256, (width - 1) as nat);
        assert(le_bytes(value, width).drop_first() =~= rest);
    }
}

/// Reading bytes and writing the number back gives the same bytes, and the
/// number is one that so many bytes can spell.
pub proof fn lemma_le_read_then_write(bytes: Seq<u8>)
    ensures
        le_bytes(le_value(bytes), bytes.len()) == bytes,
        le_value(bytes) < le_capacity(bytes.len()),
    decreases bytes.len(),
{
    if bytes.len() > 0 {
        let rest = bytes.drop_first();
        lemma_le_read_then_write(rest);
        assert(le_value(bytes) / 256 == le_value(rest));
        assert(le_value(bytes) % 256 == bytes[0]);
        assert(le_bytes(le_value(bytes), bytes.len()) =~= bytes);
    } else {
        assert(le_bytes(le_value(bytes), bytes.len()) =~= bytes);
    }
}

/// Eight bytes spell exactly the unsigned 64-bit integers.
pub proof fn lemma_le_capacity_of_u64()
    ensures
        le_capacity(8) == 0x1_0000_0000_0000_0000,
{
    reveal_with_fuel(le_capacity, 9);
}

/// Four bytes spell exactly the unsigned 32-bit integers.
pub proof fn lemma_le_capacity_of_u32()
    ensures
        le_capacity(4) == 0x1_0000_0000,
{
    reveal_with_fuel(le_capacity, 5);
}

/// The eight little-endian bytes of `value`.
pub fn u64_to_le(value: u64) -> (bytes: Vec<u8>)
    ensures
        bytes@ == le_bytes(value as nat, 8),
{
    let mut bytes: Vec<u8> = Vec::new();
    let mut rest: u64 = value;
    let mut left: usize = 8;
    while left > 0
        invariant
            left <= 8,
            bytes@ + le_bytes(rest as nat, left as nat) == le_bytes(value as nat, 8),
        decreases left,
    {
        let ghost tail = le_bytes(rest as nat, left as nat);
        let ghost before = bytes@;
        let byte: u8 = (rest % 256) as u8;
        bytes.push(byte);
        rest = rest / 256;
        left = left - 1;
        assert(tail == seq![byte] + le_bytes(rest as nat, left as nat));
        assert(bytes@ + le_bytes(rest as nat, left as nat) =~= before + tail);
    }
    assert(bytes@ + le_bytes(rest as nat, 0) =~= bytes@);
    bytes
}

/// The number that eight little-endian bytes spell.
pub fn u64_from_le(bytes: &[u8]) -> (value: u64)
    requires
        bytes@.len() == 8,
    ensures
        value == le_value(bytes@),
{
    let mut value: u64 = 0;
    let mut left: usize = 8;
    proof {
        assert(bytes@.skip(8) =~= Seq::<u8>::empty());
        lemma_le_capacity_of_u64();
    }
    while left > 0
        invariant
            left <= 8,
            bytes@.len() == 8,
            value == le_value(bytes@.skip(left as int)),
            le_capacity(8) == 0x1_0000_0000_0000_0000,
        decreases left,
    {
        let ghost tail = bytes@.skip(left as int);
        left = left - 1;
        proof {
            let longer = bytes@.skip(left as int);
            assert(longer.drop_first() =~= tail);
            lemma_le_read_then_write(longer);
            lemma_le_capacity_grows(longer.len(), 8);
        }
        value = value * 256 + bytes[left] as u64;
    }
    assert(bytes@.skip(0) =~= bytes@);
    value
}

/// More bytes spell at least as many numbers.
proof fn lemma_le_capacity_grows(narrow: nat, wide: nat)
    requires
        narrow <= wide,
    ensures
        le_capacity(narrow) <= le_capacity(wide),
    decreases wide,
{
    if narrow < wide {
        lemma_le_capacity_grows(narrow, (wide - 1) as nat);
    }
}

/// The two's complement pattern of `value`.
pub fn i64_to_pattern(value: i64) -> (pattern: u64)
    ensures
        pattern == i64_pattern(value),
{
    if value >= 0 {
        value as u64
    } else {
        u64::MAX - (-(value + 1)) as u64
    }
}

/// The signed integer whose two's complement pattern is `pattern`.
pub fn i64_from_pattern(pattern: u64) -> (value: i64)
    ensures
        value == i64_of_pattern(pattern as nat),
        i64_pattern(value) == pattern,
{
    if pattern <= 0x7fff_ffff_ffff_ffff {
        pattern as i64
    } else {
        -((u64::MAX - pattern) as i64) - 1
    }
}

} // verus!
