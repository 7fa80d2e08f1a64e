//! Instruction encodings of the target: a 32-bit little-endian Thumb-style
//! instruction set whose instructions are two or four bytes wide.

use vstd::prelude::*;

verus! {

/// Low byte of the two-byte no-operation instruction.
pub const NOP_LOW: u8 = 0x00;

/// High byte of the two-byte no-operation instruction.
pub const NOP_HIGH: u8 = 0xBF;

/// Low byte of the two-byte "return immediately" instruction (`bx lr`).
pub const RET_LOW: u8 = 0x70;

/// High byte of the two-byte "return immediately" instruction (`bx lr`).
pub const RET_HIGH: u8 = 0x47;

/// A halfword is the first half of a four-byte instruction exactly when its
/// high byte is at least `0xE8`: the bit patterns `0b11101xxx` and
/// `0b1111xxxx` (see [`lemma_wide_bit_patterns`]).
pub open spec fn is_wide(high: u8) -> bool {
    high >= 0xE8
}

/// Width in bytes of the instruction whose first halfword has the given high
/// byte.
pub open spec fn spec_cmd_size(high: u8) -> nat {
    if is_wide(high) {
        4
    } else {
        2
    }
}

/// The byte at offset `i` of a run of no-operation instructions.
pub open spec fn nop_byte(i: int) -> u8 {
    if i % 2 == 0 {
        NOP_LOW
    } else {
        NOP_HIGH
    }
}

/// `len` bytes of no-operation instructions.
pub open spec fn nop_fill(len: nat) -> Seq<u8> {
    Seq::new(len, |i: int| nop_byte(i))
}

/// The two bytes of the "return immediately" instruction, in memory order.
pub open spec fn ret_encoding() -> Seq<u8> {
    seq![RET_LOW, RET_HIGH]
}

/// The classifier's rule written over bit patterns: the top five bits are
/// `0b11101`, or the top four bits are `0b1111`.
pub proof fn lemma_wide_bit_patterns(high: u8)
    ensures
        is_wide(high) <==> (high & 0xF8 == 0xE8 || high & 0xF0 == 0xF0),
{
    assert(high >= 0xE8u8 <==> (high & 0xF8 == 0xE8 || high & 0xF0 == 0xF0)) by (bit_vector);
}

/// Classifies the little-endian halfword `low`, `high` that starts an
/// instruction: 4 for the first half of a four-byte instruction, else 2.
pub fn cmd_size(low: u8, high: u8) -> (size: usize)
    ensures
        size == spec_cmd_size(high),
        size == 4 <==> (high & 0xF8 == 0xE8 || high & 0xF0 == 0xF0),
        size == 2 || size == 4,
{
    proof {
        lemma_wide_bit_patterns(high);
    }
    if (high & 0xF8 == 0xE8) || (high & 0xF0 == 0xF0) {
        4
    } else {
        2
    }
}

/// The bytes that replace `len` bytes of instructions by no-operations.
pub fn nop_bytes(len: usize) -> (bytes: Vec<u8>)
    ensures
        bytes@ == nop_fill(len as nat),
{
    let mut bytes: Vec<u8> = Vec::new();
    let mut i: usize = 0;
    while i < len
        invariant
            i <= len,
            bytes@ == nop_fill(i as nat),
        decreases len - i,
    {
        let b: u8 = if i % 2 == 0 {
            NOP_LOW
        } else {
            NOP_HIGH
        };
        bytes.push(b);
        i = i + 1;
        assert(bytes@ =~= nop_fill(i as nat));
    }
    bytes
}

/// The bytes of the "return immediately" instruction.
pub fn ret_bytes() -> (bytes: Vec<u8>)
    ensures
        bytes@ == ret_encoding(),
{
    let mut bytes: Vec<u8> = Vec::new();
    bytes.push(RET_LOW);
    bytes.push(RET_HIGH);
    assert(bytes@ =~= ret_encoding());
    bytes
}

} // verus!
