//! Numbers read as signed or unsigned with their bits unchanged, as a store
//! keeps unsigned numbers in signed columns.

use vstd::prelude::*;

verus! {

/// The signed 32-bit number with the same bits as an unsigned one.
pub open spec fn signed_32(value: nat) -> int {
    if value < 0x8000_0000 {
        value as int
    } else {
        value - 0x1_0000_0000
    }
}

/// The signed 64-bit number with the same bits as an unsigned one.
pub open spec fn signed_64(value: nat) -> int {
    if value < 0x8000_0000_0000_0000 {
        value as int
    } else {
        value - 0x1_0000_0000_0000_0000
    }
}

/// The unsigned 32-bit number with the same bits as a signed one.
pub open spec fn unsigned_32(value: int) -> int {
    if value >= 0 {
        value
    } else {
        value + 0x1_0000_0000
    }
}

/// The unsigned 64-bit number with the same bits as a signed one.
pub open spec fn unsigned_64(value: int) -> int {
    if value >= 0 {
        value
    } else {
        value + 0x1_0000_0000_0000_0000
    }
}

/// Reads the bits of an unsigned 32-bit number as a signed one.
pub fn to_signed_32(value: u32) -> (signed: i32)
    ensures
        signed == signed_32(value as nat),
{
    if value < 0x8000_0000 {
        value as i32
    } else {
        (value as i64 - 0x1_0000_0000) as i32
    }
}

/// Reads the bits of an unsigned 64-bit number as a signed one.
pub fn to_signed_64(value: u64) -> (signed: i64)
    ensures
        signed == signed_64(value as nat),
{
    if value < 0x8000_0000_0000_0000 {
        value as i64
    } else {
        (value - 0x8000_0000_0000_0000) as i64 + i64::MIN
    }
}

/// Reads the bits of a signed 32-bit number as an unsigned one.
pub fn to_unsigned_32(value: i32) -> (unsigned: u32)
    ensures
        unsigned == unsigned_32(value as int),
{
    if value >= 0 {
        value as u32
    } else {
        (value as i64 + 0x1_0000_0000) as u32
    }
}

/// Reads the bits of a signed 64-bit number as an unsigned one.
pub fn to_unsigned_64(value: i64) -> (unsigned: u64)
    ensures
        unsigned == unsigned_64(value as int),
{
    if value >= 0 {
        value as u64
    } else {
        (value - i64::MIN) as u64 + 0x8000_0000_0000_0000
    }
}

/// Reading a number as signed and back as unsigned gives the number.
pub proof fn lemma_signed_round_trip(value: nat)
    ensures
        value < 0x1_0000_0000 ==> unsigned_32(signed_32(value)) == value,
        value < 0x1_0000_0000_0000_0000 ==> unsigned_64(signed_64(value)) == value,
{
}

} // verus!
