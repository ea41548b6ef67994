//! Integers out of the bytes that sensors send.
use vstd::prelude::*;

verus! {

/// The unsigned number that a low and a high byte make.
pub open spec fn word(lo: u8, hi: u8) -> int {
    lo + 256 * hi
}

/// A 16-bit pattern read as two's complement.
pub open spec fn signed_word(lo: u8, hi: u8) -> int {
    if hi < 128 {
        word(lo, hi)
    } else {
        word(lo, hi) - 65536
    }
}

/// An 8-bit pattern read as two's complement.
pub open spec fn signed_byte(b: u8) -> int {
    if b < 128 {
        b as int
    } else {
        b - 256
    }
}

/// The unsigned number that three bytes make, the lowest first.
pub open spec fn word24(lo: u8, mid: u8, hi: u8) -> int {
    lo + 256 * mid + 65536 * hi
}

/// Combine a low and a high byte into an unsigned number.
pub fn unsigned16(lo: u8, hi: u8) -> (v: u16)
    ensures
        v == word(lo, hi),
{
    lo as u16 + 256 * (hi as u16)
}

/// Combine a low and a high byte into a signed number.
pub fn signed16(lo: u8, hi: u8) -> (v: i16)
    ensures
        v == signed_word(lo, hi),
{
    let u: u16 = unsigned16(lo, hi);
    if hi < 128 {
        u as i16
    } else {
        (u as i32 - 65536) as i16
    }
}

/// Read one byte as a signed number.
pub fn signed8(b: u8) -> (v: i8)
    ensures
        v == signed_byte(b),
{
    if b < 128 {
        b as i8
    } else {
        (b as i16 - 256) as i8
    }
}

/// Combine three bytes, the lowest first, into an unsigned number.
pub fn unsigned24(lo: u8, mid: u8, hi: u8) -> (v: u32)
    ensures
        v == word24(lo, mid, hi),
{
    lo as u32 + 256 * (mid as u32) + 65536 * (hi as u32)
}

/// Every number holds its bytes: they come back by division, and a signed number is the one within
/// its range that agrees with the bytes up to the size of that range.
pub proof fn numbers_hold_their_bytes(lo: u8, mid: u8, hi: u8)
    ensures
        word(lo, hi) / 256 == hi,
        word(lo, hi) % 256 == lo,
        -32768 <= signed_word(lo, hi) <= 32767,
        signed_word(lo, hi) % 65536 == 256 * hi + lo,
        -128 <= signed_byte(lo) <= 127,
        signed_byte(lo) % 256 == lo,
        word24(lo, mid, hi) / 65536 == hi,
        (word24(lo, mid, hi) / 256) % 256 == mid,
        word24(lo, mid, hi) % 256 == lo,
{
}

} // verus!
