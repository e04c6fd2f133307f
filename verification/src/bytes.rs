//! Little-endian integer fields of the WAD format.
use vstd::prelude::*;

verus! {

/// The unsigned 16-bit value stored little-endian at `at`.
pub open spec fn le_u16(s: Seq<u8>, at: int) -> int {
    s[at] + 256 * s[at + 1]
}

/// The signed 16-bit (two's complement) value stored little-endian at `at`.
pub open spec fn le_i16(s: Seq<u8>, at: int) -> int {
    let u = le_u16(s, at);
    if u >= 0x8000 { u - 0x10000 } else { u }
}

/// The unsigned 32-bit value stored little-endian at `at`.
pub open spec fn le_u32(s: Seq<u8>, at: int) -> int {
    s[at] + 256 * s[at + 1] + 0x10000 * s[at + 2] + 0x1000000 * s[at + 3]
}

/// The signed 32-bit (two's complement) value stored little-endian at `at`.
pub open spec fn le_i32(s: Seq<u8>, at: int) -> int {
    let u = le_u32(s, at);
    if u >= 0x8000_0000 { u - 0x1_0000_0000 } else { u }
}

/// Reads the unsigned 16-bit little-endian field at `at`.
pub fn read_u16_le(bytes: &[u8], at: usize) -> (r: u16)
    requires
        at + 2 <= bytes@.len(),
    ensures
        r == le_u16(bytes@, at as int),
{
    let lo = bytes[at] as u16;
    let hi = bytes[at + 1] as u16;
    lo + hi * 256
}

/// Reads the signed 16-bit little-endian field at `at`.
pub fn read_i16_le(bytes: &[u8], at: usize) -> (r: i16)
    requires
        at + 2 <= bytes@.len(),
    ensures
        r == le_i16(bytes@, at as int),
{
    let u = read_u16_le(bytes, at);
    if u >= 0x8000 {
        let v: i32 = u as i32 - 0x10000;
        v as i16
    } else {
        u as i16
    }
}

/// Reads the unsigned 32-bit little-endian field at `at`.
pub fn read_u32_le(bytes: &[u8], at: usize) -> (r: u32)
    requires
        at + 4 <= bytes@.len(),
    ensures
        r == le_u32(bytes@, at as int),
{
    let b0 = bytes[at] as u32;
    let b1 = bytes[at + 1] as u32;
    let b2 = bytes[at + 2] as u32;
    let b3 = bytes[at + 3] as u32;
    b0 + b1 * 256 + b2 * 0x10000 + b3 * 0x1000000
}

/// Reads the signed 32-bit little-endian field at `at`.
pub fn read_i32_le(bytes: &[u8], at: usize) -> (r: i32)
    requires
        at + 4 <= bytes@.len(),
    ensures
        r == le_i32(bytes@, at as int),
{
    let u = read_u32_le(bytes, at);
    if u >= 0x8000_0000 {
        let v: i64 = u as i64 - 0x1_0000_0000;
        v as i32
    } else {
        u as i32
    }
}

/// Whether `name` begins with the bytes of `prefix`.
pub fn bytes_start_with(name: &[u8], prefix: &[u8]) -> (r: bool)
    ensures
        r == prefix@.is_prefix_of(name@),
{
    if prefix.len() > name.len() {
        return false;
    }
    let mut i: usize = 0;
    while i < prefix.len()
        invariant
            prefix@.len() <= name@.len(),
            i <= prefix@.len(),
            forall|j: int| 0 <= j < i ==> prefix@[j] == name@[j],
        decreases prefix@.len() - i,
    {
        if prefix[i] != name[i] {
            return false;
        }
        i = i + 1;
    }
    true
}

} // verus!
