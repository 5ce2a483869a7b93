//! Little-endian integer reads at fixed offsets of a byte block.
use vstd::prelude::*;

verus! {

/// The unsigned value of the four bytes at `i..i + 4`, least significant first.
pub open spec fn le_u32_at(b: Seq<u8>, i: int) -> u32 {
    (b[i] as int + b[i + 1] as int * 0x100 + b[i + 2] as int * 0x1_0000 + b[i + 3] as int
        * 0x100_0000) as u32
}

/// The unsigned value of the eight bytes at `i..i + 8`, least significant first.
pub open spec fn le_u64_at(b: Seq<u8>, i: int) -> u64 {
    (le_u32_at(b, i) as int + le_u32_at(b, i + 4) as int * 0x1_0000_0000) as u64
}

/// The two's-complement value of the four bytes at `i..i + 4`.
pub open spec fn le_i32_at(b: Seq<u8>, i: int) -> i32 {
    le_u32_at(b, i) as i32
}

/// Reads the four bytes at `i..i + 4` as an unsigned little-endian integer.
pub fn read_le_u32(b: &[u8], i: usize) -> (r: u32)
    requires
        i + 4 <= b@.len(),
    ensures
        r == le_u32_at(b@, i as int),
{
    let b0 = b[i] as u32;
    let b1 = b[i + 1] as u32;
    let b2 = b[i + 2] as u32;
    let b3 = b[i + 3] as u32;
    b0 + b1 * 0x100 + b2 * 0x1_0000 + b3 * 0x100_0000
}

/// Reads the eight bytes at `i..i + 8` as an unsigned little-endian integer.
pub fn read_le_u64(b: &[u8], i: usize) -> (r: u64)
    requires
        i + 8 <= b@.len(),
    ensures
        r == le_u64_at(b@, i as int),
{
    let _n = b.len();
    let lo = read_le_u32(b, i) as u64;
    let hi = read_le_u32(b, i + 4) as u64;
    lo + hi * 0x1_0000_0000
}

/// Reads the four bytes at `i..i + 4` as a signed little-endian integer.
pub fn read_le_i32(b: &[u8], i: usize) -> (r: i32)
    requires
        i + 4 <= b@.len(),
    ensures
        r == le_i32_at(b@, i as int),
{
    read_le_u32(b, i) as i32
}

} // verus!
