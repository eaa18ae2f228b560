//! Little-endian reads and writes of the fixed-width words that make up the
//! ring's control fields and completion records.
//!
//! Every multi-byte value in the shared region is stored least-significant
//! byte first; these helpers are the only place where bytes are assembled
//! into words or scattered back.

use vstd::prelude::*;

verus! {

/// The unsigned 32-bit value stored little-endian at byte offset `off` of `b`.
pub open spec fn u32_le(b: Seq<u8>, off: int) -> u32
    recommends
        0 <= off,
        off + 4 <= b.len(),
{
    (b[off] as u32) | (b[off + 1] as u32) << 8 | (b[off + 2] as u32) << 16 | (b[off + 3]
        as u32) << 24
}

/// The unsigned 64-bit value stored little-endian at byte offset `off` of `b`.
pub open spec fn u64_le(b: Seq<u8>, off: int) -> u64
    recommends
        0 <= off,
        off + 8 <= b.len(),
{
    (b[off] as u64) | (b[off + 1] as u64) << 8 | (b[off + 2] as u64) << 16 | (b[off + 3]
        as u64) << 24 | (b[off + 4] as u64) << 32 | (b[off + 5] as u64) << 40 | (b[off + 6]
        as u64) << 48 | (b[off + 7] as u64) << 56
}

/// The signed 32-bit value whose two's-complement bit pattern is `u`.
pub open spec fn i32_of_bits(u: u32) -> i32 {
    if u < 0x8000_0000 {
        u as i32
    } else {
        (u - 0x1_0000_0000) as i32
    }
}

/// Read the little-endian `u32` at byte offset `off`.
pub fn read_u32_le(region: &Vec<u8>, off: usize) -> (r: u32)
    requires
        off + 4 <= region@.len(),
    ensures
        r == u32_le(region@, off as int),
{
    let _n: usize = region.len();
    (region[off] as u32) | (region[off + 1] as u32) << 8u32 | (region[off + 2] as u32) << 16u32 | (
    region[off + 3] as u32) << 24u32
}

/// Read the little-endian `u64` at byte offset `off`.
pub fn read_u64_le(region: &Vec<u8>, off: usize) -> (r: u64)
    requires
        off + 8 <= region@.len(),
    ensures
        r == u64_le(region@, off as int),
{
    let _n: usize = region.len();
    (region[off] as u64) | (region[off + 1] as u64) << 8u64 | (region[off + 2] as u64) << 16u64 | (
    region[off + 3] as u64) << 24u64 | (region[off + 4] as u64) << 32u64 | (region[off + 5]
        as u64) << 40u64 | (region[off + 6] as u64) << 48u64 | (region[off + 7] as u64) << 56u64
}

/// Reinterpret a 32-bit pattern as the signed value it encodes.
pub fn i32_from_bits(u: u32) -> (r: i32)
    ensures
        r == i32_of_bits(u),
{
    if u < 0x8000_0000 {
        u as i32
    } else {
        -1i32 - ((0xFFFF_FFFFu32 - u) as i32)
    }
}

/// Store `v` little-endian at byte offset `off`, leaving every other byte of
/// the region as it was.
pub fn write_u32_le(region: &mut Vec<u8>, off: usize, v: u32)
    requires
        off + 4 <= old(region)@.len(),
    ensures
        final(region)@.len() == old(region)@.len(),
        u32_le(final(region)@, off as int) == v,
        forall|i: int|
            0 <= i < old(region)@.len() && !(off <= i < off + 4) ==> final(region)@[i] == old(
                region,
            )@[i],
{
    let _n: usize = region.len();
    proof {
        assert({
            &&& v & 0xff < 256
            &&& (v >> 8u32) & 0xff < 256
            &&& (v >> 16u32) & 0xff < 256
            &&& (v >> 24u32) & 0xff < 256
        }) by (bit_vector);
    }
    let b0: u8 = (v & 0xff) as u8;
    let b1: u8 = ((v >> 8u32) & 0xff) as u8;
    let b2: u8 = ((v >> 16u32) & 0xff) as u8;
    let b3: u8 = ((v >> 24u32) & 0xff) as u8;
    region[off] = b0;
    region[off + 1] = b1;
    region[off + 2] = b2;
    region[off + 3] = b3;
    proof {
        assert(v == (v & 0xff) | ((v >> 8u32) & 0xff) << 8u32 | ((v >> 16u32) & 0xff) << 16u32 | ((v
            >> 24u32) & 0xff) << 24u32) by (bit_vector);
    }
}

} // verus!
