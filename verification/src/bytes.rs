//! Little- and big-endian field decoding shared by the binary formats.
use vstd::prelude::*;

verus! {

/// Value of the little-endian 16-bit field at `off` of `b`.
pub open spec fn spec_le16(b: Seq<u8>, off: int) -> int {
    b[off] as int + b[off + 1] as int * 256
}

/// Value of the little-endian 32-bit field at `off` of `b`.
pub open spec fn spec_le32(b: Seq<u8>, off: int) -> int {
    b[off] as int + b[off + 1] as int * 0x100 + b[off + 2] as int * 0x10000 + b[off + 3] as int
        * 0x100_0000
}

/// Read the little-endian `u16` at `buf[off..off + 2]`.
pub fn le16(buf: &[u8], off: usize) -> (r: u16)
    requires
        off + 2 <= buf@.len(),
    ensures
        r as int == spec_le16(buf@, off as int),
{
    let lo = buf[off] as u16;
    let hi = buf[off + 1] as u16;
    lo + hi * 256
}

/// Read the little-endian `u32` at `buf[off..off + 4]`.
pub fn le32(buf: &[u8], off: usize) -> (r: u32)
    requires
        off + 4 <= buf@.len(),
    ensures
        r as int == spec_le32(buf@, off as int),
{
    let b0 = buf[off] as u32;
    let b1 = buf[off + 1] as u32;
    let b2 = buf[off + 2] as u32;
    let b3 = buf[off + 3] as u32;
    b0 + b1 * 0x100 + b2 * 0x10000 + b3 * 0x100_0000
}

} // verus!
