//! Little-endian integer reads over byte buffers.

use vstd::prelude::*;

verus! {

/// The unsigned 32-bit value stored little-endian at offset `i` of `s`.
pub open spec fn spec_le_u32(s: Seq<u8>, i: int) -> u32
    recommends
        0 <= i,
        i + 4 <= s.len(),
{
    (s[i] as u32) | ((s[i + 1] as u32) << 8) | ((s[i + 2] as u32) << 16) | ((s[i + 3] as u32)
        << 24)
}

/// Reads the unsigned 32-bit little-endian value at offset `i`.
pub fn le_u32_at(s: &[u8], i: usize) -> (r: u32)
    requires
        i + 4 <= s@.len(),
    ensures
        r == spec_le_u32(s@, i as int),
{
    let n: usize = s.len();
    let b0 = *vstd::slice::slice_index_get(s, i);
    let b1 = *vstd::slice::slice_index_get(s, i + 1);
    let b2 = *vstd::slice::slice_index_get(s, i + 2);
    let b3 = *vstd::slice::slice_index_get(s, i + 3);
    (b0 as u32) | ((b1 as u32) << 8) | ((b2 as u32) << 16) | ((b3 as u32) << 24)
}

} // verus!
