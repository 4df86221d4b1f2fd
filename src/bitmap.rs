//! Free/used bit scan over a byte bitmap.
use vstd::prelude::*;

verus! {

/// Bit `p` of the bitmap (byte `p / 8`, bit `p % 8` from the low end) is set.
pub open spec fn bit_is_set(bm: Seq<u8>, p: int) -> bool {
    bm[p / 8] & (1u8 << ((p % 8) as u8)) != 0
}

/// The first clear bit at or after `p`.
pub open spec fn first_clear_from(bm: Seq<u8>, p: int) -> Option<int>
    decreases 8 * bm.len() - p,
{
    if p < 0 || p >= 8 * bm.len() {
        None
    } else if !bit_is_set(bm, p) {
        Some(p)
    } else {
        first_clear_from(bm, p + 1)
    }
}

/// The first clear bit of the bitmap: lowest byte, then lowest bit.
pub open spec fn first_clear(bm: Seq<u8>) -> Option<int> {
    first_clear_from(bm, 0)
}

/// Claims the first clear bit of `bitmap` (lowest byte, then lowest bit),
/// sets it and returns its index; `None`, with the bitmap unchanged, when
/// every bit is set.
pub fn alloc_block(bitmap: &mut [u8]) -> (r: Option<u32>)
    requires
        8 * old(bitmap)@.len() <= u32::MAX + 1,
    ensures
        match first_clear(old(bitmap)@) {
            None => r == None::<u32> && final(bitmap)@ == old(bitmap)@,
            Some(p) => r == Some(p as u32) && final(bitmap)@ == old(bitmap)@.update(
                p / 8,
                old(bitmap)@[p / 8] | (1u8 << ((p % 8) as u8)),
            ),
        },
{
    let n = bitmap.len();
    let mut i: usize = 0;
    while i < n
        invariant
            i <= n == bitmap@.len(),
            8 * n <= u32::MAX + 1,
            bitmap@ == old(bitmap)@,
            first_clear(bitmap@) == first_clear_from(bitmap@, 8 * i),
        decreases n - i,
    {
        let byte = bitmap[i];
        let mut bit: u8 = 0;
        while bit < 8
            invariant
                i < n == bitmap@.len(),
                8 * n <= u32::MAX + 1,
                bit <= 8,
                byte == bitmap@[i as int],
                bitmap@ == old(bitmap)@,
                first_clear(bitmap@) == first_clear_from(bitmap@, 8 * i + bit),
            decreases 8 - bit,
        {
            assert((8 * i + bit) / 8 == i && (8 * i + bit) % 8 == bit as int);
            if byte & (1u8 << bit) == 0 {
                bitmap[i] = byte | (1u8 << bit);
                return Some((i * 8 + bit as usize) as u32);
            }
            bit = bit + 1;
        }
        i = i + 1;
    }
    None
}

} // verus!
