use ppos::bitmap::alloc_block;

#[test]
fn alloc_takes_lowest_clear_bit() {
    let mut bm = [0xFFu8, 0b0000_0101, 0];
    assert_eq!(alloc_block(&mut bm), Some(9));
    assert_eq!(bm, [0xFF, 0b0000_0111, 0]);
    assert_eq!(alloc_block(&mut bm), Some(11));
    assert_eq!(bm[1], 0b0000_1111);
}

#[test]
fn alloc_on_empty_bitmap_takes_bit_zero() {
    let mut bm = [0u8; 4];
    assert_eq!(alloc_block(&mut bm), Some(0));
    assert_eq!(bm, [1, 0, 0, 0]);
}

#[test]
fn alloc_on_full_bitmap_is_none() {
    let mut bm = [0xFFu8; 3];
    assert_eq!(alloc_block(&mut bm), None);
    assert_eq!(bm, [0xFF; 3]);
    let mut empty: [u8; 0] = [];
    assert_eq!(alloc_block(&mut empty), None);
}

#[test]
fn alloc_high_bit() {
    let mut bm = [0x7Fu8];
    assert_eq!(alloc_block(&mut bm), Some(7));
    assert_eq!(bm, [0xFF]);
}
