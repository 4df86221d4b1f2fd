//! The block-device capability and an in-memory medium that provides it.
use vstd::prelude::*;
use crate::layout::BLOCK_SIZE;

verus! {

/// Why a storage operation did not take place.
#[derive(Debug, Clone, Copy, PartialEq, Eq, Structural)]
pub enum FsError {
    /// The name is absent from the directory.
    NotFound,
    /// No inode slot is free.
    TableFull,
    /// No directory slot is free.
    DirectoryFull,
    /// A block or inode index lies beyond the medium.
    OutOfRange,
    /// A name that a directory entry cannot hold: empty, longer than 27
    /// bytes, or holding a NUL byte.
    InvalidName,
}

/// Every block of `blocks` holds exactly `BLOCK_SIZE` bytes.
pub open spec fn uniform_blocks(blocks: Seq<Seq<u8>>) -> bool {
    forall|i: int| 0 <= i < blocks.len() ==> (#[trigger] blocks[i]).len() == BLOCK_SIZE
}

/// Block `n` after writing `buf` at its start: the bytes past `buf` stay.
pub open spec fn overlay(block: Seq<u8>, buf: Seq<u8>) -> Seq<u8> {
    buf + block.subrange(buf.len() as int, block.len() as int)
}

/// Fixed-size block read and write against a storage medium.
pub trait BlockDevice {
    /// The medium's contents, block by block.
    spec fn blocks(&self) -> Seq<Seq<u8>>;

    /// Number of blocks of the medium.
    fn block_count(&self) -> (n: u64)
        ensures
            n == self.blocks().len(),
    ;

    /// Copies block `block_number` into the first `BLOCK_SIZE` bytes of `buf`,
    /// leaving the rest; `OutOfRange`, with `buf` unchanged, past the medium's end.
    fn read_block(&self, block_number: u32, buf: &mut [u8]) -> (r: Result<(), FsError>)
        requires
            uniform_blocks(self.blocks()),
            old(buf)@.len() >= BLOCK_SIZE,
        ensures
            final(buf)@.len() == old(buf)@.len(),
            r is Ok <==> block_number < self.blocks().len(),
            r is Ok ==> final(buf)@.subrange(0, BLOCK_SIZE as int) == self.blocks()[block_number as int]
                && final(buf)@.subrange(BLOCK_SIZE as int, old(buf)@.len() as int) == old(
                buf,
            )@.subrange(BLOCK_SIZE as int, old(buf)@.len() as int),
            r is Ok && old(buf)@.len() == BLOCK_SIZE ==> final(buf)@ == self.blocks()[block_number as int],
            r is Err ==> r == Err::<(), FsError>(FsError::OutOfRange) && final(buf)@ == old(buf)@,
    ;

    /// Writes `buf` at the start of block `block_number`; the rest of the block stays.
    fn write_block(&mut self, block_number: u32, buf: &[u8]) -> (r: Result<(), FsError>)
        requires
            uniform_blocks(old(self).blocks()),
            buf@.len() <= BLOCK_SIZE,
        ensures
            r is Ok <==> block_number < old(self).blocks().len(),
            r is Ok ==> final(self).blocks() == old(self).blocks().update(
                block_number as int,
                overlay(old(self).blocks()[block_number as int], buf@),
            ),
            r is Err ==> r == Err::<(), FsError>(FsError::OutOfRange) && final(self).blocks()
                == old(self).blocks(),
    ;
}

/// Number of 64-byte chunks of the in-memory medium.
pub const CHUNKS: usize = 64;

/// Bytes per chunk.
pub const CHUNK_SIZE: usize = 64;

/// Chunks per logical block.
pub const CHUNKS_PER_BLOCK: usize = 8;

/// Number of logical blocks that the in-memory medium holds.
pub const PPDEV_BLOCKS: usize = 8;

/// In-memory medium: 64 chunks of 64 bytes, 4096 bytes in all.
pub struct PPDev {
    pub blocks: [[u8; 64]; 64],
}

impl PPDev {
    /// Byte `p` of the medium, counted from its start.
    pub open spec fn byte(&self, p: int) -> u8 {
        self.blocks@[p / 64]@[p % 64]
    }

    /// A zero-filled medium.
    pub fn new() -> (r: PPDev)
        ensures
            r.blocks() == Seq::new(8, |i: int| Seq::new(512, |j: int| 0u8)),
    {
        let r = PPDev { blocks: [[0u8; 64]; 64] };
        assert(r.blocks() =~~= Seq::new(8, |i: int| Seq::new(512, |j: int| 0u8)));
        r
    }
}

impl BlockDevice for PPDev {
    open spec fn blocks(&self) -> Seq<Seq<u8>> {
        Seq::new(8, |i: int| Seq::new(512, |j: int| self.byte(512 * i + j)))
    }

    fn block_count(&self) -> (n: u64) {
        PPDEV_BLOCKS as u64
    }

    fn read_block(&self, block_number: u32, buf: &mut [u8]) -> (r: Result<(), FsError>) {
        let idx = block_number as usize;
        if idx >= PPDEV_BLOCKS {
            return Err(FsError::OutOfRange);
        }
        let mut k: usize = 0;
        while k < BLOCK_SIZE
            invariant
                idx < 8,
                k <= 512,
                buf@.len() == old(buf)@.len(),
                old(buf)@.len() >= 512,
                forall|j: int| 0 <= j < k ==> buf@[j] == self.byte(512 * idx + j),
                forall|j: int| 512 <= j < buf@.len() ==> buf@[j] == old(buf)@[j],
            decreases 512 - k,
        {
            let c = self.blocks[idx * CHUNKS_PER_BLOCK + k / CHUNK_SIZE];
            buf[k] = c[k % CHUNK_SIZE];
            assert((512 * idx + k) / 64 == idx * 8 + k / 64 && (512 * idx + k) % 64 == k % 64);
            k = k + 1;
        }
        assert(buf@.subrange(0, 512) =~= self.blocks()[block_number as int]);
        assert(buf@.subrange(512, buf@.len() as int) =~= old(buf)@.subrange(
            512,
            old(buf)@.len() as int,
        ));
        proof {
            if buf@.len() == 512 {
                assert(buf@ =~= self.blocks()[block_number as int]);
            }
        }
        Ok(())
    }

    fn write_block(&mut self, block_number: u32, buf: &[u8]) -> (r: Result<(), FsError>) {
        let idx = block_number as usize;
        if idx >= PPDEV_BLOCKS {
            return Err(FsError::OutOfRange);
        }
        let ghost old_blocks = self.blocks();
        let mut k: usize = 0;
        while k < buf.len()
            invariant
                idx < 8,
                k <= buf@.len() <= 512,
                forall|p: int|
                    0 <= p < 4096 ==> #[trigger] self.byte(p) == if 512 * idx <= p < 512 * idx
                        + k {
                        buf@[p - 512 * idx]
                    } else {
                        old(self).byte(p)
                    },
            decreases buf@.len() - k,
        {
            let ci = idx * CHUNKS_PER_BLOCK + k / CHUNK_SIZE;
            let mut c = self.blocks[ci];
            c[k % CHUNK_SIZE] = buf[k];
            let ghost before = *self;
            self.blocks[ci] = c;
            assert forall|p: int| 0 <= p < 4096 implies #[trigger] self.byte(p) == if p == 512 * idx
                + k {
                buf@[k as int]
            } else {
                before.byte(p)
            } by {
                assert(p == 512 * idx + k <==> (p / 64 == ci && p % 64 == k % 64));
            }
            k = k + 1;
        }
        assert forall|i: int, j: int| 0 <= i < 8 && 0 <= j < 512 implies old_blocks[i][j] == old(
            self,
        ).byte(512 * i + j) by {}
        assert(self.blocks() =~~= old_blocks.update(
            block_number as int,
            overlay(old_blocks[block_number as int], buf@),
        ));
        Ok(())
    }
}

} // verus!
