//! On-disk records and their byte encoding at fixed offsets (little endian).
use vstd::prelude::*;

verus! {

/// Size of one logical block in bytes.
pub const BLOCK_SIZE: usize = 512;

/// Identifies a formatted medium ("PPOS").
pub const MAGIC: u32 = 0x50504f53;

/// Encoded size of a `Superblock`.
pub const SUPERBLOCK_SIZE: usize = 24;

/// Encoded size of an `Inode` (with its trailing padding).
pub const INODE_SIZE: usize = 64;

/// Number of inode slots in the inode-table block.
pub const INODE_SLOTS: usize = 8;

/// Encoded size of a `DirEntry` (with its trailing padding).
pub const DIRENT_SIZE: usize = 36;

/// Width of the name field of a `DirEntry`.
pub const NAME_FIELD: usize = 28;

/// Longest name that a `DirEntry` holds with its terminating NUL.
pub const MAX_NAME_LEN: usize = 27;

/// Number of entries in the directory block.
pub const DIR_CAPACITY: usize = 14;

/// Number of direct block pointers of an inode.
pub const DIRECT_PTRS: usize = 12;

/// Block that holds the superblock and the inode table.
pub const INODE_TABLE_BLOCK: u32 = 0;

/// The one directory block.
pub const DIR_BLOCK: u32 = 2;

/// The data block that every created file points to.
pub const FILE_DATA_BLOCK: u32 = 3;

/// Mode of a regular file (`0o100644`).
pub const FILE_MODE: u16 = 0o100644;

/// Mode bit that marks a directory.
pub const DIR_MODE_BIT: u16 = 0o40000;

// ---------------------------------------------------------------------------
// Little-endian integers
// ---------------------------------------------------------------------------

/// Byte `k` (0 = least significant) of `v`.
pub open spec fn byte_of(v: u32, k: int) -> u8 {
    ((v >> ((8 * k) as u32)) & 0xff) as u8
}

/// The 32-bit value stored little endian at `off`.
pub open spec fn le_u32(s: Seq<u8>, off: int) -> u32 {
    (s[off] as u32) | ((s[off + 1] as u32) << 8u32) | ((s[off + 2] as u32) << 16u32) | ((s[off
        + 3] as u32) << 24u32)
}

/// The 16-bit value stored little endian at `off`.
pub open spec fn le_u16(s: Seq<u8>, off: int) -> u16 {
    (s[off] as u16) | ((s[off + 1] as u16) << 8u16)
}

/// `s` with `w` written over it from `off` on.
pub open spec fn splice(s: Seq<u8>, off: int, w: Seq<u8>) -> Seq<u8> {
    s.subrange(0, off) + w + s.subrange(off + w.len(), s.len() as int)
}

/// The four little-endian bytes of `v`.
pub open spec fn u32_bytes(v: u32) -> Seq<u8> {
    seq![byte_of(v, 0), byte_of(v, 1), byte_of(v, 2), byte_of(v, 3)]
}

pub proof fn lemma_le_u32_of_bytes(v: u32)
    ensures
        ((byte_of(v, 0) as u32) | ((byte_of(v, 1) as u32) << 8u32) | ((byte_of(v, 2) as u32)
            << 16u32) | ((byte_of(v, 3) as u32) << 24u32)) == v,
{
    assert(((((v >> 0u32) & 0xff) as u8) as u32 | (((((v >> 8u32) & 0xff) as u8) as u32)
        << 8u32) | (((((v >> 16u32) & 0xff) as u8) as u32) << 16u32) | (((((v >> 24u32)
        & 0xff) as u8) as u32) << 24u32)) == v) by (bit_vector);
}

/// Writes `v` little endian at `buf[off..off + 4]`.
pub fn put_u32(buf: &mut [u8], off: usize, v: u32)
    requires
        off + 4 <= old(buf)@.len(),
    ensures
        final(buf)@ == splice(old(buf)@, off as int, u32_bytes(v)),
{
    buf[off] = (v & 0xff) as u8;
    buf[off + 1] = ((v >> 8u32) & 0xff) as u8;
    buf[off + 2] = ((v >> 16u32) & 0xff) as u8;
    buf[off + 3] = ((v >> 24u32) & 0xff) as u8;
    assert(v == v >> 0u32) by (bit_vector);
    assert(final(buf)@ =~= splice(old(buf)@, off as int, u32_bytes(v)));
}

/// Reads the little-endian value at `buf[off..off + 4]`.
pub fn get_u32(buf: &[u8], off: usize) -> (r: u32)
    requires
        off + 4 <= buf@.len(),
    ensures
        r == le_u32(buf@, off as int),
{
    (buf[off] as u32) | ((buf[off + 1] as u32) << 8u32) | ((buf[off + 2] as u32) << 16u32) | ((
    buf[off + 3] as u32) << 24u32)
}

/// The two little-endian bytes of `v`.
pub open spec fn u16_bytes(v: u16) -> Seq<u8> {
    seq![(v & 0xff) as u8, ((v >> 8u16) & 0xff) as u8]
}

/// The little-endian bytes of each value of `s`, one after the other.
pub open spec fn u32s_bytes(s: Seq<u32>) -> Seq<u8>
    decreases s.len(),
{
    if s.len() == 0 {
        Seq::empty()
    } else {
        u32s_bytes(s.drop_last()) + u32_bytes(s.last())
    }
}

pub proof fn lemma_u32s_bytes_len(s: Seq<u32>)
    ensures
        u32s_bytes(s).len() == 4 * s.len(),
    decreases s.len(),
{
    if s.len() > 0 {
        lemma_u32s_bytes_len(s.drop_last());
    }
}

/// Writing `a` and then `b` right after it is writing `a + b`.
pub proof fn lemma_splice_concat(s: Seq<u8>, off: int, a: Seq<u8>, b: Seq<u8>)
    requires
        0 <= off,
        off + a.len() + b.len() <= s.len(),
    ensures
        splice(splice(s, off, a), off + a.len(), b) == splice(s, off, a + b),
{
    assert(splice(splice(s, off, a), off + a.len(), b) =~= splice(s, off, a + b));
}

/// Writes `v` little endian at `buf[off..off + 2]`.
pub fn put_u16(buf: &mut [u8], off: usize, v: u16)
    requires
        off + 2 <= old(buf)@.len(),
    ensures
        final(buf)@ == splice(old(buf)@, off as int, u16_bytes(v)),
{
    buf[off] = (v & 0xff) as u8;
    buf[off + 1] = ((v >> 8u16) & 0xff) as u8;
    assert(final(buf)@ =~= splice(old(buf)@, off as int, u16_bytes(v)));
}

/// Writes `b` at `buf[off]`.
pub fn put_u8(buf: &mut [u8], off: usize, b: u8)
    requires
        off < old(buf)@.len(),
    ensures
        final(buf)@ == splice(old(buf)@, off as int, seq![b]),
{
    buf[off] = b;
    assert(final(buf)@ =~= splice(old(buf)@, off as int, seq![b]));
}

/// Reads the little-endian value at `buf[off..off + 2]`.
pub fn get_u16(buf: &[u8], off: usize) -> (r: u16)
    requires
        off + 2 <= buf@.len(),
    ensures
        r == le_u16(buf@, off as int),
{
    (buf[off] as u16) | ((buf[off + 1] as u16) << 8u16)
}

/// Writes each value of `vals` little endian from `off` on.
pub fn put_u32s(buf: &mut [u8], off: usize, vals: &[u32])
    requires
        off + 4 * vals@.len() <= old(buf)@.len(),
    ensures
        final(buf)@ == splice(old(buf)@, off as int, u32s_bytes(vals@)),
{
    let n = buf.len();
    let mut p: usize = 0;
    proof {
        assert(vals@.take(0) =~= Seq::<u32>::empty());
        assert(splice(old(buf)@, off as int, u32s_bytes(vals@.take(0))) =~= old(buf)@);
    }
    while p < vals.len()
        invariant
            p <= vals@.len(),
            off + 4 * vals@.len() <= old(buf)@.len(),
            n == old(buf)@.len(),
            buf@.len() == n,
            buf@ == splice(old(buf)@, off as int, u32s_bytes(vals@.take(p as int))),
        decreases vals@.len() - p,
    {
        proof {
            lemma_u32s_bytes_len(vals@.take(p as int));
            lemma_splice_concat(
                old(buf)@,
                off as int,
                u32s_bytes(vals@.take(p as int)),
                u32_bytes(vals@[p as int]),
            );
            assert(vals@.take(p + 1).drop_last() =~= vals@.take(p as int));
            lemma_u32s_bytes_len(vals@.take(p + 1));
        }
        put_u32(buf, off + 4 * p, vals[p]);
        p = p + 1;
    }
    assert(vals@.take(p as int) =~= vals@);
}

/// On-disk superblock: six 32-bit fields, 24 bytes.
pub struct Superblock {
    pub magic: u32,
    pub total_blocks: u32,
    pub total_inodes: u32,
    pub free_block_bitmap_start: u32,
    pub inode_table_start: u32,
    pub data_blocks_start: u32,
}

impl Superblock {
    /// The record's encoding.
    pub open spec fn bytes(&self) -> Seq<u8> {
        u32_bytes(self.magic) + u32_bytes(self.total_blocks) + u32_bytes(self.total_inodes)
            + u32_bytes(self.free_block_bitmap_start) + u32_bytes(self.inode_table_start)
            + u32_bytes(self.data_blocks_start)
    }

    /// Writes the record at `buf[off..off + 24]`.
    pub fn encode(&self, buf: &mut [u8], off: usize)
        requires
            off + SUPERBLOCK_SIZE <= old(buf)@.len(),
        ensures
            final(buf)@ == splice(old(buf)@, off as int, self.bytes()),
    {
        let ghost b0 = buf@;
        let _n = buf.len();
        put_u32(buf, off, self.magic);
        put_u32(buf, off + 4, self.total_blocks);
        proof {
            lemma_splice_concat(b0, off as int, u32_bytes(self.magic), u32_bytes(self.total_blocks));
        }
        let ghost a = u32_bytes(self.magic) + u32_bytes(self.total_blocks);
        put_u32(buf, off + 8, self.total_inodes);
        proof {
            lemma_splice_concat(b0, off as int, a, u32_bytes(self.total_inodes));
        }
        let ghost a = a + u32_bytes(self.total_inodes);
        put_u32(buf, off + 12, self.free_block_bitmap_start);
        proof {
            lemma_splice_concat(b0, off as int, a, u32_bytes(self.free_block_bitmap_start));
        }
        let ghost a = a + u32_bytes(self.free_block_bitmap_start);
        put_u32(buf, off + 16, self.inode_table_start);
        proof {
            lemma_splice_concat(b0, off as int, a, u32_bytes(self.inode_table_start));
        }
        let ghost a = a + u32_bytes(self.inode_table_start);
        put_u32(buf, off + 20, self.data_blocks_start);
        proof {
            lemma_splice_concat(b0, off as int, a, u32_bytes(self.data_blocks_start));
        }
    }
}

/// Byte `4 * k + j` of the encoding of `s` is byte `j` of `s[k]`.
pub proof fn lemma_u32s_bytes_index(s: Seq<u32>, k: int, j: int)
    requires
        0 <= k < s.len(),
        0 <= j < 4,
    ensures
        u32s_bytes(s).len() == 4 * s.len(),
        u32s_bytes(s)[4 * k + j] == byte_of(s[k], j),
    decreases s.len(),
{
    lemma_u32s_bytes_len(s);
    lemma_u32s_bytes_len(s.drop_last());
    if k < s.len() - 1 {
        lemma_u32s_bytes_index(s.drop_last(), k, j);
    }
}

/// Copies `src` into `buf` from `off` on.
pub fn put_bytes(buf: &mut [u8], off: usize, src: &[u8])
    requires
        off + src@.len() <= old(buf)@.len(),
    ensures
        final(buf)@ == splice(old(buf)@, off as int, src@),
{
    let n = buf.len();
    let mut k: usize = 0;
    while k < src.len()
        invariant
            k <= src@.len(),
            off + src@.len() <= n,
            n == old(buf)@.len(),
            buf@.len() == n,
            forall|p: int|
                0 <= p < n ==> #[trigger] buf@[p] == if off <= p < off + k {
                    src@[p - off]
                } else {
                    old(buf)@[p]
                },
        decreases src@.len() - k,
    {
        buf[off + k] = src[k];
        k = k + 1;
    }
    assert(buf@ =~= splice(old(buf)@, off as int, src@));
}

/// On-disk inode: 64 bytes with padding.
pub struct Inode {
    /// File type and permission bits.
    pub mode: u16,
    /// Size in bytes.
    pub size: u32,
    /// Direct block pointers; 0 marks an unused pointer.
    pub direct_ptrs: [u32; 12],
    /// Single indirect pointer (reserved).
    pub indirect_ptr: u32,
    /// 0 = free, 1 = in use.
    pub is_used: u8,
}

impl Inode {
    /// The record's encoding: mode at 0, size at 4, pointers from 8, indirect
    /// pointer at 56, used flag at 60, zero padding elsewhere.
    pub open spec fn bytes(&self) -> Seq<u8> {
        u16_bytes(self.mode) + seq![0u8, 0u8] + u32_bytes(self.size) + u32s_bytes(
            self.direct_ptrs@,
        ) + u32_bytes(self.indirect_ptr) + seq![self.is_used, 0u8, 0u8, 0u8]
    }

    pub proof fn lemma_bytes_len(&self)
        ensures
            self.bytes().len() == INODE_SIZE,
    {
        lemma_u32s_bytes_len(self.direct_ptrs@);
    }

    /// Writes the record at `buf[off..off + 64]`.
    pub fn encode(&self, buf: &mut [u8], off: usize)
        requires
            off + INODE_SIZE <= old(buf)@.len(),
        ensures
            final(buf)@ == splice(old(buf)@, off as int, self.bytes()),
    {
        let ghost b0 = buf@;
        let _n = buf.len();
        proof {
            lemma_u32s_bytes_len(self.direct_ptrs@);
        }
        put_u16(buf, off, self.mode);
        put_bytes(buf, off + 2, &[0u8, 0u8]);
        proof {
            lemma_splice_concat(b0, off as int, u16_bytes(self.mode), seq![0u8, 0u8]);
        }
        let ghost a = u16_bytes(self.mode) + seq![0u8, 0u8];
        put_u32(buf, off + 4, self.size);
        proof {
            lemma_splice_concat(b0, off as int, a, u32_bytes(self.size));
        }
        let ghost a = a + u32_bytes(self.size);
        put_u32s(buf, off + 8, self.direct_ptrs.as_slice());
        proof {
            lemma_splice_concat(b0, off as int, a, u32s_bytes(self.direct_ptrs@));
        }
        let ghost a = a + u32s_bytes(self.direct_ptrs@);
        put_u32(buf, off + 56, self.indirect_ptr);
        proof {
            lemma_splice_concat(b0, off as int, a, u32_bytes(self.indirect_ptr));
        }
        let ghost a = a + u32_bytes(self.indirect_ptr);
        put_bytes(buf, off + 60, &[self.is_used, 0u8, 0u8, 0u8]);
        proof {
            lemma_splice_concat(b0, off as int, a, seq![self.is_used, 0u8, 0u8, 0u8]);
        }
    }

    /// Reads the record stored at `buf[off..off + 64]`.
    pub fn decode(buf: &[u8], off: usize) -> (r: Inode)
        requires
            off + INODE_SIZE <= buf@.len(),
        ensures
            r.mode == le_u16(buf@, off as int),
            r.size == le_u32(buf@, off + 4),
            forall|k: int| 0 <= k < 12 ==> r.direct_ptrs@[k] == le_u32(buf@, off + 8 + 4 * k),
            r.indirect_ptr == le_u32(buf@, off + 56),
            r.is_used == buf@[off + 60],
    {
        let n = buf.len();
        let mut ptrs = [0u32; 12];
        let mut k: usize = 0;
        while k < DIRECT_PTRS
            invariant
                k <= 12,
                off + 64 <= buf@.len(),
                n == buf@.len(),
                forall|j: int| 0 <= j < k ==> ptrs@[j] == le_u32(buf@, off + 8 + 4 * j),
            decreases 12 - k,
        {
            ptrs[k] = get_u32(buf, off + 8 + 4 * k);
            k = k + 1;
        }
        Inode {
            mode: get_u16(buf, off),
            size: get_u32(buf, off + 4),
            direct_ptrs: ptrs,
            indirect_ptr: get_u32(buf, off + 56),
            is_used: buf[off + 60],
        }
    }
}

/// Directory entry: an inode reference and a NUL-terminated name, 36 bytes.
pub struct DirEntry {
    /// 0 = unused, otherwise inode slot + 1.
    pub inode_index: u32,
    /// Up to 27 name bytes and a NUL.
    pub name: [u8; 28],
    pub _padding: u16,
}

impl DirEntry {
    /// The record's encoding: reference at 0, name from 4, padding at 32.
    pub open spec fn bytes(&self) -> Seq<u8> {
        u32_bytes(self.inode_index) + self.name@ + u16_bytes(self._padding) + seq![0u8, 0u8]
    }

    /// Writes the record at `buf[off..off + 36]`.
    pub fn encode(&self, buf: &mut [u8], off: usize)
        requires
            off + DIRENT_SIZE <= old(buf)@.len(),
        ensures
            final(buf)@ == splice(old(buf)@, off as int, self.bytes()),
    {
        let ghost b0 = buf@;
        let _n = buf.len();
        put_u32(buf, off, self.inode_index);
        put_bytes(buf, off + 4, self.name.as_slice());
        proof {
            lemma_splice_concat(b0, off as int, u32_bytes(self.inode_index), self.name@);
        }
        let ghost a = u32_bytes(self.inode_index) + self.name@;
        put_u16(buf, off + 32, self._padding);
        proof {
            lemma_splice_concat(b0, off as int, a, u16_bytes(self._padding));
        }
        let ghost a = a + u16_bytes(self._padding);
        put_bytes(buf, off + 34, &[0u8, 0u8]);
        proof {
            lemma_splice_concat(b0, off as int, a, seq![0u8, 0u8]);
        }
    }

    /// Reads the record stored at `buf[off..off + 36]`.
    pub fn decode(buf: &[u8], off: usize) -> (r: DirEntry)
        requires
            off + DIRENT_SIZE <= buf@.len(),
        ensures
            r.inode_index == le_u32(buf@, off as int),
            r.name@ == buf@.subrange(off + 4, off + 32),
            r._padding == le_u16(buf@, off + 32),
    {
        let n = buf.len();
        let mut name = [0u8; 28];
        let mut k: usize = 0;
        while k < NAME_FIELD
            invariant
                k <= 28,
                off + 36 <= buf@.len(),
                n == buf@.len(),
                forall|j: int| 0 <= j < k ==> name@[j] == buf@[off + 4 + j],
            decreases 28 - k,
        {
            name[k] = buf[off + 4 + k];
            k = k + 1;
        }
        assert(name@ =~= buf@.subrange(off + 4, off + 32));
        DirEntry { inode_index: get_u32(buf, off), name, _padding: get_u16(buf, off + 32) }
    }
}

} // verus!
