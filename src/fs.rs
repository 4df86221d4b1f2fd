//! The storage engine: format, lookup, create, read, overwrite and listing,
//! on any `BlockDevice` that holds the layout's blocks.
use vstd::prelude::*;
use crate::device::{BlockDevice, FsError, uniform_blocks, overlay};
use crate::layout::{
    BLOCK_SIZE, DIRENT_SIZE, DIR_BLOCK, DIR_CAPACITY, INODE_SIZE, INODE_SLOTS, INODE_TABLE_BLOCK,
    NAME_FIELD, DirEntry, Inode, FILE_MODE, FILE_DATA_BLOCK, MAX_NAME_LEN, le_u32, splice,
    u32_bytes, u16_bytes, Superblock, MAGIC, DIR_MODE_BIT, le_u16, DIRECT_PTRS,
};

verus! {

/// The medium has uniform blocks and reaches past the shared data block.
pub open spec fn holds_layout(bs: Seq<Seq<u8>>) -> bool {
    uniform_blocks(bs) && bs.len() > 3
}

/// Number of bytes of `field` before its first NUL (all of it if none).
pub open spec fn nul_index(field: Seq<u8>) -> nat
    decreases field.len(),
{
    if field.len() == 0 || field[0] == 0 {
        0
    } else {
        1 + nul_index(field.drop_first())
    }
}

/// The NUL-terminated name held by a name field.
pub open spec fn stored_name(field: Seq<u8>) -> Seq<u8> {
    field.take(nul_index(field) as int)
}

/// Inode reference held by directory slot `i` (0 = unused).
pub open spec fn entry_ref(dir: Seq<u8>, i: int) -> u32 {
    le_u32(dir, DIRENT_SIZE * i)
}

/// Name field of directory slot `i`.
pub open spec fn name_field(dir: Seq<u8>, i: int) -> Seq<u8> {
    dir.subrange(DIRENT_SIZE * i + 4, DIRENT_SIZE * i + 32)
}

/// Directory slot `i` is in use and holds `name`.
pub open spec fn slot_holds(dir: Seq<u8>, i: int, name: Seq<u8>) -> bool {
    entry_ref(dir, i) != 0 && stored_name(name_field(dir, i)) == name
}

/// Inode index of the first slot at or after `i` that holds `name`.
pub open spec fn find_from(dir: Seq<u8>, name: Seq<u8>, i: int) -> Option<u32>
    decreases DIR_CAPACITY - i,
{
    if i < 0 || i >= DIR_CAPACITY {
        None
    } else if slot_holds(dir, i, name) {
        Some((entry_ref(dir, i) - 1) as u32)
    } else {
        find_from(dir, name, i + 1)
    }
}

/// What a lookup of `name` yields on a medium with blocks `bs`.
pub open spec fn lookup(bs: Seq<Seq<u8>>, name: Seq<u8>) -> Option<u32> {
    find_from(bs[DIR_BLOCK as int], name, 0)
}

/// The NUL index of a field whose first `n` bytes are non-NUL and end there.
pub proof fn lemma_nul_index(field: Seq<u8>, n: int)
    requires
        0 <= n <= field.len(),
        forall|k: int| 0 <= k < n ==> field[k] != 0,
        n == field.len() || field[n] == 0,
    ensures
        nul_index(field) == n,
    decreases n,
{
    if n > 0 {
        lemma_nul_index(field.drop_first(), n - 1);
    }
}

/// Whether the name field `field` holds exactly `name`.
fn name_matches(field: &[u8], name: &[u8]) -> (r: bool)
    ensures
        r == (stored_name(field@) == name@),
{
    let n = field.len();
    let mut k: usize = 0;
    while k < n && field[k] != 0
        invariant
            k <= n == field@.len(),
            forall|j: int| 0 <= j < k ==> field@[j] != 0,
        decreases n - k,
    {
        k = k + 1;
    }
    proof {
        lemma_nul_index(field@, k as int);
    }
    if name.len() != k {
        return false;
    }
    let mut j: usize = 0;
    while j < k
        invariant
            j <= k == name@.len() <= field@.len(),
            nul_index(field@) == k,
            forall|i: int| 0 <= i < j ==> field@[i] == name@[i],
        decreases k - j,
    {
        if field[j] != name[j] {
            assert(stored_name(field@)[j as int] != name@[j as int]);
            return false;
        }
        j = j + 1;
    }
    assert(stored_name(field@) =~= name@);
    true
}

/// Inode index of the first in-use directory entry named `name`, or `None`.
pub fn find<D: BlockDevice>(device: &D, name: &[u8]) -> (r: Option<u32>)
    requires
        holds_layout(device.blocks()),
    ensures
        r == lookup(device.blocks(), name@),
{
    let mut dir = [0u8; 512];
    let _ = device.read_block(DIR_BLOCK, &mut dir);
    let mut i: usize = 0;
    while i < DIR_CAPACITY
        invariant
            i <= DIR_CAPACITY,
            dir@ == device.blocks()[DIR_BLOCK as int],
            dir@.len() == BLOCK_SIZE,
            find_from(dir@, name@, 0) == find_from(dir@, name@, i as int),
        decreases DIR_CAPACITY - i,
    {
        let e = DirEntry::decode(dir.as_slice(), DIRENT_SIZE * i);
        if e.inode_index != 0 && name_matches(e.name.as_slice(), name) {
            return Some(e.inode_index - 1);
        }
        i = i + 1;
    }
    None
}

/// A name that a directory entry can hold: 1 to 27 bytes, none of them NUL.
pub open spec fn valid_name(name: Seq<u8>) -> bool {
    0 < name.len() <= MAX_NAME_LEN && forall|k: int| 0 <= k < name.len() ==> name[k] != 0
}

/// Used flag of inode slot `s` of the inode-table block.
pub open spec fn inode_used(table: Seq<u8>, s: int) -> u8 {
    table[INODE_SIZE * s + 60]
}

/// First free inode slot at or after `s`.
pub open spec fn free_inode_from(table: Seq<u8>, s: int) -> Option<int>
    decreases INODE_SLOTS - s,
{
    if s < 0 || s >= INODE_SLOTS {
        None
    } else if inode_used(table, s) == 0 {
        Some(s)
    } else {
        free_inode_from(table, s + 1)
    }
}

/// First unused directory slot at or after `i`.
pub open spec fn free_entry_from(dir: Seq<u8>, i: int) -> Option<int>
    decreases DIR_CAPACITY - i,
{
    if i < 0 || i >= DIR_CAPACITY {
        None
    } else if entry_ref(dir, i) == 0 {
        Some(i)
    } else {
        free_entry_from(dir, i + 1)
    }
}

/// The inode that `create` writes: a regular file of size 0 whose one data
/// block is the shared data block.
pub open spec fn new_file_inode() -> Inode {
    Inode {
        mode: FILE_MODE,
        size: 0,
        direct_ptrs: [3u32, 0u32, 0u32, 0u32, 0u32, 0u32, 0u32, 0u32, 0u32, 0u32, 0u32, 0u32],
        indirect_ptr: 0,
        is_used: 1,
    }
}

/// Encoding of a directory entry that refers to `r` under `name`.
pub open spec fn entry_bytes(r: u32, name: Seq<u8>) -> Seq<u8> {
    u32_bytes(r) + name + Seq::new((NAME_FIELD - name.len()) as nat, |k: int| 0u8) + u16_bytes(0)
        + seq![0u8, 0u8]
}

/// The medium after `create` claimed inode slot `s` and directory slot `j` for `name`.
pub open spec fn created(bs: Seq<Seq<u8>>, s: int, j: int, name: Seq<u8>) -> Seq<Seq<u8>> {
    bs.update(
        INODE_TABLE_BLOCK as int,
        splice(bs[INODE_TABLE_BLOCK as int], INODE_SIZE * s, new_file_inode().bytes()),
    ).update(
        DIR_BLOCK as int,
        splice(bs[DIR_BLOCK as int], DIRENT_SIZE * j, entry_bytes((s + 1) as u32, name)),
    )
}

/// What `create(name)` does to a medium with blocks `bs`.
pub open spec fn create_outcome(bs: Seq<Seq<u8>>, name: Seq<u8>) -> (Result<u32, FsError>, Seq<
    Seq<u8>,
>) {
    if !valid_name(name) {
        (Err(FsError::InvalidName), bs)
    } else {
        match free_inode_from(bs[INODE_TABLE_BLOCK as int], 0) {
            None => (Err(FsError::TableFull), bs),
            Some(s) => match free_entry_from(bs[DIR_BLOCK as int], 0) {
                None => (Err(FsError::DirectoryFull), bs),
                Some(j) => (Ok(s as u32), created(bs, s, j, name)),
            },
        }
    }
}

/// Creates an empty regular file named `name`: claims the first free inode
/// slot and the first unused directory slot, and writes both records. On
/// `InvalidName`, `TableFull` or `DirectoryFull` the medium is left as it was.
pub fn create<D: BlockDevice>(device: &mut D, name: &[u8]) -> (r: Result<u32, FsError>)
    requires
        holds_layout(old(device).blocks()),
    ensures
        holds_layout(final(device).blocks()),
        (r, final(device).blocks()) == create_outcome(old(device).blocks(), name@),
{
    let ghost bs = device.blocks();
    if name.len() == 0 || name.len() > MAX_NAME_LEN {
        return Err(FsError::InvalidName);
    }
    let mut c: usize = 0;
    while c < name.len()
        invariant
            c <= name@.len(),
            0 < name@.len() <= MAX_NAME_LEN,
            bs == device.blocks(),
            holds_layout(bs),
            forall|k: int| 0 <= k < c ==> name@[k] != 0,
        decreases name@.len() - c,
    {
        if name[c] == 0 {
            return Err(FsError::InvalidName);
        }
        c = c + 1;
    }
    let mut table = [0u8; 512];
    let _ = device.read_block(INODE_TABLE_BLOCK, &mut table);
    let mut slot: usize = 0;
    while slot < INODE_SLOTS && table[INODE_SIZE * slot + 60] != 0
        invariant
            slot <= INODE_SLOTS,
            table@ == bs[INODE_TABLE_BLOCK as int],
            table@.len() == BLOCK_SIZE,
            free_inode_from(table@, 0) == free_inode_from(table@, slot as int),
        decreases INODE_SLOTS - slot,
    {
        slot = slot + 1;
    }
    if slot == INODE_SLOTS {
        return Err(FsError::TableFull);
    }
    let mut dir = [0u8; 512];
    let _ = device.read_block(DIR_BLOCK, &mut dir);
    let mut j: usize = 0;
    while j < DIR_CAPACITY && crate::layout::get_u32(dir.as_slice(), DIRENT_SIZE * j) != 0
        invariant
            j <= DIR_CAPACITY,
            dir@ == bs[DIR_BLOCK as int],
            dir@.len() == BLOCK_SIZE,
            free_entry_from(dir@, 0) == free_entry_from(dir@, j as int),
        decreases DIR_CAPACITY - j,
    {
        j = j + 1;
    }
    if j == DIR_CAPACITY {
        return Err(FsError::DirectoryFull);
    }
    let inode = Inode {
        mode: FILE_MODE,
        size: 0,
        direct_ptrs: [FILE_DATA_BLOCK, 0, 0, 0, 0, 0, 0, 0, 0, 0, 0, 0],
        indirect_ptr: 0,
        is_used: 1,
    };
    assert(inode.direct_ptrs@ =~= new_file_inode().direct_ptrs@);
    inode.encode(&mut table, INODE_SIZE * slot);
    proof {
        inode.lemma_bytes_len();
    }
    let _ = device.write_block(INODE_TABLE_BLOCK, table.as_slice());
    let mut field = [0u8; 28];
    let mut k: usize = 0;
    while k < name.len()
        invariant
            k <= name@.len() <= MAX_NAME_LEN,
            forall|i: int| 0 <= i < k ==> field@[i] == name@[i],
            forall|i: int| k <= i < NAME_FIELD ==> field@[i] == 0,
        decreases name@.len() - k,
    {
        field[k] = name[k];
        k = k + 1;
    }
    let entry = DirEntry { inode_index: (slot + 1) as u32, name: field, _padding: 0 };
    assert(entry.bytes() =~= entry_bytes((slot + 1) as u32, name@));
    entry.encode(&mut dir, DIRENT_SIZE * j);
    let _ = device.write_block(DIR_BLOCK, dir.as_slice());
    proof {
        assert(overlay(bs[INODE_TABLE_BLOCK as int], table@) =~= table@);
        assert(overlay(bs[DIR_BLOCK as int], dir@) =~= dir@);
    }
    Ok(slot as u32)
}

/// The block that holds the content of the file named `name`, or why there is none.
pub open spec fn data_block(bs: Seq<Seq<u8>>, name: Seq<u8>) -> Result<int, FsError> {
    match lookup(bs, name) {
        None => Err(FsError::NotFound),
        Some(ix) => if ix >= INODE_SLOTS {
            Err(FsError::OutOfRange)
        } else {
            let p = le_u32(bs[INODE_TABLE_BLOCK as int], INODE_SIZE * ix + 8);
            if p >= bs.len() {
                Err(FsError::OutOfRange)
            } else {
                Ok(p as int)
            }
        },
    }
}

/// A block holding the first 512 bytes of `data`, zero-filled after them.
pub open spec fn content_block(data: Seq<u8>) -> Seq<u8> {
    Seq::new(BLOCK_SIZE as nat, |k: int| if k < data.len() { data[k] } else { 0u8 })
}

/// Resolves `name` to its data block, following the file's first direct pointer.
fn resolve<D: BlockDevice>(device: &D, name: &[u8]) -> (r: Result<u32, FsError>)
    requires
        holds_layout(device.blocks()),
    ensures
        match data_block(device.blocks(), name@) {
            Ok(p) => r == Ok::<u32, FsError>(p as u32),
            Err(e) => r == Err::<u32, FsError>(e),
        },
{
    let ix = match find(device, name) {
        None => return Err(FsError::NotFound),
        Some(ix) => ix,
    };
    if ix as usize >= INODE_SLOTS {
        return Err(FsError::OutOfRange);
    }
    let mut table = [0u8; 512];
    let _ = device.read_block(INODE_TABLE_BLOCK, &mut table);
    let inode = Inode::decode(&table, INODE_SIZE * ix as usize);
    let blk = inode.direct_ptrs[0];
    if blk as u64 >= device.block_count() {
        return Err(FsError::OutOfRange);
    }
    Ok(blk)
}

/// The whole data block of the file named `name`, regardless of its size field.
pub fn read<D: BlockDevice>(device: &D, name: &[u8]) -> (r: Result<Vec<u8>, FsError>)
    requires
        holds_layout(device.blocks()),
    ensures
        match data_block(device.blocks(), name@) {
            Ok(p) => r is Ok && r->Ok_0@ == device.blocks()[p],
            Err(e) => r == Err::<Vec<u8>, FsError>(e),
        },
{
    let blk = match resolve(device, name) {
        Ok(b) => b,
        Err(e) => return Err(e),
    };
    let mut data = [0u8; 512];
    let _ = device.read_block(blk, &mut data);
    Ok(vstd::slice::slice_to_vec(&data))
}

/// Overwrites the data block of the file named `name` with the first 512
/// bytes of `data`, zero-filled after them. The inode's size is not changed.
pub fn replace_content<D: BlockDevice>(device: &mut D, name: &[u8], data: &[u8]) -> (r: Result<
    (),
    FsError,
>)
    requires
        holds_layout(old(device).blocks()),
    ensures
        holds_layout(final(device).blocks()),
        match data_block(old(device).blocks(), name@) {
            Ok(p) => r == Ok::<(), FsError>(()) && final(device).blocks() == old(
                device,
            ).blocks().update(p, content_block(data@)),
            Err(e) => r == Err::<(), FsError>(e) && final(device).blocks() == old(device).blocks(),
        },
{
    let blk = match resolve(device, name) {
        Ok(b) => b,
        Err(e) => return Err(e),
    };
    let mut buf = [0u8; 512];
    let n = if data.len() < BLOCK_SIZE {
        data.len()
    } else {
        BLOCK_SIZE
    };
    let mut k: usize = 0;
    while k < n
        invariant
            k <= n <= BLOCK_SIZE,
            n <= data@.len(),
            n == data@.len() || n == BLOCK_SIZE,
            buf@.len() == BLOCK_SIZE,
            forall|i: int| 0 <= i < k ==> buf@[i] == data@[i],
            forall|i: int| n <= i < BLOCK_SIZE ==> buf@[i] == 0,
        decreases n - k,
    {
        buf[k] = data[k];
        k = k + 1;
    }
    let ghost bs = device.blocks();
    let _ = device.write_block(blk, &buf);
    proof {
        assert(buf@ =~= content_block(data@));
        assert(overlay(bs[blk as int], buf@) =~= buf@);
    }
    Ok(())
}

/// The superblock that `mkfs` writes.
pub open spec fn format_superblock() -> Superblock {
    Superblock {
        magic: MAGIC,
        total_blocks: 1024,
        total_inodes: 128,
        free_block_bitmap_start: 1,
        inode_table_start: 2,
        data_blocks_start: 10,
    }
}

/// A block of zero bytes.
pub open spec fn zero_block() -> Seq<u8> {
    Seq::new(BLOCK_SIZE as nat, |k: int| 0u8)
}

/// The medium after formatting: an empty directory block, and block 0 holding
/// the superblock followed by zeros.
pub open spec fn formatted(bs: Seq<Seq<u8>>) -> Seq<Seq<u8>> {
    bs.update(DIR_BLOCK as int, zero_block()).update(
        INODE_TABLE_BLOCK as int,
        splice(zero_block(), 0, format_superblock().bytes()),
    )
}

/// Formats the medium: clears the directory block and writes the superblock
/// into an otherwise zeroed block 0.
pub fn mkfs<D: BlockDevice>(device: &mut D)
    requires
        holds_layout(old(device).blocks()),
    ensures
        holds_layout(final(device).blocks()),
        final(device).blocks() == formatted(old(device).blocks()),
{
    let ghost bs = device.blocks();
    let sb = Superblock {
        magic: MAGIC,
        total_blocks: 1024,
        total_inodes: 128,
        free_block_bitmap_start: 1,
        inode_table_start: 2,
        data_blocks_start: 10,
    };
    let mut buf = [0u8; 512];
    let dir_block = [0u8; 512];
    let _ = device.write_block(DIR_BLOCK, &dir_block);
    proof {
        assert(overlay(bs[DIR_BLOCK as int], dir_block@) =~= zero_block());
    }
    sb.encode(&mut buf, 0);
    let ghost mid = device.blocks();
    let _ = device.write_block(INODE_TABLE_BLOCK, &buf);
    proof {
        assert(buf@ =~= splice(zero_block(), 0, format_superblock().bytes()));
        assert(overlay(mid[INODE_TABLE_BLOCK as int], buf@) =~= buf@);
    }
}

/// Kind of a directory entry, from its inode's mode.
#[derive(Debug, Clone, Copy, PartialEq, Eq, Structural)]
pub enum FileKind {
    Dir,
    File,
}

impl FileKind {
    /// The kind's column text in a listing.
    pub fn label(&self) -> (r: &'static str)
        ensures
            r@ == (match self {
                FileKind::Dir => "dir"@,
                FileKind::File => "file"@,
            }),
    {
        match self {
            FileKind::Dir => "dir",
            FileKind::File => "file",
        }
    }
}

/// One line of a directory listing.
pub struct DirListing {
    pub kind: FileKind,
    pub name: Vec<u8>,
}

/// The kind of inode slot `s`, from the directory bit of its mode.
pub open spec fn kind_of(table: Seq<u8>, s: int) -> FileKind {
    if le_u16(table, INODE_SIZE * s) & DIR_MODE_BIT != 0 {
        FileKind::Dir
    } else {
        FileKind::File
    }
}

/// Every in-use directory slot refers to a slot of the inode table.
pub open spec fn refs_in_table(dir: Seq<u8>) -> bool {
    forall|i: int|
        0 <= i < DIR_CAPACITY && #[trigger] entry_ref(dir, i) != 0 ==> entry_ref(dir, i) - 1
            < INODE_SLOTS
}

/// Kind and name of each in-use directory slot from `i` on, in slot order.
pub open spec fn listing_from(bs: Seq<Seq<u8>>, i: int) -> Seq<(FileKind, Seq<u8>)>
    decreases DIR_CAPACITY - i,
{
    if i < 0 || i >= DIR_CAPACITY {
        Seq::empty()
    } else {
        let dir = bs[DIR_BLOCK as int];
        let rest = listing_from(bs, i + 1);
        if entry_ref(dir, i) == 0 {
            rest
        } else {
            seq![
                (
                    kind_of(bs[INODE_TABLE_BLOCK as int], entry_ref(dir, i) - 1),
                    stored_name(name_field(dir, i)),
                ),
            ] + rest
        }
    }
}

/// The listing of a medium with blocks `bs`.
pub open spec fn listing(bs: Seq<Seq<u8>>) -> Seq<(FileKind, Seq<u8>)> {
    listing_from(bs, 0)
}

/// What a sequence of listing lines holds.
pub open spec fn listing_view(v: Seq<DirListing>) -> Seq<(FileKind, Seq<u8>)> {
    v.map_values(|e: DirListing| (e.kind, e.name@))
}

/// The name held by a name field: its bytes before the first NUL.
fn name_of(field: &[u8]) -> (r: Vec<u8>)
    ensures
        r@ == stored_name(field@),
{
    let n = field.len();
    let mut out: Vec<u8> = Vec::new();
    let mut k: usize = 0;
    while k < n && field[k] != 0
        invariant
            k <= n == field@.len(),
            forall|j: int| 0 <= j < k ==> field@[j] != 0,
            out@ == field@.take(k as int),
        decreases n - k,
    {
        out.push(field[k]);
        k = k + 1;
        assert(out@ =~= field@.take(k as int));
    }
    proof {
        lemma_nul_index(field@, k as int);
    }
    out
}

/// Lists the in-use directory entries in slot order, each with its kind.
/// `OutOfRange` when an entry refers past the inode table.
pub fn ls<D: BlockDevice>(device: &D) -> (r: Result<Vec<DirListing>, FsError>)
    requires
        holds_layout(device.blocks()),
    ensures
        r is Ok <==> refs_in_table(device.blocks()[DIR_BLOCK as int]),
        r is Ok ==> listing_view(r->Ok_0@) == listing(device.blocks()),
        r is Err ==> r == Err::<Vec<DirListing>, FsError>(FsError::OutOfRange),
{
    let ghost bs = device.blocks();
    let mut dir = [0u8; 512];
    let _ = device.read_block(DIR_BLOCK, &mut dir);
    let mut out: Vec<DirListing> = Vec::new();
    let mut i: usize = 0;
    while i < DIR_CAPACITY
        invariant
            i <= DIR_CAPACITY,
            bs == device.blocks(),
            holds_layout(bs),
            dir@ == bs[DIR_BLOCK as int],
            dir@.len() == BLOCK_SIZE,
            listing(bs) == listing_view(out@) + listing_from(bs, i as int),
            forall|j: int|
                0 <= j < i && #[trigger] entry_ref(dir@, j) != 0 ==> entry_ref(dir@, j) - 1
                    < INODE_SLOTS,
        decreases DIR_CAPACITY - i,
    {
        let e = DirEntry::decode(&dir, DIRENT_SIZE * i);
        if e.inode_index != 0 {
            if e.inode_index as usize - 1 >= INODE_SLOTS {
                return Err(FsError::OutOfRange);
            }
            let mut table = [0u8; 512];
            let _ = device.read_block(INODE_TABLE_BLOCK, &mut table);
            let mode = crate::layout::get_u16(&table, INODE_SIZE * (e.inode_index as usize - 1));
            let kind = if mode & DIR_MODE_BIT != 0 {
                FileKind::Dir
            } else {
                FileKind::File
            };
            let name = name_of(&e.name);
            let ghost before = out@;
            out.push(DirListing { kind, name });
            proof {
                assert(listing_view(out@) =~= listing_view(before) + seq![
                    (kind, stored_name(name_field(dir@, i as int))),
                ]);
            }
        }
        i = i + 1;
    }
    Ok(out)
}

/// Number of data blocks that a read into a buffer of `len` bytes takes:
/// the pointers from `i` on before the first zero, as many as the buffer needs.
pub open spec fn blocks_needed(ptrs: Seq<u32>, len: int, i: int) -> int
    decreases DIRECT_PTRS - i,
{
    if i < 0 || i >= DIRECT_PTRS || ptrs[i] == 0 || BLOCK_SIZE * i >= len {
        i
    } else {
        blocks_needed(ptrs, len, i + 1)
    }
}

/// The first `n` blocks that `ptrs` points to, one after the other.
pub open spec fn file_data(bs: Seq<Seq<u8>>, ptrs: Seq<u32>, n: int) -> Seq<u8>
    decreases n,
{
    if n <= 0 {
        Seq::empty()
    } else {
        file_data(bs, ptrs, n - 1) + bs[ptrs[n - 1] as int]
    }
}

proof fn lemma_file_data_len(bs: Seq<Seq<u8>>, ptrs: Seq<u32>, n: int)
    requires
        uniform_blocks(bs),
        0 <= n <= ptrs.len(),
        forall|k: int| 0 <= k < n ==> ptrs[k] < bs.len(),
    ensures
        file_data(bs, ptrs, n).len() == BLOCK_SIZE * n,
    decreases n,
{
    if n > 0 {
        lemma_file_data_len(bs, ptrs, n - 1);
    }
}

proof fn lemma_blocks_needed(ptrs: Seq<u32>, len: int, i: int)
    requires
        0 <= i <= DIRECT_PTRS,
    ensures
        i <= blocks_needed(ptrs, len, i) <= DIRECT_PTRS,
    decreases DIRECT_PTRS - i,
{
    if i < DIRECT_PTRS {
        lemma_blocks_needed(ptrs, len, i + 1);
    }
}

/// Fills `buf` from the file's direct blocks in order, stopping at the first
/// zero pointer or when `buf` is full. `OutOfRange`, with `buf` unchanged,
/// when a block that the read takes lies past the medium.
pub fn read_file<D: BlockDevice>(device: &D, inode: &Inode, buf: &mut [u8]) -> (r: Result<
    (),
    FsError,
>)
    requires
        uniform_blocks(device.blocks()),
    ensures
        ({
            let bs = device.blocks();
            let ptrs = inode.direct_ptrs@;
            let n = blocks_needed(ptrs, old(buf)@.len() as int, 0);
            &&& r is Ok <==> forall|k: int| 0 <= k < n ==> ptrs[k] < bs.len()
            &&& r is Ok ==> final(buf)@ == overlay(
                old(buf)@,
                file_data(bs, ptrs, n).take(
                    if old(buf)@.len() < BLOCK_SIZE * n {
                        old(buf)@.len() as int
                    } else {
                        BLOCK_SIZE * n
                    },
                ),
            )
            &&& r is Err ==> r == Err::<(), FsError>(FsError::OutOfRange) && final(buf)@ == old(
                buf,
            )@
        }),
{
    let ghost bs = device.blocks();
    let ghost ptrs = inode.direct_ptrs@;
    let len = buf.len();
    let mut data: Vec<u8> = Vec::new();
    let mut i: usize = 0;
    while i < DIRECT_PTRS && inode.direct_ptrs[i] != 0 && BLOCK_SIZE * i < len
        invariant
            i <= DIRECT_PTRS,
            len == buf@.len(),
            bs == device.blocks(),
            uniform_blocks(bs),
            ptrs == inode.direct_ptrs@,
            blocks_needed(ptrs, len as int, 0) == blocks_needed(ptrs, len as int, i as int),
            forall|k: int| 0 <= k < i ==> ptrs[k] < bs.len(),
            data@ == file_data(bs, ptrs, i as int),
        decreases DIRECT_PTRS - i,
    {
        let mut tmp = [0u8; 512];
        match device.read_block(inode.direct_ptrs[i], &mut tmp) {
            Ok(()) => {},
            Err(e) => {
                proof {
                    lemma_blocks_needed(ptrs, len as int, i + 1);
                }
                return Err(e);
            },
        }
        let mut k: usize = 0;
        let ghost before = data@;
        while k < BLOCK_SIZE
            invariant
                k <= BLOCK_SIZE,
                tmp@.len() == BLOCK_SIZE,
                data@ == before + tmp@.take(k as int),
            decreases BLOCK_SIZE - k,
        {
            data.push(tmp[k]);
            k = k + 1;
            assert(data@ =~= before + tmp@.take(k as int));
        }
        assert(tmp@.take(512) =~= tmp@);
        i = i + 1;
    }
    proof {
        lemma_file_data_len(bs, ptrs, i as int);
    }
    let m = if len < BLOCK_SIZE * i {
        len
    } else {
        BLOCK_SIZE * i
    };
    let src = vstd::slice::slice_subrange(data.as_slice(), 0, m);
    crate::layout::put_bytes(buf, 0, src);
    assert(splice(old(buf)@, 0, src@) =~= overlay(old(buf)@, src@));
    Ok(())
}

/// Names of the in-use entries of directory block `dir` from slot `i` on.
pub open spec fn names_in(dir: Seq<u8>, i: int) -> Seq<Seq<u8>>
    decreases DIR_CAPACITY - i,
{
    if i < 0 || i >= DIR_CAPACITY {
        Seq::empty()
    } else if entry_ref(dir, i) == 0 {
        names_in(dir, i + 1)
    } else {
        seq![stored_name(name_field(dir, i))] + names_in(dir, i + 1)
    }
}

/// Names in the directory blocks that the first `k` non-zero pointers point to.
pub open spec fn dir_names(bs: Seq<Seq<u8>>, ptrs: Seq<u32>, k: int) -> Seq<Seq<u8>>
    decreases k,
{
    if k <= 0 {
        Seq::empty()
    } else if ptrs[k - 1] == 0 {
        dir_names(bs, ptrs, k - 1)
    } else {
        dir_names(bs, ptrs, k - 1) + names_in(bs[ptrs[k - 1] as int], 0)
    }
}

/// Names of the in-use entries of one directory block, in slot order.
fn block_names(dir: &[u8]) -> (r: Vec<Vec<u8>>)
    requires
        dir@.len() == BLOCK_SIZE,
    ensures
        r@.map_values(|v: Vec<u8>| v@) == names_in(dir@, 0),
{
    let mut out: Vec<Vec<u8>> = Vec::new();
    let mut i: usize = 0;
    while i < DIR_CAPACITY
        invariant
            i <= DIR_CAPACITY,
            dir@.len() == BLOCK_SIZE,
            names_in(dir@, 0) == out@.map_values(|v: Vec<u8>| v@) + names_in(dir@, i as int),
        decreases DIR_CAPACITY - i,
    {
        let e = DirEntry::decode(dir, DIRENT_SIZE * i);
        if e.inode_index != 0 {
            let name = name_of(&e.name);
            let ghost before = out@;
            out.push(name);
            assert(out@.map_values(|v: Vec<u8>| v@) =~= before.map_values(|v: Vec<u8>| v@) + seq![
                stored_name(name_field(dir@, i as int)),
            ]);
        }
        i = i + 1;
    }
    assert(out@.map_values(|v: Vec<u8>| v@) =~= names_in(dir@, 0));
    out
}

/// Names of the in-use entries of every directory block of `dir_inode`,
/// skipping zero pointers. `OutOfRange` when a pointer lies past the medium.
pub fn list_dir<D: BlockDevice>(device: &D, dir_inode: &Inode) -> (r: Result<
    Vec<Vec<u8>>,
    FsError,
>)
    requires
        uniform_blocks(device.blocks()),
    ensures
        ({
            let bs = device.blocks();
            let ptrs = dir_inode.direct_ptrs@;
            &&& r is Ok <==> forall|k: int|
                0 <= k < DIRECT_PTRS && ptrs[k] != 0 ==> ptrs[k] < bs.len()
            &&& r is Ok ==> r->Ok_0@.map_values(|v: Vec<u8>| v@) == dir_names(
                bs,
                ptrs,
                DIRECT_PTRS as int,
            )
            &&& r is Err ==> r == Err::<Vec<Vec<u8>>, FsError>(FsError::OutOfRange)
        }),
{
    let ghost bs = device.blocks();
    let ghost ptrs = dir_inode.direct_ptrs@;
    let mut out: Vec<Vec<u8>> = Vec::new();
    let mut i: usize = 0;
    while i < DIRECT_PTRS
        invariant
            i <= DIRECT_PTRS,
            bs == device.blocks(),
            uniform_blocks(bs),
            ptrs == dir_inode.direct_ptrs@,
            forall|k: int| 0 <= k < i && ptrs[k] != 0 ==> ptrs[k] < bs.len(),
            out@.map_values(|v: Vec<u8>| v@) == dir_names(bs, ptrs, i as int),
        decreases DIRECT_PTRS - i,
    {
        let block = dir_inode.direct_ptrs[i];
        if block != 0 {
            let mut buf = [0u8; 512];
            match device.read_block(block, &mut buf) {
                Ok(()) => {},
                Err(e) => return Err(e),
            }
            let mut names = block_names(&buf);
            let ghost before = out@;
            let ghost added = names@;
            out.append(&mut names);
            assert(out@.map_values(|v: Vec<u8>| v@) =~= before.map_values(|v: Vec<u8>| v@)
                + added.map_values(|v: Vec<u8>| v@));
        }
        i = i + 1;
    }
    Ok(out)
}

/// Number of inodes of `table` with a non-zero size.
pub open spec fn count_sized(table: Seq<Inode>) -> nat
    decreases table.len(),
{
    if table.len() == 0 {
        0
    } else {
        count_sized(table.drop_last()) + if table.last().size > 0 {
            1nat
        } else {
            0nat
        }
    }
}

/// Writes "file" into the first slots of `files`, one for each inode of
/// `inode_table` with a non-zero size, and "" into the remaining slots.
pub fn list_files<D: BlockDevice>(device: &D, inode_table: &[Inode], files: &mut [&str])
    ensures
        final(files)@.len() == old(files)@.len(),
        forall|k: int|
            0 <= k < old(files)@.len() ==> (#[trigger] final(files)@[k])@ == if k < count_sized(
                inode_table@,
            ) {
                "file"@
            } else {
                ""@
            },
{
    let n = files.len();
    let mut index: usize = 0;
    let mut i: usize = 0;
    while i < inode_table.len() && index < n
        invariant
            i <= inode_table@.len(),
            index <= n == files@.len(),
            index == count_sized(inode_table@.take(i as int)),
            forall|k: int| 0 <= k < index ==> (#[trigger] files@[k])@ == "file"@,
        decreases inode_table@.len() - i,
    {
        assert(inode_table@.take(i + 1).drop_last() =~= inode_table@.take(i as int));
        if inode_table[i].size > 0 {
            files[index] = "file";
            proof {
                reveal_strlit("file");
            }
            index = index + 1;
        }
        i = i + 1;
    }
    proof {
        lemma_count_sized_bounds(inode_table@, i as int, index as int, n as int);
    }
    let mut k: usize = index;
    while k < n
        invariant
            index <= k <= n == files@.len(),
            forall|j: int| 0 <= j < index ==> (#[trigger] files@[j])@ == "file"@,
            forall|j: int| index <= j < k ==> (#[trigger] files@[j])@ == ""@,
        decreases n - k,
    {
        files[k] = "";
        proof {
            reveal_strlit("");
        }
        k = k + 1;
    }
}

proof fn lemma_count_sized_prefix(table: Seq<Inode>, i: int)
    requires
        0 <= i <= table.len(),
    ensures
        count_sized(table.take(i)) <= count_sized(table),
        count_sized(table.take(i)) >= count_sized(table) - (table.len() - i),
    decreases table.len() - i,
{
    if i < table.len() {
        lemma_count_sized_prefix(table, i + 1);
        assert(table.take(i + 1).drop_last() =~= table.take(i));
    } else {
        assert(table.take(i) =~= table);
    }
}

/// When the scan of `list_files` stops, its count is the one its contract
/// speaks of, or the output is already full.
proof fn lemma_count_sized_bounds(table: Seq<Inode>, i: int, index: int, n: int)
    requires
        0 <= i <= table.len(),
        index == count_sized(table.take(i)),
        i == table.len() || index >= n,
        index <= n,
    ensures
        index == n || index == count_sized(table),
        index <= count_sized(table),
{
    lemma_count_sized_prefix(table, i);
    if i == table.len() {
        assert(table.take(i) =~= table);
    }
}

} // verus!
