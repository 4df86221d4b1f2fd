//! Properties of the storage engine that relate several operations, stated
//! over the specifications that the operations' contracts use.
use vstd::prelude::*;
use crate::device::FsError;
use crate::fs::{
    create_outcome, created, data_block, entry_bytes, entry_ref, find_from, free_entry_from,
    free_inode_from, holds_layout, lookup, name_field, new_file_inode, lemma_nul_index, slot_holds,
    stored_name, valid_name, content_block, formatted, listing, listing_from, zero_block,
};
use crate::layout::{
    BLOCK_SIZE, DIRENT_SIZE, DIR_CAPACITY, FILE_DATA_BLOCK, INODE_SIZE, INODE_SLOTS, byte_of,
    le_u32, lemma_le_u32_of_bytes, lemma_u32s_bytes_index, splice,
};

verus! {

proof fn lemma_splice_at(s: Seq<u8>, off: int, w: Seq<u8>)
    requires
        0 <= off,
        off + w.len() <= s.len(),
    ensures
        splice(s, off, w).len() == s.len(),
        forall|k: int| 0 <= k < w.len() ==> #[trigger] splice(s, off, w)[off + k] == w[k],
        forall|x: int|
            0 <= x < s.len() && (x < off || x >= off + w.len()) ==> #[trigger] splice(
                s,
                off,
                w,
            )[x] == s[x],
{
}

/// A slot whose bytes are untouched keeps its reference and name.
proof fn lemma_slot_unchanged(dir: Seq<u8>, j: int, w: Seq<u8>, k: int)
    requires
        dir.len() == BLOCK_SIZE,
        0 <= j < DIR_CAPACITY,
        0 <= k < DIR_CAPACITY,
        k != j,
        w.len() == DIRENT_SIZE,
    ensures
        entry_ref(splice(dir, DIRENT_SIZE * j, w), k) == entry_ref(dir, k),
        name_field(splice(dir, DIRENT_SIZE * j, w), k) == name_field(dir, k),
{
    let d1 = splice(dir, DIRENT_SIZE * j, w);
    lemma_splice_at(dir, DIRENT_SIZE * j, w);
    assert(d1[36 * k] == dir[36 * k]);
    assert(d1[36 * k + 1] == dir[36 * k + 1]);
    assert(d1[36 * k + 2] == dir[36 * k + 2]);
    assert(d1[36 * k + 3] == dir[36 * k + 3]);
    assert(name_field(d1, k) =~= name_field(dir, k));
}

/// The entry written by `create` holds its reference and name.
proof fn lemma_new_entry(dir: Seq<u8>, j: int, r: u32, name: Seq<u8>)
    requires
        dir.len() == BLOCK_SIZE,
        0 <= j < DIR_CAPACITY,
        valid_name(name),
    ensures
        entry_ref(splice(dir, DIRENT_SIZE * j, entry_bytes(r, name)), j) == r,
        stored_name(name_field(splice(dir, DIRENT_SIZE * j, entry_bytes(r, name)), j)) == name,
{
    let w = entry_bytes(r, name);
    let d1 = splice(dir, DIRENT_SIZE * j, w);
    assert(w.len() == DIRENT_SIZE);
    lemma_splice_at(dir, DIRENT_SIZE * j, w);
    assert(d1[36 * j] == byte_of(r, 0));
    assert(d1[36 * j + 1] == byte_of(r, 1));
    assert(d1[36 * j + 2] == byte_of(r, 2));
    assert(d1[36 * j + 3] == byte_of(r, 3));
    lemma_le_u32_of_bytes(r);
    let f = name_field(d1, j);
    assert(f =~= w.subrange(4, 32));
    assert(f.take(name.len() as int) =~= name);
    assert(f[name.len() as int] == 0);
    lemma_nul_index(f, name.len() as int);
}

proof fn lemma_find_none(dir: Seq<u8>, name: Seq<u8>, i: int)
    requires
        0 <= i,
        find_from(dir, name, i) is None,
    ensures
        forall|k: int| i <= k < DIR_CAPACITY ==> !slot_holds(dir, k, name),
    decreases DIR_CAPACITY - i,
{
    if i < DIR_CAPACITY {
        lemma_find_none(dir, name, i + 1);
    }
}

proof fn lemma_find_same(d0: Seq<u8>, d1: Seq<u8>, name: Seq<u8>, i: int)
    requires
        0 <= i,
        forall|k: int|
            i <= k < DIR_CAPACITY ==> slot_holds(d0, k, name) == slot_holds(d1, k, name) && (
            slot_holds(d0, k, name) ==> entry_ref(d0, k) == entry_ref(d1, k)),
    ensures
        find_from(d0, name, i) == find_from(d1, name, i),
    decreases DIR_CAPACITY - i,
{
    if i < DIR_CAPACITY {
        lemma_find_same(d0, d1, name, i + 1);
    }
}

proof fn lemma_find_first(dir: Seq<u8>, name: Seq<u8>, i: int, j: int)
    requires
        0 <= i <= j < DIR_CAPACITY,
        slot_holds(dir, j, name),
        forall|k: int| i <= k < j ==> !slot_holds(dir, k, name),
    ensures
        find_from(dir, name, i) == Some((entry_ref(dir, j) - 1) as u32),
    decreases j - i,
{
    if i < j {
        lemma_find_first(dir, name, i + 1, j);
    }
}

proof fn lemma_free_inode(table: Seq<u8>, s: int)
    ensures
        free_inode_from(table, s) matches Some(x) ==> s <= x < INODE_SLOTS,
    decreases INODE_SLOTS - s,
{
    if 0 <= s < INODE_SLOTS {
        lemma_free_inode(table, s + 1);
    }
}

proof fn lemma_free_entry(dir: Seq<u8>, i: int)
    requires
        0 <= i,
    ensures
        free_entry_from(dir, i) matches Some(x) ==> i <= x < DIR_CAPACITY && entry_ref(dir, x)
            == 0,
        free_entry_from(dir, i) is None ==> forall|k: int|
            i <= k < DIR_CAPACITY ==> entry_ref(dir, k) != 0,
    decreases DIR_CAPACITY - i,
{
    if 0 <= i < DIR_CAPACITY {
        lemma_free_entry(dir, i + 1);
    }
}

/// The first pointer of the inode written by `create` is the shared data block.
proof fn lemma_new_inode_ptr(table: Seq<u8>, s: int)
    requires
        table.len() == BLOCK_SIZE,
        0 <= s < INODE_SLOTS,
    ensures
        le_u32(splice(table, INODE_SIZE * s, new_file_inode().bytes()), INODE_SIZE * s + 8)
            == FILE_DATA_BLOCK,
{
    let ino = new_file_inode();
    let w = ino.bytes();
    ino.lemma_bytes_len();
    lemma_splice_at(table, INODE_SIZE * s, w);
    lemma_u32s_bytes_index(ino.direct_ptrs@, 0, 0);
    lemma_u32s_bytes_index(ino.direct_ptrs@, 0, 1);
    lemma_u32s_bytes_index(ino.direct_ptrs@, 0, 2);
    lemma_u32s_bytes_index(ino.direct_ptrs@, 0, 3);
    assert(w[8] == byte_of(3, 0));
    assert(w[9] == byte_of(3, 1));
    assert(w[10] == byte_of(3, 2));
    assert(w[11] == byte_of(3, 3));
    lemma_le_u32_of_bytes(3);
}

/// After a successful `create(name)` of a name that was absent, a lookup of
/// `name` yields the inode index that `create` returned, and the file's data
/// block is the shared data block.
pub proof fn lemma_lookup_after_create(bs: Seq<Seq<u8>>, name: Seq<u8>)
    requires
        holds_layout(bs),
        valid_name(name),
        lookup(bs, name) is None,
        create_outcome(bs, name).0 is Ok,
    ensures
        lookup(create_outcome(bs, name).1, name) == Some(create_outcome(bs, name).0->Ok_0),
        data_block(create_outcome(bs, name).1, name) == Ok::<int, FsError>(
            FILE_DATA_BLOCK as int,
        ),
{
    let s = free_inode_from(bs[0], 0)->Some_0;
    let j = free_entry_from(bs[2], 0)->Some_0;
    lemma_free_inode(bs[0], 0);
    lemma_free_entry(bs[2], 0);
    let bs1 = created(bs, s, j, name);
    let d0 = bs[2];
    let d1 = bs1[2];
    assert(entry_bytes((s + 1) as u32, name).len() == DIRENT_SIZE);
    lemma_new_entry(d0, j, (s + 1) as u32, name);
    lemma_find_none(d0, name, 0);
    assert forall|k: int| 0 <= k < j implies !slot_holds(d1, k, name) by {
        lemma_slot_unchanged(d0, j, entry_bytes((s + 1) as u32, name), k);
        assert(d1 == splice(d0, DIRENT_SIZE * j, entry_bytes((s + 1) as u32, name)));
        assert(entry_ref(d1, k) == entry_ref(d0, k));
        assert(!slot_holds(d0, k, name));
    }
    lemma_find_first(d1, name, 0, j);
    lemma_new_inode_ptr(bs[0], s);
}

/// A `create(name)` leaves the lookup of every other name as it was.
pub proof fn lemma_create_keeps_other_names(bs: Seq<Seq<u8>>, name: Seq<u8>, other: Seq<u8>)
    requires
        holds_layout(bs),
        valid_name(name),
        other != name,
    ensures
        lookup(create_outcome(bs, name).1, other) == lookup(bs, other),
{
    if create_outcome(bs, name).0 is Ok {
        let s = free_inode_from(bs[0], 0)->Some_0;
        let j = free_entry_from(bs[2], 0)->Some_0;
        lemma_free_inode(bs[0], 0);
        lemma_free_entry(bs[2], 0);
        let d0 = bs[2];
        let d1 = created(bs, s, j, name)[2];
        let w = entry_bytes((s + 1) as u32, name);
        assert(w.len() == DIRENT_SIZE);
        lemma_new_entry(d0, j, (s + 1) as u32, name);
        assert forall|k: int| 0 <= k < DIR_CAPACITY implies slot_holds(d0, k, other)
            == slot_holds(d1, k, other) && (slot_holds(d0, k, other) ==> entry_ref(d0, k)
            == entry_ref(d1, k)) by {
            assert(d1 == splice(d0, DIRENT_SIZE * j, w));
            if k != j {
                lemma_slot_unchanged(d0, j, w, k);
            }
        }
        lemma_find_same(d0, d1, other, 0);
    }
}

/// Round trip: on a medium where `name` is absent, a successful
/// `create(name)` followed by `replace_content(name, content)` leaves `read(name)`
/// returning `content` at the start of the block and zeros after it.
pub proof fn lemma_round_trip(bs: Seq<Seq<u8>>, name: Seq<u8>, content: Seq<u8>)
    requires
        holds_layout(bs),
        valid_name(name),
        lookup(bs, name) is None,
        create_outcome(bs, name).0 is Ok,
        content.len() <= BLOCK_SIZE,
    ensures
        ({
            let bs1 = create_outcome(bs, name).1;
            let bs2 = bs1.update(FILE_DATA_BLOCK as int, content_block(content));
            &&& data_block(bs1, name) == Ok::<int, FsError>(FILE_DATA_BLOCK as int)
            &&& data_block(bs2, name) == Ok::<int, FsError>(FILE_DATA_BLOCK as int)
            &&& bs2[FILE_DATA_BLOCK as int].take(content.len() as int) == content
            &&& forall|k: int|
                content.len() <= k < BLOCK_SIZE ==> bs2[FILE_DATA_BLOCK as int][k] == 0
        }),
{
    lemma_lookup_after_create(bs, name);
    let bs1 = create_outcome(bs, name).1;
    let bs2 = bs1.update(FILE_DATA_BLOCK as int, content_block(content));
    assert(bs2[0] == bs1[0] && bs2[2] == bs1[2]);
    assert(bs2[FILE_DATA_BLOCK as int].take(content.len() as int) =~= content);
}

/// Round trip in general: after a successful `create(name)`, when `name`
/// resolves to a data block other than the inode-table and directory blocks,
/// `replace_content(name, content)` succeeds and `read(name)` returns
/// `content` followed by zeros. (Writing into either of those two blocks
/// rewrites the records that the lookup itself reads.)
pub proof fn lemma_round_trip_resolved(bs: Seq<Seq<u8>>, name: Seq<u8>, content: Seq<u8>)
    requires
        holds_layout(bs),
        valid_name(name),
        create_outcome(bs, name).0 is Ok,
        content.len() <= BLOCK_SIZE,
        data_block(create_outcome(bs, name).1, name) is Ok,
        data_block(create_outcome(bs, name).1, name)->Ok_0 != 0,
        data_block(create_outcome(bs, name).1, name)->Ok_0 != 2,
    ensures
        ({
            let bs1 = create_outcome(bs, name).1;
            let p = data_block(bs1, name)->Ok_0;
            let bs2 = bs1.update(p, content_block(content));
            &&& data_block(bs2, name) == Ok::<int, FsError>(p)
            &&& bs2[p].take(content.len() as int) == content
            &&& forall|k: int| content.len() <= k < BLOCK_SIZE ==> bs2[p][k] == 0
        }),
{
    let bs1 = create_outcome(bs, name).1;
    let p = data_block(bs1, name)->Ok_0;
    let bs2 = bs1.update(p, content_block(content));
    assert(bs2[0] == bs1[0] && bs2[2] == bs1[2]);
    assert(bs2[p].take(content.len() as int) =~= content);
}

/// Overwrite: two `replace_content` calls on a file whose data block is
/// neither the inode-table block nor the directory block leave exactly the
/// second content in that block, with nothing of the first.
pub proof fn lemma_overwrite(bs: Seq<Seq<u8>>, name: Seq<u8>, c1: Seq<u8>, c2: Seq<u8>)
    requires
        holds_layout(bs),
        data_block(bs, name) is Ok,
        data_block(bs, name)->Ok_0 != 0,
        data_block(bs, name)->Ok_0 != 2,
    ensures
        ({
            let p = data_block(bs, name)->Ok_0;
            let bs1 = bs.update(p, content_block(c1));
            let bs2 = bs1.update(p, content_block(c2));
            &&& data_block(bs1, name) == Ok::<int, FsError>(p)
            &&& data_block(bs2, name) == Ok::<int, FsError>(p)
            &&& bs2[p] == content_block(c2)
        }),
{
    let p = data_block(bs, name)->Ok_0;
    let bs1 = bs.update(p, content_block(c1));
    let bs2 = bs1.update(p, content_block(c2));
    assert(bs1[0] == bs[0] && bs1[2] == bs[2]);
    assert(bs2[0] == bs[0] && bs2[2] == bs[2]);
}

proof fn lemma_empty_dir(bs: Seq<Seq<u8>>, i: int)
    requires
        0 <= i,
        bs.len() > 2,
        bs[2] == zero_block(),
    ensures
        listing_from(bs, i) == Seq::<(crate::fs::FileKind, Seq<u8>)>::empty(),
        forall|name: Seq<u8>| find_from(bs[2], name, i) is None,
    decreases DIR_CAPACITY - i,
{
    if i < DIR_CAPACITY {
        lemma_empty_dir(bs, i + 1);
        let z = 0u8;
        assert(((z as u32) | ((z as u32) << 8u32) | ((z as u32) << 16u32) | ((z as u32)
            << 24u32)) == 0u32) by (bit_vector)
            requires
                z == 0,
        ;
        assert(entry_ref(bs[2], i) == 0);
        assert forall|name: Seq<u8>| find_from(bs[2], name, i) is None by {
            assert(find_from(bs[2], name, i + 1) is None);
        }
    }
}

/// Format: after `mkfs` the listing is empty and no name is found; formatting
/// again gives the same medium, so its listing is empty again.
pub proof fn lemma_format(bs: Seq<Seq<u8>>)
    requires
        holds_layout(bs),
    ensures
        listing(formatted(bs)) == Seq::<(crate::fs::FileKind, Seq<u8>)>::empty(),
        forall|name: Seq<u8>| lookup(formatted(bs), name) is None,
        formatted(formatted(bs)) == formatted(bs),
        listing(formatted(formatted(bs))) == Seq::<(crate::fs::FileKind, Seq<u8>)>::empty(),
{
    let f = formatted(bs);
    assert(f[2] == zero_block());
    lemma_empty_dir(f, 0);
    assert(formatted(f) =~= f);
}

proof fn lemma_listing_len(bs: Seq<Seq<u8>>, i: int)
    requires
        0 <= i <= DIR_CAPACITY,
    ensures
        listing_from(bs, i).len() <= DIR_CAPACITY - i,
    decreases DIR_CAPACITY - i,
{
    if i < DIR_CAPACITY {
        lemma_listing_len(bs, i + 1);
    }
}

/// Capacity: a listing never holds more than the directory's capacity, and
/// when every directory slot is in use `create` fails with a full condition
/// and leaves the medium, and so its listing, as it was.
pub proof fn lemma_capacity(bs: Seq<Seq<u8>>, name: Seq<u8>)
    requires
        holds_layout(bs),
        valid_name(name),
    ensures
        listing(bs).len() <= DIR_CAPACITY,
        (forall|i: int| 0 <= i < DIR_CAPACITY ==> entry_ref(bs[2], i) != 0) ==> {
            &&& (create_outcome(bs, name).0 == Err::<u32, FsError>(FsError::DirectoryFull)
                || create_outcome(bs, name).0 == Err::<u32, FsError>(FsError::TableFull))
            &&& create_outcome(bs, name).1 == bs
        },
{
    lemma_listing_len(bs, 0);
    if forall|i: int| 0 <= i < DIR_CAPACITY ==> entry_ref(bs[2], i) != 0 {
        lemma_free_entry(bs[2], 0);
        assert(free_entry_from(bs[2], 0) is None);
    }
}

proof fn lemma_listing_grows_from(bs: Seq<Seq<u8>>, name: Seq<u8>, s: int, j: int, i: int)
    requires
        holds_layout(bs),
        valid_name(name),
        0 <= s < INODE_SLOTS,
        0 <= j < DIR_CAPACITY,
        entry_ref(bs[2], j) == 0,
        0 <= i <= DIR_CAPACITY,
    ensures
        listing_from(created(bs, s, j, name), i).len() == listing_from(bs, i).len() + if i <= j {
            1int
        } else {
            0int
        },
    decreases DIR_CAPACITY - i,
{
    if i < DIR_CAPACITY {
        lemma_listing_grows_from(bs, name, s, j, i + 1);
        let w = entry_bytes((s + 1) as u32, name);
        assert(w.len() == DIRENT_SIZE);
        let d1 = created(bs, s, j, name)[2];
        assert(d1 == splice(bs[2], DIRENT_SIZE * j, w));
        if i == j {
            lemma_new_entry(bs[2], j, (s + 1) as u32, name);
        } else {
            lemma_slot_unchanged(bs[2], j, w, i);
        }
    }
}

/// Each successful `create` adds exactly one line to the listing, so after
/// `k` successful creates on a formatted medium the listing has `k` lines.
pub proof fn lemma_create_adds_one_line(bs: Seq<Seq<u8>>, name: Seq<u8>)
    requires
        holds_layout(bs),
        valid_name(name),
        create_outcome(bs, name).0 is Ok,
    ensures
        listing(create_outcome(bs, name).1).len() == listing(bs).len() + 1,
{
    let s = free_inode_from(bs[0], 0)->Some_0;
    let j = free_entry_from(bs[2], 0)->Some_0;
    lemma_free_inode(bs[0], 0);
    lemma_free_entry(bs[2], 0);
    lemma_listing_grows_from(bs, name, s, j, 0);
}

} // verus!
