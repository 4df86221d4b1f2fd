use ppos::device::{BlockDevice, FsError, PPDev};
use ppos::fs::{create, find, list_dir, list_files, ls, mkfs, read, read_file, replace_content, FileKind};
use ppos::kernel::pomain;
use ppos::layout::{DirEntry, Inode, Superblock, DIR_CAPACITY, INODE_SLOTS, MAGIC};

fn formatted() -> PPDev {
    let mut dev = PPDev::new();
    mkfs(&mut dev);
    dev
}

fn block(dev: &PPDev, n: u32) -> [u8; 512] {
    let mut buf = [0u8; 512];
    dev.read_block(n, &mut buf).unwrap();
    buf
}

#[test]
fn scenario_hello() {
    let mut dev = formatted();
    assert_eq!(create(&mut dev, b"hello"), Ok(0));
    assert_eq!(replace_content(&mut dev, b"hello", b"hi"), Ok(()));
    let data = read(&dev, b"hello").unwrap();
    assert_eq!(data.len(), 512);
    assert!(data.starts_with(b"hi"));
    let listing = ls(&dev).unwrap();
    assert_eq!(listing.len(), 1);
    assert_eq!(listing[0].kind, FileKind::File);
    assert_eq!(listing[0].kind.label(), "file");
    assert_eq!(listing[0].name, b"hello".to_vec());
}

#[test]
fn find_missing_on_fresh_medium() {
    let dev = formatted();
    assert_eq!(find(&dev, b"missing"), None);
}

#[test]
fn round_trip_content() {
    let mut dev = formatted();
    let content: Vec<u8> = (0..300u32).map(|i| (i % 251) as u8 + 1).collect();
    assert!(create(&mut dev, b"data.bin").is_ok());
    assert_eq!(replace_content(&mut dev, b"data.bin", &content), Ok(()));
    let got = read(&dev, b"data.bin").unwrap();
    assert_eq!(&got[..300], &content[..]);
    assert!(got[300..].iter().all(|&b| b == 0));
}

#[test]
fn round_trip_full_block() {
    let mut dev = formatted();
    let content = vec![b'x'; 512];
    create(&mut dev, b"big").unwrap();
    replace_content(&mut dev, b"big", &content).unwrap();
    assert_eq!(read(&dev, b"big").unwrap(), content);
}

#[test]
fn long_content_is_truncated() {
    let mut dev = formatted();
    let content = vec![7u8; 700];
    create(&mut dev, b"long").unwrap();
    replace_content(&mut dev, b"long", &content).unwrap();
    assert_eq!(read(&dev, b"long").unwrap(), vec![7u8; 512]);
}

#[test]
fn format_twice_gives_empty_listing() {
    let mut dev = formatted();
    create(&mut dev, b"a").unwrap();
    mkfs(&mut dev);
    assert_eq!(ls(&dev).unwrap().len(), 0);
    mkfs(&mut dev);
    assert_eq!(ls(&dev).unwrap().len(), 0);
    assert_eq!(find(&dev, b"a"), None);
}

#[test]
fn format_writes_superblock() {
    let dev = formatted();
    let b0 = block(&dev, 0);
    assert_eq!(&b0[0..4], &[0x53, 0x4f, 0x50, 0x50]);
    assert_eq!(u32::from_le_bytes([b0[4], b0[5], b0[6], b0[7]]), 1024);
    assert_eq!(u32::from_le_bytes([b0[8], b0[9], b0[10], b0[11]]), 128);
    assert_eq!(u32::from_le_bytes([b0[20], b0[21], b0[22], b0[23]]), 10);
    assert!(b0[24..].iter().all(|&b| b == 0));
    assert!(block(&dev, 2).iter().all(|&b| b == 0));
}

#[test]
fn lookup_index_after_each_create() {
    let mut dev = formatted();
    for i in 0..INODE_SLOTS {
        let name = format!("f{}", i);
        assert_eq!(find(&dev, name.as_bytes()), None);
        let ix = create(&mut dev, name.as_bytes()).unwrap();
        assert_eq!(ix, i as u32);
        assert_eq!(find(&dev, name.as_bytes()), Some(ix));
        assert_eq!(find(&dev, name.as_bytes()), Some(ix));
    }
    assert_eq!(find(&dev, b"f"), None);
    assert_eq!(find(&dev, b"f10"), None);
}

#[test]
fn inode_table_fills_before_directory() {
    let mut dev = formatted();
    for i in 0..(DIR_CAPACITY + 1) {
        let name = format!("n{}", i);
        let r = create(&mut dev, name.as_bytes());
        if i < INODE_SLOTS {
            assert_eq!(r, Ok(i as u32));
        } else {
            assert_eq!(r, Err(FsError::TableFull));
        }
    }
    assert_eq!(ls(&dev).unwrap().len(), INODE_SLOTS);
}

#[test]
fn full_directory_reports_directory_full() {
    let mut dev = formatted();
    let mut dir = [0u8; 512];
    for j in 0..DIR_CAPACITY {
        let mut name = [0u8; 28];
        name[0] = b'a' + j as u8;
        let e = DirEntry { inode_index: 1, name, _padding: 0 };
        e.encode(&mut dir, 36 * j);
    }
    dev.write_block(2, &dir).unwrap();
    let before = block(&dev, 0);
    assert_eq!(create(&mut dev, b"extra"), Err(FsError::DirectoryFull));
    assert_eq!(block(&dev, 0), before);
    assert_eq!(block(&dev, 2), dir);
    assert_eq!(ls(&dev).unwrap().len(), DIR_CAPACITY);
}

#[test]
fn overwrite_leaves_no_residue() {
    let mut dev = formatted();
    create(&mut dev, b"note").unwrap();
    replace_content(&mut dev, b"note", b"first content, rather long").unwrap();
    replace_content(&mut dev, b"note", b"second").unwrap();
    let got = read(&dev, b"note").unwrap();
    assert_eq!(&got[..6], b"second");
    assert!(got[6..].iter().all(|&b| b == 0));
}

#[test]
fn all_files_share_the_data_block() {
    let mut dev = formatted();
    create(&mut dev, b"one").unwrap();
    create(&mut dev, b"two").unwrap();
    replace_content(&mut dev, b"one", b"AAA").unwrap();
    replace_content(&mut dev, b"two", b"BB").unwrap();
    assert_eq!(&read(&dev, b"one").unwrap()[..3], b"BB\0");
}

#[test]
fn missing_names_report_not_found() {
    let mut dev = formatted();
    assert_eq!(read(&dev, b"ghost"), Err(FsError::NotFound));
    assert_eq!(replace_content(&mut dev, b"ghost", b"x"), Err(FsError::NotFound));
}

#[test]
fn names_compare_exactly() {
    let mut dev = formatted();
    create(&mut dev, b"Hello").unwrap();
    assert_eq!(find(&dev, b"hello"), None);
    assert_eq!(find(&dev, b"Hell"), None);
    assert_eq!(find(&dev, b"Hello!"), None);
    assert_eq!(find(&dev, b"Hello"), Some(0));
    let longest = [b'z'; 27];
    let ix = create(&mut dev, &longest).unwrap();
    assert_eq!(find(&dev, &longest), Some(ix));
}

#[test]
fn block_out_of_range() {
    let mut dev = PPDev::new();
    let mut buf = [1u8; 512];
    assert_eq!(dev.read_block(8, &mut buf), Err(FsError::OutOfRange));
    assert_eq!(buf, [1u8; 512]);
    assert_eq!(dev.write_block(8, &[1, 2, 3]), Err(FsError::OutOfRange));
    assert_eq!(dev.read_block(7, &mut buf), Ok(()));
    assert_eq!(buf, [0u8; 512]);
}

#[test]
fn partial_write_keeps_rest_of_block() {
    let mut dev = PPDev::new();
    dev.write_block(5, &[9u8; 512]).unwrap();
    dev.write_block(5, &[1, 2, 3]).unwrap();
    let b = block(&dev, 5);
    assert_eq!(&b[..4], &[1, 2, 3, 9]);
    assert!(b[3..].iter().all(|&x| x == 9));
    assert!(block(&dev, 4).iter().all(|&x| x == 0));
    assert!(block(&dev, 6).iter().all(|&x| x == 0));
}

#[test]
fn dangling_pointer_is_out_of_range() {
    let mut dev = formatted();
    create(&mut dev, b"f").unwrap();
    let mut table = block(&dev, 0);
    let mut ino = Inode::decode(&table, 0);
    ino.direct_ptrs[0] = 40;
    ino.encode(&mut table, 0);
    dev.write_block(0, &table).unwrap();
    assert_eq!(read(&dev, b"f"), Err(FsError::OutOfRange));
}

#[test]
fn directory_entry_past_table_is_out_of_range() {
    let mut dev = formatted();
    let mut dir = [0u8; 512];
    let e = DirEntry { inode_index: 9, name: [b'q'; 28], _padding: 0 };
    e.encode(&mut dir, 0);
    dev.write_block(2, &dir).unwrap();
    assert_eq!(read(&dev, b"qqqqqqqqqqqqqqqqqqqqqqqqqqqq"), Err(FsError::OutOfRange));
    assert!(ls(&dev).is_err());
}

#[test]
fn listing_reports_directories() {
    let mut dev = formatted();
    create(&mut dev, b"d").unwrap();
    create(&mut dev, b"f").unwrap();
    let mut table = block(&dev, 0);
    let mut ino = Inode::decode(&table, 0);
    ino.mode = 0o40755;
    ino.encode(&mut table, 0);
    dev.write_block(0, &table).unwrap();
    let listing = ls(&dev).unwrap();
    assert_eq!(listing[0].kind, FileKind::Dir);
    assert_eq!(listing[0].kind.label(), "dir");
    assert_eq!(listing[1].kind, FileKind::File);
    assert_eq!(listing[1].name, b"f".to_vec());
}

#[test]
fn codec_round_trips() {
    let mut buf = [0u8; 512];
    let ino = Inode { mode: 0o100644, size: 77, direct_ptrs: [3, 4, 5, 0, 0, 0, 0, 0, 0, 0, 0, 9], indirect_ptr: 11, is_used: 1 };
    ino.encode(&mut buf, 64);
    assert_eq!(&buf[64..66], &[0xa4, 0x81]);
    assert_eq!(buf[124], 1);
    let back = Inode::decode(&buf, 64);
    assert_eq!(back.mode, 0o100644);
    assert_eq!(back.size, 77);
    assert_eq!(back.direct_ptrs, [3, 4, 5, 0, 0, 0, 0, 0, 0, 0, 0, 9]);
    assert_eq!(back.indirect_ptr, 11);
    assert_eq!(back.is_used, 1);
    let sb = Superblock { magic: MAGIC, total_blocks: 1, total_inodes: 2, free_block_bitmap_start: 3, inode_table_start: 4, data_blocks_start: 5 };
    sb.encode(&mut buf, 0);
    assert_eq!(&buf[0..8], &[0x53, 0x4f, 0x50, 0x50, 1, 0, 0, 0]);
    let e = DirEntry { inode_index: 0x01020304, name: [b'n'; 28], _padding: 0x0506 };
    e.encode(&mut buf, 36);
    assert_eq!(&buf[36..40], &[4, 3, 2, 1]);
    assert_eq!(&buf[68..72], &[6, 5, 0, 0]);
    let back = DirEntry::decode(&buf, 36);
    assert_eq!(back.inode_index, 0x01020304);
    assert_eq!(back.name, [b'n'; 28]);
    assert_eq!(back._padding, 0x0506);
}

#[test]
fn read_file_follows_pointers() {
    let mut dev = PPDev::new();
    dev.write_block(3, &[1u8; 512]).unwrap();
    dev.write_block(4, &[2u8; 512]).unwrap();
    let ino = Inode { mode: 0, size: 0, direct_ptrs: [3, 4, 0, 5, 0, 0, 0, 0, 0, 0, 0, 0], indirect_ptr: 0, is_used: 1 };
    let mut buf = vec![9u8; 1100];
    assert_eq!(read_file(&dev, &ino, &mut buf), Ok(()));
    assert!(buf[..512].iter().all(|&b| b == 1));
    assert!(buf[512..1024].iter().all(|&b| b == 2));
    assert!(buf[1024..].iter().all(|&b| b == 9));
    let mut small = vec![0u8; 600];
    assert_eq!(read_file(&dev, &ino, &mut small), Ok(()));
    assert!(small[512..].iter().all(|&b| b == 2));
    let bad = Inode { mode: 0, size: 0, direct_ptrs: [3, 50, 0, 0, 0, 0, 0, 0, 0, 0, 0, 0], indirect_ptr: 0, is_used: 1 };
    let mut buf2 = vec![9u8; 1024];
    assert_eq!(read_file(&dev, &bad, &mut buf2), Err(FsError::OutOfRange));
    assert!(buf2.iter().all(|&b| b == 9));
    let mut short = vec![9u8; 512];
    assert_eq!(read_file(&dev, &bad, &mut short), Ok(()));
}

#[test]
fn list_dir_collects_names() {
    let mut dev = formatted();
    create(&mut dev, b"alpha").unwrap();
    create(&mut dev, b"beta").unwrap();
    let dir_inode = Inode { mode: 0o40755, size: 0, direct_ptrs: [0, 2, 0, 2, 0, 0, 0, 0, 0, 0, 0, 0], indirect_ptr: 0, is_used: 1 };
    let names = list_dir(&dev, &dir_inode).unwrap();
    assert_eq!(names, vec![b"alpha".to_vec(), b"beta".to_vec(), b"alpha".to_vec(), b"beta".to_vec()]);
    let bad = Inode { mode: 0o40755, size: 0, direct_ptrs: [2, 90, 0, 0, 0, 0, 0, 0, 0, 0, 0, 0], indirect_ptr: 0, is_used: 1 };
    assert_eq!(list_dir(&dev, &bad), Err(FsError::OutOfRange));
}

#[test]
fn list_files_marks_sized_inodes() {
    let dev = PPDev::new();
    let mk = |size: u32| Inode { mode: 0, size, direct_ptrs: [0; 12], indirect_ptr: 0, is_used: 1 };
    let table = vec![mk(0), mk(5), mk(1), mk(0)];
    let mut files = ["x"; 4];
    list_files(&dev, &table, &mut files);
    assert_eq!(files, ["file", "file", "", ""]);
    let mut one = ["x"; 1];
    list_files(&dev, &table, &mut one);
    assert_eq!(one, ["file"]);
}

#[test]
fn pomain_formats_and_builds_root() {
    let (dev, root) = pomain();
    assert_eq!(&block(&dev, 0)[0..4], &MAGIC.to_le_bytes());
    assert_eq!(ls(&dev).unwrap().len(), 0);
    assert_eq!(root.mode, 0o755);
    assert_eq!(root.size, 0);
    assert_eq!(root.direct_ptrs, [0; 12]);
    assert_eq!(root.is_used, 1);
}

#[test]
fn names_that_do_not_fit_are_rejected() {
    let mut dev = formatted();
    let before0 = block(&dev, 0);
    let before2 = block(&dev, 2);
    assert_eq!(create(&mut dev, b""), Err(FsError::InvalidName));
    assert_eq!(create(&mut dev, &[b'a'; 28]), Err(FsError::InvalidName));
    assert_eq!(create(&mut dev, &[b'a'; 40]), Err(FsError::InvalidName));
    assert_eq!(create(&mut dev, b"a\0b"), Err(FsError::InvalidName));
    assert_eq!(block(&dev, 0), before0);
    assert_eq!(block(&dev, 2), before2);
    assert_eq!(create(&mut dev, &[b'a'; 27]), Ok(0));
}

#[test]
fn read_block_into_longer_buffer() {
    let mut dev = PPDev::new();
    dev.write_block(6, &[5u8; 512]).unwrap();
    let mut buf = vec![1u8; 600];
    assert_eq!(dev.read_block(6, &mut buf), Ok(()));
    assert!(buf[..512].iter().all(|&b| b == 5));
    assert!(buf[512..].iter().all(|&b| b == 1));
    let mut other = vec![1u8; 600];
    assert_eq!(dev.read_block(8, &mut other), Err(FsError::OutOfRange));
    assert!(other.iter().all(|&b| b == 1));
}

#[test]
fn data_pointer_at_directory_block_breaks_round_trip() {
    let mut dev = formatted();
    create(&mut dev, b"odd").unwrap();
    let mut table = block(&dev, 0);
    let mut ino = Inode::decode(&table, 0);
    ino.direct_ptrs[0] = 2;
    ino.encode(&mut table, 0);
    dev.write_block(0, &table).unwrap();
    assert_eq!(replace_content(&mut dev, b"odd", b"zzzz"), Ok(()));
    assert_eq!(read(&dev, b"odd"), Err(FsError::NotFound));
}
