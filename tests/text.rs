use ppos::device::{BlockDevice, FsError, PPDev};
use ppos::fs::{create, mkfs, replace_content};
use ppos::text::read_text;

fn with_file(content: &[u8]) -> PPDev {
    let mut dev = PPDev::new();
    mkfs(&mut dev);
    create(&mut dev, b"t").unwrap();
    replace_content(&mut dev, b"t", content).unwrap();
    dev
}

#[test]
fn text_is_trimmed_at_the_start() {
    let dev = with_file(b" \t\n hi there");
    let txt = read_text(&dev, b"t").unwrap();
    assert!(txt.starts_with("hi there"));
    assert_eq!(txt.len(), 512 - 4);
    assert!(txt["hi there".len()..].chars().all(|c| c == '\0'));
}

#[test]
fn unicode_whitespace_is_trimmed() {
    let dev = with_file("\u{a0}\u{3000}é".as_bytes());
    assert!(read_text(&dev, b"t").unwrap().starts_with("é"));
}

#[test]
fn invalid_utf8_gives_placeholder() {
    let dev = with_file(&[0xFF, 0xFE, b'a']);
    assert_eq!(read_text(&dev, b"t").unwrap(), "<non-UTF8>");
}

#[test]
fn text_of_missing_file() {
    let mut dev = PPDev::new();
    mkfs(&mut dev);
    assert_eq!(read_text(&dev, b"nothing"), Err(FsError::NotFound));
    let mut buf = [0u8; 512];
    assert_eq!(dev.read_block(3, &mut buf), Ok(()));
}
