use ppos::display::{clear, print, Screen, SCREEN_BYTES};

fn cell(s: &Screen, row: usize, col: usize) -> (u8, u8) {
    let p = 2 * (row * 80 + col);
    (s.cells[p], s.cells[p + 1])
}

#[test]
fn plain_text_and_cursor() {
    let mut s = Screen::new();
    assert_eq!(s.cells.len(), SCREEN_BYTES);
    print(&mut s, b"hi");
    assert_eq!(cell(&s, 0, 0), (b'h', 0x07));
    assert_eq!(cell(&s, 0, 1), (b'i', 0x07));
    assert_eq!((s.row, s.col), (0, 2));
    assert_eq!((s.cursor_row, s.cursor_col), (0, 2));
    print(&mut s, b"\nx");
    assert_eq!(cell(&s, 1, 0), (b'x', 0x07));
    print(&mut s, b"yz\rA");
    assert_eq!(cell(&s, 1, 0), (b'A', 0x07));
    assert_eq!((s.row, s.col), (1, 1));
}

#[test]
fn colour_tags() {
    let mut s = Screen::new();
    print(&mut s, b"[red]a[bgblue white]b[reset]c");
    assert_eq!(cell(&s, 0, 0), (b'a', 0x04));
    assert_eq!(cell(&s, 0, 1), (b'b', 0x1F));
    assert_eq!(cell(&s, 0, 2), (b'c', 0x07));
    print(&mut s, b"d");
    assert_eq!(cell(&s, 0, 3), (b'd', 0x07));
}

#[test]
fn invalid_tag_prints_marks() {
    let mut s = Screen::new();
    print(&mut s, b"[nope]x");
    assert_eq!(cell(&s, 0, 0), (b'?', 0x04));
    assert_eq!(cell(&s, 0, 1), (b'?', 0x04));
    assert_eq!(cell(&s, 0, 2), (b'x', 0x07));
    assert_eq!((s.cursor_row, s.cursor_col), (0, 3));
}

#[test]
fn escaped_brackets() {
    let mut s = Screen::new();
    print(&mut s, b"[[a");
    assert_eq!(cell(&s, 0, 0), (b'[', 0x07));
    assert_eq!(cell(&s, 0, 1), (b'a', 0x07));
    let mut t = Screen::new();
    print(&mut t, b"[ab]]c");
    assert_eq!(cell(&t, 0, 0), (b']', 0x07));
    assert_eq!(cell(&t, 0, 1), (b'c', 0x07));
    let mut u = Screen::new();
    print(&mut u, b"a[b");
    assert_eq!(cell(&u, 0, 0), (b'a', 0x07));
    assert_eq!(cell(&u, 0, 1), (b'b', 0x07));
}

#[test]
fn tab_and_backspace() {
    let mut s = Screen::new();
    print(&mut s, b"a\tb");
    assert_eq!(cell(&s, 0, 4), (b'b', 0x07));
    print(&mut s, b"\x08");
    assert_eq!(cell(&s, 0, 4), (b' ', 0x07));
    assert_eq!(s.col, 4);
    let mut t = Screen::new();
    print(&mut t, b"\x7f");
    assert_eq!((t.row, t.col), (0, 0));
}

#[test]
fn wrap_and_scroll() {
    let mut s = Screen::new();
    let line = vec![b'q'; 81];
    print(&mut s, &line);
    assert_eq!((s.row, s.col), (1, 1));
    assert_eq!(cell(&s, 1, 0), (b'q', 0x07));
    let mut t = Screen::new();
    print(&mut t, b"top");
    for _ in 0..24 {
        print(&mut t, b"\n");
    }
    assert_eq!(t.row, 24);
    print(&mut t, b"\n");
    assert_eq!(t.row, 24);
    assert_eq!(cell(&t, 0, 0), (b' ', 0x07));
    print(&mut t, b"z");
    assert_eq!(cell(&t, 24, 0), (b'z', 0x07));
}

#[test]
fn long_text_is_cut() {
    let mut s = Screen::new();
    let text = vec![b'x'; 1100];
    print(&mut s, &text);
    assert_eq!((s.row, s.col), (1024 / 80, 1024 % 80));
}

#[test]
fn clear_blanks_screen() {
    let mut s = Screen::new();
    print(&mut s, b"[green]hello\nworld");
    clear(&mut s);
    assert!(s.cells.chunks(2).all(|c| c == [b' ', 0x07]));
    assert_eq!((s.row, s.col, s.cursor_row, s.cursor_col), (0, 0, 0, 0));
}

#[test]
fn escapes_wrap_at_last_column() {
    let mut s = Screen::new();
    print(&mut s, &[b'.'; 79]);
    assert_eq!((s.row, s.col), (0, 79));
    print(&mut s, b"[[x");
    assert_eq!(cell(&s, 0, 79), (b'[', 0x07));
    assert_eq!(cell(&s, 1, 0), (b'x', 0x07));
    assert_eq!((s.row, s.col), (1, 1));
    let mut t = Screen::new();
    print(&mut t, &[b'.'; 79]);
    print(&mut t, b"[a]]y");
    assert_eq!(cell(&t, 0, 79), (b']', 0x07));
    assert_eq!(cell(&t, 1, 0), (b'y', 0x07));
}
