use ppos::console::{cursor_bytes, parse_color, pofetch, reset_colors, Keyboard, ASCII_ART, NO_COLOR};
use ppos::shell::{parse_command, Command, EditAction, LineEditor, BUFFER_SIZE};

#[test]
fn keyboard_plain_and_shifted() {
    let mut kb = Keyboard::new();
    kb.init();
    assert_eq!(kb.get_key(0x1E), Some('a'));
    assert_eq!(kb.get_key(0x02), Some('1'));
    assert_eq!(kb.get_key(0x2A), None);
    assert!(kb.shift_pressed);
    assert_eq!(kb.get_key(0x1E), Some('A'));
    assert_eq!(kb.get_key(0x02), Some('!'));
    assert_eq!(kb.get_key(0xAA), None);
    assert!(!kb.shift_pressed);
    assert_eq!(kb.get_key(0x1E), Some('a'));
}

#[test]
fn keyboard_caps_lock() {
    let mut kb = Keyboard::new();
    assert_eq!(kb.get_key(0x3A), None);
    assert!(kb.caps_lock);
    assert_eq!(kb.get_key(0x10), Some('Q'));
    assert_eq!(kb.get_key(0x36), None);
    assert_eq!(kb.get_key(0x10), Some('q'));
    assert_eq!(kb.get_key(0x02), Some('!'));
    assert_eq!(kb.get_key(0xB6), None);
    assert_eq!(kb.get_key(0x3A), None);
    assert_eq!(kb.get_key(0x10), Some('q'));
}

#[test]
fn keyboard_special_codes() {
    let mut kb = Keyboard::new();
    assert_eq!(kb.get_key(0x0E), Some('\x08'));
    assert_eq!(kb.get_key(0x1C), Some('\n'));
    assert_eq!(kb.get_key(0x39), Some(' '));
    assert_eq!(kb.get_key(0x01), Some('\0'));
    assert_eq!(kb.get_key(0xE0), None);
    assert!(kb.extended);
    assert_eq!(kb.get_key(0x9E), None);
    assert!(!kb.shift_pressed);
}

#[test]
fn colors_by_name() {
    assert_eq!(parse_color(b"black"), 0);
    assert_eq!(parse_color(b"red"), 4);
    assert_eq!(parse_color(b"lightgreen"), 10);
    assert_eq!(parse_color(b"white"), 15);
    assert_eq!(parse_color(b"Red"), NO_COLOR);
    assert_eq!(parse_color(b""), NO_COLOR);
    assert_eq!(reset_colors(), (0x07, 0x00));
}

#[test]
fn cursor_register_bytes() {
    assert_eq!(cursor_bytes(0, 0), (0, 0));
    assert_eq!(cursor_bytes(1, 5), (85, 0));
    assert_eq!(cursor_bytes(24, 79), (207, 7));
}

#[test]
fn banner_pieces() {
    let p = pofetch();
    assert_eq!(p.concat(), format!("{}\nPopoenOS at version 0.0.1\n", ASCII_ART));
}

#[test]
fn line_editor_keys() {
    let mut ed = LineEditor::new();
    assert_eq!(ed.feed('\x08'), EditAction::Echo('\x08'));
    assert_eq!(ed.line, vec![8u8]);
    assert_eq!(ed.feed('l'), EditAction::Echo('l'));
    assert_eq!(ed.feed('\x08'), EditAction::Erase);
    assert_eq!(ed.line, vec![8u8]);
    assert_eq!(ed.feed('\n'), EditAction::Submit);
    ed.clear();
    assert!(ed.line.is_empty());
    for _ in 0..BUFFER_SIZE {
        assert_eq!(ed.feed('x'), EditAction::Echo('x'));
    }
    assert_eq!(ed.feed('y'), EditAction::Ignore);
    assert_eq!(ed.line.len(), BUFFER_SIZE);
}

#[test]
fn commands_parse() {
    assert_eq!(parse_command(b"  ls "), Command::Ls);
    assert_eq!(parse_command(b"cat  notes "), Command::Cat(b"notes".to_vec()));
    assert_eq!(parse_command(b"touch a.txt"), Command::Touch(b"a.txt".to_vec()));
    assert_eq!(parse_command(b"touch \t"), Command::Unknown(b"touch".to_vec()));
    assert_eq!(parse_command(b">> f hello world "), Command::Append(b"f".to_vec(), b"hello world".to_vec()));
    assert_eq!(parse_command(b">> f"), Command::AppendUsage);
    assert_eq!(parse_command(b">>  x"), Command::AppendUsage);
    assert_eq!(parse_command(b"clear"), Command::Clear);
    assert_eq!(parse_command(b"pofetch"), Command::Fetch);
    assert_eq!(parse_command(b"neofetch"), Command::Fetch);
    assert_eq!(parse_command(b"exit"), Command::Exit);
    assert_eq!(parse_command(b"rm x"), Command::Unknown(b"rm x".to_vec()));
    assert_eq!(parse_command(b"   "), Command::Unknown(Vec::new()));
}
