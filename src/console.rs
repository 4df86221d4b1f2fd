//! Console logic without the hardware: PS/2 scancode decoding, colour names
//! of the text display, the cursor register value and the banner text.
use vstd::prelude::*;

verus! {

/// Unshifted characters of scancodes 0x00..0x7F ('\0' where none).
pub const SCANCODE_SET2: [char; 128] = [
    '\0', '\0', '1', '2', '3', '4', '5', '6', '7', '8', '9', '0', '-', '=', '\0', '\0',
    'q', 'w', 'e', 'r', 't', 'y', 'u', 'i', 'o', 'p', '[', ']', '\n', '\0', 'a', 's',
    'd', 'f', 'g', 'h', 'j', 'k', 'l', ';', '\'', '`', '\0', '\\', 'z', 'x', 'c', 'v',
    'b', 'n', 'm', ',', '.', '/', '\0', '*', '\0', ' ', '\0', '\0', '\0', '\0', '\0', '\0',
    '\0', '\0', '\0', '\0', '\0', '\0', '\0', '\0', '\0', '\0', '\0', '\0', '\0', '\0', '\0', '\0',
    '\0', '\0', '\0', '\0', '\0', '\0', '\0', '\0', '\0', '\0', '\0', '\0', '\0', '\0', '\0', '\0',
    '\0', '\0', '\0', '\0', '\0', '\0', '\0', '\0', '\0', '\0', '\0', '\0', '\0', '\0', '\0', '\0',
    '\0', '\0', '\0', '\0', '\0', '\0', '\0', '\0', '\0', '\0', '\0', '\0', '\0', '\0', '\0', '\0',
];

/// Shifted characters of scancodes 0x00..0x7F ('\0' where none).
pub const SHIFT_SCANCODE_SET2: [char; 128] = [
    '\0', '\0', '!', '@', '#', '$', '%', '^', '&', '*', '(', ')', '_', '+', '\0', '\0',
    'Q', 'W', 'E', 'R', 'T', 'Y', 'U', 'I', 'O', 'P', '{', '}', '\n', '\0', 'A', 'S',
    'D', 'F', 'G', 'H', 'J', 'K', 'L', ':', '"', '~', '\0', '|', 'Z', 'X', 'C', 'V',
    'B', 'N', 'M', '<', '>', '?', '\0', '*', '\0', ' ', '\0', '\0', '\0', '\0', '\0', '\0',
    '\0', '\0', '\0', '\0', '\0', '\0', '\0', '\0', '\0', '\0', '\0', '\0', '\0', '\0', '\0', '\0',
    '\0', '\0', '\0', '\0', '\0', '\0', '\0', '\0', '\0', '\0', '\0', '\0', '\0', '\0', '\0', '\0',
    '\0', '\0', '\0', '\0', '\0', '\0', '\0', '\0', '\0', '\0', '\0', '\0', '\0', '\0', '\0', '\0',
    '\0', '\0', '\0', '\0', '\0', '\0', '\0', '\0', '\0', '\0', '\0', '\0', '\0', '\0', '\0', '\0',
];

/// `c` is an ASCII letter.
pub open spec fn is_ascii_letter(c: char) -> bool {
    ('a' <= c && c <= 'z') || ('A' <= c && c <= 'Z')
}

/// `c` with an ASCII letter put in upper case (`upper`) or lower case.
pub open spec fn with_case(c: char, upper: bool) -> char {
    if upper && 'a' <= c && c <= 'z' {
        ((c as u32) - 32) as char
    } else if !upper && 'A' <= c && c <= 'Z' {
        ((c as u32) + 32) as char
    } else {
        c
    }
}

/// The character of a pressed key with scancode `code` (below 0x80).
pub open spec fn key_char(code: u8, shift: bool, caps: bool) -> char {
    let c = if shift {
        SHIFT_SCANCODE_SET2@[code as int]
    } else {
        SCANCODE_SET2@[code as int]
    };
    if is_ascii_letter(c) {
        with_case(c, caps != shift)
    } else {
        c
    }
}

fn change_case(c: char, upper: bool) -> (r: char)
    ensures
        r == with_case(c, upper),
{
    if upper && 'a' <= c && c <= 'z' {
        ((c as u8) - 32) as char
    } else if !upper && 'A' <= c && c <= 'Z' {
        ((c as u8) + 32) as char
    } else {
        c
    }
}

/// Scancode that announces an extended key.
pub const EXTENDED_PREFIX: u8 = 0xE0;
/// Left and right shift keys.
pub const LEFT_SHIFT: u8 = 0x2A;
pub const RIGHT_SHIFT: u8 = 0x36;
/// Caps Lock key.
pub const CAPS_LOCK: u8 = 0x3A;
/// Backspace key.
pub const BACKSPACE: u8 = 0x0E;

/// Modifier state of a PS/2 keyboard between scancodes.
#[derive(Debug, Clone, Copy, PartialEq, Eq, Structural)]
pub struct Keyboard {
    pub shift_pressed: bool,
    pub caps_lock: bool,
    pub extended: bool,
}

impl Keyboard {
    /// No modifier active.
    pub fn new() -> (r: Keyboard)
        ensures
            r == (Keyboard { shift_pressed: false, caps_lock: false, extended: false }),
    {
        Keyboard { shift_pressed: false, caps_lock: false, extended: false }
    }

    /// Prepares the keyboard; the decoder needs no set-up.
    pub fn init(&mut self)
        ensures
            *final(self) == *old(self),
    {
    }

    /// Decodes one scancode read from the data port: updates the modifiers
    /// and returns the character of a pressed key, if it has one.
    pub fn get_key(&mut self, scancode: u8) -> (r: Option<char>)
        ensures
            scancode == EXTENDED_PREFIX ==> r is None && *final(self) == (Keyboard {
                extended: true,
                ..*old(self)
            }),
            scancode != EXTENDED_PREFIX && scancode >= 0x80 ==> r is None && *final(self) == (
            Keyboard {
                shift_pressed: if scancode - 0x80 == LEFT_SHIFT || scancode - 0x80
                    == RIGHT_SHIFT {
                    false
                } else {
                    old(self).shift_pressed
                },
                ..*old(self)
            }),
            scancode == LEFT_SHIFT || scancode == RIGHT_SHIFT ==> r is None && *final(self) == (
            Keyboard { shift_pressed: true, ..*old(self) }),
            scancode == CAPS_LOCK ==> r is None && *final(self) == (Keyboard {
                caps_lock: !old(self).caps_lock,
                ..*old(self)
            }),
            scancode == BACKSPACE ==> r == Some('\x08') && *final(self) == *old(self),
            scancode < 0x80 && scancode != LEFT_SHIFT && scancode != RIGHT_SHIFT && scancode
                != CAPS_LOCK && scancode != BACKSPACE ==> r == Some(
                key_char(scancode, old(self).shift_pressed, old(self).caps_lock),
            ) && *final(self) == *old(self),
    {
        if scancode == EXTENDED_PREFIX {
            self.extended = true;
            return None;
        }
        if scancode & 0x80 != 0 {
            let key = scancode & 0x7F;
            assert(scancode & 0x80 != 0 ==> scancode & 0x7F == scancode - 0x80) by (bit_vector);
            if key == LEFT_SHIFT || key == RIGHT_SHIFT {
                self.shift_pressed = false;
            }
            return None;
        }
        assert(scancode & 0x80 == 0 ==> scancode < 0x80) by (bit_vector);
        if scancode == LEFT_SHIFT || scancode == RIGHT_SHIFT {
            self.shift_pressed = true;
            None
        } else if scancode == CAPS_LOCK {
            self.caps_lock = !self.caps_lock;
            None
        } else if scancode == BACKSPACE {
            Some('\x08')
        } else {
            let character = if self.shift_pressed {
                SHIFT_SCANCODE_SET2[scancode as usize]
            } else {
                SCANCODE_SET2[scancode as usize]
            };
            if ('a' <= character && character <= 'z') || ('A' <= character && character <= 'Z') {
                Some(change_case(character, self.caps_lock != self.shift_pressed))
            } else {
                Some(character)
            }
        }
    }
}

/// Name of VGA colour `code` (0..15) as it appears in a colour tag.
pub open spec fn color_name(code: int) -> Seq<u8> {
    if code == 0 {
        seq!['b' as u8, 'l' as u8, 'a' as u8, 'c' as u8, 'k' as u8]
    } else if code == 1 {
        seq!['b' as u8, 'l' as u8, 'u' as u8, 'e' as u8]
    } else if code == 2 {
        seq!['g' as u8, 'r' as u8, 'e' as u8, 'e' as u8, 'n' as u8]
    } else if code == 3 {
        seq!['c' as u8, 'y' as u8, 'a' as u8, 'n' as u8]
    } else if code == 4 {
        seq!['r' as u8, 'e' as u8, 'd' as u8]
    } else if code == 5 {
        seq!['m' as u8, 'a' as u8, 'g' as u8, 'e' as u8, 'n' as u8, 't' as u8, 'a' as u8]
    } else if code == 6 {
        seq!['b' as u8, 'r' as u8, 'o' as u8, 'w' as u8, 'n' as u8]
    } else if code == 7 {
        seq!['g' as u8, 'r' as u8, 'a' as u8, 'y' as u8]
    } else if code == 8 {
        seq!['d' as u8, 'a' as u8, 'r' as u8, 'k' as u8, 'g' as u8, 'r' as u8, 'a' as u8, 'y' as u8]
    } else if code == 9 {
        seq!['l' as u8, 'i' as u8, 'g' as u8, 'h' as u8, 't' as u8, 'b' as u8, 'l' as u8, 'u' as u8, 'e' as u8]
    } else if code == 10 {
        seq!['l' as u8, 'i' as u8, 'g' as u8, 'h' as u8, 't' as u8, 'g' as u8, 'r' as u8, 'e' as u8, 'e' as u8, 'n' as u8]
    } else if code == 11 {
        seq!['l' as u8, 'i' as u8, 'g' as u8, 'h' as u8, 't' as u8, 'c' as u8, 'y' as u8, 'a' as u8, 'n' as u8]
    } else if code == 12 {
        seq!['l' as u8, 'i' as u8, 'g' as u8, 'h' as u8, 't' as u8, 'r' as u8, 'e' as u8, 'd' as u8]
    } else if code == 13 {
        seq!['p' as u8, 'i' as u8, 'n' as u8, 'k' as u8]
    } else if code == 14 {
        seq!['y' as u8, 'e' as u8, 'l' as u8, 'l' as u8, 'o' as u8, 'w' as u8]
    } else {
        seq!['w' as u8, 'h' as u8, 'i' as u8, 't' as u8, 'e' as u8]
    }
}

/// Code returned for a name that is no colour.
pub const NO_COLOR: u8 = 0xFF;

fn color_name_bytes(code: u8) -> (r: Vec<u8>)
    requires
        code < 16,
    ensures
        r@ == color_name(code as int),
{
    let r = if code == 0 {
        vec!['b' as u8, 'l' as u8, 'a' as u8, 'c' as u8, 'k' as u8]
    } else if code == 1 {
        vec!['b' as u8, 'l' as u8, 'u' as u8, 'e' as u8]
    } else if code == 2 {
        vec!['g' as u8, 'r' as u8, 'e' as u8, 'e' as u8, 'n' as u8]
    } else if code == 3 {
        vec!['c' as u8, 'y' as u8, 'a' as u8, 'n' as u8]
    } else if code == 4 {
        vec!['r' as u8, 'e' as u8, 'd' as u8]
    } else if code == 5 {
        vec!['m' as u8, 'a' as u8, 'g' as u8, 'e' as u8, 'n' as u8, 't' as u8, 'a' as u8]
    } else if code == 6 {
        vec!['b' as u8, 'r' as u8, 'o' as u8, 'w' as u8, 'n' as u8]
    } else if code == 7 {
        vec!['g' as u8, 'r' as u8, 'a' as u8, 'y' as u8]
    } else if code == 8 {
        vec!['d' as u8, 'a' as u8, 'r' as u8, 'k' as u8, 'g' as u8, 'r' as u8, 'a' as u8, 'y' as u8]
    } else if code == 9 {
        vec!['l' as u8, 'i' as u8, 'g' as u8, 'h' as u8, 't' as u8, 'b' as u8, 'l' as u8, 'u' as u8, 'e' as u8]
    } else if code == 10 {
        vec!['l' as u8, 'i' as u8, 'g' as u8, 'h' as u8, 't' as u8, 'g' as u8, 'r' as u8, 'e' as u8, 'e' as u8, 'n' as u8]
    } else if code == 11 {
        vec!['l' as u8, 'i' as u8, 'g' as u8, 'h' as u8, 't' as u8, 'c' as u8, 'y' as u8, 'a' as u8, 'n' as u8]
    } else if code == 12 {
        vec!['l' as u8, 'i' as u8, 'g' as u8, 'h' as u8, 't' as u8, 'r' as u8, 'e' as u8, 'd' as u8]
    } else if code == 13 {
        vec!['p' as u8, 'i' as u8, 'n' as u8, 'k' as u8]
    } else if code == 14 {
        vec!['y' as u8, 'e' as u8, 'l' as u8, 'l' as u8, 'o' as u8, 'w' as u8]
    } else {
        vec!['w' as u8, 'h' as u8, 'i' as u8, 't' as u8, 'e' as u8]
    };
    assert(r@ =~= color_name(code as int));
    r
}

/// Whether two byte strings are equal.
pub fn bytes_equal(a: &[u8], b: &[u8]) -> (r: bool)
    ensures
        r == (a@ == b@),
{
    if a.len() != b.len() {
        return false;
    }
    let mut k: usize = 0;
    while k < a.len()
        invariant
            k <= a@.len() == b@.len(),
            forall|j: int| 0 <= j < k ==> a@[j] == b@[j],
        decreases a@.len() - k,
    {
        if a[k] != b[k] {
            return false;
        }
        k = k + 1;
    }
    assert(a@ =~= b@);
    true
}

/// The first colour from `c` on whose name is `n`, or `NO_COLOR`.
pub open spec fn color_from(n: Seq<u8>, c: int) -> u8
    decreases 16 - c,
{
    if c < 0 || c >= 16 {
        NO_COLOR
    } else if n == color_name(c) {
        c as u8
    } else {
        color_from(n, c + 1)
    }
}

/// The VGA colour code named `n`, or `NO_COLOR`.
pub open spec fn color_code(n: Seq<u8>) -> u8 {
    color_from(n, 0)
}

/// The VGA colour code named `n`, or `NO_COLOR` when `n` names none.
pub fn parse_color(n: &[u8]) -> (r: u8)
    ensures
        r == color_code(n@),
        r < 16 ==> n@ == color_name(r as int),
        r >= 16 ==> r == NO_COLOR && forall|c: int| 0 <= c < 16 ==> n@ != color_name(c),
{
    let mut code: u8 = 0;
    while code < 16
        invariant
            code <= 16,
            forall|c: int| 0 <= c < code ==> n@ != color_name(c),
            color_code(n@) == color_from(n@, code as int),
        decreases 16 - code,
    {
        let name = color_name_bytes(code);
        if bytes_equal(n, name.as_slice()) {
            return code;
        }
        code = code + 1;
    }
    NO_COLOR
}

/// Default foreground and background: light gray on black.
pub fn reset_colors() -> (r: (u8, u8))
    ensures
        r == (7u8, 0u8),
{
    (0x07, 0x00)
}

/// Width of the text display in cells.
pub const WIDTH: usize = 80;
/// Height of the text display in cells.
pub const HEIGHT: usize = 25;

/// Low and high byte of the cursor-location register for a cell.
pub fn cursor_bytes(row: usize, col: usize) -> (r: (u8, u8))
    requires
        row * WIDTH + col <= usize::MAX,
    ensures
        r.0 == (row * WIDTH + col) % 256,
        r.1 == ((row * WIDTH + col) / 256) % 256,
{
    let pos = row * WIDTH + col;
    assert((pos & 0xFF) == pos % 256) by (bit_vector);
    assert(((pos >> 8) & 0xFF) == (pos / 256) % 256) by (bit_vector);
    ((pos & 0xFF) as u8, ((pos >> 8) & 0xFF) as u8)
}

/// Name of the system.
pub const OS: &'static str = "PopoenOS";
/// Version of the system.
pub const VER: &'static str = "0.0.1";

/// The system-information banner: logo, then name and version, as the
/// pieces that the display prints one after the other.
pub fn pofetch() -> (r: Vec<&'static str>)
    ensures
        r@.len() == 6,
        r@[0]@ == ASCII_ART@,
        r@[1]@ == "\n"@,
        r@[2]@ == OS@,
        r@[3]@ == " at version "@,
        r@[4]@ == VER@,
        r@[5]@ == "\n"@,
{
    vec![ASCII_ART, "\n", OS, " at version ", VER, "\n"]
}

/// The logo of the banner.
pub const ASCII_ART: &'static str = r#"
 /$$$$$$$  /$$$$$$$   /$$$$$$   /$$$$$$ 
| $$__  $$| $$__  $$ /$$__  $$ /$$__  $$
| $$  \ $$| $$  \ $$| $$  \ $$| $$  \__/
| $$$$$$$/| $$$$$$$/| $$  | $$|  $$$$$$ 
| $$____/ | $$____/ | $$  | $$ \____  $$
| $$      | $$      | $$  | $$ /$$  \ $$
| $$      | $$      |  $$$$$$/|  $$$$$$/
|__/      |__/       \______/  \______/ 
"#;

} // verus!
