//! The text display as a grid of cells: printing text with colour tags,
//! wrapping, scrolling and clearing. Copying the cells to video memory and
//! moving the hardware cursor happen outside.
use vstd::prelude::*;
use crate::console::{color_code, parse_color, HEIGHT, NO_COLOR, WIDTH};
use crate::shell::{first_space, starts_with, has_prefix, lemma_first_space};
use crate::console::{bytes_equal, reset_colors};

verus! {

/// Number of bytes of the grid: a character and an attribute per cell.
pub const SCREEN_BYTES: usize = 4000;
/// Bytes of one row of the grid.
pub const ROW_BYTES: usize = 160;
/// Attribute of blank cells: light gray on black.
pub const DEFAULT_ATTR: u8 = 0x07;
/// Attribute of the marks of an invalid colour tag: red on black.
pub const ERROR_ATTR: u8 = 0x04;
/// Tab stops every this many columns.
pub const TAB_SIZE: usize = 4;
/// At most this many bytes of text are printed per call.
pub const PRINT_LIMIT: usize = 1024;

/// What the display holds while printing.
pub struct Frame {
    pub cells: Seq<u8>,
    pub row: int,
    pub col: int,
    pub cursor_row: int,
    pub cursor_col: int,
    pub fg: u8,
    pub bg: u8,
}

/// A frame with a full grid, and the position and the cursor inside it.
pub open spec fn frame_ok(f: Frame) -> bool {
    &&& f.cells.len() == SCREEN_BYTES
    &&& 0 <= f.row < HEIGHT
    &&& 0 <= f.col < WIDTH
    &&& 0 <= f.cursor_row < HEIGHT
    &&& 0 <= f.cursor_col < WIDTH
}

/// Attribute byte of a foreground and a background colour.
pub open spec fn attr_of(fg: u8, bg: u8) -> u8 {
    (bg << 4u8) | (fg & 0x0Fu8)
}

/// `cells` with cell `p` set to `ch` and `a`.
pub open spec fn put(cells: Seq<u8>, p: int, ch: u8, a: u8) -> Seq<u8> {
    cells.update(2 * p, ch).update(2 * p + 1, a)
}

/// The grid moved up one row, with a blank last row.
pub open spec fn scrolled(cells: Seq<u8>) -> Seq<u8> {
    Seq::new(
        SCREEN_BYTES as nat,
        |k: int|
            if k < SCREEN_BYTES - ROW_BYTES {
                cells[k + ROW_BYTES]
            } else if k % 2 == 0 {
                32u8
            } else {
                DEFAULT_ATTR
            },
    )
}

/// A blank grid.
pub open spec fn blank() -> Seq<u8> {
    Seq::new(SCREEN_BYTES as nat, |k: int| if k % 2 == 0 { 32u8 } else { DEFAULT_ATTR })
}

/// Start of the next row, scrolling at the bottom.
pub open spec fn line_feed(f: Frame) -> Frame {
    if f.row + 1 >= HEIGHT {
        Frame { cells: scrolled(f.cells), row: HEIGHT - 1, col: 0, ..f }
    } else {
        Frame { row: f.row + 1, col: 0, ..f }
    }
}

/// `f` with the cell under its position written.
pub open spec fn write_here(f: Frame, ch: u8, a: u8) -> Frame {
    Frame { cells: put(f.cells, WIDTH * f.row + f.col, ch, a), ..f }
}

/// One column on, wrapping past the last column.
pub open spec fn advance(f: Frame) -> Frame {
    if f.col + 1 >= WIDTH {
        line_feed(f)
    } else {
        Frame { col: f.col + 1, ..f }
    }
}

/// Writes a character and moves on.
pub open spec fn emit(f: Frame, ch: u8, a: u8) -> Frame {
    advance(write_here(f, ch, a))
}

/// Writes a character `n` times.
pub open spec fn emit_n(f: Frame, n: nat, ch: u8, a: u8) -> Frame
    decreases n,
{
    if n == 0 {
        f
    } else {
        emit_n(emit(f, ch, a), (n - 1) as nat, ch, a)
    }
}

/// The hardware cursor moved to the current position.
pub open spec fn synced(f: Frame) -> Frame {
    Frame { cursor_row: f.row, cursor_col: f.col, ..f }
}

/// Index of the first `]` of `t` at or after `i`.
pub open spec fn find_close(t: Seq<u8>, i: int) -> Option<int>
    decreases t.len() - i,
{
    if i < 0 || i >= t.len() {
        None
    } else if t[i] == 93 {
        Some(i)
    } else {
        find_close(t, i + 1)
    }
}

/// The word that resets the colours.
pub open spec fn reset_word() -> Seq<u8> {
    seq!['r' as u8, 'e' as u8, 's' as u8, 'e' as u8, 't' as u8]
}

/// The prefix that marks a background colour.
pub open spec fn bg_prefix() -> Seq<u8> {
    seq!['b' as u8, 'g' as u8]
}

/// Colours after the tag `tag` (its first two space-separated words), and
/// whether every word was understood.
pub open spec fn apply_tag(tag: Seq<u8>, fg: u8, bg: u8) -> (u8, u8, bool) {
    let fs = first_space(tag) as int;
    let first = tag.take(fs);
    let (fg1, bg1, ok1) = if starts_with(first, bg_prefix()) {
        let c = color_code(first.skip(2));
        if c != NO_COLOR {
            (fg, c, true)
        } else {
            (fg, bg, false)
        }
    } else if first == reset_word() {
        (7u8, 0u8, true)
    } else {
        let c = color_code(first);
        if c != NO_COLOR {
            (c, bg, true)
        } else {
            (fg, bg, false)
        }
    };
    if fs < tag.len() {
        let rest = tag.skip(fs + 1);
        let c = color_code(rest.take(first_space(rest) as int));
        if c != NO_COLOR {
            (c, bg1, ok1)
        } else {
            (fg1, bg1, false)
        }
    } else {
        (fg1, bg1, ok1)
    }
}

/// The display after the byte (or markup) at `i`, and where the next one starts.
pub open spec fn step(f: Frame, t: Seq<u8>, i: int) -> (Frame, int) {
    let b = t[i];
    let a = attr_of(f.fg, f.bg);
    if b == 10 {
        (synced(line_feed(f)), i + 1)
    } else if b == 13 {
        (synced(Frame { col: 0, ..f }), i + 1)
    } else if b == 9 {
        (synced(emit_n(f, (TAB_SIZE - f.col % (TAB_SIZE as int)) as nat, 32, a)), i + 1)
    } else if b == 8 || b == 0x7F {
        if f.col > 0 {
            (synced(write_here(Frame { col: f.col - 1, ..f }, 32, a)), i + 1)
        } else {
            (synced(f), i + 1)
        }
    } else if b == 91 {
        if i + 1 < t.len() && t[i + 1] == 91 {
            (emit(f, 91, a), i + 2)
        } else {
            match find_close(t, i) {
                Some(e) => if e + 1 < t.len() && t[e + 1] == 93 {
                    (emit(f, 93, a), e + 2)
                } else {
                    let (fg2, bg2, ok) = apply_tag(t.subrange(i + 1, e), f.fg, f.bg);
                    let g = Frame { fg: fg2, bg: bg2, ..f };
                    if ok {
                        (g, e + 1)
                    } else {
                        (emit(emit(g, 63, ERROR_ATTR), 63, ERROR_ATTR), e + 1)
                    }
                },
                None => (synced(f), i + 1),
            }
        }
    } else {
        (synced(emit(f, b, a)), i + 1)
    }
}

/// The display after printing `t` from `i` on.
pub open spec fn run(f: Frame, t: Seq<u8>, i: int) -> Frame
    decreases t.len() - i,
{
    if i < 0 || i >= t.len() {
        f
    } else {
        let (g, j) = step(f, t, i);
        if i < j <= t.len() {
            run(g, t, j)
        } else {
            g
        }
    }
}

/// The text display: the cell grid, the print position, the hardware
/// cursor's position and the colours in use.
pub struct Screen {
    pub cells: Vec<u8>,
    pub row: usize,
    pub col: usize,
    pub cursor_row: usize,
    pub cursor_col: usize,
    pub fg: u8,
    pub bg: u8,
}

impl Screen {
    /// What the display holds.
    pub open spec fn frame(&self) -> Frame {
        Frame {
            cells: self.cells@,
            row: self.row as int,
            col: self.col as int,
            cursor_row: self.cursor_row as int,
            cursor_col: self.cursor_col as int,
            fg: self.fg,
            bg: self.bg,
        }
    }

    /// A blank display with everything at the top-left corner.
    pub fn new() -> (r: Screen)
        ensures
            frame_ok(r.frame()),
            r.cells@ == blank(),
            r.row == 0 && r.col == 0 && r.cursor_row == 0 && r.cursor_col == 0,
            r.fg == 7 && r.bg == 0,
    {
        let mut cells: Vec<u8> = Vec::new();
        let mut k: usize = 0;
        while k < SCREEN_BYTES
            invariant
                k <= SCREEN_BYTES,
                cells@ == blank().take(k as int),
            decreases SCREEN_BYTES - k,
        {
            if k % 2 == 0 {
                cells.push(32);
            } else {
                cells.push(DEFAULT_ATTR);
            }
            k = k + 1;
            assert(cells@ =~= blank().take(k as int));
        }
        assert(blank().take(4000) =~= blank());
        Screen { cells, row: 0, col: 0, cursor_row: 0, cursor_col: 0, fg: 7, bg: 0 }
    }

    fn put_cell(&mut self, ch: u8, a: u8)
        requires
            frame_ok(old(self).frame()),
        ensures
            frame_ok(final(self).frame()),
            final(self).frame() == write_here(old(self).frame(), ch, a),
    {
        let p = self.row * WIDTH + self.col;
        self.cells.set(2 * p, ch);
        self.cells.set(2 * p + 1, a);
        assert(self.cells@ =~= put(
            old(self).cells@,
            WIDTH * old(self).row + old(self).col,
            ch,
            a,
        ));
    }

    fn scroll_up(&mut self)
        requires
            frame_ok(old(self).frame()),
        ensures
            frame_ok(final(self).frame()),
            final(self).frame() == (Frame { cells: scrolled(old(self).cells@), ..old(self).frame() }),
    {
        let mut k: usize = 0;
        while k < SCREEN_BYTES - ROW_BYTES
            invariant
                k <= SCREEN_BYTES - ROW_BYTES,
                self.cells@.len() == SCREEN_BYTES,
                self.row == old(self).row && self.col == old(self).col,
                self.cursor_row == old(self).cursor_row && self.cursor_col == old(self).cursor_col,
                self.fg == old(self).fg && self.bg == old(self).bg,
                forall|j: int| 0 <= j < k ==> self.cells@[j] == old(self).cells@[j + ROW_BYTES],
                forall|j: int| k <= j < SCREEN_BYTES ==> self.cells@[j] == old(self).cells@[j],
            decreases SCREEN_BYTES - k,
        {
            let v = self.cells[k + ROW_BYTES];
            self.cells.set(k, v);
            k = k + 1;
        }
        while k < SCREEN_BYTES
            invariant
                SCREEN_BYTES - ROW_BYTES <= k <= SCREEN_BYTES,
                self.cells@.len() == SCREEN_BYTES,
                self.row == old(self).row && self.col == old(self).col,
                self.cursor_row == old(self).cursor_row && self.cursor_col == old(self).cursor_col,
                self.fg == old(self).fg && self.bg == old(self).bg,
                forall|j: int|
                    0 <= j < SCREEN_BYTES - ROW_BYTES ==> self.cells@[j] == old(self).cells@[j
                        + ROW_BYTES],
                forall|j: int|
                    SCREEN_BYTES - ROW_BYTES <= j < k ==> self.cells@[j] == if j % 2 == 0 {
                        32u8
                    } else {
                        DEFAULT_ATTR
                    },
            decreases SCREEN_BYTES - k,
        {
            if k % 2 == 0 {
                self.cells.set(k, 32);
            } else {
                self.cells.set(k, DEFAULT_ATTR);
            }
            k = k + 1;
        }
        assert(self.cells@ =~= scrolled(old(self).cells@));
    }

    fn line_feed(&mut self)
        requires
            frame_ok(old(self).frame()),
        ensures
            frame_ok(final(self).frame()),
            final(self).frame() == line_feed(old(self).frame()),
    {
        self.col = 0;
        if self.row + 1 >= HEIGHT {
            self.scroll_up();
            self.row = HEIGHT - 1;
        } else {
            self.row = self.row + 1;
        }
    }

    fn advance(&mut self)
        requires
            frame_ok(old(self).frame()),
        ensures
            frame_ok(final(self).frame()),
            final(self).frame() == advance(old(self).frame()),
    {
        if self.col + 1 >= WIDTH {
            self.line_feed();
        } else {
            self.col = self.col + 1;
        }
    }

    fn emit(&mut self, ch: u8, a: u8)
        requires
            frame_ok(old(self).frame()),
        ensures
            frame_ok(final(self).frame()),
            final(self).frame() == emit(old(self).frame(), ch, a),
    {
        self.put_cell(ch, a);
        self.advance();
    }

    fn sync_cursor(&mut self)
        ensures
            final(self).frame() == synced(old(self).frame()),
    {
        self.cursor_row = self.row;
        self.cursor_col = self.col;
    }
}

/// Colours after the tag `tag`, and whether every word was understood.
fn read_tag(tag: &[u8], fg: u8, bg: u8) -> (r: (u8, u8, bool))
    ensures
        r == apply_tag(tag@, fg, bg),
{
    let n = tag.len();
    let mut fs: usize = 0;
    while fs < n && tag[fs] != 32
        invariant
            fs <= n == tag@.len(),
            forall|k: int| 0 <= k < fs ==> tag@[k] != 32,
        decreases n - fs,
    {
        fs = fs + 1;
    }
    proof {
        lemma_first_space(tag@, fs as int);
    }
    let first = vstd::slice::slice_subrange(tag, 0, fs);
    assert(first@ =~= tag@.take(fs as int));
    let bg_word = vec!['b' as u8, 'g' as u8];
    let reset = vec!['r' as u8, 'e' as u8, 's' as u8, 'e' as u8, 't' as u8];
    assert(bg_word@ =~= bg_prefix());
    assert(reset@ =~= reset_word());
    let (fg1, bg1, ok1) = if has_prefix(first, bg_word.as_slice()) {
        let name = vstd::slice::slice_subrange(first, 2, first.len());
        assert(name@ =~= first@.skip(2));
        let c = parse_color(name);
        if c != NO_COLOR {
            (fg, c, true)
        } else {
            (fg, bg, false)
        }
    } else if bytes_equal(first, reset.as_slice()) {
        let (dfg, dbg) = reset_colors();
        (dfg, dbg, true)
    } else {
        let c = parse_color(first);
        if c != NO_COLOR {
            (c, bg, true)
        } else {
            (fg, bg, false)
        }
    };
    if fs < n {
        let rest = vstd::slice::slice_subrange(tag, fs + 1, n);
        assert(rest@ =~= tag@.skip(fs + 1));
        let m = rest.len();
        let mut ss: usize = 0;
        while ss < m && rest[ss] != 32
            invariant
                ss <= m == rest@.len(),
                forall|k: int| 0 <= k < ss ==> rest@[k] != 32,
            decreases m - ss,
        {
            ss = ss + 1;
        }
        proof {
            lemma_first_space(rest@, ss as int);
        }
        let second = vstd::slice::slice_subrange(rest, 0, ss);
        assert(second@ =~= rest@.take(ss as int));
        let c = parse_color(second);
        if c != NO_COLOR {
            (c, bg1, ok1)
        } else {
            (fg1, bg1, false)
        }
    } else {
        (fg1, bg1, ok1)
    }
}

/// Prints the first `PRINT_LIMIT` bytes of `text` from the current position
/// in light gray on black. Newline, return, tab and backspace (or delete)
/// move the position; `[[` prints `[`; a `[...]]` prints `]` (both wrap as
/// any printed character does); a tag `[...]`
/// sets the colours (`bg<name>`, `reset` or `<name>`, then an optional
/// foreground name) or, if a word is no colour, prints two red `?`; a `[`
/// without a `]` is dropped. Past the last column the text wraps, and past
/// the last row the display scrolls.
pub fn print(screen: &mut Screen, text: &[u8])
    requires
        frame_ok(old(screen).frame()),
    ensures
        frame_ok(final(screen).frame()),
        final(screen).frame() == run(
            Frame { fg: 7, bg: 0, ..old(screen).frame() },
            text@.take(
                if text@.len() < PRINT_LIMIT {
                    text@.len() as int
                } else {
                    PRINT_LIMIT as int
                },
            ),
            0,
        ),
{
    let n = if text.len() < PRINT_LIMIT {
        text.len()
    } else {
        PRINT_LIMIT
    };
    let t = vstd::slice::slice_subrange(text, 0, n);
    assert(t@ =~= text@.take(n as int));
    let (fg, bg) = reset_colors();
    screen.fg = fg;
    screen.bg = bg;
    let ghost f0 = screen.frame();
    let mut i: usize = 0;
    while i < n
        invariant
            i <= n == t@.len(),
            frame_ok(screen.frame()),
            run(f0, t@, 0) == run(screen.frame(), t@, i as int),
        decreases n - i,
    {
        let ghost before = screen.frame();
        let ghost expected = step(before, t@, i as int);
        let b = t[i];
        let a = (screen.bg << 4u8) | (screen.fg & 0x0F);
        if b == 10 {
            screen.line_feed();
            screen.sync_cursor();
            i = i + 1;
        } else if b == 13 {
            screen.col = 0;
            screen.sync_cursor();
            i = i + 1;
        } else if b == 9 {
            let spaces = TAB_SIZE - screen.col % TAB_SIZE;
            let mut k: usize = 0;
            while k < spaces
                invariant
                    k <= spaces,
                    frame_ok(screen.frame()),
                    emit_n(screen.frame(), (spaces - k) as nat, 32, a) == emit_n(
                        before,
                        spaces as nat,
                        32,
                        a,
                    ),
                decreases spaces - k,
            {
                screen.emit(32, a);
                k = k + 1;
            }
            screen.sync_cursor();
            i = i + 1;
        } else if b == 8 || b == 0x7F {
            if screen.col > 0 {
                screen.col = screen.col - 1;
                screen.put_cell(32, a);
            }
            screen.sync_cursor();
            i = i + 1;
        } else if b == 91 {
            if i + 1 < n && t[i + 1] == 91 {
                screen.emit(91, a);
                i = i + 2;
            } else {
                let mut e: usize = i;
                while e < n && t[e] != 93
                    invariant
                        i <= e <= n == t@.len(),
                        t@[i as int] == 91,
                        find_close(t@, i as int) == find_close(t@, e as int),
                    decreases n - e,
                {
                    e = e + 1;
                }
                if e == n {
                    screen.sync_cursor();
                    i = i + 1;
                } else if e + 1 < n && t[e + 1] == 93 {
                    screen.emit(93, a);
                    i = e + 2;
                } else {
                    let tag = vstd::slice::slice_subrange(t, i + 1, e);
                    let (fg2, bg2, ok) = read_tag(tag, screen.fg, screen.bg);
                    screen.fg = fg2;
                    screen.bg = bg2;
                    if !ok {
                        screen.emit(63, ERROR_ATTR);
                        screen.emit(63, ERROR_ATTR);
                    }
                    i = e + 1;
                }
            }
        } else {
            screen.emit(b, a);
            screen.sync_cursor();
            i = i + 1;
        }
        assert(a == attr_of(before.fg, before.bg));
        assert(screen.frame() == expected.0 && i as int == expected.1);
    }
    assert(t@ == text@.take(n as int));
}

/// Blanks the display and moves everything to the top-left corner.
pub fn clear(screen: &mut Screen)
    requires
        frame_ok(old(screen).frame()),
    ensures
        frame_ok(final(screen).frame()),
        final(screen).cells@ == blank(),
        final(screen).row == 0 && final(screen).col == 0,
        final(screen).cursor_row == 0 && final(screen).cursor_col == 0,
        final(screen).fg == old(screen).fg && final(screen).bg == old(screen).bg,
{
    let mut k: usize = 0;
    while k < SCREEN_BYTES
        invariant
            k <= SCREEN_BYTES,
            screen.cells@.len() == SCREEN_BYTES,
            forall|j: int| 0 <= j < k ==> screen.cells@[j] == blank()[j],
            screen.fg == old(screen).fg && screen.bg == old(screen).bg,
        decreases SCREEN_BYTES - k,
    {
        if k % 2 == 0 {
            screen.cells.set(k, 32);
        } else {
            screen.cells.set(k, DEFAULT_ATTR);
        }
        k = k + 1;
    }
    assert(screen.cells@ =~= blank());
    screen.row = 0;
    screen.col = 0;
    screen.sync_cursor();
}

} // verus!
