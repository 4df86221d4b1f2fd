//! The shell's decisions: line editing key by key, and parsing a line into a
//! command. Reading keys, printing and running commands happen around them.
use vstd::prelude::*;
use crate::console::bytes_equal;

verus! {

/// Longest line that the editor holds.
pub const BUFFER_SIZE: usize = 128;

/// What the display does after a key.
#[derive(Debug, Clone, Copy, PartialEq, Eq, Structural)]
pub enum EditAction {
    /// Erase the last character shown.
    Erase,
    /// The line is complete.
    Submit,
    /// Show the character typed.
    Echo(char),
    /// Nothing.
    Ignore,
}

/// The line being typed.
pub struct LineEditor {
    pub line: Vec<u8>,
}

impl LineEditor {
    /// An empty line.
    pub fn new() -> (r: LineEditor)
        ensures
            r.line@ == Seq::<u8>::empty(),
    {
        LineEditor { line: Vec::new() }
    }

    /// Takes one key: backspace erases the last byte of a non-empty line,
    /// newline submits, any other key is stored (as its low byte) while the
    /// line has room.
    pub fn feed(&mut self, c: char) -> (r: EditAction)
        requires
            old(self).line@.len() <= BUFFER_SIZE,
        ensures
            final(self).line@.len() <= BUFFER_SIZE,
            c == '\x08' && old(self).line@.len() > 0 ==> r == EditAction::Erase
                && final(self).line@ == old(self).line@.drop_last(),
            c == '\n' ==> r == EditAction::Submit && final(self).line@ == old(self).line@,
            !(c == '\x08' && old(self).line@.len() > 0) && c != '\n' && old(self).line@.len()
                < BUFFER_SIZE ==> r == EditAction::Echo(c) && final(self).line@ == old(
                self,
            ).line@.push(c as u8),
            !(c == '\x08' && old(self).line@.len() > 0) && c != '\n' && old(self).line@.len()
                == BUFFER_SIZE ==> r == EditAction::Ignore && final(self).line@ == old(
                self,
            ).line@,
    {
        if c == '\x08' && self.line.len() > 0 {
            self.line.pop();
            EditAction::Erase
        } else if c == '\n' {
            EditAction::Submit
        } else if self.line.len() < BUFFER_SIZE {
            self.line.push(c as u8);
            EditAction::Echo(c)
        } else {
            EditAction::Ignore
        }
    }

    /// Empties the line for the next prompt.
    pub fn clear(&mut self)
        ensures
            final(self).line@ == Seq::<u8>::empty(),
    {
        self.line.clear();
    }
}

/// A parsed command line.
#[derive(Debug, PartialEq, Eq)]
pub enum Command {
    /// `ls`
    Ls,
    /// `cat <name>`
    Cat(Vec<u8>),
    /// `touch <name>`
    Touch(Vec<u8>),
    /// `touch` without a name.
    TouchUsage,
    /// `>> <name> <text>`
    Append(Vec<u8>, Vec<u8>),
    /// `>>` without a name or a text.
    AppendUsage,
    /// `clear`
    Clear,
    /// `pofetch` or `neofetch`
    Fetch,
    /// `exit`
    Exit,
    /// Anything else, trimmed.
    Unknown(Vec<u8>),
}

/// ASCII whitespace: space, tab, newline, vertical tab, form feed, return.
pub open spec fn is_space(b: u8) -> bool {
    b == 32 || (9 <= b && b <= 13)
}

/// `s` without its leading whitespace.
pub open spec fn trim_start(s: Seq<u8>) -> Seq<u8>
    decreases s.len(),
{
    if s.len() > 0 && is_space(s[0]) {
        trim_start(s.drop_first())
    } else {
        s
    }
}

/// `s` without its trailing whitespace.
pub open spec fn trim_end(s: Seq<u8>) -> Seq<u8>
    decreases s.len(),
{
    if s.len() > 0 && is_space(s.last()) {
        trim_end(s.drop_last())
    } else {
        s
    }
}

/// `s` without leading and trailing whitespace.
pub open spec fn trim(s: Seq<u8>) -> Seq<u8> {
    trim_end(trim_start(s))
}

/// Index of the first space of `s`, or its length.
pub open spec fn first_space(s: Seq<u8>) -> nat
    decreases s.len(),
{
    if s.len() == 0 || s[0] == 32 {
        0
    } else {
        1 + first_space(s.drop_first())
    }
}

/// `s` begins with `p`.
pub open spec fn starts_with(s: Seq<u8>, p: Seq<u8>) -> bool {
    p.len() <= s.len() && s.take(p.len() as int) == p
}

pub const KW_LS: u8 = 0;
pub const KW_CAT: u8 = 1;
pub const KW_TOUCH: u8 = 2;
pub const KW_APPEND: u8 = 3;
pub const KW_CLEAR: u8 = 4;
pub const KW_POFETCH: u8 = 5;
pub const KW_NEOFETCH: u8 = 6;
pub const KW_EXIT: u8 = 7;

/// The words and prefixes that the shell recognises.
pub open spec fn keyword(k: u8) -> Seq<u8> {
    if k == KW_LS {
        seq!['l' as u8, 's' as u8]
    } else if k == KW_CAT {
        seq!['c' as u8, 'a' as u8, 't' as u8, ' ' as u8]
    } else if k == KW_TOUCH {
        seq!['t' as u8, 'o' as u8, 'u' as u8, 'c' as u8, 'h' as u8, ' ' as u8]
    } else if k == KW_APPEND {
        seq!['>' as u8, '>' as u8, ' ' as u8]
    } else if k == KW_CLEAR {
        seq!['c' as u8, 'l' as u8, 'e' as u8, 'a' as u8, 'r' as u8]
    } else if k == KW_POFETCH {
        seq!['p' as u8, 'o' as u8, 'f' as u8, 'e' as u8, 't' as u8, 'c' as u8, 'h' as u8]
    } else if k == KW_NEOFETCH {
        seq![
            'n' as u8,
            'e' as u8,
            'o' as u8,
            'f' as u8,
            'e' as u8,
            't' as u8,
            'c' as u8,
            'h' as u8,
        ]
    } else {
        seq!['e' as u8, 'x' as u8, 'i' as u8, 't' as u8]
    }
}

fn keyword_bytes(k: u8) -> (r: Vec<u8>)
    ensures
        r@ == keyword(k),
{
    let r = if k == KW_LS {
        vec!['l' as u8, 's' as u8]
    } else if k == KW_CAT {
        vec!['c' as u8, 'a' as u8, 't' as u8, ' ' as u8]
    } else if k == KW_TOUCH {
        vec!['t' as u8, 'o' as u8, 'u' as u8, 'c' as u8, 'h' as u8, ' ' as u8]
    } else if k == KW_APPEND {
        vec!['>' as u8, '>' as u8, ' ' as u8]
    } else if k == KW_CLEAR {
        vec!['c' as u8, 'l' as u8, 'e' as u8, 'a' as u8, 'r' as u8]
    } else if k == KW_POFETCH {
        vec!['p' as u8, 'o' as u8, 'f' as u8, 'e' as u8, 't' as u8, 'c' as u8, 'h' as u8]
    } else if k == KW_NEOFETCH {
        vec!['n' as u8, 'e' as u8, 'o' as u8, 'f' as u8, 'e' as u8, 't' as u8, 'c' as u8, 'h' as u8]
    } else {
        vec!['e' as u8, 'x' as u8, 'i' as u8, 't' as u8]
    };
    assert(r@ =~= keyword(k));
    r
}

/// `s` without leading and trailing whitespace.
pub fn trim_bytes(s: &[u8]) -> (r: Vec<u8>)
    ensures
        r@ == trim(s@),
{
    let n = s.len();
    let mut lo: usize = 0;
    assert(s@.skip(0) =~= s@);
    while lo < n && (s[lo] == 32 || (9 <= s[lo] && s[lo] <= 13))
        invariant
            lo <= n == s@.len(),
            trim_start(s@) == trim_start(s@.skip(lo as int)),
        decreases n - lo,
    {
        assert(s@.skip(lo as int).drop_first() =~= s@.skip(lo + 1));
        lo = lo + 1;
    }
    let mut hi: usize = n;
    while hi > lo && (s[hi - 1] == 32 || (9 <= s[hi - 1] && s[hi - 1] <= 13))
        invariant
            lo <= hi <= n == s@.len(),
            trim_end(s@.skip(lo as int)) == trim_end(s@.subrange(lo as int, hi as int)),
        decreases hi,
    {
        assert(s@.subrange(lo as int, hi as int).drop_last() =~= s@.subrange(
            lo as int,
            hi - 1,
        ));
        hi = hi - 1;
    }
    assert(s@.skip(lo as int) =~= s@.subrange(lo as int, n as int));
    vstd::slice::slice_to_vec(vstd::slice::slice_subrange(s, lo, hi))
}

/// Whether `s` begins with `p`.
pub fn has_prefix(s: &[u8], p: &[u8]) -> (r: bool)
    ensures
        r == starts_with(s@, p@),
{
    if p.len() > s.len() {
        return false;
    }
    let r = bytes_equal(vstd::slice::slice_subrange(s, 0, p.len()), p);
    assert(s@.subrange(0, p@.len() as int) =~= s@.take(p@.len() as int));
    r
}


pub proof fn lemma_first_space(s: Seq<u8>, n: int)
    requires
        0 <= n <= s.len(),
        forall|k: int| 0 <= k < n ==> s[k] != 32,
        n == s.len() || s[n] == 32,
    ensures
        first_space(s) == n,
    decreases n,
{
    if n > 0 {
        lemma_first_space(s.drop_first(), n - 1);
    }
}

/// `line` read as a command, as `parse_command` reads it.
pub open spec fn parses_as(line: Seq<u8>, r: Command) -> bool {
    let c = trim(line);
    if c == keyword(KW_LS) {
        r is Ls
    } else if starts_with(c, keyword(KW_CAT)) {
        r is Cat && r->Cat_0@ == trim(c.skip(4))
    } else if starts_with(c, keyword(KW_TOUCH)) {
        let f = trim(c.skip(6));
        if f.len() == 0 {
            r is TouchUsage
        } else {
            r is Touch && r->Touch_0@ == f
        }
    } else if starts_with(c, keyword(KW_APPEND)) {
        let rest = c.skip(3);
        let sp = first_space(rest) as int;
        let f = trim(rest.take(sp));
        let d = if sp < rest.len() {
            trim(rest.skip(sp + 1))
        } else {
            Seq::empty()
        };
        if f.len() == 0 || d.len() == 0 {
            r is AppendUsage
        } else {
            r is Append && r->Append_0@ == f && r->Append_1@ == d
        }
    } else if c == keyword(KW_CLEAR) {
        r is Clear
    } else if c == keyword(KW_POFETCH) || c == keyword(KW_NEOFETCH) {
        r is Fetch
    } else if c == keyword(KW_EXIT) {
        r is Exit
    } else {
        r is Unknown && r->Unknown_0@ == c
    }
}

/// Reads a line of ASCII text as a command: the line is trimmed, then
/// matched against the shell's words and prefixes; names and texts are
/// trimmed too, and `>>` splits its name from its text at the first space.
pub fn parse_command(line: &[u8]) -> (r: Command)
    ensures
        parses_as(line@, r),
{
    let c = trim_bytes(line);
    let cs = c.as_slice();
    if bytes_equal(cs, keyword_bytes(KW_LS).as_slice()) {
        Command::Ls
    } else if has_prefix(cs, keyword_bytes(KW_CAT).as_slice()) {
        Command::Cat(trim_bytes(vstd::slice::slice_subrange(cs, 4, cs.len())))
    } else if has_prefix(cs, keyword_bytes(KW_TOUCH).as_slice()) {
        let f = trim_bytes(vstd::slice::slice_subrange(cs, 6, cs.len()));
        if f.len() == 0 {
            Command::TouchUsage
        } else {
            Command::Touch(f)
        }
    } else if has_prefix(cs, keyword_bytes(KW_APPEND).as_slice()) {
        let rest = vstd::slice::slice_subrange(cs, 3, cs.len());
        let n = rest.len();
        let mut sp: usize = 0;
        while sp < n && rest[sp] != 32
            invariant
                sp <= n == rest@.len(),
                forall|k: int| 0 <= k < sp ==> rest@[k] != 32,
            decreases n - sp,
        {
            sp = sp + 1;
        }
        proof {
            lemma_first_space(rest@, sp as int);
        }
        let f = trim_bytes(vstd::slice::slice_subrange(rest, 0, sp));
        let d = if sp < n {
            trim_bytes(vstd::slice::slice_subrange(rest, sp + 1, n))
        } else {
            Vec::new()
        };
        assert(rest@.subrange(0, sp as int) =~= rest@.take(sp as int));
        assert(rest@.subrange(sp + 1, n as int) =~= rest@.skip(sp + 1));
        assert(cs@.subrange(3, cs@.len() as int) =~= cs@.skip(3));
        if f.len() == 0 || d.len() == 0 {
            Command::AppendUsage
        } else {
            Command::Append(f, d)
        }
    } else if bytes_equal(cs, keyword_bytes(KW_CLEAR).as_slice()) {
        Command::Clear
    } else if bytes_equal(cs, keyword_bytes(KW_POFETCH).as_slice()) || bytes_equal(
        cs,
        keyword_bytes(KW_NEOFETCH).as_slice(),
    ) {
        Command::Fetch
    } else if bytes_equal(cs, keyword_bytes(KW_EXIT).as_slice()) {
        Command::Exit
    } else {
        Command::Unknown(c)
    }
}

} // verus!
