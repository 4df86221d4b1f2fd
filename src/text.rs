//! File content as text: UTF-8 decoding with a placeholder for invalid
//! bytes, and removal of leading whitespace.
use vstd::prelude::*;
use vstd::utf8::{decode_utf8, valid_utf8};
use crate::device::{BlockDevice, FsError};
use crate::fs::{data_block, holds_layout, read};

verus! {

/// `c` has the Unicode White_Space property.
pub open spec fn is_unicode_space(c: char) -> bool {
    ('\t' <= c && c <= '\r') || c == ' ' || c == '\u{85}' || c == '\u{a0}' || c == '\u{1680}' || (
    '\u{2000}' <= c && c <= '\u{200a}') || c == '\u{2028}' || c == '\u{2029}' || c == '\u{202f}'
        || c == '\u{205f}' || c == '\u{3000}'
}

/// `s` without its leading whitespace.
pub open spec fn trim_space_start(s: Seq<char>) -> Seq<char>
    decreases s.len(),
{
    if s.len() > 0 && is_unicode_space(s[0]) {
        trim_space_start(s.drop_first())
    } else {
        s
    }
}

/// Text shown for bytes that are not UTF-8.
pub const NON_UTF8: &'static str = "<non-UTF8>";

/// The text of a block: its UTF-8 decoding, or the placeholder.
pub open spec fn block_text(b: Seq<u8>) -> Seq<char> {
    if valid_utf8(b) {
        decode_utf8(b)
    } else {
        NON_UTF8@
    }
}

/// Relies on `core::str::from_utf8`: `Ok` exactly for valid UTF-8, holding
/// the characters that the bytes encode.
#[verifier::external_body]
fn utf8_text<'a>(b: &'a [u8]) -> (r: Option<&'a str>)
    ensures
        r is Some <==> valid_utf8(b@),
        r is Some ==> r->0@ == decode_utf8(b@),
{
    core::str::from_utf8(b).ok()
}

/// Relies on `str::trim_start`: removes the leading characters that have the
/// White_Space property.
#[verifier::external_body]
fn trim_leading<'a>(s: &'a str) -> (r: &'a str)
    ensures
        r@ == trim_space_start(s@),
{
    s.trim_start()
}

/// The content of the file named `name` as text: its whole data block
/// decoded as UTF-8 (or the placeholder), without leading whitespace.
pub fn read_text<D: BlockDevice>(device: &D, name: &[u8]) -> (r: Result<String, FsError>)
    requires
        holds_layout(device.blocks()),
    ensures
        match data_block(device.blocks(), name@) {
            Ok(p) => r is Ok && r->Ok_0@ == trim_space_start(block_text(device.blocks()[p])),
            Err(e) => r == Err::<String, FsError>(e),
        },
{
    let data = match read(device, name) {
        Ok(d) => d,
        Err(e) => return Err(e),
    };
    let text: &str = match utf8_text(data.as_slice()) {
        Some(t) => t,
        None => NON_UTF8,
    };
    Ok(trim_leading(text).to_owned())
}

} // verus!
