//! Zero-terminated text inside a capture.

use vstd::prelude::*;
use vstd::slice::slice_subrange;
use vstd::string::StringSliceAdditionalSpecFns;
use vstd::utf8::{decode_utf8, encode_utf8_decode_utf8, valid_utf8};

verus! {

/// Whether the text that starts at `start` ends just before `end`: `end` holds
/// the first zero byte at or after `start`.
pub open spec fn terminates_at(bytes: Seq<u8>, start: int, end: int) -> bool {
    &&& 0 <= start <= end < bytes.len()
    &&& bytes[end] == 0
    &&& forall|k: int| start <= k < end ==> bytes[k] != 0
}

/// Whether a zero byte closes the text that starts at `start` before the
/// buffer ends.
pub open spec fn is_terminated(bytes: Seq<u8>, start: int) -> bool {
    exists|end: int| terminates_at(bytes, start, end)
}

/// The offset of the zero byte that closes the text starting at `start`.
pub open spec fn terminator(bytes: Seq<u8>, start: int) -> int {
    choose|end: int| terminates_at(bytes, start, end)
}

/// The bytes of the text starting at `start`, without the closing zero.
pub open spec fn text_bytes(bytes: Seq<u8>, start: int) -> Seq<u8> {
    bytes.subrange(start, terminator(bytes, start))
}

/// The text stored at `start`: the characters that its bytes encode in
/// UTF-8, or nothing when no zero byte closes it inside the buffer or its
/// bytes are not well-formed UTF-8.
pub open spec fn text_at(bytes: Seq<u8>, start: int) -> Option<Seq<char>> {
    if is_terminated(bytes, start) && valid_utf8(text_bytes(bytes, start)) {
        Some(decode_utf8(text_bytes(bytes, start)))
    } else {
        None
    }
}

/// A text has one end only.
pub proof fn lemma_terminator_is_unique(bytes: Seq<u8>, start: int, first: int, second: int)
    requires
        terminates_at(bytes, start, first),
        terminates_at(bytes, start, second),
    ensures
        first == second,
{
}

/// Finds the zero byte that closes the text starting at `start`.
pub fn find_terminator(bytes: &[u8], start: usize) -> (end: Option<usize>)
    ensures
        end is Some <==> is_terminated(bytes@, start as int),
        end matches Some(found) ==> terminates_at(bytes@, start as int, found as int) && found
            == terminator(bytes@, start as int),
{
    let mut cursor: usize = start;
    while cursor < bytes.len()
        invariant
            start <= cursor,
            forall|k: int| start <= k < cursor && k < bytes@.len() ==> bytes@[k] != 0,
        decreases bytes.len() - cursor,
    {
        if bytes[cursor] == 0 {
            proof {
                assert(terminates_at(bytes@, start as int, cursor as int));
                lemma_terminator_is_unique(
                    bytes@,
                    start as int,
                    cursor as int,
                    terminator(bytes@, start as int),
                );
            }
            return Some(cursor);
        }
        cursor += 1;
    }
    assert forall|end: int| !terminates_at(bytes@, start as int, end) by {}
    None
}

/// Checks that `raw` is well-formed UTF-8 and hands it out as text.
///
/// Wraps `core::str::from_utf8`, which succeeds exactly on well-formed UTF-8
/// and then returns a string slice over the very bytes it was given.
#[verifier::external_body]
fn utf8_text<'a>(raw: &'a [u8]) -> (text: Option<&'a str>)
    ensures
        text is Some <==> valid_utf8(raw@),
        text matches Some(s) ==> s.spec_bytes() == raw@,
{
    match core::str::from_utf8(raw) {
        Ok(text) => Some(text),
        Err(_) => None,
    }
}

/// Decodes the zero-terminated text stored at `start`.
pub fn read_text(bytes: &[u8], start: usize) -> (text: Option<String>)
    ensures
        text is Some <==> text_at(bytes@, start as int) is Some,
        text matches Some(s) ==> text_at(bytes@, start as int) == Some(s@),
{
    let end: usize = match find_terminator(bytes, start) {
        Some(found) => found,
        None => { return None; },
    };
    let raw: &[u8] = slice_subrange(bytes, start, end);
    match utf8_text(raw) {
        Some(text) => {
            proof {
                encode_utf8_decode_utf8(text@);
            }
            Some(text.to_owned())
        },
        None => None,
    }
}

} // verus!
