//! Texts as contracts speak of them, and markers in a text and in its bytes.
//!
//! A page is searched as the bytes of its UTF-8 encoding. For a marker of
//! ASCII characters this finds nothing that is not in the text: such a marker
//! stands in the bytes only where its characters stand in the text.

use crate::scan::{occurs, occurs_at};
use vstd::prelude::*;
use vstd::utf8::{
    char_u32_cast, encode_scalar, encode_utf8, is_ascii_chars,
    is_ascii_chars_encode_utf8,
};

verus! {

/// The characters of each text of a run, in order.
pub open spec fn texts(strings: Seq<String>) -> Seq<Seq<char>> {
    strings.map_values(|text: String| text@)
}

/// The characters of `needle` stand in `hay` at index `at`.
pub open spec fn text_occurs_at(hay: Seq<char>, needle: Seq<char>, at: int) -> bool {
    &&& 0 <= at
    &&& at + needle.len() <= hay.len()
    &&& hay.subrange(at, at + needle.len()) == needle
}

/// The characters of `needle` stand somewhere in `hay`.
pub open spec fn text_occurs(hay: Seq<char>, needle: Seq<char>) -> bool {
    exists|at: int| text_occurs_at(hay, needle, at)
}

proof fn lemma_high_bytes(s: u32)
    by (bit_vector)
    ensures
        (0xC0u8 | ((s >> 6) & 0x1F) as u8) >= 0x80u8,
        (0xE0u8 | ((s >> 12) & 0x0F) as u8) >= 0x80u8,
        (0xF0u8 | ((s >> 18) & 0x7) as u8) >= 0x80u8,
        (0x80u8 | (s & 0x3F) as u8) >= 0x80u8,
        (0x80u8 | ((s >> 6) & 0x3F) as u8) >= 0x80u8,
        (0x80u8 | ((s >> 12) & 0x3F) as u8) >= 0x80u8,
        s <= 0x7F ==> (s & 0x7F) as u8 == s,
{
}

/// The encoding of a character is the character itself where it is ASCII,
/// and else up to four bytes that are none of them ASCII.
proof fn lemma_scalar_bytes(c: char)
    ensures
        1 <= encode_scalar(c as u32).len() <= 4,
        c as u32 <= 0x7F ==> encode_scalar(c as u32) == seq![c as u8],
        c as u32 > 0x7F ==> forall|i: int|
            0 <= i < encode_scalar(c as u32).len() ==> #[trigger] encode_scalar(c as u32)[i]
                >= 0x80,
{
    let s = c as u32;
    lemma_high_bytes(s);
}

/// An ASCII marker at the start of the bytes stands at the start of the text.
proof fn lemma_ascii_marker_at_start(hay: Seq<char>, needle: Seq<char>)
    requires
        is_ascii_chars(needle),
        occurs_at(encode_utf8(hay), encode_utf8(needle), 0),
    ensures
        text_occurs_at(hay, needle, 0),
    decreases needle.len(),
{
    is_ascii_chars_encode_utf8(needle);
    if needle.len() == 0 {
        assert(hay.subrange(0, 0) == needle);
    } else {
        let bytes = encode_utf8(hay);
        let marker = encode_utf8(needle);
        // The first byte is the marker's, so it is ASCII, and the first
        // character of the text is the first of the marker.
        lemma_high_bytes(hay[0] as u32);
        char_u32_cast(hay[0], hay[0] as u32);
        assert(hay[0] == needle[0]);
        // The rest of the marker starts the rest of the bytes.
        let rest = hay.drop_first();
        let tail = needle.drop_first();
        assert(encode_utf8(rest) == bytes.skip(1));
        assert(encode_utf8(tail) == marker.skip(1));
        assert(bytes.skip(1).subrange(0, marker.len() - 1) == bytes.subrange(
            0,
            marker.len() as int,
        ).skip(1));
        lemma_ascii_marker_at_start(rest, tail);
        assert(hay.subrange(0, needle.len() as int) == needle) by {
            assert forall|i: int| 0 <= i < needle.len() implies hay.subrange(
                0,
                needle.len() as int,
            )[i] == needle[i] by {
                if i > 0 {
                    assert(rest.subrange(0, tail.len() as int)[i - 1] == tail[i - 1]);
                }
            }
        }
    }
}

/// An ASCII marker that stands in the bytes of a text stands in the text.
pub proof fn lemma_ascii_marker_in_text(hay: Seq<char>, needle: Seq<char>, at: int)
    requires
        is_ascii_chars(needle),
        occurs_at(encode_utf8(hay), encode_utf8(needle), at),
    ensures
        text_occurs(hay, needle),
    decreases hay.len(),
{
    is_ascii_chars_encode_utf8(needle);
    let bytes = encode_utf8(hay);
    let marker = encode_utf8(needle);
    if needle.len() == 0 {
        assert(hay.subrange(0, 0) == needle);
        assert(text_occurs_at(hay, needle, 0));
    } else if at == 0 {
        lemma_ascii_marker_at_start(hay, needle);
    } else {
        let first = encode_scalar(hay[0] as u32);
        let rest = hay.drop_first();
        // The bytes of the first character that follow its first byte are
        // not ASCII: the marker starts behind them.
        lemma_scalar_bytes(hay[0]);
        assert(at >= first.len());
        assert(encode_utf8(rest) == bytes.skip(first.len() as int));
        assert(bytes.skip(first.len() as int).subrange(
            at - first.len(),
            at - first.len() + marker.len(),
        ) == bytes.subrange(at, at + marker.len()));
        lemma_ascii_marker_in_text(rest, needle, at - first.len());
        let inner = choose|inner: int| text_occurs_at(rest, needle, inner);
        assert(hay.subrange(inner + 1, inner + 1 + needle.len()) == rest.subrange(
            inner,
            inner + needle.len(),
        ));
        assert(text_occurs_at(hay, needle, inner + 1));
    }
}

/// A text in which an ASCII marker does not stand has bytes in which the
/// marker's bytes do not stand.
pub proof fn lemma_marker_absent(hay: Seq<char>, needle: Seq<char>)
    requires
        is_ascii_chars(needle),
        !text_occurs(hay, needle),
    ensures
        !occurs(encode_utf8(hay), encode_utf8(needle)),
{
    if occurs(encode_utf8(hay), encode_utf8(needle)) {
        let at = choose|at: int| occurs_at(encode_utf8(hay), encode_utf8(needle), at);
        lemma_ascii_marker_in_text(hay, needle, at);
    }
}

} // verus!
