//! Reading one character of a string at a byte position of its UTF-8
//! encoding.

use vstd::prelude::*;
use vstd::utf8::*;

verus! {

/// Whether position `byte_idx` of the UTF-8 encoding of `text` is the first
/// byte of a character or the end of the encoding.
pub open spec fn is_boundary(text: Seq<char>, byte_idx: int) -> bool {
    is_char_boundary(encode_utf8(text), byte_idx)
}

/// The number of characters of `text` whose encoding lies before the boundary
/// `byte_idx`.
pub open spec fn chars_before(text: Seq<char>, byte_idx: int) -> int {
    decode_utf8(encode_utf8(text).subrange(0, byte_idx)).len() as int
}

/// The number of bytes that encode `c` in UTF-8.
pub open spec fn utf8_width(c: char) -> int {
    encode_scalar(c as u32).len() as int
}

/// The character of `text` whose encoding starts at the boundary `byte_idx`,
/// if there is one.
pub open spec fn spec_char_at(text: Seq<char>, byte_idx: int) -> Option<char> {
    if chars_before(text, byte_idx) < text.len() {
        Some(text[chars_before(text, byte_idx)])
    } else {
        None
    }
}

/// At a boundary `index` the text splits into the characters encoded before
/// it and those encoded from it on.
pub proof fn lemma_split_at_boundary(text: Seq<char>, index: int)
    requires
        is_boundary(text, index),
    ensures
        0 <= index <= encode_utf8(text).len(),
        0 <= chars_before(text, index) <= text.len(),
        text.subrange(0, chars_before(text, index)) == decode_utf8(
            encode_utf8(text).subrange(0, index),
        ),
        text.subrange(chars_before(text, index), text.len() as int) == decode_utf8(
            encode_utf8(text).subrange(index, encode_utf8(text).len() as int),
        ),
        valid_utf8(encode_utf8(text).subrange(index, encode_utf8(text).len() as int)),
        chars_before(text, index) == text.len() <==> index == encode_utf8(text).len(),
{
    let bytes = encode_utf8(text);
    encode_utf8_valid_utf8(text);
    encode_utf8_decode_utf8(text);
    reveal_with_fuel(is_char_boundary, 1);
    assert(0 <= index <= bytes.len());
    valid_utf8_split(bytes, index);
    decode_utf8_split(bytes, index);
    let head = decode_utf8(bytes.subrange(0, index));
    let tail_bytes = bytes.subrange(index, bytes.len() as int);
    let tail = decode_utf8(tail_bytes);
    assert(text =~= head + tail);
    assert(text.subrange(0, head.len() as int) =~= head);
    assert(text.subrange(head.len() as int, text.len() as int) =~= tail);
    decode_utf8_encode_utf8(tail_bytes);
    if tail.len() == 0 {
        assert(encode_utf8(tail) =~= Seq::<u8>::empty());
    }
    if tail_bytes.len() == 0 {
        assert(tail =~= Seq::<char>::empty());
    }
}

/// The character at the byte position `byte_idx` of `text`, or `None` at the
/// end of the string.
pub fn char_at(byte_idx: usize, text: &String) -> (found: Option<char>)
    requires
        is_boundary(text@, byte_idx as int),
    ensures
        found == spec_char_at(text@, byte_idx as int),
        found is None <==> byte_idx == encode_utf8(text@).len(),
{
    proof {
        lemma_split_at_boundary(text@, byte_idx as int);
    }
    let (_, tail) = text.as_str().split_at(byte_idx);
    proof {
        encode_utf8_decode_utf8(tail@);
    }
    let mut chars = tail.chars();
    chars.next()
}

/// The character that starts at the boundary `byte_idx` together with the
/// boundary at which its encoding ends, if there is such a character.
pub open spec fn spec_char_at_end(text: Seq<char>, byte_idx: int) -> Option<(usize, char)> {
    match spec_char_at(text, byte_idx) {
        Some(c) => Some(((byte_idx + utf8_width(c)) as usize, c)),
        None => None,
    }
}

/// Both ends of the encoding of a text are boundaries.
pub proof fn lemma_boundary_ends(text: Seq<char>)
    ensures
        is_boundary(text, 0),
        is_boundary(text, encode_utf8(text).len() as int),
{
    encode_utf8_valid_utf8(text);
    is_char_boundary_start_end_of_seq(encode_utf8(text));
}

/// In a valid encoding, the scalar that starts at a boundary before the end
/// ends at a boundary.
proof fn lemma_boundary_step(bytes: Seq<u8>, i: int)
    requires
        valid_utf8(bytes),
        is_char_boundary(bytes, i),
        0 <= i < bytes.len(),
    ensures
        i + length_of_first_scalar(bytes.subrange(i, bytes.len() as int)) <= bytes.len(),
        is_char_boundary(
            bytes,
            i + length_of_first_scalar(bytes.subrange(i, bytes.len() as int)),
        ),
    decreases bytes.len(),
{
    let first = length_of_first_scalar(bytes);
    let rest = pop_first_scalar(bytes);
    reveal_with_fuel(is_char_boundary, 2);
    if i == 0 {
        assert(bytes.subrange(0, bytes.len() as int) =~= bytes);
    } else {
        assert(is_char_boundary(rest, i - first));
        assert(rest.subrange(i - first, rest.len() as int) =~= bytes.subrange(
            i,
            bytes.len() as int,
        ));
        lemma_boundary_step(rest, i - first);
    }
}

/// The encoding of the character that starts at the boundary `index` ends at
/// a boundary within the encoding of the text.
pub proof fn lemma_next_boundary(text: Seq<char>, index: int)
    requires
        is_boundary(text, index),
        0 <= index < encode_utf8(text).len(),
    ensures
        spec_char_at(text, index) is Some,
        1 <= utf8_width(spec_char_at(text, index)->0) <= 4,
        index + utf8_width(spec_char_at(text, index)->0) <= encode_utf8(text).len(),
        is_boundary(text, index + utf8_width(spec_char_at(text, index)->0)),
{
    lemma_split_at_boundary(text, index);
    let bytes = encode_utf8(text);
    let k = chars_before(text, index);
    let tail_bytes = bytes.subrange(index, bytes.len() as int);
    let tail = text.subrange(k, text.len() as int);
    decode_utf8_encode_utf8(tail_bytes);
    assert(encode_utf8(tail) == tail_bytes);
    assert(tail[0] == text[k]);
    encode_utf8_first_scalar(tail);
    encode_utf8_valid_utf8(text);
    lemma_boundary_step(bytes, index);
}

/// The number of bytes that encode `c` in UTF-8: one to four, by the size of
/// its code point.
pub fn len_utf8(c: char) -> (width: usize)
    ensures
        width == utf8_width(c),
        1 <= width <= 4,
{
    let code = c as u32;
    if code < 0x80 {
        1
    } else if code < 0x800 {
        2
    } else if code < 0x10000 {
        3
    } else {
        4
    }
}

/// The character at the byte position `byte_idx` of `text` together with the
/// byte position at which it ends, or `None` at the end of the string.
pub fn char_at_end(byte_idx: usize, text: &String) -> (found: Option<(usize, char)>)
    requires
        is_boundary(text@, byte_idx as int),
    ensures
        found == spec_char_at_end(text@, byte_idx as int),
        found is None <==> byte_idx == encode_utf8(text@).len(),
        found matches Some(pair) ==> byte_idx < pair.0 <= encode_utf8(text@).len()
            && is_boundary(text@, pair.0 as int),
{
    if byte_idx == text.as_str().as_bytes().len() {
        proof {
            lemma_split_at_boundary(text@, byte_idx as int);
        }
        return None;
    }
    proof {
        lemma_split_at_boundary(text@, byte_idx as int);
        lemma_next_boundary(text@, byte_idx as int);
    }
    match char_at(byte_idx, text) {
        None => None,
        Some(ch) => Some((byte_idx + len_utf8(ch), ch)),
    }
}

} // verus!
