//! The mathematical model of the context shown beside the current word:
//! windows of fixed length into the text, padded with spaces at its edges.

use vstd::prelude::*;
use crate::sanitize::{crlf_pairs, crlf_to_lf, lemma_sanitized_len, sanitized};

verus! {

/// `n` spaces.
pub open spec fn spaces(n: int) -> Seq<char> {
    Seq::new(n as nat, |i: int| ' ')
}

/// The smaller of two integers.
pub open spec fn min_of(a: int, b: int) -> int {
    if a <= b {
        a
    } else {
        b
    }
}

/// The `len` characters of `text` that follow position `pos`; where fewer
/// remain, those followed by spaces up to the length `len`.
pub open spec fn window_after(text: Seq<char>, pos: int, len: int) -> Seq<char> {
    let taken = min_of(len, text.len() - pos);
    text.subrange(pos, pos + taken) + spaces(len - taken)
}

/// The `len` characters of `text` that precede position `pos`; where fewer
/// precede, those preceded by spaces up to the length `len`.
pub open spec fn window_before(text: Seq<char>, pos: int, len: int) -> Seq<char> {
    let taken = min_of(len, pos);
    spaces(len - taken) + text.subrange(pos - taken, pos)
}

/// Whether somewhere in `text` a line feed follows a carriage return.
pub open spec fn has_crlf(text: Seq<char>) -> bool {
    exists|i: int| 0 <= i && i + 1 < text.len() && text[i] == '\r' && #[trigger] text[i + 1] == '\n'
}

/// A window has the length asked for, at the edges of the text as within it.
pub proof fn lemma_window_len(text: Seq<char>, pos: int, len: int)
    requires
        0 <= pos <= text.len(),
        0 <= len,
    ensures
        window_after(text, pos, len).len() == len,
        window_before(text, pos, len).len() == len,
{
}

/// `crlf_pairs` counts nothing exactly where no line feed follows a carriage
/// return.
pub proof fn lemma_crlf_pairs_zero(text: Seq<char>)
    ensures
        crlf_pairs(text) == 0 <==> !has_crlf(text),
    decreases text.len(),
{
    if text.len() < 2 {
    } else if text[0] == '\r' && text[1] == '\n' {
        assert(text[0int + 1] == '\n');
    } else {
        let rest = text.skip(1);
        lemma_crlf_pairs_zero(rest);
        if has_crlf(rest) {
            let i = choose|i: int|
                0 <= i && i + 1 < rest.len() && rest[i] == '\r' && #[trigger] rest[i + 1] == '\n';
            assert(text[(i + 1) + 1] == rest[i + 1]);
            assert(text[i + 1] == rest[i]);
        }
        if has_crlf(text) {
            let i = choose|i: int|
                0 <= i && i + 1 < text.len() && text[i] == '\r' && #[trigger] text[i + 1] == '\n';
            assert(i >= 1);
            assert(rest[i - 1] == text[i]);
            assert(rest[(i - 1) + 1] == text[i + 1]);
        }
    }
}

/// In a text where no line feed follows a carriage return, no window has one
/// that does: the padding is made of spaces.
pub proof fn lemma_window_without_crlf(text: Seq<char>, pos: int, len: int)
    requires
        0 <= pos <= text.len(),
        0 <= len,
        !has_crlf(text),
    ensures
        !has_crlf(window_after(text, pos, len)),
        !has_crlf(window_before(text, pos, len)),
{
    let after = window_after(text, pos, len);
    if has_crlf(after) {
        let i = choose|i: int|
            0 <= i && i + 1 < after.len() && after[i] == '\r' && #[trigger] after[i + 1] == '\n';
        assert(text[(pos + i) + 1] == '\n');
    }
    let before = window_before(text, pos, len);
    let taken = min_of(len, pos);
    if has_crlf(before) {
        let i = choose|i: int|
            0 <= i && i + 1 < before.len() && before[i] == '\r' && #[trigger] before[i + 1] == '\n';
        assert(text[(pos - len + i) + 1] == '\n');
    }
}

/// Padding law: the display form of a window has exactly the length asked
/// for, however close the window is to an edge of the text, provided that in
/// the window no line feed follows a carriage return. (Each such pair is shown
/// as one space, and shortens the display form by one.)
pub proof fn lemma_padded_context_len(text: Seq<char>, pos: int, len: int)
    requires
        0 <= pos <= text.len(),
        0 <= len,
    ensures
        !has_crlf(window_after(text, pos, len)) <==> sanitized(window_after(text, pos, len)).len()
            == len,
        !has_crlf(window_before(text, pos, len)) <==> sanitized(
            window_before(text, pos, len),
        ).len() == len,
{
    lemma_window_len(text, pos, len);
    lemma_sanitized_len(window_after(text, pos, len));
    lemma_sanitized_len(window_before(text, pos, len));
    lemma_crlf_pairs_zero(window_after(text, pos, len));
    lemma_crlf_pairs_zero(window_before(text, pos, len));
}

/// Without a line feed in `text` there is no carriage return to drop.
pub proof fn lemma_crlf_to_lf_plain(text: Seq<char>)
    requires
        forall|i: int| 0 <= i < text.len() ==> text[i] != '\n',
    ensures
        crlf_to_lf(text) == text,
    decreases text.len(),
{
    if text.len() > 0 {
        let rest = text.skip(1);
        assert forall|i: int| 0 <= i < rest.len() implies rest[i] != '\n' by {
            assert(rest[i] == text[i + 1]);
        }
        lemma_crlf_to_lf_plain(rest);
        assert(seq![text[0]] + rest =~= text);
    }
}

/// The display form of a run of characters without line feeds is the run
/// itself; so a word, which holds no whitespace, is shown as it is.
pub proof fn lemma_sanitized_plain(text: Seq<char>)
    requires
        forall|i: int| 0 <= i < text.len() ==> text[i] != '\n',
    ensures
        sanitized(text) == text,
{
    lemma_crlf_to_lf_plain(text);
    assert(sanitized(text) =~= text);
}

} // verus!
