//! The mathematical model of word navigation: scanning a character sequence
//! forwards and backwards over runs of whitespace and runs of word characters.

use vstd::prelude::*;
use crate::category::is_whitespace;

verus! {

/// The first position at or after `i` that does not hold whitespace, or the
/// length of `text` where only whitespace follows.
pub open spec fn skip_whitespace(text: Seq<char>, i: int) -> int
    decreases text.len() - i,
{
    if 0 <= i < text.len() && is_whitespace(text[i]) {
        skip_whitespace(text, i + 1)
    } else {
        i
    }
}

/// The first position at or after `i` that holds whitespace, or the length of
/// `text` where none follows.
pub open spec fn skip_word(text: Seq<char>, i: int) -> int
    decreases text.len() - i,
{
    if 0 <= i < text.len() && !is_whitespace(text[i]) {
        skip_word(text, i + 1)
    } else {
        i
    }
}

/// The last position at or before `i` that is not preceded by whitespace, or 0
/// where only whitespace precedes.
pub open spec fn skip_whitespace_back(text: Seq<char>, i: int) -> int
    decreases i,
{
    if 0 < i <= text.len() && is_whitespace(text[i - 1]) {
        skip_whitespace_back(text, i - 1)
    } else {
        i
    }
}

/// The last position at or before `i` that is preceded by whitespace, or 0
/// where no whitespace precedes.
pub open spec fn skip_word_back(text: Seq<char>, i: int) -> int
    decreases i,
{
    if 0 < i <= text.len() && !is_whitespace(text[i - 1]) {
        skip_word_back(text, i - 1)
    } else {
        i
    }
}

/// The word range that follows the range `(start, end)`: it starts at the first
/// non-whitespace position from `end` on and runs up to the next whitespace.
/// Past the last word it is the empty range at the end of the text.
pub open spec fn advanced(text: Seq<char>, range: (int, int)) -> (int, int) {
    let start = skip_whitespace(text, range.1);
    (start, skip_word(text, start))
}

/// The word range that precedes the range `(start, end)`: it ends at the last
/// non-whitespace position before `start` and reaches back to the whitespace
/// before it. Before the first word it is the empty range at 0.
pub open spec fn retreated(text: Seq<char>, range: (int, int)) -> (int, int) {
    let end = skip_whitespace_back(text, range.0);
    (skip_word_back(text, end), end)
}

/// The range reached from `range` by `n` steps forward.
pub open spec fn advanced_by(text: Seq<char>, range: (int, int), n: nat) -> (int, int)
    decreases n,
{
    if n == 0 {
        range
    } else {
        advanced(text, advanced_by(text, range, (n - 1) as nat))
    }
}

/// No position of `[start, end)` holds whitespace.
pub open spec fn no_whitespace_in(text: Seq<char>, start: int, end: int) -> bool {
    forall|k: int| start <= k < end ==> !is_whitespace(#[trigger] text[k])
}

/// Every position of `[start, end)` holds whitespace.
pub open spec fn all_whitespace_in(text: Seq<char>, start: int, end: int) -> bool {
    forall|k: int| start <= k < end ==> is_whitespace(#[trigger] text[k])
}

/// `[start, end)` is a maximal run of non-whitespace characters of `text`: it
/// lies within the text, holds no whitespace, and whitespace or a boundary of
/// the text stands on either side. The empty range is one only at the end of
/// the text, where it says that no word is left.
pub open spec fn is_word_range(text: Seq<char>, start: int, end: int) -> bool {
    &&& 0 <= start <= end <= text.len()
    &&& start < end || start == text.len()
    &&& no_whitespace_in(text, start, end)
    &&& start == 0 || start == text.len() || is_whitespace(text[start - 1])
    &&& end == text.len() || is_whitespace(text[end])
}

/// A cursor pair is valid when it is the initial pair `(0, 0)` or a word range.
pub open spec fn is_cursor(text: Seq<char>, start: int, end: int) -> bool {
    (start == 0 && end == 0) || is_word_range(text, start, end)
}

/// `skip_whitespace` yields the least position from `i` on that is the end of
/// the text or holds no whitespace.
pub proof fn lemma_skip_whitespace(text: Seq<char>, i: int)
    requires
        0 <= i <= text.len(),
    ensures
        i <= skip_whitespace(text, i) <= text.len(),
        all_whitespace_in(text, i, skip_whitespace(text, i)),
        skip_whitespace(text, i) < text.len() ==> !is_whitespace(
            text[skip_whitespace(text, i)],
        ),
    decreases text.len() - i,
{
    if i < text.len() && is_whitespace(text[i]) {
        lemma_skip_whitespace(text, i + 1);
    }
}

/// `skip_word` yields the least position from `i` on that is the end of the
/// text or holds whitespace.
pub proof fn lemma_skip_word(text: Seq<char>, i: int)
    requires
        0 <= i <= text.len(),
    ensures
        i <= skip_word(text, i) <= text.len(),
        no_whitespace_in(text, i, skip_word(text, i)),
        skip_word(text, i) < text.len() ==> is_whitespace(text[skip_word(text, i)]),
    decreases text.len() - i,
{
    if i < text.len() && !is_whitespace(text[i]) {
        lemma_skip_word(text, i + 1);
    }
}

/// `skip_whitespace_back` yields the greatest position up to `i` that is the
/// start of the text or is preceded by a non-whitespace character.
pub proof fn lemma_skip_whitespace_back(text: Seq<char>, i: int)
    requires
        0 <= i <= text.len(),
    ensures
        0 <= skip_whitespace_back(text, i) <= i,
        all_whitespace_in(text, skip_whitespace_back(text, i), i),
        skip_whitespace_back(text, i) > 0 ==> !is_whitespace(
            text[skip_whitespace_back(text, i) - 1],
        ),
    decreases i,
{
    if 0 < i && is_whitespace(text[i - 1]) {
        lemma_skip_whitespace_back(text, i - 1);
    }
}

/// `skip_word_back` yields the greatest position up to `i` that is the start of
/// the text or is preceded by whitespace.
pub proof fn lemma_skip_word_back(text: Seq<char>, i: int)
    requires
        0 <= i <= text.len(),
    ensures
        0 <= skip_word_back(text, i) <= i,
        no_whitespace_in(text, skip_word_back(text, i), i),
        skip_word_back(text, i) > 0 ==> is_whitespace(text[skip_word_back(text, i) - 1]),
    decreases i,
{
    if 0 < i && !is_whitespace(text[i - 1]) {
        lemma_skip_word_back(text, i - 1);
    }
}

/// A forward scan over whitespace that starts inside a run of whitespace ends
/// where the scan from the run's start ends.
pub proof fn lemma_skip_whitespace_unique(text: Seq<char>, i: int, j: int)
    requires
        0 <= i <= j <= text.len(),
        all_whitespace_in(text, i, j),
        j == text.len() || !is_whitespace(text[j]),
    ensures
        skip_whitespace(text, i) == j,
    decreases j - i,
{
    if i < j {
        lemma_skip_whitespace_unique(text, i + 1, j);
    }
}

/// A forward scan over a word that holds no whitespace up to `j` ends at `j`
/// when `j` is the end of the text or holds whitespace.
pub proof fn lemma_skip_word_unique(text: Seq<char>, i: int, j: int)
    requires
        0 <= i <= j <= text.len(),
        no_whitespace_in(text, i, j),
        j == text.len() || is_whitespace(text[j]),
    ensures
        skip_word(text, i) == j,
    decreases j - i,
{
    if i < j {
        lemma_skip_word_unique(text, i + 1, j);
    }
}

/// A backward scan over whitespace from `i` ends at `j` when whitespace fills
/// `[j, i)` and `j` is the start of the text or follows a word character.
pub proof fn lemma_skip_whitespace_back_unique(text: Seq<char>, i: int, j: int)
    requires
        0 <= j <= i <= text.len(),
        all_whitespace_in(text, j, i),
        j == 0 || !is_whitespace(text[j - 1]),
    ensures
        skip_whitespace_back(text, i) == j,
    decreases i - j,
{
    if j < i {
        lemma_skip_whitespace_back_unique(text, i - 1, j);
    }
}

/// A backward scan over a word from `i` ends at `j` when no whitespace stands
/// in `[j, i)` and `j` is the start of the text or follows whitespace.
pub proof fn lemma_skip_word_back_unique(text: Seq<char>, i: int, j: int)
    requires
        0 <= j <= i <= text.len(),
        no_whitespace_in(text, j, i),
        j == 0 || is_whitespace(text[j - 1]),
    ensures
        skip_word_back(text, i) == j,
    decreases i - j,
{
    if j < i {
        lemma_skip_word_back_unique(text, i - 1, j);
    }
}

/// A step forward from a valid cursor pair lands on a word range.
pub proof fn lemma_advanced_is_word_range(text: Seq<char>, start: int, end: int)
    requires
        is_cursor(text, start, end),
    ensures
        is_word_range(text, advanced(text, (start, end)).0, advanced(text, (start, end)).1),
{
    let s = skip_whitespace(text, end);
    lemma_skip_whitespace(text, end);
    lemma_skip_word(text, s);
    if s > end {
        assert(is_whitespace(text[s - 1]));
    }
}

/// A step backward from a valid cursor pair lands on a valid cursor pair: on
/// the word before, or on `(0, 0)` where no word precedes.
pub proof fn lemma_retreated_is_cursor(text: Seq<char>, start: int, end: int)
    requires
        is_cursor(text, start, end),
    ensures
        is_cursor(text, retreated(text, (start, end)).0, retreated(text, (start, end)).1),
{
    let e = skip_whitespace_back(text, start);
    lemma_skip_whitespace_back(text, start);
    lemma_skip_word_back(text, e);
    if e < start {
        assert(is_whitespace(text[e]));
    }
}

/// Whatever the text, every range that any number of steps forward from the
/// initial pair `(0, 0)` reaches lies within the text and is a maximal run of
/// non-whitespace characters.
pub proof fn lemma_advanced_by_is_word_range(text: Seq<char>, n: nat)
    requires
        n >= 1,
    ensures
        is_word_range(text, advanced_by(text, (0, 0), n).0, advanced_by(text, (0, 0), n).1),
    decreases n,
{
    let prev = advanced_by(text, (0, 0), (n - 1) as nat);
    if n > 1 {
        lemma_advanced_by_is_word_range(text, (n - 1) as nat);
    }
    lemma_advanced_is_word_range(text, prev.0, prev.1);
}

/// Round trip: from a cursor pair that shows a word, a step forward followed by
/// a step backward restores the pair. This holds on the last word too, where
/// the step forward lands on the empty range at the end of the text.
pub proof fn lemma_advance_then_retreat(text: Seq<char>, start: int, end: int)
    requires
        is_cursor(text, start, end),
        start < end,
    ensures
        retreated(text, advanced(text, (start, end))) == (start, end),
{
    let s = skip_whitespace(text, end);
    lemma_skip_whitespace(text, end);
    assert(!is_whitespace(text[end - 1]));
    lemma_skip_whitespace_back_unique(text, s, end);
    lemma_skip_word_back_unique(text, end, start);
}

/// Round trip: from a cursor pair that shows a word, a step backward followed
/// by a step forward restores the pair. This holds on the first word too,
/// where the step backward lands on `(0, 0)`.
pub proof fn lemma_retreat_then_advance(text: Seq<char>, start: int, end: int)
    requires
        is_cursor(text, start, end),
        start < end,
    ensures
        advanced(text, retreated(text, (start, end))) == (start, end),
{
    let e = skip_whitespace_back(text, start);
    lemma_skip_whitespace_back(text, start);
    assert(!is_whitespace(text[start]));
    lemma_skip_whitespace_unique(text, e, start);
    lemma_skip_word_unique(text, start, end);
}

/// From the initial pair `(0, 0)` a step forward followed by a step backward
/// leads back to `(0, 0)`.
pub proof fn lemma_initial_round_trip(text: Seq<char>)
    ensures
        retreated(text, advanced(text, (0, 0))) == (0int, 0int),
{
    let s = skip_whitespace(text, 0);
    lemma_skip_whitespace(text, 0);
    lemma_skip_whitespace_back_unique(text, s, 0);
}

/// A step backward at the very start of the text changes nothing: retreating
/// clamps at `(0, 0)`.
pub proof fn lemma_retreat_clamps_at_start(text: Seq<char>, end: int)
    ensures
        retreated(text, (0, end)) == (0int, 0int),
{
}

/// A step forward past the last word stays on the empty range at the end of
/// the text: advancing clamps there.
pub proof fn lemma_advance_clamps_at_end(text: Seq<char>, start: int)
    ensures
        advanced(text, (start, text.len() as int)) == (text.len() as int, text.len() as int),
{
}

} // verus!
