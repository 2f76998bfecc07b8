//! Classification of characters into glyphs, whitespace and punctuation.

use vstd::prelude::*;

verus! {

/// The three classes a character can fall into.
#[derive(Debug, Clone, Copy, PartialEq, Eq, Structural)]
pub enum CharCategory {
    Glyph,
    WhiteSpace,
    Punctuation,
}

/// Whitespace is a space, a line feed or a tab; it is the only word delimiter.
pub open spec fn is_whitespace(c: char) -> bool {
    c == ' ' || c == '\n' || c == '\t'
}

/// Punctuation is one of the marks `.`, `:`, `;`, `,` and `-`.
pub open spec fn is_punctuation(c: char) -> bool {
    c == '.' || c == ':' || c == ';' || c == ',' || c == '-'
}

/// The class of a character: whitespace, punctuation, or else a glyph.
pub open spec fn category_of(c: char) -> CharCategory {
    if is_whitespace(c) {
        CharCategory::WhiteSpace
    } else if is_punctuation(c) {
        CharCategory::Punctuation
    } else {
        CharCategory::Glyph
    }
}

/// Classifies one character.
pub fn get_category(ch: char) -> (cat: CharCategory)
    ensures
        cat == category_of(ch),
{
    match ch {
        ' ' | '\n' | '\t' => CharCategory::WhiteSpace,
        '.' | ':' | ';' | ',' | '-' => CharCategory::Punctuation,
        _ => CharCategory::Glyph,
    }
}

/// Every character falls into exactly one class, and the three predicates agree with it.
pub proof fn lemma_category_partition(c: char)
    ensures
        category_of(c) == CharCategory::WhiteSpace <==> is_whitespace(c),
        category_of(c) == CharCategory::Punctuation <==> is_punctuation(c),
        category_of(c) == CharCategory::Glyph <==> !is_whitespace(c) && !is_punctuation(c),
        !(is_whitespace(c) && is_punctuation(c)),
{
}

} // verus!
