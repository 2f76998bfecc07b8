//! Normalisation of line breaks for display: a carriage return followed by a
//! line feed becomes a line feed, and every line feed becomes a space.

use vstd::prelude::*;

verus! {

/// Appending one character to a `String` (`String::push`) appends it to the
/// string's character sequence.
pub assume_specification[ String::push ](s: &mut String, ch: char)
    ensures
        final(s)@ == old(s)@.push(ch),
;

/// `text` with every carriage return that a line feed follows removed, read
/// from left to right.
pub open spec fn crlf_to_lf(text: Seq<char>) -> Seq<char>
    decreases text.len(),
{
    if text.len() == 0 {
        text
    } else if text.len() >= 2 && text[0] == '\r' && text[1] == '\n' {
        seq!['\n'] + crlf_to_lf(text.skip(2))
    } else {
        seq![text[0]] + crlf_to_lf(text.skip(1))
    }
}

/// What a line feed is shown as: a space; every other character as itself.
pub open spec fn lf_as_space(c: char) -> char {
    if c == '\n' {
        ' '
    } else {
        c
    }
}

/// `text` with every line feed replaced by a space.
pub open spec fn lf_to_space(text: Seq<char>) -> Seq<char> {
    Seq::new(text.len(), |i: int| lf_as_space(text[i]))
}

/// The display form of `text`: first `crlf_to_lf`, then `lf_to_space`.
pub open spec fn sanitized(text: Seq<char>) -> Seq<char> {
    lf_to_space(crlf_to_lf(text))
}

/// The number of carriage returns in `text` that a line feed follows.
pub open spec fn crlf_pairs(text: Seq<char>) -> nat
    decreases text.len(),
{
    if text.len() < 2 {
        0
    } else if text[0] == '\r' && text[1] == '\n' {
        1 + crlf_pairs(text.skip(2))
    } else {
        crlf_pairs(text.skip(1))
    }
}

/// Replaces each `"\r\n"` by `"\n"`, then each `"\n"` by a space.
pub fn sanitize_string(s: String) -> (out: String)
    ensures
        out@ == sanitized(s@),
        out@.len() + crlf_pairs(s@) == s@.len(),
{
    let mut out = String::new();
    // A carriage return is held back until the character after it is seen.
    let mut pending_cr = false;
    let ghost mut done: Seq<char> = Seq::empty();
    proof {
        assert(s@.skip(0) =~= s@);
        assert(out@ =~= lf_to_space(done));
    }
    for c in it: s.as_str().chars()
        invariant
            it.seq() == s@,
            out@ == lf_to_space(done),
            pending_cr ==> it.index() > 0 && s@[it.index() - 1] == '\r',
            done + crlf_to_lf(s@.skip(it.index() - if pending_cr { 1int } else { 0 }))
                == crlf_to_lf(s@),
    {
        let ghost i = it.index();
        let ghost before = done;
        assert(c == s@[i]);
        proof {
            lemma_crlf_to_lf_step(s@, i);
            if pending_cr {
                lemma_crlf_to_lf_step(s@, i - 1);
            }
        }
        if pending_cr && c != '\n' {
            out.push('\r');
            proof {
                done = done.push('\r');
            }
        }
        if c == '\r' {
            pending_cr = true;
        } else {
            pending_cr = false;
            out.push(if c == '\n' { ' ' } else { c });
            proof {
                done = done.push(c);
            }
        }
        proof {
            assert(out@ =~= lf_to_space(done));
            assert(done + crlf_to_lf(s@.skip(i + 1 - if pending_cr { 1int } else { 0 }))
                =~= crlf_to_lf(s@));
        }
    }
    if pending_cr {
        proof {
            lemma_crlf_to_lf_step(s@, s@.len() - 1);
            lemma_crlf_to_lf_step(s@, s@.len() as int);
            done = done.push('\r');
        }
        out.push('\r');
    }
    proof {
        lemma_crlf_to_lf_step(s@, s@.len() as int);
        assert(out@ =~= lf_to_space(done));
        assert(done =~= crlf_to_lf(s@));
        lemma_sanitized_len(s@);
    }
    out
}

/// One step of `crlf_to_lf` at position `i` of `text`: a carriage return that
/// a line feed follows is dropped, every other character is kept.
pub proof fn lemma_crlf_to_lf_step(text: Seq<char>, i: int)
    requires
        0 <= i <= text.len(),
    ensures
        i == text.len() ==> crlf_to_lf(text.skip(i)) == Seq::<char>::empty(),
        i + 1 < text.len() && text[i] == '\r' && text[i + 1] == '\n' ==> crlf_to_lf(text.skip(i))
            == seq!['\n'] + crlf_to_lf(text.skip(i + 2)),
        i < text.len() && !(i + 1 < text.len() && text[i] == '\r' && text[i + 1] == '\n')
            ==> crlf_to_lf(text.skip(i)) == seq![text[i]] + crlf_to_lf(text.skip(i + 1)),
{
    let rest = text.skip(i);
    if i == text.len() {
        assert(rest =~= Seq::<char>::empty());
    } else {
        assert(rest[0] == text[i]);
        assert(rest.skip(1) =~= text.skip(i + 1));
        if i + 1 < text.len() {
            assert(rest[1] == text[i + 1]);
            assert(rest.skip(2) =~= text.skip(i + 2));
        }
    }
}

/// The display form is shorter than the text by one character for each
/// carriage return that a line feed follows.
pub proof fn lemma_sanitized_len(text: Seq<char>)
    ensures
        sanitized(text).len() + crlf_pairs(text) == text.len(),
    decreases text.len(),
{
    if text.len() == 0 {
    } else if text.len() >= 2 && text[0] == '\r' && text[1] == '\n' {
        lemma_sanitized_len(text.skip(2));
    } else {
        lemma_sanitized_len(text.skip(1));
    }
}

} // verus!
