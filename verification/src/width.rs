//! How many terminal columns text takes.
use vstd::prelude::*;

verus! {

/// The columns a character takes, as the `unicode-width` crate counts them;
/// `None` for a control character.
pub uninterp spec fn char_cols(c: char) -> Option<usize>;

/// The columns a text takes, as the `unicode-width` crate counts them. Not
/// always the sum over its characters: an emoji sequence counts as one glyph.
pub uninterp spec fn cols(s: Seq<char>) -> usize;

/// `UnicodeWidthChar::width`: the width depends on the character alone.
#[verifier::external_body]
pub(crate) fn char_width(c: char) -> (w: Option<usize>)
    ensures
        w == char_cols(c),
{
    unicode_width::UnicodeWidthChar::width(c)
}

/// `UnicodeWidthStr::width`: the width depends on the characters alone, and
/// printable ASCII characters are one column each.
#[verifier::external_body]
pub(crate) fn str_width(s: &str) -> (w: usize)
    ensures
        w == cols(s@),
        (forall|i: int| 0 <= i < s@.len() ==> ' ' <= #[trigger] s@[i] <= '~') ==> w == s@.len(),
{
    unicode_width::UnicodeWidthStr::width(s)
}

/// The columns a character adds to a line: a control character adds none.
pub open spec fn glyph(c: char) -> nat {
    match char_cols(c) {
        Some(w) => w as nat,
        None => 0,
    }
}

/// The columns a character adds to a line.
pub fn glyph_width(c: char) -> (w: usize)
    ensures
        w == glyph(c),
{
    match char_width(c) {
        Some(w) => w,
        None => 0,
    }
}

/// The columns that the characters of `s` add up to.
pub open spec fn glyphs(s: Seq<char>) -> nat
    decreases s.len(),
{
    if s.len() == 0 {
        0
    } else {
        glyphs(s.drop_last()) + glyph(s.last())
    }
}

/// More characters take at least as many columns.
pub proof fn glyphs_grow(s: Seq<char>, i: int, j: int)
    requires
        0 <= i <= j <= s.len(),
    ensures
        glyphs(s.take(i)) <= glyphs(s.take(j)),
    decreases j - i,
{
    if i < j {
        glyphs_grow(s, i, j - 1);
        assert(s.take(j).drop_last() =~= s.take(j - 1));
    }
}

} // verus!
