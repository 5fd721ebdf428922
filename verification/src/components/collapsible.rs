//! A text that folds away under its title.
use vstd::prelude::*;
use vstd::string::*;

use super::transcript::collapsible;
use crate::seqs;
use crate::text;

verus! {

broadcast use crate::seqs::views_push;

/// A text that can be folded away.
pub struct Collapsible {
    body: String,
    expanded: bool,
    pinned: bool,
}

/// What a folding text holds, and whether it is unfolded and kept so.
#[verifier::ext_equal]
pub struct FoldView {
    pub body: Seq<char>,
    pub expanded: bool,
    pub pinned: bool,
}

impl FoldView {
    /// The text with more at its end.
    pub open spec fn appended(self, t: Seq<char>) -> Self {
        FoldView { body: self.body + t, ..self }
    }

    /// The text folded or unfolded by hand.
    pub open spec fn toggled(self) -> Self {
        FoldView { body: self.body, expanded: !self.expanded, pinned: !self.expanded }
    }

    /// Whether the text folds when it is asked to.
    pub open spec fn would_fold(self) -> bool {
        self.expanded && !self.pinned
    }

    /// The text asked to fold.
    pub open spec fn folded(self) -> Self {
        FoldView { expanded: self.expanded && self.pinned, ..self }
    }
}

impl View for Collapsible {
    type V = FoldView;

    closed spec fn view(&self) -> FoldView {
        FoldView { body: self.body@, expanded: self.expanded, pinned: self.pinned }
    }
}

impl Collapsible {
    /// An unfolded text.
    pub fn new(body: String) -> (c: Self)
        ensures
            c@ == (FoldView { body: body@, expanded: true, pinned: false }),
    {
        Self { body, expanded: true, pinned: false }
    }

    /// Adds `text` to the end of the body.
    pub fn append(&mut self, text: &str)
        ensures
            final(self)@ == old(self)@.appended(text@),
    {
        self.body.append(text);
    }

    /// Puts another text in the place of the body.
    pub fn replace(&mut self, body: String)
        ensures
            final(self)@ == (FoldView { body: body@, ..old(self)@ }),
    {
        self.body = body;
    }

    /// The whole text.
    pub fn body(&self) -> (out: &str)
        ensures
            out@ == self@.body,
    {
        self.body.as_str()
    }

    /// Whether the text is unfolded.
    pub fn is_expanded(&self) -> (yes: bool)
        ensures
            yes == self@.expanded,
    {
        self.expanded
    }

    /// Folds or unfolds the text by hand. A text unfolded so stays open.
    pub fn toggle(&mut self)
        ensures
            final(self)@ == old(self)@.toggled(),
    {
        self.expanded = !self.expanded;
        self.pinned = self.expanded;
    }

    /// Body window for a row that is still streaming: only the newest `limit`
    /// lines render, so a growing row cannot scroll the view. `None` renders
    /// the full body. Returns the count of lines dropped from the head, and
    /// the lines that are left.
    pub fn visible_body(&self, limit: Option<usize>) -> (out: (usize, Vec<String>))
        ensures
            out.0 == collapsible::left_out(text::lines_of(self@.body).len(), limit),
            seqs::views(out.1@) == text::lines_of(self@.body).skip(out.0 as int),
    {
        let all = text::lines(self.body.as_str());
        let ghost lines = text::lines_of(self.body@);
        let n: usize = all.len();
        let skipped: usize = match limit {
            Some(max) => n.saturating_sub(max),
            None => 0,
        };
        assert(n == lines.len());
        let mut tail: Vec<String> = Vec::new();
        let mut i: usize = skipped;
        assert(seqs::views(tail@) =~= lines.subrange(skipped as int, skipped as int));
        while i < n
            invariant
                skipped <= i <= n == all@.len(),
                lines == seqs::views(all@),
                seqs::views(tail@) == lines.subrange(skipped as int, i as int),
            decreases n - i,
        {
            tail.push(all[i].clone());
            assert(lines.subrange(skipped as int, i + 1) =~= lines.subrange(
                skipped as int,
                i as int,
            ).push(lines[i as int]));
            i += 1;
        }
        assert(lines.subrange(skipped as int, n as int) =~= lines.skip(skipped as int));
        (skipped, tail)
    }

    /// Folds the text unless it is pinned. Returns whether it was unfolded
    /// before.
    pub fn collapse(&mut self) -> (changed: bool)
        ensures
            changed == old(self)@.would_fold(),
            final(self)@ == old(self)@.folded(),
    {
        if self.pinned || !self.expanded {
            return false;
        }
        self.expanded = false;
        true
    }
}

/// A text that was unfolded by hand stays open when it is asked to fold; one that
/// was not folds, and keeps its body. Folding by hand undoes unfolding by hand.
pub proof fn unfolded_by_hand_stays_open(v: FoldView, t: Seq<char>)
    ensures
        !v.expanded ==> v.toggled().expanded && v.toggled().folded() == v.toggled(),
        v.expanded ==> !v.toggled().expanded,
        v.toggled().body == v.body,
        v.toggled().toggled().expanded == v.expanded,
        v.expanded && !v.pinned ==> v.would_fold() && !v.folded().expanded,
        !(v.expanded && !v.pinned) ==> !v.would_fold() && v.folded() == v,
        v.folded().body == v.body,
        v.appended(t).body == v.body + t,
        v.appended(t).expanded == v.expanded,
{
}

} // verus!
