//! Bodies that fold away, with nested ones inside them.
use vstd::prelude::*;

use vstd::slice::slice_subrange;
use vstd::string::*;

use super::kinds::LineKind;
use crate::seqs;
use crate::text;

verus! {

broadcast use crate::seqs::views_push;

/// One piece of a collapsible body: plain lines, or a nested collapsible that
/// carries its own title and marker.
pub enum Section {
    Text(String),
    Item { kind: LineKind, title: String, detail: Collapsible },
}

/// A body that can be folded away.
pub struct Collapsible {
    pub sections: Vec<Section>,
    pub expanded: bool,
    pub pinned: bool,
}

/// What a section holds.
pub enum SectionView {
    Text(Seq<char>),
    Item { kind: LineKind, title: Seq<char>, detail: CollapsibleView },
}

/// What a collapsible holds, and whether it is unfolded and kept so.
pub struct CollapsibleView {
    pub sections: Seq<SectionView>,
    pub expanded: bool,
    pub pinned: bool,
}

/// What a section holds.
pub open spec fn section_view(s: Section) -> SectionView
    decreases s,
{
    match s {
        Section::Text(t) => SectionView::Text(t@),
        Section::Item { kind, title, detail } => SectionView::Item {
            kind,
            title: title@,
            detail: collapsible_view(detail),
        },
    }
}

/// What each of a run of sections holds.
pub open spec fn section_views(s: Seq<Section>) -> Seq<SectionView>
    decreases s,
{
    if s.len() == 0 {
        Seq::empty()
    } else {
        section_views(s.drop_last()).push(section_view(s.last()))
    }
}

/// What a collapsible holds.
pub open spec fn collapsible_view(c: Collapsible) -> CollapsibleView
    decreases c,
{
    CollapsibleView {
        sections: section_views(c.sections@),
        expanded: c.expanded,
        pinned: c.pinned,
    }
}

impl View for Collapsible {
    type V = CollapsibleView;

    open spec fn view(&self) -> CollapsibleView {
        collapsible_view(*self)
    }
}

impl View for Section {
    type V = SectionView;

    open spec fn view(&self) -> SectionView {
        section_view(*self)
    }
}

/// A run of sections with every nested item folded as `folded` folds it.
pub open spec fn folded_sections(s: Seq<SectionView>) -> Seq<SectionView>
    decreases s,
{
    if s.len() == 0 {
        Seq::empty()
    } else {
        folded_sections(s.drop_last()).push(folded_section(s.last()))
    }
}

/// A section with its nested item, if it is one, folded.
pub open spec fn folded_section(s: SectionView) -> SectionView
    decreases s,
{
    match s {
        SectionView::Text(t) => s,
        SectionView::Item { kind, title, detail } => SectionView::Item {
            kind,
            title,
            detail: folded(detail),
        },
    }
}

/// A collapsible after it was asked to fold: one that is pinned, or folded
/// already, stays as it is; any other folds, with all that is nested in it.
pub open spec fn folded(c: CollapsibleView) -> CollapsibleView
    decreases c,
{
    if c.pinned || !c.expanded {
        c
    } else {
        CollapsibleView {
            sections: folded_sections(c.sections),
            expanded: false,
            pinned: c.pinned,
        }
    }
}

pub proof fn lemma_section_views(s: Seq<Section>)
    ensures
        section_views(s).len() == s.len(),
        forall|i: int| 0 <= i < s.len() ==> section_views(s)[i] == section_view(s[i]),
    decreases s.len(),
{
    if s.len() > 0 {
        lemma_section_views(s.drop_last());
        assert forall|i: int| 0 <= i < s.len() implies section_views(s)[i] == section_view(s[i]) by {
            if i < s.len() - 1 {
                assert(s.drop_last()[i] == s[i]);
            }
        }
    }
}

pub proof fn lemma_folded_sections(s: Seq<SectionView>)
    ensures
        folded_sections(s).len() == s.len(),
        forall|i: int| 0 <= i < s.len() ==> folded_sections(s)[i] == folded_section(s[i]),
    decreases s.len(),
{
    if s.len() > 0 {
        lemma_folded_sections(s.drop_last());
        assert forall|i: int| 0 <= i < s.len() implies folded_sections(s)[i] == folded_section(
            s[i],
        ) by {
            if i < s.len() - 1 {
                assert(s.drop_last()[i] == s[i]);
            }
        }
    }
}

/// The plain texts among a run of sections, in order.
pub open spec fn plain_texts(s: Seq<SectionView>) -> Seq<Seq<char>>
    decreases s.len(),
{
    if s.len() == 0 {
        Seq::empty()
    } else {
        match s.last() {
            SectionView::Text(t) => plain_texts(s.drop_last()).push(t),
            SectionView::Item { .. } => plain_texts(s.drop_last()),
        }
    }
}

/// A body after `t` was added to it: at the end of its last text, or as a
/// text of its own behind a nested item.
pub open spec fn appended(s: Seq<SectionView>, t: Seq<char>) -> Seq<SectionView> {
    if s.len() > 0 && s.last() is Text {
        s.drop_last().push(SectionView::Text(s.last()->Text_0 + t))
    } else {
        s.push(SectionView::Text(t))
    }
}

/// How many of `len` sections a window of the newest `limit` leaves out.
pub open spec fn left_out(len: nat, limit: Option<usize>) -> nat {
    match limit {
        Some(max) => if len > max {
            (len - max) as nat
        } else {
            0
        },
        None => 0,
    }
}

/// A collapsible whose fold was switched: it is pinned while it is open.
pub open spec fn toggled(c: CollapsibleView) -> CollapsibleView {
    CollapsibleView { sections: c.sections, expanded: !c.expanded, pinned: !c.expanded }
}

/// Whether `path` leads from `c` to a collapsible: each step names a nested
/// item.
pub open spec fn leads_to_item(c: CollapsibleView, path: Seq<usize>) -> bool
    decreases path.len(),
{
    path.len() > 0 ==> {
        &&& path[0] < c.sections.len()
        &&& c.sections[path[0] as int] is Item
        &&& leads_to_item(c.sections[path[0] as int]->Item_detail, path.skip(1))
    }
}

/// `c` with the collapsible at the end of `path` switched, and unchanged where
/// the path leads to none.
pub open spec fn toggled_at(c: CollapsibleView, path: Seq<usize>) -> CollapsibleView
    decreases path.len(),
{
    if path.len() == 0 {
        toggled(c)
    } else if path[0] < c.sections.len() && c.sections[path[0] as int] is Item {
        match c.sections[path[0] as int] {
            SectionView::Item { kind, title, detail } => CollapsibleView {
                sections: c.sections.update(
                    path[0] as int,
                    SectionView::Item { kind, title, detail: toggled_at(detail, path.skip(1)) },
                ),
                ..c
            },
            SectionView::Text(t) => c,
        }
    } else {
        c
    }
}

/// Switching a body twice folds or unfolds it as it was.
pub proof fn toggle_twice_restores_fold(c: CollapsibleView)
    ensures
        toggled(toggled(c)).expanded == c.expanded,
        toggled(toggled(c)).sections == c.sections,
{
}

/// A body that was unfolded by hand stays open when its neighbours fold.
pub proof fn unfolded_by_hand_stays_open(c: CollapsibleView)
    requires
        !c.expanded,
    ensures
        folded(toggled(c)) == toggled(c),
        folded(toggled(c)).expanded,
{
}

/// Folding a body again changes nothing.
pub proof fn folding_is_idempotent(c: CollapsibleView)
    ensures
        folded(folded(c)) == folded(c),
{
}

impl Collapsible {
    /// An unfolded body of one text.
    pub fn new(body: String) -> (c: Self)
        ensures
            c@ == (CollapsibleView {
                sections: seq![SectionView::Text(body@)],
                expanded: true,
                pinned: false,
            }),
    {
        let ghost b = body@;
        let c = Self::from_sections(vec![Section::Text(body)]);
        proof {
            lemma_section_views(c.sections@);
            assert(c@.sections =~= seq![SectionView::Text(b)]);
        }
        c
    }

    /// An unfolded body of the given sections.
    pub fn from_sections(sections: Vec<Section>) -> (c: Self)
        ensures
            c@ == (CollapsibleView {
                sections: section_views(sections@),
                expanded: true,
                pinned: false,
            }),
            c.sections == sections,
    {
        Self { sections, expanded: true, pinned: false }
    }

    /// Adds `text` to the end of the body.
    pub fn append(&mut self, text: &str)
        ensures
            final(self)@ == (CollapsibleView {
                sections: appended(old(self)@.sections, text@),
                ..old(self)@
            }),
    {
        let ghost before = self.sections@;
        proof {
            lemma_section_views(before);
        }
        let n: usize = self.sections.len();
        if n > 0 {
            if let Section::Text(last) = &mut self.sections[n - 1] {
                last.append(text);
                proof {
                    lemma_section_views(self.sections@);
                    assert(self@.sections =~= appended(section_views(before), text@));
                }
                return ;
            }
        }
        self.sections.push(Section::Text(text.to_owned()));
        proof {
            lemma_section_views(self.sections@);
            assert(self@.sections =~= appended(section_views(before), text@));
        }
    }

    /// Puts other sections in the place of the body.
    pub fn replace_sections(&mut self, sections: Vec<Section>)
        ensures
            final(self)@ == (CollapsibleView {
                sections: section_views(sections@),
                ..old(self)@
            }),
    {
        self.sections = sections;
    }

    /// The nested collapsible at `idx`, for a header that points into one.
    pub fn item_mut(&mut self, idx: usize) -> (item: Option<&mut Collapsible>)
        ensures
            match item {
                Some(nested) => {
                    &&& idx < old(self).sections@.len()
                    &&& old(self).sections@[idx as int] is Item
                    &&& *nested == old(self).sections@[idx as int]->Item_detail
                    &&& final(self).expanded == old(self).expanded
                    &&& final(self).pinned == old(self).pinned
                    &&& final(self).sections@ =~= old(self).sections@.update(
                        idx as int,
                        Section::Item {
                            kind: old(self).sections@[idx as int]->Item_kind,
                            title: old(self).sections@[idx as int]->Item_title,
                            detail: *final(nested),
                        },
                    )
                },
                None => {
                    &&& final(self).sections@ =~= old(self).sections@
                    &&& final(self).expanded == old(self).expanded
                    &&& final(self).pinned == old(self).pinned
                    &&& idx < old(self).sections@.len() ==> old(self).sections@[idx as int] is Text
                },
            },
    {
        if idx >= self.sections.len() {
            return None;
        }
        match &mut self.sections[idx] {
            Section::Item { detail, .. } => Some(detail),
            Section::Text(_) => None,
        }
    }

    /// Switches the collapsible at the end of `path[at..]`. Returns whether
    /// there is one.
    pub fn toggle_at(&mut self, path: &Vec<usize>, at: usize) -> (found: bool)
        requires
            at <= path@.len(),
        ensures
            found == leads_to_item(old(self)@, path@.skip(at as int)),
            final(self)@ == (if found {
                toggled_at(old(self)@, path@.skip(at as int))
            } else {
                old(self)@
            }),
        decreases path@.len() - at,
    {
        if at == path.len() {
            self.toggle();
            return true;
        }
        let ghost before = self.sections@;
        let ghost rest = path@.skip(at as int);
        proof {
            lemma_section_views(before);
            assert(rest.skip(1) =~= path@.skip(at + 1));
        }
        let found = match self.item_mut(path[at]) {
            Some(nested) => nested.toggle_at(path, at + 1),
            None => false,
        };
        proof {
            lemma_section_views(self.sections@);
            if found {
                assert(self@.sections =~= toggled_at(old(self)@, rest).sections);
            } else {
                assert(self@.sections =~= old(self)@.sections);
            }
        }
        found
    }

    /// The plain texts of the body, one under the other.
    pub fn body(&self) -> (out: String)
        ensures
            out@ == text::joined(plain_texts(self@.sections), "\n"@),
    {
        let mut texts: Vec<String> = Vec::new();
        let mut i: usize = 0;
        proof {
            lemma_section_views(self.sections@);
            assert(self@.sections.take(0) =~= Seq::<SectionView>::empty());
            assert(seqs::views(texts@) =~= Seq::<Seq<char>>::empty());
        }
        while i < self.sections.len()
            invariant
                i <= self.sections@.len() == self@.sections.len(),
                forall|j: int|
                    0 <= j < self.sections@.len() ==> self@.sections[j] == section_view(
                        self.sections@[j],
                    ),
                seqs::views(texts@) == plain_texts(self@.sections.take(i as int)),
            decreases self.sections.len() - i,
        {
            proof {
                let next = self@.sections.take(i + 1);
                assert(next.drop_last() =~= self@.sections.take(i as int));
                assert(next.last() == section_view(self.sections@[i as int]));
            }
            if let Section::Text(t) = &self.sections[i] {
                texts.push(t.clone());
            }
            i += 1;
        }
        assert(self@.sections.take(self@.sections.len() as int) =~= self@.sections);
        text::join(&texts, "\n")
    }

    /// Whether the body is unfolded.
    pub fn is_expanded(&self) -> (yes: bool)
        ensures
            yes == self@.expanded,
    {
        self.expanded
    }

    /// Folds or unfolds the body by hand. A body unfolded so stays open.
    pub fn toggle(&mut self)
        ensures
            final(self)@ == toggled(old(self)@),
    {
        self.expanded = !self.expanded;
        self.pinned = self.expanded;
    }

    /// Newest `limit` sections of a still-growing body, with the count dropped
    /// from the head, so a growing row cannot scroll the view upward.
    pub fn visible_sections(&self, limit: Option<usize>) -> (out: (usize, &[Section]))
        ensures
            out.0 == left_out(self.sections@.len(), limit),
            out.1@ == self.sections@.skip(out.0 as int),
    {
        let n: usize = self.sections.len();
        let skipped: usize = match limit {
            Some(max) => n.saturating_sub(max),
            None => 0,
        };
        (skipped, slice_subrange(self.sections.as_slice(), skipped, n))
    }

    /// Folds the body unless it is pinned, with all that is nested in it.
    /// Returns whether it was unfolded before.
    pub fn collapse(&mut self) -> (changed: bool)
        ensures
            final(self)@ == folded(old(self)@),
            changed == (old(self)@.expanded && !old(self)@.pinned),
        decreases *old(self),
    {
        if self.pinned || !self.expanded {
            return false;
        }
        self.expanded = false;
        let ghost before = old(self).sections@;
        let mut i: usize = 0;
        while i < self.sections.len()
            invariant
                i <= self.sections@.len() == before.len(),
                before == old(self).sections@,
                !self.expanded,
                !self.pinned,
                forall|j: int| i <= j < before.len() ==> self.sections@[j] == before[j],
                forall|j: int|
                    0 <= j < i ==> section_view(#[trigger] self.sections@[j]) == folded_section(
                        section_view(before[j]),
                    ),
            decreases before.len() - i,
        {
            if let Section::Item { detail, .. } = &mut self.sections[i] {
                detail.collapse();
            }
            i += 1;
        }
        proof {
            lemma_section_views(before);
            lemma_section_views(self.sections@);
            lemma_folded_sections(section_views(before));
            assert(section_views(self.sections@) =~= folded_sections(section_views(before)));
        }
        true
    }
}

/// Switching a body nested in another switches that one alone: it is unfolded where
/// it was folded, and the other way round, and no text and no other body changes.
pub proof fn toggling_switches_one(c: CollapsibleView, i: usize, j: int)
    requires
        i < c.sections.len(),
        c.sections[i as int] is Item,
        0 <= j < c.sections.len(),
    ensures
        ({
            let next = toggled_at(c, seq![i]);
            &&& next.expanded == c.expanded
            &&& next.pinned == c.pinned
            &&& next.sections.len() == c.sections.len()
            &&& j != i ==> next.sections[j] == c.sections[j]
            &&& (next.sections[i as int] matches SectionView::Item { kind, title, detail }
                && detail.expanded == !c.sections[i as int]->Item_detail.expanded
                && detail.sections == c.sections[i as int]->Item_detail.sections && title
                == c.sections[i as int]->Item_title)
        }),
{
    let path = seq![i];
    assert(path.skip(1).len() == 0);
    reveal_with_fuel(toggled_at, 2);
}

/// Of a body that may show so many parts the last ones are shown: none are left out
/// where there are no more, and all but so many where there are.
pub proof fn the_first_are_left_out(len: nat, max: usize)
    ensures
        left_out(len, None) == 0,
        len <= max ==> left_out(len, Some(max)) == 0,
        len > max ==> len - left_out(len, Some(max)) == max,
{
}

} // verus!
