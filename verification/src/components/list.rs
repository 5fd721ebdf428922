//! Lists to choose from.
use vstd::arithmetic::div_mod::*;
use vstd::prelude::*;
use vstd::string::*;

use super::theme;
use crate::seqs;
use crate::style::{Line, Span, Style};
use crate::style;
use crate::text;

verus! {

broadcast use crate::seqs::views_push;

/// Rows that a list shows at most.
pub const MAX_LIST_ROWS: usize = 6;

/// Rows of the heading of a titled list.
pub const TITLE_ROWS: u16 = 2;

/// The entry after moving by one in a list of `n`, around its ends.
pub open spec fn cycled(selected: nat, n: nat, up: bool) -> nat {
    if n == 0 {
        selected
    } else if up {
        ((selected + n - 1) as nat) % n
    } else {
        (selected + 1) % n
    }
}

/// Moves the selection by one, around the ends of the list.
pub fn cycle_selected(selected: &mut usize, n: usize, up: bool)
    ensures
        *final(selected) == cycled(*old(selected) as nat, n as nat, up),
        n > 0 ==> *final(selected) < n,
{
    if n == 0 {
        return ;
    }
    let at: usize = *selected % n;
    let ghost s = *selected as int;
    let ghost m = n as int;
    proof {
        lemma_fundamental_div_mod(s, m);
        let q = s / m;
        let r = at as int;
        assert(s == q * m + r) by {
            assert(m * q == q * m) by (nonlinear_arith);
        }
        assert((q + 1) * m == q * m + m) by (nonlinear_arith);
        if at == 0 {
            lemma_fundamental_div_mod_converse(s + m - 1, m, q, m - 1);
        } else {
            assert(s + m - 1 == (q + 1) * m + (r - 1));
            lemma_fundamental_div_mod_converse(s + m - 1, m, q + 1, r - 1);
        }
        if at == m - 1 {
            assert(s + 1 == (q + 1) * m + 0);
            lemma_fundamental_div_mod_converse(s + 1, m, q + 1, 0);
        } else {
            assert(s + 1 == q * m + (r + 1));
            lemma_fundamental_div_mod_converse(s + 1, m, q, r + 1);
        }
    }
    *selected = if up {
        if at == 0 {
            n - 1
        } else {
            at - 1
        }
    } else if at == n - 1 {
        0
    } else {
        at + 1
    };
}

/// Moving up undoes moving down, and the other way round.
pub proof fn cycling_back_returns(selected: nat, n: nat)
    requires
        selected < n,
    ensures
        cycled(cycled(selected, n, true), n, false) == selected,
        cycled(cycled(selected, n, false), n, true) == selected,
{
    if selected == 0 {
        lemma_small_mod((n - 1) as nat, n);
        lemma_mod_self_0(n as int);
    } else {
        lemma_fundamental_div_mod_converse(selected + n - 1, n as int, 1, selected - 1);
        lemma_small_mod(selected, n);
    }
    if selected == n - 1 {
        lemma_mod_self_0(n as int);
        lemma_small_mod((n - 1) as nat, n);
    } else {
        lemma_small_mod(selected + 1, n);
        lemma_fundamental_div_mod_converse((selected + n) as int, n as int, 1, selected as int);
    }
}

/// Rows of a list with a heading.
pub fn titled_list_height(item_count: usize) -> (rows: u16)
    ensures
        rows == (if item_count + TITLE_ROWS <= u16::MAX {
            item_count + TITLE_ROWS
        } else {
            u16::MAX as int
        }),
{
    if item_count >= (u16::MAX - TITLE_ROWS) as usize {
        u16::MAX
    } else {
        TITLE_ROWS + item_count as u16
    }
}

/// Rows a bounded list needs: at least one, at most `MAX_LIST_ROWS`.
pub open spec fn bounded(count: nat) -> nat {
    if count == 0 {
        1
    } else if count > MAX_LIST_ROWS {
        MAX_LIST_ROWS as nat
    } else {
        count
    }
}

/// Rows a bounded list needs for `count` entries: at least one, at most
/// `MAX_LIST_ROWS`.
pub fn bounded_rows(count: usize) -> (rows: u16)
    ensures
        rows == bounded(count as nat),
{
    if count == 0 {
        1
    } else if count > MAX_LIST_ROWS {
        MAX_LIST_ROWS as u16
    } else {
        count as u16
    }
}

/// The characters of pairs of texts.
pub open spec fn pair_views(items: Seq<(String, String)>) -> Seq<(Seq<char>, Seq<char>)> {
    Seq::new(items.len(), |i: int| (items[i].0@, items[i].1@))
}

/// A copy of pairs of texts.
pub fn copy_pairs(items: &Vec<(String, String)>) -> (out: Vec<(String, String)>)
    ensures
        pair_views(out@) == pair_views(items@),
{
    let mut out: Vec<(String, String)> = Vec::new();
    let mut i: usize = 0;
    while i < items.len()
        invariant
            i <= items@.len(),
            out@.len() == i,
            forall|j: int| 0 <= j < i ==> pair_views(out@)[j] == pair_views(items@)[j],
        decreases items.len() - i,
    {
        out.push((items[i].0.clone(), items[i].1.clone()));
        i += 1;
    }
    assert(pair_views(out@) =~= pair_views(items@));
    out
}

/// One entry of a list: a mark, its name and its description.
pub open spec fn choice_line(name: Seq<char>, desc: Seq<char>, selected: bool) -> Seq<
    style::SpanView,
> {
    let name_style = if selected {
        theme::accent()
    } else {
        Style::plain()
    };
    seq![
        style::SpanView {
            text: if selected {
                "▸ "@
            } else {
                "  "@
            },
            style: name_style,
        },
        style::SpanView { text: name, style: name_style },
        style::SpanView { text: "  "@ + desc, style: theme::dim() },
    ]
}

/// The lines of a list, with one entry marked.
pub open spec fn choices(items: Seq<(Seq<char>, Seq<char>)>, selected: nat) -> Seq<
    Seq<style::SpanView>,
> {
    Seq::new(items.len(), |i: int| choice_line(items[i].0, items[i].1, i == selected))
}

/// The lines of a list, with one entry marked.
pub fn choice_lines(items: &Vec<(String, String)>, selected: usize) -> (out: Vec<Line>)
    ensures
        seqs::views(out@) == choices(pair_views(items@), selected as nat),
{
    let ghost made = choices(pair_views(items@), selected as nat);
    let mut out: Vec<Line> = Vec::new();
    let mut i: usize = 0;
    assert(seqs::views(out@) =~= made.take(0));
    while i < items.len()
        invariant
            i <= items@.len(),
            made == choices(pair_views(items@), selected as nat),
            seqs::views(out@) == made.take(i as int),
        decreases items.len() - i,
    {
        let name_style = if i == selected {
            theme::accent()
        } else {
            Style::plain()
        };
        let mark = if i == selected {
            "▸ "
        } else {
            "  "
        };
        let line = Line {
            spans: vec![
                Span::styled(mark.to_owned(), name_style),
                Span::styled(items[i].0.clone(), name_style),
                Span::styled(text::concat("  ", items[i].1.as_str()), theme::dim()),
            ],
        };
        proof {
            assert(line@ =~= made[i as int]);
            assert(made.take(i + 1) =~= made.take(i as int).push(made[i as int]));
        }
        out.push(line);
        i += 1;
    }
    assert(made.take(made.len() as int) =~= made);
    out
}

/// One entry of a list without marks: its name and its description.
pub open spec fn plain_choice_line(name: Seq<char>, desc: Seq<char>, selected: bool) -> Seq<
    style::SpanView,
> {
    seq![
        style::SpanView {
            text: name,
            style: if selected {
                theme::accent()
            } else {
                Style::plain()
            },
        },
        style::SpanView { text: "  "@ + desc, style: theme::dim() },
    ]
}

/// The lines of a list without marks, with one entry in another style.
pub open spec fn plain_choices(items: Seq<(Seq<char>, Seq<char>)>, selected: nat) -> Seq<
    Seq<style::SpanView>,
> {
    Seq::new(items.len(), |i: int| plain_choice_line(items[i].0, items[i].1, i == selected))
}

/// The lines of a list without marks, with one entry in another style.
pub fn plain_choice_lines(items: &Vec<(String, String)>, selected: usize) -> (out: Vec<Line>)
    ensures
        seqs::views(out@) == plain_choices(pair_views(items@), selected as nat),
{
    let ghost made = plain_choices(pair_views(items@), selected as nat);
    let mut out: Vec<Line> = Vec::new();
    let mut i: usize = 0;
    assert(seqs::views(out@) =~= made.take(0));
    while i < items.len()
        invariant
            i <= items@.len(),
            made == plain_choices(pair_views(items@), selected as nat),
            seqs::views(out@) == made.take(i as int),
        decreases items.len() - i,
    {
        let name_style = if i == selected {
            theme::accent()
        } else {
            Style::plain()
        };
        let line = Line::pair(
            items[i].0.clone(),
            name_style,
            text::concat("  ", items[i].1.as_str()),
            theme::dim(),
        );
        proof {
            assert(line@ =~= made[i as int]);
            assert(made.take(i + 1) =~= made.take(i as int).push(made[i as int]));
        }
        out.push(line);
        i += 1;
    }
    assert(made.take(made.len() as int) =~= made);
    out
}

/// The lines of a list in which one entry is reversed.
pub open spec fn reversed_choices(items: Seq<(Seq<char>, Seq<char>)>, selected: nat) -> Seq<
    Seq<style::SpanView>,
> {
    Seq::new(
        items.len(),
        |i: int|
            {
                let s = if i == selected {
                    theme::selection()
                } else {
                    Style::plain()
                };
                style::pair_line(items[i].0, s, "  "@ + items[i].1, s)
            },
    )
}

/// The lines of a list in which one entry is reversed.
pub fn reversed_choice_lines(items: &Vec<(String, String)>, selected: usize) -> (out: Vec<Line>)
    ensures
        seqs::views(out@) == reversed_choices(pair_views(items@), selected as nat),
{
    let ghost made = reversed_choices(pair_views(items@), selected as nat);
    let mut out: Vec<Line> = Vec::new();
    let mut i: usize = 0;
    assert(seqs::views(out@) =~= made.take(0));
    while i < items.len()
        invariant
            i <= items@.len(),
            made == reversed_choices(pair_views(items@), selected as nat),
            seqs::views(out@) == made.take(i as int),
        decreases items.len() - i,
    {
        let s = if i == selected {
            theme::selection()
        } else {
            Style::plain()
        };
        let line = Line::pair(
            items[i].0.clone(),
            s,
            text::concat("  ", items[i].1.as_str()),
            s,
        );
        proof {
            assert(line@ =~= made[i as int]);
            assert(made.take(i + 1) =~= made.take(i as int).push(made[i as int]));
        }
        out.push(line);
        i += 1;
    }
    assert(made.take(made.len() as int) =~= made);
    out
}

/// The lines of a list under a heading of two lines.
pub open spec fn titled_choices(
    title: Seq<char>,
    detail: Seq<char>,
    items: Seq<(Seq<char>, Seq<char>)>,
    selected: nat,
) -> Seq<Seq<style::SpanView>> {
    seq![
        seq![style::SpanView { text: title, style: Style::plain() }],
        seq![style::SpanView { text: detail, style: Style::plain() }],
    ] + choices(items, selected)
}

/// The lines of a list under a heading of two lines.
pub fn titled_choice_lines(
    title: &str,
    detail: &str,
    items: &Vec<(String, String)>,
    selected: usize,
) -> (out: Vec<Line>)
    ensures
        seqs::views(out@) == titled_choices(title@, detail@, pair_views(items@), selected as nat),
{
    let mut out = vec![
        Line::of(title.to_owned(), Style::plain()),
        Line::of(detail.to_owned(), Style::plain()),
    ];
    let mut rest = choice_lines(items, selected);
    let ghost a = out@;
    let ghost b = rest@;
    out.append(&mut rest);
    assert(seqs::views(a + b) =~= titled_choices(
        title@,
        detail@,
        pair_views(items@),
        selected as nat,
    ));
    out
}

/// Which of `names` start with `prefix` in lower case, in order.
pub open spec fn prefix_matches(names: Seq<Seq<char>>, prefix: Seq<char>) -> Seq<usize>
    decreases names.len(),
{
    if names.len() == 0 {
        Seq::empty()
    } else {
        let before = prefix_matches(names.drop_last(), prefix);
        if prefix.is_prefix_of(text::lowered(names.last())) {
            before.push((names.len() - 1) as usize)
        } else {
            before
        }
    }
}

/// The names of a run of named things.
pub open spec fn names_of(items: Seq<(Seq<char>, Seq<char>)>) -> Seq<Seq<char>> {
    Seq::new(items.len(), |i: int| items[i].0)
}

/// Finds the named things whose name starts with `prefix` in lower case.
pub fn find_prefix_matches(items: &Vec<(String, String)>, prefix: &str) -> (out: Vec<usize>)
    ensures
        out@ == prefix_matches(names_of(pair_views(items@)), prefix@),
        forall|i: int| 0 <= i < items@.len() ==> text::lowers_by_letter((#[trigger] items@[i]).0@),
        forall|i: int| 0 <= i < out@.len() ==> #[trigger] out@[i] < items@.len(),
        out@.len() <= items@.len(),
{
    let ghost names = names_of(pair_views(items@));
    let mut out: Vec<usize> = Vec::new();
    let mut i: usize = 0;
    assert(names.take(0) =~= Seq::<Seq<char>>::empty());
    while i < items.len()
        invariant
            i <= items@.len(),
            names == names_of(pair_views(items@)),
            out@ == prefix_matches(names.take(i as int), prefix@),
            forall|j: int| 0 <= j < i ==> text::lowers_by_letter((#[trigger] items@[j]).0@),
            forall|j: int| 0 <= j < out@.len() ==> #[trigger] out@[j] < i,
            out@.len() <= i,
        decreases items.len() - i,
    {
        proof {
            let now = names.take(i + 1);
            assert(now.drop_last() =~= names.take(i as int));
            assert(now.last() == items@[i as int].0@);
        }
        let low = text::to_lower(items[i].0.as_str());
        if text::starts_with(low.as_str(), prefix) {
            out.push(i);
        }
        i += 1;
    }
    assert(names.take(names.len() as int) =~= names);
    out
}

/// Moving down goes to the next entry and from the last to the first; moving up
/// goes to the one before and from the first to the last.
pub proof fn cycling_moves_by_one(selected: nat, n: nat)
    requires
        selected < n,
    ensures
        cycled(selected, n, false) == if selected + 1 < n {
            selected + 1
        } else {
            0
        },
        cycled(selected, n, true) == if selected > 0 {
            selected - 1
        } else {
            n - 1
        },
{
    if selected == 0 {
        lemma_small_mod((n - 1) as nat, n);
    } else {
        lemma_fundamental_div_mod_converse(selected + n - 1, n as int, 1, selected - 1);
    }
    if selected == n - 1 {
        lemma_mod_self_0(n as int);
    } else {
        lemma_small_mod(selected + 1, n);
    }
}

/// A list shows each of its entries on a line of its own, in order, by name and
/// description, and marks exactly the selected one.
pub proof fn lists_show_their_entries(
    items: Seq<(Seq<char>, Seq<char>)>,
    selected: nat,
    i: int,
)
    requires
        0 <= i < items.len(),
    ensures
        choices(items, selected).len() == items.len(),
        choices(items, selected)[i].len() == 3,
        choices(items, selected)[i][0].text == "▸ "@ <==> i == selected,
        choices(items, selected)[i][1].text == items[i].0,
        choices(items, selected)[i][2].text == "  "@ + items[i].1,
        plain_choices(items, selected).len() == items.len(),
        plain_choices(items, selected)[i].len() == 2,
        plain_choices(items, selected)[i][0].style == theme::accent() <==> i == selected,
        plain_choices(items, selected)[i][0].text == items[i].0,
        plain_choices(items, selected)[i][1].text == "  "@ + items[i].1,
        reversed_choices(items, selected).len() == items.len(),
        reversed_choices(items, selected)[i].len() == 2,
        reversed_choices(items, selected)[i][0].style.reversed <==> i == selected,
        reversed_choices(items, selected)[i][1].style == reversed_choices(
            items,
            selected,
        )[i][0].style,
        reversed_choices(items, selected)[i][0].text == items[i].0,
        reversed_choices(items, selected)[i][1].text == "  "@ + items[i].1,
{
    reveal_strlit("▸ ");
    reveal_strlit("  ");
    assert(("▸ "@)[0] != ("  "@)[0]);
}

/// The entries found by a prefix are exactly those whose name, in lower case,
/// starts with it, each once and in their order.
pub proof fn prefixes_find_their_entries(names: Seq<Seq<char>>, prefix: Seq<char>)
    requires
        names.len() <= usize::MAX,
    ensures
        forall|i: int|
            0 <= i < names.len() ==> (prefix_matches(names, prefix).contains(i as usize) <==> prefix
                == #[trigger] text::lowered(names[i]).take(prefix.len() as int) && prefix.len()
                <= text::lowered(names[i]).len()),
        forall|j: int|
            0 <= j < prefix_matches(names, prefix).len() ==> #[trigger] prefix_matches(
                names,
                prefix,
            )[j] < names.len(),
        forall|j: int, k: int|
            0 <= j < k < prefix_matches(names, prefix).len() ==> #[trigger] prefix_matches(
                names,
                prefix,
            )[j] < #[trigger] prefix_matches(names, prefix)[k],
    decreases names.len(),
{
    if names.len() > 0 {
        let rest = names.drop_last();
        let before = prefix_matches(rest, prefix);
        let now = prefix_matches(names, prefix);
        prefixes_find_their_entries(rest, prefix);
        let fits = prefix.is_prefix_of(text::lowered(names.last()));
        assert forall|i: int| 0 <= i < names.len() implies (now.contains(i as usize) <==> prefix
            == #[trigger] text::lowered(names[i]).take(prefix.len() as int) && prefix.len()
            <= text::lowered(names[i]).len()) by {
            if i < rest.len() {
                assert(rest[i] == names[i]);
                assert(text::lowered(rest[i]).take(prefix.len() as int) == text::lowered(
                    names[i],
                ).take(prefix.len() as int));
                if before.contains(i as usize) {
                    let j = choose|j: int| 0 <= j < before.len() && before[j] == i as usize;
                    assert(now[j] == i as usize);
                }
                if now.contains(i as usize) {
                    let j = choose|j: int| 0 <= j < now.len() && now[j] == i as usize;
                    if j < before.len() {
                        assert(before[j] == i as usize);
                    }
                }
            } else {
                if fits {
                    assert(now[now.len() - 1] == i as usize);
                    assert(text::lowered(names[i]).subrange(0, prefix.len() as int)
                        =~= text::lowered(names[i]).take(prefix.len() as int));
                } else if now.contains(i as usize) {
                    let j = choose|j: int| 0 <= j < now.len() && now[j] == i as usize;
                    assert(before[j] < rest.len());
                }
                if prefix.len() <= text::lowered(names[i]).len() {
                    assert(text::lowered(names[i]).subrange(0, prefix.len() as int)
                        =~= text::lowered(names[i]).take(prefix.len() as int));
                }
            }
        }
    }
}

} // verus!
