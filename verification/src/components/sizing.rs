//! Texts cut to size: numbers, paths, lines.
use vstd::arithmetic::power2::*;
use vstd::prelude::*;
use vstd::string::*;

use super::event::Usage;
use super::transcript::wrap;
use crate::seqs;
use crate::style::{Line, Span};
use crate::style;
use crate::text;
use crate::width;

verus! {

broadcast use crate::seqs::views_push;

/// The binary exponent of a quotient: the largest `e` with `unit * 2^e <= n`.
pub open spec fn exponent(n: nat, unit: nat) -> nat
    decreases n,
{
    if unit == 0 || n / 2 < unit {
        0
    } else {
        exponent(n / 2, unit) + 1
    }
}

/// The mantissa of the double next below `n / unit`, or of that very quotient.
pub open spec fn mantissa(n: nat, unit: nat) -> nat {
    n * pow2((52 - exponent(n, unit)) as nat) / unit
}

/// What the mantissa leaves of `n / unit`.
pub open spec fn mantissa_rest(n: nat, unit: nat) -> nat {
    n * pow2((52 - exponent(n, unit)) as nat) % unit
}

/// Whether a quotient that lies in the middle of two tenths is written as the
/// upper one. Its nearest double decides: above the middle, up; below, down; on
/// it, to the even tenth.
pub open spec fn half_goes_up(n: nat, unit: nat) -> bool {
    let rest = mantissa_rest(n, unit);
    if rest == 0 {
        (n * 10 / unit) % 2 == 1
    } else if 2 * rest == unit {
        mantissa(n, unit) % 2 == 1
    } else {
        2 * rest > unit
    }
}

/// The tenths that `n / unit` is written with.
pub open spec fn tenths(n: nat, unit: nat) -> nat {
    let below = n * 10 / unit;
    let rest = n * 10 % unit;
    if 2 * rest > unit || (2 * rest == unit && half_goes_up(n, unit)) {
        below + 1
    } else {
        below
    }
}

/// `n / unit` with one digit behind the point.
pub open spec fn in_tenths(n: nat, unit: nat) -> Seq<char> {
    text::decimal(tenths(n, unit) / 10) + "."@ + text::decimal(tenths(n, unit) % 10)
}

/// A count in a short form.
pub open spec fn human_text(n: nat) -> Seq<char> {
    if n >= 1_000_000 {
        in_tenths(n, 1_000_000) + "M"@
    } else if n >= 1_000 {
        in_tenths(n, 1_000) + "k"@
    } else {
        text::decimal(n)
    }
}

fn find_exponent(n: u32, unit: u32) -> (e: u32)
    requires
        unit >= 1000,
    ensures
        e == exponent(n as nat, unit as nat),
        e <= 32,
    decreases n,
{
    if n / 2 < unit {
        0
    } else {
        let below: u32 = find_exponent(n / 2, unit);
        proof {
            lemma_exponent(n as nat, unit as nat);
        }
        below + 1
    }
}

proof fn lemma_exponent(n: nat, unit: nat)
    requires
        unit >= 1,
    ensures
        exponent(n, unit) == 0 || unit * pow2(exponent(n, unit)) <= n,
        n < 0x1_0000_0000 ==> exponent(n, unit) < 32,
    decreases n,
{
    if n / 2 >= unit {
        lemma_exponent(n / 2, unit);
        let e = exponent(n / 2, unit);
        lemma_pow2_unfold(e + 1);
        if e == 0 {
            lemma2_to64();
        }
        assert(unit * pow2(e + 1) == 2 * (unit * pow2(e))) by (nonlinear_arith)
            requires
                pow2(e + 1) == 2 * pow2(e),
        ;
        if n < 0x1_0000_0000 && e + 1 >= 32 {
            lemma2_to64();
            if e + 1 > 32 {
                lemma_pow2_strictly_increases(32, e + 1);
            }
            assert(unit * pow2(e + 1) >= pow2(e + 1)) by (nonlinear_arith)
                requires
                    unit >= 1,
            ;
            assert(false);
        }
    }
}

fn power(e: u32) -> (p: u128)
    requires
        e <= 52,
    ensures
        p == pow2(e as nat),
        p <= 0x10_0000_0000_0000,
{
    let mut p: u128 = 1;
    let mut i: u32 = 0;
    proof {
        lemma2_to64();
        lemma2_to64_rest();
    }
    while i < e
        invariant
            i <= e <= 52,
            p == pow2(i as nat),
            pow2(52) == 0x10_0000_0000_0000,
            p <= 0x10_0000_0000_0000,
        decreases e - i,
    {
        proof {
            lemma_pow2_unfold((i + 1) as nat);
            if i + 1 < 52 {
                lemma_pow2_strictly_increases((i + 1) as nat, 52);
            }
        }
        p = p * 2;
        i += 1;
    }
    p
}

fn tenths_of(n: u32, unit: u32) -> (t: u64)
    requires
        1000 <= unit <= 1_000_000,
    ensures
        t == tenths(n as nat, unit as nat),
{
    let ten: u64 = n as u64 * 10;
    let below: u64 = ten / unit as u64;
    let rest: u64 = ten % unit as u64;
    if 2 * rest > unit as u64 {
        return below + 1;
    }
    if 2 * rest < unit as u64 {
        return below;
    }
    let e: u32 = find_exponent(n, unit);
    let scale: u128 = power(52 - e);
    assert(n * scale <= 0xffff_ffff * 0x10_0000_0000_0000) by (nonlinear_arith)
        requires
            n <= 0xffff_ffff,
            scale <= 0x10_0000_0000_0000,
    ;
    let scaled: u128 = n as u128 * scale;
    let left: u128 = scaled % unit as u128;
    let up = if left == 0 {
        below % 2 == 1
    } else if 2 * left == unit as u128 {
        (scaled / unit as u128) % 2 == 1
    } else {
        2 * left > unit as u128
    };
    if up {
        below + 1
    } else {
        below
    }
}

fn write_tenths(n: u32, unit: u32) -> (out: String)
    requires
        1000 <= unit <= 1_000_000,
    ensures
        out@ == in_tenths(n as nat, unit as nat),
{
    let t: u64 = tenths_of(n, unit);
    let mut out = text::decimal_of(t / 10);
    out.append(".");
    out.append(text::decimal_of(t % 10).as_str());
    out
}

/// Writes a count in a short form: thousands and millions with one digit behind
/// the point.
pub fn human(n: u32) -> (out: String)
    ensures
        out@ == human_text(n as nat),
{
    if n >= 1_000_000 {
        let mut out = write_tenths(n, 1_000_000);
        out.append("M");
        out
    } else if n >= 1_000 {
        let mut out = write_tenths(n, 1_000);
        out.append("k");
        out
    } else {
        text::decimal_of(n as u64)
    }
}

/// The tokens of a turn.
pub open spec fn usage_text(u: Usage) -> Seq<char> {
    let s = human_text(u.input_tokens as nat) + " in · "@ + human_text(u.output_tokens as nat)
        + " out"@ + " · "@ + human_text(u.cache_read_tokens as nat) + " cache"@;
    if u.reasoning_tokens > 0 {
        s + " · "@ + human_text(u.reasoning_tokens as nat) + " reasoning"@
    } else {
        s
    }
}

/// Writes the tokens of a turn.
pub fn format_usage(u: &Usage) -> (out: String)
    ensures
        out@ == usage_text(*u),
{
    let mut s = human(u.input_tokens);
    s.append(" in · ");
    s.append(human(u.output_tokens).as_str());
    s.append(" out");
    s.append(" · ");
    s.append(human(u.cache_read_tokens).as_str());
    s.append(" cache");
    if u.reasoning_tokens > 0 {
        s.append(" · ");
        s.append(human(u.reasoning_tokens).as_str());
        s.append(" reasoning");
    }
    s
}

/// A text in at most `max` columns: whole where it fits, else what fits before
/// an ellipsis.
pub open spec fn truncated(s: Seq<char>, max: nat) -> Seq<char> {
    if width::cols(s) <= max {
        s
    } else if max == 0 {
        Seq::empty()
    } else {
        s.take(wrap::fitting(s, (max - 1) as nat) as int).push('…')
    }
}

/// Cuts a text to at most `max_width` columns.
pub fn truncate_str(s: &str, max_width: usize) -> (out: String)
    ensures
        out@ == truncated(s@, max_width as nat),
{
    if width::str_width(s) <= max_width {
        return s.to_owned();
    }
    if max_width == 0 {
        return String::new();
    }
    let cs = text::chars_of(s);
    let k: usize = wrap::count_fitting(&cs, max_width - 1);
    let mut out = text::text_of(&cs, 0, k);
    assert(out@ =~= s@.take(k as int));
    out.push('…');
    out
}

/// A cut text is shorter than the text, but for the ellipsis, and starts as the
/// text does.
pub proof fn truncation_keeps_the_start(s: Seq<char>, max: nat)
    ensures
        truncated(s, max) == s || truncated(s, max).len() == 0 || (truncated(s, max).last() == '…'
            && truncated(s, max).drop_last().is_prefix_of(s)),
        width::cols(s) <= max ==> truncated(s, max) == s,
{
    if width::cols(s) > max && max > 0 {
        let k = wrap::fitting(s, (max - 1) as nat);
        lemma_fitting_bound(s, (max - 1) as nat);
        assert(truncated(s, max).drop_last() =~= s.take(k as int));
    }
}

proof fn lemma_fitting_bound(s: Seq<char>, max: nat)
    ensures
        wrap::fitting(s, max) <= s.len(),
    decreases s.len(),
{
    if s.len() > 0 {
        lemma_fitting_bound(s.drop_last(), max);
    }
}

/// A line that is being cut: its spans so far, their columns, and whether it
/// is full.
#[verifier::ext_equal]
pub struct CutLine {
    pub spans: Seq<style::SpanView>,
    pub used: nat,
    pub full: bool,
}

/// The line with one more span, cut to what is left of `max` columns.
pub open spec fn cut_span(acc: CutLine, span: style::SpanView, max: nat) -> CutLine {
    if acc.full {
        acc
    } else {
        let t = truncated(span.text, wrap::less(max, acc.used));
        let used = wrap::capped_sum(acc.used, width::cols(t) as nat);
        CutLine {
            spans: if width::cols(t) > 0 {
                acc.spans.push(style::SpanView { text: t, style: span.style })
            } else {
                acc.spans
            },
            used,
            full: used >= max,
        }
    }
}

/// The line after each of its spans was cut to what is left.
pub open spec fn cut_line(spans: Seq<style::SpanView>, max: nat) -> CutLine
    decreases spans.len(),
{
    if spans.len() == 0 {
        CutLine { spans: Seq::empty(), used: 0, full: false }
    } else {
        cut_span(cut_line(spans.drop_last(), max), spans.last(), max)
    }
}

/// Cuts a line to at most `max_width` columns.
pub fn truncate_line(line: &Line, max_width: usize) -> (out: Line)
    ensures
        out@ == cut_line(line@, max_width as nat).spans,
{
    let ghost all = line@;
    let mut spans: Vec<Span> = Vec::new();
    let mut used: usize = 0;
    let mut full = false;
    let mut i: usize = 0;
    proof {
        assert(all.take(0) =~= Seq::<style::SpanView>::empty());
        assert(seqs::views(spans@) =~= Seq::<style::SpanView>::empty());
    }
    while i < line.spans.len()
        invariant
            i <= line.spans@.len(),
            all == line@,
            (CutLine { spans: seqs::views(spans@), used: used as nat, full }) == cut_line(
                all.take(i as int),
                max_width as nat,
            ),
        decreases line.spans.len() - i,
    {
        proof {
            let now = all.take(i + 1);
            assert(now.drop_last() =~= all.take(i as int));
            assert(now.last() == line.spans@[i as int]@);
        }
        if !full {
            let left: usize = max_width.saturating_sub(used);
            let t = truncate_str(line.spans[i].content.as_str(), left);
            let w: usize = width::str_width(t.as_str());
            if w > 0 {
                spans.push(Span::styled(t, line.spans[i].style));
            }
            used = used.saturating_add(w);
            full = used >= max_width;
        }
        i += 1;
    }
    assert(all.take(all.len() as int) =~= all);
    Line { spans }
}

/// A text that is being broken into lines: the finished lines, the current one
/// and its columns.
#[verifier::ext_equal]
pub struct BrokenText {
    pub done: Seq<Seq<char>>,
    pub current: Seq<char>,
    pub used: nat,
}

/// The characters of `s` broken into lines of `max` columns, each of one
/// character at least.
pub open spec fn broken(s: Seq<char>, max: nat) -> BrokenText
    decreases s.len(),
{
    if s.len() == 0 {
        BrokenText { done: Seq::empty(), current: Seq::empty(), used: 0 }
    } else {
        let before = broken(s.drop_last(), max);
        let c = s.last();
        if before.used + width::glyph(c) > max && before.current.len() > 0 {
            BrokenText {
                done: before.done.push(before.current),
                current: seq![c],
                used: width::glyph(c),
            }
        } else {
            BrokenText {
                done: before.done,
                current: before.current.push(c),
                used: before.used + width::glyph(c),
            }
        }
    }
}

/// The lines that lines are broken into, one after the other.
pub open spec fn broken_lines(lines: Seq<Seq<char>>, max: nat) -> Seq<Seq<char>>
    decreases lines.len(),
{
    if lines.len() == 0 {
        Seq::empty()
    } else {
        let b = broken(lines.last(), max);
        broken_lines(lines.drop_last(), max) + b.done.push(b.current)
    }
}

/// A text broken into lines of `max` columns.
pub open spec fn text_lines(t: Seq<char>, max: nat) -> Seq<Seq<char>> {
    if max == 0 || t.len() == 0 {
        Seq::empty()
    } else {
        broken_lines(text::lines_of(t), max)
    }
}

/// Breaking a line into shorter ones loses no character.
pub proof fn breaking_loses_nothing(s: Seq<char>, max: nat)
    ensures
        wrap::concatenated(broken(s, max).done.push(broken(s, max).current)) == s,
    decreases s.len(),
{
    let b = broken(s, max);
    wrap::lemma_concatenated_push(b.done, b.current);
    if s.len() == 0 {
        assert(wrap::concatenated(b.done) + b.current =~= s);
    } else {
        let before = broken(s.drop_last(), max);
        breaking_loses_nothing(s.drop_last(), max);
        wrap::lemma_concatenated_push(before.done, before.current);
        assert(s =~= s.drop_last().push(s.last()));
        assert(wrap::concatenated(b.done) + b.current =~= s);
    }
}

fn wrap_line(out: &mut Vec<String>, raw: &str, max: usize)
    ensures
        seqs::views(final(out)@) == seqs::views(old(out)@) + broken(raw@, max as nat).done.push(
            broken(raw@, max as nat).current,
        ),
{
    let cs = text::chars_of(raw);
    let mut current = String::new();
    let mut count: usize = 0;
    let mut used: usize = 0;
    let mut i: usize = 0;
    let ghost start = seqs::views(out@);
    proof {
        assert(raw@.take(0) =~= Seq::<char>::empty());
        assert(start + Seq::<Seq<char>>::empty() =~= start);
    }
    while i < cs.len()
        invariant
            i <= cs@.len(),
            cs@ == raw@,
            count == current@.len(),
            count <= i,
            ({
                let b = broken(raw@.take(i as int), max as nat);
                seqs::views(out@) == start + b.done && current@ == b.current && used == b.used
            }),
        decreases cs.len() - i,
    {
        let c = cs[i];
        let w: usize = width::glyph_width(c);
        proof {
            let now = raw@.take(i + 1);
            assert(now.drop_last() =~= raw@.take(i as int));
            assert(now.last() == c);
        }
        if count > 0 && (used > max || w > max - used) {
            let ghost so_far = seqs::views(out@);
            out.push(current);
            proof {
                let b = broken(raw@.take(i as int), max as nat);
                assert(so_far.push(b.current) =~= start + b.done.push(b.current));
            }
            current = String::new();
            count = 0;
            used = 0;
            current.push(c);
            assert(current@ =~= seq![c]);
        } else {
            proof {
                if count == 0 {
                    assert(raw@.take(i as int).len() == 0 || count > 0) by {
                        lemma_current_not_empty(raw@.take(i as int), max as nat);
                    }
                }
            }
            current.push(c);
        }
        count += 1;
        used = used + w;
        i += 1;
    }
    proof {
        assert(raw@.take(raw@.len() as int) =~= raw@);
        let b = broken(raw@, max as nat);
        assert(seqs::views(out@).push(b.current) =~= start + b.done.push(b.current));
    }
    out.push(current);
}

proof fn lemma_current_not_empty(s: Seq<char>, max: nat)
    ensures
        s.len() > 0 ==> broken(s, max).current.len() > 0,
{
}

/// Breaks a text into lines of at most `max` columns, each of one character at
/// least.
pub fn wrap_text(t: &str, max: usize) -> (out: Vec<String>)
    ensures
        seqs::views(out@) == text_lines(t@, max as nat),
{
    let mut out: Vec<String> = Vec::new();
    if max == 0 || t.is_empty() {
        assert(seqs::views(out@) =~= Seq::<Seq<char>>::empty());
        return out;
    }
    let lines = text::lines(t);
    let ghost all = seqs::views(lines@);
    let mut i: usize = 0;
    proof {
        assert(all.take(0) =~= Seq::<Seq<char>>::empty());
        assert(seqs::views(out@) =~= Seq::<Seq<char>>::empty());
    }
    while i < lines.len()
        invariant
            i <= lines@.len(),
            all == seqs::views(lines@),
            seqs::views(out@) == broken_lines(all.take(i as int), max as nat),
        decreases lines.len() - i,
    {
        proof {
            let now = all.take(i + 1);
            assert(now.drop_last() =~= all.take(i as int));
            assert(now.last() == lines@[i as int]@);
        }
        wrap_line(&mut out, lines[i].as_str(), max);
        i += 1;
    }
    assert(all.take(all.len() as int) =~= all);
    out
}

/// Whether a piece of a path stands for a step of it: empty pieces and single
/// dots stand for nothing, but for a dot at the start of a relative path.
pub open spec fn is_step(pieces: Seq<Seq<char>>, i: int) -> bool {
    pieces[i].len() > 0 && (i == 0 || pieces[i] != "."@)
}

/// Where the steps of a path stand among its pieces.
pub open spec fn steps(pieces: Seq<Seq<char>>) -> Seq<usize>
    decreases pieces.len(),
{
    if pieces.len() == 0 {
        Seq::empty()
    } else {
        let before = steps(pieces.drop_last());
        if is_step(pieces, pieces.len() - 1) {
            before.push((pieces.len() - 1) as usize)
        } else {
            before
        }
    }
}

/// Whether a path starts at the root.
pub open spec fn is_rooted(p: Seq<char>) -> bool {
    p.len() > 0 && p[0] == '/'
}

/// The steps of a path, the root being the first of a rooted one.
pub open spec fn path_steps(p: Seq<char>) -> Seq<Seq<char>> {
    let pieces = text::split_on(p, '/');
    let at = steps(pieces);
    let body = Seq::new(at.len(), |i: int| pieces[at[i] as int]);
    if is_rooted(p) {
        seq!["/"@] + body
    } else {
        body
    }
}

/// What is left of a path behind its first `k` steps, written as it stands in
/// the path.
pub open spec fn path_rest(p: Seq<char>, k: nat) -> Seq<char> {
    let pieces = text::split_on(p, '/');
    let at = steps(pieces);
    if at.len() == 0 {
        p.take(1)
    } else {
        let skipped = if is_rooted(p) {
            k - 1
        } else {
            k as int
        };
        let from = if k == 0 {
            0
        } else {
            at[skipped] as int
        };
        text::joined(pieces.subrange(from, at.last() + 1), "/"@)
    }
}

/// A path with `~` in place of the home directory, where it lies in it.
pub open spec fn home_path(p: Seq<char>, home: Seq<char>) -> Seq<char> {
    let steps = path_steps(p);
    let base = path_steps(home);
    if steps == base {
        "~"@
    } else if base.is_prefix_of(steps) {
        "~/"@ + path_rest(p, base.len())
    } else {
        p
    }
}

fn find_steps(pieces: &Vec<String>) -> (out: Vec<usize>)
    ensures
        out@ == steps(seqs::views(pieces@)),
        out@.len() <= pieces@.len(),
        forall|i: int| 0 <= i < out@.len() ==> #[trigger] out@[i] < pieces@.len(),
        forall|i: int, j: int| 0 <= i < j < out@.len() ==> out@[i] < out@[j],
{
    let ghost all = seqs::views(pieces@);
    let mut out: Vec<usize> = Vec::new();
    let mut i: usize = 0;
    assert(all.take(0) =~= Seq::<Seq<char>>::empty());
    while i < pieces.len()
        invariant
            i <= pieces@.len(),
            all == seqs::views(pieces@),
            out@ == steps(all.take(i as int)),
            out@.len() <= i,
            forall|j: int| 0 <= j < out@.len() ==> #[trigger] out@[j] < i,
            forall|j: int, k: int| 0 <= j < k < out@.len() ==> out@[j] < out@[k],
        decreases pieces.len() - i,
    {
        proof {
            let now = all.take(i + 1);
            assert(now.drop_last() =~= all.take(i as int));
            assert(now.last() == pieces@[i as int]@);
        }
        let piece = pieces[i].as_str();
        if !piece.is_empty() && (i == 0 || !text::same_text(piece, ".")) {
            out.push(i);
        }
        i += 1;
    }
    assert(all.take(all.len() as int) =~= all);
    out
}

fn find_path_steps(p: &str) -> (out: Vec<String>)
    ensures
        seqs::views(out@) == path_steps(p@),
{
    let pieces = text::split(p, '/');
    let at = find_steps(&pieces);
    let cs = text::chars_of(p);
    let rooted = cs.len() > 0 && cs[0] == '/';
    let ghost all = path_steps(p@);
    let ghost skip: int = if rooted {
        1
    } else {
        0
    };
    let mut out: Vec<String> = Vec::new();
    if rooted {
        out.push("/".to_owned());
    }
    let mut i: usize = 0;
    assert(seqs::views(out@) =~= all.take(skip));
    while i < at.len()
        invariant
            i <= at@.len(),
            at@ == steps(seqs::views(pieces@)),
            forall|j: int| 0 <= j < at@.len() ==> #[trigger] at@[j] < pieces@.len(),
            seqs::views(pieces@) == text::split_on(p@, '/'),
            all == path_steps(p@),
            rooted == is_rooted(p@),
            skip == (if rooted {
                1int
            } else {
                0
            }),
            seqs::views(out@) == all.take(skip + i),
        decreases at.len() - i,
    {
        let idx: usize = at[i];
        proof {
            assert(seqs::views(pieces@)[idx as int] == pieces@[idx as int]@);
            assert(all.take(skip + i + 1) =~= all.take(skip + i).push(all[skip + i]));
        }
        out.push(pieces[idx].clone());
        i += 1;
    }
    assert(all.take(all.len() as int) =~= all);
    out
}

fn same_start(a: &Vec<String>, b: &Vec<String>) -> (yes: bool)
    ensures
        yes == seqs::views(a@).is_prefix_of(seqs::views(b@)),
{
    if a.len() > b.len() {
        return false;
    }
    let ghost x = seqs::views(a@);
    let ghost y = seqs::views(b@);
    let mut i: usize = 0;
    while i < a.len()
        invariant
            i <= a@.len() <= b@.len(),
            x == seqs::views(a@),
            y == seqs::views(b@),
            forall|j: int| 0 <= j < i ==> x[j] == y[j],
        decreases a.len() - i,
    {
        if !text::same_text(a[i].as_str(), b[i].as_str()) {
            assert(x[i as int] != y[i as int]);
            assert(y.subrange(0, x.len() as int)[i as int] == y[i as int]);
            return false;
        }
        i += 1;
    }
    assert(x =~= y.subrange(0, x.len() as int));
    true
}

/// Writes a path, with steps parted by `/`, with `~` in place of the home
/// directory where it lies in it.
pub fn display_path_with_home(path: &str, home: &str) -> (out: String)
    ensures
        out@ == home_path(path@, home@),
{
    let own = find_path_steps(path);
    let base = find_path_steps(home);
    let ghost x = seqs::views(own@);
    let ghost y = seqs::views(base@);
    if !same_start(&base, &own) {
        assert(x != y) by {
            assert(x.subrange(0, x.len() as int) =~= x);
        }
        return path.to_owned();
    }
    if base.len() == own.len() {
        assert(x =~= y);
        return "~".to_owned();
    }
    let pieces = text::split(path, '/');
    let at = find_steps(&pieces);
    let cs = text::chars_of(path);
    let rooted = cs.len() > 0 && cs[0] == '/';
    if at.len() == 0 {
        assert(rooted);
        let root = text::text_of(&cs, 0, 1);
        assert(root@ =~= path@.take(1));
        return text::concat("~/", root.as_str());
    }
    let k: usize = base.len();
    let from: usize = if k == 0 {
        0
    } else if rooted {
        at[k - 1]
    } else {
        at[k]
    };
    let last: usize = at[at.len() - 1];
    let n: usize = pieces.len();
    assert(last < n);
    let to: usize = last + 1;
    let mut rest: Vec<String> = Vec::new();
    let ghost all = seqs::views(pieces@).subrange(from as int, to as int);
    let mut i: usize = from;
    assert(seqs::views(rest@) =~= all.take(0));
    while i < to
        invariant
            from <= i <= to <= pieces@.len(),
            all == seqs::views(pieces@).subrange(from as int, to as int),
            seqs::views(rest@) == all.take(i - from),
        decreases to - i,
    {
        assert(all.take(i - from + 1) =~= all.take(i - from).push(all[i - from]));
        rest.push(pieces[i].clone());
        i += 1;
    }
    assert(all.take(all.len() as int) =~= all);
    let tail = text::join(&rest, "/");
    text::concat("~/", tail.as_str())
}

/// A count below a thousand is written out. A larger one is written in thousands
/// or millions with one digit behind the point, `at.0` before and `at.1` behind it,
/// and off by no more than half of that digit.
pub proof fn counts_are_rounded(n: nat) -> (at: (nat, nat))
    ensures
        n < 1_000 ==> human_text(n) == text::decimal(n),
        1_000 <= n < 1_000_000 ==> {
            &&& human_text(n) == text::decimal(at.0) + "."@ + text::decimal(at.1) + "k"@
            &&& at.1 < 10
            &&& 2 * (10 * at.0 + at.1) * 1_000 <= 20 * n + 1_000
            &&& 2 * (10 * at.0 + at.1) * 1_000 + 1_000 >= 20 * n
        },
        1_000_000 <= n ==> {
            &&& human_text(n) == text::decimal(at.0) + "."@ + text::decimal(at.1) + "M"@
            &&& at.1 < 10
            &&& 2 * (10 * at.0 + at.1) * 1_000_000 <= 20 * n + 1_000_000
            &&& 2 * (10 * at.0 + at.1) * 1_000_000 + 1_000_000 >= 20 * n
        },
{
    let unit: nat = if n >= 1_000_000 {
        1_000_000
    } else {
        1_000
    };
    let t = tenths(n, unit);
    (t / 10, t % 10)
}

/// The counts of a turn are told in this order: what went in, what came out, what
/// was cached, and what was spent on reasoning where any was.
pub proof fn usage_tells_each_count(u: Usage)
    ensures
        ({
            let plain = human_text(u.input_tokens as nat) + " in · "@ + human_text(
                u.output_tokens as nat,
            ) + " out"@ + " · "@ + human_text(u.cache_read_tokens as nat) + " cache"@;
            &&& u.reasoning_tokens == 0 ==> usage_text(u) == plain
            &&& u.reasoning_tokens > 0 ==> usage_text(u) == plain + " · "@ + human_text(
                u.reasoning_tokens as nat,
            ) + " reasoning"@
        }),
{
}

proof fn lemma_fitting_most(s: Seq<char>, max: nat)
    ensures
        wrap::fitting(s, max) <= s.len(),
        wrap::fitting(s, max) > 0 ==> width::glyphs(s.take(wrap::fitting(s, max) as int)) <= max,
        wrap::fitting(s, max) < s.len() ==> width::glyphs(
            s.take(wrap::fitting(s, max) as int + 1),
        ) > max,
    decreases s.len(),
{
    if width::glyphs(s) <= max || s.len() == 0 {
        assert(s.take(s.len() as int) =~= s);
    } else {
        let rest = s.drop_last();
        lemma_fitting_most(rest, max);
        let k = wrap::fitting(rest, max);
        assert(rest.take(k as int) =~= s.take(k as int));
        if k < rest.len() {
            assert(rest.take(k as int + 1) =~= s.take(k as int + 1));
        } else {
            assert(s.take(k as int + 1) =~= s);
        }
    }
}

/// A text that does not fit is cut to what fits before an ellipsis, and to no
/// less: one character more would not have fitted.
pub proof fn truncation_keeps_what_fits(s: Seq<char>, max: nat)
    requires
        width::cols(s) > max,
        max > 0,
    ensures
        ({
            let cut = truncated(s, max);
            let k = cut.len() - 1;
            &&& 0 <= k <= s.len()
            &&& cut == s.take(k).push('…')
            &&& k > 0 ==> width::glyphs(s.take(k)) <= max - 1
            &&& k < s.len() ==> width::glyphs(s.take(k + 1)) > max - 1
        }),
{
    lemma_fitting_most(s, (max - 1) as nat);
}

proof fn lemma_whole_line(spans: Seq<style::SpanView>, max: nat)
    requires
        wrap::line_cols(spans) < max,
        wrap::line_cols(spans) < usize::MAX,
        forall|i: int| 0 <= i < spans.len() ==> width::cols((#[trigger] spans[i]).text) > 0,
    ensures
        cut_line(spans, max).spans == spans,
        cut_line(spans, max).used == wrap::line_cols(spans),
        !cut_line(spans, max).full,
    decreases spans.len(),
{
    if spans.len() > 0 {
        let rest = spans.drop_last();
        assert forall|i: int| 0 <= i < rest.len() implies width::cols((#[trigger] rest[i]).text)
            > 0 by {
            assert(rest[i] == spans[i]);
        }
        lemma_whole_line(rest, max);
        assert(width::cols(spans[spans.len() - 1].text) > 0);
        assert(rest.push(spans.last()) =~= spans);
    }
}

/// A line that fits is not cut.
pub proof fn lines_that_fit_are_not_cut(spans: Seq<style::SpanView>, max: nat)
    requires
        wrap::line_cols(spans) < max,
        wrap::line_cols(spans) < usize::MAX,
        forall|i: int| 0 <= i < spans.len() ==> width::cols((#[trigger] spans[i]).text) > 0,
    ensures
        cut_line(spans, max).spans == spans,
{
    lemma_whole_line(spans, max);
}

proof fn lemma_broken_fits(s: Seq<char>, max: nat)
    ensures
        ({
            let b = broken(s, max);
            &&& b.used == width::glyphs(b.current)
            &&& b.used <= max || b.current.len() == 1
            &&& forall|i: int|
                0 <= i < b.done.len() ==> width::glyphs(#[trigger] b.done[i]) <= max
                    || b.done[i].len() == 1
        }),
    decreases s.len(),
{
    if s.len() > 0 {
        lemma_broken_fits(s.drop_last(), max);
        let before = broken(s.drop_last(), max);
        let c = s.last();
        if before.used + width::glyph(c) > max && before.current.len() > 0 {
            assert(seq![c].drop_last() =~= Seq::<char>::empty());
            assert(width::glyphs(seq![c]) == width::glyph(c)) by {
                reveal_with_fuel(width::glyphs, 2);
            }
        } else {
            assert(before.current.push(c).drop_last() =~= before.current);
        }
    }
}

/// The lines that a text is broken into hold all of it but the line ends, in
/// order, and each takes no more columns than asked for or is a single character.
pub proof fn broken_texts_fit(t: Seq<char>, max: nat)
    requires
        max > 0,
        t.len() > 0,
    ensures
        wrap::concatenated(text_lines(t, max)) == wrap::concatenated(text::lines_of(t)),
        forall|i: int|
            0 <= i < text_lines(t, max).len() ==> width::glyphs(#[trigger] text_lines(t, max)[i])
                <= max || text_lines(t, max)[i].len() == 1,
{
    lemma_broken_lines(text::lines_of(t), max);
}

proof fn lemma_broken_lines(lines: Seq<Seq<char>>, max: nat)
    ensures
        wrap::concatenated(broken_lines(lines, max)) == wrap::concatenated(lines),
        forall|i: int|
            0 <= i < broken_lines(lines, max).len() ==> width::glyphs(
                #[trigger] broken_lines(lines, max)[i],
            ) <= max || broken_lines(lines, max)[i].len() == 1,
    decreases lines.len(),
{
    if lines.len() == 0 {
        assert(broken_lines(lines, max) =~= lines);
    } else {
        let rest = lines.drop_last();
        lemma_broken_lines(rest, max);
        let b = broken(lines.last(), max);
        breaking_loses_nothing(lines.last(), max);
        lemma_broken_fits(lines.last(), max);
        let all = b.done.push(b.current);
        wrap::lemma_concatenated_add(broken_lines(rest, max), all);
        wrap::lemma_concatenated_push(rest, lines.last());
        assert(rest.push(lines.last()) =~= lines);
        assert forall|i: int| 0 <= i < broken_lines(lines, max).len() implies width::glyphs(
            #[trigger] broken_lines(lines, max)[i],
        ) <= max || broken_lines(lines, max)[i].len() == 1 by {
            let n = broken_lines(rest, max).len();
            if i < n {
                assert(broken_lines(lines, max)[i] == broken_lines(rest, max)[i]);
            } else if i - n < b.done.len() {
                assert(broken_lines(lines, max)[i] == b.done[i - n]);
            } else {
                assert(broken_lines(lines, max)[i] == b.current);
            }
        }
    }
}

proof fn lemma_steps_bounds(pieces: Seq<Seq<char>>)
    requires
        pieces.len() <= usize::MAX,
    ensures
        forall|j: int| 0 <= j < steps(pieces).len() ==> #[trigger] steps(pieces)[j] < pieces.len(),
        forall|j: int| 0 <= j < steps(pieces).len() ==> is_step(pieces, #[trigger] steps(pieces)[j] as int),
        forall|j: int, k: int|
            0 <= j < k < steps(pieces).len() ==> #[trigger] steps(pieces)[j] < #[trigger] steps(
                pieces,
            )[k],
    decreases pieces.len(),
{
    if pieces.len() > 0 {
        let rest = pieces.drop_last();
        lemma_steps_bounds(rest);
        let before = steps(rest);
        let now = steps(pieces);
        assert forall|j: int| 0 <= j < now.len() implies is_step(pieces, #[trigger] now[j] as int)
            && now[j] < pieces.len() by {
            if j < before.len() {
                assert(now[j] == before[j]);
                assert(is_step(rest, before[j] as int));
            }
        }
    }
}

/// The steps of a run of pieces from one that is a step on.
proof fn lemma_steps_from(pieces: Seq<Seq<char>>, from: int, to: int)
    requires
        0 <= from < to <= pieces.len() <= usize::MAX,
        is_step(pieces, from),
    ensures
        ({
            let m = steps(pieces.take(from)).len() as int;
            let upto = steps(pieces.take(to));
            let sub = steps(pieces.subrange(from, to));
            &&& upto.len() == m + sub.len()
            &&& forall|j: int| 0 <= j < sub.len() ==> upto[m + j] == #[trigger] sub[j] + from
            &&& forall|j: int| 0 <= j < m ==> upto[j] == #[trigger] steps(pieces.take(from))[j]
        }),
    decreases to,
{
    let m = steps(pieces.take(from)).len() as int;
    let upto = pieces.take(to);
    let sub = pieces.subrange(from, to);
    assert(upto.drop_last() =~= pieces.take(to - 1));
    assert(upto.last() == pieces[to - 1]);
    assert(is_step(upto, to - 1) == is_step(pieces, to - 1));
    if to == from + 1 {
        assert(sub =~= seq![pieces[from]]);
        assert(sub.drop_last() =~= Seq::<Seq<char>>::empty());
        assert(is_step(sub, 0));
        reveal_with_fuel(steps, 2);
        assert(steps(sub) =~= seq![0usize]);
    } else {
        lemma_steps_from(pieces, from, to - 1);
        assert(sub.drop_last() =~= pieces.subrange(from, to - 1));
        assert(sub.last() == pieces[to - 1]);
        assert(is_step(sub, to - 1 - from) == is_step(pieces, to - 1));
    }
}

proof fn lemma_steps_end(pieces: Seq<Seq<char>>)
    requires
        pieces.len() <= usize::MAX,
        steps(pieces).len() > 0,
    ensures
        steps(pieces.take(steps(pieces).last() as int + 1)) == steps(pieces),
    decreases pieces.len(),
{
    lemma_steps_bounds(pieces);
    let at = steps(pieces);
    if is_step(pieces, pieces.len() - 1) {
        assert(pieces.take(pieces.len() as int) =~= pieces);
    } else {
        let rest = pieces.drop_last();
        lemma_steps_bounds(rest);
        lemma_steps_end(rest);
        assert(rest.take(at.last() as int + 1) =~= pieces.take(at.last() as int + 1));
    }
}

/// A path below the home directory is written from there: a tilde, and the steps of
/// the path behind those of the home directory. The home directory itself is a
/// tilde, and any other path stays as it is.
pub proof fn paths_start_at_home(p: Seq<char>, home: Seq<char>)
    requires
        text::split_on(p, '/').len() <= usize::MAX,
        is_rooted(p),
        is_rooted(home),
    ensures
        ({
            let shown = home_path(p, home);
            let own = path_steps(p);
            let base = path_steps(home);
            &&& own == base ==> shown == "~"@
            &&& own != base && base.is_prefix_of(own) ==> {
                &&& ("~/"@).is_prefix_of(shown)
                &&& path_steps(shown.skip(2)) == own.skip(base.len() as int)
            }
            &&& own != base && !base.is_prefix_of(own) ==> shown == p
        }),
{
    let own = path_steps(p);
    let base = path_steps(home);
    if own != base && base.is_prefix_of(own) {
        let k = base.len();
        let pieces = text::split_on(p, '/');
        let at = steps(pieces);
        if own.len() == base.len() {
            assert(own.subrange(0, base.len() as int) =~= own);
        }
        lemma_steps_bounds(pieces);
        let m = k - 1;
        let from = at[m] as int;
        let to = at.last() + 1;
        lemma_steps_end(pieces);
        assert(is_step(pieces, at[m] as int));
        lemma_steps_from(pieces, from, to);
        let below = steps(pieces.take(from)).len() as int;
        let sub = pieces.subrange(from, to);
        let rest = text::joined(sub, "/"@);
        assert(path_rest(p, k) == rest);
        lemma_steps_bounds(pieces.take(from));
        assert(steps(sub).len() > 0 && steps(sub)[0] == 0) by {
            lemma_first_step(sub);
        }
        assert(at[below] == from);
        if below < m {
            assert(at[below] < at[m]);
        }
        if m < below {
            assert(at[m] < at[below]);
        }
        assert(below == m);
        reveal_strlit("/");
        reveal_strlit("~/");
        assert("/"@ =~= seq!['/']);
        text::lemma_split_has_no_separator(p, '/');
        assert forall|i: int| 0 <= i < sub.len() implies !(#[trigger] sub[i]).contains('/') by {
            assert(!pieces[from + i].contains('/'));
        }
        text::split_undoes_join(sub, '/');
        let shown = home_path(p, home);
        assert(shown.skip(2) =~= rest);
        assert(("~/"@) =~= shown.subrange(0, 2));
        lemma_joined_head(sub);
        assert(rest[0] == sub[0][0]);
        assert(sub[0].contains(sub[0][0]));
        assert(!is_rooted(rest));
        let body = Seq::new(steps(sub).len(), |i: int| sub[steps(sub)[i] as int]);
        lemma_steps_bounds(sub);
        assert forall|i: int| 0 <= i < body.len() implies #[trigger] body[i] == own[k as int + i] by {
            assert(at[m + i] == steps(sub)[i] + from);
            assert(body[i] == pieces[at[m + i] as int]);
        }
        assert(path_steps(rest) =~= own.skip(k as int));
    }
}

proof fn lemma_first_step(pieces: Seq<Seq<char>>)
    requires
        0 < pieces.len() <= usize::MAX,
        pieces[0].len() > 0,
    ensures
        steps(pieces).len() > 0,
        steps(pieces)[0] == 0,
    decreases pieces.len(),
{
    if pieces.len() > 1 {
        lemma_first_step(pieces.drop_last());
    } else {
        assert(pieces.drop_last() =~= Seq::<Seq<char>>::empty());
        reveal_with_fuel(steps, 2);
    }
}

proof fn lemma_joined_head(pieces: Seq<Seq<char>>)
    requires
        pieces.len() > 0,
        pieces[0].len() > 0,
    ensures
        text::joined(pieces, "/"@).len() > 0,
        text::joined(pieces, "/"@)[0] == pieces[0][0],
    decreases pieces.len(),
{
    if pieces.len() > 1 {
        lemma_joined_head(pieces.drop_last());
    }
}

} // verus!
