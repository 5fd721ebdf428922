//! Text as sequences of characters: the whitespace, line, word and number
//! rules that the widgets share.
use vstd::prelude::*;
use vstd::string::*;

use crate::seqs;

verus! {

broadcast use crate::seqs::views_push;

/// What `String::push` does: one more character at the end.
pub assume_specification[ String::push ](s: &mut String, c: char)
    ensures
        final(s)@ == old(s)@.push(c),
;

/// The lower-case form of a text, as `str::to_lowercase` gives it.
pub uninterp spec fn lowered(s: Seq<char>) -> Seq<char>;

/// Whether all characters of `s` are ASCII.
pub open spec fn is_ascii(s: Seq<char>) -> bool {
    forall|i: int| 0 <= i < s.len() ==> (#[trigger] s[i]) <= '\u{7f}'
}

/// The lower-case form of an ASCII text is made letter by letter.
pub open spec fn lowers_by_letter(s: Seq<char>) -> bool {
    is_ascii(s) ==> lowered(s) == ascii_lowered(s)
}

/// `str::to_lowercase`: the result depends on the characters of `s` alone, and
/// ASCII letters become the small ones.
#[verifier::external_body]
pub(crate) fn to_lower(s: &str) -> (out: String)
    ensures
        out@ == lowered(s@),
        is_ascii(s@) ==> out@ == ascii_lowered(s@),
{
    s.to_lowercase()
}

/// The characters of `s`, in order.
pub fn chars_of(s: &str) -> (out: Vec<char>)
    ensures
        out@ == s@,
{
    let mut out: Vec<char> = Vec::new();
    for c in it: s.chars()
        invariant
            out@ == it.seq().take(it.index()),
            it.seq() == s@,
    {
        out.push(c);
    }
    out
}

/// The text made of `cs[from..to]`.
pub fn text_of(cs: &Vec<char>, from: usize, to: usize) -> (out: String)
    requires
        from <= to <= cs@.len(),
    ensures
        out@ == cs@.subrange(from as int, to as int),
{
    let mut out = String::new();
    let mut i: usize = from;
    while i < to
        invariant
            from <= i <= to <= cs@.len(),
            out@ == cs@.subrange(from as int, i as int),
        decreases to - i,
    {
        out.push(cs[i]);
        i += 1;
    }
    out
}

/// Whether two texts hold the same characters.
pub fn same_text(a: &str, b: &str) -> (same: bool)
    ensures
        same == (a@ == b@),
{
    let x = chars_of(a);
    let y = chars_of(b);
    if x.len() != y.len() {
        return false;
    }
    let mut i: usize = 0;
    while i < x.len()
        invariant
            i <= x@.len() == y@.len(),
            x@ == a@,
            y@ == b@,
            a@.take(i as int) == b@.take(i as int),
        decreases x.len() - i,
    {
        if x[i] != y[i] {
            assert(a@[i as int] != b@[i as int]);
            return false;
        }
        assert(a@.take(i + 1) =~= a@.take(i as int).push(a@[i as int]));
        assert(b@.take(i + 1) =~= b@.take(i as int).push(b@[i as int]));
        i += 1;
    }
    assert(a@.take(a@.len() as int) =~= a@);
    assert(b@.take(b@.len() as int) =~= b@);
    true
}

/// The whitespace characters: those with the Unicode property `White_Space`.
pub open spec fn is_white(c: char) -> bool {
    ||| '\u{9}' <= c <= '\u{d}'
    ||| c == ' '
    ||| c == '\u{85}'
    ||| c == '\u{a0}'
    ||| c == '\u{1680}'
    ||| '\u{2000}' <= c <= '\u{200a}'
    ||| c == '\u{2028}'
    ||| c == '\u{2029}'
    ||| c == '\u{202f}'
    ||| c == '\u{205f}'
    ||| c == '\u{3000}'
}

/// Whether `c` is whitespace.
pub fn is_whitespace(c: char) -> (yes: bool)
    ensures
        yes == is_white(c),
{
    ('\u{9}' <= c && c <= '\u{d}') || c == ' ' || c == '\u{85}' || c == '\u{a0}' || c == '\u{1680}'
        || ('\u{2000}' <= c && c <= '\u{200a}') || c == '\u{2028}' || c == '\u{2029}' || c
        == '\u{202f}' || c == '\u{205f}' || c == '\u{3000}'
}

/// `s` without its leading whitespace.
pub open spec fn trimmed_start(s: Seq<char>) -> Seq<char>
    decreases s.len(),
{
    if s.len() > 0 && is_white(s[0]) {
        trimmed_start(s.skip(1))
    } else {
        s
    }
}

/// `s` without its trailing whitespace.
pub open spec fn trimmed_end(s: Seq<char>) -> Seq<char>
    decreases s.len(),
{
    if s.len() > 0 && is_white(s.last()) {
        trimmed_end(s.drop_last())
    } else {
        s
    }
}

/// `s` without whitespace at either end.
pub open spec fn trimmed(s: Seq<char>) -> Seq<char> {
    trimmed_end(trimmed_start(s))
}

/// Drops the leading whitespace of `s`.
pub fn trim_start(s: &str) -> (out: String)
    ensures
        out@ == trimmed_start(s@),
{
    let cs = chars_of(s);
    let mut i: usize = 0;
    assert(s@.skip(0) =~= s@);
    while i < cs.len() && is_whitespace(cs[i])
        invariant
            i <= cs@.len(),
            cs@ == s@,
            trimmed_start(s@) == trimmed_start(s@.skip(i as int)),
        decreases cs.len() - i,
    {
        assert(s@.skip(i as int).skip(1) =~= s@.skip(i + 1));
        i += 1;
    }
    text_of(&cs, i, cs.len())
}

/// Drops the trailing whitespace of `s`.
pub fn trim_end(s: &str) -> (out: String)
    ensures
        out@ == trimmed_end(s@),
{
    let cs = chars_of(s);
    let mut n: usize = cs.len();
    assert(cs@.take(n as int) =~= cs@);
    while n > 0 && is_whitespace(cs[n - 1])
        invariant
            n <= cs@.len(),
            cs@ == s@,
            trimmed_end(s@) == trimmed_end(s@.take(n as int)),
        decreases n,
    {
        assert(s@.take(n as int).drop_last() =~= s@.take(n - 1));
        n -= 1;
    }
    assert(s@.take(n as int) =~= cs@.subrange(0, n as int));
    text_of(&cs, 0, n)
}

/// Drops the whitespace at both ends of `s`.
pub fn trim(s: &str) -> (out: String)
    ensures
        out@ == trimmed(s@),
{
    let start = trim_start(s);
    trim_end(start.as_str())
}

/// Trimming a trimmed text changes nothing.
pub proof fn trim_is_idempotent(s: Seq<char>)
    ensures
        trimmed(trimmed(s)) == trimmed(s),
{
    lemma_trimmed_start_head(s);
    let t = trimmed_start(s);
    lemma_trimmed_end_is_prefix(t);
    lemma_trimmed_end_last(t);
}

proof fn lemma_trimmed_start_head(s: Seq<char>)
    ensures
        trimmed_start(s).len() > 0 ==> !is_white(trimmed_start(s)[0]),
    decreases s.len(),
{
    if s.len() > 0 && is_white(s[0]) {
        lemma_trimmed_start_head(s.skip(1));
    }
}

proof fn lemma_trimmed_end_last(s: Seq<char>)
    ensures
        trimmed_end(s).len() > 0 ==> !is_white(trimmed_end(s).last()),
    decreases s.len(),
{
    if s.len() > 0 && is_white(s.last()) {
        lemma_trimmed_end_last(s.drop_last());
    }
}

proof fn lemma_trimmed_end_is_prefix(s: Seq<char>)
    ensures
        trimmed_end(s).len() <= s.len(),
        forall|i: int| 0 <= i < trimmed_end(s).len() ==> trimmed_end(s)[i] == s[i],
    decreases s.len(),
{
    if s.len() > 0 && is_white(s.last()) {
        lemma_trimmed_end_is_prefix(s.drop_last());
        assert forall|i: int| 0 <= i < trimmed_end(s).len() implies trimmed_end(s)[i] == s[i] by {
            assert(s.drop_last()[i] == s[i]);
        }
    }
}

/// `s` cut at every `sep`: one piece more than there are separators.
pub open spec fn split_on(s: Seq<char>, sep: char) -> Seq<Seq<char>>
    decreases s.len(),
{
    if s.len() == 0 {
        seq![Seq::empty()]
    } else {
        let pieces = split_on(s.drop_last(), sep);
        if s.last() == sep {
            pieces.push(Seq::empty())
        } else {
            pieces.drop_last().push(pieces.last().push(s.last()))
        }
    }
}

/// Cuts `s` at every `sep`.
pub fn split(s: &str, sep: char) -> (out: Vec<String>)
    ensures
        seqs::views(out@) == split_on(s@, sep),
        out@.len() > 0,
{
    let cs = chars_of(s);
    let mut out: Vec<String> = Vec::new();
    let mut cur = String::new();
    let mut i: usize = 0;
    proof {
        assert(s@.take(0) =~= Seq::<char>::empty());
        assert(seqs::views(out@) =~= Seq::<Seq<char>>::empty());
    }
    while i < cs.len()
        invariant
            i <= cs@.len(),
            cs@ == s@,
            seqs::views(out@).push(cur@) == split_on(s@.take(i as int), sep),
        decreases cs.len() - i,
    {
        let c = cs[i];
        proof {
            let next = s@.take(i + 1);
            assert(next.drop_last() =~= s@.take(i as int));
            assert(next.last() == c);
            assert(seqs::views(out@).push(cur@).drop_last() =~= seqs::views(out@));
        }
        if c == sep {
            out.push(cur);
            cur = String::new();
        } else {
            cur.push(c);
        }
        i += 1;
    }
    assert(s@.take(s@.len() as int) =~= s@);
    out.push(cur);
    out
}

/// The parts with `sep` between neighbours.
pub open spec fn joined(parts: Seq<Seq<char>>, sep: Seq<char>) -> Seq<char>
    decreases parts.len(),
{
    if parts.len() == 0 {
        Seq::empty()
    } else if parts.len() == 1 {
        parts[0]
    } else {
        joined(parts.drop_last(), sep) + sep + parts.last()
    }
}

/// Puts `sep` between neighbouring parts.
pub fn join(parts: &Vec<String>, sep: &str) -> (out: String)
    ensures
        out@ == joined(seqs::views(parts@), sep@),
{
    let mut out = String::new();
    let mut i: usize = 0;
    assert(seqs::views(parts@).take(0) =~= Seq::<Seq<char>>::empty());
    while i < parts.len()
        invariant
            i <= parts@.len(),
            out@ == joined(seqs::views(parts@).take(i as int), sep@),
        decreases parts.len() - i,
    {
        proof {
            let next = seqs::views(parts@).take(i + 1);
            assert(next.drop_last() =~= seqs::views(parts@).take(i as int));
            assert(next.last() == parts@[i as int]@);
        }
        if i > 0 {
            out.append(sep);
        }
        out.append(parts[i].as_str());
        i += 1;
    }
    assert(seqs::views(parts@).take(parts@.len() as int) =~= seqs::views(parts@));
    out
}

/// Joining the pieces of a text with the separator it was cut at gives the
/// text back.
pub proof fn join_undoes_split(s: Seq<char>, sep: char)
    ensures
        joined(split_on(s, sep), seq![sep]) == s,
        split_on(s, sep).len() > 0,
    decreases s.len(),
{
    if s.len() > 0 {
        join_undoes_split(s.drop_last(), sep);
        let p = split_on(s.drop_last(), sep);
        let q = split_on(s, sep);
        if s.last() == sep {
            assert(q.drop_last() =~= p);
            assert(joined(q, seq![sep]) =~= s);
        } else if p.len() == 1 {
            assert(q[0] == p[0].push(s.last()));
            assert(joined(q, seq![sep]) =~= s);
        } else {
            assert(q.drop_last() =~= p.drop_last());
            assert(q.last() == p.last().push(s.last()));
            let base = joined(p.drop_last(), seq![sep]) + seq![sep];
            assert(s.drop_last() == base + p.last());
            assert(base + q.last() =~= (base + p.last()).push(s.last()));
            assert(s =~= s.drop_last().push(s.last()));
        }
    }
}

/// No piece of a split text holds the separator.
pub proof fn lemma_split_has_no_separator(s: Seq<char>, sep: char)
    ensures
        forall|i: int|
            0 <= i < split_on(s, sep).len() ==> !(#[trigger] split_on(s, sep)[i]).contains(sep),
    decreases s.len(),
{
    if s.len() > 0 {
        let before = split_on(s.drop_last(), sep);
        lemma_split_has_no_separator(s.drop_last(), sep);
        join_undoes_split(s.drop_last(), sep);
        assert forall|i: int| 0 <= i < split_on(s, sep).len() implies !(#[trigger] split_on(
            s,
            sep,
        )[i]).contains(sep) by {
            if i < before.len() {
                assert(!before[i].contains(sep));
            }
            if s.last() != sep && i == before.len() - 1 {
                let piece = split_on(s, sep)[i];
                assert forall|k: int| 0 <= k < piece.len() implies piece[k] != sep by {
                    if k < before[i].len() {
                        assert(before[i].contains(before[i][k]));
                    }
                }
            }
        }
    }
}

/// Splitting gives back the pieces that were joined with the separator, where
/// none of them holds it.
pub proof fn split_undoes_join(parts: Seq<Seq<char>>, sep: char)
    requires
        parts.len() > 0,
        forall|i: int| 0 <= i < parts.len() ==> !(#[trigger] parts[i]).contains(sep),
    ensures
        split_on(joined(parts, seq![sep]), sep) == parts,
    decreases parts.len(), parts.last().len(),
{
    let last = parts.last();
    let before = parts.drop_last();
    let all = joined(parts, seq![sep]);
    if last.len() == 0 {
        assert(last =~= Seq::<char>::empty());
        if before.len() == 0 {
            assert(all =~= Seq::<char>::empty());
            assert(parts =~= seq![Seq::empty()]);
        } else {
            assert forall|i: int| 0 <= i < before.len() implies !(#[trigger] before[i]).contains(
                sep,
            ) by {
                assert(!parts[i].contains(sep));
            }
            split_undoes_join(before, sep);
            assert(all.drop_last() =~= joined(before, seq![sep]));
            assert(all.last() == sep);
            assert(before.push(Seq::empty()) =~= parts);
        }
    } else {
        let shorter = parts.update(parts.len() - 1, last.drop_last());
        assert forall|i: int| 0 <= i < shorter.len() implies !(#[trigger] shorter[i]).contains(
            sep,
        ) by {
            assert(!parts[i].contains(sep));
            if i == parts.len() - 1 {
                assert forall|k: int| 0 <= k < shorter[i].len() implies shorter[i][k] != sep by {
                    assert(last.contains(last[k]));
                }
            }
        }
        split_undoes_join(shorter, sep);
        assert(shorter.drop_last() =~= before);
        assert(all.drop_last() =~= joined(shorter, seq![sep]));
        assert(all.last() == last.last());
        assert(last.contains(last.last()));
        assert(last.drop_last().push(last.last()) =~= last);
        assert(shorter.update(shorter.len() - 1, last) =~= parts);
        assert(split_on(all, sep) =~= parts);
    }
}


/// A line without the carriage return that a `\r\n` ending leaves on it.
pub open spec fn without_cr(line: Seq<char>) -> Seq<char> {
    if line.len() > 0 && line.last() == '\r' {
        line.drop_last()
    } else {
        line
    }
}

/// The lines of `s`: each ends in `\n` or `\r\n`, which is not part of it, and
/// the last may lack its ending.
pub open spec fn lines_of(s: Seq<char>) -> Seq<Seq<char>> {
    let pieces = split_on(s, '\n');
    let ended = Seq::new((pieces.len() - 1) as nat, |i: int| without_cr(pieces[i]));
    if pieces.last().len() == 0 {
        ended
    } else {
        ended.push(pieces.last())
    }
}

/// Drops a carriage return from the end of `line`.
pub fn strip_cr(line: &str) -> (out: String)
    ensures
        out@ == without_cr(line@),
{
    let cs = chars_of(line);
    let n: usize = cs.len();
    if n > 0 && cs[n - 1] == '\r' {
        assert(line@.drop_last() =~= cs@.subrange(0, n - 1));
        text_of(&cs, 0, n - 1)
    } else {
        assert(line@ =~= cs@.subrange(0, n as int));
        text_of(&cs, 0, n)
    }
}

/// The lines of `s`.
pub fn lines(s: &str) -> (out: Vec<String>)
    ensures
        seqs::views(out@) == lines_of(s@),
{
    let pieces = split(s, '\n');
    let ghost all = seqs::views(pieces@);
    let mut out: Vec<String> = Vec::new();
    let mut i: usize = 0;
    let n: usize = pieces.len() - 1;
    let ghost ended = Seq::new(n as nat, |i: int| without_cr(all[i]));
    assert(seqs::views(out@) =~= ended.take(0));
    while i < n
        invariant
            i <= n,
            n + 1 == pieces@.len(),
            all == seqs::views(pieces@),
            ended == Seq::new(n as nat, |i: int| without_cr(all[i])),
            seqs::views(out@) == ended.take(i as int),
        decreases n - i,
    {
        let line = strip_cr(pieces[i].as_str());
        assert(ended.take(i + 1) =~= ended.take(i as int).push(ended[i as int]));
        out.push(line);
        i += 1;
    }
    assert(ended.take(n as int) =~= ended);
    if !pieces[n].as_str().is_empty() {
        out.push(pieces[n].clone());
    }
    out
}

/// The finished words of `s`, and the characters of the word it ends in.
pub open spec fn word_scan(s: Seq<char>) -> (Seq<Seq<char>>, Seq<char>)
    decreases s.len(),
{
    if s.len() == 0 {
        (Seq::empty(), Seq::empty())
    } else {
        let (words, cur) = word_scan(s.drop_last());
        if !is_white(s.last()) {
            (words, cur.push(s.last()))
        } else if cur.len() > 0 {
            (words.push(cur), Seq::empty())
        } else {
            (words, cur)
        }
    }
}

/// The maximal runs of `s` that hold no whitespace.
pub open spec fn words_of(s: Seq<char>) -> Seq<Seq<char>> {
    let (words, cur) = word_scan(s);
    if cur.len() > 0 {
        words.push(cur)
    } else {
        words
    }
}

/// The words of `s`: its runs without whitespace.
pub fn words(s: &str) -> (out: Vec<String>)
    ensures
        seqs::views(out@) == words_of(s@),
{
    let cs = chars_of(s);
    let mut out: Vec<String> = Vec::new();
    let mut cur = String::new();
    let mut i: usize = 0;
    assert(s@.take(0) =~= Seq::<char>::empty());
    assert(seqs::views(out@) =~= Seq::<Seq<char>>::empty());
    while i < cs.len()
        invariant
            i <= cs@.len(),
            cs@ == s@,
            word_scan(s@.take(i as int)) == (seqs::views(out@), cur@),
        decreases cs.len() - i,
    {
        let c = cs[i];
        assert(s@.take(i + 1).drop_last() =~= s@.take(i as int));
        if !is_whitespace(c) {
            cur.push(c);
        } else if !cur.as_str().is_empty() {
            out.push(cur);
            cur = String::new();
        }
        i += 1;
    }
    assert(s@.take(s@.len() as int) =~= s@);
    if !cur.as_str().is_empty() {
        out.push(cur);
    }
    out
}

/// Whether `s` starts with `prefix`.
pub fn starts_with(s: &str, prefix: &str) -> (yes: bool)
    ensures
        yes == prefix@.is_prefix_of(s@),
{
    let cs = chars_of(s);
    let ps = chars_of(prefix);
    starts_at(&cs, &ps, 0)
}

/// Whether `needle` stands in `cs` at `at`.
fn starts_at(cs: &Vec<char>, needle: &Vec<char>, at: usize) -> (yes: bool)
    requires
        at <= cs@.len(),
    ensures
        yes == needle@.is_prefix_of(cs@.skip(at as int)),
{
    let n: usize = needle.len();
    if n > cs.len() - at {
        return false;
    }
    let mut i: usize = 0;
    while i < n
        invariant
            i <= n == needle@.len(),
            at + n <= cs@.len() <= usize::MAX,
            forall|j: int| 0 <= j < i ==> needle@[j] == cs@[at + j],
        decreases n - i,
    {
        if needle[i] != cs[at + i] {
            assert(cs@.skip(at as int)[i as int] == cs@[at + i]);
            assert(cs@.skip(at as int).subrange(0, n as int)[i as int] != needle@[i as int]);
            return false;
        }
        i += 1;
    }
    assert(needle@ =~= cs@.skip(at as int).subrange(0, n as int));
    true
}

/// Whether `needle` occurs somewhere in `s`.
pub open spec fn holds(s: Seq<char>, needle: Seq<char>) -> bool {
    exists|at: int| 0 <= at <= s.len() && needle.is_prefix_of(#[trigger] s.skip(at))
}

/// Whether `needle` occurs somewhere in `s`.
pub fn contains(s: &str, needle: &str) -> (yes: bool)
    ensures
        yes == holds(s@, needle@),
{
    let cs = chars_of(s);
    let ns = chars_of(needle);
    let mut at: usize = 0;
    let n: usize = cs.len();
    loop
        invariant
            at <= n == cs@.len(),
            cs@ == s@,
            ns@ == needle@,
            forall|k: int| 0 <= k < at ==> !needle@.is_prefix_of(#[trigger] s@.skip(k)),
        decreases n - at,
    {
        if starts_at(&cs, &ns, at) {
            return true;
        }
        if at == n {
            return false;
        }
        at += 1;
    }
}

/// `c` with an ASCII capital letter made small.
pub open spec fn ascii_lower(c: char) -> char {
    if 'A' <= c <= 'Z' {
        ((c as u8) + 32) as char
    } else {
        c
    }
}

/// Makes an ASCII capital letter small.
pub fn to_ascii_lower(c: char) -> (out: char)
    ensures
        out == ascii_lower(c),
{
    if 'A' <= c && c <= 'Z' {
        ((c as u8) + 32) as char
    } else {
        c
    }
}

/// Each character of `s` with its ASCII capital letter made small.
pub open spec fn ascii_lowered(s: Seq<char>) -> Seq<char> {
    Seq::new(s.len(), |i: int| ascii_lower(s[i]))
}

/// Makes the ASCII capital letters of `s` small.
pub fn to_ascii_lowercase(s: &str) -> (out: String)
    ensures
        out@ == ascii_lowered(s@),
{
    let cs = chars_of(s);
    let mut out = String::new();
    let mut i: usize = 0;
    assert(out@ =~= ascii_lowered(s@).take(0));
    while i < cs.len()
        invariant
            i <= cs@.len(),
            cs@ == s@,
            out@ == ascii_lowered(s@).take(i as int),
        decreases cs.len() - i,
    {
        out.push(to_ascii_lower(cs[i]));
        assert(ascii_lowered(s@).take(i + 1) =~= ascii_lowered(s@).take(i as int).push(
            ascii_lower(s@[i as int]),
        ));
        i += 1;
    }
    assert(ascii_lowered(s@).take(s@.len() as int) =~= ascii_lowered(s@));
    out
}

/// Whether `a` and `b` are the same but for the case of ASCII letters.
pub fn eq_ignore_ascii_case(a: &str, b: &str) -> (same: bool)
    ensures
        same == (ascii_lowered(a@) == ascii_lowered(b@)),
{
    let x = to_ascii_lowercase(a);
    let y = to_ascii_lowercase(b);
    same_text(x.as_str(), y.as_str())
}

/// The decimal digit of `d`.
pub open spec fn digit(d: nat) -> char {
    (48 + d) as char
}

/// `n` in decimal.
pub open spec fn decimal(n: nat) -> Seq<char>
    decreases n,
{
    if n < 10 {
        seq![digit(n)]
    } else {
        decimal(n / 10).push(digit(n % 10))
    }
}

/// Numbers that are written alike are the same.
pub proof fn decimals_differ(a: nat, b: nat)
    requires
        decimal(a) == decimal(b),
    ensures
        a == b,
    decreases a,
{
    lemma_decimal_len(a);
    lemma_decimal_len(b);
    let (s, t) = (decimal(a), decimal(b));
    assert(s.last() == t.last());
    assert(digit(a % 10) == digit(b % 10));
    if a >= 10 && b >= 10 {
        assert(s.drop_last() =~= decimal(a / 10));
        assert(t.drop_last() =~= decimal(b / 10));
        decimals_differ(a / 10, b / 10);
    }
}

proof fn lemma_decimal_len(n: nat)
    ensures
        decimal(n).len() >= 1,
        n >= 10 ==> decimal(n).len() >= 2,
        decimal(n).last() == digit(n % 10),
    decreases n,
{
    if n >= 10 {
        lemma_decimal_len(n / 10);
    }
}

/// Writes `n` in decimal.
pub fn decimal_of(n: u64) -> (out: String)
    ensures
        out@ == decimal(n as nat),
    decreases n,
{
    let d: u8 = (n % 10) as u8;
    let c: char = (48u8 + d) as char;
    let mut out = if n < 10 {
        String::new()
    } else {
        decimal_of(n / 10)
    };
    out.push(c);
    assert(n < 10 ==> out@ =~= seq![digit(n as nat)]);
    out
}

/// `n` times the character `c`.
pub open spec fn run_of(c: char, n: nat) -> Seq<char> {
    Seq::new(n, |i: int| c)
}

/// `n` spaces.
pub fn spaces(n: usize) -> (out: String)
    ensures
        out@ == run_of(' ', n as nat),
{
    repeat_char(' ', n)
}

/// `n` times the character `c`.
pub fn repeat_char(c: char, n: usize) -> (out: String)
    ensures
        out@ == run_of(c, n as nat),
{
    let mut out = String::new();
    let mut i: usize = 0;
    assert(out@ =~= run_of(c, 0));
    while i < n
        invariant
            i <= n,
            out@ == run_of(c, i as nat),
        decreases n - i,
    {
        out.push(c);
        assert(run_of(c, (i + 1) as nat) =~= run_of(c, i as nat).push(c));
        i += 1;
    }
    out
}

/// How many bytes `c` takes in UTF-8.
pub open spec fn utf8_len(c: char) -> nat {
    if (c as u32) < 0x80 {
        1
    } else if (c as u32) < 0x800 {
        2
    } else if (c as u32) < 0x10000 {
        3
    } else {
        4
    }
}

/// How many bytes `s` takes in UTF-8.
pub open spec fn byte_len(s: Seq<char>) -> nat
    decreases s.len(),
{
    if s.len() == 0 {
        0
    } else {
        byte_len(s.drop_last()) + utf8_len(s.last())
    }
}

/// How many bytes `c` takes in UTF-8.
pub fn char_bytes(c: char) -> (n: usize)
    ensures
        n == utf8_len(c),
        1 <= n <= 4,
{
    let code: u32 = c as u32;
    if code < 0x80 {
        1
    } else if code < 0x800 {
        2
    } else if code < 0x10000 {
        3
    } else {
        4
    }
}

/// `a` followed by `b`.
pub fn concat(a: &str, b: &str) -> (out: String)
    ensures
        out@ == a@ + b@,
{
    let mut out = String::new();
    out.append(a);
    out.append(b);
    assert(out@ =~= a@ + b@);
    out
}

/// The first whitespace of `s` from `i` on, or its end.
pub open spec fn next_white(s: Seq<char>, i: nat) -> nat
    decreases s.len() - i,
{
    if i >= s.len() {
        s.len()
    } else if is_white(s[i as int]) {
        i
    } else {
        next_white(s, i + 1)
    }
}

/// Finds the first whitespace of `cs` from `from` on, or its end.
pub fn find_white(cs: &Vec<char>, from: usize) -> (at: usize)
    requires
        from <= cs@.len(),
    ensures
        at == next_white(cs@, from as nat),
        from <= at <= cs@.len(),
{
    let mut i: usize = from;
    while i < cs.len() && !is_whitespace(cs[i])
        invariant
            from <= i <= cs@.len(),
            next_white(cs@, from as nat) == next_white(cs@, i as nat),
        decreases cs.len() - i,
    {
        i += 1;
    }
    i
}

/// `s` up to its first whitespace.
pub open spec fn until_white(s: Seq<char>) -> Seq<char> {
    s.take(next_white(s, 0) as int)
}

/// The characters of `s` that are not whitespace.
pub open spec fn unspaced(s: Seq<char>) -> Seq<char>
    decreases s.len(),
{
    if s.len() == 0 {
        s
    } else if is_white(s.last()) {
        unspaced(s.drop_last())
    } else {
        unspaced(s.drop_last()).push(s.last())
    }
}

/// Drops all whitespace.
pub fn strip_whitespace(s: &str) -> (out: String)
    ensures
        out@ == unspaced(s@),
{
    let cs = chars_of(s);
    let mut out = String::new();
    let mut i: usize = 0;
    assert(s@.take(0) =~= Seq::<char>::empty());
    while i < cs.len()
        invariant
            i <= cs@.len(),
            cs@ == s@,
            out@ == unspaced(s@.take(i as int)),
        decreases cs.len() - i,
    {
        assert(s@.take(i + 1).drop_last() =~= s@.take(i as int));
        if !is_whitespace(cs[i]) {
            out.push(cs[i]);
        }
        i += 1;
    }
    assert(s@.take(s@.len() as int) =~= s@);
    out
}

/// `s` without its last character.
pub open spec fn shortened(s: Seq<char>) -> Seq<char> {
    if s.len() == 0 {
        s
    } else {
        s.drop_last()
    }
}

/// Drops the last character.
pub fn drop_last_char(s: &str) -> (out: String)
    ensures
        out@ == shortened(s@),
{
    let cs = chars_of(s);
    let n: usize = cs.len();
    if n == 0 {
        return String::new();
    }
    assert(cs@.subrange(0, n - 1) =~= s@.drop_last());
    text_of(&cs, 0, n - 1)
}

/// Adding a character at the front adds its bytes.
pub proof fn lemma_byte_len_front(s: Seq<char>)
    requires
        s.len() > 0,
    ensures
        byte_len(s) == utf8_len(s[0]) + byte_len(s.skip(1)),
    decreases s.len(),
{
    if s.len() == 1 {
        assert(s.drop_last() =~= Seq::<char>::empty());
        assert(s.skip(1) =~= Seq::<char>::empty());
    } else {
        lemma_byte_len_front(s.drop_last());
        assert(s.drop_last().skip(1) =~= s.skip(1).drop_last());
    }
}

/// The byte length is the length of the UTF-8 encoding.
pub proof fn lemma_byte_len_is_encoding(s: Seq<char>)
    ensures
        byte_len(s) == vstd::utf8::encode_utf8(s).len(),
    decreases s.len(),
{
    if s.len() > 0 {
        lemma_byte_len_front(s);
        lemma_byte_len_is_encoding(s.skip(1));
        assert(s.skip(1) =~= s.drop_first());
        vstd::utf8::char_is_scalar(s[0]);
    }
}

/// A longer prefix takes more bytes.
pub proof fn lemma_byte_len_grows(s: Seq<char>, i: int, j: int)
    requires
        0 <= i <= j <= s.len(),
    ensures
        byte_len(s.take(i)) + (j - i) <= byte_len(s.take(j)),
    decreases j - i,
{
    if i < j {
        lemma_byte_len_grows(s, i, j - 1);
        assert(s.take(j).drop_last() =~= s.take(j - 1));
    }
}

/// How many bytes the first `n` characters of `s` take.
pub fn bytes_before(s: &str, cs: &Vec<char>, n: usize) -> (at: usize)
    requires
        cs@ == s@,
        n <= cs@.len(),
    ensures
        at == byte_len(s@.take(n as int)),
{
    let total: usize = s.as_bytes().len();
    proof {
        lemma_byte_len_is_encoding(s@);
        assert(s@.take(s@.len() as int) =~= s@);
        assert(s@.take(0) =~= Seq::<char>::empty());
    }
    let mut at: usize = 0;
    let mut i: usize = 0;
    while i < n
        invariant
            i <= n <= cs@.len(),
            cs@ == s@,
            at == byte_len(s@.take(i as int)),
            total == byte_len(s@),
        decreases n - i,
    {
        proof {
            assert(s@.take(i + 1).drop_last() =~= s@.take(i as int));
            lemma_byte_len_grows(s@, i + 1, s@.len() as int);
            assert(s@.take(s@.len() as int) =~= s@);
        }
        at = at + char_bytes(cs[i]);
        i += 1;
    }
    at
}

/// Which character of `s` starts at byte `b`, or its end; `None` where `b`
/// falls inside a character or behind the end.
pub open spec fn char_at_byte(s: Seq<char>, b: nat) -> Option<nat>
    decreases s.len(),
{
    if byte_len(s) == b {
        Some(s.len())
    } else if s.len() == 0 {
        None
    } else {
        char_at_byte(s.drop_last(), b)
    }
}

/// Finds the character that starts at byte `b`.
pub fn find_char_at_byte(s: &str, cs: &Vec<char>, b: usize) -> (k: Option<usize>)
    requires
        cs@ == s@,
    ensures
        match k {
            Some(k) => k <= cs@.len() && char_at_byte(s@, b as nat) == Some(k as nat)
                && byte_len(s@.take(k as int)) == b,
            None => char_at_byte(s@, b as nat) is None,
        },
{
    let mut k: usize = cs.len();
    let mut at: usize = bytes_before(s, cs, k);
    assert(s@.take(s@.len() as int) =~= s@);
    loop
        invariant
            k <= cs@.len(),
            cs@ == s@,
            at == byte_len(s@.take(k as int)),
            char_at_byte(s@, b as nat) == char_at_byte(s@.take(k as int), b as nat),
        decreases k,
    {
        if at == b {
            return Some(k);
        }
        if k == 0 {
            return None;
        }
        assert(s@.take(k as int).drop_last() =~= s@.take(k - 1));
        at = at - char_bytes(cs[k - 1]);
        k -= 1;
    }
}

proof fn lemma_trimmed_start_at(s: Seq<char>) -> (i: int)
    ensures
        0 <= i <= s.len(),
        trimmed_start(s) == s.skip(i),
        forall|k: int| 0 <= k < i ==> is_white(#[trigger] s[k]),
        i < s.len() ==> !is_white(s[i]),
    decreases s.len(),
{
    if s.len() > 0 && is_white(s[0]) {
        let rest = s.skip(1);
        let j = lemma_trimmed_start_at(rest);
        assert(rest.skip(j) =~= s.skip(j + 1));
        assert forall|k: int| 0 <= k < j + 1 implies is_white(#[trigger] s[k]) by {
            if k > 0 {
                assert(is_white(rest[k - 1]));
            }
        }
        j + 1
    } else {
        assert(s.skip(0) =~= s);
        0
    }
}

proof fn lemma_trimmed_end_at(s: Seq<char>) -> (j: int)
    ensures
        0 <= j <= s.len(),
        trimmed_end(s) == s.take(j),
        forall|k: int| j <= k < s.len() ==> is_white(#[trigger] s[k]),
        j > 0 ==> !is_white(s[j - 1]),
    decreases s.len(),
{
    if s.len() > 0 && is_white(s.last()) {
        let rest = s.drop_last();
        let j = lemma_trimmed_end_at(rest);
        assert(rest.take(j) =~= s.take(j));
        assert forall|k: int| j <= k < s.len() implies is_white(#[trigger] s[k]) by {
            if k < rest.len() {
                assert(is_white(rest[k]));
            }
        }
        j
    } else {
        assert(s.take(s.len() as int) =~= s);
        s.len() as int
    }
}

/// A trimmed text is the part of the text from `at.0` to `at.1`: whitespace alone
/// stands before and behind it, and none at its own ends.
pub proof fn trimming_loses_only_white(s: Seq<char>) -> (at: (int, int))
    ensures
        0 <= at.0 <= at.1 <= s.len(),
        trimmed(s) == s.subrange(at.0, at.1),
        trimmed_start(s) == s.skip(at.0),
        forall|k: int| 0 <= k < at.0 ==> is_white(#[trigger] s[k]),
        forall|k: int| at.1 <= k < s.len() ==> is_white(#[trigger] s[k]),
        at.0 < at.1 ==> !is_white(s[at.0]) && !is_white(s[at.1 - 1]),
{
    let i = lemma_trimmed_start_at(s);
    let rest = s.skip(i);
    let j = lemma_trimmed_end_at(rest);
    assert(rest.take(j) =~= s.subrange(i, i + j));
    assert forall|k: int| i + j <= k < s.len() implies is_white(#[trigger] s[k]) by {
        assert(is_white(rest[k - i]));
    }
    if j > 0 {
        assert(rest[j - 1] == s[i + j - 1]);
        assert(rest[0] == s[i]);
    }
    (i, i + j)
}

/// Texts one behind the other.
pub open spec fn strung(parts: Seq<Seq<char>>) -> Seq<char>
    decreases parts.len(),
{
    if parts.len() == 0 {
        Seq::empty()
    } else {
        strung(parts.drop_last()) + parts.last()
    }
}

proof fn lemma_word_scan(s: Seq<char>)
    ensures
        strung(word_scan(s).0) + word_scan(s).1 == unspaced(s),
        forall|i: int, k: int|
            0 <= i < word_scan(s).0.len() && 0 <= k < word_scan(s).0[i].len() ==> !is_white(
                #[trigger] word_scan(s).0[i][k],
            ),
        forall|i: int| 0 <= i < word_scan(s).0.len() ==> (#[trigger] word_scan(s).0[i]).len() > 0,
        forall|k: int| 0 <= k < word_scan(s).1.len() ==> !is_white(#[trigger] word_scan(s).1[k]),
        word_scan(s).1.len() > 0 <==> s.len() > 0 && !is_white(s.last()),
    decreases s.len(),
{
    if s.len() == 0 {
        assert(strung(word_scan(s).0) + word_scan(s).1 =~= unspaced(s));
    } else {
        lemma_word_scan(s.drop_last());
        let (words, cur) = word_scan(s.drop_last());
        if !is_white(s.last()) {
            assert(strung(words) + cur.push(s.last()) =~= (strung(words) + cur).push(s.last()));
        } else if cur.len() > 0 {
            assert(words.push(cur).drop_last() =~= words);
            assert(strung(words.push(cur)) + Seq::<char>::empty() =~= strung(words) + cur);
        }
    }
}

/// The words of a text hold all of it but the whitespace, in order; no word is
/// empty or holds whitespace, and one that whitespace follows is finished: a text
/// and another behind a blank have the words of the one and of the other.
pub proof fn words_hold_all_but_white(s: Seq<char>)
    ensures
        strung(words_of(s)) == unspaced(s),
        forall|i: int| 0 <= i < words_of(s).len() ==> (#[trigger] words_of(s)[i]).len() > 0,
        forall|i: int, k: int|
            0 <= i < words_of(s).len() && 0 <= k < words_of(s)[i].len() ==> !is_white(
                #[trigger] words_of(s)[i][k],
            ),
{
    lemma_word_scan(s);
    let (words, cur) = word_scan(s);
    if cur.len() > 0 {
        assert(words.push(cur).drop_last() =~= words);
    } else {
        assert(strung(words) + cur =~= strung(words));
    }
}

proof fn lemma_scan_behind(a: Seq<char>, b: Seq<char>)
    requires
        a.len() > 0,
        is_white(a.last()),
    ensures
        word_scan(a + b).0 == words_of(a) + word_scan(b).0,
        word_scan(a + b).1 == word_scan(b).1,
    decreases b.len(),
{
    if b.len() == 0 {
        assert(a + b =~= a);
        lemma_word_scan(a);
        assert(words_of(a) + word_scan(b).0 =~= words_of(a));
        assert(word_scan(a).1 =~= Seq::<char>::empty());
    } else {
        lemma_scan_behind(a, b.drop_last());
        assert((a + b).drop_last() =~= a + b.drop_last());
        let (words, cur) = word_scan(b.drop_last());
        assert(words_of(a) + words.push(cur) =~= (words_of(a) + words).push(cur));
    }
}

/// Whitespace parts words: what stands before it and what stands behind it keep
/// their own words.
pub proof fn white_parts_words(a: Seq<char>, c: char, b: Seq<char>)
    requires
        is_white(c),
    ensures
        words_of(a.push(c) + b) == words_of(a) + words_of(b),
{
    let head = a.push(c);
    lemma_scan_behind(head, b);
    assert(head.drop_last() =~= a);
    let (words, cur) = word_scan(b);
    assert(words_of(a) + words.push(cur) =~= (words_of(a) + words).push(cur));
}

/// The lines of a text hold all of it but the line ends: joined again they are the
/// text, but for a line end behind the last; none of them holds a line end.
pub proof fn lines_hold_all_but_their_ends(s: Seq<char>)
    requires
        !s.contains('\r'),
    ensures
        ({
            let all = joined(lines_of(s), seq!['\n']);
            ||| s == all
            ||| s == all.push('\n')
            ||| s.len() == 0
        }),
        forall|i: int| 0 <= i < lines_of(s).len() ==> !(#[trigger] lines_of(s)[i]).contains('\n'),
{
    let pieces = split_on(s, '\n');
    join_undoes_split(s, '\n');
    lemma_split_has_no_separator(s, '\n');
    lemma_split_within(s, '\n', '\r');
    let ended = Seq::new((pieces.len() - 1) as nat, |i: int| without_cr(pieces[i]));
    assert forall|i: int| 0 <= i < ended.len() implies #[trigger] ended[i] == pieces[i] by {
        assert(!pieces[i].contains('\r'));
        if pieces[i].len() > 0 {
            assert(pieces[i].last() == pieces[i][pieces[i].len() - 1]);
        }
    }
    assert(ended =~= pieces.drop_last());
    if pieces.last().len() == 0 {
        assert(pieces.last() =~= Seq::<char>::empty());
        if ended.len() > 0 {
            assert(s =~= joined(ended, seq!['\n']).push('\n'));
        }
    } else {
        assert(lines_of(s) =~= pieces);
    }
    assert forall|i: int| 0 <= i < lines_of(s).len() implies !(#[trigger] lines_of(
        s,
    )[i]).contains('\n') by {
        assert(lines_of(s)[i] == pieces[i]);
    }
}

pub proof fn lemma_split_within(s: Seq<char>, sep: char, c: char)
    requires
        !s.contains(c),
    ensures
        forall|i: int| 0 <= i < split_on(s, sep).len() ==> !(#[trigger] split_on(s, sep)[i]).contains(
            c,
        ),
    decreases s.len(),
{
    if s.len() > 0 {
        let rest = s.drop_last();
        assert forall|k: int| 0 <= k < rest.len() implies rest[k] != c by {
            assert(s.contains(s[k]));
        }
        assert(s.contains(s.last()));
        lemma_split_within(rest, sep, c);
        join_undoes_split(rest, sep);
        let before = split_on(rest, sep);
        assert forall|i: int| 0 <= i < split_on(s, sep).len() implies !(#[trigger] split_on(
            s,
            sep,
        )[i]).contains(c) by {
            if i < before.len() {
                assert(!before[i].contains(c));
            }
            if s.last() != sep && i == before.len() - 1 {
                let piece = split_on(s, sep)[i];
                assert forall|k: int| 0 <= k < piece.len() implies piece[k] != c by {
                    if k < before[i].len() {
                        assert(before[i].contains(before[i][k]));
                    }
                }
            }
        }
    }
}

/// The number that decimal digits stand for.
pub open spec fn value_of(digits: Seq<char>) -> nat
    decreases digits.len(),
{
    if digits.len() == 0 {
        0
    } else {
        10 * value_of(digits.drop_last()) + (digits.last() as nat - '0' as nat) as nat
    }
}

/// A number in decimal is written with digits alone, without a zero in front, and
/// stands for the number.
pub proof fn decimals_stand_for_their_number(n: nat)
    ensures
        value_of(decimal(n)) == n,
        decimal(n).len() > 0,
        forall|i: int| 0 <= i < decimal(n).len() ==> '0' <= #[trigger] decimal(n)[i] <= '9',
        n > 0 ==> decimal(n)[0] != '0',
    decreases n,
{
    let digits = decimal(n);
    if n < 10 {
        assert(digits.drop_last() =~= Seq::<char>::empty());
        assert(value_of(digits.drop_last()) == 0);
        assert(digits.last() == digit(n));
    } else {
        decimals_stand_for_their_number(n / 10);
        assert(digits.drop_last() =~= decimal(n / 10));
        assert(digits.last() == digit(n % 10));
    }
}

/// A text behind another adds to the last piece of it and leaves the pieces before
/// as they are.
pub proof fn lemma_split_goes_on(a: Seq<char>, b: Seq<char>, sep: char)
    ensures
        split_on(a, sep).len() > 0,
        split_on(a + b, sep).len() >= split_on(a, sep).len(),
        split_on(a + b, sep).take(split_on(a, sep).len() - 1) == split_on(a, sep).drop_last(),
        split_on(a, sep).last().is_prefix_of(split_on(a + b, sep)[split_on(a, sep).len() - 1]),
    decreases b.len(),
{
    let p = split_on(a, sep);
    join_undoes_split(a, sep);
    if b.len() == 0 {
        assert(a + b =~= a);
        assert(p.take(p.len() - 1) =~= p.drop_last());
        assert(p.last().subrange(0, p.last().len() as int) =~= p.last());
    } else {
        lemma_split_goes_on(a, b.drop_last(), sep);
        assert((a + b).drop_last() =~= a + b.drop_last());
        let before = split_on(a + b.drop_last(), sep);
        let now = split_on(a + b, sep);
        let n = p.len() - 1;
        assert(now.take(n) =~= before.take(n));
        let last = p.last();
        assert(last =~= before[n].subrange(0, last.len() as int));
        assert(last =~= now[n].subrange(0, last.len() as int));
    }
}

proof fn lemma_scan_word(t: Seq<char>)
    requires
        forall|k: int| 0 <= k < t.len() ==> !is_white(#[trigger] t[k]),
    ensures
        word_scan(t).0.len() == 0,
        word_scan(t).1 == t,
    decreases t.len(),
{
    if t.len() > 0 {
        let rest = t.drop_last();
        assert forall|k: int| 0 <= k < rest.len() implies !is_white(#[trigger] rest[k]) by {
            assert(rest[k] == t[k]);
        }
        lemma_scan_word(rest);
        assert(!is_white(t[t.len() - 1]));
        assert(rest.push(t.last()) =~= t);
    } else {
        assert(t =~= Seq::<char>::empty());
    }
}

/// A text without whitespace is one word.
pub proof fn unbroken_texts_are_words(t: Seq<char>)
    requires
        t.len() > 0,
        forall|k: int| 0 <= k < t.len() ==> !is_white(#[trigger] t[k]),
    ensures
        words_of(t) == seq![t],
{
    lemma_scan_word(t);
    assert(words_of(t) =~= seq![t]);
}

/// Words joined by a blank are the words of what comes of it.
pub proof fn joined_words_are_kept(words: Seq<Seq<char>>)
    requires
        forall|i: int| 0 <= i < words.len() ==> (#[trigger] words[i]).len() > 0,
        forall|i: int, k: int|
            0 <= i < words.len() && 0 <= k < words[i].len() ==> !is_white(#[trigger] words[i][k]),
    ensures
        words_of(joined(words, seq![' '])) == words,
    decreases words.len(),
{
    if words.len() == 0 {
        assert(words_of(joined(words, seq![' '])) =~= words);
    } else {
        let rest = words.drop_last();
        let last = words.last();
        assert forall|i: int| 0 <= i < rest.len() implies (#[trigger] rest[i]).len() > 0 by {
            assert(rest[i] == words[i]);
        }
        assert forall|i: int, k: int|
            0 <= i < rest.len() && 0 <= k < rest[i].len() implies !is_white(
            #[trigger] rest[i][k],
        ) by {
            assert(rest[i][k] == words[i][k]);
        }
        joined_words_are_kept(rest);
        assert forall|k: int| 0 <= k < last.len() implies !is_white(#[trigger] last[k]) by {
            assert(last[k] == words[words.len() - 1][k]);
        }
        unbroken_texts_are_words(last);
        if rest.len() == 0 {
            assert(joined(words, seq![' ']) =~= last);
            assert(seq![last] =~= words);
        } else {
            let head = joined(rest, seq![' ']);
            assert(joined(words, seq![' ']) =~= head.push(' ') + last);
            white_parts_words(head, ' ', last);
            assert(rest + seq![last] =~= words);
        }
    }
}

/// Whitespace at the end of a text is no part of its words.
pub proof fn trailing_white_adds_no_word(s: Seq<char>)
    ensures
        words_of(trimmed_end(s)) == words_of(s),
    decreases s.len(),
{
    if s.len() > 0 && is_white(s.last()) {
        trailing_white_adds_no_word(s.drop_last());
    }
}

/// A piece cut in two parts the joined text there: what comes before the cut, and
/// what comes behind it.
pub proof fn lemma_joined_cut(
    a: Seq<Seq<char>>,
    x: Seq<char>,
    y: Seq<char>,
    b: Seq<Seq<char>>,
    sep: Seq<char>,
)
    ensures
        joined(a.push(x + y) + b, sep) == joined(a.push(x), sep) + joined(seq![y] + b, sep),
    decreases b.len(),
{
    let whole = a.push(x + y) + b;
    let back = seq![y] + b;
    if b.len() == 0 {
        assert(whole =~= a.push(x + y));
        assert(back =~= seq![y]);
        assert(whole.drop_last() =~= a);
        assert(a.push(x).drop_last() =~= a);
        assert(joined(back, sep) =~= y);
        assert(joined(whole, sep) =~= joined(a.push(x), sep) + y);
    } else {
        lemma_joined_cut(a, x, y, b.drop_last(), sep);
        assert(whole.drop_last() =~= a.push(x + y) + b.drop_last());
        assert(back.drop_last() =~= seq![y] + b.drop_last());
        assert(whole.last() == b.last());
        assert(back.last() == b.last());
        assert(joined(whole, sep) =~= joined(a.push(x), sep) + joined(back, sep));
    }
}

} // verus!
