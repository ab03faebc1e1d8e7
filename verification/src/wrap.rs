//! The wrap engine: splits one logical styled line into an ordered
//! sequence of styled lines no wider than a column budget, splitting a
//! styled run at an arbitrary character offset while preserving its style.
//!
//! Splitting works at character granularity within the straddling run: a
//! character is taken onto the first half while the column budget is not
//! yet filled. A double-width glyph that straddles the exact cut point is
//! therefore carried onto the first half, which may then exceed the budget
//! by one column; this mirrors the documented behavior of the splitter and
//! is deliberately not special-cased.

use vstd::prelude::*;

use crate::style::RunView;
use crate::style::StyledLine;
use crate::style::StyledRun;
use crate::style::line_char_count;
use crate::style::line_text;
use crate::style::line_width;
use crate::style::lemma_line_text_concat;
use crate::style::lemma_line_text_singleton;
use crate::style::lemma_run_len_le_line;
use crate::width::all_narrow;
use crate::width::all_positive;
use crate::width::char_display_width;
use crate::width::exec_char_width;
use crate::width::lemma_positive_width_ge_len;
use crate::width::lemma_positive_width_nonempty;
use crate::width::lemma_seq_display_width_concat;
use crate::width::lemma_seq_display_width_singleton;
use crate::width::seq_display_width;

verus! {

/// The display width of one run's text.
pub open spec fn run_width(r: RunView) -> nat {
    seq_display_width(r.text)
}

/// How many characters of `text` go onto the first half when the run is
/// cut at column offset `mid`: characters are taken while the budget is
/// not yet filled, so the character that fills (or overshoots) the budget
/// is the last one taken.
pub open spec fn spec_take_cols(text: Seq<char>, mid: nat) -> nat
    decreases text.len(),
{
    if text.len() == 0 || mid == 0 {
        0
    } else {
        let w = char_display_width(text[0]);
        if w >= mid {
            1
        } else {
            1 + spec_take_cols(text.drop_first(), (mid - w) as nat)
        }
    }
}

/// Splits one run into two new runs at column offset `mid`, both keeping
/// the original style.
pub open spec fn spec_run_split(r: RunView, mid: nat) -> (RunView, RunView) {
    let k = spec_take_cols(r.text, mid) as int;
    (
        RunView { text: r.text.take(k), style: r.style },
        RunView { text: r.text.skip(k), style: r.style },
    )
}

/// Splits a line at column offset `mid`: a run that fits wholly within the
/// budget stays on the first line, the run straddling the cut is split in
/// two, and every following run goes to the second line.
pub open spec fn spec_line_split(runs: Seq<RunView>, mid: nat) -> (Seq<RunView>, Seq<RunView>)
    decreases runs.len(),
{
    if runs.len() == 0 {
        (Seq::<RunView>::empty(), Seq::<RunView>::empty())
    } else {
        let r = runs.first();
        let rw = run_width(r);
        if rw <= mid {
            let rest = spec_line_split(runs.drop_first(), (mid - rw) as nat);
            (seq![r] + rest.0, rest.1)
        } else if mid > 0 {
            let halves = spec_run_split(r, mid);
            (seq![halves.0], seq![halves.1] + runs.drop_first())
        } else {
            (Seq::<RunView>::empty(), runs)
        }
    }
}

pub proof fn lemma_take_cols_le_len(text: Seq<char>, mid: nat)
    ensures
        spec_take_cols(text, mid) <= text.len(),
    decreases text.len(),
{
    if text.len() > 0 && mid > 0 {
        let w = char_display_width(text[0]);
        if w < mid {
            lemma_take_cols_le_len(text.drop_first(), (mid - w) as nat);
        }
    }
}

/// Widths of the two halves of a cut text. The first half fills the budget
/// as far as characters allow: it never exceeds it when every character is
/// narrow, and it is never empty in width while the budget and the text's
/// width are positive.
pub proof fn lemma_take_cols_widths(text: Seq<char>, mid: nat)
    ensures
        all_narrow(text) ==> seq_display_width(text.take(spec_take_cols(text, mid) as int))
            <= mid,
        mid >= 1 && seq_display_width(text) > mid ==> seq_display_width(
            text.take(spec_take_cols(text, mid) as int),
        ) >= 1,
    decreases text.len(),
{
    if text.len() == 0 || mid == 0 {
        assert(text.take(0) =~= Seq::<char>::empty());
    } else {
        let w = char_display_width(text[0]);
        let k = spec_take_cols(text, mid) as int;
        lemma_take_cols_le_len(text, mid);
        if w >= mid {
            assert(text.take(1) =~= seq![text[0]]);
            lemma_seq_display_width_singleton(text[0]);
        } else {
            let rest = text.drop_first();
            let km = (mid - w) as nat;
            lemma_take_cols_widths(rest, km);
            lemma_take_cols_le_len(rest, km);
            let k2 = spec_take_cols(rest, km) as int;
            assert(text.take(k) =~= seq![text[0]] + rest.take(k2));
            lemma_seq_display_width_concat(seq![text[0]], rest.take(k2));
            lemma_seq_display_width_singleton(text[0]);
            if all_narrow(text) {
                assert(all_narrow(rest)) by {
                    assert(forall|i: int|
                        0 <= i < rest.len() ==> #[trigger] rest[i] == text[i + 1]);
                }
            }
            if mid >= 1 && seq_display_width(text) > mid {
                if w >= 1 {
                } else {
                    assert(text =~= seq![text[0]] + rest);
                    lemma_seq_display_width_concat(seq![text[0]], rest);
                }
            }
        }
    }
}

/// The two halves of a split line: their texts concatenate to the whole
/// line's text; the first half never exceeds the budget when every
/// character is narrow; and the first half has positive width whenever the
/// line was wider than a positive budget.
pub proof fn lemma_line_split_parts(runs: Seq<RunView>, mid: nat)
    ensures
        line_text(spec_line_split(runs, mid).0) + line_text(spec_line_split(runs, mid).1)
            == line_text(runs),
        all_narrow(line_text(runs)) ==> line_width(spec_line_split(runs, mid).0) <= mid,
        mid >= 1 && line_width(runs) > mid ==> line_width(spec_line_split(runs, mid).0) >= 1,
    decreases runs.len(),
{
    if runs.len() == 0 {
        assert(line_text(runs) =~= Seq::<char>::empty());
        assert(line_text(spec_line_split(runs, mid).0) + line_text(spec_line_split(runs, mid).1)
            =~= Seq::<char>::empty());
    } else {
        let r = runs.first();
        let rw = run_width(r);
        let rest = runs.drop_first();
        // The line's text decomposes as the first run's text, then the rest.
        assert(runs =~= seq![r] + rest);
        lemma_line_text_concat(seq![r], rest);
        lemma_line_text_singleton(r);
        lemma_seq_display_width_concat(r.text, line_text(rest));
        if rw <= mid {
            let sub = spec_line_split(rest, (mid - rw) as nat);
            lemma_line_split_parts(rest, (mid - rw) as nat);
            lemma_line_text_concat(seq![r], sub.0);
            assert(line_text(seq![r] + sub.0) =~= r.text + line_text(sub.0));
            assert(line_text(seq![r] + sub.0) + line_text(sub.1) =~= r.text + (line_text(sub.0)
                + line_text(sub.1)));
            lemma_seq_display_width_concat(r.text, line_text(sub.0));
            if all_narrow(line_text(runs)) {
                assert(all_narrow(line_text(rest))) by {
                    let whole = line_text(runs);
                    let tail = line_text(rest);
                    assert(forall|i: int|
                        0 <= i < tail.len() ==> #[trigger] tail[i] == whole[r.text.len() + i]);
                }
            }
            if mid >= 1 && line_width(runs) > mid {
                if rw >= 1 {
                } else {
                    assert(line_width(rest) > mid - rw);
                }
            }
        } else if mid > 0 {
            let halves = spec_run_split(r, mid);
            let k = spec_take_cols(r.text, mid) as int;
            lemma_take_cols_le_len(r.text, mid);
            lemma_take_cols_widths(r.text, mid);
            lemma_line_text_singleton(halves.0);
            lemma_line_text_concat(seq![halves.1], rest);
            lemma_line_text_singleton(halves.1);
            assert(r.text.take(k) + (r.text.skip(k) + line_text(rest)) =~= r.text + line_text(
                rest,
            ));
            if all_narrow(line_text(runs)) {
                assert(all_narrow(r.text)) by {
                    let whole = line_text(runs);
                    assert(forall|i: int|
                        0 <= i < r.text.len() ==> #[trigger] r.text[i] == whole[i]);
                }
            }
        } else {
            assert(line_text(spec_line_split(runs, mid).0) =~= Seq::<char>::empty());
            assert(line_text(spec_line_split(runs, mid).0) + line_text(runs) =~= line_text(runs));
        }
    }
}

/// The wrapped form of a line under a positive column budget `w`: while
/// the remainder is wider than `w` it is split at `w` and the first half
/// is emitted; a final remainder of positive width is emitted whole; a
/// zero-width remainder is dropped without emitting an empty line.
pub open spec fn spec_wrap(runs: Seq<RunView>, w: nat) -> Seq<Seq<RunView>>
    decreases line_char_count(runs),
    when w >= 1
{
    if line_width(runs) > w {
        let parts = spec_line_split(runs, w);
        proof {
            lemma_line_split_parts(runs, w);
            lemma_positive_width_nonempty(line_text(parts.0));
        }
        seq![parts.0] + spec_wrap(parts.1, w)
    } else if line_width(runs) > 0 {
        seq![runs]
    } else {
        Seq::<Seq<RunView>>::empty()
    }
}

/// The concatenated text of a sequence of wrapped lines.
pub open spec fn lines_text(lines: Seq<Seq<RunView>>) -> Seq<char>
    decreases lines.len(),
{
    if lines.len() == 0 {
        Seq::<char>::empty()
    } else {
        lines_text(lines.drop_last()) + line_text(lines.last())
    }
}

pub proof fn lemma_lines_text_concat(a: Seq<Seq<RunView>>, b: Seq<Seq<RunView>>)
    ensures
        lines_text(a + b) == lines_text(a) + lines_text(b),
    decreases b.len(),
{
    if b.len() == 0 {
        assert(a + b =~= a);
        assert(lines_text(a) + lines_text(b) =~= lines_text(a));
    } else {
        lemma_lines_text_concat(a, b.drop_last());
        assert((a + b).drop_last() =~= a + b.drop_last());
        assert((a + b).last() == b.last());
        assert(lines_text(a) + lines_text(b.drop_last()) + line_text(b.last()) =~= lines_text(a)
            + (lines_text(b.drop_last()) + line_text(b.last())));
    }
}

pub proof fn lemma_lines_text_singleton(l: Seq<RunView>)
    ensures
        lines_text(seq![l]) == line_text(l),
{
    assert(seq![l].drop_last() =~= Seq::<Seq<RunView>>::empty());
    assert(seq![l].last() == l);
    assert(lines_text(Seq::<Seq<RunView>>::empty()) + line_text(l) =~= line_text(l));
}

/// Wrap completeness: under any positive budget, when every character of
/// the line occupies at least one column, the texts of the wrapped lines
/// concatenate to exactly the input line's text. Unconditionally, a line
/// of zero width produces no output, every wrapped line has positive
/// width, and when every character is at most one column wide, no wrapped
/// line is wider than the budget.
pub proof fn lemma_wrap_complete(runs: Seq<RunView>, w: nat)
    requires
        w >= 1,
    ensures
        all_positive(line_text(runs)) ==> lines_text(spec_wrap(runs, w)) == line_text(runs),
        line_width(runs) == 0 ==> spec_wrap(runs, w) == Seq::<Seq<RunView>>::empty(),
        forall|i: int|
            0 <= i < spec_wrap(runs, w).len() ==> line_width(
                #[trigger] spec_wrap(runs, w)[i],
            ) > 0,
        all_narrow(line_text(runs)) ==> forall|i: int|
            0 <= i < spec_wrap(runs, w).len() ==> line_width(#[trigger] spec_wrap(runs, w)[i])
                <= w,
    decreases line_char_count(runs),
{
    if line_width(runs) > w {
        let parts = spec_line_split(runs, w);
        lemma_line_split_parts(runs, w);
        lemma_positive_width_nonempty(line_text(parts.0));
        lemma_wrap_complete(parts.1, w);
        lemma_seq_display_width_concat(line_text(parts.0), line_text(parts.1));
        let head = seq![parts.0];
        let tail = spec_wrap(parts.1, w);
        lemma_lines_text_concat(head, tail);
        lemma_lines_text_singleton(parts.0);
        let whole = line_text(runs);
        let t1 = line_text(parts.1);
        let off = line_text(parts.0).len();
        if all_positive(whole) {
            assert(all_positive(t1)) by {
                assert(forall|i: int| 0 <= i < t1.len() ==> #[trigger] t1[i] == whole[off + i]);
            }
            assert(lines_text(head + tail) =~= line_text(parts.0) + line_text(parts.1));
        }
        if all_narrow(whole) {
            assert(all_narrow(t1)) by {
                assert(forall|i: int| 0 <= i < t1.len() ==> #[trigger] t1[i] == whole[off + i]);
            }
        }
        assert(forall|i: int|
            0 <= i < spec_wrap(runs, w).len() ==> line_width(
                #[trigger] spec_wrap(runs, w)[i],
            ) > 0) by {
            assert(forall|i: int|
                1 <= i < head.len() + tail.len() ==> (head + tail)[i] == tail[i - 1]);
        }
        if all_narrow(whole) {
            assert(forall|i: int|
                0 <= i < spec_wrap(runs, w).len() ==> line_width(#[trigger] spec_wrap(runs, w)[i])
                    <= w) by {
                assert(forall|i: int|
                    1 <= i < head.len() + tail.len() ==> (head + tail)[i] == tail[i - 1]);
            }
        }
    } else if line_width(runs) > 0 {
        lemma_lines_text_singleton(runs);
    } else {
        if all_positive(line_text(runs)) {
            lemma_positive_width_ge_len(line_text(runs));
            assert(line_text(runs) =~= Seq::<char>::empty());
        }
    }
}

/// How many characters of `s` go onto the first half when it is cut at
/// column offset `mid`.
fn take_cols(s: &str, mid: usize) -> (k: usize)
    requires
        1 <= mid,
    ensures
        k as nat == spec_take_cols(s@, mid as nat),
        k <= s@.len(),
{
    let ghost text = s@;
    let n = s.unicode_len();
    let mut i: usize = 0;
    let mut rem: usize = mid;
    proof {
        assert(text.skip(0int) =~= text);
        lemma_take_cols_le_len(text, mid as nat);
    }
    while i < n
        invariant
            0 <= i <= n,
            n == text.len(),
            text == s@,
            1 <= rem <= mid,
            spec_take_cols(text, mid as nat) == i + spec_take_cols(
                text.skip(i as int),
                rem as nat,
            ),
            spec_take_cols(text, mid as nat) <= n,
        decreases n - i,
    {
        let c = s.get_char(i);
        let w = exec_char_width(c);
        proof {
            assert(text.skip(i as int).len() > 0);
            assert(text.skip(i as int)[0] == text[i as int]);
        }
        if w >= rem {
            proof {
                assert(spec_take_cols(text.skip(i as int), rem as nat) == 1);
            }
            return i + 1;
        }
        proof {
            assert(text.skip(i as int).drop_first() =~= text.skip(i + 1));
        }
        rem = rem - w;
        i = i + 1;
    }
    proof {
        assert(text.skip(n as int) =~= Seq::<char>::empty());
    }
    n
}

/// Splits one run into two new runs at column offset `mid`, both keeping
/// the run's style.
pub fn span_split_at(span: &StyledRun, mid: usize) -> (r: (StyledRun, StyledRun))
    requires
        1 <= mid,
    ensures
        r.0@ == spec_run_split(span@, mid as nat).0,
        r.1@ == spec_run_split(span@, mid as nat).1,
{
    let ghost text = span.content@;
    let k = take_cols(span.content.as_str(), mid);
    let n = span.content.as_str().unicode_len();
    let first = span.content.as_str().substring_char(0, k);
    let second = span.content.as_str().substring_char(k, n);
    proof {
        assert(text.subrange(0, k as int) =~= text.take(k as int));
        assert(text.subrange(k as int, n as int) =~= text.skip(k as int));
    }
    (
        StyledRun { content: first.to_owned(), style: span.style },
        StyledRun { content: second.to_owned(), style: span.style },
    )
}

/// Splits a line into two lines at column offset `mid`: runs that fit
/// wholly within the budget stay on the first line, the straddling run is
/// split in two, and every following run goes to the second line.
pub fn line_split_at(line: &StyledLine, mid: usize) -> (r: (StyledLine, StyledLine))
    requires
        line_char_count(line@) * 3 <= usize::MAX,
    ensures
        r.0@ == spec_line_split(line@, mid as nat).0,
        r.1@ == spec_line_split(line@, mid as nat).1,
{
    let ghost runs = line@;
    let n = line.spans.len();
    let mut first = StyledLine::new();
    let mut second = StyledLine::new();
    let mut rem: usize = mid;
    let mut split_done = false;
    let mut i: usize = 0;
    proof {
        assert(runs.skip(0int) =~= runs);
    }
    while i < n
        invariant
            0 <= i <= n,
            n == line.spans.len(),
            runs == line@,
            runs.len() == n,
            line_char_count(runs) * 3 <= usize::MAX,
            !split_done ==> second@ == Seq::<RunView>::empty(),
            !split_done ==> spec_line_split(runs, mid as nat).0 == first@ + spec_line_split(
                runs.skip(i as int),
                rem as nat,
            ).0,
            !split_done ==> spec_line_split(runs, mid as nat).1 == spec_line_split(
                runs.skip(i as int),
                rem as nat,
            ).1,
            split_done ==> spec_line_split(runs, mid as nat).0 == first@,
            split_done ==> spec_line_split(runs, mid as nat).1 == second@ + runs.skip(i as int),
        decreases n - i,
    {
        proof {
            lemma_run_len_le_line(runs, i as int);
            assert(runs[i as int] == line.spans@[i as int]@);
            assert(runs.skip(i as int).len() > 0);
            assert(runs.skip(i as int).first() == runs[i as int]);
            assert(runs.skip(i as int).drop_first() =~= runs.skip(i + 1));
        }
        let rw = line.spans[i].width();
        if !split_done && rw <= rem {
            let ghost sub = spec_line_split(runs.skip(i + 1), (rem - rw) as nat);
            proof {
                assert(spec_line_split(runs.skip(i as int), rem as nat).0 == seq![
                    runs[i as int],
                ] + sub.0);
                assert(first@.push(runs[i as int]) =~= first@ + seq![runs[i as int]]);
                assert((first@ + seq![runs[i as int]]) + sub.0 =~= first@ + (seq![
                    runs[i as int],
                ] + sub.0));
            }
            first.push_span(line.spans[i].duplicate());
            rem = rem - rw;
        } else if !split_done && rem > 0 {
            let halves = span_split_at(&line.spans[i], rem);
            let ghost h = spec_run_split(runs[i as int], rem as nat);
            proof {
                assert(first@.push(h.0) =~= first@ + seq![h.0]);
                assert(Seq::<RunView>::empty().push(h.1) =~= seq![h.1]);
                assert((first@ + seq![h.0]) =~= first@ + spec_line_split(
                    runs.skip(i as int),
                    rem as nat,
                ).0);
            }
            first.push_span(halves.0);
            second.push_span(halves.1);
            split_done = true;
        } else {
            proof {
                if !split_done {
                    assert(first@ + Seq::<RunView>::empty() =~= first@);
                }
                assert(second@.push(runs[i as int]) + runs.skip(i + 1) =~= second@ + runs.skip(
                    i as int,
                ));
            }
            second.push_span(line.spans[i].duplicate());
            split_done = true;
        }
        i = i + 1;
    }
    proof {
        assert(runs.skip(n as int) =~= Seq::<RunView>::empty());
        if !split_done {
            assert(first@ + Seq::<RunView>::empty() =~= first@);
        } else {
            assert(second@ + Seq::<RunView>::empty() =~= second@);
        }
    }
    (first, second)
}

/// The sequence of views of a sequence of lines.
pub open spec fn line_views(lines: Seq<StyledLine>) -> Seq<Seq<RunView>> {
    lines.map_values(|l: StyledLine| l@)
}

/// Wraps one logical line into the ordered sequence of lines the column
/// budget `width` allows, splitting styled runs at character boundaries
/// while preserving per-run style.
pub fn wrap(line: &StyledLine, width: usize) -> (r: Vec<StyledLine>)
    requires
        width >= 1,
        line_char_count(line@) * 3 <= usize::MAX,
    ensures
        line_views(r@) == spec_wrap(line@, width as nat),
{
    let mut out: Vec<StyledLine> = Vec::new();
    let mut cur = line.duplicate();
    let mut cw = cur.width();
    proof {
        assert(line_views(out@) =~= Seq::<Seq<RunView>>::empty());
        assert(line_views(out@) + spec_wrap(cur@, width as nat) =~= spec_wrap(
            line@,
            width as nat,
        ));
    }
    while cw > width
        invariant
            width >= 1,
            cw == line_width(cur@),
            line_char_count(cur@) * 3 <= usize::MAX,
            line_views(out@) + spec_wrap(cur@, width as nat) == spec_wrap(line@, width as nat),
        decreases line_char_count(cur@),
    {
        let ghost prev = cur@;
        let parts = line_split_at(&cur, width);
        proof {
            lemma_line_split_parts(prev, width as nat);
            lemma_positive_width_nonempty(line_text(spec_line_split(prev, width as nat).0));
            assert(line_views(out@.push(parts.0)) =~= line_views(out@).push(parts.0@));
            assert((line_views(out@) + seq![parts.0@]) + spec_wrap(parts.1@, width as nat) =~= line_views(
                out@,
            ) + (seq![parts.0@] + spec_wrap(parts.1@, width as nat)));
            assert(line_views(out@).push(parts.0@) =~= line_views(out@) + seq![parts.0@]);
        }
        out.push(parts.0);
        cur = parts.1;
        cw = cur.width();
    }
    if cw > 0 {
        proof {
            assert(line_views(out@.push(cur)) =~= line_views(out@).push(cur@));
            assert(line_views(out@).push(cur@) =~= line_views(out@) + seq![cur@]);
        }
        out.push(cur);
    } else {
        proof {
            assert(line_views(out@) + Seq::<Seq<RunView>>::empty() =~= line_views(out@));
        }
    }
    out
}

} // verus!
