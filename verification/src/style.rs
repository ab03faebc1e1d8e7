//! Styled text: a run of characters sharing one visual style, and a line
//! made of an ordered sequence of such runs.

use vstd::prelude::*;

use crate::width::char_display_width;
use crate::width::lemma_seq_display_width_concat;
use crate::width::seq_display_width;
use crate::width::str_display_width;

verus! {

/// The colors this crate's decorations use. `Reset` stands for the
/// terminal's own default color.
#[derive(Clone, Copy, Debug, PartialEq, Eq, Hash, Structural)]
pub enum Color {
    Reset,
    Cyan,
    Red,
    Green,
}

/// A visual style: a foreground color plus emphasis flags.
#[derive(Clone, Copy, Debug, PartialEq, Eq, Hash, Structural)]
pub struct Style {
    pub fg: Color,
    pub bold: bool,
    pub dim: bool,
}

impl Style {
    /// The plain style: default color, no emphasis.
    pub fn new() -> (s: Style)
        ensures
            s == (Style { fg: Color::Reset, bold: false, dim: false }),
    {
        Style { fg: Color::Reset, bold: false, dim: false }
    }

    pub fn fg(self, color: Color) -> (s: Style)
        ensures
            s == (Style { fg: color, ..self }),
    {
        Style { fg: color, ..self }
    }

    pub fn bold(self) -> (s: Style)
        ensures
            s == (Style { bold: true, ..self }),
    {
        Style { bold: true, ..self }
    }

    pub fn dim(self) -> (s: Style)
        ensures
            s == (Style { dim: true, ..self }),
    {
        Style { dim: true, ..self }
    }
}

impl Default for Style {
    fn default() -> (s: Style)
        ensures
            s == (Style { fg: Color::Reset, bold: false, dim: false }),
    {
        Style { fg: Color::Reset, bold: false, dim: false }
    }
}

/// The mathematical value of a styled run: its characters and its style.
pub struct RunView {
    pub text: Seq<char>,
    pub style: Style,
}

/// A contiguous piece of text sharing one style. Runs are never edited in
/// place; the wrap engine only splits one into two new runs.
#[derive(Clone, Debug, PartialEq, Eq)]
pub struct StyledRun {
    pub content: String,
    pub style: Style,
}

impl View for StyledRun {
    type V = RunView;

    open spec fn view(&self) -> RunView {
        RunView { text: self.content@, style: self.style }
    }
}

impl StyledRun {
    pub fn new(content: &str, style: Style) -> (r: StyledRun)
        ensures
            r@ == (RunView { text: content@, style }),
    {
        StyledRun { content: content.to_owned(), style }
    }

    /// An identical new run.
    pub fn duplicate(&self) -> (r: StyledRun)
        ensures
            r@ == self@,
    {
        StyledRun { content: self.content.clone(), style: self.style }
    }

    /// The display width of this run's text.
    pub fn width(&self) -> (w: usize)
        requires
            self.content@.len() * 3 <= usize::MAX,
        ensures
            w == seq_display_width(self@.text),
            w <= self.content@.len() * 3,
    {
        str_display_width(self.content.as_str())
    }
}

/// The text of a line: the concatenation of its runs' characters.
pub open spec fn line_text(runs: Seq<RunView>) -> Seq<char>
    decreases runs.len(),
{
    if runs.len() == 0 {
        Seq::empty()
    } else {
        line_text(runs.drop_last()) + runs.last().text
    }
}

/// The display width of a line: the width of its concatenated text.
pub open spec fn line_width(runs: Seq<RunView>) -> nat {
    seq_display_width(line_text(runs))
}

/// The number of characters on a line.
pub open spec fn line_char_count(runs: Seq<RunView>) -> nat {
    line_text(runs).len()
}

pub proof fn lemma_line_text_take_step(runs: Seq<RunView>, i: int)
    requires
        0 <= i < runs.len(),
    ensures
        line_text(runs.take(i + 1)) == line_text(runs.take(i)) + runs[i].text,
{
    assert(runs.take(i + 1).drop_last() =~= runs.take(i));
    assert(runs.take(i + 1).last() == runs[i]);
}

pub proof fn lemma_line_text_singleton(r: RunView)
    ensures
        line_text(seq![r]) == r.text,
{
    assert(seq![r].drop_last() =~= Seq::<RunView>::empty());
    assert(seq![r].last() == r);
    assert(line_text(Seq::<RunView>::empty()) + r.text =~= r.text);
}

pub proof fn lemma_line_text_concat(a: Seq<RunView>, b: Seq<RunView>)
    ensures
        line_text(a + b) == line_text(a) + line_text(b),
    decreases b.len(),
{
    if b.len() == 0 {
        assert(a + b =~= a);
        assert(line_text(a) + line_text(b) =~= line_text(a));
    } else {
        lemma_line_text_concat(a, b.drop_last());
        assert((a + b).drop_last() =~= a + b.drop_last());
        assert((a + b).last() == b.last());
        assert(line_text(a) + line_text(b.drop_last()) + b.last().text =~= line_text(a) + (
        line_text(b.drop_last()) + b.last().text));
    }
}

/// No single run holds more characters than its whole line.
pub proof fn lemma_run_len_le_line(runs: Seq<RunView>, i: int)
    requires
        0 <= i < runs.len(),
    ensures
        runs[i].text.len() <= line_char_count(runs),
{
    lemma_line_text_take_step(runs, i);
    lemma_line_text_concat(runs.take(i + 1), runs.skip(i + 1));
    assert(runs.take(i + 1) + runs.skip(i + 1) =~= runs);
}

/// An ordered sequence of styled runs, representing one row of output.
#[derive(Clone, Debug, PartialEq, Eq)]
pub struct StyledLine {
    pub spans: Vec<StyledRun>,
}

impl View for StyledLine {
    type V = Seq<RunView>;

    open spec fn view(&self) -> Seq<RunView> {
        self.spans@.map_values(|r: StyledRun| r@)
    }
}

impl StyledLine {
    pub fn new() -> (l: StyledLine)
        ensures
            l@ =~= Seq::<RunView>::empty(),
    {
        StyledLine { spans: Vec::new() }
    }

    pub fn from_spans(spans: Vec<StyledRun>) -> (l: StyledLine)
        ensures
            l@ == spans@.map_values(|r: StyledRun| r@),
    {
        StyledLine { spans }
    }

    pub fn push_span(&mut self, run: StyledRun)
        ensures
            final(self)@ =~= old(self)@.push(run@),
    {
        proof {
            assert(old(self).spans@.push(run).map_values(|r: StyledRun| r@) =~= old(
                self,
            ).spans@.map_values(|r: StyledRun| r@).push(run@));
        }
        self.spans.push(run);
    }

    /// The display width of the whole line.
    pub fn width(&self) -> (w: usize)
        requires
            line_char_count(self@) * 3 <= usize::MAX,
        ensures
            w == line_width(self@),
            w <= line_char_count(self@) * 3,
    {
        let ghost runs = self@;
        let n = self.spans.len();
        let mut w: usize = 0;
        let mut i: usize = 0;
        proof {
            assert(line_text(runs.take(0int)) =~= Seq::<char>::empty());
        }
        while i < n
            invariant
                0 <= i <= n,
                n == self.spans.len(),
                runs == self@,
                runs.len() == n,
                line_char_count(runs) * 3 <= usize::MAX,
                w == seq_display_width(line_text(runs.take(i as int))),
                w <= line_text(runs.take(i as int)).len() * 3,
                line_text(runs.take(i as int)).len() <= line_char_count(runs),
            decreases n - i,
        {
            proof {
                lemma_line_text_take_step(runs, i as int);
                assert(runs.take(n as int) =~= runs);
                lemma_line_text_concat(runs.take(i as int), runs.skip(i as int));
                assert(runs.take(i as int) + runs.skip(i as int) =~= runs);
                assert(runs[i as int] == self.spans@[i as int]@);
                lemma_line_text_concat(runs.take(i + 1), runs.skip(i + 1));
                assert(runs.take(i + 1) + runs.skip(i + 1) =~= runs);
                lemma_seq_display_width_concat(
                    line_text(runs.take(i as int)),
                    runs[i as int].text,
                );
            }
            let rw = self.spans[i].width();
            w = w + rw;
            i = i + 1;
        }
        proof {
            assert(runs.take(n as int) =~= runs);
        }
        w
    }

    /// An identical new line.
    pub fn duplicate(&self) -> (r: StyledLine)
        ensures
            r@ == self@,
    {
        let n = self.spans.len();
        let mut spans: Vec<StyledRun> = Vec::new();
        let mut i: usize = 0;
        proof {
            assert(spans@.map_values(|r: StyledRun| r@) =~= self@.take(0int));
        }
        while i < n
            invariant
                0 <= i <= n,
                n == self.spans.len(),
                spans@.map_values(|r: StyledRun| r@) == self@.take(i as int),
            decreases n - i,
        {
            let run = self.spans[i].duplicate();
            proof {
                assert(spans@.push(run).map_values(|r: StyledRun| r@) =~= spans@.map_values(
                    |r: StyledRun| r@,
                ).push(run@));
                assert(self@[i as int] == self.spans@[i as int]@);
                assert(self@.take(i as int).push(self@[i as int]) =~= self@.take(i + 1));
            }
            spans.push(run);
            i = i + 1;
        }
        proof {
            assert(self@.take(n as int) =~= self@);
        }
        StyledLine { spans }
    }

    /// The text of the line as one string.
    pub fn text(&self) -> (t: String)
        ensures
            t@ == line_text(self@),
    {
        let ghost runs = self@;
        let n = self.spans.len();
        let mut t = String::new();
        let mut i: usize = 0;
        proof {
            assert(line_text(runs.take(0int)) =~= Seq::<char>::empty());
        }
        while i < n
            invariant
                0 <= i <= n,
                n == self.spans.len(),
                runs == self@,
                runs.len() == n,
                t@ == line_text(runs.take(i as int)),
            decreases n - i,
        {
            proof {
                lemma_line_text_take_step(runs, i as int);
                assert(runs[i as int] == self.spans@[i as int]@);
            }
            t.append(self.spans[i].content.as_str());
            i = i + 1;
        }
        proof {
            assert(runs.take(n as int) =~= runs);
        }
        t
    }
}

} // verus!
