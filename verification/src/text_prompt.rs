//! The prompt widget core: the render-style transform, the styled-line
//! composer, and the render pass that turns an edit state and a render
//! area into wrapped styled lines plus a screen cursor.

use vstd::prelude::*;

use crate::chars::push_char;
use crate::cursor::map_cursor;
use crate::cursor::spec_cursor_col;
use crate::cursor::spec_cursor_row;
use crate::rect::Rect;
use crate::status::Status;
use crate::status::symbol_style;
use crate::status::symbol_text;
use crate::style::Color;
use crate::style::RunView;
use crate::style::Style;
use crate::style::StyledLine;
use crate::style::StyledRun;
use crate::style::line_char_count;
use crate::style::line_text;
use crate::style::line_width;
use crate::style::lemma_line_text_take_step;
use crate::text_state::TextState;
use crate::text_state::TextStateView;
use crate::wrap::line_views;
use crate::wrap::spec_wrap;
use crate::wrap::wrap;

verus! {

/// How the edited value is presented on screen.
#[derive(Clone, Copy, Debug, PartialEq, Eq, Hash)]
pub enum TextRenderStyle {
    /// The value itself.
    Default,
    /// One mask character per character of the value, whatever the
    /// characters are.
    Password,
    /// Nothing, whatever the value's length.
    Invisible,
}

impl Default for TextRenderStyle {
    fn default() -> (r: TextRenderStyle)
        ensures
            r == TextRenderStyle::Default,
    {
        TextRenderStyle::Default
    }
}

/// The characters shown for a value under each presentation mode.
pub open spec fn spec_render_value(style: TextRenderStyle, value: Seq<char>) -> Seq<char> {
    match style {
        TextRenderStyle::Default => value,
        TextRenderStyle::Password => Seq::new(value.len(), |i: int| '*'),
        TextRenderStyle::Invisible => Seq::<char>::empty(),
    }
}

impl TextRenderStyle {
    /// The string actually displayed for the state's value: the value
    /// unchanged, one mask character per character, or nothing. The mask
    /// is per character, never per byte.
    pub fn render(&self, state: &TextState) -> (r: String)
        ensures
            r@ == spec_render_value(*self, state@.value),
    {
        match self {
            TextRenderStyle::Default => state.value().to_owned(),
            TextRenderStyle::Password => {
                let n = state.len();
                let mut masked = String::new();
                let mut i: usize = 0;
                while i < n
                    invariant
                        0 <= i <= n,
                        masked@ == Seq::new(i as nat, |j: int| '*'),
                    decreases n - i,
                {
                    push_char(&mut masked, '*');
                    proof {
                        assert(masked@ =~= Seq::new((i + 1) as nat, |j: int| '*'));
                    }
                    i = i + 1;
                }
                proof {
                    assert(masked@ =~= Seq::new(state@.value.len(), |j: int| '*'));
                }
                masked
            },
            TextRenderStyle::Invisible => String::new(),
        }
    }
}

/// The mathematical value of a prompt widget.
pub struct TextPromptView {
    pub message: Seq<char>,
    pub render_style: TextRenderStyle,
}

/// A prompt widget: a label shown before the input, and a presentation
/// mode for the input itself.
#[derive(Clone, Debug, PartialEq, Eq)]
pub struct TextPrompt {
    message: String,
    render_style: TextRenderStyle,
}

impl View for TextPrompt {
    type V = TextPromptView;

    closed spec fn view(&self) -> TextPromptView {
        TextPromptView { message: self.message@, render_style: self.render_style }
    }
}

/// The text of the separator drawn between the label and the value.
pub open spec fn separator_text() -> Seq<char> {
    seq![' ', '\u{203A}', ' ']
}

/// The decoration drawn before the value: the status glyph, a space, the
/// label in bold, and a dimmed separator.
pub open spec fn spec_prefix_runs(status: Status, message: Seq<char>) -> Seq<RunView> {
    seq![
        RunView { text: symbol_text(status), style: symbol_style(status) },
        RunView { text: seq![' '], style: Style { fg: Color::Reset, bold: false, dim: false } },
        RunView { text: message, style: Style { fg: Color::Reset, bold: true, dim: false } },
        RunView { text: separator_text(), style: Style { fg: Color::Cyan, bold: false, dim: true } },
    ]
}

/// The display-column width of the decoration prefix: the offset added to
/// the edit cursor's character position before cursor mapping.
pub open spec fn spec_prefix_width(status: Status, message: Seq<char>) -> nat {
    line_width(spec_prefix_runs(status, message))
}

/// The whole logical line: the decoration prefix followed by the shown
/// value in the plain style.
pub open spec fn spec_composed_line(status: Status, message: Seq<char>, shown: Seq<char>) -> Seq<
    RunView,
> {
    spec_prefix_runs(status, message).push(
        RunView { text: shown, style: Style { fg: Color::Reset, bold: false, dim: false } },
    )
}

/// A sequence cut down to at most its first `n` elements.
pub open spec fn take_at_most<A>(s: Seq<A>, n: int) -> Seq<A> {
    if s.len() <= n {
        s
    } else {
        s.take(n)
    }
}

impl TextPrompt {
    /// A prompt with the given label, shown in the default presentation.
    pub fn new(message: &str) -> (r: TextPrompt)
        ensures
            r@ == (TextPromptView { message: message@, render_style: TextRenderStyle::Default }),
    {
        TextPrompt { message: message.to_owned(), render_style: TextRenderStyle::Default }
    }

    pub fn with_render_style(self, render_style: TextRenderStyle) -> (r: TextPrompt)
        ensures
            r@ == (TextPromptView { render_style, ..self@ }),
    {
        let mut p = self;
        p.render_style = render_style;
        p
    }

    pub fn message(&self) -> (r: &str)
        ensures
            r@ == self@.message,
    {
        self.message.as_str()
    }

    pub fn render_style(&self) -> (r: TextRenderStyle)
        ensures
            r == self@.render_style,
    {
        self.render_style
    }

    /// One render pass: composes the styled line for the state, wraps it
    /// into the area's width, keeps no more rows than the area's height,
    /// and writes the mapped screen cursor back into the state. The state
    /// is otherwise unchanged. A degenerate area renders nothing and puts
    /// the cursor at the area's origin.
    pub fn render(&self, area: &Rect, state: &mut TextState) -> (lines: Vec<StyledLine>)
        requires
            (self@.message.len() + old(state)@.value.len() + 5) * 3 <= usize::MAX,
        ensures
            ({
                let shown = spec_render_value(self@.render_style, old(state)@.value);
                let runs = spec_composed_line(old(state)@.status, self@.message, shown);
                let w = area@.width as nat;
                let h = area@.height as nat;
                let logical = old(state)@.position + spec_prefix_width(
                    old(state)@.status,
                    self@.message,
                );
                &&& (w == 0 || h == 0) ==> lines@.len() == 0 && final(state)@ == (TextStateView {
                    cursor: (area@.x, area@.y),
                    ..old(state)@
                })
                &&& (w >= 1 && h >= 1) ==> line_views(lines@) == take_at_most(
                    spec_wrap(runs, w),
                    h as int,
                ) && final(state)@ == (TextStateView {
                    cursor: (
                        (area@.x + spec_cursor_col(logical, w, h)) as u16,
                        (area@.y + spec_cursor_row(logical, w, h)) as u16,
                    ),
                    ..old(state)@
                })
            }),
    {
        let w = area.width();
        let h = area.height();
        if w == 0 || h == 0 {
            state.set_cursor((area.x(), area.y()));
            return Vec::new();
        }
        let ghost message_seq = self@.message;
        let ghost value_seq = state@.value;
        let shown = self.render_style.render(state);
        let symbol = state.status().symbol();
        let mut line = StyledLine::new();
        proof {
            reveal_strlit(" ");
            reveal_strlit("\u{0020}\u{203A}\u{0020}");
            assert(" "@ =~= seq![' ']);
            assert("\u{0020}\u{203A}\u{0020}"@ =~= separator_text());
        }
        line.push_span(symbol);
        line.push_span(StyledRun::new(" ", Style::new()));
        line.push_span(StyledRun::new(self.message.as_str(), Style::new().bold()));
        line.push_span(StyledRun::new("\u{0020}\u{203A}\u{0020}", Style::new().fg(Color::Cyan).dim()));
        proof {
            assert(line@ =~= spec_prefix_runs(state@.status, message_seq));
            lemma_prefix_char_count(state@.status, message_seq);
        }
        let prefix_width = line.width();
        line.push_span(StyledRun::new(shown.as_str(), Style::new()));
        proof {
            assert(line@ =~= spec_composed_line(state@.status, message_seq, shown@));
            lemma_composed_char_count(state@.status, message_seq, shown@);
            assert(shown@.len() <= value_seq.len());
        }
        let mut lines = wrap(&line, w as usize);
        lines.truncate(h as usize);
        let logical = state.position().saturating_add(prefix_width);
        proof {
            let full = state@.position + spec_prefix_width(state@.status, message_seq);
            if full > usize::MAX {
                assert((w as int) * (h as int) <= 0xFFFF_FFFFint) by (nonlinear_arith)
                    requires
                        w <= 0xFFFFint,
                        h <= 0xFFFFint,
                ;
            }
        }
        let cursor = map_cursor(logical, area);
        state.set_cursor(cursor);
        proof {
            let spec_all = spec_wrap(
                spec_composed_line(old(state)@.status, message_seq, shown@),
                w as nat,
            );
            assert(line_views(lines@) =~= take_at_most(spec_all, h as int));
        }
        lines
    }
}

/// The decoration prefix holds the label's characters and five more.
proof fn lemma_prefix_char_count(status: Status, message: Seq<char>)
    ensures
        line_char_count(spec_prefix_runs(status, message)) == message.len() + 5,
{
    let runs = spec_prefix_runs(status, message);
    lemma_line_text_take_step(runs, 0);
    lemma_line_text_take_step(runs, 1);
    lemma_line_text_take_step(runs, 2);
    lemma_line_text_take_step(runs, 3);
    assert(runs.take(0int) =~= Seq::<RunView>::empty());
    assert(line_text(runs.take(0int)).len() == 0);
    assert(runs.take(4int) =~= runs);
}

/// The composed line holds the label, the shown value, and five more
/// characters.
proof fn lemma_composed_char_count(status: Status, message: Seq<char>, shown: Seq<char>)
    ensures
        line_char_count(spec_composed_line(status, message, shown)) == message.len() + shown.len()
            + 5,
{
    let prefix = spec_prefix_runs(status, message);
    let runs = spec_composed_line(status, message, shown);
    lemma_prefix_char_count(status, message);
    assert(runs.drop_last() =~= prefix);
    assert(runs.last() == (RunView {
        text: shown,
        style: Style { fg: Color::Reset, bold: false, dim: false },
    }));
}

impl Default for TextPrompt {
    fn default() -> (r: TextPrompt)
        ensures
            r@ == (TextPromptView {
                message: Seq::<char>::empty(),
                render_style: TextRenderStyle::Default,
            }),
    {
        TextPrompt { message: String::new(), render_style: TextRenderStyle::Default }
    }
}

impl From<&str> for TextPrompt {
    fn from(message: &str) -> (r: TextPrompt) {
        TextPrompt::new(message)
    }
}

impl vstd::std_specs::convert::FromSpecImpl<&str> for TextPrompt {
    open spec fn obeys_from_spec() -> bool {
        false
    }

    open spec fn from_spec(message: &str) -> TextPrompt {
        vstd::pervasive::arbitrary()
    }
}

} // verus!
