//! The lifecycle of a prompt: pending, or finished by completion or abort.

use vstd::prelude::*;

use crate::style::Color;
use crate::style::RunView;
use crate::style::Style;
use crate::style::StyledRun;

verus! {

/// The result of a prompt.
#[derive(Clone, Copy, Debug, PartialEq, Eq, Hash, Structural)]
pub enum Status {
    Pending,
    Aborted,
    Done,
}

/// A prompt is finished once it was completed or aborted.
pub open spec fn spec_is_finished(s: Status) -> bool {
    s is Aborted || s is Done
}

/// The characters of the glyph that marks each status.
pub open spec fn symbol_text(s: Status) -> Seq<char> {
    match s {
        Status::Pending => seq!['?'],
        Status::Aborted => seq!['\u{2718}'],
        Status::Done => seq!['\u{2714}'],
    }
}

/// The style of the glyph that marks each status.
pub open spec fn symbol_style(s: Status) -> Style {
    match s {
        Status::Pending => Style { fg: Color::Cyan, bold: false, dim: false },
        Status::Aborted => Style { fg: Color::Red, bold: false, dim: false },
        Status::Done => Style { fg: Color::Green, bold: false, dim: false },
    }
}

impl Status {
    pub fn is_pending(&self) -> (r: bool)
        ensures
            r == (*self is Pending),
    {
        matches!(self, Status::Pending)
    }

    pub fn is_aborted(&self) -> (r: bool)
        ensures
            r == (*self is Aborted),
    {
        matches!(self, Status::Aborted)
    }

    pub fn is_done(&self) -> (r: bool)
        ensures
            r == (*self is Done),
    {
        matches!(self, Status::Done)
    }

    pub fn is_finished(&self) -> (r: bool)
        ensures
            r == spec_is_finished(*self),
    {
        matches!(self, Status::Done | Status::Aborted)
    }

    /// The styled glyph that marks this status in front of the label.
    pub fn symbol(&self) -> (r: StyledRun)
        ensures
            r@ == (RunView { text: symbol_text(*self), style: symbol_style(*self) }),
    {
        let symbols = Symbols::default();
        match self {
            Status::Pending => symbols.pending,
            Status::Aborted => symbols.aborted,
            Status::Done => symbols.done,
        }
    }
}

impl Default for Status {
    fn default() -> (r: Status)
        ensures
            r == Status::Pending,
    {
        Status::Pending
    }
}

/// The set of glyphs used to mark the three statuses.
#[derive(Clone, Debug, PartialEq, Eq)]
pub struct Symbols {
    pub pending: StyledRun,
    pub aborted: StyledRun,
    pub done: StyledRun,
}

impl Default for Symbols {
    fn default() -> (r: Symbols)
        ensures
            r.pending@ == (RunView {
                text: symbol_text(Status::Pending),
                style: symbol_style(Status::Pending),
            }),
            r.aborted@ == (RunView {
                text: symbol_text(Status::Aborted),
                style: symbol_style(Status::Aborted),
            }),
            r.done@ == (RunView {
                text: symbol_text(Status::Done),
                style: symbol_style(Status::Done),
            }),
    {
        proof {
            reveal_strlit("?");
            reveal_strlit("\u{2718}");
            reveal_strlit("\u{2714}");
            assert("?"@ =~= symbol_text(Status::Pending));
            assert("\u{2718}"@ =~= symbol_text(Status::Aborted));
            assert("\u{2714}"@ =~= symbol_text(Status::Done));
        }
        Symbols {
            pending: StyledRun::new("?", Style::new().fg(Color::Cyan)),
            aborted: StyledRun::new("\u{2718}", Style::new().fg(Color::Red)),
            done: StyledRun::new("\u{2714}", Style::new().fg(Color::Green)),
        }
    }
}

} // verus!
