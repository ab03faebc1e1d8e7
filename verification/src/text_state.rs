//! The text-editing state machine: a value, a character-level cursor
//! position, a focus flag, a lifecycle status, and the last computed screen
//! cursor.
//!
//! Every editing operation indexes the value in character units, never in
//! bytes, so multi-byte characters are never torn apart. Invalid operations
//! (backspace at the start, delete at the end) are no-ops rather than
//! failures, and a finished prompt no longer changes its value or position.

use vstd::prelude::*;

use crate::chars::push_char;
use crate::key::KeyCode;
use crate::key::KeyEvent;
use crate::key::KeyEventKind;
use crate::key::KeyModifiers;
use crate::status::Status;
use crate::status::spec_is_finished;

verus! {

/// The focus state of a prompt.
#[derive(Clone, Copy, Debug, PartialEq, Eq, Hash, Structural)]
pub enum FocusState {
    Unfocused,
    Focused,
}

impl Default for FocusState {
    fn default() -> (r: FocusState)
        ensures
            r == FocusState::Unfocused,
    {
        FocusState::Unfocused
    }
}

/// The mathematical value of an edit state.
pub struct TextStateView {
    pub status: Status,
    pub focus: FocusState,
    pub position: nat,
    pub cursor: (u16, u16),
    pub value: Seq<char>,
}

impl TextStateView {
    /// The cursor position never passes the end of the value.
    pub open spec fn wf(self) -> bool {
        self.position <= self.value.len()
    }
}

/// A position increment that sticks at the machine's largest index instead
/// of wrapping around.
pub open spec fn sat_inc(p: nat) -> nat {
    if p + 1 <= usize::MAX {
        p + 1
    } else {
        p
    }
}

/// Inserts `c` at the cursor and advances the cursor; frozen once finished.
pub open spec fn spec_push(s: TextStateView, c: char) -> TextStateView {
    if spec_is_finished(s.status) {
        s
    } else {
        TextStateView {
            value: s.value.insert(s.position as int, c),
            position: sat_inc(s.position),
            ..s
        }
    }
}

/// Removes the character before the cursor and moves the cursor back; a
/// no-op at the start of the value or once finished.
pub open spec fn spec_backspace(s: TextStateView) -> TextStateView {
    if spec_is_finished(s.status) || s.position == 0 {
        s
    } else {
        TextStateView {
            value: s.value.remove(s.position - 1),
            position: (s.position - 1) as nat,
            ..s
        }
    }
}

/// Removes the character under the cursor; a no-op at the end of the value
/// or once finished.
pub open spec fn spec_delete(s: TextStateView) -> TextStateView {
    if spec_is_finished(s.status) || s.position >= s.value.len() {
        s
    } else {
        TextStateView { value: s.value.remove(s.position as int), ..s }
    }
}

pub open spec fn spec_move_left(s: TextStateView) -> TextStateView {
    if spec_is_finished(s.status) || s.position == 0 {
        s
    } else {
        TextStateView { position: (s.position - 1) as nat, ..s }
    }
}

pub open spec fn spec_move_right(s: TextStateView) -> TextStateView {
    if spec_is_finished(s.status) || s.position >= s.value.len() {
        s
    } else {
        TextStateView { position: s.position + 1, ..s }
    }
}

pub open spec fn spec_move_start(s: TextStateView) -> TextStateView {
    if spec_is_finished(s.status) {
        s
    } else {
        TextStateView { position: 0, ..s }
    }
}

pub open spec fn spec_move_end(s: TextStateView) -> TextStateView {
    if spec_is_finished(s.status) {
        s
    } else {
        TextStateView { position: s.value.len(), ..s }
    }
}

/// Truncates the value to the characters before the cursor.
pub open spec fn spec_kill(s: TextStateView) -> TextStateView {
    if spec_is_finished(s.status) {
        s
    } else {
        TextStateView { value: s.value.take(s.position as int), ..s }
    }
}

/// Clears the value and rewinds the cursor.
pub open spec fn spec_truncate(s: TextStateView) -> TextStateView {
    if spec_is_finished(s.status) {
        s
    } else {
        TextStateView { value: Seq::empty(), position: 0, ..s }
    }
}

pub open spec fn spec_complete(s: TextStateView) -> TextStateView {
    TextStateView { status: Status::Done, ..s }
}

pub open spec fn spec_abort(s: TextStateView) -> TextStateView {
    TextStateView { status: Status::Aborted, ..s }
}

/// The dispatch table from one key notification to one editing operation.
/// Release notifications are ignored entirely.
pub open spec fn spec_handle_key(s: TextStateView, e: KeyEvent) -> TextStateView {
    if e.kind is Release {
        s
    } else {
        match (e.code, e.modifiers) {
            (KeyCode::Enter, _) => spec_complete(s),
            (KeyCode::Esc, _) => spec_abort(s),
            (KeyCode::Char('c'), KeyModifiers::Control) => spec_abort(s),
            (KeyCode::Left, _) => spec_move_left(s),
            (KeyCode::Char('b'), KeyModifiers::Control) => spec_move_left(s),
            (KeyCode::Right, _) => spec_move_right(s),
            (KeyCode::Char('f'), KeyModifiers::Control) => spec_move_right(s),
            (KeyCode::Home, _) => spec_move_start(s),
            (KeyCode::Char('a'), KeyModifiers::Control) => spec_move_start(s),
            (KeyCode::End, _) => spec_move_end(s),
            (KeyCode::Char('e'), KeyModifiers::Control) => spec_move_end(s),
            (KeyCode::Backspace, _) => spec_backspace(s),
            (KeyCode::Char('h'), KeyModifiers::Control) => spec_backspace(s),
            (KeyCode::Delete, _) => spec_delete(s),
            (KeyCode::Char('d'), KeyModifiers::Control) => spec_delete(s),
            (KeyCode::Char('k'), KeyModifiers::Control) => spec_kill(s),
            (KeyCode::Char('u'), KeyModifiers::Control) => spec_truncate(s),
            (KeyCode::Char(c), KeyModifiers::Plain) => spec_push(s, c),
            (KeyCode::Char(c), KeyModifiers::Shift) => spec_push(s, c),
            _ => s,
        }
    }
}

/// The state of a single-line text prompt.
#[derive(Debug, PartialEq, Eq, Hash)]
pub struct TextState {
    status: Status,
    focus: FocusState,
    position: usize,
    cursor_col: u16,
    cursor_row: u16,
    value: String,
}

impl View for TextState {
    type V = TextStateView;

    closed spec fn view(&self) -> TextStateView {
        TextStateView {
            status: self.status,
            focus: self.focus,
            position: self.position as nat,
            cursor: (self.cursor_col, self.cursor_row),
            value: self.value@,
        }
    }
}

impl TextState {
    #[verifier::type_invariant]
    spec fn wf(self) -> bool {
        self@.wf()
    }

    /// A fresh prompt: empty, pending, unfocused, cursor at the origin.
    pub fn new() -> (r: TextState)
        ensures
            r@ == (TextStateView {
                status: Status::Pending,
                focus: FocusState::Unfocused,
                position: 0,
                cursor: (0u16, 0u16),
                value: Seq::<char>::empty(),
            }),
    {
        TextState {
            status: Status::Pending,
            focus: FocusState::Unfocused,
            position: 0,
            cursor_col: 0,
            cursor_row: 0,
            value: String::new(),
        }
    }

    pub fn with_status(self, status: Status) -> (r: TextState)
        ensures
            r@ == (TextStateView { status, ..self@ }),
    {
        proof {
            use_type_invariant(&self);
        }
        let mut s = self;
        s.status = status;
        s
    }

    pub fn with_focus(self, focus: FocusState) -> (r: TextState)
        ensures
            r@ == (TextStateView { focus, ..self@ }),
    {
        proof {
            use_type_invariant(&self);
        }
        let mut s = self;
        s.focus = focus;
        s
    }

    /// Replaces the value; the position is kept, but clamped to the new
    /// value's length.
    pub fn with_value(self, value: &str) -> (r: TextState)
        ensures
            r@ == (TextStateView {
                value: value@,
                position: if self@.position <= value@.len() {
                    self@.position
                } else {
                    value@.len()
                },
                ..self@
            }),
    {
        proof {
            use_type_invariant(&self);
        }
        let n = value.unicode_len();
        let mut s = self;
        if s.position > n {
            s.position = n;
        }
        s.value = value.to_owned();
        s
    }

    pub fn is_finished(&self) -> (r: bool)
        ensures
            r == spec_is_finished(self@.status),
    {
        self.status.is_finished()
    }

    pub fn status(&self) -> (r: Status)
        ensures
            r == self@.status,
    {
        self.status
    }

    pub fn focus_state(&self) -> (r: FocusState)
        ensures
            r == self@.focus,
    {
        self.focus
    }

    pub fn is_focused(&self) -> (r: bool)
        ensures
            r == (self@.focus is Focused),
    {
        matches!(self.focus, FocusState::Focused)
    }

    pub fn focus(&mut self)
        ensures
            final(self)@ == (TextStateView { focus: FocusState::Focused, ..old(self)@ }),
    {
        proof {
            use_type_invariant(&*self);
        }
        self.focus = FocusState::Focused;
    }

    pub fn blur(&mut self)
        ensures
            final(self)@ == (TextStateView { focus: FocusState::Unfocused, ..old(self)@ }),
    {
        proof {
            use_type_invariant(&*self);
        }
        self.focus = FocusState::Unfocused;
    }

    pub fn position(&self) -> (r: usize)
        ensures
            r == self@.position,
    {
        self.position
    }

    /// Moves the cursor to `position`, clamped to the end of the value.
    pub fn set_position(&mut self, position: usize)
        ensures
            final(self)@ == (TextStateView {
                position: if position <= old(self)@.value.len() {
                    position as nat
                } else {
                    old(self)@.value.len()
                },
                ..old(self)@
            }),
    {
        proof {
            use_type_invariant(&*self);
        }
        let n = self.value.as_str().unicode_len();
        self.position = if position <= n {
            position
        } else {
            n
        };
    }

    pub fn cursor(&self) -> (r: (u16, u16))
        ensures
            r == self@.cursor,
    {
        (self.cursor_col, self.cursor_row)
    }

    pub(crate) fn set_cursor(&mut self, cursor: (u16, u16))
        ensures
            final(self)@ == (TextStateView { cursor, ..old(self)@ }),
    {
        proof {
            use_type_invariant(&*self);
        }
        self.cursor_col = cursor.0;
        self.cursor_row = cursor.1;
    }

    /// The screen cursor to surface to the render sink: the last computed
    /// coordinates while focused, and nothing at all while unfocused.
    pub fn visible_cursor(&self) -> (r: Option<(u16, u16)>)
        ensures
            r == if self@.focus is Focused {
                Some(self@.cursor)
            } else {
                None::<(u16, u16)>
            },
    {
        if self.is_focused() {
            Some((self.cursor_col, self.cursor_row))
        } else {
            None
        }
    }

    pub fn value(&self) -> (r: &str)
        ensures
            r@ == self@.value,
    {
        self.value.as_str()
    }

    /// The length of the value in characters, never in bytes.
    pub fn len(&self) -> (r: usize)
        ensures
            r == self@.value.len(),
    {
        self.value.as_str().unicode_len()
    }

    pub fn is_empty(&self) -> (r: bool)
        ensures
            r == (self@.value.len() == 0),
    {
        self.value.as_str().is_empty()
    }

    pub fn complete(&mut self)
        ensures
            final(self)@ == spec_complete(old(self)@),
    {
        proof {
            use_type_invariant(&*self);
        }
        self.status = Status::Done;
    }

    pub fn abort(&mut self)
        ensures
            final(self)@ == spec_abort(old(self)@),
    {
        proof {
            use_type_invariant(&*self);
        }
        self.status = Status::Aborted;
    }

    pub fn push(&mut self, c: char)
        ensures
            final(self)@ == spec_push(old(self)@, c),
    {
        proof {
            use_type_invariant(&*self);
        }
        if self.status.is_finished() {
            return ;
        }
        let rebuilt = insert_char_at(self.value.as_str(), self.position, c);
        self.value = rebuilt;
        self.position = self.position.saturating_add(1);
    }

    pub fn backspace(&mut self)
        ensures
            final(self)@ == spec_backspace(old(self)@),
    {
        proof {
            use_type_invariant(&*self);
        }
        if self.status.is_finished() {
            return ;
        }
        if self.position > 0 {
            let p = self.position - 1;
            let rebuilt = remove_char_at(self.value.as_str(), p);
            self.position = p;
            self.value = rebuilt;
        }
    }

    pub fn delete(&mut self)
        ensures
            final(self)@ == spec_delete(old(self)@),
    {
        proof {
            use_type_invariant(&*self);
        }
        if self.status.is_finished() {
            return ;
        }
        let n = self.value.as_str().unicode_len();
        if self.position < n {
            let rebuilt = remove_char_at(self.value.as_str(), self.position);
            self.value = rebuilt;
        }
    }

    pub fn move_left(&mut self)
        ensures
            final(self)@ == spec_move_left(old(self)@),
    {
        proof {
            use_type_invariant(&*self);
        }
        if self.status.is_finished() {
            return ;
        }
        self.position = self.position.saturating_sub(1);
    }

    pub fn move_right(&mut self)
        ensures
            final(self)@ == spec_move_right(old(self)@),
    {
        proof {
            use_type_invariant(&*self);
        }
        if self.status.is_finished() {
            return ;
        }
        let n = self.value.as_str().unicode_len();
        if self.position < n {
            self.position = self.position + 1;
        }
    }

    pub fn move_start(&mut self)
        ensures
            final(self)@ == spec_move_start(old(self)@),
    {
        proof {
            use_type_invariant(&*self);
        }
        if self.status.is_finished() {
            return ;
        }
        self.position = 0;
    }

    pub fn move_end(&mut self)
        ensures
            final(self)@ == spec_move_end(old(self)@),
    {
        proof {
            use_type_invariant(&*self);
        }
        if self.status.is_finished() {
            return ;
        }
        self.position = self.value.as_str().unicode_len();
    }

    pub fn kill(&mut self)
        ensures
            final(self)@ == spec_kill(old(self)@),
    {
        proof {
            use_type_invariant(&*self);
        }
        if self.status.is_finished() {
            return ;
        }
        let rebuilt = take_chars(self.value.as_str(), self.position);
        self.value = rebuilt;
    }

    pub fn truncate(&mut self)
        ensures
            final(self)@ == spec_truncate(old(self)@),
    {
        proof {
            use_type_invariant(&*self);
        }
        if self.status.is_finished() {
            return ;
        }
        self.position = 0;
        self.value = String::new();
    }

    /// Consumes one key notification and performs the operation the
    /// dispatch table assigns to it.
    pub fn handle_key_event(&mut self, event: KeyEvent)
        ensures
            final(self)@ == spec_handle_key(old(self)@, event),
    {
        if matches!(event.kind, KeyEventKind::Release) {
            return ;
        }
        match (event.code, event.modifiers) {
            (KeyCode::Enter, _) => self.complete(),
            (KeyCode::Esc, _) => self.abort(),
            (KeyCode::Char('c'), KeyModifiers::Control) => self.abort(),
            (KeyCode::Left, _) => self.move_left(),
            (KeyCode::Char('b'), KeyModifiers::Control) => self.move_left(),
            (KeyCode::Right, _) => self.move_right(),
            (KeyCode::Char('f'), KeyModifiers::Control) => self.move_right(),
            (KeyCode::Home, _) => self.move_start(),
            (KeyCode::Char('a'), KeyModifiers::Control) => self.move_start(),
            (KeyCode::End, _) => self.move_end(),
            (KeyCode::Char('e'), KeyModifiers::Control) => self.move_end(),
            (KeyCode::Backspace, _) => self.backspace(),
            (KeyCode::Char('h'), KeyModifiers::Control) => self.backspace(),
            (KeyCode::Delete, _) => self.delete(),
            (KeyCode::Char('d'), KeyModifiers::Control) => self.delete(),
            (KeyCode::Char('k'), KeyModifiers::Control) => self.kill(),
            (KeyCode::Char('u'), KeyModifiers::Control) => self.truncate(),
            (KeyCode::Char(c), KeyModifiers::Plain) => self.push(c),
            (KeyCode::Char(c), KeyModifiers::Shift) => self.push(c),
            _ => {},
        }
    }
}

impl Default for TextState {
    fn default() -> (r: TextState)
        ensures
            r@ == (TextStateView {
                status: Status::Pending,
                focus: FocusState::Unfocused,
                position: 0,
                cursor: (0u16, 0u16),
                value: Seq::<char>::empty(),
            }),
    {
        TextState::new()
    }
}

/// One editing operation, for reasoning about replayed edit sequences.
#[derive(Clone, Copy, Debug, PartialEq, Eq)]
pub enum EditOp {
    Push(char),
    Backspace,
    Delete,
}

pub open spec fn apply_edit(s: TextStateView, op: EditOp) -> TextStateView {
    match op {
        EditOp::Push(c) => spec_push(s, c),
        EditOp::Backspace => spec_backspace(s),
        EditOp::Delete => spec_delete(s),
    }
}

/// The state after replaying `ops` in order, starting from `s`.
pub open spec fn replay_edits(s: TextStateView, ops: Seq<EditOp>) -> TextStateView
    decreases ops.len(),
{
    if ops.len() == 0 {
        s
    } else {
        apply_edit(replay_edits(s, ops.drop_last()), ops.last())
    }
}

/// How many of the replayed operations actually inserted a character.
pub open spec fn effective_insertions(s: TextStateView, ops: Seq<EditOp>) -> nat
    decreases ops.len(),
{
    if ops.len() == 0 {
        0
    } else {
        let before = replay_edits(s, ops.drop_last());
        effective_insertions(s, ops.drop_last()) + (if ops.last() is Push && !spec_is_finished(
            before.status,
        ) {
            1nat
        } else {
            0nat
        })
    }
}

/// How many of the replayed operations actually removed a character.
pub open spec fn effective_deletions(s: TextStateView, ops: Seq<EditOp>) -> nat
    decreases ops.len(),
{
    if ops.len() == 0 {
        0
    } else {
        let before = replay_edits(s, ops.drop_last());
        let deleted = match ops.last() {
            EditOp::Push(c) => false,
            EditOp::Backspace => !spec_is_finished(before.status) && before.position > 0,
            EditOp::Delete => !spec_is_finished(before.status) && before.position
                < before.value.len(),
        };
        effective_deletions(s, ops.drop_last()) + (if deleted {
            1nat
        } else {
            0nat
        })
    }
}

/// A finished prompt is frozen for edits: every editing and navigation
/// operation returns the state unchanged.
pub proof fn lemma_finished_state_frozen(s: TextStateView, c: char)
    requires
        spec_is_finished(s.status),
    ensures
        spec_push(s, c) == s,
        spec_backspace(s) == s,
        spec_delete(s) == s,
        spec_move_left(s) == s,
        spec_move_right(s) == s,
        spec_move_start(s) == s,
        spec_move_end(s) == s,
        spec_kill(s) == s,
        spec_truncate(s) == s,
{
}

/// Round-trip character count: after replaying any sequence of push,
/// backspace and delete operations, the character count of the value is
/// the starting count, plus the operations that inserted, minus the
/// operations that removed. The count is in characters, never in bytes.
pub proof fn lemma_replay_char_count(s: TextStateView, ops: Seq<EditOp>)
    requires
        s.wf(),
    ensures
        replay_edits(s, ops).wf(),
        replay_edits(s, ops).value.len() + effective_deletions(s, ops) == s.value.len()
            + effective_insertions(s, ops),
    decreases ops.len(),
{
    if ops.len() > 0 {
        lemma_replay_char_count(s, ops.drop_last());
        let before = replay_edits(s, ops.drop_last());
        let after = replay_edits(s, ops);
        match ops.last() {
            EditOp::Push(c) => {
                assert(after == spec_push(before, c));
            },
            EditOp::Backspace => {
                assert(after == spec_backspace(before));
            },
            EditOp::Delete => {
                assert(after == spec_delete(before));
            },
        }
    }
}

/// The first `n` characters of `s` as an owned string.
fn take_chars(s: &str, n: usize) -> (r: String)
    requires
        n <= s@.len(),
    ensures
        r@ == s@.take(n as int),
{
    let prefix = s.substring_char(0, n);
    proof {
        assert(s@.subrange(0, n as int) =~= s@.take(n as int));
    }
    prefix.to_owned()
}

/// `s` with the character at character index `at` removed, rebuilt by
/// character iteration.
fn remove_char_at(s: &str, at: usize) -> (r: String)
    requires
        at < s@.len(),
    ensures
        r@ == s@.remove(at as int),
{
    let n = s.unicode_len();
    let mut out = s.substring_char(0, at).to_owned();
    out.append(s.substring_char(at + 1, n));
    proof {
        assert(out@ =~= s@.remove(at as int));
    }
    out
}

/// `s` with `c` spliced in at character index `at`, rebuilt by character
/// iteration.
fn insert_char_at(s: &str, at: usize, c: char) -> (r: String)
    requires
        at <= s@.len(),
    ensures
        r@ == s@.insert(at as int, c),
{
    let n = s.unicode_len();
    let mut out = s.substring_char(0, at).to_owned();
    push_char(&mut out, c);
    out.append(s.substring_char(at, n));
    proof {
        assert(out@ =~= s@.insert(at as int, c));
    }
    out
}

} // verus!
