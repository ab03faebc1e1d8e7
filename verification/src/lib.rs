//! An in-terminal single-line text input editor with soft wrap: an edit
//! state machine over a Unicode string, a render-style transform, a
//! styled-line composer, a wrap engine, and a cursor mapper that together
//! turn the edited value into styled lines and exact screen coordinates
//! inside a fixed render area.

mod chars;
mod cursor;
mod key;
mod rect;
mod status;
mod style;
mod text_prompt;
mod text_state;
mod width;
mod wrap;

pub use cursor::lemma_cursor_in_area;
pub use cursor::lemma_cursor_monotone;
pub use cursor::map_cursor;
pub use cursor::spec_cursor_col;
pub use cursor::spec_cursor_offset;
pub use cursor::spec_cursor_row;
pub use key::KeyCode;
pub use key::KeyEvent;
pub use key::KeyEventKind;
pub use key::KeyModifiers;
pub use rect::Rect;
pub use rect::RectView;
pub use status::Status;
pub use status::Symbols;
pub use status::spec_is_finished;
pub use status::symbol_style;
pub use status::symbol_text;
pub use style::Color;
pub use style::RunView;
pub use style::Style;
pub use style::StyledLine;
pub use style::StyledRun;
pub use style::line_char_count;
pub use style::line_text;
pub use style::line_width;
pub use text_prompt::TextPrompt;
pub use text_prompt::TextPromptView;
pub use text_prompt::TextRenderStyle;
pub use text_prompt::separator_text;
pub use text_prompt::spec_composed_line;
pub use text_prompt::spec_prefix_runs;
pub use text_prompt::spec_prefix_width;
pub use text_prompt::spec_render_value;
pub use text_prompt::take_at_most;
pub use text_state::EditOp;
pub use text_state::FocusState;
pub use text_state::TextState;
pub use text_state::TextStateView;
pub use text_state::apply_edit;
pub use text_state::effective_deletions;
pub use text_state::effective_insertions;
pub use text_state::lemma_finished_state_frozen;
pub use text_state::lemma_replay_char_count;
pub use text_state::replay_edits;
pub use text_state::sat_inc;
pub use text_state::spec_abort;
pub use text_state::spec_backspace;
pub use text_state::spec_complete;
pub use text_state::spec_delete;
pub use text_state::spec_handle_key;
pub use text_state::spec_kill;
pub use text_state::spec_move_end;
pub use text_state::spec_move_left;
pub use text_state::spec_move_right;
pub use text_state::spec_move_start;
pub use text_state::spec_push;
pub use text_state::spec_truncate;
pub use width::char_display_width;
pub use width::seq_display_width;
pub use width::str_display_width;
pub use wrap::lemma_line_split_parts;
pub use wrap::lemma_wrap_complete;
pub use wrap::line_split_at;
pub use wrap::line_views;
pub use wrap::lines_text;
pub use wrap::run_width;
pub use wrap::span_split_at;
pub use wrap::spec_line_split;
pub use wrap::spec_run_split;
pub use wrap::spec_take_cols;
pub use wrap::spec_wrap;
pub use wrap::wrap;
