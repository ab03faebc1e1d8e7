use tui_prompts::FocusState;
use tui_prompts::KeyCode;
use tui_prompts::KeyEvent;
use tui_prompts::KeyEventKind;
use tui_prompts::KeyModifiers;
use tui_prompts::Status;
use tui_prompts::TextState;

#[test]
fn insert_multibyte_start() {
    let mut test = TextState::new().with_value("äë");
    test.move_start();
    test.push('Ï');
    assert_eq!(test.value(), "Ïäë");
    assert_eq!(test.position(), 1);
}

#[test]
fn insert_multibyte_middle() {
    let mut test = TextState::new().with_value("äë");
    test.move_right();
    test.push('Ï');
    assert_eq!(test.value(), "äÏë");
    assert_eq!(test.position(), 2);
}

#[test]
fn insert_multibyte_end() {
    let mut test = TextState::new().with_value("äë");
    test.move_end();
    test.push('Ï');
    assert_eq!(test.value(), "äëÏ");
    assert_eq!(test.position(), 3);
}

#[test]
fn delete_multibyte_start() {
    let mut test = TextState::new().with_value("äë");
    test.move_start();
    test.delete();
    assert_eq!(test.value(), "ë");
    assert_eq!(test.position(), 0);
}

#[test]
fn delete_multibyte_middle() {
    let mut test = TextState::new().with_value("äë");
    test.move_right();
    test.delete();
    assert_eq!(test.value(), "ä");
    assert_eq!(test.position(), 1);
}

#[test]
fn delete_multibyte_end() {
    let mut test = TextState::new().with_value("äë");
    test.move_end();
    test.delete();
    assert_eq!(test.value(), "äë");
    assert_eq!(test.position(), 2);
}

#[test]
fn backspace_multibyte_start() {
    let mut test = TextState::new().with_value("äë");
    test.move_start();
    test.backspace();
    assert_eq!(test.value(), "äë");
    assert_eq!(test.position(), 0);
}

#[test]
fn backspace_multibyte_middle() {
    let mut test = TextState::new().with_value("äë");
    test.move_right();
    test.backspace();
    assert_eq!(test.value(), "ë");
    assert_eq!(test.position(), 0);
}

#[test]
fn backspace_multibyte_end() {
    let mut test = TextState::new().with_value("äë");
    test.move_end();
    test.backspace();
    assert_eq!(test.value(), "ä");
    assert_eq!(test.position(), 1);
}

#[test]
fn new_state_is_empty_and_pending() {
    let state = TextState::new();
    assert_eq!(state.value(), "");
    assert_eq!(state.position(), 0);
    assert_eq!(state.cursor(), (0, 0));
    assert_eq!(state.status(), Status::Pending);
    assert_eq!(state.focus_state(), FocusState::Unfocused);
    assert!(state.is_empty());
    assert!(!state.is_finished());
}

#[test]
fn len_counts_characters_not_bytes() {
    let state = TextState::new().with_value("äë");
    assert_eq!(state.len(), 2);
    assert!(state.value().len() > 2);
}

#[test]
fn kill_truncates_to_position() {
    let mut state = TextState::new().with_value("hello");
    state.set_position(2);
    state.kill();
    assert_eq!(state.value(), "he");
    assert_eq!(state.position(), 2);
}

#[test]
fn truncate_clears_value_and_position() {
    let mut state = TextState::new().with_value("hello");
    state.move_end();
    state.truncate();
    assert_eq!(state.value(), "");
    assert_eq!(state.position(), 0);
}

#[test]
fn movement_clamps_at_ends() {
    let mut state = TextState::new().with_value("ab");
    state.move_left();
    assert_eq!(state.position(), 0);
    state.move_end();
    assert_eq!(state.position(), 2);
    state.move_right();
    assert_eq!(state.position(), 2);
    state.move_start();
    assert_eq!(state.position(), 0);
}

#[test]
fn set_position_clamps_to_length() {
    let mut state = TextState::new().with_value("hello");
    state.set_position(3);
    assert_eq!(state.position(), 3);
    state.set_position(99);
    assert_eq!(state.position(), 5);
}

#[test]
fn finished_state_freezes_edits() {
    let mut state = TextState::new().with_value("hello");
    state.move_end();
    state.complete();
    state.push('x');
    state.backspace();
    state.delete();
    state.move_left();
    state.move_start();
    state.kill();
    state.truncate();
    assert_eq!(state.value(), "hello");
    assert_eq!(state.position(), 5);
    assert_eq!(state.status(), Status::Done);

    let mut aborted = TextState::new().with_value("ab");
    aborted.abort();
    aborted.push('x');
    aborted.backspace();
    assert_eq!(aborted.value(), "ab");
    assert_eq!(aborted.position(), 0);
    assert_eq!(aborted.status(), Status::Aborted);
}

#[test]
fn replay_counts_characters() {
    // Three insertions, one effective backspace, one no-op backspace at the
    // start, one effective delete: the final count is the net of the five.
    let mut state = TextState::new();
    state.push('a');
    state.push('b');
    state.push('c');
    state.backspace();
    state.move_start();
    state.backspace();
    state.delete();
    assert_eq!(state.len(), 1);
    assert_eq!(state.value(), "b");
}

#[test]
fn focus_and_blur() {
    let mut state = TextState::new();
    assert!(!state.is_focused());
    state.focus();
    assert!(state.is_focused());
    assert_eq!(state.focus_state(), FocusState::Focused);
    state.blur();
    assert!(!state.is_focused());
}

#[test]
fn with_builders() {
    let state = TextState::new()
        .with_status(Status::Done)
        .with_focus(FocusState::Focused)
        .with_value("hi");
    assert_eq!(state.status(), Status::Done);
    assert_eq!(state.focus_state(), FocusState::Focused);
    assert_eq!(state.value(), "hi");
    assert!(state.is_finished());
}

#[test]
fn key_dispatch_edits() {
    let mut state = TextState::new();
    state.handle_key_event(KeyEvent::new(KeyCode::Char('h'), KeyModifiers::Plain));
    state.handle_key_event(KeyEvent::new(KeyCode::Char('I'), KeyModifiers::Shift));
    assert_eq!(state.value(), "hI");
    state.handle_key_event(KeyEvent::new(KeyCode::Backspace, KeyModifiers::Plain));
    assert_eq!(state.value(), "h");
    state.handle_key_event(KeyEvent::new(KeyCode::Home, KeyModifiers::Plain));
    state.handle_key_event(KeyEvent::new(KeyCode::Delete, KeyModifiers::Plain));
    assert_eq!(state.value(), "");
}

#[test]
fn key_dispatch_control_chords() {
    let mut state = TextState::new().with_value("hello");
    state.handle_key_event(KeyEvent::new(KeyCode::Char('e'), KeyModifiers::Control));
    assert_eq!(state.position(), 5);
    state.handle_key_event(KeyEvent::new(KeyCode::Char('b'), KeyModifiers::Control));
    assert_eq!(state.position(), 4);
    state.handle_key_event(KeyEvent::new(KeyCode::Char('a'), KeyModifiers::Control));
    assert_eq!(state.position(), 0);
    state.handle_key_event(KeyEvent::new(KeyCode::Char('f'), KeyModifiers::Control));
    assert_eq!(state.position(), 1);
    state.handle_key_event(KeyEvent::new(KeyCode::Char('k'), KeyModifiers::Control));
    assert_eq!(state.value(), "h");
    state.handle_key_event(KeyEvent::new(KeyCode::Char('h'), KeyModifiers::Control));
    assert_eq!(state.value(), "");
    let mut other = TextState::new().with_value("hello");
    other.handle_key_event(KeyEvent::new(KeyCode::Char('d'), KeyModifiers::Control));
    assert_eq!(other.value(), "ello");
    other.handle_key_event(KeyEvent::new(KeyCode::Char('u'), KeyModifiers::Control));
    assert_eq!(other.value(), "");
}

#[test]
fn key_dispatch_lifecycle() {
    let mut state = TextState::new();
    state.handle_key_event(KeyEvent::new(KeyCode::Enter, KeyModifiers::Plain));
    assert_eq!(state.status(), Status::Done);

    let mut esc = TextState::new();
    esc.handle_key_event(KeyEvent::new(KeyCode::Esc, KeyModifiers::Plain));
    assert_eq!(esc.status(), Status::Aborted);

    let mut ctrl_c = TextState::new();
    ctrl_c.handle_key_event(KeyEvent::new(KeyCode::Char('c'), KeyModifiers::Control));
    assert_eq!(ctrl_c.status(), Status::Aborted);
}

#[test]
fn key_release_is_ignored() {
    let mut state = TextState::new();
    state.handle_key_event(KeyEvent {
        code: KeyCode::Char('x'),
        modifiers: KeyModifiers::Plain,
        kind: KeyEventKind::Release,
    });
    assert_eq!(state.value(), "");
    state.handle_key_event(KeyEvent {
        code: KeyCode::Enter,
        modifiers: KeyModifiers::Plain,
        kind: KeyEventKind::Release,
    });
    assert_eq!(state.status(), Status::Pending);
}

#[test]
fn key_dispatch_ignores_unknown() {
    let mut state = TextState::new().with_value("ab");
    state.handle_key_event(KeyEvent::new(KeyCode::Other, KeyModifiers::Plain));
    state.handle_key_event(KeyEvent::new(KeyCode::Char('x'), KeyModifiers::Control));
    state.handle_key_event(KeyEvent::new(KeyCode::Char('x'), KeyModifiers::Other));
    assert_eq!(state.value(), "ab");
    assert_eq!(state.status(), Status::Pending);
}
