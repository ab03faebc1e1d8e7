use tui_prompts::Color;
use tui_prompts::Rect;
use tui_prompts::Status;
use tui_prompts::Style;
use tui_prompts::StyledLine;
use tui_prompts::StyledRun;
use tui_prompts::TextPrompt;
use tui_prompts::TextRenderStyle;
use tui_prompts::TextState;

fn texts(lines: &[StyledLine]) -> Vec<String> {
    lines.iter().map(|l| l.text()).collect()
}

#[test]
fn new() {
    let prompt = TextPrompt::new("Enter your name");
    assert_eq!(prompt.message(), "Enter your name");
    assert_eq!(prompt.render_style(), TextRenderStyle::Default);
}

#[test]
fn default() {
    let prompt = TextPrompt::default();
    assert_eq!(prompt.message(), "");
    assert_eq!(prompt.render_style(), TextRenderStyle::Default);
}

#[test]
fn from() {
    let prompt = TextPrompt::from("Enter your name");
    assert_eq!(prompt.message(), "Enter your name");
}

#[test]
fn render() {
    let prompt = TextPrompt::from("prompt");
    let mut state = TextState::new();
    let area = Rect::new(0, 0, 15, 1);

    let lines = prompt.render(&area, &mut state);

    assert_eq!(texts(&lines), vec!["? prompt \u{203A} "]);
    assert_eq!(
        lines[0].spans,
        vec![
            StyledRun::new("?", Style::new().fg(Color::Cyan)),
            StyledRun::new(" ", Style::new()),
            StyledRun::new("prompt", Style::new().bold()),
            StyledRun::new(" \u{203A} ", Style::new().fg(Color::Cyan).dim()),
            StyledRun::new("", Style::new()),
        ]
    );
    assert_eq!(state.cursor(), (11, 0));
}

#[test]
fn render_emoji() {
    let prompt = TextPrompt::from("\u{1F50D}");
    let mut state = TextState::new();
    let area = Rect::new(0, 0, 11, 1);

    let lines = prompt.render(&area, &mut state);

    assert_eq!(texts(&lines), vec!["? \u{1F50D} \u{203A} "]);
    assert_eq!(state.cursor(), (7, 0));
}

#[test]
fn render_with_done() {
    let prompt = TextPrompt::from("prompt");
    let mut state = TextState::new().with_status(Status::Done);
    let area = Rect::new(0, 0, 15, 1);

    let lines = prompt.render(&area, &mut state);

    assert_eq!(texts(&lines), vec!["\u{2714} prompt \u{203A} "]);
    assert_eq!(
        lines[0].spans[0],
        StyledRun::new("\u{2714}", Style::new().fg(Color::Green))
    );
}

#[test]
fn render_with_aborted() {
    let prompt = TextPrompt::from("prompt");
    let mut state = TextState::new().with_status(Status::Aborted);
    let area = Rect::new(0, 0, 15, 1);

    let lines = prompt.render(&area, &mut state);

    assert_eq!(texts(&lines), vec!["\u{2718} prompt \u{203A} "]);
    assert_eq!(
        lines[0].spans[0],
        StyledRun::new("\u{2718}", Style::new().fg(Color::Red))
    );
}

#[test]
fn render_with_value() {
    let prompt = TextPrompt::from("prompt");
    let mut state = TextState::new().with_value("value");
    let area = Rect::new(0, 0, 30, 1);

    let lines = prompt.render(&area, &mut state);

    assert_eq!(texts(&lines), vec!["? prompt \u{203A} value"]);
    assert_eq!(state.cursor(), (11, 0));
}

#[test]
fn render_password() {
    let prompt = TextPrompt::from("prompt").with_render_style(TextRenderStyle::Password);
    let mut state = TextState::new().with_value("value");
    let area = Rect::new(0, 0, 30, 1);

    let lines = prompt.render(&area, &mut state);

    assert_eq!(texts(&lines), vec!["? prompt \u{203A} *****"]);
}

#[test]
fn render_invisible() {
    let prompt = TextPrompt::from("prompt").with_render_style(TextRenderStyle::Invisible);
    let mut state = TextState::new().with_value("value");
    let area = Rect::new(0, 0, 30, 1);

    let lines = prompt.render(&area, &mut state);

    assert_eq!(texts(&lines), vec!["? prompt \u{203A} "]);
}

#[test]
fn render_style_transforms() {
    let state = TextState::new().with_value("äë");
    assert_eq!(TextRenderStyle::Default.render(&state), "äë");
    assert_eq!(TextRenderStyle::Password.render(&state), "**");
    assert_eq!(TextRenderStyle::Invisible.render(&state), "");
}

#[test]
fn password_masking_preserves_length() {
    // Five characters under Password render as exactly five mask
    // characters, at any width at least the prompt length plus five.
    let mut state = TextState::new().with_value("value");
    for width in [17u16, 30, 80] {
        let prompt = TextPrompt::from("prompt").with_render_style(TextRenderStyle::Password);
        let area = Rect::new(0, 0, width, 1);
        let lines = prompt.render(&area, &mut state);
        let masked = lines[0].spans.last().unwrap();
        assert_eq!(masked.content, "*****");
    }
}

#[test]
fn unfocused_render_is_identical_and_surfaces_no_cursor() {
    let prompt = TextPrompt::from("prompt");
    let mut state = TextState::new().with_value("hello");
    let area = Rect::new(0, 0, 17, 2);

    let first = prompt.render(&area, &mut state);
    let second = prompt.render(&area, &mut state);

    assert_eq!(first, second);
    assert_eq!(state.cursor(), (11, 0));
    assert_eq!(state.visible_cursor(), None);
}

#[test]
fn wrapped_cursor_lands_on_second_row() {
    let prompt = TextPrompt::from("prompt");
    let mut state = TextState::new().with_value("hello world");
    state.focus();
    state.set_position(6);
    let area = Rect::new(0, 0, 17, 2);

    let lines = prompt.render(&area, &mut state);

    assert_eq!(texts(&lines), vec!["? prompt \u{203A} hello ", "world"]);
    assert_eq!(state.cursor(), (0, 1));
    assert_eq!(state.visible_cursor(), Some((0, 1)));
}

#[test]
fn render_truncates_to_area_height() {
    let prompt = TextPrompt::from("p");
    let mut state = TextState::new().with_value("abcdefghijklmnopqrstuvwxyz");
    let area = Rect::new(0, 0, 5, 2);

    let lines = prompt.render(&area, &mut state);

    assert_eq!(lines.len(), 2);
    assert_eq!(texts(&lines), vec!["? p \u{203A}", " abcd"]);
}

#[test]
fn degenerate_area_renders_nothing_and_parks_cursor_at_origin() {
    let prompt = TextPrompt::from("prompt");
    let mut state = TextState::new().with_value("hello");
    state.focus();

    let lines = prompt.render(&Rect::new(3, 4, 0, 2), &mut state);
    assert!(lines.is_empty());
    assert_eq!(state.cursor(), (3, 4));

    let lines = prompt.render(&Rect::new(7, 9, 10, 0), &mut state);
    assert!(lines.is_empty());
    assert_eq!(state.cursor(), (7, 9));
}

#[test]
fn cursor_positions_follow_reading_order() {
    let prompt = TextPrompt::from("prompt");
    let area = Rect::new(0, 0, 17, 2);
    let mut state = TextState::new().with_value("hello");
    let mut last = (0u16, 0u16);
    for position in 0..=5usize {
        state.set_position(position);
        let _ = prompt.render(&area, &mut state);
        let (col, row) = state.cursor();
        assert!(row > last.1 || (row == last.1 && col >= last.0));
        last = (col, row);
    }
    assert_eq!(state.cursor(), (16, 0));
}

#[test]
fn rect_clamps_to_addressable_screen() {
    let area = Rect::new(65000, 2, 10000, 1);
    assert_eq!(area.x(), 65000);
    assert_eq!(area.width(), 535);
    assert_eq!(area.height(), 1);
    assert_eq!(area.area(), 535);
}

#[test]
fn cursor_clamps_at_area_capacity() {
    // The clamp bounds the offset by the area alone, not by the end of the
    // text: a position far past the value parks the cursor in the last
    // cell of the area.
    let prompt = TextPrompt::from("p");
    let mut state = TextState::new().with_value("abcdefghij");
    state.set_position(10);
    let area = Rect::new(0, 0, 5, 2);
    let _ = prompt.render(&area, &mut state);
    assert_eq!(state.cursor(), (4, 1));
}
