use tui_prompts::Color;
use tui_prompts::Style;
use tui_prompts::StyledLine;
use tui_prompts::StyledRun;
use tui_prompts::line_split_at;
use tui_prompts::span_split_at;
use tui_prompts::wrap;

fn line_of(runs: Vec<StyledRun>) -> StyledLine {
    StyledLine::from_spans(runs)
}

#[test]
fn wrap_single_run_exactly() {
    let line = line_of(vec![StyledRun::new("hello world", Style::new())]);
    let lines = wrap(&line, 5);
    let texts: Vec<String> = lines.iter().map(|l| l.text()).collect();
    assert_eq!(texts, vec!["hello", " worl", "d"]);
    for l in &lines {
        assert!(l.width() <= 5);
    }
}

#[test]
fn wrap_reassembles_input_text() {
    let line = line_of(vec![
        StyledRun::new("abc", Style::new().fg(Color::Cyan)),
        StyledRun::new("defg", Style::new().bold()),
        StyledRun::new("hi", Style::new().dim()),
    ]);
    for w in 1..12 {
        let lines = wrap(&line, w);
        let mut joined = String::new();
        for l in &lines {
            assert!(l.width() <= w);
            assert!(l.width() > 0);
            joined.push_str(&l.text());
        }
        assert_eq!(joined, "abcdefghi");
    }
}

#[test]
fn wrap_preserves_styles_of_split_runs() {
    let line = line_of(vec![
        StyledRun::new("abc", Style::new().fg(Color::Green)),
        StyledRun::new("def", Style::new().bold()),
    ]);
    let lines = wrap(&line, 4);
    // The cut falls inside the second run: both halves keep its style.
    assert_eq!(lines.len(), 2);
    assert_eq!(lines[0].spans.len(), 2);
    assert_eq!(lines[0].spans[0], StyledRun::new("abc", Style::new().fg(Color::Green)));
    assert_eq!(lines[0].spans[1], StyledRun::new("d", Style::new().bold()));
    assert_eq!(lines[1].spans.len(), 1);
    assert_eq!(lines[1].spans[0], StyledRun::new("ef", Style::new().bold()));
}

#[test]
fn wrap_empty_line_produces_nothing() {
    let line = line_of(vec![]);
    assert!(wrap(&line, 5).is_empty());
    let empty_run = line_of(vec![StyledRun::new("", Style::new())]);
    assert!(wrap(&empty_run, 5).is_empty());
}

#[test]
fn wrap_short_line_is_emitted_whole() {
    let line = line_of(vec![StyledRun::new("hi", Style::new())]);
    let lines = wrap(&line, 80);
    assert_eq!(lines.len(), 1);
    assert_eq!(lines[0].text(), "hi");
}

#[test]
fn wrap_wide_glyph_overshoots_budget_of_one() {
    // A double-width glyph straddling the cut is carried onto the first
    // half: the line overshoots the budget rather than losing the glyph.
    let line = line_of(vec![StyledRun::new("\u{1F50D}a", Style::new())]);
    let lines = wrap(&line, 1);
    let texts: Vec<String> = lines.iter().map(|l| l.text()).collect();
    assert_eq!(texts, vec!["\u{1F50D}", "a"]);
    assert_eq!(lines[0].width(), 2);
}

#[test]
fn span_split_at_column_offset() {
    let run = StyledRun::new("abcdef", Style::new().bold());
    let (first, second) = span_split_at(&run, 2);
    assert_eq!(first, StyledRun::new("ab", Style::new().bold()));
    assert_eq!(second, StyledRun::new("cdef", Style::new().bold()));
}

#[test]
fn span_split_multibyte_at_character_boundary() {
    let run = StyledRun::new("äëï", Style::new());
    let (first, second) = span_split_at(&run, 2);
    assert_eq!(first.content, "äë");
    assert_eq!(second.content, "ï");
}

#[test]
fn line_split_keeps_following_runs_on_second_line() {
    let line = line_of(vec![
        StyledRun::new("ab", Style::new()),
        StyledRun::new("cd", Style::new().bold()),
        StyledRun::new("ef", Style::new().dim()),
    ]);
    let (first, second) = line_split_at(&line, 3);
    assert_eq!(first.text(), "abc");
    assert_eq!(second.text(), "def");
    assert_eq!(second.spans.len(), 2);
    assert_eq!(second.spans[0], StyledRun::new("d", Style::new().bold()));
    assert_eq!(second.spans[1], StyledRun::new("ef", Style::new().dim()));
}

#[test]
fn wrap_zero_width_line_emits_no_trailing_line() {
    // A remainder of zero display width is dropped rather than emitted as
    // an empty line; a line holding only combining marks therefore
    // produces no output at all.
    let line = line_of(vec![StyledRun::new("\u{0301}", Style::new())]);
    assert_eq!(line.width(), 0);
    assert!(wrap(&line, 5).is_empty());
}

#[test]
fn line_width_uses_display_columns() {
    let line = line_of(vec![StyledRun::new("a\u{1F50D}b", Style::new())]);
    assert_eq!(line.width(), 4);
    assert_eq!(line.text().chars().count(), 3);
}
