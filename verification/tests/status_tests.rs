use tui_prompts::Color;
use tui_prompts::Status;
use tui_prompts::Style;
use tui_prompts::StyledRun;
use tui_prompts::Symbols;

#[test]
fn prompt_status_symbols() {
    assert_eq!(
        Status::Pending.symbol(),
        StyledRun::new("?", Style::new().fg(Color::Cyan))
    );
    assert_eq!(
        Status::Aborted.symbol(),
        StyledRun::new("\u{2718}", Style::new().fg(Color::Red))
    );
    assert_eq!(
        Status::Done.symbol(),
        StyledRun::new("\u{2714}", Style::new().fg(Color::Green))
    );
}

#[test]
fn status_status_symbols() {
    assert_eq!(
        Status::Pending.symbol(),
        StyledRun::new("?", Style::new().fg(Color::Cyan))
    );
    assert_eq!(
        Status::Aborted.symbol(),
        StyledRun::new("\u{2718}", Style::new().fg(Color::Red))
    );
    assert_eq!(
        Status::Done.symbol(),
        StyledRun::new("\u{2714}", Style::new().fg(Color::Green))
    );
}

#[test]
fn status_is_pending() {
    assert!(Status::Pending.is_pending());
    assert!(!Status::Aborted.is_pending());
    assert!(!Status::Done.is_pending());
}

#[test]
fn status_is_aborted() {
    assert!(!Status::Pending.is_aborted());
    assert!(Status::Aborted.is_aborted());
    assert!(!Status::Done.is_aborted());
}

#[test]
fn status_is_done() {
    assert!(!Status::Pending.is_done());
    assert!(!Status::Aborted.is_done());
    assert!(Status::Done.is_done());
}

#[test]
fn status_is_finished() {
    assert!(!Status::Pending.is_finished());
    assert!(Status::Aborted.is_finished());
    assert!(Status::Done.is_finished());
}

#[test]
fn status_default() {
    assert_eq!(Status::default(), Status::Pending);
}

#[test]
fn symbols_default() {
    assert_eq!(
        Symbols::default(),
        Symbols {
            pending: StyledRun::new("?", Style::new().fg(Color::Cyan)),
            aborted: StyledRun::new("\u{2718}", Style::new().fg(Color::Red)),
            done: StyledRun::new("\u{2714}", Style::new().fg(Color::Green)),
        }
    );
}

#[test]
fn symbols_custom() {
    let symbols = Symbols {
        pending: StyledRun::new("P", Style::new().fg(Color::Cyan)),
        aborted: StyledRun::new("A", Style::new().fg(Color::Red)),
        done: StyledRun::new("D", Style::new().fg(Color::Green)),
    };
    assert_eq!(symbols.pending, StyledRun::new("P", Style::new().fg(Color::Cyan)));
    assert_eq!(symbols.aborted, StyledRun::new("A", Style::new().fg(Color::Red)));
    assert_eq!(symbols.done, StyledRun::new("D", Style::new().fg(Color::Green)));
}
