use flowerchat::tui::terminal_widget::{TerminalWidget, TerminalWidgetCurrentLine};

fn widget(history: &[&str], ongoing: TerminalWidgetCurrentLine) -> TerminalWidget {
    TerminalWidget {
        history: history.iter().map(|line| String::from(*line)).collect(),
        ongoing,
        prefix: None,
        offset: None,
        width: 80,
        height: 24,
    }
}

fn input(text: &str) -> TerminalWidgetCurrentLine {
    TerminalWidgetCurrentLine::Input(String::from(text))
}

fn output(text: &str) -> TerminalWidgetCurrentLine {
    TerminalWidgetCurrentLine::Output(String::from(text))
}

#[test]
fn terminal_prompt() {
    let mut terminal = TerminalWidget::default();
    assert_eq!(terminal.ongoing, input(""));
    assert_eq!(TerminalWidgetCurrentLine::default(), input(""));
    assert_eq!(terminal.prefix("help"), "> help");
    terminal.prefix = Some(String::from("lounge"));
    assert_eq!(terminal.prefix("help"), "lounge > help");
    assert_eq!(terminal.prefix(""), "lounge > ");
}

#[test]
fn terminal_push_splits_lines() {
    let mut terminal = widget(&["first"], input("x"));
    terminal.push("foo\r\nbar\n\nbaz\r");
    assert_eq!(terminal.history, vec!["first", "foo", "bar", "", "baz\r"]);
    terminal.push("");
    terminal.push("one\n");
    terminal.push("\n");
    assert_eq!(terminal.len(), 7);
    assert_eq!(terminal.history[5], "one");
    assert_eq!(terminal.history[6], "");
    assert_eq!(terminal.ongoing, input("x"));
}

#[test]
fn terminal_switches_the_current_line() {
    let mut terminal = widget(&[], input("typed"));
    assert_eq!(terminal.forbid_user_input(), input("typed"));
    assert_eq!(terminal.ongoing, output(""));
    terminal.ongoing = output("printed");
    assert_eq!(terminal.allow_user_input(), output("printed"));
    assert_eq!(terminal.ongoing, input(""));
}

#[test]
fn terminal_sticks_to_the_bottom() {
    let terminal = widget(&["a", "b", "c"], input(""));
    assert_eq!(terminal.stick_offset(10), 0);
    assert_eq!(terminal.stick_offset(4), 0);
    assert_eq!(terminal.stick_offset(3), 1);
    assert_eq!(terminal.stick_offset(1), 3);
    assert_eq!(terminal.stick_offset(0), 4);
    let terminal = widget(&["a", "b", "c"], output("x\ny\nz"));
    assert_eq!(terminal.stick_offset(10), 0);
    assert_eq!(terminal.stick_offset(5), 1);
    assert_eq!(terminal.stick_offset(2), 4);
    assert_eq!(widget(&[], input("")).stick_offset(0), 1);
}

#[test]
fn terminal_shows_history_and_current_line() {
    let mut terminal = widget(&["a", "b", "c"], input("x"));
    assert_eq!(terminal.lines(0), vec!["a", "b", "c", "> x"]);
    assert_eq!(terminal.lines(2), vec!["c", "> x"]);
    assert_eq!(terminal.lines(3), vec!["> x"]);
    assert_eq!(terminal.lines(9), vec!["> x"]);
    terminal.ongoing = output("running");
    terminal.prefix = Some(String::from("p"));
    assert_eq!(terminal.lines(1), vec!["b", "c", "running"]);
}
