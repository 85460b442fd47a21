use autonet::cli::render::{table, Theme};

#[test]
fn a_plain_theme_emits_no_escape_codes() {
    let theme = Theme::plain();
    for rendered in [
        theme.value("x"),
        theme.label("x"),
        theme.good("x"),
        theme.bad("x"),
        theme.warn("x"),
        theme.muted("x"),
        theme.heading("x"),
    ] {
        assert_eq!(rendered, "x");
    }
}

#[test]
fn columns_are_sized_to_their_widest_cell() {
    let rows = vec![
        vec!["lo".into(), "up".into()],
        vec!["br-18642d3532b2".into(), "down".into()],
    ];
    let rendered = table(&["NAME", "STATE"], &rows, Theme::plain());
    let lines: Vec<&str> = rendered.lines().collect();

    assert_eq!(lines.len(), 3);
    let offset = lines[0].find("STATE").unwrap();
    assert_eq!(lines[1].find("up"), Some(offset));
    assert_eq!(lines[2].find("down"), Some(offset));
}

#[test]
fn rows_do_not_carry_trailing_whitespace() {
    let rows = vec![vec!["a".into(), "b".into()]];
    for line in table(&["ONE", "TWO"], &rows, Theme::plain()).lines() {
        assert_eq!(line.trim_end(), line, "trailing space in {line:?}");
    }
}

#[test]
fn a_coloured_theme_writes_the_documented_sequences() {
    let theme = Theme::coloured();
    assert!(theme.is_coloured());
    assert_eq!(theme.label("x"), "\u{1b}[2mx\u{1b}[0m");
    assert_eq!(theme.muted("x"), "\u{1b}[2mx\u{1b}[0m");
    assert_eq!(theme.heading("x"), "\u{1b}[1mx\u{1b}[0m");
    assert_eq!(theme.value("x"), "\u{1b}[36m\u{1b}[1mx\u{1b}[0m\u{1b}[39m");
    assert_eq!(theme.good("x"), "\u{1b}[32mx\u{1b}[39m");
    assert_eq!(theme.warn("x"), "\u{1b}[33mx\u{1b}[39m");
    assert_eq!(theme.bad("x"), "\u{1b}[31mx\u{1b}[39m");
    assert_eq!(theme.scannable("x"), "\u{1b}[30;107mx\u{1b}[0m");
    assert_eq!(Theme::plain().scannable("x"), "x");
}

#[test]
fn a_styled_cell_does_not_widen_its_column() {
    let rows = vec![vec![Theme::coloured().good("up"), "x".to_string()]];
    let rendered = table(&["STATE", "NAME"], &rows, Theme::coloured());
    let lines: Vec<&str> = rendered.lines().collect();
    assert_eq!(lines.len(), 2);
    assert!(lines[1].contains("up"));
}

#[test]
fn two_spaces_follow_the_widest_cell_of_a_column() {
    assert_eq!(table(&["A", "B"], &[], Theme::plain()), "A  B\n");
    let rows = vec![vec!["eth0".to_string(), "up".to_string()]];
    assert_eq!(
        table(&["NAME", "STATE"], &rows, Theme::plain()),
        "NAME  STATE\neth0  up\n"
    );
}

#[test]
fn colour_only_for_a_terminal_that_has_not_asked_for_none() {
    let s = |v: &str| Some(v.to_string());
    assert!(Theme::for_terminal(None, s("xterm-256color"), true).is_coloured());
    assert!(!Theme::for_terminal(None, s("xterm"), false).is_coloured());
    assert!(!Theme::for_terminal(s("1"), s("xterm"), true).is_coloured());
    assert!(Theme::for_terminal(s(""), None, true).is_coloured());
    assert!(!Theme::for_terminal(None, s("dumb"), true).is_coloured());
}
