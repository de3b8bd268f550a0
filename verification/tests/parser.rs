use task_txt::task::{parse_line, read_tasks, trim_str, TaskKind};

#[test]
fn test_parse_well_formed() {
    let t = parse_line("[ ] - Buy milk").unwrap();
    assert_eq!(t.text, "Buy milk");
    assert_eq!(t.kind, TaskKind::NotDone);
}

#[test]
fn test_parse_only_first_separator_splits() {
    let t = parse_line("[X] - Done thing - extra").unwrap();
    assert_eq!(t.text, "Done thing - extra");
    assert_eq!(t.kind, TaskKind::Done);
}

#[test]
fn test_parse_trims_marker_and_description() {
    let t = parse_line("  [~]  -   half done\t").unwrap();
    assert_eq!(t.text, "half done");
    assert_eq!(t.kind, TaskKind::AlmostDone);
}

#[test]
fn test_rejection_set() {
    assert!(parse_line("").is_none());
    assert!(parse_line("no separator here").is_none());
    assert!(parse_line("[Q] - bad marker").is_none());
    let lines = vec![
        String::new(),
        String::from("no separator here"),
        String::from("[Q] - bad marker"),
    ];
    assert_eq!(read_tasks(&lines).len(), 0);
}

#[test]
fn test_read_tasks_keeps_order_and_drops_bad_lines() {
    let lines = vec![
        String::from("[ ] - first"),
        String::from("garbage"),
        String::from("[X] - second"),
        String::from("[?] - third"),
        String::from(""),
        String::from("[~] - fourth"),
    ];
    let tasks = read_tasks(&lines);
    assert_eq!(tasks.len(), 4);
    assert_eq!(tasks[0].text, "first");
    assert_eq!(tasks[0].kind, TaskKind::NotDone);
    assert_eq!(tasks[1].text, "second");
    assert_eq!(tasks[1].kind, TaskKind::Done);
    assert_eq!(tasks[2].text, "third");
    assert_eq!(tasks[2].kind, TaskKind::Unsure);
    assert_eq!(tasks[3].text, "fourth");
    assert_eq!(tasks[3].kind, TaskKind::AlmostDone);
}

#[test]
fn test_parse_edge_shapes() {
    // no spaced separator anywhere: rejected
    assert!(parse_line("[ ]- glued").is_none());
    // empty marker before the separator: rejected
    assert!(parse_line(" - description only").is_none());
    // empty description after the separator: accepted, description is empty
    let t = parse_line("[X] - ").unwrap();
    assert_eq!(t.text, "");
    assert_eq!(t.kind, TaskKind::Done);
}

#[test]
fn test_trim_str() {
    assert_eq!(trim_str("  spaced out \t\n"), "spaced out");
    assert_eq!(trim_str("untouched"), "untouched");
    assert_eq!(trim_str(" \u{a0}\u{2003} "), "");
    assert_eq!(trim_str(""), "");
}
