use task_txt::app::{filter_tasks, App};
use task_txt::task::{read_tasks, TaskKind};

fn sample_lines() -> Vec<String> {
    vec![
        String::from("[ ] - wash up"),
        String::from("[X] - shipped"),
        String::from("[ ] - buy milk"),
        String::from("not a task"),
        String::from("[?] - maybe call"),
        String::from("[~] - halfway"),
        String::from("[X] - reviewed"),
    ]
}

#[test]
fn test_partition_completeness() {
    let tasks = read_tasks(&sample_lines());
    let total = tasks.len();
    let nd = filter_tasks(&tasks, TaskKind::NotDone);
    let ad = filter_tasks(&tasks, TaskKind::AlmostDone);
    let dd = filter_tasks(&tasks, TaskKind::Done);
    let un = filter_tasks(&tasks, TaskKind::Unsure);
    assert_eq!(nd.len() + ad.len() + dd.len() + un.len(), total);
    for t in &nd {
        assert_eq!(t.kind, TaskKind::NotDone);
    }
    for t in &ad {
        assert_eq!(t.kind, TaskKind::AlmostDone);
    }
    for t in &dd {
        assert_eq!(t.kind, TaskKind::Done);
    }
    for t in &un {
        assert_eq!(t.kind, TaskKind::Unsure);
    }
}

#[test]
fn test_partition_preserves_order() {
    let tasks = read_tasks(&sample_lines());
    let nd = filter_tasks(&tasks, TaskKind::NotDone);
    assert_eq!(nd.len(), 2);
    assert_eq!(nd[0].text, "wash up");
    assert_eq!(nd[1].text, "buy milk");
    let dd = filter_tasks(&tasks, TaskKind::Done);
    assert_eq!(dd.len(), 2);
    assert_eq!(dd[0].text, "shipped");
    assert_eq!(dd[1].text, "reviewed");
}

#[test]
fn test_app_new() {
    let app = App::new(read_tasks(&sample_lines()));
    assert!(!app.should_quit);
    assert_eq!(app.title, "Task txt");
    assert_eq!(app.tabs.index, 0);
    assert_eq!(app.tabs.titles, vec!["Not Done", "Almost Done", "Done", "Unsure"]);
    assert_eq!(app.not_done_tasks.tasks.len(), 2);
    assert_eq!(app.almost_done_tasks.tasks.len(), 1);
    assert_eq!(app.done_tasks.tasks.len(), 2);
    assert_eq!(app.unsure_tasks.tasks.len(), 1);
    assert_eq!(app.not_done_tasks.selected, None);
    assert_eq!(app.almost_done_tasks.selected, None);
    assert_eq!(app.done_tasks.selected, None);
    assert_eq!(app.unsure_tasks.selected, None);
    assert!(app.is_well_formed());
}

#[test]
fn test_empty_store_dispatch() {
    let mut app = App::new(Vec::new());
    assert!(app.is_well_formed());
    assert_eq!(app.active_tasks().tasks.len(), 0);
    app.on_down();
    app.on_up();
    assert_eq!(app.not_done_tasks.selected, None);
    assert!(app.is_well_formed());
}

#[test]
fn test_quit_key() {
    let mut app = App::new(read_tasks(&sample_lines()));
    app.on_key('x');
    assert!(!app.should_quit);
    app.on_tick();
    assert!(!app.should_quit);
    app.on_key('q');
    assert!(app.should_quit);
}

#[test]
fn test_tab_dispatch() {
    let mut app = App::new(read_tasks(&sample_lines()));
    app.on_left();
    assert_eq!(app.tabs.index, 3);
    app.on_right();
    assert_eq!(app.tabs.index, 0);
    app.on_right();
    assert_eq!(app.tabs.index, 1);
}

#[test]
fn test_selection_dispatch_targets_active_tab() {
    let mut app = App::new(read_tasks(&sample_lines()));
    app.on_down();
    assert_eq!(app.not_done_tasks.selected, Some(0));
    assert_eq!(app.almost_done_tasks.selected, None);
    app.on_down();
    assert_eq!(app.not_done_tasks.selected, Some(1));
    app.on_down();
    assert_eq!(app.not_done_tasks.selected, Some(1));
    app.on_up();
    assert_eq!(app.not_done_tasks.selected, Some(0));
    app.on_right();
    app.on_down();
    assert_eq!(app.almost_done_tasks.selected, Some(0));
    assert_eq!(app.not_done_tasks.selected, Some(0));
}

#[test]
fn test_active_tasks_follows_tab() {
    let mut app = App::new(read_tasks(&sample_lines()));
    assert_eq!(app.active_tasks().tasks[0].text, "wash up");
    app.on_right();
    assert_eq!(app.active_tasks().tasks[0].text, "halfway");
    app.on_right();
    assert_eq!(app.active_tasks().tasks[0].text, "shipped");
    app.on_right();
    assert_eq!(app.active_tasks().tasks[0].text, "maybe call");
}
