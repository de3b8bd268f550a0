use task_txt::task::ColorId;
use task_txt::task::TaskKind;

#[test]
fn test_task_kind_try_from() {
    assert_eq!(TaskKind::try_from("[ ]"), Some(TaskKind::NotDone));
    assert_eq!(TaskKind::try_from("[X]"), Some(TaskKind::Done));
    assert_eq!(TaskKind::try_from("[~]"), Some(TaskKind::AlmostDone));
    assert_eq!(TaskKind::try_from("[?]"), Some(TaskKind::Unsure));
    assert_eq!(TaskKind::try_from(" [?] "), None);
    assert_eq!(TaskKind::try_from("[A]"), None);
    assert_eq!(TaskKind::try_from("Test"), None);
    assert_eq!(TaskKind::try_from("[[x]]"), None);
    assert_eq!(TaskKind::try_from("[\\]"), None);
    assert_eq!(TaskKind::try_from("[:]"), None);
}

#[test]
fn test_marker_round_trip() {
    let kinds = [
        TaskKind::NotDone,
        TaskKind::Done,
        TaskKind::AlmostDone,
        TaskKind::Unsure,
    ];
    for kind in kinds {
        assert_eq!(TaskKind::try_from(kind.to_str()), Some(kind));
    }
    let markers = ["[ ]", "[X]", "[~]", "[?]"];
    for marker in markers {
        let decoded = TaskKind::try_from(marker).unwrap();
        assert_eq!(decoded.to_str(), marker);
    }
}

#[test]
fn test_marker_literals() {
    assert_eq!(TaskKind::NotDone.to_str(), "[ ]");
    assert_eq!(TaskKind::Done.to_str(), "[X]");
    assert_eq!(TaskKind::AlmostDone.to_str(), "[~]");
    assert_eq!(TaskKind::Unsure.to_str(), "[?]");
}

#[test]
fn test_colors() {
    assert_eq!(TaskKind::NotDone.to_color(), ColorId::Red);
    assert_eq!(TaskKind::Done.to_color(), ColorId::Green);
    assert_eq!(TaskKind::AlmostDone.to_color(), ColorId::Yellow);
    assert_eq!(TaskKind::Unsure.to_color(), ColorId::Blue);
}
