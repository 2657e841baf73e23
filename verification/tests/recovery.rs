use text_editor::editor::recovery::{recovery_file_name, RecoveryManager, RECOVERY_INTERVAL_MS};

#[test]
fn first_dirty_tick_writes_a_snapshot() {
    let mut m = RecoveryManager::new("/tmp/recovery".to_string());
    assert!(m.tick(1_000, true));
}

#[test]
fn clean_buffer_never_snapshots() {
    let mut m = RecoveryManager::new("r".to_string());
    assert!(!m.tick(0, false));
    assert!(!m.tick(1_000_000, false));
    assert!(m.tick(1_000_001, true));
}

#[test]
fn snapshots_are_an_interval_apart() {
    let mut m = RecoveryManager::new("r".to_string());
    assert!(m.tick(5_000, true));
    assert!(!m.tick(5_000 + RECOVERY_INTERVAL_MS - 1, true));
    assert!(m.tick(5_000 + RECOVERY_INTERVAL_MS, true));
    assert!(!m.tick(5_000 + RECOVERY_INTERVAL_MS + 10, true));
}

#[test]
fn a_clock_going_back_counts_as_no_time() {
    let mut m = RecoveryManager::new("r".to_string());
    assert!(m.tick(100_000, true));
    assert!(!m.tick(10, true));
}

#[test]
fn check_recovery_reports_an_existing_file() {
    let m = RecoveryManager::new("/var/tmp/rec".to_string());
    let expected = std::path::Path::new("/var/tmp/rec").join(".recovery");
    let expected = expected.to_str().unwrap();
    assert_eq!(m.check_recovery(true), Some(expected));
    assert_eq!(m.check_recovery(false), None);
    assert_eq!(m.recovery_path(), expected);
    let p = std::path::Path::new(m.recovery_path());
    assert_eq!(p.parent(), Some(std::path::Path::new("/var/tmp/rec")));
}

#[test]
fn recovery_file_sits_beside_the_document() {
    let m = RecoveryManager::for_file("notes/todo.md");
    let expected = std::path::Path::new("notes").join("todo.md.recovery");
    assert_eq!(m.recovery_path(), expected.to_str().unwrap());
    let bare = RecoveryManager::for_file("todo.md");
    assert_eq!(bare.recovery_path(), "todo.md.recovery");
}

#[test]
fn recovery_name_appends_the_extension() {
    assert_eq!(recovery_file_name(Some("a.md".to_string())), "a.md.recovery");
    assert_eq!(recovery_file_name(None), ".recovery");
}
