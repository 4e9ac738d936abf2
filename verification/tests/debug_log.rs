use container_manager::log::{DebugLog, LOG_CAPACITY};
use container_manager::manager::ContainerManager;

#[test]
fn a_line_is_stamp_in_brackets_and_message() {
    let mut log = DebugLog::new();
    assert_eq!(log.len(), 0);
    log.record("12:00:01", "Refreshing container list");
    assert_eq!(log.messages(), vec!["[12:00:01] Refreshing container list"]);
    log.record("", "");
    assert_eq!(log.messages(), vec!["[12:00:01] Refreshing container list", "[] "]);
    assert_eq!(log.len(), 2);
}

#[test]
fn the_log_keeps_the_last_hundred_lines() {
    assert_eq!(LOG_CAPACITY, 100);
    let mut log = DebugLog::new();
    for i in 0..100 {
        log.record("t", &format!("m{}", i));
    }
    assert_eq!(log.len(), 100);
    assert_eq!(log.messages()[0], "[t] m0");
    log.record("t", "m100");
    assert_eq!(log.len(), 100);
    assert_eq!(log.messages()[0], "[t] m1");
    assert_eq!(log.messages()[99], "[t] m100");
    for i in 101..250 {
        log.record("t", &format!("m{}", i));
    }
    assert_eq!(log.len(), 100);
    assert_eq!(log.messages()[0], "[t] m150");
    assert_eq!(log.messages()[99], "[t] m249");
}

#[test]
fn the_clock_stamps_hours_minutes_and_seconds() {
    let mut log = DebugLog::new();
    log.log_debug("hello");
    let lines = log.messages();
    assert_eq!(lines.len(), 1);
    let line: Vec<char> = lines[0].chars().collect();
    assert_eq!(line.len(), "[00:00:00] hello".len());
    assert_eq!(line[0], '[');
    for i in [1, 2, 4, 5, 7, 8] {
        assert!(line[i].is_ascii_digit(), "position {} of {:?}", i, lines[0]);
    }
    assert_eq!(line[3], ':');
    assert_eq!(line[6], ':');
    assert!(lines[0].ends_with("] hello"));
}

#[test]
fn the_manager_logs_into_its_own_log() {
    let mut manager = ContainerManager::new();
    assert!(manager.debug_messages().is_empty());
    manager.record("09:30:00", "Container name is empty");
    manager.log_debug("No container selected");
    let lines = manager.debug_messages();
    assert_eq!(lines.len(), 2);
    assert_eq!(lines[0], "[09:30:00] Container name is empty");
    assert!(lines[1].ends_with("] No container selected"));
    assert!(!manager.is_busy());
}
