use poirogue_core::game_systems::directives::{
    notify, notify_if_alive, resolve_notify_if_entity_alive_directives, NotifyDirective,
};
use poirogue_core::game_systems::intents::ResolvedIntents;
use poirogue_core::game_systems::notifications::{
    update_notification_log_expiry, NotificationLog,
};
use std::collections::VecDeque;

fn messages(log: &NotificationLog) -> Vec<&str> {
    log.log.iter().map(|s| s.as_str()).collect()
}

#[test]
fn new_log_is_empty() {
    let log = NotificationLog::new(3, 360);
    assert_eq!(log.len(), 0);
    assert_eq!(log.cap, 3);
}

#[test]
fn write_appends() {
    let mut log = NotificationLog::new(3, 10);
    log.write(String::from("a"));
    log.write(String::from("b"));
    assert_eq!(messages(&log), vec!["a", "b"]);
    assert_eq!(log.len(), 2);
}

#[test]
fn write_suppresses_consecutive_duplicates_only() {
    let mut log = NotificationLog::new(5, 10);
    log.write(String::from("a"));
    log.write(String::from("a"));
    log.write(String::from("b"));
    log.write(String::from("a"));
    log.write(String::from("a"));
    assert_eq!(messages(&log), vec!["a", "b", "a"]);
}

#[test]
fn write_evicts_oldest_at_capacity() {
    let mut log = NotificationLog::new(3, 10);
    for m in ["a", "b", "c", "d", "e"] {
        log.write(String::from(m));
        assert!(log.len() <= 3);
    }
    assert_eq!(messages(&log), vec!["c", "d", "e"]);
}

#[test]
fn log_of_capacity_one_keeps_the_newest() {
    let mut log = NotificationLog::new(1, 10);
    log.write(String::from("a"));
    log.write(String::from("b"));
    assert_eq!(messages(&log), vec!["b"]);
    log.write(String::from("b"));
    assert_eq!(messages(&log), vec!["b"]);
}

#[test]
fn tick_on_empty_log_does_nothing() {
    let mut log = NotificationLog::new(3, 2);
    for _ in 0..10 {
        log.tick();
    }
    log.write(String::from("a"));
    log.tick();
    assert_eq!(log.len(), 1);
}

#[test]
fn oldest_entry_leaves_exactly_expire_time_ticks_after_last_write() {
    let mut log = NotificationLog::new(3, 4);
    log.write(String::from("a"));
    log.tick();
    log.tick();
    log.write(String::from("b"));
    for _ in 0..3 {
        log.tick();
        assert_eq!(messages(&log), vec!["a", "b"]);
    }
    log.tick();
    assert_eq!(messages(&log), vec!["b"]);
    for _ in 0..3 {
        log.tick();
        assert_eq!(messages(&log), vec!["b"]);
    }
    log.tick();
    assert_eq!(log.len(), 0);
}

#[test]
fn suppressed_duplicate_does_not_refresh_the_countdown() {
    let mut log = NotificationLog::new(3, 3);
    log.write(String::from("a"));
    log.tick();
    log.tick();
    log.write(String::from("a"));
    log.tick();
    assert_eq!(log.len(), 0);
}

#[test]
fn expire_time_of_one_evicts_on_every_tick() {
    let mut log = NotificationLog::new(3, 1);
    log.write(String::from("a"));
    log.write(String::from("b"));
    update_notification_log_expiry(&mut log);
    assert_eq!(messages(&log), vec!["b"]);
    update_notification_log_expiry(&mut log);
    assert_eq!(log.len(), 0);
}

#[test]
fn notify_builders() {
    let n = notify("hello");
    assert_eq!(n.entity_alive, None);
    assert_eq!(n.notification, "hello");
    let n = notify_if_alive(7, "locked");
    assert_eq!(n.entity_alive, Some(7));
    assert_eq!(n.notification, "locked");
}

#[test]
fn notifications_are_written_newest_first() {
    let mut log = NotificationLog::new(5, 10);
    let mut dirs: VecDeque<NotifyDirective> = VecDeque::new();
    dirs.push_back(notify("first"));
    dirs.push_back(notify("second"));
    dirs.push_back(notify("third"));
    let handled = ResolvedIntents::default();
    resolve_notify_if_entity_alive_directives(&mut dirs, &mut log, &handled);
    assert!(dirs.is_empty());
    assert_eq!(messages(&log), vec!["third", "second", "first"]);
}

#[test]
fn liveness_checked_notification_is_dropped_once_claimed() {
    let mut log = NotificationLog::new(5, 10);
    let mut dirs: VecDeque<NotifyDirective> = VecDeque::new();
    dirs.push_back(notify_if_alive(1, "one is locked"));
    dirs.push_back(notify_if_alive(2, "two is locked"));
    dirs.push_back(notify("always"));
    let mut handled = ResolvedIntents::default();
    handled.claim(1);
    resolve_notify_if_entity_alive_directives(&mut dirs, &mut log, &handled);
    assert_eq!(messages(&log), vec!["always", "two is locked"]);
}
