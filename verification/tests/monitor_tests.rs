use copymate::gate::SuppressionGate;
use copymate::history::HistoryStore;
use copymate::monitor::ClipboardMonitor;
use copymate::monitor::PollAction;

#[test]
fn a_failed_read_changes_nothing() {
    let mut store = HistoryStore::new();
    let mut gate = SuppressionGate::new();
    let mut monitor = ClipboardMonitor::new();
    let action = monitor.poll_step_at(None, 1, &mut store, &mut gate);
    assert_eq!(action, PollAction::Ignored);
    assert_eq!(store.list().len(), 0);
}

#[test]
fn an_unchanged_value_is_ignored() {
    let mut store = HistoryStore::new();
    let mut gate = SuppressionGate::new();
    let mut monitor = ClipboardMonitor::new();
    let value = "same".to_string();
    assert_eq!(
        monitor.poll_step_at(Some(&value), 1, &mut store, &mut gate),
        PollAction::Recorded
    );
    assert_eq!(
        monitor.poll_step_at(Some(&value), 2, &mut store, &mut gate),
        PollAction::Ignored
    );
    assert_eq!(store.list().len(), 1);
}

#[test]
fn a_blank_value_is_ignored_and_leaves_the_gate_armed() {
    let mut store = HistoryStore::new();
    let mut gate = SuppressionGate::new();
    let mut monitor = ClipboardMonitor::new();
    gate.arm();
    let blank = "   ".to_string();
    assert_eq!(
        monitor.poll_step_at(Some(&blank), 1, &mut store, &mut gate),
        PollAction::Ignored
    );
    assert_eq!(store.list().len(), 0);
    // The suppression slot was not consumed: the next genuine change is
    // still suppressed.
    let value = "mine".to_string();
    assert_eq!(
        monitor.poll_step_at(Some(&value), 2, &mut store, &mut gate),
        PollAction::Suppressed
    );
    assert_eq!(store.list().len(), 0);
}

#[test]
fn a_suppressed_change_is_remembered_but_not_recorded() {
    let mut store = HistoryStore::new();
    let mut gate = SuppressionGate::new();
    let mut monitor = ClipboardMonitor::new();
    gate.arm();
    let x = "x".to_string();
    let action = monitor.poll_step_at(Some(&x), 1, &mut store, &mut gate);
    assert_eq!(action, PollAction::Suppressed);
    assert_eq!(store.list().len(), 0);
    // The suppressed value became the last observed one: seeing it again
    // changes nothing.
    assert_eq!(
        monitor.poll_step_at(Some(&x), 2, &mut store, &mut gate),
        PollAction::Ignored
    );
    // A following external change is recorded and owed a notification.
    let y = "y".to_string();
    let later = monitor.poll_step_at(Some(&y), 3, &mut store, &mut gate);
    assert_eq!(later, PollAction::Recorded);
    let listed = store.list();
    assert_eq!(listed.len(), 1);
    assert_eq!(listed[0].content, "y");
}

#[test]
fn a_copied_value_read_back_makes_no_entry() {
    let mut store = HistoryStore::new();
    let mut gate = SuppressionGate::new();
    let mut monitor = ClipboardMonitor::new();
    // The write controller arms suppression, then writes to the OS clipboard.
    let secret = "secret".to_string();
    gate.arm();
    // The next poll reads the written value back.
    let action = monitor.poll_step_at(Some(&secret), 1, &mut store, &mut gate);
    assert_eq!(action, PollAction::Suppressed);
    assert_eq!(store.list().len(), 0);
}

#[test]
fn a_value_equal_to_the_front_entry_is_not_recorded_twice() {
    let mut store = HistoryStore::new();
    let mut gate = SuppressionGate::new();
    let mut monitor = ClipboardMonitor::new();
    let v = "seen".to_string();
    assert!(store.insert_at(&v, 1));
    // The monitor has not observed the value yet, but the history rejects a
    // duplicate of its front entry.
    let action = monitor.poll_step_at(Some(&v), 2, &mut store, &mut gate);
    assert_eq!(action, PollAction::SkippedDuplicate);
    assert_eq!(store.list().len(), 1);
    // The value still became the last observed one.
    assert_eq!(
        monitor.poll_step_at(Some(&v), 3, &mut store, &mut gate),
        PollAction::Ignored
    );
}

#[test]
fn recorded_entries_appear_in_poll_order() {
    let mut store = HistoryStore::new();
    let mut gate = SuppressionGate::new();
    let mut monitor = ClipboardMonitor::new();
    for value in ["one", "two", "three"] {
        let owned = value.to_string();
        assert_eq!(
            monitor.poll_step_at(Some(&owned), 1, &mut store, &mut gate),
            PollAction::Recorded
        );
    }
    let listed = store.list();
    assert_eq!(listed.len(), 3);
    assert_eq!(listed[0].content, "three");
    assert_eq!(listed[1].content, "two");
    assert_eq!(listed[2].content, "one");
}

#[test]
fn poll_with_clock_records_a_genuine_change() {
    let mut store = HistoryStore::new();
    let mut gate = SuppressionGate::new();
    let mut monitor = ClipboardMonitor::new();
    let value = "ticked".to_string();
    let action = monitor.poll_step(Some(&value), &mut store, &mut gate);
    assert_eq!(action, PollAction::Recorded);
    let listed = store.list();
    assert_eq!(listed.len(), 1);
    assert_eq!(listed[0].content, "ticked");
}
