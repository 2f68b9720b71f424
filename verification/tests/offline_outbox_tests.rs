use im_core::offline::OfflineQueue;
use im_core::outbox::{OutboxError, OutboxLedger, OutboxStatus};

/// Offline replay order: pushing A then B and draining later yields
/// exactly [A, B].
#[test]
fn offline_replay_is_oldest_first() {
    let mut queue = OfflineQueue::new();
    queue.add_offline_message("bob", "A".to_string());
    queue.add_offline_message("bob", "B".to_string());
    let drained = queue.get_and_clear_offline_messages("bob");
    assert_eq!(drained, vec!["A".to_string(), "B".to_string()]);
    assert_eq!(queue.get_offline_message_count("bob"), 0);
}

#[test]
fn offline_queues_are_per_recipient() {
    let mut queue = OfflineQueue::new();
    queue.add_offline_message("bob", "for bob".to_string());
    queue.add_offline_message("carol", "for carol".to_string());
    queue.add_offline_message("bob", "more for bob".to_string());
    assert_eq!(queue.get_offline_message_count("bob"), 2);
    assert_eq!(queue.get_offline_message_count("carol"), 1);

    let bobs = queue.get_and_clear_offline_messages("bob");
    assert_eq!(bobs.len(), 2);
    assert_eq!(queue.get_offline_message_count("bob"), 0);
    assert_eq!(queue.get_offline_message_count("carol"), 1, "other lists are untouched");
}

#[test]
fn draining_an_empty_list_yields_nothing() {
    let mut queue = OfflineQueue::new();
    let drained = queue.get_and_clear_offline_messages("nobody");
    assert!(drained.is_empty());
}

#[test]
fn outbox_create_get_and_mark_sent() {
    let mut ledger = OutboxLedger::new();
    let entry = ledger.create("msg_1", "payload", "im.exchange", "user.inbox", 1000);
    assert_eq!(entry.id, 1);
    assert_eq!(entry.attempts, 0);
    assert_eq!(entry.status, OutboxStatus::Pending);

    let fetched = ledger.get_by_id(1).expect("the entry exists");
    assert_eq!(fetched.message_id, "msg_1");
    assert_eq!(fetched.payload, "payload");

    ledger.mark_sent(1, 2000).expect("the entry exists");
    let sent = ledger.get_by_id(1).expect("the entry exists");
    assert_eq!(sent.status, OutboxStatus::Sent);
    assert_eq!(sent.updated_at, 2000);

    assert_eq!(ledger.get_by_id(99).unwrap_err(), OutboxError::NotFound);
    assert_eq!(ledger.update_status(99, OutboxStatus::Failed, 0), Err(OutboxError::NotFound));
}

#[test]
fn pending_entries_come_oldest_created_first() {
    let mut ledger = OutboxLedger::new();
    ledger.create("m1", "p1", "x", "k", 100);
    ledger.create("m2", "p2", "x", "k", 200);
    ledger.create("m3", "p3", "x", "k", 300);
    ledger.mark_sent(2, 400).unwrap();
    // A backoff pushes the third entry beyond `now`.
    ledger.set_next_try_at(3, Some(10_000), 500).unwrap();

    let due = ledger.get_pending_messages(10, 1000);
    assert_eq!(due.len(), 1);
    assert_eq!(due[0].message_id, "m1");

    let later = ledger.get_pending_messages(10, 20_000);
    let ids: Vec<&str> = later.iter().map(|e| e.message_id.as_str()).collect();
    assert_eq!(ids, vec!["m1", "m3"], "creation order, oldest first");

    let limited = ledger.get_pending_messages(1, 20_000);
    assert_eq!(limited.len(), 1);
    assert_eq!(limited[0].message_id, "m1");
}

#[test]
fn failed_entries_come_most_recently_updated_first() {
    let mut ledger = OutboxLedger::new();
    ledger.create("m1", "p1", "x", "k", 100);
    ledger.create("m2", "p2", "x", "k", 100);
    ledger.create("m3", "p3", "x", "k", 100);
    ledger.update_status(1, OutboxStatus::Failed, 900).unwrap();
    ledger.update_status(2, OutboxStatus::Failed, 300).unwrap();
    ledger.update_status(3, OutboxStatus::Failed, 600).unwrap();

    let failed = ledger.get_failed_messages(10);
    let ids: Vec<&str> = failed.iter().map(|e| e.message_id.as_str()).collect();
    assert_eq!(ids, vec!["m1", "m3", "m2"]);

    let top = ledger.get_failed_messages(2);
    assert_eq!(top.len(), 2);
    assert!(top[0].updated_at >= top[1].updated_at);
}

#[test]
fn attempts_and_errors_are_recorded() {
    let mut ledger = OutboxLedger::new();
    ledger.create("m1", "p1", "x", "k", 100);
    ledger
        .increment_attempts(1, Some("broker unreachable".to_string()), 200)
        .unwrap();
    ledger.increment_attempts(1, Some("still down".to_string()), 300).unwrap();
    let entry = ledger.get_by_id(1).unwrap();
    assert_eq!(entry.attempts, 2);
    assert_eq!(entry.last_error.as_deref(), Some("still down"));
    assert_eq!(entry.updated_at, 300);
}
