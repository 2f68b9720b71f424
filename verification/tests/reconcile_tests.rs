use im_core::model::ChatType;
use im_core::reconcile::{
    fresh_chat, repair_conflicting, resolve_insert_race, ConversationTable, ReconcileError,
};

#[test]
fn get_or_create_creates_a_fresh_row() {
    let mut table = ConversationTable::new();
    let chat = table.get_or_create_chat("single_a_b", ChatType::Single, "a", "b", 1000);
    assert_eq!(chat.chat_id, "single_a_b");
    assert_eq!(chat.chat_type.code(), 1);
    assert_eq!(chat.owner_id, "a");
    assert_eq!(chat.to_id, "b");
    assert_eq!(chat.sequence, 0);
    assert_eq!(chat.version, 1);
    assert_eq!(chat.del_flag, 1);
}

/// Get-or-create idempotence: a second identical call names the same
/// conversation with the same type and changes nothing.
#[test]
fn get_or_create_is_idempotent() {
    let mut table = ConversationTable::new();
    let first = table.get_or_create_chat("group_9", ChatType::Group, "a", "9", 1000);
    let second = table.get_or_create_chat("group_9", ChatType::Group, "a", "9", 2000);
    assert_eq!(first.chat_id, second.chat_id);
    assert_eq!(first.chat_type.code(), second.chat_type.code());
    assert_eq!(second.version, 1, "the second call must not touch the row");
    assert_eq!(second.create_time, 1000);
}

/// Type-drift repair: a row stored as a single chat under a group-encoded
/// id is answered with the requested group type, version bumped.
#[test]
fn type_drift_is_repaired_to_the_requested_type() {
    let mut table = ConversationTable::new();
    let drifted = fresh_chat("group_42", ChatType::Single, "owner_1", "42", 500);
    table.load_row(drifted);

    let repaired = table.get_or_create_chat("group_42", ChatType::Group, "owner_1", "group_42", 900);
    assert_eq!(repaired.chat_type.code(), 2);
    assert_eq!(repaired.chat_id, "group_42");
    assert_eq!(repaired.to_id, "group_42");
    assert_eq!(repaired.version, 2, "the optimistic counter is bumped defensively");
    assert_eq!(repaired.create_time, 500, "history is kept");

    // The repair stuck: an exact group-typed query now finds the row.
    let found = table
        .query_exact("group_42", "owner_1", ChatType::Group)
        .expect("the repaired row is found");
    assert_eq!(found.chat_type.code(), 2);
    assert!(table.query_exact("group_42", "owner_1", ChatType::Single).is_none());
}

#[test]
fn repair_value_reports_the_callers_type_whatever_storage_does() {
    let drifted = fresh_chat("group_42", ChatType::Single, "owner_1", "42", 500);
    // The reconciled value is what the caller sees even when the row update
    // never reaches storage.
    let value = repair_conflicting(&drifted, ChatType::Group, "group_42", 900);
    assert_eq!(value.chat_type.code(), 2);
    assert_eq!(value.to_id, "group_42");
    assert_eq!(value.version, 2);
}

#[test]
fn insert_race_serves_only_the_owner() {
    let existing = fresh_chat("single_a_b", ChatType::Single, "a", "b", 100);
    let same_owner = resolve_insert_race("a", &existing).expect("the owner gets the row");
    assert_eq!(same_owner.owner_id, "a");
    assert_eq!(
        resolve_insert_race("intruder", &existing).unwrap_err(),
        ReconcileError::DataIntegrity
    );
}

#[test]
fn housekeeping_updates_are_visible_and_bump_versions() {
    let mut table = ConversationTable::new();
    table.get_or_create_chat("group_7", ChatType::Group, "a", "7", 100);

    table.update_chat_sequence("group_7", 555, 200);
    let row = table.query_exact("group_7", "a", ChatType::Group).unwrap();
    assert_eq!(row.sequence, 555);
    assert_eq!(row.version, 2);

    table.update_read_sequence("group_7", 555, 300);
    table.set_chat_top("group_7", 1, 400);
    table.set_chat_mute("group_7", 1, 500);
    table.update_chat_remark("group_7", "a", Some("work".to_string()), 600);
    let row = table.query_exact("group_7", "a", ChatType::Group).unwrap();
    assert_eq!(row.read_sequence, 555);
    assert_eq!(row.is_top, 1);
    assert_eq!(row.is_mute, 1);
    assert_eq!(row.remark.as_deref(), Some("work"));
    assert_eq!(row.version, 6);

    table.delete_chat("group_7", "a", 700);
    assert!(table.query_exact("group_7", "a", ChatType::Group).is_none());
}

#[test]
fn unread_statistics_sum_the_high_water_gaps() {
    let mut table = ConversationTable::new();
    table.get_or_create_chat("single_a_b", ChatType::Single, "a", "b", 100);
    table.get_or_create_chat("group_9", ChatType::Group, "a", "9", 100);
    table.get_or_create_chat("single_a_c", ChatType::Single, "a", "c", 100);
    table.update_chat_sequence("single_a_b", 5, 200);
    table.update_chat_sequence("group_9", 7, 200);
    table.update_read_sequence("group_9", 4, 300);

    let stats = table.get_unread_message_stats("a");
    assert_eq!(stats.single_chat_unread, 5);
    assert_eq!(stats.group_chat_unread, 3);
    assert_eq!(stats.total_unread, 8);

    let nobody = table.get_unread_message_stats("z");
    assert_eq!(nobody.total_unread, 0);
}

#[test]
fn chat_lists_put_pinned_first_then_recent() {
    let mut table = ConversationTable::new();
    table.get_or_create_chat("single_a_b", ChatType::Single, "a", "b", 100);
    table.get_or_create_chat("single_a_c", ChatType::Single, "a", "c", 300);
    table.get_or_create_chat("group_9", ChatType::Group, "a", "9", 200);
    table.get_or_create_chat("single_x_y", ChatType::Single, "someone_else", "y", 400);
    table.set_chat_top("group_9", 1, 250);
    table.delete_chat("single_a_b", "a", 500);

    let chats = table.get_user_chats("a");
    let ids: Vec<&str> = chats.iter().map(|c| c.chat_id.as_str()).collect();
    assert_eq!(ids, vec!["group_9", "single_a_c"]);
}

#[test]
fn listing_repair_aligns_types_with_encoded_ids() {
    let mut table = ConversationTable::new();
    // Drift in both directions, plus rows that must not move.
    table.load_row(fresh_chat("group_42", ChatType::Single, "a", "42", 100));
    table.load_row(fresh_chat("single_a_b", ChatType::Group, "a", "b", 100));
    table.load_row(fresh_chat("single_a_c", ChatType::Single, "a", "c", 100));
    table.load_row(fresh_chat("group_42", ChatType::Single, "other", "42", 100));

    table.repair_encoded_types("a", 900);

    let group = table.query_exact("group_42", "a", ChatType::Group).unwrap();
    assert_eq!(group.chat_type.code(), 2);
    assert_eq!(group.version, 2);
    let single = table.query_exact("single_a_b", "a", ChatType::Single).unwrap();
    assert_eq!(single.chat_type.code(), 1);
    let untouched = table.query_exact("single_a_c", "a", ChatType::Single).unwrap();
    assert_eq!(untouched.version, 1);
    // Another owner's drifted row is not this owner's to repair.
    assert!(table.query_exact("group_42", "other", ChatType::Single).is_some());
}
