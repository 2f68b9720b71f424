use im_core::message::{ImGroupMessage, ImSingleMessage, ValidationError};
use im_core::model::{
    encoded_chat_type, is_ephemeral_content, make_group_chat_id, make_single_chat_id, ChatType,
    GroupDirectory, SafeUser, User, CONTENT_TYPE_CALL_INVITE, CONTENT_TYPE_TEXT,
};
use im_core::util::{mqtt_user_topic, now_timestamp, now_timestamp_seconds};

fn base_single() -> ImSingleMessage {
    ImSingleMessage {
        message_id: "m1".to_string(),
        from_id: "alice".to_string(),
        to_id: "bob".to_string(),
        message_body: "hello".to_string(),
        message_time: 1_700_000_000_000,
        message_content_type: CONTENT_TYPE_TEXT,
        read_status: 0,
        extra: None,
        del_flag: 1,
        sequence: 1_700_000_000_000,
        message_random: None,
        create_time: None,
        update_time: None,
        version: Some(1),
        reply_to: None,
        to_type: Some("User".to_string()),
        file_url: None,
        file_name: None,
        file_type: None,
    }
}

fn base_group() -> ImGroupMessage {
    ImGroupMessage {
        message_id: "m1".to_string(),
        group_id: "group_1".to_string(),
        from_id: "alice".to_string(),
        message_body: "hello group".to_string(),
        message_time: 1_700_000_000_000,
        message_content_type: CONTENT_TYPE_TEXT,
        extra: None,
        del_flag: 1,
        sequence: Some(1_700_000_000_000),
        message_random: None,
        create_time: 1_700_000_000_000,
        update_time: None,
        version: Some(1),
        reply_to: None,
    }
}

#[test]
fn a_sound_message_validates() {
    assert_eq!(base_single().validate(), Ok(()));
    assert_eq!(base_group().validate(), Ok(()));
}

#[test]
fn empty_fields_are_rejected_in_order() {
    let mut m = base_single();
    m.message_id = String::new();
    assert_eq!(m.validate(), Err(ValidationError::EmptyMessageId));
    let mut m = base_single();
    m.from_id = String::new();
    assert_eq!(m.validate(), Err(ValidationError::EmptyFromId));
    let mut m = base_single();
    m.to_id = String::new();
    assert_eq!(m.validate(), Err(ValidationError::EmptyToId));
    let mut m = base_single();
    m.message_body = String::new();
    assert_eq!(m.validate(), Err(ValidationError::EmptyBody));
    let mut g = base_group();
    g.group_id = String::new();
    assert_eq!(g.validate(), Err(ValidationError::EmptyGroupId));
}

#[test]
fn oversize_fields_are_rejected() {
    let mut m = base_single();
    m.message_id = "x".repeat(513);
    assert_eq!(m.validate(), Err(ValidationError::MessageIdTooLong));
    let mut m = base_single();
    m.from_id = "x".repeat(51);
    assert_eq!(m.validate(), Err(ValidationError::FromIdTooLong));
    let mut m = base_single();
    m.to_id = "x".repeat(51);
    assert_eq!(m.validate(), Err(ValidationError::ToIdTooLong));
    let mut m = base_single();
    m.message_random = Some("x".repeat(256));
    assert_eq!(m.validate(), Err(ValidationError::MessageRandomTooLong));
    let mut m = base_single();
    m.reply_to = Some("x".repeat(256));
    assert_eq!(m.validate(), Err(ValidationError::ReplyToTooLong));
    let mut m = base_single();
    m.file_url = Some("x".repeat(513));
    assert_eq!(m.validate(), Err(ValidationError::FileUrlTooLong));
    let mut m = base_single();
    m.file_name = Some("x".repeat(256));
    assert_eq!(m.validate(), Err(ValidationError::FileNameTooLong));
    let mut m = base_single();
    m.file_type = Some("x".repeat(65));
    assert_eq!(m.validate(), Err(ValidationError::FileTypeTooLong));
    let mut g = base_group();
    g.group_id = "x".repeat(256);
    assert_eq!(g.validate(), Err(ValidationError::GroupIdTooLong));
    let mut g = base_group();
    g.from_id = "x".repeat(21);
    assert_eq!(g.validate(), Err(ValidationError::FromIdTooLong));
}

#[test]
fn unknown_recipient_kinds_are_rejected() {
    let mut m = base_single();
    m.to_type = Some("Robot".to_string());
    assert_eq!(m.validate(), Err(ValidationError::InvalidToType));
    let mut m = base_single();
    m.to_type = Some("Group".to_string());
    assert_eq!(m.validate(), Ok(()));
}

#[test]
fn content_types_classify_as_specified() {
    assert!(is_ephemeral_content(CONTENT_TYPE_CALL_INVITE));
    assert!(!is_ephemeral_content(CONTENT_TYPE_TEXT));
    assert_eq!(ChatType::from_code(1), Some(ChatType::Single));
    assert_eq!(ChatType::from_code(2), Some(ChatType::Group));
    assert_eq!(ChatType::from_code(3), None);
    assert_eq!(ChatType::Single.code(), 1);
    assert_eq!(ChatType::Group.code(), 2);
}

#[test]
fn chat_ids_are_canonical() {
    assert_eq!(make_single_chat_id("alice", "bob"), "single_alice_bob");
    assert_eq!(
        make_single_chat_id("bob", "alice"),
        "single_alice_bob",
        "both parties derive the same key"
    );
    assert_eq!(make_group_chat_id("42"), "group_42");
    assert_eq!(make_group_chat_id("group_42"), "group_42");
    assert_eq!(encoded_chat_type("single_a_b"), Some(ChatType::Single));
    assert_eq!(encoded_chat_type("group_42"), Some(ChatType::Group));
    assert_eq!(encoded_chat_type("weird"), None);
}

#[test]
fn topics_follow_the_per_user_convention() {
    assert_eq!(mqtt_user_topic("12345"), "user/12345/inbox");
}

#[test]
fn clock_reads_are_on_the_unix_scale() {
    let ms = now_timestamp();
    let s = now_timestamp_seconds();
    assert!(ms > 1_600_000_000_000, "milliseconds since the epoch");
    assert!(s > 1_600_000_000, "seconds since the epoch");
    assert!(ms / 1000 >= s - 2 && ms / 1000 <= s + 2);
}

#[test]
fn users_strip_to_safe_users() {
    let user = User::new(
        7,
        "open_7".to_string(),
        "grace".to_string(),
        "g@example.com".to_string(),
        Some("hash".to_string()),
    );
    assert_eq!(user.id, 7);
    assert!(user.phone.is_none());
    let safe = SafeUser::from(user);
    assert_eq!(safe.open_id, "open_7");
    assert_eq!(safe.name, "grace");
}

#[test]
fn group_directory_replaces_and_keeps_lists_apart() {
    let mut directory = GroupDirectory::new();
    assert!(directory.get_group_members("g1").is_empty());
    directory.set_group_members("g1", vec!["u1".to_string(), "u2".to_string()]);
    directory.set_group_members("g2", vec!["u3".to_string()]);
    assert_eq!(directory.get_group_members("g1"), vec!["u1", "u2"]);
    directory.set_group_members("g1", vec!["u9".to_string()]);
    assert_eq!(directory.get_group_members("g1"), vec!["u9"]);
    assert_eq!(directory.get_group_members("g2"), vec!["u3"]);
}
