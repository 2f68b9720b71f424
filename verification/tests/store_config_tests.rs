use im_core::config::{
    default_expiry, default_false, default_page, default_page_size, default_true, JwtConfig,
    LogConfig, RedisConfig,
};
use im_core::dto::JwtClaims;
use im_core::message::ImGroupMessage;
use im_core::resp::MyResponse;
use im_core::store::{GroupMessageStore, ReadMarkStore, SingleMessageStore};

#[test]
fn saving_is_idempotent_by_message_id() {
    let mut store = SingleMessageStore::new();
    assert!(!store.has_message("m1"));
    let mut group_store = GroupMessageStore::new();

    let message = im_core::message::ImSingleMessage {
        message_id: "m1".to_string(),
        from_id: "a".to_string(),
        to_id: "b".to_string(),
        message_body: "x".to_string(),
        message_time: 1,
        message_content_type: 1,
        read_status: 0,
        extra: None,
        del_flag: 1,
        sequence: 1,
        message_random: None,
        create_time: None,
        update_time: None,
        version: Some(1),
        reply_to: None,
        to_type: Some("User".to_string()),
        file_url: None,
        file_name: None,
        file_type: None,
    };
    store.save_single_message(message.duplicate());
    store.save_single_message(message);
    assert!(store.has_message("m1"));
    assert_eq!(store.message_count(), 1, "the idempotency key deduplicates");

    let group_message = ImGroupMessage {
        message_id: "gm1".to_string(),
        group_id: "group_1".to_string(),
        from_id: "a".to_string(),
        message_body: "x".to_string(),
        message_time: 1,
        message_content_type: 1,
        extra: None,
        del_flag: 1,
        sequence: Some(1),
        message_random: None,
        create_time: 1,
        update_time: None,
        version: Some(1),
        reply_to: None,
    };
    group_store.save_group_message(group_message.duplicate());
    group_store.save_group_message(group_message);
    assert_eq!(group_store.message_count(), 1);
}

#[test]
fn read_marks_behave_like_a_set() {
    let mut marks = ReadMarkStore::new();
    assert!(!marks.is_group_message_read("g1", "m1", "u1"));
    marks.mark_group_message_read("g1", "m1", "u1");
    marks.mark_group_message_read("g1", "m1", "u1");
    marks.mark_group_message_read("g1", "m1", "u2");
    marks.mark_group_message_read("g1", "m2", "u1");

    assert!(marks.is_group_message_read("g1", "m1", "u1"));
    assert!(!marks.is_group_message_read("g1", "m2", "u2"));
    assert_eq!(marks.get_group_message_read_count("g1", "m1"), 2);
    assert_eq!(
        marks.get_group_message_read_users("g1", "m1"),
        vec!["u1".to_string(), "u2".to_string()]
    );
}

#[test]
fn response_envelopes_carry_their_codes() {
    let ok = MyResponse::success_with_msg("Ok");
    assert_eq!(ok.code, 0);
    assert_eq!(ok.msg, "Ok");
    assert!(ok.data.is_none());

    let err = MyResponse::error("boom");
    assert_eq!(err.code, -1);

    let coded = MyResponse::error_with_code(404, "missing");
    assert_eq!(coded.code, 404);

    let with_data = MyResponse::success_with_data("Ok", 7u64);
    assert_eq!(with_data.data, Some(7));

    let err_data = MyResponse::error_with_data(500, "broken", "context");
    assert_eq!(err_data.code, 500);
    assert_eq!(err_data.data.as_deref(), Some("context"));
}

#[test]
fn config_defaults_match_their_documentation() {
    assert!(default_true());
    assert!(!default_false());
    assert_eq!(default_expiry(), 24);
    assert_eq!(default_page(), 1);
    assert_eq!(default_page_size(), 10);

    let redis = RedisConfig::default();
    assert_eq!(redis.host, "127.0.0.1");
    assert_eq!(redis.port, 6379);
    assert_eq!(redis.db, 0);
    assert!(redis.password.is_none());

    let jwt = JwtConfig::new("test-signing-secret".to_string(), 24);
    assert_eq!(jwt.expiry, 24);

    let log = LogConfig::default();
    assert_eq!(log.filter_level, "info");
    assert_eq!(log.rolling, "daily");
    assert_eq!(log.format, "full");
    assert!(!log.stdout);
}

#[test]
fn log_builders_set_their_knobs() {
    let log = LogConfig::default()
        .filter_level("debug")
        .with_ansi(false)
        .stdout(true)
        .directory("/tmp/logs")
        .file_name("core.log")
        .with_level(false)
        .with_target(false)
        .with_thread_ids(false)
        .with_thread_names(false)
        .with_source_location(false);
    assert_eq!(log.filter_level, "debug");
    assert!(log.stdout);
    assert!(!log.with_ansi);
    assert_eq!(log.directory, "/tmp/logs");
    assert_eq!(log.file_name, "core.log");

    let rolled = log.rolling("hourly").expect("a known cadence is accepted");
    assert_eq!(rolled.rolling, "hourly");
    let rejected = rolled.rolling("weekly");
    assert!(rejected.is_err(), "an unknown cadence is rejected");

    let formatted = rejected.unwrap_err().format("json").expect("a known layout");
    assert_eq!(formatted.format, "json");
    assert!(formatted.format("yaml").is_err());
}

#[test]
fn jwt_claims_expire_after_the_configured_hours() {
    let claims = JwtClaims::new(42, 24);
    assert_eq!(claims.open_id, 42);
    assert_eq!(claims.exp - claims.iat, 24 * 3600);
}

#[test]
fn incremental_sync_orders_by_sequence_and_hides_call_invites() {
    let mut store = SingleMessageStore::new();
    let mut base = |id: &str, from: &str, to: &str, seq: i64, content: i32| {
        store.save_single_message(im_core::message::ImSingleMessage {
            message_id: id.to_string(),
            from_id: from.to_string(),
            to_id: to.to_string(),
            message_body: "x".to_string(),
            message_time: seq,
            message_content_type: content,
            read_status: 0,
            extra: None,
            del_flag: 1,
            sequence: seq,
            message_random: None,
            create_time: None,
            update_time: None,
            version: Some(1),
            reply_to: None,
            to_type: Some("User".to_string()),
            file_url: None,
            file_name: None,
            file_type: None,
        });
    };
    base("m3", "a", "b", 300, 1);
    base("m1", "b", "a", 100, 1);
    base("m2", "a", "b", 200, 1);
    base("call", "a", "b", 250, 4);
    base("other", "a", "c", 150, 1);

    let all = store.get_single_messages("a", "b", None, 10);
    let ids: Vec<&str> = all.iter().map(|m| m.message_id.as_str()).collect();
    assert_eq!(ids, vec!["m1", "m2", "m3"], "both directions, ordered, no call invites");

    let newer = store.get_single_messages("a", "b", Some(150), 10);
    let ids: Vec<&str> = newer.iter().map(|m| m.message_id.as_str()).collect();
    assert_eq!(ids, vec!["m2", "m3"]);

    let limited = store.get_single_messages("a", "b", None, 2);
    assert_eq!(limited.len(), 2);
    assert_eq!(limited[0].message_id, "m1");
}

#[test]
fn group_sync_orders_by_sequence_and_hides_call_invites() {
    let mut store = GroupMessageStore::new();
    let mut base = |id: &str, group: &str, seq: Option<i64>, content: i32| {
        store.save_group_message(ImGroupMessage {
            message_id: id.to_string(),
            group_id: group.to_string(),
            from_id: "a".to_string(),
            message_body: "x".to_string(),
            message_time: 0,
            message_content_type: content,
            extra: None,
            del_flag: 1,
            sequence: seq,
            message_random: None,
            create_time: 0,
            update_time: None,
            version: Some(1),
            reply_to: None,
        });
    };
    base("g2", "group_1", Some(200), 1);
    base("g1", "group_1", Some(100), 1);
    base("call", "group_1", Some(150), 4);
    base("elsewhere", "group_2", Some(50), 1);

    let all = store.get_group_messages("group_1", None, 10);
    let ids: Vec<&str> = all.iter().map(|m| m.message_id.as_str()).collect();
    assert_eq!(ids, vec!["g1", "g2"]);

    let newer = store.get_group_messages("group_1", Some(100), 10);
    let ids: Vec<&str> = newer.iter().map(|m| m.message_id.as_str()).collect();
    assert_eq!(ids, vec!["g2"]);
}

#[test]
fn read_marks_flip_single_messages() {
    let mut store = SingleMessageStore::new();
    store.save_single_message(im_core::message::ImSingleMessage {
        message_id: "m1".to_string(),
        from_id: "a".to_string(),
        to_id: "b".to_string(),
        message_body: "x".to_string(),
        message_time: 1,
        message_content_type: 1,
        read_status: 0,
        extra: None,
        del_flag: 1,
        sequence: 1,
        message_random: None,
        create_time: None,
        update_time: None,
        version: Some(1),
        reply_to: None,
        to_type: Some("User".to_string()),
        file_url: None,
        file_name: None,
        file_type: None,
    });
    store.mark_single_message_read("m1", "b", 99);
    let rows = store.get_single_messages("a", "b", None, 10);
    assert_eq!(rows[0].read_status, 1);
    assert_eq!(rows[0].update_time, Some(99));
}

#[test]
fn batch_read_marks_cover_every_id() {
    let mut marks = ReadMarkStore::new();
    let ids = vec!["m1".to_string(), "m2".to_string(), "m1".to_string()];
    marks.mark_group_messages_read("g1", &ids, "u1");
    assert!(marks.is_group_message_read("g1", "m1", "u1"));
    assert!(marks.is_group_message_read("g1", "m2", "u1"));
    assert_eq!(marks.get_group_message_read_count("g1", "m1"), 1);
}

#[test]
fn status_rows_mirror_the_reader_set() {
    let readers = vec!["u1".to_string(), "u2".to_string()];
    let statuses = im_core::dto::group_message_statuses("g1", "m1", &readers, 777);
    assert_eq!(statuses.len(), 2);
    assert_eq!(statuses[0].to_id, "u1");
    assert_eq!(statuses[1].to_id, "u2");
    assert_eq!(statuses[0].group_id, "g1");
    assert_eq!(statuses[0].read_status, Some(1));
    assert_eq!(statuses[1].update_time, Some(777));
}
