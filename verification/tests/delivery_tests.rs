use im_core::delivery::{
    delivery_next, finish_recipient_delivery, plan_group_recipients, prepare_single_send,
    presence_with_hydration, validate_send_group, validate_send_single, DeliveryEvent,
    DeliveryOutcome, DeliveryPhase, ResolvedMember, SendError, SendGroupMessageRequest,
    SendSingleMessageRequest,
};
use im_core::delivery::{plan_group_send, GroupSendPlan};
use im_core::model::{make_group_chat_id, ChatType};
use im_core::offline::OfflineQueue;
use im_core::presence::SubscriptionService;
use im_core::store::{GroupMessageStore, SingleMessageStore};

fn request(from: &str, to: &str, body: &str, content_type: i32) -> SendSingleMessageRequest {
    SendSingleMessageRequest {
        from_id: from.to_string(),
        to_id: to.to_string(),
        message_body: body.to_string(),
        message_content_type: content_type,
        extra: None,
        reply_to: None,
    }
}

#[test]
fn validation_rejects_empty_fields() {
    assert_eq!(
        validate_send_single(&request("", "bob", "hi", 1)),
        Err(SendError::EmptyParticipant)
    );
    assert_eq!(
        validate_send_single(&request("alice", "", "hi", 1)),
        Err(SendError::EmptyParticipant)
    );
    assert_eq!(
        validate_send_single(&request("alice", "bob", "", 1)),
        Err(SendError::EmptyBody)
    );
    assert_eq!(validate_send_single(&request("alice", "bob", "hi", 1)), Ok(()));

    let group_request = SendGroupMessageRequest {
        group_id: String::new(),
        from_id: "alice".to_string(),
        message_body: "hi".to_string(),
        message_content_type: 1,
        extra: None,
        reply_to: None,
    };
    assert_eq!(validate_send_group(&group_request), Err(SendError::EmptyGroup));
}

/// Delivery persists first: a failed durable write finishes the run at
/// once, and no later event ever reaches the publish or queue phases.
#[test]
fn persist_failure_stops_everything_downstream() {
    let failed = DeliveryPhase::Finished { result: Err(SendError::StoreFailure) };
    let mut phase = delivery_next(false, DeliveryPhase::AwaitPersist, DeliveryEvent::PersistResult { ok: false });
    assert_eq!(phase, failed);
    for event in [
        DeliveryEvent::PresenceResult { online: true },
        DeliveryEvent::PublishResult { ok: true },
        DeliveryEvent::QueueResult { ok: true },
    ] {
        phase = delivery_next(false, phase, event);
        assert_eq!(phase, failed, "a finished run must stay finished");
        assert!(!matches!(phase, DeliveryPhase::AwaitPublish { .. }));
        assert!(!matches!(phase, DeliveryPhase::AwaitQueue { .. }));
    }
}

/// Ephemeral suppression at the machine level: persisted, then offline,
/// then nothing: no publish phase, no queue phase.
#[test]
fn ephemeral_offline_finishes_after_presence() {
    let mut phase = delivery_next(true, DeliveryPhase::AwaitPersist, DeliveryEvent::PersistResult { ok: true });
    assert_eq!(phase, DeliveryPhase::AwaitPresence);
    phase = delivery_next(true, phase, DeliveryEvent::PresenceResult { online: false });
    assert_eq!(
        phase,
        DeliveryPhase::Finished { result: Ok(DeliveryOutcome::PersistedOnly) }
    );
}

#[test]
fn online_publish_and_queue_deliver_live() {
    let mut phase = delivery_next(false, DeliveryPhase::AwaitPersist, DeliveryEvent::PersistResult { ok: true });
    phase = delivery_next(false, phase, DeliveryEvent::PresenceResult { online: true });
    assert_eq!(phase, DeliveryPhase::AwaitPublish { online: true });
    phase = delivery_next(false, phase, DeliveryEvent::PublishResult { ok: true });
    assert_eq!(phase, DeliveryPhase::AwaitQueue { online: true, publish_ok: true });
    phase = delivery_next(false, phase, DeliveryEvent::QueueResult { ok: true });
    assert_eq!(
        phase,
        DeliveryPhase::Finished { result: Ok(DeliveryOutcome::DeliveredLive) }
    );
}

#[test]
fn failed_publish_falls_back_to_the_queue() {
    let mut phase = delivery_next(false, DeliveryPhase::AwaitPersist, DeliveryEvent::PersistResult { ok: true });
    phase = delivery_next(false, phase, DeliveryEvent::PresenceResult { online: true });
    phase = delivery_next(false, phase, DeliveryEvent::PublishResult { ok: false });
    phase = delivery_next(false, phase, DeliveryEvent::QueueResult { ok: true });
    assert_eq!(
        phase,
        DeliveryPhase::Finished { result: Ok(DeliveryOutcome::QueuedOffline) }
    );
}

/// Ephemeral suppression end to end: the record is durable, but the
/// offline queue stays empty and nothing was prepared for a push.
#[test]
fn ephemeral_to_offline_recipient_is_persisted_only() {
    let mut store = SingleMessageStore::new();
    let mut presence = SubscriptionService::new();
    let mut queue = OfflineQueue::new();

    let prepared = prepare_single_send(
        &mut store,
        &mut presence,
        &request("alice", "bob", "incoming call", 4),
        "open_alice",
        "open_bob",
        77,
        Vec::new(),
        None,
        None,
        None,
        "msg_call_1",
        "rand_1",
        1_700_000_000_000,
    )
    .expect("a valid request is prepared");
    assert!(prepared.ephemeral);
    assert!(!prepared.online);
    assert!(prepared.suppressed);
    assert!(store.has_message("msg_call_1"));

    let outcome = finish_recipient_delivery(
        &mut queue,
        "open_bob",
        "serialized envelope".to_string(),
        prepared.online,
        prepared.suppressed,
        false,
    );
    assert_eq!(outcome, DeliveryOutcome::PersistedOnly);
    assert_eq!(queue.get_offline_message_count("open_bob"), 0);
    assert_eq!(store.message_count(), 1);
}

#[test]
fn ordinary_message_to_offline_recipient_is_queued() {
    let mut store = SingleMessageStore::new();
    let mut presence = SubscriptionService::new();
    let mut queue = OfflineQueue::new();

    let prepared = prepare_single_send(
        &mut store,
        &mut presence,
        &request("alice", "bob", "hello", 1),
        "open_alice",
        "open_bob",
        77,
        Vec::new(),
        None,
        None,
        None,
        "msg_text_1",
        "rand_2",
        1_700_000_000_001,
    )
    .expect("a valid request is prepared");
    assert!(!prepared.suppressed);
    assert_eq!(prepared.topic, "user/open_bob/inbox");
    assert_eq!(prepared.envelope.chat_type, Some(1));

    let outcome = finish_recipient_delivery(
        &mut queue,
        "open_bob",
        "payload-1".to_string(),
        prepared.online,
        prepared.suppressed,
        false,
    );
    assert_eq!(outcome, DeliveryOutcome::QueuedOffline);
    assert_eq!(queue.get_offline_message_count("open_bob"), 1);
}

#[test]
fn online_recipient_with_good_publish_is_delivered_live() {
    let mut store = SingleMessageStore::new();
    let mut presence = SubscriptionService::new();
    presence.add_subscription_id("sub_live".to_string(), 77);
    let mut queue = OfflineQueue::new();

    let prepared = prepare_single_send(
        &mut store,
        &mut presence,
        &request("alice", "bob", "hello again", 1),
        "open_alice",
        "open_bob",
        77,
        Vec::new(),
        None,
        None,
        None,
        "msg_text_2",
        "rand_3",
        1_700_000_000_002,
    )
    .expect("a valid request is prepared");
    assert!(prepared.online);

    let outcome = finish_recipient_delivery(
        &mut queue,
        "open_bob",
        "payload-2".to_string(),
        prepared.online,
        prepared.suppressed,
        true,
    );
    assert_eq!(outcome, DeliveryOutcome::DeliveredLive);
    // Defense in depth: the backup copy is queued even for a live delivery.
    assert_eq!(queue.get_offline_message_count("open_bob"), 1);
}

/// Group dedup: duplicate member rows and sender aliases collapse to one
/// delivery attempt per distinct identity.
#[test]
fn group_plan_deduplicates_and_drops_the_sender() {
    let member = |open: &str, id: i64| ResolvedMember { open_id: open.to_string(), user_id: id };
    let members = vec![
        member("open_bob", 2),
        member("open_carol", 3),
        member("open_bob", 2),
        member("open_alice", 1),
        member("open_alias_of_alice", 1),
        member("open_carol", 3),
    ];
    let planned = plan_group_recipients(&members, "open_alice", 1);
    let ids: Vec<&str> = planned.iter().map(|m| m.open_id.as_str()).collect();
    assert_eq!(ids, vec!["open_bob", "open_carol"]);
}

#[test]
fn hydration_decides_presence_from_recent_records() {
    let mut presence = SubscriptionService::new();
    assert!(!presence_with_hydration(&mut presence, 5, Vec::new()));
    assert!(presence_with_hydration(
        &mut presence,
        5,
        vec!["sub_recent_1".to_string(), "sub_recent_2".to_string()]
    ));
    assert_eq!(presence.get_subscription_ids(5).len(), 2);
    // Hydrated sessions now count as online without further records.
    assert!(presence_with_hydration(&mut presence, 5, Vec::new()));
}

/// Group dedup end to end: persist once, then exactly one delivery attempt
/// (one queued backup) per distinct non-sender identity.
#[test]
fn group_send_reaches_each_identity_once() {
    let request = SendGroupMessageRequest {
        group_id: "42".to_string(),
        from_id: "alice".to_string(),
        message_body: "team update".to_string(),
        message_content_type: 1,
        extra: None,
        reply_to: None,
    };
    assert_eq!(validate_send_group(&request), Ok(()));

    let chat_id = make_group_chat_id(&request.group_id);
    assert_eq!(chat_id, "group_42");

    let mut group_store = GroupMessageStore::new();
    let record = im_core::delivery::build_group_message(
        &request,
        &chat_id,
        "open_alice",
        "msg_group_1",
        "rand_g1",
        1_700_000_000_003,
    );
    assert_eq!(record.group_id, "group_42");
    assert_eq!(record.sequence, Some(1_700_000_000_003));
    group_store.save_group_message(record);
    assert!(group_store.has_message("msg_group_1"));

    let member = |open: &str, id: i64| ResolvedMember { open_id: open.to_string(), user_id: id };
    let members = vec![
        member("open_bob", 2),
        member("open_bob", 2),
        member("open_alice", 1),
        member("open_carol", 3),
    ];
    let planned = plan_group_recipients(&members, "open_alice", 1);

    let mut queue = OfflineQueue::new();
    for recipient in &planned {
        // Each member's leg: the publish failed, so the backup copy lands
        // in that member's offline list.
        let outcome = finish_recipient_delivery(
            &mut queue,
            &recipient.open_id,
            "group payload".to_string(),
            false,
            false,
            false,
        );
        assert_eq!(outcome, DeliveryOutcome::QueuedOffline);
    }
    assert_eq!(queue.get_offline_message_count("open_bob"), 1);
    assert_eq!(queue.get_offline_message_count("open_carol"), 1);
    assert_eq!(queue.get_offline_message_count("open_alice"), 0, "the sender is excluded");
}

#[test]
fn generic_send_dedups_numeric_recipients() {
    let ids = vec![5u64, 3, 5, 1, 3, 9];
    let deduped = im_core::delivery::dedup_recipient_ids(&ids, 1);
    assert_eq!(deduped, vec![5, 3, 9]);
}

/// The persisted chat type decides the shape of a group send: a
/// group-typed chat fans group-tagged envelopes out to every planned
/// member, and a single-typed chat becomes one pair message to the sole
/// other member, whatever the member count says.
#[test]
fn group_send_follows_the_persisted_chat_type() {
    let request = SendGroupMessageRequest {
        group_id: "42".to_string(),
        from_id: "alice".to_string(),
        message_body: "shape test".to_string(),
        message_content_type: 1,
        extra: None,
        reply_to: None,
    };
    let member = |open: &str, id: i64| ResolvedMember { open_id: open.to_string(), user_id: id };
    let planned = vec![member("open_bob", 2), member("open_carol", 3)];

    let group_plan = plan_group_send(
        &request, ChatType::Group, "group_42", "open_alice", &planned,
        None, None, None, "msg_g", "rand_g", 700,
    )
    .expect("a group-typed chat always yields a plan");
    match group_plan {
        GroupSendPlan::Group { message, envelopes } => {
            assert_eq!(message.group_id, "group_42");
            assert_eq!(message.sequence, Some(700));
            assert_eq!(envelopes.len(), 2);
            for envelope in &envelopes {
                assert_eq!(envelope.to_user_id, "group_42");
                assert_eq!(envelope.chat_type, Some(2));
            }
        }
        GroupSendPlan::Single { .. } => panic!("a group-typed chat must plan a group send"),
    }

    let single_plan = plan_group_send(
        &request, ChatType::Single, "group_42", "open_alice", &planned,
        None, None, None, "msg_s", "rand_s", 800,
    )
    .expect("a pair chat with a recipient yields a plan");
    match single_plan {
        GroupSendPlan::Single { message, envelope } => {
            assert_eq!(message.to_id, "open_bob");
            assert_eq!(message.to_type.as_deref(), Some("User"));
            assert_eq!(envelope.to_user_id, "open_bob");
            assert_eq!(envelope.chat_type, Some(1));
        }
        GroupSendPlan::Group { .. } => panic!("a single-typed chat must plan a pair send"),
    }

    let nobody: Vec<ResolvedMember> = Vec::new();
    let refused = plan_group_send(
        &request, ChatType::Single, "group_42", "open_alice", &nobody,
        None, None, None, "msg_n", "rand_n", 900,
    );
    assert_eq!(refused.unwrap_err(), SendError::NoRecipient);
}
