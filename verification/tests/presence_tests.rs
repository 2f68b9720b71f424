use im_core::presence::SubscriptionService;

#[test]
fn test_create_and_get_subscription() {
    let mut svc = SubscriptionService::new();
    let user_id = 42u64;

    let sub_id = svc.create_subscription_id(user_id);
    assert!(sub_id.starts_with("sub_"));

    let fetched = svc.get_user_id(&sub_id).expect("user id should exist");
    assert_eq!(fetched, user_id);

    let subs = svc.get_subscription_ids(user_id);
    assert_eq!(subs.len(), 1);
    assert_eq!(subs[0], sub_id);
}

#[test]
fn test_get_or_create_returns_existing() {
    let mut svc = SubscriptionService::new();
    let user_id = 100u64;
    let first = svc.get_or_create_subscription_id(user_id);
    let second = svc.get_or_create_subscription_id(user_id);
    assert_eq!(first, second);
}

#[test]
fn test_add_and_remove_subscription() {
    let mut svc = SubscriptionService::new();
    let user_id = 7u64;
    let sub_id = "sub_manual_1".to_string();

    svc.add_subscription_id(sub_id.clone(), user_id);
    assert_eq!(svc.get_user_id(&sub_id).unwrap(), user_id);
    assert!(svc.get_subscription_ids(user_id).contains(&sub_id));

    // remove single subscription
    svc.remove_subscription(&sub_id);
    assert!(svc.get_user_id(&sub_id).is_none());
    assert!(svc.get_subscription_ids(user_id).is_empty());
}

#[test]
fn test_remove_user_subscriptions() {
    let mut svc = SubscriptionService::new();
    let user_id = 55u64;
    let a = svc.create_subscription_id(user_id);
    let b = svc.create_subscription_id(user_id);
    assert_eq!(svc.get_subscription_ids(user_id).len(), 2);

    svc.remove_user_subscriptions(user_id);
    assert!(svc.get_subscription_ids(user_id).is_empty());
    assert!(svc.get_user_id(&a).is_none());
    assert!(svc.get_user_id(&b).is_none());
}

#[test]
fn fresh_handles_are_thirty_characters() {
    let mut svc = SubscriptionService::new();
    let sub_id = svc.create_subscription_id(9);
    assert_eq!(sub_id.chars().count(), 30);
    assert!(sub_id.starts_with("sub_"));
}

#[test]
fn hydrating_is_idempotent() {
    let mut svc = SubscriptionService::new();
    svc.add_subscription_id("sub_replay".to_string(), 11);
    svc.add_subscription_id("sub_replay".to_string(), 11);
    assert_eq!(svc.get_subscription_ids(11).len(), 1);
}

#[test]
fn hydrating_moves_a_handle_between_users() {
    let mut svc = SubscriptionService::new();
    svc.add_subscription_id("sub_shared".to_string(), 1);
    svc.add_subscription_id("sub_shared".to_string(), 2);
    assert_eq!(svc.get_user_id("sub_shared"), Some(2));
    assert!(svc.get_subscription_ids(1).is_empty());
    assert_eq!(svc.get_subscription_ids(2).len(), 1);
}

#[test]
fn multi_device_keeps_every_handle() {
    let mut svc = SubscriptionService::new();
    let a = svc.create_subscription_id(3);
    let b = svc.create_subscription_id(3);
    assert_ne!(a, b);
    let subs = svc.get_subscription_ids(3);
    assert_eq!(subs.len(), 2);
    assert_eq!(subs[0], a);
    assert_eq!(subs[1], b);
}
