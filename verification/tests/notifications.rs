use arkavo_protocol::push_notifications::{PushNotification, PushNotificationService, SendOutcome, SubscriptionRequest};
use std::sync::mpsc::{sync_channel, Receiver, SyncSender, TrySendError};
use arkavo_protocol::episode::{infer_category, task_category};
use arkavo_protocol::push_notifications::{
    matches_event_type, matches_filter, next_retry, recipients, EventType, Subscription, SubscriptionFilter,
};

fn filter(agents: Option<&[&str]>, tasks: Option<&[&str]>) -> Option<SubscriptionFilter> {
    Some(SubscriptionFilter {
        agent_ids: agents.map(|a| a.iter().map(|s| s.to_string()).collect()),
        task_ids: tasks.map(|t| t.iter().map(|s| s.to_string()).collect()),
        metadata_filters: None,
    })
}

fn subscription(id: &str, types: Vec<EventType>, f: Option<SubscriptionFilter>, active: bool) -> Subscription {
    Subscription {
        id: id.to_string(),
        client_id: "c".to_string(),
        event_types: types,
        filter: f,
        created_at: 0,
        active,
    }
}

#[test]
fn event_types_match_by_kind() {
    assert!(matches_event_type(&[EventType::TaskUpdate], &EventType::TaskUpdate));
    assert!(!matches_event_type(&[EventType::TaskUpdate], &EventType::ChatMessage));
    assert!(matches_event_type(&[EventType::Custom("a".into())], &EventType::Custom("b".into())));
    assert!(!matches_event_type(&[], &EventType::SystemAlert));
}

#[test]
fn filters_need_a_shared_agent_and_task() {
    assert!(matches_filter(&None, &filter(Some(&["a"]), None)));
    assert!(matches_filter(&filter(Some(&["a"]), None), &None));
    assert!(matches_filter(&filter(Some(&["a", "b"]), None), &filter(Some(&["b"]), None)));
    assert!(!matches_filter(&filter(Some(&["a"]), None), &filter(Some(&["b"]), None)));
    assert!(!matches_filter(&filter(None, Some(&["t1"])), &filter(Some(&["x"]), Some(&["t2"]))));
    assert!(matches_filter(&filter(Some(&["a"]), Some(&["t1"])), &filter(None, Some(&["t1"]))));
}

#[test]
fn events_reach_active_matching_subscriptions() {
    let subs = vec![
        subscription("s0", vec![EventType::TaskUpdate], None, true),
        subscription("s1", vec![EventType::TaskUpdate], None, false),
        subscription("s2", vec![EventType::ChatMessage, EventType::TaskUpdate], filter(Some(&["a"]), None), true),
        subscription("s3", vec![EventType::TaskUpdate], filter(Some(&["z"]), None), true),
    ];
    assert_eq!(recipients(&subs, &EventType::TaskUpdate, &filter(Some(&["a"]), None)), vec![0, 2]);
    assert_eq!(recipients(&subs, &EventType::AgentStatus, &None), Vec::<usize>::new());
}

#[test]
fn retries_stop_at_the_limit() {
    assert_eq!(next_retry(0, 3), Some(1));
    assert_eq!(next_retry(2, 3), Some(3));
    assert_eq!(next_retry(3, 3), None);
    assert_eq!(next_retry(0, 0), None);
}

#[test]
fn test_infer_category() {
    assert_eq!(infer_category("navigate_sector"), "navigation");
    assert_eq!(infer_category("move_to"), "navigation");
    assert_eq!(infer_category("report_hazard"), "hazard_response");
    assert_eq!(infer_category("build_wall"), "construction");
    assert_eq!(infer_category("unknown_tool"), "general");
    assert_eq!(infer_category("CRAFT_Item"), "construction");
    assert_eq!(task_category("CRAFT_Item"), "general");
}


type Service = PushNotificationService<SyncSender<PushNotification>>;

fn send_all(service: &mut Service, deliveries: Vec<arkavo_protocol::push_notifications::Delivery>) -> u32 {
    let mut sent = 0u32;
    for d in deliveries {
        let outcome = match service.channel(&d.client_id) {
            Some(channel) => match channel.sender.try_send(d.notification.clone()) {
                Ok(()) => SendOutcome::Sent,
                Err(TrySendError::Full(_)) => SendOutcome::Full,
                Err(TrySendError::Disconnected(_)) => SendOutcome::Closed,
            },
            None => SendOutcome::Closed,
        };
        if service.record_delivery(d.notification, outcome) {
            sent += 1;
        }
    }
    sent
}

fn task_payload() -> serde_json::Value {
    let mut m = serde_json::Map::new();
    m.insert("task_id".to_string(), serde_json::Value::String("task123".to_string()));
    m.insert("status".to_string(), serde_json::Value::String("completed".to_string()));
    serde_json::Value::Object(m)
}

#[test]
fn test_subscription_lifecycle() {
    let mut service: Service = PushNotificationService::new(3);

    let request = SubscriptionRequest {
        client_id: "client1".to_string(),
        event_types: vec![EventType::TaskUpdate, EventType::ChatMessage],
        filter: None,
    };

    let response = service.subscribe(request).unwrap();
    assert!(!response.subscription_id.is_empty());

    let subs = service.get_client_subscriptions("client1");
    assert_eq!(subs.len(), 1);
    assert_eq!(subs[0].id, response.subscription_id);

    service.unsubscribe(&response.subscription_id).unwrap();

    let cleaned = service.cleanup_inactive_subscriptions().unwrap();
    assert_eq!(cleaned, 1);

    let subs = service.get_client_subscriptions("client1");
    assert_eq!(subs.len(), 0);
}

#[test]
fn test_event_publishing() {
    let mut service: Service = PushNotificationService::new(3);

    let (tx, rx): (SyncSender<PushNotification>, Receiver<PushNotification>) = sync_channel(10);
    service.register_channel("client1".to_string(), tx).unwrap();

    let request = SubscriptionRequest {
        client_id: "client1".to_string(),
        event_types: vec![EventType::TaskUpdate],
        filter: None,
    };

    service.subscribe(request).unwrap();

    let payload = task_payload();

    let deliveries = service.publish_event(EventType::TaskUpdate, payload.clone(), None);
    let sent = send_all(&mut service, deliveries);

    assert_eq!(sent, 1);

    let notification = rx.recv().unwrap();
    assert_eq!(notification.payload, payload);
}

#[test]
fn test_event_filtering() {
    let mut service: Service = PushNotificationService::new(3);

    let filter = SubscriptionFilter {
        agent_ids: Some(vec!["agent1".to_string()]),
        task_ids: None,
        metadata_filters: None,
    };

    let request = SubscriptionRequest {
        client_id: "client1".to_string(),
        event_types: vec![EventType::TaskUpdate],
        filter: Some(filter),
    };

    service.subscribe(request).unwrap();

    let target_filter = SubscriptionFilter {
        agent_ids: Some(vec!["agent2".to_string()]),
        task_ids: None,
        metadata_filters: None,
    };

    let deliveries = service.publish_event(
        EventType::TaskUpdate,
        serde_json::Value::Object(serde_json::Map::new()),
        Some(target_filter),
    );
    let sent = send_all(&mut service, deliveries);

    assert_eq!(sent, 0);
}

#[test]
fn unknown_subscription_and_channel_are_errors() {
    let mut service: Service = PushNotificationService::new(3);
    let e = service.unsubscribe("nope").unwrap_err();
    assert_eq!(e.to_string(), "Invalid request: Subscription not found: nope");
    let e = service.unregister_channel("c9").unwrap_err();
    assert_eq!(e.to_string(), "Invalid request: Channel not found for client: c9");
}

#[test]
fn notifications_without_channel_wait_and_retry_until_the_limit() {
    let mut service: Service = PushNotificationService::new(2);
    let request = SubscriptionRequest {
        client_id: "client1".to_string(),
        event_types: vec![EventType::SystemAlert],
        filter: None,
    };
    service.subscribe(request).unwrap();
    let deliveries = service.publish_event(EventType::SystemAlert, serde_json::Value::Null, None);
    assert!(deliveries.is_empty());

    // First retry: no channel yet, so it goes back with one more retry.
    let batch = service.take_retry_batch();
    assert_eq!(batch.len(), 1);
    assert_eq!(batch[0].notification.retry_count, 1);
    assert!(batch[0].client_id.is_none());
    for item in batch {
        assert!(!service.record_retry(item.notification, false));
    }
    let batch = service.take_retry_batch();
    assert_eq!(batch.len(), 1);
    assert_eq!(batch[0].notification.retry_count, 2);
    for item in batch {
        service.record_retry(item.notification, false);
    }
    // The limit is reached: the notification is dropped.
    assert!(service.take_retry_batch().is_empty());
}

#[test]
fn retry_reaches_a_channel_registered_later() {
    let mut service: Service = PushNotificationService::new(3);
    let request = SubscriptionRequest {
        client_id: "client1".to_string(),
        event_types: vec![EventType::ChatMessage],
        filter: None,
    };
    service.subscribe(request).unwrap();
    let _ = service.publish_event(EventType::ChatMessage, serde_json::Value::Bool(true), None);

    let (tx, rx) = sync_channel(1);
    service.register_channel("client1".to_string(), tx).unwrap();
    let batch = service.take_retry_batch();
    assert_eq!(batch.len(), 1);
    assert_eq!(batch[0].client_id.as_deref(), Some("client1"));
    for item in batch {
        let sent = service.channel("client1").unwrap().sender.try_send(item.notification.clone()).is_ok();
        assert!(service.record_retry(item.notification, sent));
    }
    assert_eq!(rx.recv().unwrap().payload, serde_json::Value::Bool(true));
    assert!(service.take_retry_batch().is_empty());
}

#[test]
fn cleanup_keeps_active_subscriptions_and_prunes_client_records() {
    let mut service: Service = PushNotificationService::new(3);
    let mk = |c: &str| SubscriptionRequest {
        client_id: c.to_string(),
        event_types: vec![EventType::TaskUpdate],
        filter: None,
    };
    let a = service.subscribe(mk("c1")).unwrap().subscription_id;
    let b = service.subscribe(mk("c1")).unwrap().subscription_id;
    let c = service.subscribe(mk("c2")).unwrap().subscription_id;
    service.unsubscribe(&a).unwrap();
    service.unsubscribe(&c).unwrap();
    assert_eq!(service.cleanup_inactive_subscriptions().unwrap(), 2);
    let left = service.get_client_subscriptions("c1");
    assert_eq!(left.len(), 1);
    assert_eq!(left[0].id, b);
    assert!(service.get_client_subscriptions("c2").is_empty());
    assert!(service.unsubscribe(&a).is_err());
    assert_eq!(service.cleanup_inactive_subscriptions().unwrap(), 0);
}
