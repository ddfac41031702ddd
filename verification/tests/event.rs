use wutengine::event::{publish, subscribe, unsubscribe, EventData, EventManager, SubscriptionIdGenerator};

#[test]
fn published_events_reach_subscribers_in_order() {
    let mut ids = SubscriptionIdGenerator::new();
    let mut manager: EventManager<&'static str> = EventManager::new();
    let (sub_a, add_a) = subscribe::<u32, &'static str>(&mut ids, 1, "first");
    let (_sub_b, add_b) = subscribe::<u32, &'static str>(&mut ids, 1, "second");
    let (_sub_c, add_c) = subscribe::<u32, &'static str>(&mut ids, 2, "other type");
    for msg in [add_a, add_b, add_c] {
        assert!(manager.can_handle(&msg));
        assert!(manager.handle_event(msg).is_none());
    }

    let event = publish::<u32, &'static str>(1, 99);
    assert!(manager.can_handle(&event));
    let (ty, payload) = manager.handle_event(event).unwrap();
    assert_eq!((1, 99), (ty, payload));
    let targets = manager.dispatch_targets(ty);
    assert_eq!(vec![&"first", &"second"], targets);

    let remove = unsubscribe::<u32, &'static str>(sub_a);
    assert!(manager.can_handle(&remove));
    manager.handle_event(remove);
    assert_eq!(vec![&"second"], manager.dispatch_targets(1));
    assert_eq!(vec![&"other type"], manager.dispatch_targets(2));
    assert!(manager.dispatch_targets(3).is_empty());
}

#[test]
fn subscription_ids_count_up_from_one() {
    let mut ids = SubscriptionIdGenerator::new();
    assert_eq!(1, ids.next_id().0);
    assert_eq!(2, ids.next_id().0);
}

#[test]
fn unknown_or_duplicate_subscribers_are_refused() {
    let mut ids = SubscriptionIdGenerator::new();
    let mut manager: EventManager<u8> = EventManager::new();
    let (sub, add) = subscribe::<(), u8>(&mut ids, 4, 0);
    let dup = EventData::<(), u8>::AddSubscriber { id: sub.0, ty: 4, handler: 1 };
    manager.handle_event(add);
    assert!(!manager.can_handle(&dup));
    let wrong_type = EventData::<(), u8>::RemoveSubscriber(sub.0, 5);
    assert!(!manager.can_handle(&wrong_type));
    let remove = unsubscribe::<(), u8>(sub);
    manager.handle_event(remove);
    let again = EventData::<(), u8>::RemoveSubscriber(wutengine::event::SubscriptionId(1), 4);
    assert!(!manager.can_handle(&again));
}
