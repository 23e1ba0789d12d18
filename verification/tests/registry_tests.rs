use writable_events::registry::EventRegistry;
use writable_events::registry::Listener;

fn l(id: u64) -> Listener {
    Listener { id }
}

#[test]
fn subscription_order_is_kept() {
    let mut reg = EventRegistry::new(None);
    reg.add_event("data");
    reg.subscribe("data", l(1), false, false);
    reg.subscribe("data", l(2), false, false);
    reg.subscribe("data", l(3), false, false);
    assert_eq!(reg.listeners("data"), vec![l(1), l(2), l(3)]);
    assert_eq!(reg.listener_count("data"), 3);
}

#[test]
fn prepend_puts_listener_first() {
    let mut reg = EventRegistry::new(None);
    reg.add_event("data");
    reg.subscribe("data", l(1), false, false);
    reg.subscribe("data", l(2), false, false);
    reg.subscribe("data", l(9), false, true);
    assert_eq!(reg.listeners("data"), vec![l(9), l(1), l(2)]);
}

#[test]
fn once_listener_fires_exactly_once() {
    let mut reg = EventRegistry::new(None);
    reg.add_event("data");
    reg.subscribe("data", l(1), true, false);
    reg.subscribe("data", l(2), false, false);
    let (fired1, plan1) = reg.emit("data");
    assert!(fired1);
    assert_eq!(plan1, vec![l(1), l(2)]);
    let (fired2, plan2) = reg.emit("data");
    assert!(fired2);
    assert_eq!(plan2, vec![l(2)]);
    let (fired3, plan3) = reg.emit("data");
    assert!(fired3);
    assert_eq!(plan3, vec![l(2)]);
}

#[test]
fn once_list_is_cleared_by_firing() {
    let mut reg = EventRegistry::new(None);
    reg.add_event("data");
    reg.subscribe("data", l(1), true, false);
    let (fired, plan) = reg.emit("data");
    assert!(fired);
    assert_eq!(plan, vec![l(1)]);
    let (fired_again, plan_again) = reg.emit("data");
    assert!(!fired_again);
    assert!(plan_again.is_empty());
}

#[test]
fn unsubscribe_removes_and_reports() {
    let mut reg = EventRegistry::new(None);
    reg.add_event("data");
    reg.subscribe("removeListener", l(50), false, false);
    reg.subscribe("data", l(1), false, false);
    let (found, plan) = reg.unsubscribe("data", l(1));
    assert!(found);
    assert_eq!(plan, vec![l(50)]);
    assert_eq!(reg.listener_count("data"), 0);
    let (found_again, plan_again) = reg.unsubscribe("data", l(1));
    assert!(!found_again);
    assert!(plan_again.is_empty());
}

#[test]
fn unsubscribe_removes_first_match_only() {
    let mut reg = EventRegistry::new(None);
    reg.add_event("data");
    reg.subscribe("data", l(1), false, false);
    reg.subscribe("data", l(2), false, false);
    reg.subscribe("data", l(1), false, false);
    let (found, _) = reg.unsubscribe("data", l(1));
    assert!(found);
    assert_eq!(reg.listeners("data"), vec![l(2), l(1)]);
}

#[test]
fn unsubscribe_does_not_touch_once_listeners() {
    let mut reg = EventRegistry::new(None);
    reg.add_event("data");
    reg.subscribe("data", l(1), true, false);
    let (found, plan) = reg.unsubscribe("data", l(1));
    assert!(!found);
    assert!(plan.is_empty());
    let (fired, plan) = reg.emit("data");
    assert!(fired);
    assert_eq!(plan, vec![l(1)]);
}

#[test]
fn cap_drops_excess_subscriptions() {
    let mut reg = EventRegistry::new(None);
    reg.add_event("data");
    for id in 0..11u64 {
        reg.subscribe("data", l(id), false, false);
    }
    assert_eq!(reg.listener_count("data"), 10);
    let kept = reg.listeners("data");
    assert_eq!(kept.len(), 10);
    for id in 0..10u64 {
        assert_eq!(kept[id as usize], l(id));
    }
}

#[test]
fn once_list_has_its_own_cap() {
    let mut reg = EventRegistry::new(Some(2));
    reg.add_event("data");
    reg.subscribe("data", l(1), false, false);
    reg.subscribe("data", l(2), false, false);
    // The persistent list is full, but the one-shot list is the target here.
    reg.subscribe("data", l(3), true, false);
    let (_, plan) = reg.emit("data");
    assert_eq!(plan, vec![l(3), l(1), l(2)]);
}

#[test]
fn unknown_name_is_empty_not_an_error() {
    let mut reg = EventRegistry::new(None);
    let (fired, plan) = reg.emit("nothing");
    assert!(!fired);
    assert!(plan.is_empty());
    assert_eq!(reg.listener_count("nothing"), 0);
    assert!(reg.listeners("nothing").is_empty());
    reg.subscribe("nothing", l(1), false, false);
    assert_eq!(reg.listener_count("nothing"), 0);
}

#[test]
fn new_listener_fires_before_insertion() {
    let mut reg = EventRegistry::new(None);
    // The very first subscriber of `newListener` must not observe its own
    // registration.
    let plan0 = reg.subscribe("newListener", l(7), false, false);
    assert!(plan0.is_empty());
    reg.add_event("data");
    let plan1 = reg.subscribe("data", l(1), false, false);
    assert_eq!(plan1, vec![l(7)]);
}

#[test]
fn once_subscription_emits_no_new_listener() {
    let mut reg = EventRegistry::new(None);
    reg.add_event("data");
    reg.subscribe("newListener", l(7), false, false);
    let plan = reg.subscribe("data", l(1), true, false);
    assert!(plan.is_empty());
}

#[test]
fn refused_subscription_emits_no_new_listener() {
    let mut reg = EventRegistry::new(Some(1));
    reg.add_event("data");
    reg.subscribe("newListener", l(7), false, false);
    reg.subscribe("data", l(1), false, false);
    // The list for "data" is full: no insertion, no meta-event.
    let plan = reg.subscribe("data", l(2), false, false);
    assert!(plan.is_empty());
    assert_eq!(reg.listeners("data"), vec![l(1)]);
}

#[test]
fn set_max_listeners_ignores_out_of_range() {
    let mut reg = EventRegistry::new(None);
    assert_eq!(reg.get_max_listeners(), 10);
    reg.set_max_listeners(5);
    assert_eq!(reg.get_max_listeners(), 5);
    reg.set_max_listeners(-1);
    assert_eq!(reg.get_max_listeners(), 5);
    reg.set_max_listeners(5_000_000_000);
    assert_eq!(reg.get_max_listeners(), 5);
    reg.set_max_listeners(0);
    assert_eq!(reg.get_max_listeners(), 0);
}

#[test]
fn cap_zero_refuses_everything() {
    let mut reg = EventRegistry::new(Some(0));
    reg.add_event("data");
    reg.subscribe("data", l(1), false, false);
    assert_eq!(reg.listener_count("data"), 0);
}

#[test]
fn unsubscribe_all_with_name_clears_only_that_list() {
    let mut reg = EventRegistry::new(None);
    reg.add_event("a");
    reg.add_event("b");
    reg.subscribe("a", l(1), false, false);
    reg.subscribe("a", l(2), true, false);
    reg.subscribe("b", l(3), false, false);
    reg.unsubscribe_all(Some("a"));
    assert_eq!(reg.listener_count("a"), 0);
    assert_eq!(reg.listener_count("b"), 1);
    // The one-shot list of "a" survives the bulk clear.
    let (fired, plan) = reg.emit("a");
    assert!(fired);
    assert_eq!(plan, vec![l(2)]);
}

#[test]
fn unsubscribe_all_without_name_clears_every_list() {
    let mut reg = EventRegistry::new(None);
    reg.add_event("a");
    reg.add_event("b");
    reg.subscribe("a", l(1), false, false);
    reg.subscribe("b", l(2), false, false);
    reg.unsubscribe_all(None);
    assert_eq!(reg.listener_count("a"), 0);
    assert_eq!(reg.listener_count("b"), 0);
}

#[test]
fn event_names_in_registration_order() {
    let mut reg = EventRegistry::new(None);
    reg.add_event("data");
    reg.add_event("log");
    assert_eq!(
        reg.event_names(),
        vec![
            "newListener".to_string(),
            "removeListener".to_string(),
            "data".to_string(),
            "log".to_string(),
        ]
    );
}

#[test]
fn add_event_is_idempotent() {
    let mut reg = EventRegistry::new(None);
    reg.add_event("data");
    reg.subscribe("data", l(1), false, false);
    reg.add_event("data");
    assert_eq!(reg.listener_count("data"), 1);
    assert_eq!(reg.event_names().len(), 3);
}

#[test]
fn teardown_releases_everything() {
    let mut reg = EventRegistry::new(None);
    reg.add_event("data");
    reg.subscribe("data", l(1), false, false);
    reg.subscribe("data", l(2), true, false);
    reg.teardown();
    assert!(reg.event_names().is_empty());
    assert_eq!(reg.listener_count("data"), 0);
    let (fired, plan) = reg.emit("data");
    assert!(!fired);
    assert!(plan.is_empty());
}
