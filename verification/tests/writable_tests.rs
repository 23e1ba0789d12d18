use writable_events::registry::Listener;
use writable_events::writable::StreamClosed;
use writable_events::writable::Writable;

fn l(id: u64) -> Listener {
    Listener { id }
}

#[test]
fn fresh_stream_defaults() {
    let w = Writable::new();
    assert!(!w.closed());
    assert!(!w.destroyed());
    assert!(w.writable());
    assert!(!w.writable_ended());
    assert!(!w.writable_finished());
    assert_eq!(w.writable_corked(), 0);
    assert_eq!(w.writable_high_water_mark(), 10);
    assert_eq!(w.writable_length(), 0);
    assert!(!w.writable_need_drain());
    assert!(w.writable_object_mode());
    assert!(w.errored().is_none());
    assert_eq!(w.get_max_listeners(), 10);
    assert_eq!(
        w.event_names(),
        vec![
            "newListener".to_string(),
            "removeListener".to_string(),
            "close".to_string(),
            "drain".to_string(),
            "error".to_string(),
            "finish".to_string(),
            "pipe".to_string(),
            "unpipe".to_string(),
        ]
    );
}

#[test]
fn cork_twice_uncork_once_leaves_depth_one() {
    let mut w = Writable::new();
    w.cork();
    w.cork();
    w.uncork();
    assert_eq!(w.writable_corked(), 1);
}

#[test]
fn uncork_at_zero_stays_at_zero() {
    let mut w = Writable::new();
    w.uncork();
    assert_eq!(w.writable_corked(), 0);
    w.cork();
    w.uncork();
    w.uncork();
    assert_eq!(w.writable_corked(), 0);
}

#[test]
fn end_finishes_exactly_once() {
    let mut w = Writable::new();
    w.subscribe("finish", l(1), false, false);
    let plan1 = w.end(None, None);
    assert_eq!(plan1, vec![l(1)]);
    assert!(w.writable_ended());
    assert!(w.writable_finished());
    let plan2 = w.end(None, None);
    assert!(plan2.is_empty());
    assert!(w.writable_ended());
}

#[test]
fn finish_listener_invoked_exactly_once() {
    // The host-side picture: every plan an operation returns is walked and
    // each listener in it invoked; the finish listener must come up once.
    let mut w = Writable::new();
    let listener = l(42);
    let mut invocations = 0;
    let plan = w.subscribe("finish", listener, false, false);
    invocations += plan.iter().filter(|x| **x == listener).count();
    let plan = w.end(None, None);
    invocations += plan.iter().filter(|x| **x == listener).count();
    let plan = w.end(None, None);
    invocations += plan.iter().filter(|x| **x == listener).count();
    assert_eq!(invocations, 1);
    assert!(w.writable_finished());
}

#[test]
fn need_drain_after_eleven_chunks() {
    let mut w = Writable::new();
    for i in 0..10u8 {
        assert_eq!(w.write(vec![i], None), Ok(true));
        assert!(!w.writable_need_drain());
    }
    assert_eq!(w.write(vec![10], None), Ok(false));
    assert!(w.writable_need_drain());
    assert_eq!(w.writable_length(), 11);
}

#[test]
fn write_after_end_is_refused() {
    let mut w = Writable::new();
    w.end(None, None);
    assert_eq!(w.write(vec![1], None), Err(StreamClosed));
    assert_eq!(w.writable_length(), 0);
}

#[test]
fn write_after_destroy_is_refused() {
    let mut w = Writable::new();
    w.destroy(None);
    assert_eq!(w.write(vec![1], None), Err(StreamClosed));
}

#[test]
fn end_queues_final_chunk() {
    let mut w = Writable::new();
    w.write(vec![1], None).unwrap();
    w.end(Some(vec![2]), None);
    assert_eq!(w.writable_length(), 2);
    let (chunks, _) = w.flush();
    assert_eq!(chunks, vec![vec![1], vec![2]]);
}

#[test]
fn destroy_records_error_and_closes() {
    let mut w = Writable::new();
    w.subscribe("error", l(1), false, false);
    w.subscribe("close", l(2), false, false);
    let (error_plan, close_plan) = w.destroy(Some("boom".to_string()));
    assert_eq!(error_plan, vec![l(1)]);
    assert_eq!(close_plan, vec![l(2)]);
    assert!(w.destroyed());
    assert!(w.closed());
    assert!(!w.writable());
    assert_eq!(w.errored().as_deref(), Some("boom"));
}

#[test]
fn destroy_without_error_emits_close_only() {
    let mut w = Writable::new();
    w.subscribe("error", l(1), false, false);
    w.subscribe("close", l(2), false, false);
    let (error_plan, close_plan) = w.destroy(None);
    assert!(error_plan.is_empty());
    assert_eq!(close_plan, vec![l(2)]);
    assert!(w.errored().is_none());
}

#[test]
fn destroy_is_terminal_and_idempotent() {
    let mut w = Writable::new();
    w.subscribe("close", l(2), false, false);
    w.destroy(None);
    let (error_plan, close_plan) = w.destroy(Some("late".to_string()));
    assert!(error_plan.is_empty());
    assert!(close_plan.is_empty());
    assert!(w.errored().is_none());
    assert!(w.destroyed());
}

#[test]
fn corked_stream_keeps_its_queue() {
    let mut w = Writable::new();
    w.cork();
    w.write(vec![1], None).unwrap();
    w.write(vec![2], None).unwrap();
    let (chunks, plan) = w.flush();
    assert!(chunks.is_empty());
    assert!(plan.is_empty());
    assert_eq!(w.writable_length(), 2);
}

#[test]
fn flush_over_high_water_mark_emits_drain() {
    let mut w = Writable::new();
    w.subscribe("drain", l(5), false, false);
    for i in 0..11u8 {
        w.write(vec![i], None).unwrap();
    }
    assert!(w.writable_need_drain());
    let (chunks, plan) = w.flush();
    assert_eq!(chunks.len(), 11);
    assert_eq!(chunks[0], vec![0]);
    assert_eq!(chunks[10], vec![10]);
    assert_eq!(plan, vec![l(5)]);
    assert!(!w.writable_need_drain());
    assert_eq!(w.writable_length(), 0);
}

#[test]
fn flush_under_high_water_mark_emits_no_drain() {
    let mut w = Writable::new();
    w.subscribe("drain", l(5), false, false);
    w.write(vec![1], None).unwrap();
    let (chunks, plan) = w.flush();
    assert_eq!(chunks, vec![vec![1]]);
    assert!(plan.is_empty());
}

#[test]
fn ended_stream_still_flushes_its_queue() {
    let mut w = Writable::new();
    for i in 0..3u8 {
        w.write(vec![i], None).unwrap();
    }
    w.end(None, None);
    let (chunks, _) = w.flush();
    assert_eq!(chunks.len(), 3);
}

#[test]
fn stream_delegates_registry_operations() {
    let mut w = Writable::new();
    w.subscribe("pipe", l(1), false, false);
    w.subscribe("pipe", l(2), true, false);
    assert_eq!(w.listener_count("pipe"), 1);
    assert_eq!(w.listeners("pipe"), vec![l(1)]);
    let (fired, plan) = w.emit("pipe");
    assert!(fired);
    assert_eq!(plan, vec![l(2), l(1)]);
    let (found, _) = w.unsubscribe("pipe", l(1));
    assert!(found);
    assert_eq!(w.listener_count("pipe"), 0);
    w.subscribe("unpipe", l(3), false, false);
    w.unsubscribe_all(None);
    assert_eq!(w.listener_count("unpipe"), 0);
    w.set_max_listeners(3);
    assert_eq!(w.get_max_listeners(), 3);
}

#[test]
fn set_default_encoding_changes_nothing_observable() {
    let mut w = Writable::new();
    w.set_default_encoding("utf8".to_string());
    assert!(w.writable());
    assert_eq!(w.write(vec![1], None), Ok(true));
    assert_eq!(w.writable_length(), 1);
}

#[test]
fn teardown_releases_stream_listeners() {
    let mut w = Writable::new();
    w.subscribe("finish", l(1), false, false);
    w.teardown();
    assert!(w.event_names().is_empty());
}
