use sub4usd::config::{SchedulingConfig, DEFAULT_POLL_INTERVAL_SECS};
use sub4usd::dispatcher::{current_idle_sleep_secs, idle_sleep_secs, Dispatcher, InboundMessage, Update};
use sub4usd::event::ChanEvent;

fn update(id: u32, chat_id: i64, text: &str) -> Update {
    Update { update_id: id, message: Some(InboundMessage { chat_id, text: text.to_string() }) }
}

#[test]
fn batch_gives_events_in_order_and_moves_the_cursor() {
    let mut d = Dispatcher::new();
    let mut config = SchedulingConfig::new();
    assert_eq!(d.offset(), None);
    assert_eq!(config.get(), DEFAULT_POLL_INTERVAL_SECS);
    let batch = vec![
        update(10, 1, "/subscribe"),
        Update { update_id: 11, message: None },
        update(12, 2, "hello"),
        update(13, 3, "/unsubscribe"),
        update(14, 4, "set:update_interval  2h "),
    ];
    let events = d.handle_updates(&batch, &mut config);
    assert_eq!(events.len(), 2);
    assert!(matches!(events[0], ChanEvent::SubscriberAdded { chat_id: 1 }));
    assert!(matches!(events[1], ChanEvent::SubscriberRemoved { chat_id: 3 }));
    assert_eq!(d.offset(), Some(15));
    assert_eq!(config.get(), 7200);
}

#[test]
fn empty_batch_keeps_the_cursor_and_config() {
    let mut d = Dispatcher::new();
    let mut config = SchedulingConfig::new();
    d.handle_updates(&vec![update(4294967295, 1, "x")], &mut config);
    assert_eq!(d.offset(), Some(4294967296));
    let events = d.handle_updates(&vec![], &mut config);
    assert!(events.is_empty());
    assert_eq!(d.offset(), Some(4294967296));
    assert_eq!(config.get(), 10800);
}

#[test]
fn last_interval_directive_wins() {
    let mut d = Dispatcher::new();
    let mut config = SchedulingConfig::new();
    let batch = vec![
        update(1, 1, "set:update_interval 1h"),
        update(2, 1, "set:update_interval"),
        update(3, 1, "set:update_interval 42h"),
        update(4, 1, "set:update_interval 99999999999999999999h"),
    ];
    d.handle_updates(&batch, &mut config);
    assert_eq!(config.get(), 42 * 3600);
}

#[test]
fn idle_sleep_follows_the_quiet_hours() {
    assert_eq!(idle_sleep_secs(0), 6 * 3600);
    assert_eq!(idle_sleep_secs(4), 2 * 3600);
    assert_eq!(idle_sleep_secs(5), 3600);
    assert_eq!(idle_sleep_secs(6), 3600);
    assert_eq!(idle_sleep_secs(7), 3);
    assert_eq!(idle_sleep_secs(23), 3);
}

#[test]
fn idle_sleep_now_is_one_of_the_policy_values() {
    let secs = current_idle_sleep_secs();
    assert!((0..24).any(|h| idle_sleep_secs(h) == secs));
}
