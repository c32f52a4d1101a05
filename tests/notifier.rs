use sub4usd::event::ChanEvent;
use sub4usd::exchange::RateData;
use sub4usd::notifier::{classify_api_error, DeliveryOutcome, Notifier};
use sub4usd::observer::RateObserver;
use sub4usd::price::Price;

fn price(units: i64) -> Price {
    Price { scaled: units * 10000 }
}

fn quote(units: i64, description: &str) -> ChanEvent {
    ChanEvent::PriceChanged { price: price(units), description: description.to_string() }
}

#[test]
fn default_chats_are_kept_once_each() {
    let n = Notifier::new(&vec![3, 1, 3, 2, 1]);
    assert_eq!(n.subscribers(), &vec![3, 1, 2]);
    assert_eq!(n.latest().price, Price { scaled: 0 });
    assert_eq!(n.latest().description, "");
}

#[test]
fn price_change_reaches_every_subscriber() {
    let mut n = Notifier::new(&vec![10, 20]);
    let d = n.handle_event(quote(92, "from tinkoff"));
    assert_eq!(d.len(), 2);
    assert_eq!(d[0].chat_id, 10);
    assert_eq!(d[1].chat_id, 20);
    assert_eq!(d[0].text, "92 :: from tinkoff");
    assert_eq!(d[1].text, "92 :: from tinkoff");
}

#[test]
fn subscribing_twice_is_subscribing_once() {
    let mut n = Notifier::new(&vec![]);
    let first = n.handle_event(ChanEvent::SubscriberAdded { chat_id: 7 });
    assert_eq!(first.len(), 1);
    let second = n.handle_event(ChanEvent::SubscriberAdded { chat_id: 7 });
    assert!(second.is_empty());
    assert_eq!(n.subscribers(), &vec![7]);
    let d = n.handle_event(quote(5, "x"));
    assert_eq!(d.len(), 1);
}

#[test]
fn unsubscribing_an_absent_chat_changes_nothing() {
    let mut n = Notifier::new(&vec![1, 2]);
    let d = n.handle_event(ChanEvent::SubscriberRemoved { chat_id: 9 });
    assert!(d.is_empty());
    assert_eq!(n.subscribers(), &vec![1, 2]);
    n.handle_event(ChanEvent::SubscriberRemoved { chat_id: 1 });
    assert_eq!(n.subscribers(), &vec![2]);
}

#[test]
fn new_subscriber_gets_the_latest_quote_once() {
    let mut n = Notifier::new(&vec![]);
    n.handle_event(quote(3, "q"));
    let d = n.handle_event(ChanEvent::SubscriberAdded { chat_id: 4 });
    assert_eq!(d.len(), 1);
    assert_eq!(d[0].chat_id, 4);
    assert_eq!(d[0].text, "3 :: q");
}

#[test]
fn new_subscriber_before_any_quote_gets_the_initial_one() {
    let mut n = Notifier::new(&vec![]);
    let d = n.handle_event(ChanEvent::SubscriberAdded { chat_id: 4 });
    assert_eq!(d.len(), 1);
    assert_eq!(d[0].text, "0 :: ");
}

#[test]
fn permanent_rejection_removes_for_good() {
    let mut n = Notifier::new(&vec![1, 2]);
    n.handle_event(quote(1, "a"));
    n.record_outcome(1, DeliveryOutcome::PermanentRejection);
    n.record_outcome(2, DeliveryOutcome::Failed);
    assert_eq!(n.subscribers(), &vec![2]);
    for units in 2..5 {
        let d = n.handle_event(quote(units, "b"));
        assert!(d.iter().all(|x| x.chat_id != 1));
    }
    n.handle_event(ChanEvent::SubscriberRemoved { chat_id: 1 });
    assert_eq!(n.subscribers(), &vec![2]);
}

#[test]
fn other_failures_keep_the_subscriber() {
    let mut n = Notifier::new(&vec![1]);
    n.record_outcome(1, DeliveryOutcome::Failed);
    n.record_outcome(1, DeliveryOutcome::Delivered);
    assert_eq!(n.subscribers(), &vec![1]);
}

#[test]
fn forbidden_is_a_permanent_rejection() {
    assert_eq!(classify_api_error(403), DeliveryOutcome::PermanentRejection);
    assert_eq!(classify_api_error(429), DeliveryOutcome::Failed);
    assert_eq!(classify_api_error(400), DeliveryOutcome::Failed);
}

#[test]
fn repeated_price_notifies_once_after_the_third_fetch() {
    let mut observer = RateObserver::new();
    let mut n = Notifier::new(&vec![42]);
    let mut sent = Vec::new();
    for units in [1, 1, 2] {
        let fetched = Ok(RateData::new(price(units), "src".to_string()));
        let mut this_fetch = Vec::new();
        if let Some(e) = observer.observe(fetched) {
            this_fetch = n.handle_event(e);
        }
        sent.push(this_fetch);
    }
    // The first fetch differs from the initial zero price and is reported.
    assert_eq!(sent[0].len(), 1);
    assert_eq!(sent[0][0].text, "1 :: src");
    assert!(sent[1].is_empty());
    assert_eq!(sent[2].len(), 1);
    assert_eq!(sent[2][0].chat_id, 42);
    assert_eq!(sent[2][0].text, "2 :: src");
}

#[test]
fn rejected_subscriber_misses_later_quotes() {
    let a = 100;
    let mut n = Notifier::new(&vec![]);
    n.handle_event(ChanEvent::SubscriberAdded { chat_id: a });
    let five = n.handle_event(quote(5, "x"));
    assert_eq!(five.len(), 1);
    assert_eq!(five[0].chat_id, a);
    assert_eq!(five[0].text, "5 :: x");
    n.record_outcome(a, DeliveryOutcome::Delivered);
    let six_before = n.subscribers().clone();
    assert_eq!(six_before, vec![a]);
    // The next attempt is refused for good.
    n.record_outcome(a, DeliveryOutcome::PermanentRejection);
    let six = n.handle_event(quote(6, "x"));
    assert!(six.is_empty());
    assert!(!n.subscribers().contains(&a));
}
