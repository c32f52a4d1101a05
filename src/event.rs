//! The events that the rate observer and the command dispatcher hand to the
//! notifier, in the order in which the notifier applies them.
use vstd::prelude::*;
use crate::price::Price;

verus! {

#[derive(Debug)]
pub enum ChanEvent {
    PriceChanged { price: Price, description: String },
    SubscriberAdded { chat_id: i64 },
    SubscriberRemoved { chat_id: i64 },
}

} // verus!
