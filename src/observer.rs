//! The rate observer: it remembers the last price it saw and publishes an
//! event only when a fetched price differs from it.
use vstd::prelude::*;
use crate::event::ChanEvent;
use crate::exchange::RateData;
use crate::price::Price;

verus! {

/// The price the observer remembers before its first fetch. It differs from
/// every real quote, so the first fetched price is always published.
pub open spec fn initial_price() -> Price {
    Price { scaled: 0 }
}

/// The price remembered after fetching `fetched` when `last` was remembered.
pub open spec fn next_observed(last: Price, fetched: Price) -> Price {
    if fetched != last {
        fetched
    } else {
        last
    }
}

/// The price remembered after fetching `values` in order, starting from `start`.
pub open spec fn observed_after(start: Price, values: Seq<Price>) -> Price
    decreases values.len(),
{
    if values.len() == 0 {
        start
    } else {
        next_observed(observed_after(start, values.drop_last()), values.last())
    }
}

/// Whether the `i`-th fetch of `values` publishes an event.
pub open spec fn publishes_at(start: Price, values: Seq<Price>, i: int) -> bool {
    values[i] != observed_after(start, values.take(i))
}

pub struct RateObserver {
    last: Price,
}

impl View for RateObserver {
    type V = Price;

    closed spec fn view(&self) -> Price {
        self.last
    }
}

impl RateObserver {
    pub fn new() -> (r: RateObserver)
        ensures
            r@ == initial_price(),
    {
        RateObserver { last: Price { scaled: 0 } }
    }

    /// Takes the result of one fetch. A price that differs from the one
    /// remembered is remembered and published; an equal price or a failed
    /// fetch publishes nothing and changes nothing.
    pub fn observe(&mut self, fetched: Result<RateData, String>) -> (r: Option<ChanEvent>)
        ensures
            match fetched {
                Ok(d) => {
                    &&& final(self)@ == next_observed(old(self)@, d.price)
                    &&& d.price != old(self)@ ==> r == Some(
                        ChanEvent::PriceChanged { price: d.price, description: d.description },
                    )
                    &&& d.price == old(self)@ ==> r is None
                },
                Err(_) => final(self)@ == old(self)@ && r is None,
            },
    {
        match fetched {
            Ok(d) => {
                if d.price != self.last {
                    self.last = d.price;
                    Some(ChanEvent::PriceChanged { price: d.price, description: d.description })
                } else {
                    None
                }
            },
            Err(_) => None,
        }
    }

    /// The price remembered.
    pub fn last_price(&self) -> (r: Price)
        ensures
            r == self@,
    {
        self.last
    }
}

proof fn lemma_observed_after_is_last(start: Price, values: Seq<Price>)
    ensures
        observed_after(start, values) == (if values.len() == 0 {
            start
        } else {
            values.last()
        }),
    decreases values.len(),
{
    if values.len() > 0 {
        lemma_observed_after_is_last(start, values.drop_last());
    }
}

/// Over any sequence of fetched prices, a fetch publishes an event exactly
/// when its price differs from the price fetched just before it (from the
/// starting price, for the first fetch).
pub proof fn published_iff_changed(start: Price, values: Seq<Price>, i: int)
    requires
        0 <= i < values.len(),
    ensures
        publishes_at(start, values, i) <==> values[i] != (if i == 0 {
            start
        } else {
            values[i - 1]
        }),
{
    lemma_observed_after_is_last(start, values.take(i));
}

} // verus!
