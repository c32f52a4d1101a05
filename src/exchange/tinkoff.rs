//! The response of the Tinkoff currency-rates API, as far as it is read.
use vstd::prelude::*;
use crate::price::Price;

verus! {

pub struct Response {
    pub payload: Payload,
}

pub struct Payload {
    pub rates: Vec<Rate>,
}

pub struct Rate {
    pub category: String,
    pub buy: Price,
    pub sell: Price,
}

} // verus!
