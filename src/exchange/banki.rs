//! The response of the banki.ru exchange-offices API, as far as it is read.
use vstd::prelude::*;
use crate::price::Price;

verus! {

pub struct Response {
    pub list: Vec<ResponseItem>,
}

pub struct ResponseItem {
    pub id: i64,
    pub name: String,
    pub bank_name: String,
    pub exchange: Exchange,
    pub contact_information: ContactInformation,
}

pub struct Exchange {
    pub buy: Price,
    pub sale: Price,
    pub symbol: String,
}

pub struct ContactInformation {
    pub address: String,
    pub phone: String,
    pub metro_station: Option<String>,
}

} // verus!
