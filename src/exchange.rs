//! Quotes from the rate sources, and the choice of the quote in each source's
//! response.
use vstd::prelude::*;
use crate::price::Price;
use crate::text::same_text;

pub mod banki;
pub mod tinkoff;

verus! {

/// A quote: the price and the text that describes where it comes from.
#[derive(Debug)]
pub struct RateData {
    pub price: Price,
    pub description: String,
}

impl RateData {
    pub fn new(price: Price, description: String) -> (r: RateData)
        ensures
            r.price == price,
            r.description == description,
    {
        RateData { price, description }
    }
}

/// The category of the Tinkoff rate that is quoted: transfers between debit cards.
pub open spec fn transfer_category() -> Seq<char> {
    "DebitCardsTransfers"@
}

/// The quote source that reads the Tinkoff rates: the selling price of the
/// first rate in the transfer category.
pub struct TinkoffProvider;

/// The quote source that reads the banki.ru offers, which come sorted by
/// selling price: the selling price of the first offer.
pub struct BankiProvider;

impl TinkoffProvider {
    /// The quote in a response: the selling price of the first rate of the
    /// transfer category, described as coming from Tinkoff. A response
    /// without such a rate is an error.
    pub fn rate_from_response(&self, res: &tinkoff::Response) -> (r: Result<RateData, String>)
        ensures
            (exists|i: int|
                0 <= i < res.payload.rates@.len() && (#[trigger] res.payload.rates@[i]).category@
                    == transfer_category()) <==> r is Ok,
            r matches Ok(d) ==> exists|i: int|
                0 <= i < res.payload.rates@.len() && (#[trigger] res.payload.rates@[i]).category@
                    == transfer_category() && (forall|j: int|
                    0 <= j < i ==> (#[trigger] res.payload.rates@[j]).category@
                        != transfer_category()) && d.price == res.payload.rates@[i].sell
                    && d.description@ == "from tinkoff"@,
            r matches Err(e) ==> e@ == "unable to find valid rate"@,
    {
        let rates = &res.payload.rates;
        let mut i: usize = 0;
        while i < rates.len()
            invariant
                rates@ == res.payload.rates@,
                i <= rates@.len(),
                forall|j: int| 0 <= j < i ==> (#[trigger] rates@[j]).category@ != transfer_category(),
            decreases rates@.len() - i,
        {
            if same_text(rates[i].category.as_str(), "DebitCardsTransfers") {
                assert(res.payload.rates@[i as int].category@ == transfer_category());
                return Ok(RateData::new(rates[i].sell, String::from_str("from tinkoff")));
            }
            i = i + 1;
        }
        Err(String::from_str("unable to find valid rate"))
    }
}

impl BankiProvider {
    /// The quote in a response: the selling price of the first offer,
    /// described by the office's name and address (`<name>. <address>`). A
    /// response without offers is an error.
    pub fn rate_from_response(&self, res: &banki::Response) -> (r: Result<RateData, String>)
        ensures
            r is Ok <==> res.list@.len() > 0,
            r matches Ok(d) ==> d.price == res.list@[0].exchange.sale && d.description@
                == res.list@[0].name@ + ". "@ + res.list@[0].contact_information.address@,
            r matches Err(e) ==> e@ == "no exchange offers in response"@,
    {
        if res.list.len() == 0 {
            return Err(String::from_str("no exchange offers in response"));
        }
        let item = &res.list[0];
        let mut info = item.name.clone();
        info.append(". ");
        info.append(item.contact_information.address.as_str());
        Ok(RateData::new(item.exchange.sale, info))
    }
}

} // verus!
