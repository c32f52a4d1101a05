use sub4usd::exchange::banki;
use sub4usd::exchange::tinkoff::{Payload, Rate, Response};
use sub4usd::exchange::{BankiProvider, TinkoffProvider};
use sub4usd::price::Price;

fn rate(category: &str, sell: i64) -> Rate {
    Rate { category: category.to_string(), buy: Price { scaled: sell - 1 }, sell: Price { scaled: sell } }
}

#[test]
fn tinkoff_takes_the_first_transfer_rate() {
    let res = Response {
        payload: Payload {
            rates: vec![
                rate("CardsOperations", 1),
                rate("DebitCardsTransfers", 2),
                rate("DebitCardsTransfers", 3),
            ],
        },
    };
    let d = TinkoffProvider.rate_from_response(&res).unwrap();
    assert_eq!(d.price, Price { scaled: 2 });
    assert_eq!(d.description, "from tinkoff");
}

#[test]
fn tinkoff_without_transfer_rate_is_an_error() {
    let res = Response { payload: Payload { rates: vec![rate("CardsOperations", 1)] } };
    assert_eq!(TinkoffProvider.rate_from_response(&res).unwrap_err(), "unable to find valid rate");
}

fn item(name: &str, address: &str, sale: i64) -> banki::ResponseItem {
    banki::ResponseItem {
        id: 1,
        name: name.to_string(),
        bank_name: "bank".to_string(),
        exchange: banki::Exchange {
            buy: Price { scaled: sale - 5 },
            sale: Price { scaled: sale },
            symbol: "USD".to_string(),
        },
        contact_information: banki::ContactInformation {
            address: address.to_string(),
            phone: "1".to_string(),
            metro_station: None,
        },
    }
}

#[test]
fn banki_takes_the_first_offer() {
    let res = banki::Response { list: vec![item("Office", "Main st. 1", 905000), item("B", "C", 1)] };
    let d = BankiProvider.rate_from_response(&res).unwrap();
    assert_eq!(d.price, Price { scaled: 905000 });
    assert_eq!(d.description, "Office. Main st. 1");
}

#[test]
fn banki_without_offers_is_an_error() {
    let res = banki::Response { list: vec![] };
    assert_eq!(BankiProvider.rate_from_response(&res).unwrap_err(), "no exchange offers in response");
}
