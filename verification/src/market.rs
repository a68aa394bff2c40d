//! What the price and fee services answer. Numbers are the bit patterns of doubles.

use crate::json::{
    json_contents, json_document, number_at, number_under, parse, path_of, JsonNodes, JsonStep, Step,
};
use vstd::prelude::*;

verus! {

/// The number at a path, or the bit pattern of zero if there is none.
pub open spec fn number_or_zero(doc: JsonNodes, path: Seq<JsonStep>) -> u64 {
    match number_at(doc, path) {
        Some(bits) => bits,
        None => 0,
    }
}

fn number_or_zero_under(v: &serde_json::Value, steps: &Vec<Step>) -> (r: u64)
    ensures
        r == number_or_zero(json_contents(*v), path_of(steps@)),
{
    match number_under(v, steps) {
        Some(bits) => bits,
        None => 0,
    }
}

/// The price of a coin and the value of all coins.
#[derive(Clone, Copy, Debug, PartialEq, Eq)]
pub struct Prices {
    pub price: u64,
    pub market_cap: u64,
}

/// The prices in a reply of the price service.
pub open spec fn prices_in(doc: JsonNodes) -> Prices {
    Prices {
        price: number_or_zero(doc, seq![JsonStep::Key("kaspa"@), JsonStep::Key("usd"@)]),
        market_cap: number_or_zero(
            doc,
            seq![JsonStep::Key("kaspa"@), JsonStep::Key("usd_market_cap"@)],
        ),
    }
}

/// Reads a reply of the price service: nothing, if it is not JSON.
pub fn read_prices(body: &[u8]) -> (r: Option<Prices>)
    ensures
        r == (match json_document(body@) {
            Some(doc) => Some(prices_in(doc)),
            None => None,
        }),
{
    match parse(body) {
        None => None,
        Some(v) => {
            let price_steps = vec![Step::Key("kaspa"), Step::Key("usd")];
            let cap_steps = vec![Step::Key("kaspa"), Step::Key("usd_market_cap")];
            proof {
                assert(path_of(price_steps@) =~= seq![
                    JsonStep::Key("kaspa"@),
                    JsonStep::Key("usd"@),
                ]);
                assert(path_of(cap_steps@) =~= seq![
                    JsonStep::Key("kaspa"@),
                    JsonStep::Key("usd_market_cap"@),
                ]);
            }
            Some(
                Prices {
                    price: number_or_zero_under(&v, &price_steps),
                    market_cap: number_or_zero_under(&v, &cap_steps),
                },
            )
        },
    }
}

/// Where the fee rate stands in a reply of the fee service.
pub open spec fn fee_path() -> Seq<JsonStep> {
    seq![JsonStep::Key("normalBuckets"@), JsonStep::Item(0), JsonStep::Key("feerate"@)]
}

/// Reads a reply of the fee service: nothing, if it is not JSON.
pub fn read_fee_rate(body: &[u8]) -> (r: Option<u64>)
    ensures
        r == (match json_document(body@) {
            Some(doc) => Some(number_or_zero(doc, fee_path())),
            None => None,
        }),
{
    match parse(body) {
        None => None,
        Some(v) => {
            let steps = vec![Step::Key("normalBuckets"), Step::Item(0), Step::Key("feerate")];
            assert(path_of(steps@) =~= fee_path());
            Some(number_or_zero_under(&v, &steps))
        },
    }
}

/// The price and the market capitalisation are the numbers that the service gives for the coin;
/// without a number each is zero.
pub proof fn prices_are_those_of_the_coin(doc: JsonNodes)
    ensures
        number_at(doc, seq![JsonStep::Key("kaspa"@), JsonStep::Key("usd"@)]) matches Some(bits)
            ==> prices_in(doc).price == bits,
        number_at(doc, seq![JsonStep::Key("kaspa"@), JsonStep::Key("usd"@)]) is None ==> prices_in(
            doc,
        ).price == 0,
        number_at(doc, seq![JsonStep::Key("kaspa"@), JsonStep::Key("usd_market_cap"@)]) matches Some(
            bits,
        ) ==> prices_in(doc).market_cap == bits,
        number_at(doc, seq![JsonStep::Key("kaspa"@), JsonStep::Key("usd_market_cap"@)]) is None
            ==> prices_in(doc).market_cap == 0,
{
}

/// The fee rate is the number of the first normal bucket.
pub proof fn the_fee_is_that_of_the_first_bucket(doc: JsonNodes)
    ensures
        ({
            let place = seq![
                JsonStep::Key("normalBuckets"@),
                JsonStep::Item(0),
                JsonStep::Key("feerate"@),
            ];
            &&& number_at(doc, place) matches Some(bits) ==> number_or_zero(doc, fee_path()) == bits
            &&& number_at(doc, place) is None ==> number_or_zero(doc, fee_path()) == 0
        }),
{
}

} // verus!
