//! Configuration for the AlphaVantage price-history endpoint. Fetching,
//! caching and CSV decoding are left to the driver, which hands the engine
//! plain candles.

use vstd::prelude::*;

verus! {

/// The endpoint and the key a driver needs to request price history.
pub struct Client {
    pub api_key: String,
    pub base_url: &'static str,
}

/// A client configured for the public AlphaVantage query endpoint.
pub fn client(api_key: String) -> (r: Client)
    ensures
        r.api_key@ == api_key@,
        r.base_url@ == "https://www.alphavantage.co/query"@,
{
    Client { api_key, base_url: "https://www.alphavantage.co/query" }
}

} // verus!
