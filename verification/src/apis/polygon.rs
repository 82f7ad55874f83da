//! Configuration for the Polygon aggregates endpoint. Fetching, caching and
//! JSON decoding are left to the driver, which hands the engine plain candles.

use vstd::prelude::*;

verus! {

/// The endpoint and the key a driver needs to request price history.
pub struct Client {
    pub api_key: String,
    pub base_url: &'static str,
}

/// A client configured for the Polygon v2 aggregates endpoint.
pub fn client(api_key: String) -> (r: Client)
    ensures
        r.api_key@ == api_key@,
        r.base_url@ == "https://api.polygon.io/v2"@,
{
    Client { api_key, base_url: "https://api.polygon.io/v2" }
}

} // verus!
