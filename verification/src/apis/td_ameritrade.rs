//! Configuration for the TD Ameritrade price-history endpoint. Reading the
//! token files, refreshing the access token and the HTTP exchange itself are
//! left to the driver, which hands the engine plain candles.

use vstd::prelude::*;

verus! {

/// The endpoint, client id and OAuth tokens a driver needs to request price
/// history. The driver may replace `access_token` when it refreshes it.
pub struct Client {
    pub client_id: String,
    pub access_token: String,
    pub refresh_token: String,
    pub base_url: &'static str,
}

/// A client configured for the TD Ameritrade v1 endpoint.
pub fn client(client_id: String, access_token: String, refresh_token: String) -> (r: Client)
    ensures
        r.client_id@ == client_id@,
        r.access_token@ == access_token@,
        r.refresh_token@ == refresh_token@,
        r.base_url@ == "https://api.tdameritrade.com/v1"@,
{
    Client { client_id, access_token, refresh_token, base_url: "https://api.tdameritrade.com/v1" }
}

} // verus!
