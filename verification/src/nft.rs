//! The shapes the chain-explorer NFT lookup speaks in, and its listing
//! defaults.

use vstd::prelude::*;

verus! {

/// NFT listings start at the first row unless told otherwise.
pub fn default_offset() -> (r: u64)
    ensures
        r == 0,
{
    0u64
}

/// NFT listings return at most this many rows unless told otherwise.
pub fn default_limit() -> (r: u64)
    ensures
        r == 10000,
{
    10000u64
}

/// The filter an NFT listing accepts.
pub struct ListFilter {
    pub contract_addresses: Option<Vec<String>>,
}

/// The body of the explorer's account-token query.
pub struct ListAccountTokenPayload<'a> {
    pub address: &'a str,
}

/// The explorer's response envelope.
pub struct Response<T> {
    pub code: u8,
    pub message: String,
    pub generated_at: u64,
    pub data: T,
}

/// The token lists an account holds on the explorer's chain.
#[allow(non_snake_case)]
pub struct ListAccountTokenResult {
    pub native: Vec<AstarToken>,
    pub ERC721: Vec<ERC721Token>,
}

/// One native-token balance line, every amount as decimal text.
pub struct AstarToken {
    pub symbol: String,
    pub unique_id: String,
    pub decimals: u8,
    pub balance: String,
    pub lock: String,
    pub reserved: String,
    pub bonded: String,
    pub unbonding: String,
    pub democracy_lock: String,
    pub conviction_lock: String,
    pub election_lock: String,
}

/// One NFT holding.
pub struct ERC721Token {
    pub symbol: String,
    pub unique_id: String,
    pub decimals: u8,
    pub balance: String,
    pub contract: String,
}

/// The chain explorer the NFT lookup speaks to: only the one supported
/// chain has an endpoint.
pub fn subscan_endpoint(chain_id: i64) -> (r: Option<&'static str>)
    ensures
        match r {
            Some(url) => chain_id == 592 && url@ == "https://astar.api.subscan.io/api"@,
            None => chain_id != 592,
        },
{
    if chain_id == 592 {
        Some("https://astar.api.subscan.io/api")
    } else {
        None
    }
}

} // verus!
