//! Verified core of a campaign-engagement ledger.
//!
//! Users complete tasks inside time-boxed campaigns; accepted tasks accrue
//! point-bearing vouchers, and accumulated voucher balance is redeemed for
//! single-use reward coupons. A change-capture pipeline classifies raw row
//! diffs of the engagement table into typed events and fans them out to live
//! subscribers. The data structures and rules live here with their proofs;
//! storage, HTTP and vendor calls stay outside.

pub mod approve;
pub mod auth;
pub mod campaign_reward;
pub mod country;
pub mod coupons;
pub mod engage;
pub mod engage_pub;
pub mod error;
pub mod events;
pub mod hub;
pub mod ids;
pub mod membership;
pub mod mezzofy;
pub mod model;
pub mod nft;
pub mod org;
pub mod paging;
pub mod project_reward;
pub mod rec_http;
pub mod redeem;
pub mod strmap;
pub mod su;
