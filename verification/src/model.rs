//! The ledger's rows: campaigns, engagements, vouchers, coupons and reward
//! links, with their well-formedness conditions.
//!
//! Identifiers are carried as plain values: row ids as 128-bit integers,
//! dates as day numbers and instants as timestamps, both signed 64-bit.

use vstd::prelude::*;

use crate::strmap::StrMap;

verus! {

/// Task acceptance per task id, as the engagement row stores it.
pub type Accepted = StrMap<bool>;

/// Proof payloads per task id.
pub type Submissions = StrMap<Submission>;

/// Feedback messages per task id.
pub type Messages = StrMap<String>;

/// One task of a campaign; `point` is the grant a completed task earns.
#[derive(Debug)]
pub struct Task {
    pub id: String,
    pub name: String,
    pub description: Option<String>,
    pub link: Option<String>,
    pub images: Option<Vec<String>>,
    pub point: Option<i64>,
}

/// A proof-of-completion payload handed in for one task.
#[derive(Debug)]
pub struct Submission {
    pub message: Option<String>,
    pub link: Option<String>,
    pub images: Option<Vec<String>>,
}

impl Submission {
    /// A submission that carries no message, no link and no image.
    pub open spec fn spec_is_blank(&self) -> bool {
        self.message is None && self.link is None && (match self.images {
            Some(imgs) => imgs.len() == 0,
            None => true,
        })
    }

    pub fn is_blank(&self) -> (b: bool)
        ensures
            b == self.spec_is_blank(),
    {
        self.message.is_none() && self.link.is_none() && (match &self.images {
            Some(imgs) => imgs.len() == 0,
            None => true,
        })
    }
}

/// When a voucher becomes redeemable: set by hand only.
pub const POLICY_MANUAL: i16 = 0;

/// Redeemable as soon as the granting task is accepted.
pub const POLICY_ON_TASK_COMPLETION: i16 = 1;

/// Redeemable once every task of the campaign is accepted.
pub const POLICY_ON_ALL_TASKS_COMPLETION: i16 = 2;

/// Redeemable when the campaign ends.
pub const POLICY_ON_CAMPAIGN_END: i16 = 3;

/// Declared but never scheduled: behaves like the manual policy.
pub const POLICY_ON_SPECIFIC_DATE: i16 = 4;

/// A point grant from one completed task. `value` is the immutable face
/// amount; `balance` only ever shrinks as redemptions consume it.
#[derive(Debug)]
pub struct Voucher {
    pub org_id: Option<u128>,
    pub project_id: u128,
    pub campaign_id: u128,
    pub chain_id: i64,
    pub signer_address: String,
    pub user_id: String,
    pub task_id: String,
    pub value: i64,
    pub balance: i64,
    pub valid_from: Option<i64>,
    pub valid_until: Option<i64>,
    pub created_at: i64,
    pub updated_at: Option<i64>,
}

impl Clone for Voucher {
    fn clone(&self) -> (r: Self)
        ensures
            r == *self,
    {
        Voucher {
            org_id: self.org_id,
            project_id: self.project_id,
            campaign_id: self.campaign_id,
            chain_id: self.chain_id,
            signer_address: self.signer_address.clone(),
            user_id: self.user_id.clone(),
            task_id: self.task_id.clone(),
            value: self.value,
            balance: self.balance,
            valid_from: self.valid_from,
            valid_until: self.valid_until,
            created_at: self.created_at,
            updated_at: self.updated_at,
        }
    }
}

/// The balance a voucher holds never runs below zero nor above its face
/// amount.
pub open spec fn voucher_wf(v: Voucher) -> bool {
    0 <= v.balance <= v.value
}

/// Every voucher of a ledger slice is well formed.
pub open spec fn vouchers_wf(vs: Seq<Voucher>) -> bool {
    forall|i: int| 0 <= i < vs.len() ==> voucher_wf(#[trigger] vs[i])
}

/// A pre-provisioned, single-assignment redemption code. It is available
/// while `user_id` and `minted_at` are both unset.
#[derive(Debug)]
pub struct Coupon {
    pub reward_id: u128,
    pub number: i64,
    pub url: String,
    pub user_id: Option<String>,
    pub minted_at: Option<i64>,
    pub created_at: i64,
    pub updated_at: Option<i64>,
}

impl Clone for Coupon {
    fn clone(&self) -> (r: Self)
        ensures
            r == *self,
    {
        Coupon {
            reward_id: self.reward_id,
            number: self.number,
            url: self.url.clone(),
            user_id: match &self.user_id {
                Some(u) => Some(u.clone()),
                None => None,
            },
            minted_at: self.minted_at,
            created_at: self.created_at,
            updated_at: self.updated_at,
        }
    }
}

/// A coupon that no redemption has taken yet.
pub open spec fn coupon_available(c: Coupon) -> bool {
    c.user_id is None && c.minted_at is None
}

/// One engagement row: a user's participation in one campaign from one
/// wallet, created once and mutated in place thereafter.
#[derive(Debug)]
pub struct Engage {
    pub id: String,
    pub org_id: u128,
    pub project_id: u128,
    pub campaign_id: u128,
    pub chain_id: i64,
    pub signer_address: String,
    pub user_id: String,
    pub user_name: Option<String>,
    pub submissions: Submissions,
    pub accepted: Accepted,
    pub messages: Messages,
    pub coupon_issue_id: Option<String>,
    pub coupon_serial: Option<String>,
    pub coupon_url: Option<String>,
    pub created_at: i64,
    pub updated_at: Option<i64>,
    pub country_id: Option<i16>,
}

/// What the task-approval engine reads from the campaign row.
#[derive(Debug)]
pub struct CampaignTerms {
    pub project_id: u128,
    pub tasks: Vec<Task>,
    pub voucher_policy: i16,
    pub voucher_expire_at: Option<i64>,
    pub end_at: Option<i64>,
}

/// What the task-approval engine reads from the engagement row.
#[derive(Debug)]
pub struct EngageSnapshot {
    pub user_id: String,
    pub accepted: Accepted,
}

/// A reward offered inside one scope: its point cost and its mint caps.
/// `max_mint` unset or zero means the scope-wide cap is off; `user_mint`
/// unset or zero means the per-user cap is off.
#[derive(Debug)]
pub struct RewardLink {
    pub point: Option<i64>,
    pub active: bool,
    pub approved: bool,
    pub max_mint: Option<i64>,
    pub user_mint: Option<i64>,
}

} // verus!
