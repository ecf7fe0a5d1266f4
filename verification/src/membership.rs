//! The user-facing profile counters and the club-join acknowledgement.

use vstd::prelude::*;

use crate::model::Coupon;

verus! {

/// Coupons held by one user among the first `n` rows, minted or not.
pub open spec fn count_user_coupons_upto(cs: Seq<Coupon>, user: Seq<char>, n: int) -> int
    decreases n,
{
    if n <= 0 {
        0
    } else {
        count_user_coupons_upto(cs, user, n - 1) + if cs[n - 1].user_id matches Some(u) && u@
            == user {
            1int
        } else {
            0int
        }
    }
}

pub open spec fn count_user_coupons(cs: Seq<Coupon>, user: Seq<char>) -> int {
    count_user_coupons_upto(cs, user, cs.len() as int)
}

/// A user's experience points: one per coupon ever assigned to them.
pub fn get_xp(coupons: &Vec<Coupon>, user_id: &String) -> (r: i64)
    requires
        coupons@.len() <= i64::MAX,
    ensures
        r as int == count_user_coupons(coupons@, user_id@),
{
    let n = coupons.len();
    let mut count: i64 = 0;
    let mut i: usize = 0;
    while i < n
        invariant
            n == coupons@.len(),
            n <= i64::MAX,
            i <= n,
            count <= i,
            count as int == count_user_coupons_upto(coupons@, user_id@, i as int),
        decreases n - i,
    {
        let mine = match &coupons[i].user_id {
            Some(u) => *u == *user_id,
            None => false,
        };
        if mine {
            count += 1;
        }
        i += 1;
    }
    count
}

/// One project-club membership row.
pub struct Membership {
    pub project_id: u128,
    pub user_id: String,
    pub subscribed: bool,
}

/// Memberships held by one user among the first `n` rows.
pub open spec fn count_memberships_upto(ms: Seq<Membership>, user: Seq<char>, n: int) -> int
    decreases n,
{
    if n <= 0 {
        0
    } else {
        count_memberships_upto(ms, user, n - 1) + if ms[n - 1].user_id@ == user {
            1int
        } else {
            0int
        }
    }
}

pub open spec fn count_memberships(ms: Seq<Membership>, user: Seq<char>) -> int {
    count_memberships_upto(ms, user, ms.len() as int)
}

/// How many project clubs a user belongs to.
pub fn get_club(memberships: &Vec<Membership>, user_id: &String) -> (r: i64)
    requires
        memberships@.len() <= i64::MAX,
    ensures
        r as int == count_memberships(memberships@, user_id@),
{
    let n = memberships.len();
    let mut count: i64 = 0;
    let mut i: usize = 0;
    while i < n
        invariant
            n == memberships@.len(),
            n <= i64::MAX,
            i <= n,
            count <= i,
            count as int == count_memberships_upto(memberships@, user_id@, i as int),
        decreases n - i,
    {
        if memberships[i].user_id == *user_id {
            count += 1;
        }
        i += 1;
    }
    count
}

/// One user's profile counters: coupons earned and clubs joined.
pub struct Me {
    pub xp: i64,
    pub club: i64,
}

/// What joining a project's club reports back.
pub struct JoinResult {
    pub subscribed: bool,
}

impl JoinResult {
    /// Joining always leaves the membership subscribed.
    pub fn joined() -> (r: JoinResult)
        ensures
            r.subscribed,
    {
        JoinResult { subscribed: true }
    }
}

} // verus!
