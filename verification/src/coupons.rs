//! Coupon provisioning: sequence numbers and batch creation.

use vstd::prelude::*;

use crate::model::Coupon;

verus! {

/// The highest coupon number a reward holds among the first `n` rows.
pub open spec fn max_number_upto(cs: Seq<Coupon>, reward_id: u128, n: int) -> Option<int>
    decreases n,
{
    if n <= 0 {
        None
    } else {
        let prev = max_number_upto(cs, reward_id, n - 1);
        if cs[n - 1].reward_id == reward_id {
            match prev {
                None => Some(cs[n - 1].number as int),
                Some(m) => if cs[n - 1].number > m {
                    Some(cs[n - 1].number as int)
                } else {
                    Some(m)
                },
            }
        } else {
            prev
        }
    }
}

pub open spec fn max_number(cs: Seq<Coupon>, reward_id: u128) -> Option<int> {
    max_number_upto(cs, reward_id, cs.len() as int)
}

/// The next number in a reward's coupon sequence: one past the highest
/// stored, starting at one.
pub fn next_seq(coupons: &Vec<Coupon>, reward_id: u128) -> (r: i64)
    requires
        match max_number(coupons@, reward_id) {
            Some(m) => m < i64::MAX,
            None => true,
        },
    ensures
        r as int == match max_number(coupons@, reward_id) {
            Some(m) => m + 1,
            None => 1,
        },
{
    let n = coupons.len();
    let mut best: Option<i64> = None;
    let mut i: usize = 0;
    while i < n
        invariant
            n == coupons@.len(),
            i <= n,
            match best {
                None => max_number_upto(coupons@, reward_id, i as int) is None,
                Some(b) => max_number_upto(coupons@, reward_id, i as int) == Some(b as int),
            },
        decreases n - i,
    {
        if coupons[i].reward_id == reward_id {
            best = match best {
                None => Some(coupons[i].number),
                Some(b) => if coupons[i].number > b {
                    Some(coupons[i].number)
                } else {
                    Some(b)
                },
            };
        }
        i += 1;
    }
    match best {
        Some(b) => b + 1,
        None => 1,
    }
}

/// Provision a batch of coupons for one reward: consecutive numbers from
/// `number` on, one row per url, all available.
pub fn create_batch(reward_id: u128, number: i64, urls: Vec<String>, now: i64) -> (r: Vec<Coupon>)
    requires
        0 <= number,
        number + urls@.len() <= i64::MAX,
    ensures
        r@.len() == urls@.len(),
        forall|i: int|
            0 <= i < r@.len() ==> #[trigger] r@[i] == (Coupon {
                reward_id,
                number: (number + i) as i64,
                url: urls@[i],
                user_id: None,
                minted_at: None,
                created_at: now,
                updated_at: None,
            }),
{
    let ghost urls0 = urls@;
    let n = urls.len();
    let mut out: Vec<Coupon> = Vec::new();
    let mut rest = urls;
    let mut i: usize = 0;
    while i < n
        invariant
            n == urls0.len(),
            i <= n,
            rest@ == urls0.subrange(i as int, n as int),
            0 <= number,
            number + n <= i64::MAX,
            out@.len() == i,
            forall|j: int|
                0 <= j < i ==> #[trigger] out@[j] == (Coupon {
                    reward_id,
                    number: (number + j) as i64,
                    url: urls0[j],
                    user_id: None,
                    minted_at: None,
                    created_at: now,
                    updated_at: None,
                }),
        decreases n - i,
    {
        let ghost before = rest@;
        let url = rest.remove(0);
        proof {
            assert(rest@ =~= urls0.subrange(i + 1 as int, n as int));
            assert(url == urls0[i as int]);
        }
        out.push(
            Coupon {
                reward_id,
                number: number + (i as i64),
                url,
                user_id: None,
                minted_at: None,
                created_at: now,
                updated_at: None,
            },
        );
        i += 1;
    }
    out
}

} // verus!
