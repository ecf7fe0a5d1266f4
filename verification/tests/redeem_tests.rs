use engage_ledger::error::Error;
use engage_ledger::model::{Coupon, RewardLink, Voucher};
use engage_ledger::redeem::{
    assign_coupon, get_project_point, mint_campaign_reward, mint_project_reward,
};

const TODAY: i64 = 20000;
const NOW: i64 = 1_700_000_000;
const REWARD: u128 = 900;
const PROJECT: u128 = 7;
const CAMPAIGN: u128 = 2;

fn coupon(number: i64, user: Option<&str>) -> Coupon {
    Coupon {
        reward_id: REWARD,
        number,
        url: format!("https://coupons.example/{}", number),
        user_id: user.map(|u| u.to_string()),
        minted_at: None,
        created_at: NOW - 1000,
        updated_at: None,
    }
}

fn voucher(task: &str, balance: i64, valid_until: Option<i64>, created_at: i64) -> Voucher {
    Voucher {
        org_id: Some(1),
        project_id: PROJECT,
        campaign_id: CAMPAIGN,
        chain_id: 592,
        signer_address: "0xabc".to_string(),
        user_id: "user-1".to_string(),
        task_id: task.to_string(),
        value: balance,
        balance,
        valid_from: Some(TODAY - 5),
        valid_until,
        created_at,
        updated_at: None,
    }
}

fn link(point: i64) -> RewardLink {
    RewardLink {
        point: Some(point),
        active: true,
        approved: true,
        max_mint: None,
        user_mint: None,
    }
}

// Vouchers are consumed soonest-expiry-first: the first is zeroed, the one
// that covers the cost keeps the remainder, and the remaining balance comes
// back.
#[test]
fn fifo_consumption_splits_across_vouchers() {
    let user = "user-1".to_string();
    let mut coupons = vec![coupon(1, None)];
    let mut vouchers = vec![
        voucher("b", 10, Some(TODAY + 20), NOW - 100),
        voucher("a", 5, Some(TODAY + 10), NOW - 200),
    ];
    let l = link(7);
    let out = mint_project_reward(
        &user,
        REWARD,
        PROJECT,
        Some(&l),
        &mut coupons,
        &mut vouchers,
        TODAY,
        NOW,
    )
    .unwrap();

    // The sooner-expiring voucher (5 points) is drained, the later one keeps
    // 15 - 7 = 8.
    assert_eq!(vouchers[1].balance, 0);
    assert_eq!(vouchers[0].balance, 8);
    assert_eq!(vouchers[0].updated_at, Some(NOW));
    assert_eq!(out.balance, 8);

    // Each receipt line records old balance minus new balance: all 5 from
    // the drained voucher, the remaining 2 of the cost from the next one.
    let consumed: Vec<(String, i64)> = out
        .vouchers
        .iter()
        .map(|r| (r.task_id.clone(), r.minted))
        .collect();
    assert_eq!(consumed, vec![("a".to_string(), 5), ("b".to_string(), 2)]);

    assert_eq!(coupons[0].user_id, Some("user-1".to_string()));
    assert_eq!(coupons[0].minted_at, Some(NOW));
    assert_eq!(out.coupon.number, 1);
    assert_eq!(out.coupon.user_id, Some("user-1".to_string()));
}

// Two redemptions against the last available coupon: exactly one succeeds,
// the other fails NotFound.
#[test]
fn last_coupon_is_assigned_exactly_once() {
    let user_a = "user-1".to_string();
    let user_b = "user-2".to_string();
    let mut coupons = vec![coupon(1, None)];
    let mut vouchers_a = vec![voucher("a", 10, None, NOW - 100)];
    let mut vouchers_b = vec![Voucher {
        user_id: "user-2".to_string(),
        ..voucher("a", 10, None, NOW - 100)
    }];
    let l = link(1);

    let first = mint_campaign_reward(
        &user_a,
        REWARD,
        CAMPAIGN,
        Some(&l),
        &mut coupons,
        &mut vouchers_a,
        TODAY,
        NOW,
    );
    assert!(first.is_ok());

    let second = mint_campaign_reward(
        &user_b,
        REWARD,
        CAMPAIGN,
        Some(&l),
        &mut coupons,
        &mut vouchers_b,
        TODAY,
        NOW + 1,
    );
    assert_eq!(second.unwrap_err(), Error::NotFound);
    assert_eq!(vouchers_b[0].balance, 10, "the loser's vouchers are untouched");
}

#[test]
fn no_available_coupon_is_not_found() {
    let user = "user-1".to_string();
    let mut coupons = vec![coupon(1, Some("someone-else"))];
    let mut vouchers = vec![voucher("a", 10, None, NOW - 100)];
    let l = link(1);
    let r = mint_project_reward(
        &user,
        REWARD,
        PROJECT,
        Some(&l),
        &mut coupons,
        &mut vouchers,
        TODAY,
        NOW,
    );
    assert_eq!(r.unwrap_err(), Error::NotFound);
}

#[test]
fn lowest_numbered_coupon_is_taken() {
    let user = "user-1".to_string();
    let mut coupons = vec![coupon(5, None), coupon(2, None), coupon(9, None)];
    let mut vouchers = vec![voucher("a", 10, None, NOW - 100)];
    let l = link(1);
    let out = mint_project_reward(
        &user,
        REWARD,
        PROJECT,
        Some(&l),
        &mut coupons,
        &mut vouchers,
        TODAY,
        NOW,
    )
    .unwrap();
    assert_eq!(out.coupon.number, 2);
    assert_eq!(coupons[1].user_id, Some("user-1".to_string()));
    assert_eq!(coupons[0].user_id, None);
}

#[test]
fn missing_or_disabled_link_is_not_found() {
    let user = "user-1".to_string();
    let mut vouchers = vec![voucher("a", 10, None, NOW - 100)];

    let mut coupons = vec![coupon(1, None)];
    let r = mint_project_reward(
        &user,
        REWARD,
        PROJECT,
        None,
        &mut coupons,
        &mut vouchers,
        TODAY,
        NOW,
    );
    assert_eq!(r.unwrap_err(), Error::NotFound);

    let inactive = RewardLink {
        active: false,
        ..link(1)
    };
    let r = mint_project_reward(
        &user,
        REWARD,
        PROJECT,
        Some(&inactive),
        &mut coupons,
        &mut vouchers,
        TODAY,
        NOW,
    );
    assert_eq!(r.unwrap_err(), Error::NotFound);

    let unapproved = RewardLink {
        approved: false,
        ..link(1)
    };
    let r = mint_project_reward(
        &user,
        REWARD,
        PROJECT,
        Some(&unapproved),
        &mut coupons,
        &mut vouchers,
        TODAY,
        NOW,
    );
    assert_eq!(r.unwrap_err(), Error::NotFound);

    let unpriced = RewardLink {
        point: None,
        ..link(1)
    };
    let r = mint_project_reward(
        &user,
        REWARD,
        PROJECT,
        Some(&unpriced),
        &mut coupons,
        &mut vouchers,
        TODAY,
        NOW,
    );
    assert_eq!(r.unwrap_err(), Error::NotFound);
}

#[test]
fn negative_price_is_invalid() {
    let user = "user-1".to_string();
    let mut coupons = vec![coupon(1, None)];
    let mut vouchers = vec![voucher("a", 10, None, NOW - 100)];
    let l = link(-3);
    let r = mint_project_reward(
        &user,
        REWARD,
        PROJECT,
        Some(&l),
        &mut coupons,
        &mut vouchers,
        TODAY,
        NOW,
    );
    assert_eq!(r.unwrap_err(), Error::Validation);
}

#[test]
fn scope_cap_blocks_when_met_and_zero_means_no_cap() {
    let user = "user-1".to_string();
    let mut vouchers = vec![voucher("a", 10, None, NOW - 100)];

    // One coupon already assigned, cap of one: nothing to mint.
    let mut coupons = vec![coupon(1, Some("earlier-user")), coupon(2, None)];
    let capped = RewardLink {
        max_mint: Some(1),
        ..link(1)
    };
    let r = mint_project_reward(
        &user,
        REWARD,
        PROJECT,
        Some(&capped),
        &mut coupons,
        &mut vouchers,
        TODAY,
        NOW,
    );
    assert_eq!(r.unwrap_err(), Error::NotFound);

    // A zero cap means the cap is off.
    let uncapped = RewardLink {
        max_mint: Some(0),
        ..link(1)
    };
    let r = mint_project_reward(
        &user,
        REWARD,
        PROJECT,
        Some(&uncapped),
        &mut coupons,
        &mut vouchers,
        TODAY,
        NOW,
    );
    assert!(r.is_ok());
}

#[test]
fn user_cap_yields_limit_reached() {
    let user = "user-1".to_string();
    // A coupon already assigned to this user and not yet recorded as minted
    // counts against the per-user cap.
    let mut coupons = vec![coupon(1, Some("user-1")), coupon(2, None)];
    let mut vouchers = vec![voucher("a", 10, None, NOW - 100)];
    let l = RewardLink {
        user_mint: Some(1),
        ..link(1)
    };
    let r = mint_project_reward(
        &user,
        REWARD,
        PROJECT,
        Some(&l),
        &mut coupons,
        &mut vouchers,
        TODAY,
        NOW,
    );
    assert_eq!(r.unwrap_err(), Error::LimitReached);
}

#[test]
fn insufficient_balance_is_not_found() {
    let user = "user-1".to_string();
    let mut coupons = vec![coupon(1, None)];
    let mut vouchers = vec![
        voucher("a", 3, None, NOW - 100),
        // Not yet valid: never counted.
        Voucher {
            valid_from: Some(TODAY + 1),
            ..voucher("b", 50, None, NOW - 90)
        },
        // Expired: never counted.
        Voucher {
            valid_until: Some(TODAY - 1),
            ..voucher("c", 50, None, NOW - 80)
        },
        // Dormant (no start date): never counted.
        Voucher {
            valid_from: None,
            ..voucher("d", 50, None, NOW - 70)
        },
    ];
    let l = link(5);
    let r = mint_project_reward(
        &user,
        REWARD,
        PROJECT,
        Some(&l),
        &mut coupons,
        &mut vouchers,
        TODAY,
        NOW,
    );
    assert_eq!(r.unwrap_err(), Error::NotFound);
    assert_eq!(vouchers[0].balance, 3, "failed redemption consumes nothing");
}

#[test]
fn unset_expiry_is_consumed_last() {
    let user = "user-1".to_string();
    let mut coupons = vec![coupon(1, None)];
    let mut vouchers = vec![
        voucher("open", 10, None, NOW - 300),
        voucher("dated", 10, Some(TODAY + 30), NOW - 100),
    ];
    let l = link(12);
    let out = mint_campaign_reward(
        &user,
        REWARD,
        CAMPAIGN,
        Some(&l),
        &mut coupons,
        &mut vouchers,
        TODAY,
        NOW,
    )
    .unwrap();
    // The dated voucher is drained first, the open-ended one covers the rest.
    assert_eq!(vouchers[1].balance, 0);
    assert_eq!(vouchers[0].balance, 8);
    let consumed: Vec<(String, i64)> = out
        .vouchers
        .iter()
        .map(|r| (r.task_id.clone(), r.minted))
        .collect();
    assert_eq!(
        consumed,
        vec![("dated".to_string(), 10), ("open".to_string(), 2)]
    );
}

#[test]
fn assign_coupon_guard_refuses_taken_coupons() {
    let user = "user-2".to_string();
    let mut coupons = vec![coupon(1, None)];
    let first = assign_coupon(&mut coupons, REWARD, 1, &"user-1".to_string(), NOW);
    assert!(first.is_ok());
    let second = assign_coupon(&mut coupons, REWARD, 1, &user, NOW + 1);
    assert_eq!(second.unwrap_err(), Error::NotFound);
    assert_eq!(coupons[0].user_id, Some("user-1".to_string()));
}

#[test]
fn project_point_counts_exactly_the_consumable_balance() {
    let user = "user-1".to_string();
    let vouchers = vec![
        voucher("a", 5, Some(TODAY + 10), NOW - 100),
        // No expiry: consumable, so counted.
        voucher("b", 50, None, NOW - 90),
        // Expired.
        Voucher {
            valid_until: Some(TODAY - 1),
            ..voucher("c", 50, Some(TODAY - 1), NOW - 80)
        },
        // Not yet started.
        Voucher {
            valid_from: Some(TODAY + 1),
            ..voucher("d", 50, Some(TODAY + 10), NOW - 75)
        },
        // Never started.
        Voucher {
            valid_from: None,
            ..voucher("e", 50, Some(TODAY + 10), NOW - 72)
        },
        // Someone else's.
        Voucher {
            user_id: "user-2".to_string(),
            ..voucher("f", 50, Some(TODAY + 10), NOW - 70)
        },
    ];
    assert_eq!(get_project_point(&vouchers, &user, PROJECT, TODAY), 55);
}

#[test]
fn exact_cost_drains_every_voucher() {
    let user = "user-1".to_string();
    let mut coupons = vec![coupon(1, None)];
    let mut vouchers = vec![
        voucher("a", 4, Some(TODAY + 5), NOW - 200),
        voucher("b", 6, Some(TODAY + 9), NOW - 100),
    ];
    let l = link(10);
    let out = mint_project_reward(
        &user,
        REWARD,
        PROJECT,
        Some(&l),
        &mut coupons,
        &mut vouchers,
        TODAY,
        NOW,
    )
    .unwrap();
    assert_eq!(vouchers[0].balance, 0);
    assert_eq!(vouchers[1].balance, 0);
    assert_eq!(out.balance, 0);
    assert_eq!(out.vouchers.len(), 2);
}

#[test]
fn zero_cost_touches_only_the_first_voucher() {
    let user = "user-1".to_string();
    let mut coupons = vec![coupon(1, None)];
    let mut vouchers = vec![
        voucher("a", 4, Some(TODAY + 5), NOW - 200),
        voucher("b", 6, Some(TODAY + 9), NOW - 100),
    ];
    let l = link(0);
    let out = mint_project_reward(
        &user,
        REWARD,
        PROJECT,
        Some(&l),
        &mut coupons,
        &mut vouchers,
        TODAY,
        NOW,
    )
    .unwrap();
    // The walk still visits the first voucher, consumes nothing of it, and
    // stops there.
    assert_eq!(vouchers[0].balance, 4);
    assert_eq!(vouchers[0].updated_at, Some(NOW));
    assert_eq!(vouchers[1].updated_at, None);
    assert_eq!(out.vouchers.len(), 1);
    assert_eq!(out.vouchers[0].minted, 0);
    assert_eq!(out.balance, 10);
}

#[test]
fn created_at_breaks_expiry_ties() {
    let user = "user-1".to_string();
    let mut coupons = vec![coupon(1, None)];
    let mut vouchers = vec![
        voucher("younger", 5, Some(TODAY + 5), NOW - 100),
        voucher("older", 5, Some(TODAY + 5), NOW - 200),
    ];
    let l = link(5);
    let out = mint_project_reward(
        &user,
        REWARD,
        PROJECT,
        Some(&l),
        &mut coupons,
        &mut vouchers,
        TODAY,
        NOW,
    )
    .unwrap();
    assert_eq!(vouchers[1].balance, 0, "the older grant is consumed first");
    assert_eq!(vouchers[0].balance, 5);
    assert_eq!(out.vouchers[0].task_id, "older");
}
