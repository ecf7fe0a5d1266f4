use engage_ledger::auth::{CustomClaims, MyFirebaseUser, OrgClaims, WalletClaims};
use engage_ledger::coupons::{create_batch, next_seq};
use engage_ledger::engage::{
    commit_coupon_gate, issue_coupon_gate, CommitRefusal, IssueRefusal, UpdateCouponSet,
    UpdateParam,
};
use engage_ledger::error::Error;
use engage_ledger::ids::{new_uuid, IdPrefix};
use engage_ledger::membership::{get_club, get_xp, JoinResult, Membership};
use engage_ledger::mezzofy::{
    first_coupon_serial, CouponIssueCommitResult, CustomerCoupon, CustomerCoupons,
};
use engage_ledger::model::Coupon;

fn user_with(admin: i64, orgs: &[(u128, i64)], wallets: &[(i64, &str, bool)]) -> MyFirebaseUser {
    let mut o = OrgClaims::new();
    for (id, level) in orgs {
        o.push(*id, *level);
    }
    let mut w = WalletClaims::new();
    for (chain, addr, granted) in wallets {
        w.push(*chain, addr.to_string(), *granted);
    }
    MyFirebaseUser {
        provider_id: None,
        name: Some("Sam".to_string()),
        picture: None,
        iss: "issuer".to_string(),
        aud: "audience".to_string(),
        auth_time: 1,
        user_id: "user-1".to_string(),
        sub: "user-1".to_string(),
        iat: 1,
        exp: 2,
        email: None,
        email_verified: None,
        claims: CustomClaims {
            admin,
            orgs: o,
            wallets: w,
        },
    }
}

#[test]
fn sudo_needs_a_positive_admin_level() {
    assert!(user_with(1, &[], &[]).can_sudo());
    assert!(!user_with(0, &[], &[]).can_sudo());
    assert!(!user_with(-1, &[], &[]).can_sudo());
}

#[test]
fn editing_needs_the_editor_bit() {
    let u = user_with(0, &[(10, 0x2), (11, 0x1)], &[]);
    assert!(u.can_edit(10));
    assert!(!u.can_edit(11), "viewer level cannot edit");
    assert!(!u.can_edit(12), "unknown organization cannot be edited");
}

#[test]
fn wallet_claims_match_chain_and_address() {
    let u = user_with(0, &[], &[(592, "0xabc", true), (592, "0xdef", false)]);
    assert!(u.has_wallet_claim(592, "0xabc"));
    assert!(!u.has_wallet_claim(1, "0xabc"), "another chain is another wallet");
    assert!(!u.has_wallet_claim(592, "0xdef"), "a revoked grant is no claim");
    assert!(!u.has_wallet_claim(592, "0x999"));
}

#[test]
fn repairing_claims_lowercases_and_keeps_only_grants() {
    let mut w = WalletClaims::new();
    w.push(592, "0xABCDEF".to_string(), true);
    w.push(1, "0x123".to_string(), false);
    let repaired = w.repaired();
    assert_eq!(repaired.get(592, "0xabcdef"), Some(true));
    assert_eq!(repaired.get(592, "0xABCDEF"), None, "the stored key is folded");
    assert_eq!(repaired.get(1, "0x123"), None, "revoked wallets are dropped");
}

#[test]
fn http_status_per_error_kind() {
    assert_eq!(Error::NotFound.http_status(), 404);
    assert_eq!(Error::EmptyUpdateSet.http_status(), 400);
    assert_eq!(Error::Validation.http_status(), 400);
    assert_eq!(Error::InvalidOrder.http_status(), 400);
    assert_eq!(Error::LimitReached.http_status(), 409);
    assert_eq!(Error::Unknown.http_status(), 500);
    assert_eq!(Error::Storage.http_status(), 500);
}

#[test]
fn fresh_ids_carry_their_kind_byte() {
    let id = new_uuid(IdPrefix::Campaign);
    assert_eq!(id.len(), 16);
    assert_eq!(id[0], 3);
    let id2 = new_uuid(IdPrefix::Org);
    assert_eq!(id2[0], 1);
    assert_ne!(
        &id[1..],
        &[0u8; 15][..],
        "a fresh identifier is overwhelmingly unlikely to be all zero"
    );
}

#[test]
fn coupon_sequence_starts_at_one_and_follows_the_maximum() {
    let mk = |number: i64, reward: u128| Coupon {
        reward_id: reward,
        number,
        url: String::new(),
        user_id: None,
        minted_at: None,
        created_at: 0,
        updated_at: None,
    };
    let empty: Vec<Coupon> = Vec::new();
    assert_eq!(next_seq(&empty, 900), 1);
    let coupons = vec![mk(4, 900), mk(9, 901), mk(2, 900)];
    assert_eq!(next_seq(&coupons, 900), 5, "other rewards' numbers are ignored");
}

#[test]
fn batches_number_their_coupons_consecutively() {
    let urls = vec!["u1".to_string(), "u2".to_string(), "u3".to_string()];
    let batch = create_batch(900, 5, urls, 42);
    assert_eq!(batch.len(), 3);
    assert_eq!(batch[0].number, 5);
    assert_eq!(batch[2].number, 7);
    assert_eq!(batch[1].url, "u2");
    assert!(batch.iter().all(|c| c.user_id.is_none() && c.minted_at.is_none()));
}

#[test]
fn empty_updates_are_recognised() {
    let empty = UpdateParam {
        coupon_issue_id: None,
        coupon_serial: None,
        coupon_url: None,
        country_id: None,
    };
    assert!(empty.is_empty());
    let some = UpdateParam {
        country_id: Some(392),
        ..empty
    };
    assert!(!some.is_empty());

    let set = UpdateCouponSet {
        coupon_url: None,
        coupon_serial: Some("SER-1".to_string()),
        coupon_issue_id: None,
    };
    assert!(!set.is_empty());
}

#[test]
fn coupon_issue_gate_checks_in_order() {
    let url = Some("https://c.example/1".to_string());
    let serial = Some("SER-1".to_string());
    let issue = Some("TX-1".to_string());
    let code = Some("CODE".to_string());
    assert_eq!(issue_coupon_gate(&None, &None, &None, Some(392), &code), Ok(392));
    assert_eq!(
        issue_coupon_gate(&issue, &None, &None, Some(392), &code),
        Err(IssueRefusal::AlreadyIssued)
    );
    assert_eq!(
        issue_coupon_gate(&None, &serial, &None, Some(392), &code),
        Err(IssueRefusal::AlreadyIssued)
    );
    assert_eq!(
        issue_coupon_gate(&None, &None, &url, Some(392), &code),
        Err(IssueRefusal::AlreadyIssued)
    );
    assert_eq!(
        issue_coupon_gate(&None, &None, &None, None, &code),
        Err(IssueRefusal::CountryNotSet)
    );
    assert_eq!(
        issue_coupon_gate(&None, &None, &None, Some(392), &None),
        Err(IssueRefusal::CouponCodeMissing)
    );
}

#[test]
fn coupon_commit_gate_checks_in_order() {
    let url = Some("https://c.example/1".to_string());
    let serial = Some("SER-1".to_string());
    let issue = Some("TX-1".to_string());
    assert_eq!(
        commit_coupon_gate(&issue, &None, &None),
        Ok(&"TX-1".to_string())
    );
    assert_eq!(
        commit_coupon_gate(&issue, &serial, &None),
        Err(CommitRefusal::AlreadyCommitted)
    );
    assert_eq!(
        commit_coupon_gate(&issue, &None, &url),
        Err(CommitRefusal::AlreadyCommitted)
    );
    assert_eq!(
        commit_coupon_gate(&None, &None, &None),
        Err(CommitRefusal::NotYetIssued)
    );
}

#[test]
fn the_first_vendor_coupon_is_recorded() {
    let empty = CouponIssueCommitResult {
        customer_coupons: Vec::new(),
    };
    assert!(first_coupon_serial(&empty).is_none());
    let full = CouponIssueCommitResult {
        customer_coupons: vec![
            CustomerCoupons {
                customer_coupon: CustomerCoupon {
                    coupon_serial: "SER-1".to_string(),
                },
            },
            CustomerCoupons {
                customer_coupon: CustomerCoupon {
                    coupon_serial: "SER-2".to_string(),
                },
            },
        ],
    };
    assert_eq!(first_coupon_serial(&full), Some(&"SER-1".to_string()));
}

#[test]
fn joining_subscribes() {
    assert!(JoinResult::joined().subscribed);
}

#[test]
fn reward_link_updates_know_when_they_are_empty() {
    let empty = engage_ledger::campaign_reward::UpdateParam {
        approved: None,
        active: None,
        point: None,
        max_mint: None,
        user_mint: None,
    };
    assert!(empty.is_empty());
    let some = engage_ledger::project_reward::UpdateParam {
        approved: Some(true),
        active: None,
        point: None,
        max_mint: None,
        user_mint: None,
    };
    assert!(!some.is_empty());
    assert!(engage_ledger::engage_pub::UpdateParam { country_id: None }.is_empty());
    assert!(!engage_ledger::engage_pub::UpdateParam { country_id: Some(392) }.is_empty());
    let org = engage_ledger::org::UpdateParam {
        name: Some("New name".to_string()),
        logo: None,
        admins: None,
    };
    assert!(!org.is_empty());
}

#[test]
fn reward_link_knobs_may_never_be_negative() {
    let create = engage_ledger::campaign_reward::CreateParam {
        project_id: 7,
        reward_id: 900,
        point: -1,
        active: true,
        max_mint: None,
        user_mint: None,
    };
    assert_eq!(create.validate(), Err(Error::Validation));
    let create = engage_ledger::project_reward::CreateParam {
        reward_id: 900,
        point: 10,
        active: true,
        max_mint: Some(-2),
        user_mint: None,
    };
    assert_eq!(create.validate(), Err(Error::Validation));
    let update = engage_ledger::campaign_reward::UpdateParam {
        approved: None,
        active: None,
        point: None,
        max_mint: None,
        user_mint: Some(-1),
    };
    assert_eq!(update.validate(), Err(Error::Validation));
    let fine = engage_ledger::project_reward::UpdateParam {
        approved: Some(true),
        active: Some(true),
        point: Some(0),
        max_mint: Some(0),
        user_mint: None,
    };
    assert_eq!(fine.validate(), Ok(()));
}

#[test]
fn experience_counts_every_assigned_coupon() {
    let mine = "user-1".to_string();
    let mk = |number: i64, user: Option<&str>, minted: Option<i64>| Coupon {
        reward_id: 900,
        number,
        url: String::new(),
        user_id: user.map(|u| u.to_string()),
        minted_at: minted,
        created_at: 0,
        updated_at: None,
    };
    let coupons = vec![
        mk(1, Some("user-1"), Some(5)),
        mk(2, Some("user-1"), None),
        mk(3, Some("user-2"), Some(5)),
        mk(4, None, None),
    ];
    assert_eq!(get_xp(&coupons, &mine), 2);
}

#[test]
fn club_count_follows_the_membership_rows() {
    let user = "user-1".to_string();
    let mk = |project_id: u128, user: &str| Membership {
        project_id,
        user_id: user.to_string(),
        subscribed: true,
    };
    let rows = vec![mk(1, "user-1"), mk(2, "user-2"), mk(3, "user-1")];
    assert_eq!(get_club(&rows, &user), 2);
}
