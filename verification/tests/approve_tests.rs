use engage_ledger::approve::approve;
use engage_ledger::engage::{has_blank_submission, submit_proof};
use engage_ledger::error::Error;
use engage_ledger::model::{
    Accepted, CampaignTerms, EngageSnapshot, Submission, Submissions, Task, Voucher,
};

fn task(id: &str, point: Option<i64>) -> Task {
    Task {
        id: id.to_string(),
        name: format!("task {}", id),
        description: None,
        link: None,
        images: None,
        point,
    }
}

fn campaign(policy: i16, tasks: Vec<Task>) -> CampaignTerms {
    CampaignTerms {
        project_id: 7,
        tasks,
        voucher_policy: policy,
        voucher_expire_at: Some(40000),
        end_at: Some(39000),
    }
}

fn engage_with(accepted: Accepted) -> EngageSnapshot {
    EngageSnapshot {
        user_id: "user-1".to_string(),
        accepted,
    }
}

fn decisions(pairs: &[(&str, bool)]) -> Accepted {
    let mut m = Accepted::new();
    for (k, v) in pairs {
        m.insert(k.to_string(), *v);
    }
    m
}

const TODAY: i64 = 20000;
const NOW: i64 = 1_700_000_000;

#[test]
fn empty_decisions_rejected() {
    let c = campaign(1, vec![task("a", Some(10))]);
    let e = engage_with(Accepted::new());
    let mut vouchers: Vec<Voucher> = Vec::new();
    let r = approve(
        1,
        2,
        592,
        &"0xabc".to_string(),
        Some(&c),
        Some(&e),
        &mut vouchers,
        &Accepted::new(),
        TODAY,
        NOW,
    );
    assert_eq!(r.unwrap_err(), Error::EmptyUpdateSet);
    assert!(vouchers.is_empty());
}

#[test]
fn missing_campaign_is_not_found() {
    let e = engage_with(Accepted::new());
    let mut vouchers: Vec<Voucher> = Vec::new();
    let r = approve(
        1,
        2,
        592,
        &"0xabc".to_string(),
        None,
        Some(&e),
        &mut vouchers,
        &decisions(&[("a", true)]),
        TODAY,
        NOW,
    );
    assert_eq!(r.unwrap_err(), Error::NotFound);
}

#[test]
fn missing_engagement_is_not_found() {
    let c = campaign(1, vec![task("a", Some(10))]);
    let mut vouchers: Vec<Voucher> = Vec::new();
    let r = approve(
        1,
        2,
        592,
        &"0xabc".to_string(),
        Some(&c),
        None,
        &mut vouchers,
        &decisions(&[("a", true)]),
        TODAY,
        NOW,
    );
    assert_eq!(r.unwrap_err(), Error::NotFound);
}

#[test]
fn negative_point_grant_is_invalid() {
    let c = campaign(1, vec![task("a", Some(-5))]);
    let e = engage_with(Accepted::new());
    let mut vouchers: Vec<Voucher> = Vec::new();
    let r = approve(
        1,
        2,
        592,
        &"0xabc".to_string(),
        Some(&c),
        Some(&e),
        &mut vouchers,
        &decisions(&[("a", true)]),
        TODAY,
        NOW,
    );
    assert_eq!(r.unwrap_err(), Error::Validation);
    assert!(vouchers.is_empty());
}

#[test]
fn accepting_a_task_grants_a_voucher_on_completion_policy() {
    let c = campaign(1, vec![task("a", Some(10)), task("b", Some(5))]);
    let e = engage_with(Accepted::new());
    let mut vouchers: Vec<Voucher> = Vec::new();
    let merged = approve(
        1,
        2,
        592,
        &"0xabc".to_string(),
        Some(&c),
        Some(&e),
        &mut vouchers,
        &decisions(&[("a", true)]),
        TODAY,
        NOW,
    )
    .unwrap();
    assert_eq!(vouchers.len(), 1);
    let v = &vouchers[0];
    assert_eq!(v.task_id, "a");
    assert_eq!(v.value, 10);
    assert_eq!(v.balance, 10);
    assert_eq!(v.valid_from, Some(TODAY));
    assert_eq!(v.valid_until, Some(40000));
    assert_eq!(v.user_id, "user-1");
    assert_eq!(v.org_id, Some(1));
    assert_eq!(v.project_id, 7);
    assert_eq!(merged.get("a"), Some(&true));
}

#[test]
fn pointless_tasks_grant_nothing() {
    let c = campaign(1, vec![task("a", None)]);
    let e = engage_with(Accepted::new());
    let mut vouchers: Vec<Voucher> = Vec::new();
    let merged = approve(
        1,
        2,
        592,
        &"0xabc".to_string(),
        Some(&c),
        Some(&e),
        &mut vouchers,
        &decisions(&[("a", true)]),
        TODAY,
        NOW,
    )
    .unwrap();
    assert!(vouchers.is_empty());
    assert_eq!(merged.get("a"), Some(&true));
}

#[test]
fn rejecting_a_task_deletes_its_voucher() {
    let c = campaign(1, vec![task("a", Some(10))]);
    let e0 = engage_with(Accepted::new());
    let mut vouchers: Vec<Voucher> = Vec::new();
    let signer = "0xabc".to_string();
    let merged = approve(
        1,
        2,
        592,
        &signer,
        Some(&c),
        Some(&e0),
        &mut vouchers,
        &decisions(&[("a", true)]),
        TODAY,
        NOW,
    )
    .unwrap();
    assert_eq!(vouchers.len(), 1);

    let e1 = engage_with(merged);
    approve(
        1,
        2,
        592,
        &signer,
        Some(&c),
        Some(&e1),
        &mut vouchers,
        &decisions(&[("a", false)]),
        TODAY,
        NOW,
    )
    .unwrap();
    assert!(vouchers.is_empty());
}

#[test]
fn campaign_end_policy_uses_end_date() {
    let c = campaign(3, vec![task("a", Some(10))]);
    let e = engage_with(Accepted::new());
    let mut vouchers: Vec<Voucher> = Vec::new();
    approve(
        1,
        2,
        592,
        &"0xabc".to_string(),
        Some(&c),
        Some(&e),
        &mut vouchers,
        &decisions(&[("a", true)]),
        TODAY,
        NOW,
    )
    .unwrap();
    assert_eq!(vouchers[0].valid_from, Some(39000));
}

#[test]
fn manual_policy_leaves_valid_from_unset() {
    let c = campaign(0, vec![task("a", Some(10))]);
    let e = engage_with(Accepted::new());
    let mut vouchers: Vec<Voucher> = Vec::new();
    approve(
        1,
        2,
        592,
        &"0xabc".to_string(),
        Some(&c),
        Some(&e),
        &mut vouchers,
        &decisions(&[("a", true)]),
        TODAY,
        NOW,
    )
    .unwrap();
    assert_eq!(vouchers[0].valid_from, None);
}

// With the all-tasks policy, accepting only one of two tasks leaves the new
// voucher dormant; accepting the second wakes every voucher of the
// engagement at once.
#[test]
fn all_tasks_policy_wakes_all_vouchers_together() {
    let c = campaign(2, vec![task("a", Some(10)), task("b", Some(5))]);
    let signer = "0xabc".to_string();
    let e0 = engage_with(Accepted::new());
    let mut vouchers: Vec<Voucher> = Vec::new();
    let merged = approve(
        1,
        2,
        592,
        &signer,
        Some(&c),
        Some(&e0),
        &mut vouchers,
        &decisions(&[("a", true)]),
        TODAY,
        NOW,
    )
    .unwrap();
    assert_eq!(vouchers.len(), 1);
    assert_eq!(vouchers[0].valid_from, None);

    let e1 = engage_with(merged);
    approve(
        1,
        2,
        592,
        &signer,
        Some(&c),
        Some(&e1),
        &mut vouchers,
        &decisions(&[("b", true)]),
        TODAY + 1,
        NOW + 86400,
    )
    .unwrap();
    assert_eq!(vouchers.len(), 2);
    assert_eq!(vouchers[0].task_id, "a");
    assert_eq!(vouchers[0].valid_from, Some(TODAY + 1));
    assert_eq!(vouchers[1].task_id, "b");
    assert_eq!(vouchers[1].valid_from, Some(TODAY + 1));
}

// Approving twice with an identical decision map changes ledger state only
// on the first call.
#[test]
fn approve_twice_changes_nothing_the_second_time() {
    let c = campaign(1, vec![task("a", Some(10)), task("b", Some(5))]);
    let signer = "0xabc".to_string();
    let dec = decisions(&[("a", true), ("b", false)]);
    let e0 = engage_with(decisions(&[("b", true)]));
    let mut vouchers: Vec<Voucher> = vec![Voucher {
        org_id: Some(1),
        project_id: 7,
        campaign_id: 2,
        chain_id: 592,
        signer_address: signer.clone(),
        user_id: "user-1".to_string(),
        task_id: "b".to_string(),
        value: 5,
        balance: 5,
        valid_from: Some(TODAY - 10),
        valid_until: None,
        created_at: NOW - 100,
        updated_at: None,
    }];
    let merged1 = approve(
        1,
        2,
        592,
        &signer,
        Some(&c),
        Some(&e0),
        &mut vouchers,
        &dec,
        TODAY,
        NOW,
    )
    .unwrap();
    let snapshot: Vec<(String, i64, Option<i64>)> = vouchers
        .iter()
        .map(|v| (v.task_id.clone(), v.balance, v.valid_from))
        .collect();
    assert_eq!(
        snapshot,
        vec![("a".to_string(), 10, Some(TODAY))],
        "task a granted, task b's voucher deleted"
    );

    let e1 = engage_with(merged1);
    let merged2 = approve(
        1,
        2,
        592,
        &signer,
        Some(&c),
        Some(&e1),
        &mut vouchers,
        &dec,
        TODAY + 5,
        NOW + 500,
    )
    .unwrap();
    let snapshot2: Vec<(String, i64, Option<i64>)> = vouchers
        .iter()
        .map(|v| (v.task_id.clone(), v.balance, v.valid_from))
        .collect();
    assert_eq!(snapshot, snapshot2, "second call left the vouchers alone");
    assert_eq!(merged2.get("a"), Some(&true));
    assert_eq!(merged2.get("b"), Some(&false));
    assert_eq!(merged2.len(), e1.accepted.len(), "no new keys on repeat");
}

#[test]
fn merge_preserves_untouched_keys_and_overwrites_supplied_ones() {
    let c = campaign(0, vec![task("a", None), task("b", None), task("c", None)]);
    let e = engage_with(decisions(&[("a", true), ("b", false)]));
    let mut vouchers: Vec<Voucher> = Vec::new();
    let merged = approve(
        1,
        2,
        592,
        &"0xabc".to_string(),
        Some(&c),
        Some(&e),
        &mut vouchers,
        &decisions(&[("b", true), ("c", true)]),
        TODAY,
        NOW,
    )
    .unwrap();
    assert_eq!(merged.get("a"), Some(&true));
    assert_eq!(merged.get("b"), Some(&true));
    assert_eq!(merged.get("c"), Some(&true));
}

#[test]
fn blank_submission_detection() {
    let mut subs = Submissions::new();
    subs.insert(
        "a".to_string(),
        Submission {
            message: Some("did it".to_string()),
            link: None,
            images: None,
        },
    );
    assert!(!has_blank_submission(&subs));
    subs.insert(
        "b".to_string(),
        Submission {
            message: None,
            link: None,
            images: Some(Vec::new()),
        },
    );
    assert!(has_blank_submission(&subs));
}

#[test]
fn proofs_cannot_target_accepted_tasks() {
    let stored = Submissions::new();
    let accepted = decisions(&[("a", true), ("b", false)]);

    let mut incoming = Submissions::new();
    incoming.insert(
        "a".to_string(),
        Submission {
            message: Some("late proof".to_string()),
            link: None,
            images: None,
        },
    );
    let r = submit_proof(stored, &accepted, incoming);
    assert_eq!(r.unwrap_err(), Error::NotFound);
}

#[test]
fn proofs_merge_into_the_stored_submissions() {
    let mut stored = Submissions::new();
    stored.insert(
        "a".to_string(),
        Submission {
            message: Some("first".to_string()),
            link: None,
            images: None,
        },
    );
    let accepted = decisions(&[("a", false)]);

    let empty = Submissions::new();
    let r = submit_proof(stored, &accepted, empty);
    let stored = match r {
        Err(e) => {
            assert_eq!(e, Error::EmptyUpdateSet);
            let mut again = Submissions::new();
            again.insert(
                "a".to_string(),
                Submission {
                    message: Some("first".to_string()),
                    link: None,
                    images: None,
                },
            );
            again
        }
        Ok(_) => panic!("an empty submission set must be rejected"),
    };

    let mut incoming = Submissions::new();
    incoming.insert(
        "a".to_string(),
        Submission {
            message: Some("second".to_string()),
            link: None,
            images: None,
        },
    );
    incoming.insert(
        "b".to_string(),
        Submission {
            message: Some("proof b".to_string()),
            link: None,
            images: None,
        },
    );
    let merged = submit_proof(stored, &accepted, incoming).unwrap();
    assert_eq!(merged.len(), 2);
    assert_eq!(merged.get("a").unwrap().message, Some("second".to_string()));
    assert_eq!(merged.get("b").unwrap().message, Some("proof b".to_string()));
}
