//! The task-approval engine.
//!
//! Given accept/reject decisions per task, it grants a voucher for every
//! point-bearing task that becomes accepted, deletes the voucher of every
//! task that becomes rejected, and merges the decisions into the
//! engagement's accepted map. The whole operation is all-or-nothing: on any
//! error the voucher slice it was handed is left untouched.

use vstd::prelude::*;

use crate::error::Error;
use crate::model::{Accepted, CampaignTerms, EngageSnapshot, Task, Voucher};
use crate::model::{vouchers_wf, POLICY_ON_ALL_TASKS_COMPLETION, POLICY_ON_CAMPAIGN_END,
    POLICY_ON_TASK_COMPLETION};
use crate::strmap::{
    keys_unique, lemma_lookup_entry, lemma_merge_absorb, lemma_merge_lookup, spec_lookup,
    spec_merge, StrMap,
};

verus! {

/// Everything the voucher rewrite depends on, fixed for one approval call.
pub struct ApproveCtx {
    /// The decisions handed in, task id to accept/reject.
    pub decisions: Seq<(String, bool)>,
    /// The engagement's accepted map before the call.
    pub accepted: Seq<(String, bool)>,
    pub policy: i16,
    /// The `valid_from` every voucher granted by this call receives.
    pub valid_from: Option<i64>,
    pub org_id: u128,
    pub project_id: u128,
    pub campaign_id: u128,
    pub chain_id: i64,
    pub signer_address: String,
    pub user_id: String,
    /// The campaign's voucher expiry, the granted vouchers' `valid_until`.
    pub valid_until: Option<i64>,
    pub now: i64,
}

/// How the engagement currently records task `tid`: absent counts as
/// not accepted.
pub open spec fn recorded_accept(acc: Seq<(String, bool)>, tid: Seq<char>) -> bool {
    match spec_lookup(acc, tid) {
        Some(b) => b,
        None => false,
    }
}

/// The change a decision asks of one task: `Some(true)` when a point-bearing
/// task becomes accepted, `Some(false)` when it becomes rejected, `None`
/// when nothing is to change.
pub open spec fn task_decision(
    dec: Seq<(String, bool)>,
    acc: Seq<(String, bool)>,
    t: Task,
) -> Option<bool> {
    if t.point is Some {
        match spec_lookup(dec, t.id@) {
            Some(d) => if d != recorded_accept(acc, t.id@) {
                Some(d)
            } else {
                None
            },
            None => None,
        }
    } else {
        None
    }
}

/// Every task of the campaign reads accepted under map `m`.
pub open spec fn all_tasks_accepted(tasks: Seq<Task>, m: Seq<(String, bool)>) -> bool {
    forall|i: int| 0 <= i < tasks.len() ==> spec_lookup(m, (#[trigger] tasks[i]).id@) == Some(true)
}

/// When a voucher granted now becomes redeemable, by campaign policy.
pub open spec fn approval_valid_from(
    policy: i16,
    all_acc: bool,
    end_at: Option<i64>,
    today: i64,
) -> Option<i64> {
    if policy == POLICY_ON_TASK_COMPLETION {
        Some(today)
    } else if policy == POLICY_ON_ALL_TASKS_COMPLETION {
        if all_acc {
            Some(today)
        } else {
            None
        }
    } else if policy == POLICY_ON_CAMPAIGN_END {
        end_at
    } else {
        None
    }
}

/// The voucher granted for task `t`: face amount and balance both equal the
/// task's point value.
pub open spec fn granted_voucher(ctx: ApproveCtx, t: Task) -> Voucher {
    Voucher {
        org_id: Some(ctx.org_id),
        project_id: ctx.project_id,
        campaign_id: ctx.campaign_id,
        chain_id: ctx.chain_id,
        signer_address: ctx.signer_address,
        user_id: ctx.user_id,
        task_id: t.id,
        value: t.point.unwrap(),
        balance: t.point.unwrap(),
        valid_from: ctx.valid_from,
        valid_until: ctx.valid_until,
        created_at: ctx.now,
        updated_at: None,
    }
}

/// `v` with its `valid_from` replaced.
pub open spec fn with_valid_from(v: Voucher, vf: Option<i64>) -> Voucher {
    Voucher { valid_from: vf, ..v }
}

/// Every voucher of the engagement re-synced to the same `valid_from`.
pub open spec fn resynced(vs: Seq<Voucher>, vf: Option<i64>) -> Seq<Voucher> {
    vs.map_values(|v: Voucher| with_valid_from(v, vf))
}

/// `vs` without the vouchers of task `tid`.
pub open spec fn without_task(vs: Seq<Voucher>, tid: Seq<char>) -> Seq<Voucher>
    decreases vs.len(),
{
    if vs.len() == 0 {
        vs
    } else {
        let prev = without_task(vs.drop_last(), tid);
        if vs.last().task_id@ == tid {
            prev
        } else {
            prev.push(vs.last())
        }
    }
}

/// The voucher slice after the first `n` tasks of the campaign are decided,
/// in task-list order. Becoming accepted under the all-tasks policy first
/// re-syncs every existing voucher to the shared `valid_from`.
pub open spec fn apply_decisions(
    vs: Seq<Voucher>,
    tasks: Seq<Task>,
    n: int,
    ctx: ApproveCtx,
) -> Seq<Voucher>
    decreases n,
{
    if n <= 0 {
        vs
    } else {
        let prev = apply_decisions(vs, tasks, n - 1, ctx);
        let t = tasks[n - 1];
        match task_decision(ctx.decisions, ctx.accepted, t) {
            Some(true) => {
                let base = if ctx.policy == POLICY_ON_ALL_TASKS_COMPLETION {
                    resynced(prev, ctx.valid_from)
                } else {
                    prev
                };
                base.push(granted_voucher(ctx, t))
            },
            Some(false) => without_task(prev, t.id@),
            None => prev,
        }
    }
}

/// Some decided task would be granted a negative point value.
pub open spec fn has_negative_grant(
    tasks: Seq<Task>,
    dec: Seq<(String, bool)>,
    acc: Seq<(String, bool)>,
) -> bool {
    exists|i: int|
        0 <= i < tasks.len() && task_decision(dec, acc, #[trigger] tasks[i]) == Some(true)
            && tasks[i].point.unwrap() < 0
}

/// The context one approval call runs under, from its raw inputs.
pub open spec fn approve_ctx(
    org_id: u128,
    campaign_id: u128,
    chain_id: i64,
    signer_address: String,
    campaign: CampaignTerms,
    user_id: String,
    acc: Seq<(String, bool)>,
    dec: Seq<(String, bool)>,
    today: i64,
    now: i64,
) -> ApproveCtx {
    ApproveCtx {
        decisions: dec,
        accepted: acc,
        policy: campaign.voucher_policy,
        valid_from: approval_valid_from(
            campaign.voucher_policy,
            all_tasks_accepted(campaign.tasks@, spec_merge(acc, dec)),
            campaign.end_at,
            today,
        ),
        org_id,
        project_id: campaign.project_id,
        campaign_id,
        chain_id,
        signer_address,
        user_id,
        valid_until: campaign.voucher_expire_at,
        now,
    }
}

/// The change a decision asks of one task, executably.
fn decide_task(dec: &Accepted, acc: &Accepted, t: &Task) -> (r: Option<bool>)
    ensures
        r == task_decision(dec.kv_seq(), acc.kv_seq(), *t),
{
    if t.point.is_some() {
        match dec.get(t.id.as_str()) {
            Some(d) => {
                let recorded = match acc.get(t.id.as_str()) {
                    Some(b) => *b,
                    None => false,
                };
                if *d != recorded {
                    Some(*d)
                } else {
                    None
                }
            },
            None => None,
        }
    } else {
        None
    }
}

/// Apply accept/reject decisions to one engagement.
///
/// `vouchers` is the engagement's voucher slice; `accepted` is the decision
/// map. On success the vouchers are rewritten as `apply_decisions` says and
/// the merged accepted map is returned for the engagement row; on any error
/// the vouchers are untouched. An empty decision map is rejected, a missing
/// campaign or engagement row is not found, and a decision that would grant
/// a negative point value is invalid.
pub fn approve(
    org_id: u128,
    campaign_id: u128,
    chain_id: i64,
    signer_address: &String,
    campaign: Option<&CampaignTerms>,
    engage: Option<&EngageSnapshot>,
    vouchers: &mut Vec<Voucher>,
    accepted: &Accepted,
    today: i64,
    now: i64,
) -> (r: Result<Accepted, Error>)
    ensures
        r is Err ==> final(vouchers)@ == old(vouchers)@,
        (r == Err::<Accepted, Error>(Error::EmptyUpdateSet)) <==> accepted.kv_seq().len() == 0,
        accepted.kv_seq().len() > 0 ==> ((r == Err::<Accepted, Error>(Error::NotFound)) <==> (
        campaign is None || engage is None)),
        accepted.kv_seq().len() > 0 ==> (campaign matches Some(c) ==> (engage matches Some(e)
            ==> {
            let ctx = approve_ctx(
                org_id,
                campaign_id,
                chain_id,
                *signer_address,
                *c,
                e.user_id,
                e.accepted.kv_seq(),
                accepted.kv_seq(),
                today,
                now,
            );
            if has_negative_grant(c.tasks@, accepted.kv_seq(), e.accepted.kv_seq()) {
                r == Err::<Accepted, Error>(Error::Validation)
            } else {
                r matches Ok(m) && final(vouchers)@ == apply_decisions(
                    old(vouchers)@,
                    c.tasks@,
                    c.tasks@.len() as int,
                    ctx,
                ) && m.kv_seq() == spec_merge(e.accepted.kv_seq(), accepted.kv_seq())
            }
        })),
        (r is Ok && vouchers_wf(old(vouchers)@)) ==> vouchers_wf(final(vouchers)@),
{
    if accepted.len() == 0 {
        return Err(Error::EmptyUpdateSet);
    }
    let (c, e) = match (campaign, engage) {
        (Some(c), Some(e)) => (c, e),
        _ => {
            return Err(Error::NotFound);
        },
    };

    // The merged accepted map: recorded entries preserved, decided entries
    // overwriting.
    let mut merged = e.accepted.clone();
    merged.merge(accepted.clone());

    // Does the merged map accept every task of the campaign?
    let n_tasks = c.tasks.len();
    let mut all_acc = true;
    let mut i: usize = 0;
    while i < n_tasks
        invariant
            n_tasks == c.tasks@.len(),
            i <= n_tasks,
            merged.kv_seq() == spec_merge(e.accepted.kv_seq(), accepted.kv_seq()),
            all_acc == forall|j: int|
                0 <= j < i ==> spec_lookup(merged.kv_seq(), (#[trigger] c.tasks@[j]).id@) == Some(
                    true,
                ),
        decreases n_tasks - i,
    {
        let here = match merged.get(c.tasks[i].id.as_str()) {
            Some(b) => *b,
            None => false,
        };
        all_acc = all_acc && here;
        i += 1;
    }
    assert(all_acc == all_tasks_accepted(c.tasks@, merged.kv_seq()));

    let valid_from: Option<i64> = if c.voucher_policy == POLICY_ON_TASK_COMPLETION {
        Some(today)
    } else if c.voucher_policy == POLICY_ON_ALL_TASKS_COMPLETION {
        if all_acc {
            Some(today)
        } else {
            None
        }
    } else if c.voucher_policy == POLICY_ON_CAMPAIGN_END {
        c.end_at
    } else {
        None
    };

    let ghost ctx = approve_ctx(
        org_id,
        campaign_id,
        chain_id,
        *signer_address,
        *c,
        e.user_id,
        e.accepted.kv_seq(),
        accepted.kv_seq(),
        today,
        now,
    );
    assert(valid_from == ctx.valid_from);

    // Refuse a decision set that would grant a negative point value.
    let mut i: usize = 0;
    while i < n_tasks
        invariant
            n_tasks == c.tasks@.len(),
            i <= n_tasks,
            accepted.kv_seq().len() > 0,
            campaign == Some(c),
            engage == Some(e),
            vouchers@ == old(vouchers)@,
            forall|j: int|
                0 <= j < i ==> !(task_decision(
                    accepted.kv_seq(),
                    e.accepted.kv_seq(),
                    #[trigger] c.tasks@[j],
                ) == Some(true) && c.tasks@[j].point.unwrap() < 0),
        decreases n_tasks - i,
    {
        let t = &c.tasks[i];
        if decide_task(accepted, &e.accepted, t) == Some(true) {
            if t.point.unwrap() < 0 {
                assert(task_decision(accepted.kv_seq(), e.accepted.kv_seq(), c.tasks@[i as int])
                    == Some(true) && c.tasks@[i as int].point.unwrap() < 0);
                assert(has_negative_grant(c.tasks@, accepted.kv_seq(), e.accepted.kv_seq()));
                return Err(Error::Validation);
            }
        }
        i += 1;
    }
    assert(!has_negative_grant(c.tasks@, accepted.kv_seq(), e.accepted.kv_seq()));

    // Rewrite the voucher slice, task by task in the campaign's order.
    let mut cur = clone_vouchers(vouchers);
    let mut i: usize = 0;
    while i < n_tasks
        invariant
            n_tasks == c.tasks@.len(),
            i <= n_tasks,
            ctx == approve_ctx(
                org_id,
                campaign_id,
                chain_id,
                *signer_address,
                *c,
                e.user_id,
                e.accepted.kv_seq(),
                accepted.kv_seq(),
                today,
                now,
            ),
            valid_from == ctx.valid_from,
            ctx.decisions == accepted.kv_seq(),
            ctx.accepted == e.accepted.kv_seq(),
            ctx.policy == c.voucher_policy,
            cur@ == apply_decisions(old(vouchers)@, c.tasks@, i as int, ctx),
            vouchers@ == old(vouchers)@,
        decreases n_tasks - i,
    {
        let t = &c.tasks[i];
        match decide_task(accepted, &e.accepted, t) {
            Some(true) => {
                if c.voucher_policy == POLICY_ON_ALL_TASKS_COMPLETION {
                    resync_valid_from(&mut cur, valid_from);
                }
                let granted = Voucher {
                    org_id: Some(org_id),
                    project_id: c.project_id,
                    campaign_id,
                    chain_id,
                    signer_address: signer_address.clone(),
                    user_id: e.user_id.clone(),
                    task_id: t.id.clone(),
                    value: t.point.unwrap(),
                    balance: t.point.unwrap(),
                    valid_from,
                    valid_until: c.voucher_expire_at,
                    created_at: now,
                    updated_at: None,
                };
                assert(granted == granted_voucher(ctx, c.tasks@[i as int]));
                cur.push(granted);
            },
            Some(false) => {
                cur = remove_task_vouchers(cur, &t.id);
            },
            None => {},
        }
        i += 1;
    }

    proof {
        lemma_apply_decisions_wf(old(vouchers)@, c.tasks@, n_tasks as int, ctx);
    }
    *vouchers = cur;
    Ok(merged)
}

/// Copy a voucher slice.
fn clone_vouchers(vs: &Vec<Voucher>) -> (r: Vec<Voucher>)
    ensures
        r@ == vs@,
{
    let mut r: Vec<Voucher> = Vec::new();
    let mut i: usize = 0;
    while i < vs.len()
        invariant
            i <= vs@.len(),
            r@ == vs@.subrange(0, i as int),
        decreases vs@.len() - i,
    {
        r.push(vs[i].clone());
        assert(r@ =~= vs@.subrange(0, i + 1 as int));
        i += 1;
    }
    assert(r@ =~= vs@);
    r
}

/// Set every voucher's `valid_from` to the shared policy value.
fn resync_valid_from(vs: &mut Vec<Voucher>, vf: Option<i64>)
    ensures
        final(vs)@ == resynced(old(vs)@, vf),
{
    let n = vs.len();
    let mut i: usize = 0;
    while i < n
        invariant
            n == vs@.len(),
            i <= n,
            vs@.len() == old(vs)@.len(),
            forall|j: int| 0 <= j < i ==> vs@[j] == with_valid_from(old(vs)@[j], vf),
            forall|j: int| i <= j < n ==> vs@[j] == old(vs)@[j],
        decreases n - i,
    {
        let mut v = vs[i].clone();
        v.valid_from = vf;
        vs[i] = v;
        i += 1;
    }
    assert(vs@ =~= resynced(old(vs)@, vf));
}

/// Drop every voucher of one task, keeping the rest in order.
fn remove_task_vouchers(vs: Vec<Voucher>, tid: &String) -> (r: Vec<Voucher>)
    ensures
        r@ == without_task(vs@, tid@),
{
    let mut r: Vec<Voucher> = Vec::new();
    let n = vs.len();
    let mut i: usize = 0;
    while i < n
        invariant
            n == vs@.len(),
            i <= n,
            r@ == without_task(vs@.take(i as int), tid@),
        decreases n - i,
    {
        let keep = !(vs[i].task_id == *tid);
        if keep {
            r.push(vs[i].clone());
        }
        proof {
            assert(vs@.take(i + 1 as int).drop_last() =~= vs@.take(i as int));
            assert(vs@.take(i + 1 as int).last() == vs@[i as int]);
        }
        i += 1;
    }
    assert(vs@.take(n as int) =~= vs@);
    r
}

/// When no task is to change, the voucher slice is not touched.
proof fn lemma_apply_decisions_noop(vs: Seq<Voucher>, tasks: Seq<Task>, n: int, ctx: ApproveCtx)
    requires
        n <= tasks.len(),
        forall|i: int|
            0 <= i < tasks.len() ==> task_decision(ctx.decisions, ctx.accepted, #[trigger] tasks[i])
                is None,
    ensures
        apply_decisions(vs, tasks, n, ctx) == vs,
    decreases n,
{
    if n > 0 {
        lemma_apply_decisions_noop(vs, tasks, n - 1, ctx);
    }
}

/// Approving twice with an identical decision map changes the ledger only on
/// the first call: the second call leaves the voucher slice exactly as the
/// first call wrote it, and merging the decisions into the accepted map a
/// second time gives the map back word for word. The decision map carries
/// each key once, as every decoded JSON object does.
pub proof fn lemma_approve_idempotent(
    vs: Seq<Voucher>,
    org_id: u128,
    campaign_id: u128,
    chain_id: i64,
    signer_address: String,
    campaign: CampaignTerms,
    user_id: String,
    acc: Seq<(String, bool)>,
    dec: Seq<(String, bool)>,
    today: i64,
    now: i64,
    today2: i64,
    now2: i64,
)
    requires
        keys_unique(dec),
    ensures
        ({
            let ctx1 = approve_ctx(
                org_id,
                campaign_id,
                chain_id,
                signer_address,
                campaign,
                user_id,
                acc,
                dec,
                today,
                now,
            );
            let vs1 = apply_decisions(vs, campaign.tasks@, campaign.tasks@.len() as int, ctx1);
            let acc1 = spec_merge(acc, dec);
            let ctx2 = approve_ctx(
                org_id,
                campaign_id,
                chain_id,
                signer_address,
                campaign,
                user_id,
                acc1,
                dec,
                today2,
                now2,
            );
            spec_merge(acc1, dec) == acc1 && apply_decisions(
                vs1,
                campaign.tasks@,
                campaign.tasks@.len() as int,
                ctx2,
            ) == vs1
        }),
{
    let tasks = campaign.tasks@;
    let acc1 = spec_merge(acc, dec);

    // Every decided key reads its decided value in the merged map.
    assert forall|k: Seq<char>| true implies spec_lookup(acc1, k) == match spec_lookup(dec, k) {
        Some(v) => Some(v),
        None => spec_lookup(acc, k),
    } by {
        lemma_merge_lookup(acc, dec, k);
    }
    assert forall|i: int| 0 <= i < dec.len() implies spec_lookup(
        acc1,
        (#[trigger] dec[i]).0@,
    ) == Some(dec[i].1) by {
        lemma_lookup_entry(dec, i);
    }

    // So merging the same decisions again changes nothing,
    lemma_merge_absorb(acc1, dec);

    // and no task's recorded acceptance differs from its decision any more.
    assert forall|i: int| 0 <= i < tasks.len() implies task_decision(
        dec,
        acc1,
        #[trigger] tasks[i],
    ) is None by {
        let t = tasks[i];
        if t.point is Some {
            match spec_lookup(dec, t.id@) {
                Some(d) => {
                    assert(spec_lookup(acc1, t.id@) == Some(d));
                },
                None => {},
            }
        }
    }

    let ctx2 = approve_ctx(
        org_id,
        campaign_id,
        chain_id,
        signer_address,
        campaign,
        user_id,
        acc1,
        dec,
        today2,
        now2,
    );
    let ctx1 = approve_ctx(
        org_id,
        campaign_id,
        chain_id,
        signer_address,
        campaign,
        user_id,
        acc,
        dec,
        today,
        now,
    );
    let vs1 = apply_decisions(vs, tasks, tasks.len() as int, ctx1);
    lemma_apply_decisions_noop(vs1, tasks, tasks.len() as int, ctx2);
}

/// Granting, re-syncing and deleting keep every voucher well formed, as long
/// as no decided task carries a negative point value.
proof fn lemma_apply_decisions_wf(vs: Seq<Voucher>, tasks: Seq<Task>, n: int, ctx: ApproveCtx)
    requires
        n <= tasks.len(),
        !has_negative_grant(tasks, ctx.decisions, ctx.accepted),
    ensures
        vouchers_wf(vs) ==> vouchers_wf(apply_decisions(vs, tasks, n, ctx)),
    decreases n,
{
    if n > 0 {
        lemma_apply_decisions_wf(vs, tasks, n - 1, ctx);
        let prev = apply_decisions(vs, tasks, n - 1, ctx);
        let t = tasks[n - 1];
        match task_decision(ctx.decisions, ctx.accepted, t) {
            Some(true) => {
                assert(t.point.unwrap() >= 0);
                assert(vouchers_wf(prev) ==> vouchers_wf(resynced(prev, ctx.valid_from)));
            },
            Some(false) => {
                lemma_without_task_wf(prev, t.id@);
            },
            None => {},
        }
    }
}

proof fn lemma_without_task_wf(vs: Seq<Voucher>, tid: Seq<char>)
    ensures
        vouchers_wf(vs) ==> vouchers_wf(without_task(vs, tid)),
    decreases vs.len(),
{
    if vs.len() > 0 {
        lemma_without_task_wf(vs.drop_last(), tid);
        assert(vouchers_wf(vs) ==> vouchers_wf(vs.drop_last()));
    }
}

} // verus!
