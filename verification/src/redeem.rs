//! The redemption engine.
//!
//! A redemption picks the lowest-numbered available coupon of a reward,
//! checks the reward link and its mint caps, consumes the user's eligible
//! voucher balance first-in-first-out, and assigns the coupon — one atomic
//! step against the ledger slices it is handed: on any error both slices are
//! left untouched.

use vstd::prelude::*;

use crate::error::Error;
use crate::model::{coupon_available, voucher_wf, vouchers_wf, Coupon, RewardLink, Voucher};

verus! {

/// Which reward catalog the redemption draws on: a project's or a campaign's.
#[derive(Clone, Copy, PartialEq, Eq, Structural)]
pub enum MintScope {
    Project(u128),
    Campaign(u128),
}

/// The voucher belongs to the scope being redeemed against.
pub open spec fn in_scope(v: Voucher, scope: MintScope) -> bool {
    match scope {
        MintScope::Project(p) => v.project_id == p,
        MintScope::Campaign(c) => v.campaign_id == c,
    }
}

/// A voucher whose balance this redemption may consume: the user's, in
/// scope, already valid and not yet expired.
pub open spec fn voucher_eligible(v: Voucher, scope: MintScope, user: Seq<char>, today: i64) -> bool {
    &&& in_scope(v, scope)
    &&& v.user_id@ == user
    &&& v.valid_from matches Some(f) && f <= today
    &&& (v.valid_until is None || v.valid_until.unwrap() >= today)
}

/// Eligible balance across the first `n` vouchers.
pub open spec fn sum_eligible_upto(
    vs: Seq<Voucher>,
    n: int,
    scope: MintScope,
    user: Seq<char>,
    today: i64,
) -> int
    decreases n,
{
    if n <= 0 {
        0
    } else {
        sum_eligible_upto(vs, n - 1, scope, user, today) + if voucher_eligible(
            vs[n - 1],
            scope,
            user,
            today,
        ) {
            vs[n - 1].balance as int
        } else {
            0
        }
    }
}

/// The user's whole eligible balance, what the redemption may spend.
pub open spec fn sum_eligible(vs: Seq<Voucher>, scope: MintScope, user: Seq<char>, today: i64) -> int {
    sum_eligible_upto(vs, vs.len() as int, scope, user, today)
}

/// Strict order on expiry dates, an unset expiry sorting last.
pub open spec fn until_lt(a: Option<i64>, b: Option<i64>) -> bool {
    match (a, b) {
        (Some(x), Some(y)) => x < y,
        (Some(_), None) => true,
        (None, _) => false,
    }
}

/// The consumption order: soonest expiry first, then oldest grant, then
/// position — a strict total order over distinct positions.
pub open spec fn fifo_before(a: Voucher, ai: int, b: Voucher, bi: int) -> bool {
    ||| until_lt(a.valid_until, b.valid_until)
    ||| (!until_lt(a.valid_until, b.valid_until) && !until_lt(b.valid_until, a.valid_until) && (
    a.created_at < b.created_at || (a.created_at == b.created_at && ai < bi)))
}

/// `ord` lists the positions of exactly the eligible vouchers, in
/// consumption order. There is exactly one such listing.
pub open spec fn is_fifo_order(
    vs: Seq<Voucher>,
    scope: MintScope,
    user: Seq<char>,
    today: i64,
    ord: Seq<int>,
) -> bool {
    &&& forall|p: int|
        0 <= p < ord.len() ==> 0 <= #[trigger] ord[p] < vs.len() && voucher_eligible(
            vs[ord[p]],
            scope,
            user,
            today,
        )
    &&& forall|p: int, q: int|
        0 <= p < q < ord.len() ==> fifo_before(vs[#[trigger] ord[p]], ord[p], vs[#[trigger] ord[q]], ord[q])
    &&& forall|i: int|
        0 <= i < vs.len() && voucher_eligible(#[trigger] vs[i], scope, user, today) ==> ord.contains(
            i,
        )
}

/// A voucher after the redemption wrote its new balance.
pub open spec fn consumed_voucher(v: Voucher, new_balance: i64, now: i64) -> Voucher {
    Voucher { balance: new_balance, updated_at: Some(now), ..v }
}

/// The voucher slice after the walk over `ord[p..]` with `total` already
/// accumulated: each visited voucher is zeroed while the running total stays
/// below the cost; the voucher that reaches the cost keeps the remainder and
/// the walk stops there.
pub open spec fn apply_consumption(
    vs: Seq<Voucher>,
    ord: Seq<int>,
    p: int,
    total: int,
    cost: int,
    now: i64,
) -> Seq<Voucher>
    decreases ord.len() - p,
{
    if p < 0 || p >= ord.len() {
        vs
    } else {
        let i = ord[p];
        let t2 = total + vs[i].balance;
        if t2 < cost {
            apply_consumption(vs.update(i, consumed_voucher(vs[i], 0, now)), ord, p + 1, t2, cost, now)
        } else {
            vs.update(i, consumed_voucher(vs[i], (t2 - cost) as i64, now))
        }
    }
}

/// One line of the redemption receipt: which voucher was consumed, by how
/// much, and when.
#[derive(Debug)]
pub struct PointRewardUpdateResult {
    pub campaign_id: u128,
    pub chain_id: i64,
    pub signer_address: String,
    pub task_id: String,
    pub minted: i64,
    pub updated_at: i64,
}

/// The receipt line the walk writes for the voucher at position `i` of the
/// slice, given the total accumulated before it.
pub open spec fn consumption_record(vs: Seq<Voucher>, i: int, total: int, cost: int, now: i64) -> PointRewardUpdateResult {
    let v = vs[i];
    let t2 = total + v.balance;
    PointRewardUpdateResult {
        campaign_id: v.campaign_id,
        chain_id: v.chain_id,
        signer_address: v.signer_address,
        task_id: v.task_id,
        minted: if t2 < cost {
            v.balance
        } else {
            (v.balance - (t2 - cost)) as i64
        },
        updated_at: now,
    }
}

/// The receipt of the walk over `ord[p..]` with `total` accumulated.
pub open spec fn consumption_records(
    vs: Seq<Voucher>,
    ord: Seq<int>,
    p: int,
    total: int,
    cost: int,
    now: i64,
) -> Seq<PointRewardUpdateResult>
    decreases ord.len() - p,
{
    if p < 0 || p >= ord.len() {
        Seq::empty()
    } else {
        let i = ord[p];
        let t2 = total + vs[i].balance;
        if t2 < cost {
            seq![consumption_record(vs, i, total, cost, now)] + consumption_records(
                vs,
                ord,
                p + 1,
                t2,
                cost,
                now,
            )
        } else {
            seq![consumption_record(vs, i, total, cost, now)]
        }
    }
}

/// A coupon once the redemption has taken it.
pub open spec fn assigned_coupon(c: Coupon, user: String, now: i64) -> Coupon {
    Coupon { user_id: Some(user), minted_at: Some(now), updated_at: Some(now), ..c }
}

/// No two coupons share a reward and a number — the coupon table's key.
pub open spec fn coupons_unique(cs: Seq<Coupon>) -> bool {
    forall|i: int, j: int|
        0 <= i < j < cs.len() ==> !((#[trigger] cs[i]).reward_id == (#[trigger] cs[j]).reward_id
            && cs[i].number == cs[j].number)
}

/// The coupon an assignment would take: at position `i`, for the reward,
/// still available.
pub open spec fn assignable_at(cs: Seq<Coupon>, reward_id: u128, number: i64, i: int) -> bool {
    &&& 0 <= i < cs.len()
    &&& cs[i].reward_id == reward_id
    &&& cs[i].number == number
    &&& coupon_available(cs[i])
}

/// A coupon a redemption of this reward could take.
pub open spec fn coupon_candidate(cs: Seq<Coupon>, reward_id: u128, i: int) -> bool {
    &&& 0 <= i < cs.len()
    &&& cs[i].reward_id == reward_id
    &&& coupon_available(cs[i])
}

/// Position of the lowest-numbered available coupon among the first `n`,
/// the earliest such position on a tie.
pub open spec fn chosen_upto(cs: Seq<Coupon>, reward_id: u128, n: int) -> Option<int>
    decreases n,
{
    if n <= 0 {
        None
    } else {
        let prev = chosen_upto(cs, reward_id, n - 1);
        if coupon_candidate(cs, reward_id, n - 1) {
            match prev {
                None => Some(n - 1),
                Some(p) => if cs[n - 1].number < cs[p].number {
                    Some(n - 1)
                } else {
                    Some(p)
                },
            }
        } else {
            prev
        }
    }
}

/// The coupon one redemption of this reward takes.
pub open spec fn chosen_coupon(cs: Seq<Coupon>, reward_id: u128) -> Option<int> {
    chosen_upto(cs, reward_id, cs.len() as int)
}

/// Coupons of the reward already assigned to some user, among the first `n`.
pub open spec fn count_assigned_upto(cs: Seq<Coupon>, reward_id: u128, n: int) -> int
    decreases n,
{
    if n <= 0 {
        0
    } else {
        count_assigned_upto(cs, reward_id, n - 1) + if cs[n - 1].reward_id == reward_id && cs[n
            - 1].user_id is Some {
            1int
        } else {
            0int
        }
    }
}

pub open spec fn count_assigned(cs: Seq<Coupon>, reward_id: u128) -> int {
    count_assigned_upto(cs, reward_id, cs.len() as int)
}

/// Coupons of the reward assigned to this user whose mint is still
/// unrecorded, among the first `n`.
pub open spec fn count_user_pending_upto(
    cs: Seq<Coupon>,
    reward_id: u128,
    user: Seq<char>,
    n: int,
) -> int
    decreases n,
{
    if n <= 0 {
        0
    } else {
        count_user_pending_upto(cs, reward_id, user, n - 1) + if cs[n - 1].reward_id == reward_id
            && (cs[n - 1].user_id matches Some(u) && u@ == user) && cs[n - 1].minted_at is None {
            1int
        } else {
            0int
        }
    }
}

pub open spec fn count_user_pending(cs: Seq<Coupon>, reward_id: u128, user: Seq<char>) -> int {
    count_user_pending_upto(cs, reward_id, user, cs.len() as int)
}

/// Available coupons of the reward among the first `n`.
pub open spec fn count_available_upto(cs: Seq<Coupon>, reward_id: u128, n: int) -> int
    decreases n,
{
    if n <= 0 {
        0
    } else {
        count_available_upto(cs, reward_id, n - 1) + if coupon_candidate(cs, reward_id, n - 1) {
            1int
        } else {
            0int
        }
    }
}

pub open spec fn count_available(cs: Seq<Coupon>, reward_id: u128) -> int {
    count_available_upto(cs, reward_id, cs.len() as int)
}

/// The reward link admits this redemption: on, approved, priced, and the
/// scope-wide cap (unset or zero meaning no cap) not yet met.
pub open spec fn link_usable(link: RewardLink, cs: Seq<Coupon>, reward_id: u128) -> bool {
    &&& link.active
    &&& link.approved
    &&& link.point is Some
    &&& match link.max_mint {
        None => true,
        Some(m) => m == 0 || count_assigned(cs, reward_id) < m,
    }
}

/// The per-user cap (unset or non-positive meaning no cap) not yet met.
pub open spec fn user_cap_ok(link: RewardLink, cs: Seq<Coupon>, reward_id: u128, user: Seq<char>) -> bool {
    match link.user_mint {
        None => true,
        Some(m) => m <= 0 || count_user_pending(cs, reward_id, user) < m,
    }
}

/// Why a redemption fails, if it does, checked in the engine's order: no
/// available coupon, then the link and its scope cap, then a negative price,
/// then the per-user cap, then the balance.
pub open spec fn mint_err(
    scope: MintScope,
    reward_id: u128,
    user: Seq<char>,
    link: Option<RewardLink>,
    cs: Seq<Coupon>,
    vs: Seq<Voucher>,
    today: i64,
) -> Option<Error> {
    if chosen_coupon(cs, reward_id) is None {
        Some(Error::NotFound)
    } else if link is None || !link_usable(link.unwrap(), cs, reward_id) {
        Some(Error::NotFound)
    } else if link.unwrap().point.unwrap() < 0 {
        Some(Error::Validation)
    } else if !user_cap_ok(link.unwrap(), cs, reward_id, user) {
        Some(Error::LimitReached)
    } else if sum_eligible(vs, scope, user, today) < link.unwrap().point.unwrap() {
        Some(Error::NotFound)
    } else {
        None
    }
}

/// Everything a successful redemption did: the chosen coupon assigned, the
/// eligible balance consumed first-in-first-out, the receipt and the
/// remaining balance returned.
pub open spec fn mint_success(
    scope: MintScope,
    reward_id: u128,
    user_id: String,
    cost: int,
    cs0: Seq<Coupon>,
    vs0: Seq<Voucher>,
    today: i64,
    now: i64,
    cs1: Seq<Coupon>,
    vs1: Seq<Voucher>,
    coupon: Coupon,
    records: Seq<PointRewardUpdateResult>,
    balance: int,
) -> bool {
    &&& chosen_coupon(cs0, reward_id) matches Some(ci) && cs1 == cs0.update(
        ci,
        assigned_coupon(cs0[ci], user_id, now),
    ) && coupon == assigned_coupon(cs0[ci], user_id, now)
    &&& balance == sum_eligible(vs0, scope, user_id@, today) - cost
    &&& exists|ord: Seq<int>|
        {
            &&& is_fifo_order(vs0, scope, user_id@, today, ord)
            &&& vs1 == apply_consumption(vs0, ord, 0, 0, cost, now)
            &&& records == consumption_records(vs0, ord, 0, 0, cost, now)
        }
}

/// Assign coupon `(reward_id, number)` to a user, guarded by availability:
/// the write happens only if the coupon is still unassigned, otherwise the
/// caller's transaction fails with the slice untouched — this guard is what
/// serializes two racing redemptions.
pub fn assign_coupon(
    coupons: &mut Vec<Coupon>,
    reward_id: u128,
    number: i64,
    user_id: &String,
    now: i64,
) -> (r: Result<Coupon, Error>)
    requires
        coupons_unique(old(coupons)@),
    ensures
        coupons_unique(final(coupons)@),
        match r {
            Ok(c) => {
                &&& exists|i: int| assignable_at(old(coupons)@, reward_id, number, i)
                &&& forall|i: int|
                    assignable_at(old(coupons)@, reward_id, number, i) ==> (c == assigned_coupon(
                        old(coupons)@[i],
                        *user_id,
                        now,
                    ) && final(coupons)@ == old(coupons)@.update(
                        i,
                        assigned_coupon(old(coupons)@[i], *user_id, now),
                    ))
            },
            Err(e) => {
                &&& e == Error::NotFound
                &&& final(coupons)@ == old(coupons)@
                &&& !exists|i: int| assignable_at(old(coupons)@, reward_id, number, i)
            },
        },
{
    let n = coupons.len();
    let mut i: usize = 0;
    while i < n
        invariant
            n == coupons@.len(),
            coupons@ == old(coupons)@,
            coupons_unique(coupons@),
            i <= n,
            forall|j: int| 0 <= j < i ==> !assignable_at(coupons@, reward_id, number, j),
        decreases n - i,
    {
        let c = &coupons[i];
        if c.reward_id == reward_id && c.number == number && c.user_id.is_none()
            && c.minted_at.is_none() {
            let taken = Coupon {
                reward_id: c.reward_id,
                number: c.number,
                url: c.url.clone(),
                user_id: Some(user_id.clone()),
                minted_at: Some(now),
                created_at: c.created_at,
                updated_at: Some(now),
            };
            assert(taken == assigned_coupon(coupons@[i as int], *user_id, now));
            let copy = taken.clone();
            coupons[i] = taken;
            proof {
                assert(assignable_at(old(coupons)@, reward_id, number, i as int));
                assert forall|j: int|
                    assignable_at(old(coupons)@, reward_id, number, j) implies j == i as int by {
                    if j != i as int {
                        assert(old(coupons)@[j].reward_id == old(coupons)@[i as int].reward_id);
                    }
                }
            }
            return Ok(copy);
        }
        i += 1;
    }
    Err(Error::NotFound)
}

/// The consumption order, executably.
fn fifo_before_exec(a: &Voucher, ai: usize, b: &Voucher, bi: usize) -> (r: bool)
    ensures
        r == fifo_before(*a, ai as int, *b, bi as int),
{
    let until_a_lt_b = match (&a.valid_until, &b.valid_until) {
        (Some(x), Some(y)) => *x < *y,
        (Some(_), None) => true,
        (None, _) => false,
    };
    let until_b_lt_a = match (&b.valid_until, &a.valid_until) {
        (Some(x), Some(y)) => *x < *y,
        (Some(_), None) => true,
        (None, _) => false,
    };
    until_a_lt_b || (!until_b_lt_a && (a.created_at < b.created_at || (a.created_at
        == b.created_at && ai < bi)))
}

/// One voucher may be eligible or not, executably.
fn eligible_exec(v: &Voucher, scope: &MintScope, user: &String, today: i64) -> (r: bool)
    ensures
        r == voucher_eligible(*v, *scope, user@, today),
{
    let scoped = match scope {
        MintScope::Project(p) => v.project_id == *p,
        MintScope::Campaign(c) => v.campaign_id == *c,
    };
    scoped && v.user_id == *user && (match &v.valid_from {
        Some(f) => *f <= today,
        None => false,
    }) && (match &v.valid_until {
        Some(u) => *u >= today,
        None => true,
    })
}

/// A consumption order never lists a position twice.
proof fn lemma_fifo_order_distinct(
    vs: Seq<Voucher>,
    scope: MintScope,
    user: Seq<char>,
    today: i64,
    ord: Seq<int>,
)
    requires
        is_fifo_order(vs, scope, user, today, ord),
    ensures
        forall|p: int, q: int| 0 <= p < q < ord.len() ==> ord[p] != ord[q],
{
    assert forall|p: int, q: int| 0 <= p < q < ord.len() implies ord[p] != ord[q] by {
        if ord[p] == ord[q] {
            assert(fifo_before(vs[ord[p]], ord[p], vs[ord[q]], ord[q]));
        }
    }
}

/// The receipt only reads the vouchers the walk has not reached yet, so a
/// write behind the walk leaves it unchanged.
proof fn lemma_records_frame(
    vs1: Seq<Voucher>,
    vs2: Seq<Voucher>,
    ord: Seq<int>,
    p: int,
    total: int,
    cost: int,
    now: i64,
)
    requires
        vs1.len() == vs2.len(),
        forall|q: int| p <= q < ord.len() ==> 0 <= #[trigger] ord[q] < vs1.len() && vs1[ord[q]]
            == vs2[ord[q]],
    ensures
        consumption_records(vs1, ord, p, total, cost, now) == consumption_records(
            vs2,
            ord,
            p,
            total,
            cost,
            now,
        ),
    decreases ord.len() - p,
{
    if 0 <= p < ord.len() {
        lemma_records_frame(vs1, vs2, ord, p + 1, total + vs1[ord[p]].balance, cost, now);
    }
}

/// The walk keeps every voucher well formed: a balance is only ever set to
/// zero or to a remainder below what it was.
proof fn lemma_apply_consumption_wf(
    vs: Seq<Voucher>,
    ord: Seq<int>,
    p: int,
    total: int,
    cost: int,
    now: i64,
)
    requires
        vouchers_wf(vs),
        0 <= total <= cost,
        forall|q: int| p <= q < ord.len() ==> 0 <= #[trigger] ord[q] < vs.len(),
    ensures
        vouchers_wf(apply_consumption(vs, ord, p, total, cost, now)),
    decreases ord.len() - p,
{
    if 0 <= p < ord.len() {
        let i = ord[p];
        assert(voucher_wf(vs[i]));
        let t2 = total + vs[i].balance;
        if t2 < cost {
            let vs2 = vs.update(i, consumed_voucher(vs[i], 0, now));
            assert(vouchers_wf(vs2)) by {
                assert(forall|j: int|
                    0 <= j < vs2.len() && j != i ==> #[trigger] vs2[j] == vs[j]);
            }
            lemma_apply_consumption_wf(vs2, ord, p + 1, t2, cost, now);
        } else {
            let nb = t2 - cost;
            assert(0 <= nb <= vs[i].balance);
            let vs2 = vs.update(i, consumed_voucher(vs[i], nb as i64, now));
            assert(vouchers_wf(vs2)) by {
                assert(forall|j: int|
                    0 <= j < vs2.len() && j != i ==> #[trigger] vs2[j] == vs[j]);
            }
        }
    }
}

/// Prefix sums of eligible balance never run below zero.
proof fn lemma_sum_eligible_nonneg(
    vs: Seq<Voucher>,
    n: int,
    scope: MintScope,
    user: Seq<char>,
    today: i64,
)
    requires
        vouchers_wf(vs),
        0 <= n <= vs.len(),
    ensures
        sum_eligible_upto(vs, n, scope, user, today) >= 0,
    decreases n,
{
    if n > 0 {
        lemma_sum_eligible_nonneg(vs, n - 1, scope, user, today);
        assert(voucher_wf(vs[n - 1]));
    }
}

/// Prefix sums of eligible balance only grow.
proof fn lemma_sum_eligible_mono(
    vs: Seq<Voucher>,
    n: int,
    m: int,
    scope: MintScope,
    user: Seq<char>,
    today: i64,
)
    requires
        vouchers_wf(vs),
        0 <= n <= m <= vs.len(),
    ensures
        sum_eligible_upto(vs, n, scope, user, today) <= sum_eligible_upto(vs, m, scope, user, today),
    decreases m,
{
    if n < m {
        lemma_sum_eligible_mono(vs, n, m - 1, scope, user, today);
        assert(voucher_wf(vs[m - 1]));
    }
}

/// What a successful redemption hands back: the assigned coupon, the
/// per-voucher consumption receipt, and the balance the user keeps.
#[derive(Debug)]
pub struct MintProjectRewardResult {
    pub coupon: Coupon,
    pub vouchers: Vec<PointRewardUpdateResult>,
    pub balance: i64,
}

/// As [`MintProjectRewardResult`], for a campaign-scoped redemption.
#[derive(Debug)]
pub struct MintCampaignRewardResult {
    pub coupon: Coupon,
    pub vouchers: Vec<PointRewardUpdateResult>,
    pub balance: i64,
}

/// The redemption engine shared by both scopes.
///
/// `coupons` carries the reward's coupon rows, `vouchers` the candidate
/// voucher rows, `link` the reward's link row in this scope if one exists.
/// The whole eligible balance is assumed to fit the store's 64-bit sum, as
/// the storage engine's aggregate does.
pub fn mint_reward(
    scope: MintScope,
    reward_id: u128,
    user_id: &String,
    link: Option<&RewardLink>,
    coupons: &mut Vec<Coupon>,
    vouchers: &mut Vec<Voucher>,
    today: i64,
    now: i64,
) -> (r: Result<(Coupon, Vec<PointRewardUpdateResult>, i64), Error>)
    requires
        coupons_unique(old(coupons)@),
        vouchers_wf(old(vouchers)@),
        sum_eligible(old(vouchers)@, scope, user_id@, today) <= i64::MAX,
    ensures
        coupons_unique(final(coupons)@),
        vouchers_wf(final(vouchers)@),
        match r {
            Err(e) => {
                &&& final(coupons)@ == old(coupons)@
                &&& final(vouchers)@ == old(vouchers)@
                &&& Some(e) == mint_err(
                    scope,
                    reward_id,
                    user_id@,
                    match link {
                        Some(l) => Some(*l),
                        None => None,
                    },
                    old(coupons)@,
                    old(vouchers)@,
                    today,
                )
            },
            Ok((coupon, records, balance)) => {
                &&& mint_err(
                    scope,
                    reward_id,
                    user_id@,
                    match link {
                        Some(l) => Some(*l),
                        None => None,
                    },
                    old(coupons)@,
                    old(vouchers)@,
                    today,
                ) is None
                &&& link matches Some(l) && mint_success(
                    scope,
                    reward_id,
                    *user_id,
                    l.point.unwrap() as int,
                    old(coupons)@,
                    old(vouchers)@,
                    today,
                    now,
                    final(coupons)@,
                    final(vouchers)@,
                    coupon,
                    records@,
                    balance as int,
                )
            },
        },
{
    let ghost cs0 = coupons@;
    let ghost vs0 = vouchers@;

    // Step 1: the lowest-numbered available coupon of the reward.
    let n_coupons = coupons.len();
    let mut best: Option<usize> = None;
    let mut i: usize = 0;
    while i < n_coupons
        invariant
            n_coupons == coupons@.len(),
            i <= n_coupons,
            match best {
                None => chosen_upto(coupons@, reward_id, i as int) is None,
                Some(b) => b < i && chosen_upto(coupons@, reward_id, i as int) == Some(b as int),
            },
        decreases n_coupons - i,
    {
        let c = &coupons[i];
        if c.reward_id == reward_id && c.user_id.is_none() && c.minted_at.is_none() {
            best = match best {
                None => Some(i),
                Some(b) => if coupons[i].number < coupons[b].number {
                    Some(i)
                } else {
                    Some(b)
                },
            };
        }
        i += 1;
    }
    let ci = match best {
        Some(b) => b,
        None => {
            return Err(Error::NotFound);
        },
    };
    proof {
        lemma_chosen_is_candidate(coupons@, reward_id, n_coupons as int);
        assert(coupon_candidate(coupons@, reward_id, ci as int));
    }

    // Step 2: the reward link, present, on, priced, under its scope cap.
    let l = match link {
        Some(l) => l,
        None => {
            return Err(Error::NotFound);
        },
    };
    let mut assigned_count: usize = 0;
    let mut i: usize = 0;
    while i < n_coupons
        invariant
            n_coupons == coupons@.len(),
            i <= n_coupons,
            assigned_count <= i,
            assigned_count as int == count_assigned_upto(coupons@, reward_id, i as int),
        decreases n_coupons - i,
    {
        let c = &coupons[i];
        if c.reward_id == reward_id && c.user_id.is_some() {
            assigned_count += 1;
        }
        i += 1;
    }
    let cap_ok = match l.max_mint {
        None => true,
        Some(m) => m == 0 || (m > 0 && (assigned_count as u128) < (m as u128)),
    };
    let usable = l.active && l.approved && l.point.is_some() && cap_ok;
    assert(usable == link_usable(*l, coupons@, reward_id));
    if !usable {
        return Err(Error::NotFound);
    }

    // A negative price would let a redemption grow balances: refused.
    let cost = match l.point {
        Some(p) => p,
        None => {
            return Err(Error::NotFound);
        },
    };
    if cost < 0 {
        return Err(Error::Validation);
    }

    // Step 3: the per-user cap, counted over still-unminted assignments.
    if let Some(m) = l.user_mint {
        if m > 0 {
            let mut pending: usize = 0;
            let mut i: usize = 0;
            while i < n_coupons
                invariant
                    n_coupons == coupons@.len(),
                    i <= n_coupons,
                    pending <= i,
                    pending as int == count_user_pending_upto(
                        coupons@,
                        reward_id,
                        user_id@,
                        i as int,
                    ),
                decreases n_coupons - i,
            {
                let c = &coupons[i];
                let mine = match &c.user_id {
                    Some(u) => *u == *user_id,
                    None => false,
                };
                if c.reward_id == reward_id && mine && c.minted_at.is_none() {
                    pending += 1;
                }
                i += 1;
            }
            if (pending as u128) >= (m as u128) {
                assert(!user_cap_ok(*l, coupons@, reward_id, user_id@));
                return Err(Error::LimitReached);
            }
        }
    }
    assert(user_cap_ok(*l, coupons@, reward_id, user_id@));

    // Step 4: the eligible balance, which must cover the cost.
    let n_vouchers = vouchers.len();
    let mut sum: i64 = 0;
    let mut i: usize = 0;
    while i < n_vouchers
        invariant
            n_vouchers == vouchers@.len(),
            vouchers@ == vs0,
            vouchers_wf(vs0),
            sum_eligible(vs0, scope, user_id@, today) <= i64::MAX,
            i <= n_vouchers,
            sum as int == sum_eligible_upto(vs0, i as int, scope, user_id@, today),
        decreases n_vouchers - i,
    {
        if eligible_exec(&vouchers[i], &scope, user_id, today) {
            proof {
                lemma_sum_eligible_nonneg(vs0, i as int, scope, user_id@, today);
                lemma_sum_eligible_mono(vs0, i + 1 as int, vs0.len() as int, scope, user_id@, today);
                assert(voucher_wf(vs0[i as int]));
            }
            sum = sum + vouchers[i].balance;
        }
        i += 1;
    }
    if sum < cost {
        return Err(Error::NotFound);
    }

    // Step 5: the consumption order — soonest expiry, then oldest grant.
    let mut ord: Vec<usize> = Vec::new();
    let mut i: usize = 0;
    while i < n_vouchers
        invariant
            n_vouchers == vouchers@.len(),
            vouchers@ == vs0,
            i <= n_vouchers,
            forall|p: int|
                0 <= p < ord@.len() ==> #[trigger] ord@[p] < i && voucher_eligible(
                    vs0[ord@[p] as int],
                    scope,
                    user_id@,
                    today,
                ),
            forall|p: int, q: int|
                0 <= p < q < ord@.len() ==> fifo_before(
                    vs0[#[trigger] ord@[p] as int],
                    ord@[p] as int,
                    vs0[#[trigger] ord@[q] as int],
                    ord@[q] as int,
                ),
            forall|j: int|
                0 <= j < i && voucher_eligible(#[trigger] vs0[j], scope, user_id@, today)
                    ==> exists|p: int| 0 <= p < ord@.len() && ord@[p] == j,
        decreases n_vouchers - i,
    {
        if eligible_exec(&vouchers[i], &scope, user_id, today) {
            let ghost ord_before = ord@;
            let p = find_insert_pos(vouchers, &ord, i);
            // Everything before the insertion point sorts before the new
            // entry: the order is total over distinct positions. Everything
            // from the insertion point on sorts after it, by transitivity
            // through the entry the scan stopped at.
            assert forall|q: int| 0 <= q < p implies fifo_before(
                vs0[ord_before[q] as int],
                ord_before[q] as int,
                vs0[i as int],
                i as int,
            ) by {
                assert(ord_before[q] as int != i as int);
            }
            assert forall|q: int| p <= q < ord_before.len() implies fifo_before(
                vs0[i as int],
                i as int,
                vs0[ord_before[q] as int],
                ord_before[q] as int,
            ) by {
                if q > p {
                    lemma_fifo_before_trans(
                        vs0[i as int],
                        i as int,
                        vs0[ord_before[p as int] as int],
                        ord_before[p as int] as int,
                        vs0[ord_before[q] as int],
                        ord_before[q] as int,
                    );
                }
            }
            ord.insert(p, i);
            assert(ord@ == ord_before.insert(p as int, i));
            assert forall|a: int, b: int| 0 <= a < b < ord@.len() implies fifo_before(
                vs0[ord@[a] as int],
                ord@[a] as int,
                vs0[ord@[b] as int],
                ord@[b] as int,
            ) by {
                let pa: int = if a < p as int { a } else { a - 1 };
                let pb: int = if b < p as int { b } else { b - 1 };
                if a == p as int {
                    assert(ord@[a] == i && ord@[b] == ord_before[pb]);
                } else if b == p as int {
                    assert(ord@[b] == i && ord@[a] == ord_before[pa]);
                } else {
                    assert(ord@[a] == ord_before[pa] && ord@[b] == ord_before[pb]);
                }
            }
            assert forall|j: int|
                0 <= j < i + 1 && voucher_eligible(#[trigger] vs0[j], scope, user_id@, today)
                    implies exists|q: int| 0 <= q < ord@.len() && ord@[q] == j by {
                if j == i as int {
                    assert(ord@[p as int] == i);
                } else {
                    let q0 = choose|q0: int| 0 <= q0 < ord_before.len() && ord_before[q0] == j;
                    if q0 < p as int {
                        assert(ord@[q0] == ord_before[q0]);
                    } else {
                        assert(ord@[q0 + 1] == ord_before[q0]);
                    }
                }
            }
        }
        i += 1;
    }
    let ghost ordi = ord@.map_values(|x: usize| x as int);
    proof {
        assert forall|j: int|
            0 <= j < vs0.len() && voucher_eligible(#[trigger] vs0[j], scope, user_id@, today)
                implies ordi.contains(j) by {
            let p = choose|p: int| 0 <= p < ord@.len() && ord@[p] == j;
            assert(ordi[p] == j);
        }
        assert(is_fifo_order(vs0, scope, user_id@, today, ordi));
        lemma_fifo_order_distinct(vs0, scope, user_id@, today, ordi);
    }

    // Step 6: walk the order, zeroing vouchers until the cost is covered,
    // leaving the remainder on the voucher that covers it.
    let n_ord = ord.len();
    let mut records: Vec<PointRewardUpdateResult> = Vec::new();
    let mut total: i128 = 0;
    let mut p: usize = 0;
    let mut stopped = false;
    while p < n_ord && !stopped
        invariant
            n_ord == ordi.len(),
            ordi == ord@.map_values(|x: usize| x as int),
            vouchers@.len() == vs0.len(),
            vouchers_wf(vs0),
            is_fifo_order(vs0, scope, user_id@, today, ordi),
            forall|a: int, b: int| 0 <= a < b < ordi.len() ==> ordi[a] != ordi[b],
            0 <= cost,
            p <= n_ord,
            0 <= total <= cost,
            forall|q: int|
                p <= q < ordi.len() ==> vouchers@[#[trigger] ordi[q]] == vs0[ordi[q]],
            !stopped ==> apply_consumption(vs0, ordi, 0, 0, cost as int, now)
                == apply_consumption(vouchers@, ordi, p as int, total as int, cost as int, now),
            !stopped ==> consumption_records(vs0, ordi, 0, 0, cost as int, now) == records@
                + consumption_records(vouchers@, ordi, p as int, total as int, cost as int, now),
            stopped ==> apply_consumption(vs0, ordi, 0, 0, cost as int, now) == vouchers@,
            stopped ==> consumption_records(vs0, ordi, 0, 0, cost as int, now) == records@,
        decreases n_ord - p,
    {
        let vi = ord[p];
        assert(vouchers@[vi as int] == vs0[ordi[p as int]]);
        let ghost vs_before = vouchers@;
        let v = vouchers[vi].clone();
        let bal = v.balance;
        assert(voucher_wf(vs0[vi as int]));
        let t2: i128 = total + bal as i128;
        let rec = PointRewardUpdateResult {
            campaign_id: v.campaign_id,
            chain_id: v.chain_id,
            signer_address: v.signer_address.clone(),
            task_id: v.task_id.clone(),
            minted: if t2 < cost as i128 {
                bal
            } else {
                assert(t2 - cost as i128 <= bal as i128);
                bal - ((t2 - cost as i128) as i64)
            },
            updated_at: now,
        };
        assert(rec == consumption_record(
            vouchers@,
            ordi[p as int],
            total as int,
            cost as int,
            now,
        ));
        if t2 < cost as i128 {
            let mut vz = v;
            vz.balance = 0;
            vz.updated_at = Some(now);
            assert(vz == consumed_voucher(vs_before[vi as int], 0, now));
            vouchers[vi] = vz;
            records.push(rec);
            proof {
                assert(vouchers@ == vs_before.update(
                    vi as int,
                    consumed_voucher(vs_before[vi as int], 0, now),
                ));
                lemma_records_frame(
                    vs_before,
                    vouchers@,
                    ordi,
                    p + 1 as int,
                    t2 as int,
                    cost as int,
                    now,
                );
            }
            total = t2;
        } else {
            let nb = (t2 - cost as i128) as i64;
            assert(0 <= nb <= bal);
            let mut vr = v;
            vr.balance = nb;
            vr.updated_at = Some(now);
            assert(vr == consumed_voucher(vs_before[vi as int], nb, now));
            vouchers[vi] = vr;
            records.push(rec);
            stopped = true;
        }
        p += 1;
    }
    proof {
        if !stopped {
            assert(p == n_ord);
            assert(apply_consumption(vouchers@, ordi, p as int, total as int, cost as int, now)
                == vouchers@);
        }
        assert(apply_consumption(vs0, ordi, 0, 0, cost as int, now) == vouchers@);
        assert(consumption_records(vs0, ordi, 0, 0, cost as int, now) == records@);
        lemma_apply_consumption_wf(vs0, ordi, 0, 0, cost as int, now);
    }

    // Step 7: take the coupon, guarded by its being still available.
    let number = coupons[ci].number;
    assert(assignable_at(cs0, reward_id, number, ci as int));
    let assigned = match assign_coupon(coupons, reward_id, number, user_id, now) {
        Ok(c) => c,
        Err(_) => {
            // The chosen coupon was read in this same transaction: it is
            // still available, so the guard cannot fail here.
            assert(false);
            return Err(Error::Unknown);
        },
    };
    let balance = sum - cost;
    Ok((assigned, records, balance))
}

/// Where a new voucher belongs in the consumption order: the first position
/// whose entry it sorts before, or the end.
fn find_insert_pos(
    vouchers: &Vec<Voucher>,
    ord: &Vec<usize>,
    vi: usize,
) -> (p: usize)
    requires
        vi < vouchers@.len(),
        forall|q: int| 0 <= q < ord@.len() ==> #[trigger] ord@[q] < vouchers@.len(),
    ensures
        p <= ord@.len(),
        forall|q: int|
            0 <= q < p ==> !fifo_before(
                vouchers@[vi as int],
                vi as int,
                vouchers@[#[trigger] ord@[q] as int],
                ord@[q] as int,
            ),
        p < ord@.len() ==> fifo_before(
            vouchers@[vi as int],
            vi as int,
            vouchers@[ord@[p as int] as int],
            ord@[p as int] as int,
        ),
{
    let n = ord.len();
    let mut p: usize = 0;
    while p < n
        invariant
            n == ord@.len(),
            vi < vouchers@.len(),
            forall|q: int| 0 <= q < n ==> #[trigger] ord@[q] < vouchers@.len(),
            p <= n,
            forall|q: int|
                0 <= q < p ==> !fifo_before(
                    vouchers@[vi as int],
                    vi as int,
                    vouchers@[#[trigger] ord@[q] as int],
                    ord@[q] as int,
                ),
        decreases n - p,
    {
        if fifo_before_exec(&vouchers[vi], vi, &vouchers[ord[p]], ord[p]) {
            return p;
        }
        p += 1;
    }
    p
}

/// The consumption order is transitive.
proof fn lemma_fifo_before_trans(
    a: Voucher,
    ai: int,
    b: Voucher,
    bi: int,
    c: Voucher,
    ci: int,
)
    requires
        fifo_before(a, ai, b, bi),
        fifo_before(b, bi, c, ci),
    ensures
        fifo_before(a, ai, c, ci),
{
}

/// The coupon the selection names is a candidate: for the reward and still
/// available.
proof fn lemma_chosen_is_candidate(cs: Seq<Coupon>, reward_id: u128, n: int)
    requires
        n <= cs.len(),
    ensures
        chosen_upto(cs, reward_id, n) matches Some(ci) ==> coupon_candidate(cs, reward_id, ci),
    decreases n,
{
    if n > 0 {
        lemma_chosen_is_candidate(cs, reward_id, n - 1);
    }
}


/// Redeem a reward from a project's catalog: the shared engine over the
/// project scope.
pub fn mint_project_reward(
    user_id: &String,
    reward_id: u128,
    project_id: u128,
    link: Option<&RewardLink>,
    coupons: &mut Vec<Coupon>,
    vouchers: &mut Vec<Voucher>,
    today: i64,
    now: i64,
) -> (r: Result<MintProjectRewardResult, Error>)
    requires
        coupons_unique(old(coupons)@),
        vouchers_wf(old(vouchers)@),
        sum_eligible(old(vouchers)@, MintScope::Project(project_id), user_id@, today) <= i64::MAX,
    ensures
        coupons_unique(final(coupons)@),
        vouchers_wf(final(vouchers)@),
        match r {
            Err(e) => {
                &&& final(coupons)@ == old(coupons)@
                &&& final(vouchers)@ == old(vouchers)@
                &&& Some(e) == mint_err(
                    MintScope::Project(project_id),
                    reward_id,
                    user_id@,
                    match link {
                        Some(l) => Some(*l),
                        None => None,
                    },
                    old(coupons)@,
                    old(vouchers)@,
                    today,
                )
            },
            Ok(out) => {
                &&& mint_err(
                    MintScope::Project(project_id),
                    reward_id,
                    user_id@,
                    match link {
                        Some(l) => Some(*l),
                        None => None,
                    },
                    old(coupons)@,
                    old(vouchers)@,
                    today,
                ) is None
                &&& link matches Some(l) && mint_success(
                    MintScope::Project(project_id),
                    reward_id,
                    *user_id,
                    l.point.unwrap() as int,
                    old(coupons)@,
                    old(vouchers)@,
                    today,
                    now,
                    final(coupons)@,
                    final(vouchers)@,
                    out.coupon,
                    out.vouchers@,
                    out.balance as int,
                )
            },
        },
{
    match mint_reward(
        MintScope::Project(project_id),
        reward_id,
        user_id,
        link,
        coupons,
        vouchers,
        today,
        now,
    ) {
        Ok((coupon, records, balance)) => Ok(
            MintProjectRewardResult { coupon, vouchers: records, balance },
        ),
        Err(e) => Err(e),
    }
}

/// Redeem a reward from a campaign's catalog: the shared engine over the
/// campaign scope.
pub fn mint_campaign_reward(
    user_id: &String,
    reward_id: u128,
    campaign_id: u128,
    link: Option<&RewardLink>,
    coupons: &mut Vec<Coupon>,
    vouchers: &mut Vec<Voucher>,
    today: i64,
    now: i64,
) -> (r: Result<MintCampaignRewardResult, Error>)
    requires
        coupons_unique(old(coupons)@),
        vouchers_wf(old(vouchers)@),
        sum_eligible(old(vouchers)@, MintScope::Campaign(campaign_id), user_id@, today)
            <= i64::MAX,
    ensures
        coupons_unique(final(coupons)@),
        vouchers_wf(final(vouchers)@),
        match r {
            Err(e) => {
                &&& final(coupons)@ == old(coupons)@
                &&& final(vouchers)@ == old(vouchers)@
                &&& Some(e) == mint_err(
                    MintScope::Campaign(campaign_id),
                    reward_id,
                    user_id@,
                    match link {
                        Some(l) => Some(*l),
                        None => None,
                    },
                    old(coupons)@,
                    old(vouchers)@,
                    today,
                )
            },
            Ok(out) => {
                &&& mint_err(
                    MintScope::Campaign(campaign_id),
                    reward_id,
                    user_id@,
                    match link {
                        Some(l) => Some(*l),
                        None => None,
                    },
                    old(coupons)@,
                    old(vouchers)@,
                    today,
                ) is None
                &&& link matches Some(l) && mint_success(
                    MintScope::Campaign(campaign_id),
                    reward_id,
                    *user_id,
                    l.point.unwrap() as int,
                    old(coupons)@,
                    old(vouchers)@,
                    today,
                    now,
                    final(coupons)@,
                    final(vouchers)@,
                    out.coupon,
                    out.vouchers@,
                    out.balance as int,
                )
            },
        },
{
    match mint_reward(
        MintScope::Campaign(campaign_id),
        reward_id,
        user_id,
        link,
        coupons,
        vouchers,
        today,
        now,
    ) {
        Ok((coupon, records, balance)) => Ok(
            MintCampaignRewardResult { coupon, vouchers: records, balance },
        ),
        Err(e) => Err(e),
    }
}

/// No coupon is choosable exactly when none is available.
proof fn lemma_chosen_counts(cs: Seq<Coupon>, reward_id: u128, n: int)
    requires
        n <= cs.len(),
    ensures
        count_available_upto(cs, reward_id, n) >= 0,
        (chosen_upto(cs, reward_id, n) is None) <==> (count_available_upto(cs, reward_id, n)
            == 0),
    decreases n,
{
    if n > 0 {
        lemma_chosen_counts(cs, reward_id, n - 1);
    }
}

/// Writing one position changes the availability count only there.
proof fn lemma_count_available_update(cs: Seq<Coupon>, reward_id: u128, ci: int, c2: Coupon, n: int)
    requires
        0 <= ci < cs.len(),
        n <= cs.len(),
        coupon_candidate(cs, reward_id, ci),
        !(c2.user_id is None && c2.minted_at is None && c2.reward_id == reward_id),
    ensures
        count_available_upto(cs.update(ci, c2), reward_id, n) == count_available_upto(
            cs,
            reward_id,
            n,
        ) - if ci < n {
            1int
        } else {
            0int
        },
    decreases n,
{
    if n > 0 {
        lemma_count_available_update(cs, reward_id, ci, c2, n - 1);
        let cs2 = cs.update(ci, c2);
        if n - 1 != ci {
            assert(cs2[n - 1] == cs[n - 1]);
        }
    }
}

/// Exactly-once assignment: when one redemption takes the reward's last
/// available coupon, none is left, and any further redemption of that
/// reward — whoever asks, whatever their balance — fails `NotFound`.
pub proof fn lemma_exactly_once(
    scope: MintScope,
    reward_id: u128,
    user_id: String,
    cost: int,
    cs0: Seq<Coupon>,
    vs0: Seq<Voucher>,
    today: i64,
    now: i64,
    cs1: Seq<Coupon>,
    vs1: Seq<Voucher>,
    coupon: Coupon,
    records: Seq<PointRewardUpdateResult>,
    balance: int,
    today2: i64,
)
    requires
        count_available(cs0, reward_id) == 1,
        mint_success(
            scope,
            reward_id,
            user_id,
            cost,
            cs0,
            vs0,
            today,
            now,
            cs1,
            vs1,
            coupon,
            records,
            balance,
        ),
    ensures
        count_available(cs1, reward_id) == 0,
        forall|scope2: MintScope, user2: Seq<char>, link2: Option<RewardLink>, vs2: Seq<Voucher>|
            mint_err(scope2, reward_id, user2, link2, cs1, vs2, today2) == Some(Error::NotFound),
{
    let ci = chosen_coupon(cs0, reward_id).unwrap();
    lemma_chosen_is_candidate(cs0, reward_id, cs0.len() as int);
    let c2 = assigned_coupon(cs0[ci], user_id, now);
    lemma_count_available_update(cs0, reward_id, ci, c2, cs0.len() as int);
    assert(cs1.len() == cs0.len());
    lemma_chosen_counts(cs1, reward_id, cs1.len() as int);
    assert(chosen_coupon(cs1, reward_id) is None);
}

/// One user's point balance in one project: the same countable balance the
/// redemption engine accepts — started, and either dated to today or later
/// or open-ended.
pub fn get_project_point(
    vouchers: &Vec<Voucher>,
    user_id: &String,
    project_id: u128,
    today: i64,
) -> (r: i64)
    requires
        vouchers_wf(vouchers@),
        sum_eligible(vouchers@, MintScope::Project(project_id), user_id@, today) <= i64::MAX,
    ensures
        r as int == sum_eligible(vouchers@, MintScope::Project(project_id), user_id@, today),
{
    let scope = MintScope::Project(project_id);
    let n = vouchers.len();
    let mut sum: i64 = 0;
    let mut i: usize = 0;
    while i < n
        invariant
            n == vouchers@.len(),
            vouchers_wf(vouchers@),
            scope == MintScope::Project(project_id),
            sum_eligible(vouchers@, scope, user_id@, today) <= i64::MAX,
            i <= n,
            sum as int == sum_eligible_upto(vouchers@, i as int, scope, user_id@, today),
        decreases n - i,
    {
        if eligible_exec(&vouchers[i], &scope, user_id, today) {
            proof {
                lemma_sum_eligible_nonneg(vouchers@, i as int, scope, user_id@, today);
                lemma_sum_eligible_mono(
                    vouchers@,
                    i + 1 as int,
                    vouchers@.len() as int,
                    scope,
                    user_id@,
                    today,
                );
                assert(voucher_wf(vouchers@[i as int]));
            }
            sum = sum + vouchers[i].balance;
        }
        i += 1;
    }
    sum
}

/// The consumption order is one: two listings that both sort exactly the
/// eligible vouchers are the same listing, so the order the receipt follows
/// is fully determined by the voucher slice.
pub proof fn lemma_fifo_order_unique(
    vs: Seq<Voucher>,
    scope: MintScope,
    user: Seq<char>,
    today: i64,
    ord1: Seq<int>,
    ord2: Seq<int>,
)
    requires
        is_fifo_order(vs, scope, user, today, ord1),
        is_fifo_order(vs, scope, user, today, ord2),
    ensures
        ord1 == ord2,
    decreases ord1.len(),
{
    lemma_fifo_order_distinct(vs, scope, user, today, ord1);
    lemma_fifo_order_distinct(vs, scope, user, today, ord2);
    if ord1.len() == 0 {
        assert(ord2.len() == 0) by {
            if ord2.len() > 0 {
                assert(voucher_eligible(vs[ord2[0]], scope, user, today));
                assert(ord1.contains(ord2[0]));
            }
        }
        assert(ord1 =~= ord2);
    } else {
        assert(ord2.len() > 0) by {
            assert(voucher_eligible(vs[ord1[0]], scope, user, today));
            assert(ord2.contains(ord1[0]));
        }
        // Both heads are the order's minimum over the same set, so they are
        // the same position.
        let a = ord1[0];
        let b = ord2[0];
        assert(a == b) by {
            if a != b {
                let qa = choose|q: int| 0 <= q < ord2.len() && ord2[q] == a;
                assert(ord2.contains(a));
                assert(ord2[qa] == a);
                let qb = choose|q: int| 0 <= q < ord1.len() && ord1[q] == b;
                assert(ord1.contains(b));
                assert(ord1[qb] == b);
                assert(qa > 0 && qb > 0);
                assert(fifo_before(vs[b], b, vs[a], a));
                assert(fifo_before(vs[a], a, vs[b], b));
            }
        }
        // The tails list exactly the eligible vouchers other than the head,
        // in the same order: recurse on a slice that excludes the head.
        let vs2 = vs.update(a, blank_voucher(vs[a], user));
        let t1 = ord1.drop_first();
        let t2 = ord2.drop_first();
        lemma_tail_is_fifo_order(vs, scope, user, today, ord1, vs2);
        lemma_tail_is_fifo_order(vs, scope, user, today, ord2, vs2);
        lemma_fifo_order_unique(vs2, scope, user, today, t1, t2);
        assert(ord1.len() == ord2.len());
        assert forall|i: int| 0 <= i < ord1.len() implies ord1[i] == ord2[i] by {
            if i > 0 {
                assert(t1[i - 1] == t2[i - 1]);
            }
        }
        assert(ord1 =~= ord2);
    }
}

/// A voucher made ineligible without moving anything else.
spec fn blank_voucher(v: Voucher, user: Seq<char>) -> Voucher {
    Voucher { valid_from: None, ..v }
}

/// Dropping an order's head and blanking its voucher leaves a consumption
/// order of the rest.
proof fn lemma_tail_is_fifo_order(
    vs: Seq<Voucher>,
    scope: MintScope,
    user: Seq<char>,
    today: i64,
    ord: Seq<int>,
    vs2: Seq<Voucher>,
)
    requires
        is_fifo_order(vs, scope, user, today, ord),
        ord.len() > 0,
        vs2 == vs.update(ord[0], blank_voucher(vs[ord[0]], user)),
    ensures
        is_fifo_order(vs2, scope, user, today, ord.drop_first()),
{
    lemma_fifo_order_distinct(vs, scope, user, today, ord);
    let a = ord[0];
    let t = ord.drop_first();
    assert forall|p: int|
        0 <= p < t.len() implies 0 <= #[trigger] t[p] < vs2.len() && voucher_eligible(
        vs2[t[p]],
        scope,
        user,
        today,
    ) by {
        assert(t[p] == ord[p + 1]);
        assert(ord[p + 1] != a);
        assert(vs2[t[p]] == vs[t[p]]);
    }
    assert forall|p: int, q: int|
        0 <= p < q < t.len() implies fifo_before(
        vs2[#[trigger] t[p]],
        t[p],
        vs2[#[trigger] t[q]],
        t[q],
    ) by {
        assert(t[p] == ord[p + 1] && t[q] == ord[q + 1]);
        assert(ord[p + 1] != a && ord[q + 1] != a);
        assert(vs2[t[p]] == vs[t[p]] && vs2[t[q]] == vs[t[q]]);
        assert(fifo_before(vs[ord[p + 1]], ord[p + 1], vs[ord[q + 1]], ord[q + 1]));
    }
    assert forall|i: int|
        0 <= i < vs2.len() && voucher_eligible(#[trigger] vs2[i], scope, user, today)
        implies t.contains(i) by {
        assert(i != a);
        assert(vs2[i] == vs[i]);
        assert(ord.contains(i));
        let q = choose|q: int| 0 <= q < ord.len() && ord[q] == i;
        assert(q != 0);
        assert(t[q - 1] == i);
    }
}

} // verus!
