//! Change capture: classifying engagement row diffs into typed events.
//!
//! The storage engine appends a before/after snapshot of every engagement
//! mutation. Classification reads the diff in strict priority order — coupon
//! url, coupon serial, newly accepted tasks, newly submitted proofs — and
//! the same function answers both the live stream and the historical
//! listing, so the two views never disagree.

use vstd::prelude::*;

use crate::model::{Accepted, Submission, Submissions};
use crate::strmap::spec_lookup;

verus! {

/// Why a diff produced no event.
#[derive(Clone, Copy, Debug, PartialEq, Eq, Structural)]
pub enum EngageEventError {
    /// No tracked field of the engagement row changed.
    Unknown,
}

/// What a classified engagement mutation means.
#[derive(Clone, Copy, Debug, PartialEq, Eq, Structural)]
pub enum EngageKind {
    SubmittedProof,
    SubmissionApproved,
    Issued,
    Claimed,
}

impl EngageKind {
    /// The kind's number on the wire.
    pub fn code(&self) -> (c: u8)
        ensures
            c == match *self {
                EngageKind::SubmittedProof => 1u8,
                EngageKind::SubmissionApproved => 2u8,
                EngageKind::Issued => 3u8,
                EngageKind::Claimed => 4u8,
            },
    {
        match self {
            EngageKind::SubmittedProof => 1,
            EngageKind::SubmissionApproved => 2,
            EngageKind::Issued => 3,
            EngageKind::Claimed => 4,
        }
    }
}

/// One stored row diff: the engagement's tracked fields before and after a
/// mutation.
#[derive(Debug)]
pub struct EngageEventLog {
    pub id: i64,
    pub org_id: u128,
    pub project_id: u128,
    pub campaign_id: u128,
    pub chain_id: i64,
    pub signer_address: String,
    pub user_id: String,
    pub old_submissions: Option<Submissions>,
    pub old_accepted: Option<Accepted>,
    pub old_coupon_serial: Option<String>,
    pub old_coupon_url: Option<String>,
    pub new_submissions: Option<Submissions>,
    pub new_accepted: Option<Accepted>,
    pub new_coupon_serial: Option<String>,
    pub new_coupon_url: Option<String>,
    pub created_at: i64,
}

/// A classified engagement event, as the stream and the listing carry it.
#[derive(Debug)]
pub struct EngageEvent {
    pub id: i64,
    pub project_id: u128,
    pub campaign_id: u128,
    pub chain_id: i64,
    pub signer_address: String,
    pub kind: EngageKind,
    pub task_ids: Option<Vec<String>>,
}

/// An optional text field, read by content.
pub open spec fn opt_str_view(o: Option<String>) -> Option<Seq<char>> {
    match o {
        Some(s) => Some(s@),
        None => None,
    }
}

/// The coupon url differs between the two snapshots.
pub open spec fn url_changed(p: EngageEventLog) -> bool {
    opt_str_view(p.old_coupon_url) != opt_str_view(p.new_coupon_url)
}

/// The coupon serial differs between the two snapshots.
pub open spec fn serial_changed(p: EngageEventLog) -> bool {
    opt_str_view(p.old_coupon_serial) != opt_str_view(p.new_coupon_serial)
}

/// An absent map reads as an empty one.
pub open spec fn acc_entries(o: Option<Accepted>) -> Seq<(String, bool)> {
    match o {
        Some(m) => m.kv_seq(),
        None => Seq::empty(),
    }
}

pub open spec fn sub_entries(o: Option<Submissions>) -> Seq<(String, Submission)> {
    match o {
        Some(m) => m.kv_seq(),
        None => Seq::empty(),
    }
}

/// The task ids the new accepted map gained: entries now true that the old
/// map held as absent or false, in the new map's order.
pub open spec fn gained_accepted(
    new: Seq<(String, bool)>,
    old: Seq<(String, bool)>,
) -> Seq<String>
    decreases new.len(),
{
    if new.len() == 0 {
        Seq::empty()
    } else {
        let prev = gained_accepted(new.drop_last(), old);
        if new.last().1 && spec_lookup(old, new.last().0@) != Some(true) {
            prev.push(new.last().0)
        } else {
            prev
        }
    }
}

/// The task ids the new submissions map gained: keys the old map lacks, in
/// the new map's order.
pub open spec fn gained_submissions(
    new: Seq<(String, Submission)>,
    old: Seq<(String, Submission)>,
) -> Seq<String>
    decreases new.len(),
{
    if new.len() == 0 {
        Seq::empty()
    } else {
        let prev = gained_submissions(new.drop_last(), old);
        if spec_lookup(old, new.last().0@) is None {
            prev.push(new.last().0)
        } else {
            prev
        }
    }
}

pub open spec fn accepted_gain_seq(p: EngageEventLog) -> Seq<String> {
    gained_accepted(acc_entries(p.new_accepted), acc_entries(p.old_accepted))
}

pub open spec fn submitted_gain_seq(p: EngageEventLog) -> Seq<String> {
    gained_submissions(sub_entries(p.new_submissions), sub_entries(p.old_submissions))
}

/// The kind a diff classifies to, in strict priority order: a changed coupon
/// url always wins, then a changed serial, then newly accepted tasks, then
/// newly submitted proofs; otherwise the diff carries no event.
pub open spec fn classified_kind(p: EngageEventLog) -> Option<EngageKind> {
    if url_changed(p) {
        Some(EngageKind::Claimed)
    } else if serial_changed(p) {
        Some(EngageKind::Issued)
    } else if accepted_gain_seq(p).len() > 0 {
        Some(EngageKind::SubmissionApproved)
    } else if submitted_gain_seq(p).len() > 0 {
        Some(EngageKind::SubmittedProof)
    } else {
        None
    }
}

/// `ev` is the event the diff `p` classifies to.
pub open spec fn event_of(p: EngageEventLog, ev: EngageEvent) -> bool {
    &&& ev.id == p.id
    &&& ev.project_id == p.project_id
    &&& ev.campaign_id == p.campaign_id
    &&& ev.chain_id == p.chain_id
    &&& ev.signer_address == p.signer_address
    &&& Some(ev.kind) == classified_kind(p)
    &&& match ev.kind {
        EngageKind::Claimed | EngageKind::Issued => ev.task_ids is None,
        EngageKind::SubmissionApproved => ev.task_ids matches Some(ts) && ts@
            == accepted_gain_seq(p),
        EngageKind::SubmittedProof => ev.task_ids matches Some(ts) && ts@ == submitted_gain_seq(
            p,
        ),
    }
}

/// A changed coupon url is always classified as a claim, whatever else the
/// diff carries: the priority order never lets it read as an approval.
pub proof fn lemma_claimed_priority(p: EngageEventLog)
    requires
        url_changed(p),
    ensures
        classified_kind(p) == Some(EngageKind::Claimed),
{
}

/// Optional text fields differ, executably.
fn opt_string_ne(a: &Option<String>, b: &Option<String>) -> (r: bool)
    ensures
        r == (opt_str_view(match a {
            Some(s) => Some(*s),
            None => None,
        }) != opt_str_view(match b {
            Some(s) => Some(*s),
            None => None,
        })),
{
    match (a, b) {
        (None, None) => false,
        (Some(x), Some(y)) => !(*x == *y),
        _ => true,
    }
}

/// The task ids the new accepted map gained over the old one, if any.
pub fn get_accepted_task_ids(p: &EngageEventLog) -> (r: Option<Vec<String>>)
    ensures
        match r {
            Some(ids) => ids@ == accepted_gain_seq(*p) && ids@.len() > 0,
            None => accepted_gain_seq(*p).len() == 0,
        },
{
    let mut ids: Vec<String> = Vec::new();
    match &p.new_accepted {
        None => {
            assert(accepted_gain_seq(*p).len() == 0);
        },
        Some(newm) => {
            let ghost old_seq = acc_entries(p.old_accepted);
            let n = newm.len();
            let mut i: usize = 0;
            while i < n
                invariant
                    n == newm.kv_seq().len(),
                    i <= n,
                    old_seq == acc_entries(p.old_accepted),
                    p.new_accepted matches Some(m) && m == *newm,
                    ids@ == gained_accepted(newm.kv_seq().take(i as int), old_seq),
                decreases n - i,
            {
                let entry = newm.entry_at(i);
                let gained = entry.1 && (match &p.old_accepted {
                    Some(oldm) => match oldm.get(entry.0.as_str()) {
                        Some(b) => !*b,
                        None => true,
                    },
                    None => true,
                });
                if gained {
                    ids.push(entry.0.clone());
                }
                proof {
                    assert(newm.kv_seq().take(i + 1 as int).drop_last() =~= newm.kv_seq().take(
                        i as int,
                    ));
                    assert(newm.kv_seq().take(i + 1 as int).last() == newm.kv_seq()[i as int]);
                }
                i += 1;
            }
            assert(newm.kv_seq().take(n as int) =~= newm.kv_seq());
        },
    }
    if ids.len() == 0 {
        None
    } else {
        Some(ids)
    }
}

/// The task ids the new submissions map gained over the old one, if any.
pub fn get_submission_task_ids(p: &EngageEventLog) -> (r: Option<Vec<String>>)
    ensures
        match r {
            Some(ids) => ids@ == submitted_gain_seq(*p) && ids@.len() > 0,
            None => submitted_gain_seq(*p).len() == 0,
        },
{
    let mut ids: Vec<String> = Vec::new();
    match &p.new_submissions {
        None => {
            assert(submitted_gain_seq(*p).len() == 0);
        },
        Some(newm) => {
            let ghost old_seq = sub_entries(p.old_submissions);
            let n = newm.len();
            let mut i: usize = 0;
            while i < n
                invariant
                    n == newm.kv_seq().len(),
                    i <= n,
                    old_seq == sub_entries(p.old_submissions),
                    p.new_submissions matches Some(m) && m == *newm,
                    ids@ == gained_submissions(newm.kv_seq().take(i as int), old_seq),
                decreases n - i,
            {
                let entry = newm.entry_at(i);
                let gained = match &p.old_submissions {
                    Some(oldm) => oldm.get(entry.0.as_str()).is_none(),
                    None => true,
                };
                if gained {
                    ids.push(entry.0.clone());
                }
                proof {
                    assert(newm.kv_seq().take(i + 1 as int).drop_last() =~= newm.kv_seq().take(
                        i as int,
                    ));
                    assert(newm.kv_seq().take(i + 1 as int).last() == newm.kv_seq()[i as int]);
                }
                i += 1;
            }
            assert(newm.kv_seq().take(n as int) =~= newm.kv_seq());
        },
    }
    if ids.len() == 0 {
        None
    } else {
        Some(ids)
    }
}

impl EngageEvent {
    fn make(p: EngageEventLog, kind: EngageKind, task_ids: Option<Vec<String>>) -> (r: Self)
        ensures
            r == (EngageEvent {
                id: p.id,
                project_id: p.project_id,
                campaign_id: p.campaign_id,
                chain_id: p.chain_id,
                signer_address: p.signer_address,
                kind,
                task_ids,
            }),
    {
        Self {
            id: p.id,
            project_id: p.project_id,
            campaign_id: p.campaign_id,
            chain_id: p.chain_id,
            signer_address: p.signer_address,
            kind,
            task_ids,
        }
    }

    /// Classify one stored diff, in strict priority order; a diff in which
    /// no tracked field changed carries no event.
    pub fn try_from(p: EngageEventLog) -> (r: Result<Self, EngageEventError>)
        ensures
            match r {
                Ok(ev) => event_of(p, ev),
                Err(e) => e == EngageEventError::Unknown && classified_kind(p) is None,
            },
    {
        if opt_string_ne(&p.old_coupon_url, &p.new_coupon_url) {
            Ok(Self::make(p, EngageKind::Claimed, None))
        } else if opt_string_ne(&p.old_coupon_serial, &p.new_coupon_serial) {
            Ok(Self::make(p, EngageKind::Issued, None))
        } else if let Some(task_ids) = get_accepted_task_ids(&p) {
            Ok(Self::make(p, EngageKind::SubmissionApproved, Some(task_ids)))
        } else if let Some(task_ids) = get_submission_task_ids(&p) {
            Ok(Self::make(p, EngageKind::SubmittedProof, Some(task_ids)))
        } else {
            Err(EngageEventError::Unknown)
        }
    }
}

/// The diffs that classify to an event, in stored order.
pub open spec fn kept_logs(logs: Seq<EngageEventLog>) -> Seq<EngageEventLog>
    decreases logs.len(),
{
    if logs.len() == 0 {
        Seq::empty()
    } else {
        let prev = kept_logs(logs.drop_last());
        if classified_kind(logs.last()) is Some {
            prev.push(logs.last())
        } else {
            prev
        }
    }
}

/// The historical listing: classify every stored diff and keep the events,
/// dropping the diffs that carry none — the same classification the live
/// stream uses.
pub fn list_events(logs: Vec<EngageEventLog>) -> (r: Vec<EngageEvent>)
    ensures
        r@.len() == kept_logs(logs@).len(),
        forall|j: int| 0 <= j < r@.len() ==> event_of(kept_logs(logs@)[j], #[trigger] r@[j]),
{
    let ghost logs0 = logs@;
    let mut rest = logs;
    let mut events: Vec<EngageEvent> = Vec::new();
    let ghost mut i: int = 0;
    while rest.len() > 0
        invariant
            0 <= i <= logs0.len(),
            rest@ == logs0.subrange(i, logs0.len() as int),
            events@.len() == kept_logs(logs0.take(i)).len(),
            forall|j: int|
                0 <= j < events@.len() ==> event_of(
                    kept_logs(logs0.take(i))[j],
                    #[trigger] events@[j],
                ),
        decreases rest@.len(),
    {
        let ghost before = rest@;
        let p = rest.remove(0);
        proof {
            assert(rest@ =~= logs0.subrange(i + 1, logs0.len() as int));
            assert(p == logs0[i]);
        }
        match EngageEvent::try_from(p) {
            Ok(ev) => {
                events.push(ev);
            },
            Err(_) => {},
        }
        proof {
            assert(logs0.take(i + 1).drop_last() =~= logs0.take(i));
            assert(logs0.take(i + 1).last() == logs0[i]);
            i = i + 1;
        }
    }
    proof {
        assert(logs0.take(logs0.len() as int) =~= logs0);
    }
    events
}

} // verus!
