//! Engagement requests: the bodies the engagement surface accepts, and the
//! checks that guard the coupon-issuance steps.

use vstd::prelude::*;

use crate::error::Error;
use crate::model::{Accepted, Submission, Submissions};
use crate::strmap::{spec_lookup, spec_merge};

verus! {

/// The approval body: accept/reject decisions per task.
pub struct UpdateForm {
    pub accepted: Accepted,
}

/// The body creating an engagement: its first proof submissions.
pub struct CreateEngageForm {
    pub submissions: Submissions,
}

/// The body amending an engagement: the user's country.
pub struct UpdateEngageForm {
    pub country_id: u16,
}

/// The coupon a user retrieves for a completed engagement.
pub struct RetrieveCouponResponse {
    pub coupon_url: String,
}

/// An engagement update: any subset of the coupon fields and the country.
pub struct UpdateParam {
    pub coupon_issue_id: Option<String>,
    pub coupon_serial: Option<String>,
    pub coupon_url: Option<String>,
    pub country_id: Option<i16>,
}

impl UpdateParam {
    /// Nothing to update: such a request is rejected whole.
    pub fn is_empty(&self) -> (r: bool)
        ensures
            r == (self.coupon_issue_id is None && self.coupon_serial is None
                && self.coupon_url is None && self.country_id is None),
    {
        self.coupon_issue_id.is_none() && self.coupon_serial.is_none()
            && self.coupon_url.is_none() && self.country_id.is_none()
    }
}

/// An update of the coupon fields alone.
pub struct UpdateCouponSet {
    pub coupon_url: Option<String>,
    pub coupon_serial: Option<String>,
    pub coupon_issue_id: Option<String>,
}

impl UpdateCouponSet {
    /// Nothing to update: such a request is rejected whole.
    pub fn is_empty(&self) -> (r: bool)
        ensures
            r == (self.coupon_url is None && self.coupon_serial is None
                && self.coupon_issue_id is None),
    {
        self.coupon_url.is_none() && self.coupon_serial.is_none()
            && self.coupon_issue_id.is_none()
    }
}

/// Why a coupon-issue request is turned away.
#[derive(Clone, Copy, Debug, PartialEq, Eq, Structural)]
pub enum IssueRefusal {
    /// The engagement already records a coupon in some stage.
    AlreadyIssued,
    /// No country is recorded, so no vendor customer can be created.
    CountryNotSet,
    /// The campaign names no vendor coupon code to issue.
    CouponCodeMissing,
}

/// Whether an engagement may have a vendor coupon issued, checked in the
/// flow's order: nothing may be issued twice, the user's country must be
/// recorded, and the campaign must name a coupon code. On success the
/// country id is handed back for the vendor lookup.
pub fn issue_coupon_gate(
    coupon_issue_id: &Option<String>,
    coupon_serial: &Option<String>,
    coupon_url: &Option<String>,
    country_id: Option<i16>,
    coupon_code: &Option<String>,
) -> (r: Result<i16, IssueRefusal>)
    ensures
        r == if coupon_issue_id is Some || coupon_serial is Some || coupon_url is Some {
            Err::<i16, IssueRefusal>(IssueRefusal::AlreadyIssued)
        } else if country_id is None {
            Err::<i16, IssueRefusal>(IssueRefusal::CountryNotSet)
        } else if coupon_code is None {
            Err::<i16, IssueRefusal>(IssueRefusal::CouponCodeMissing)
        } else {
            Ok::<i16, IssueRefusal>(country_id.unwrap())
        },
{
    if coupon_issue_id.is_some() || coupon_serial.is_some() || coupon_url.is_some() {
        Err(IssueRefusal::AlreadyIssued)
    } else {
        match country_id {
            None => Err(IssueRefusal::CountryNotSet),
            Some(c) => {
                if coupon_code.is_none() {
                    Err(IssueRefusal::CouponCodeMissing)
                } else {
                    Ok(c)
                }
            },
        }
    }
}

/// Why a coupon-commit request is turned away.
#[derive(Clone, Copy, Debug, PartialEq, Eq, Structural)]
pub enum CommitRefusal {
    /// A serial or a url is already recorded: the coupon is committed.
    AlreadyCommitted,
    /// No issue transaction is in flight to commit.
    NotYetIssued,
}

/// Whether an engagement's issued coupon may be committed: nothing may be
/// committed twice, and an issue transaction must be in flight. On success
/// the transaction id to commit is handed back.
pub fn commit_coupon_gate<'a>(
    coupon_issue_id: &'a Option<String>,
    coupon_serial: &Option<String>,
    coupon_url: &Option<String>,
) -> (r: Result<&'a String, CommitRefusal>)
    ensures
        match r {
            Ok(tx) => coupon_serial is None && coupon_url is None
                && coupon_issue_id == Some(*tx),
            Err(e) => if coupon_serial is Some || coupon_url is Some {
                e == CommitRefusal::AlreadyCommitted
            } else {
                e == CommitRefusal::NotYetIssued && coupon_issue_id is None
            },
        },
{
    if coupon_serial.is_some() || coupon_url.is_some() {
        Err(CommitRefusal::AlreadyCommitted)
    } else {
        match coupon_issue_id {
            Some(tx) => Ok(tx),
            None => Err(CommitRefusal::NotYetIssued),
        }
    }
}

/// Some submitted proof carries no message, no link and no image.
pub open spec fn any_blank(s: Seq<(String, Submission)>) -> bool {
    exists|i: int| 0 <= i < s.len() && (#[trigger] s[i]).1.spec_is_blank()
}

/// A proof submission is refused whole when any of its entries is blank.
pub fn has_blank_submission(subs: &Submissions) -> (r: bool)
    ensures
        r == any_blank(subs.kv_seq()),
{
    let n = subs.len();
    let mut i: usize = 0;
    while i < n
        invariant
            n == subs.kv_seq().len(),
            i <= n,
            forall|j: int| 0 <= j < i ==> !(#[trigger] subs.kv_seq()[j]).1.spec_is_blank(),
        decreases n - i,
    {
        let entry = subs.entry_at(i);
        if entry.1.is_blank() {
            assert(subs.kv_seq()[i as int].1.spec_is_blank());
            return true;
        }
        i += 1;
    }
    false
}

/// Some incoming proof targets a task the engagement already accepted.
pub open spec fn any_already_accepted(
    inc: Seq<(String, Submission)>,
    acc: Seq<(String, bool)>,
) -> bool {
    exists|i: int|
        0 <= i < inc.len() && spec_lookup(acc, (#[trigger] inc[i]).0@) == Some(true)
}

/// Record proof submissions on an engagement: the incoming entries overwrite
/// or extend the stored ones, but only while none of the targeted tasks is
/// already accepted — an accepted task's proof is settled. An empty
/// submission set is rejected; a submission against an accepted task finds
/// no row to update.
pub fn submit_proof(
    submissions: Submissions,
    accepted: &Accepted,
    incoming: Submissions,
) -> (r: Result<Submissions, Error>)
    ensures
        (r == Err::<Submissions, Error>(Error::EmptyUpdateSet)) <==> incoming.kv_seq().len()
            == 0,
        incoming.kv_seq().len() > 0 ==> ((r == Err::<Submissions, Error>(Error::NotFound)) <==>
        any_already_accepted(incoming.kv_seq(), accepted.kv_seq())),
        (incoming.kv_seq().len() > 0 && !any_already_accepted(
            incoming.kv_seq(),
            accepted.kv_seq(),
        )) ==> (r matches Ok(m) && m.kv_seq() == spec_merge(
            submissions.kv_seq(),
            incoming.kv_seq(),
        )),
{
    if incoming.is_empty() {
        return Err(Error::EmptyUpdateSet);
    }
    let n = incoming.len();
    let mut i: usize = 0;
    while i < n
        invariant
            n == incoming.kv_seq().len(),
            n > 0,
            i <= n,
            forall|j: int|
                0 <= j < i ==> spec_lookup(accepted.kv_seq(), (#[trigger] incoming.kv_seq()[j]).0@)
                    != Some(true),
        decreases n - i,
    {
        let entry = incoming.entry_at(i);
        let already = match accepted.get(entry.0.as_str()) {
            Some(b) => *b,
            None => false,
        };
        if already {
            assert(spec_lookup(accepted.kv_seq(), incoming.kv_seq()[i as int].0@) == Some(true));
            return Err(Error::NotFound);
        }
        i += 1;
    }
    let mut merged = submissions;
    merged.merge(incoming);
    Ok(merged)
}

} // verus!
