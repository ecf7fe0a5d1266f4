//! Campaign reward-link creation and updates, with the knob validation the
//! link rows are guarded by.

use vstd::prelude::*;

use crate::error::Error;

verus! {

/// The body linking a reward into a campaign.
pub struct CreateParam {
    pub project_id: u128,
    pub reward_id: u128,
    pub point: i64,
    pub active: bool,
    pub max_mint: Option<i64>,
    pub user_mint: Option<i64>,
}

impl CreateParam {
    /// A link is never created with a negative price or a negative cap.
    pub fn validate(&self) -> (r: Result<(), Error>)
        ensures
            r == if self.point < 0 || (self.max_mint matches Some(m) && m < 0) || (
            self.user_mint matches Some(m) && m < 0) {
                Err::<(), Error>(Error::Validation)
            } else {
                Ok::<(), Error>(())
            },
    {
        let neg_max = match self.max_mint {
            Some(m) => m < 0,
            None => false,
        };
        let neg_user = match self.user_mint {
            Some(m) => m < 0,
            None => false,
        };
        if self.point < 0 || neg_max || neg_user {
            Err(Error::Validation)
        } else {
            Ok(())
        }
    }
}

/// An update of a campaign's reward link: any subset of its knobs.
pub struct UpdateParam {
    pub approved: Option<bool>,
    pub active: Option<bool>,
    pub point: Option<i64>,
    pub max_mint: Option<i64>,
    pub user_mint: Option<i64>,
}

impl UpdateParam {
    /// Nothing to update: such a request is rejected whole.
    pub fn is_empty(&self) -> (r: bool)
        ensures
            r == (self.approved is None && self.active is None && self.point is None
                && self.max_mint is None && self.user_mint is None),
    {
        self.approved.is_none() && self.active.is_none() && self.point.is_none()
            && self.max_mint.is_none() && self.user_mint.is_none()
    }

    /// No knob may be turned negative.
    pub fn validate(&self) -> (r: Result<(), Error>)
        ensures
            r == if (self.point matches Some(p) && p < 0) || (self.max_mint matches Some(m) && m
                < 0) || (self.user_mint matches Some(m) && m < 0) {
                Err::<(), Error>(Error::Validation)
            } else {
                Ok::<(), Error>(())
            },
    {
        let neg_point = match self.point {
            Some(p) => p < 0,
            None => false,
        };
        let neg_max = match self.max_mint {
            Some(m) => m < 0,
            None => false,
        };
        let neg_user = match self.user_mint {
            Some(m) => m < 0,
            None => false,
        };
        if neg_point || neg_max || neg_user {
            Err(Error::Validation)
        } else {
            Ok(())
        }
    }
}

} // verus!
