//! The superuser surface's request bodies and its one decision.

use vstd::prelude::*;

verus! {

/// The body granting a user an admin level.
pub struct GrantParams {
    pub user_id: String,
    pub level: i64,
}

/// The body approving a campaign's reward link.
pub struct UpdateParam {
    pub approved: bool,
}

/// An administrator may grant at most their own level.
pub fn may_grant(admin: i64, level: i64) -> (r: bool)
    ensures
        r == (admin >= level),
{
    admin >= level
}

} // verus!
