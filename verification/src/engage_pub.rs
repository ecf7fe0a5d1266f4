//! The user-facing engagement update.

use vstd::prelude::*;

verus! {

/// The one field a user may amend on their own engagement.
pub struct UpdateParam {
    pub country_id: Option<i16>,
}

impl UpdateParam {
    /// Nothing to update: such a request is rejected whole.
    pub fn is_empty(&self) -> (r: bool)
        ensures
            r == (self.country_id is None),
    {
        self.country_id.is_none()
    }
}

} // verus!
