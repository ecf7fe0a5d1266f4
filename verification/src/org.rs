//! Organization update requests.

use vstd::prelude::*;

use crate::strmap::StrMap;

verus! {

/// The body an organization edit arrives with.
pub struct UpdateForm {
    pub name: Option<String>,
    pub logo: Option<String>,
    pub admins: Option<StrMap<i64>>,
}

/// The organization row update derived from it.
pub struct UpdateParam {
    pub name: Option<String>,
    pub logo: Option<String>,
    pub admins: Option<StrMap<i64>>,
}

impl UpdateParam {
    /// Nothing to update: such a request is rejected whole.
    pub fn is_empty(&self) -> (r: bool)
        ensures
            r == (self.name is None && self.logo is None && self.admins is None),
    {
        self.name.is_none() && self.logo.is_none() && self.admins.is_none()
    }
}

} // verus!
