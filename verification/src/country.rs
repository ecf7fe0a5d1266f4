//! The shape a country is listed in.

use vstd::prelude::*;

verus! {

/// One country: its numeric id, name and two-letter code.
pub struct Country<'a> {
    pub id: u16,
    pub name: &'a str,
    pub alpha2: &'a str,
}

} // verus!
