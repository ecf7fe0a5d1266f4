//! The header map the vendor-call log stores with each recorded request.

use vstd::prelude::*;

use crate::strmap::StrMap;

verus! {

/// Header names to their values, as the log's row stores them.
pub struct Headers(pub StrMap<Vec<String>>);

impl Headers {
    pub fn new() -> (r: Headers)
        ensures
            r.0.kv_seq() == Seq::<(String, Vec<String>)>::empty(),
    {
        Headers(StrMap::new())
    }
}

} // verus!
