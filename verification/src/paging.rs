//! Listing parameters: paging defaults and ordering validation.

use vstd::prelude::*;

use crate::error::Error;

verus! {

/// Listings start at the first row unless told otherwise.
pub fn default_offset() -> (r: u64)
    ensures
        r == 0,
{
    0u64
}

/// Listings return at most this many rows unless told otherwise.
pub fn default_limit() -> (r: u64)
    ensures
        r == 10000,
{
    10000u64
}

/// A filter with nothing to filter by.
pub struct Never {}

impl Never {
    pub fn is_empty(&self) -> (r: bool)
        ensures
            r,
    {
        true
    }
}

/// The column and direction an ordering parameter asks for: a leading `-`
/// means descending.
pub open spec fn order_key(order: Seq<char>) -> Seq<char> {
    if order.len() > 0 && order[0] == '-' {
        order.subrange(1, order.len() as int)
    } else {
        order
    }
}

pub open spec fn order_descending(order: Seq<char>) -> bool {
    order.len() > 0 && order[0] == '-'
}

/// Position of the first allowed column the key names, if any.
pub open spec fn first_col_match(cols: Seq<Seq<char>>, key: Seq<char>) -> Option<int>
    decreases cols.len(),
{
    if cols.len() == 0 {
        None
    } else if cols[0] == key {
        Some(0)
    } else {
        match first_col_match(cols.drop_first(), key) {
            Some(i) => Some(i + 1),
            None => None,
        }
    }
}

pub open spec fn col_views(cols: Seq<&str>) -> Seq<Seq<char>> {
    cols.map_values(|c: &str| c@)
}

/// The ordering fragment an allowed parameter produces.
pub open spec fn order_fragment(key: Seq<char>, descending: bool) -> Seq<char> {
    if descending {
        key + " desc"@
    } else {
        key + " asc"@
    }
}

/// Validate an ordering parameter against the allowed columns and render
/// it: the named column plus the direction, or a refusal.
pub fn get_order_by_sql(order: &str, cols: Vec<&str>) -> (r: Result<String, Error>)
    ensures
        match first_col_match(col_views(cols@), order_key(order@)) {
            Some(_) => r matches Ok(s) && s@ == order_fragment(
                order_key(order@),
                order_descending(order@),
            ),
            None => r == Err::<String, Error>(Error::InvalidOrder),
        },
{
    let len = order.unicode_len();
    let descending = len > 0 && order.get_char(0) == '-';
    let key: String = if descending {
        order.substring_char(1, len).to_owned()
    } else {
        order.to_owned()
    };
    assert(key@ == order_key(order@));
    let n = cols.len();
    let mut i: usize = 0;
    while i < n
        invariant
            n == cols@.len(),
            key@ == order_key(order@),
            descending == order_descending(order@),
            i <= n,
            forall|j: int| 0 <= j < i ==> col_views(cols@)[j] != key@,
        decreases n - i,
    {
        let c: &str = cols[i];
        if c.to_owned() == key {
            proof {
                lemma_first_col_match_found(col_views(cols@), key@, i as int);
            }
            let mut s = key;
            if descending {
                s.append(" desc");
            } else {
                s.append(" asc");
            }
            return Ok(s);
        }
        i += 1;
    }
    proof {
        lemma_first_col_match_none(col_views(cols@), key@);
    }
    Err(Error::InvalidOrder)
}

proof fn lemma_first_col_match_found(cols: Seq<Seq<char>>, key: Seq<char>, i: int)
    requires
        0 <= i < cols.len(),
        cols[i] == key,
        forall|j: int| 0 <= j < i ==> cols[j] != key,
    ensures
        first_col_match(cols, key) is Some,
    decreases i,
{
    if i > 0 {
        lemma_first_col_match_found(cols.drop_first(), key, i - 1);
    }
}

proof fn lemma_first_col_match_none(cols: Seq<Seq<char>>, key: Seq<char>)
    requires
        forall|j: int| 0 <= j < cols.len() ==> cols[j] != key,
    ensures
        first_col_match(cols, key) is None,
    decreases cols.len(),
{
    if cols.len() > 0 {
        lemma_first_col_match_none(cols.drop_first(), key);
    }
}

} // verus!
