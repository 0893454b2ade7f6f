//! The blacklist: every rule source but the whitelist.

use crate::filter::{blocked, search, views_of, whitelist, Filter, FilterEntry};
use vstd::prelude::*;

verus! {

/// The rule that blocks `name`: nothing where the whitelist covers the name,
/// else the first rule that covers it, sources and lines taken in order.
pub fn find(filters: &Vec<Filter>, name: &str) -> (r: Option<FilterEntry>)
    ensures
        match blocked(views_of(filters@), name@) {
            None => r is None,
            Some(e) => r matches Some(found) && found@ == e,
        },
{
    if whitelist::find(filters, name).is_some() {
        return None;
    }
    search(filters, name, false)
}

} // verus!
