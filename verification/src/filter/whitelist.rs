//! The whitelist: the rule source named `whitelist.list`.

use crate::filter::{lookup, search, views_of, Filter, FilterEntry};
use vstd::prelude::*;

verus! {

/// The first rule of the whitelist that covers `name`.
pub fn find(filters: &Vec<Filter>, name: &str) -> (r: Option<FilterEntry>)
    ensures
        match lookup(views_of(filters@), name@, true) {
            None => r is None,
            Some(e) => r matches Some(found) && found@ == e,
        },
{
    search(filters, name, true)
}

} // verus!
