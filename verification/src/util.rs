//! Optional strings, owned and borrowed.

use crate::text::{opt_str_view, opt_view};
use vstd::prelude::*;

verus! {

/// An optional string as an optional slice of it.
pub fn unpwn(o: &Option<String>) -> (r: Option<&str>)
    ensures
        opt_str_view(r) == opt_view(*o),
{
    match o {
        Some(s) => Some(s.as_str()),
        None => None,
    }
}

/// An optional slice as an optional string of its own.
pub fn to_pwned(o: Option<&str>) -> (r: Option<String>)
    ensures
        opt_view(r) == opt_str_view(o),
{
    match o {
        Some(s) => Some(String::from_str(s)),
        None => None,
    }
}

} // verus!
