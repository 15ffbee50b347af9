//! The origin allow list.
//!
//! An origin is admitted when it is exactly the apex origin over either
//! scheme, or when it uses one of the two schemes and the remainder ends in
//! `.prigoana.com` (the leading dot keeps look-alike hosts such as
//! `evilprigoana.com` out). Matching is byte-exact: a port or a path in the
//! origin makes the remainder end in something else and is rejected.

use vstd::prelude::*;
use vstd::string::StrSliceExecFns;

use crate::text::{ends_with, is_prefix_of, is_suffix_of, starts_with, str_eq};

verus! {

/// What the allow list admits, stated over the origin's characters.
pub open spec fn spec_allowed_origin(o: Seq<char>) -> bool {
    ||| o == "https://prigoana.com"@
    ||| o == "http://prigoana.com"@
    ||| (is_prefix_of("https://"@, o) && is_suffix_of(
        ".prigoana.com"@,
        o.subrange("https://"@.len() as int, o.len() as int),
    ))
    ||| (is_prefix_of("http://"@, o) && is_suffix_of(
        ".prigoana.com"@,
        o.subrange("http://"@.len() as int, o.len() as int),
    ))
}

/// Decides admission of an `Origin` header value.
pub fn is_allowed_origin(origin: &str) -> (r: bool)
    ensures
        r == spec_allowed_origin(origin@),
{
    if str_eq(origin, "https://prigoana.com") || str_eq(origin, "http://prigoana.com") {
        return true;
    }
    if starts_with(origin, "https://") {
        proof {
            reveal_strlit("https://");
        }
        let domain = origin.substring_char(8, origin.unicode_len());
        if ends_with(domain, ".prigoana.com") {
            return true;
        }
    }
    if starts_with(origin, "http://") {
        proof {
            reveal_strlit("http://");
        }
        let domain = origin.substring_char(7, origin.unicode_len());
        if ends_with(domain, ".prigoana.com") {
            return true;
        }
    }
    false
}

} // verus!
