//! Transcript history queries.
//!
//! The history itself is an SQLite table kept by the shell; this module
//! builds the search pattern of a history query.
use vstd::prelude::*;

verus! {

/// The SQL `LIKE` pattern matching text that contains `query`.
pub fn like_pattern(query: &str) -> (p: String)
    ensures
        p@ == "%"@ + query@ + "%"@,
{
    let mut p = String::from_str("%");
    p.append(query);
    p.append("%");
    p
}

} // verus!
