//! The configuration server's git lookups: which reference holds a branch.
use vstd::prelude::*;

verus! {

/// The remote-tracking reference of `branch`: `refs/remotes/origin/<branch>`.
pub fn branch_ref_name(branch: &str) -> (r: String)
    ensures
        r@ == "refs/remotes/origin/"@ + branch@,
{
    let mut r = String::from_str("refs/remotes/origin/");
    r.append(branch);
    r
}

} // verus!
