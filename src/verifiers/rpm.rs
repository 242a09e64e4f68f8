use vstd::prelude::*;
use vstd::string::{StrSliceExecFns, StringExecFns};

use super::utils::PackageLookup;

verus! {

/// The owning package in the output of `rpm -qf <path>`: the whole output, as printed.
/// Empty output means no package owns the path.
pub fn package_name(search_output: &str) -> (r: PackageLookup)
    ensures
        r is NotFound <==> search_output@.len() == 0,
        r matches PackageLookup::Package(p) ==> p@ == search_output@,
        !(r is Malformed),
{
    if search_output.unicode_len() == 0 {
        PackageLookup::NotFound
    } else {
        PackageLookup::Package(String::from_str(search_output))
    }
}

} // verus!
