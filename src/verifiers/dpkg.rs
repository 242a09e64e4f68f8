use vstd::prelude::*;
use vstd::string::{StrSliceExecFns, StringExecFns};

use super::utils::{chars_of, PackageLookup};

verus! {

/// The owning package in the output of `dpkg -S <path>` (`<package>: <path>`): the text
/// before the first `:`. Empty output means no package owns the path; output without a
/// `:` is malformed.
pub fn package_name(search_output: &str) -> (r: PackageLookup)
    ensures
        r is NotFound <==> search_output@.len() == 0,
        r is Malformed <==> search_output@.len() > 0 && !search_output@.contains(':'),
        r matches PackageLookup::Package(p) ==> {
            let k = p@.len() as int;
            &&& k < search_output@.len()
            &&& search_output@[k] == ':'
            &&& p@ == search_output@.take(k)
            &&& !p@.contains(':')
        },
{
    let text = chars_of(search_output);
    let n = text.len();
    if n == 0 {
        return PackageLookup::NotFound;
    }
    let mut k: usize = 0;
    while k < n
        invariant
            n == text.len(),
            text@ == search_output@,
            k <= n,
            forall|j: int| 0 <= j < k ==> text@[j] != ':',
        decreases n - k,
    {
        if text[k] == ':' {
            let name = String::from_str(search_output.substring_char(0, k));
            assert(!name@.contains(':')) by {
                assert forall|j: int| 0 <= j < name@.len() implies name@[j] != ':' by {
                    assert(name@[j] == text@[j]);
                }
            }
            return PackageLookup::Package(name);
        }
        k += 1;
    }
    assert(!search_output@.contains(':')) by {
        assert forall|j: int| 0 <= j < n implies search_output@[j] != ':' by {}
    }
    PackageLookup::Malformed
}

} // verus!
