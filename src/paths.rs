use vstd::prelude::*;

use vstd::string::StringExecFns;

verus! {

/// The directory of the small test fixtures, given the directory of the
/// benchmark package.
pub fn fixtures_dir(manifest_dir: &str) -> (r: String)
    ensures
        r@ == manifest_dir@ + "/../../fixtures"@,
{
    let mut dir = <String as StringExecFns>::from_str(manifest_dir);
    dir.append("/../../fixtures");
    dir
}

/// The directory of the large downloaded fixtures, given the directory of the
/// benchmark package.
pub fn big_fixtures_dir(manifest_dir: &str) -> (r: String)
    ensures
        r@ == manifest_dir@ + "/../../big-benchmark-fixtures"@,
{
    let mut dir = <String as StringExecFns>::from_str(manifest_dir);
    dir.append("/../../big-benchmark-fixtures");
    dir
}

} // verus!
