//! Helpers of the command line program.

use vstd::prelude::*;

verus! {

/// The version of the program, as `major.minor.patch`.
pub fn version() -> (v: String)
    ensures
        v@ == crate::version_text(),
{
    crate::version()
}

} // verus!
