//! File versions of executables.

use vstd::prelude::*;

verus! {

/// The `FileVersion` of an executable.  Reading version resources is not
/// implemented, so there is never one.
pub fn get_pe_version(_path: &str) -> (r: Option<String>)
    ensures
        r is None,
{
    None
}

} // verus!
