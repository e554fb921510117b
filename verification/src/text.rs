//! Small verified helpers over strings.

use vstd::prelude::*;

verus! {

/// Equality of two string slices, usable from verified code.
pub fn str_eq(a: &str, b: &str) -> (r: bool)
    ensures
        r == (a@ == b@),
{
    let owned: String = a.to_owned();
    owned == b.to_owned()
}

} // verus!
