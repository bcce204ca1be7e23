//! Identity of the bridge client front-end.

use vstd::prelude::*;

verus! {

/// The product name shown by the bridge client front-end.
pub const PRODUCT_NAME: &'static str = "Basement Bridge";

/// The runtime name of the bridge client front-end.
pub fn runtime_name() -> (name: &'static str)
    ensures
        name@ == "bridge-client"@,
{
    "bridge-client"
}

} // verus!
