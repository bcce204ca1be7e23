//! Identity of the bridge core runtime.

use vstd::prelude::*;

verus! {

/// The product name of the bridge core.
pub const PRODUCT_NAME: &'static str = "Tractor Beam";

/// The runtime name of the bridge core.
pub fn runtime_name() -> (name: &'static str)
    ensures
        name@ == "bridge-core"@,
{
    "bridge-core"
}

} // verus!
