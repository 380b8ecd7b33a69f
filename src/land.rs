//! The `land` version-control request: move the main bookmark to the latest described
//! change. It takes no arguments.
use vstd::prelude::*;

verus! {

/// The request carries no options.
pub struct Args;

} // verus!
