//! The `push` version-control request: push bookmarks to the remote. It takes no
//! arguments.
use vstd::prelude::*;

verus! {

/// The request carries no options.
pub struct Args;

} // verus!
