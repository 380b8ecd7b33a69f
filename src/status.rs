//! The `status` version-control request: extra arguments handed on to the tool.
use vstd::prelude::*;

verus! {

/// Arguments passed through unchanged.
pub struct Args {
    pub args: Vec<String>,
}

} // verus!
