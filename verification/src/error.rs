//! The error that a canary ends with.
use vstd::prelude::*;

verus! {

/// A canary failure: the message that the program reports before it exits
/// unsuccessfully.
#[derive(Debug, PartialEq, Eq)]
pub struct CanaryError {
    pub message: String,
}

} // verus!
