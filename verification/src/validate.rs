//! Validation: the structural rules that are checked once a whole tree is built.

use crate::error::ClassError;
use crate::error::Failure;
use vstd::prelude::*;

verus! {

/// Whether `result` is what validation is to find: success, or the error that
/// `expected` describes.
pub open spec fn finds(result: Result<(), ClassError>, expected: Result<(), Failure>) -> bool {
    match result {
        Ok(_) => expected is Ok,
        Err(error) => expected is Err && error.conforms(expected->Err_0),
    }
}

/// A node of the class tree that can be checked against the structural rules.
pub trait Validate {
    /// What validation finds: nothing, or the first broken rule in declaration order.
    spec fn validation(&self) -> Result<(), Failure>;

    /// Checks the node and all below it; the first broken rule ends the check.
    fn validate(&self) -> (r: Result<(), ClassError>)
        ensures
            finds(r, self.validation()),
    ;
}

} // verus!
