//! The register-machine backend's link step: the compiled object is
//! rewritten by a dedicated external linker into the target virtual
//! machine's native program representation. The linker runs outside this
//! library — it can abort on malformed objects, so no contract is claimed
//! for the call itself; its outcome is handed in as a plain value, and the
//! mapping to the pipeline's result is verified here: linker failure is
//! fatal and reported with the underlying linker diagnostic.

use vstd::prelude::*;
use crate::error::Error;
use crate::error::SpecError;

verus! {

/// Maps the external linker's outcome into the pipeline's: linked program
/// bytes pass through unchanged; a linker diagnostic is fatal and carried
/// verbatim in the error that reports it.
pub fn link_register_machine_program(outcome: Result<Vec<u8>, String>) -> (r: Result<
    Vec<u8>,
    Error,
>)
    ensures
        (outcome matches Ok(linked) ==> (r matches Ok(l) && l == linked)),
        (outcome matches Err(diagnostic) ==> (r matches Err(e) && e@ == (SpecError::LinkerFailure {
            message: diagnostic@,
        }))),
{
    match outcome {
        Ok(linked) => Ok(linked),
        Err(diagnostic) => Err(Error::LinkerFailure { message: diagnostic }),
    }
}

} // verus!
