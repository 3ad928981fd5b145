//! Launching the `fzf` fuzzy finder: typed options are rendered into
//! command-line flags, and the rendering is proved against its model.

use vstd::prelude::*;

pub mod decimal;
pub mod flags;
pub mod fzf;

verus! {

/// `std::io::Error`, the cause that the operating system gives for a failed
/// step. Nothing is claimed of what it holds: it is carried, never read.
#[verifier::external_type_specification]
#[verifier::external_body]
pub struct ExIoError(std::io::Error);

/// The failure of launching a helper program.
#[derive(Debug)]
pub enum SpawnError {
    /// The process could not be started, or could not be written to.
    IOError(std::io::Error),
}

} // verus!
