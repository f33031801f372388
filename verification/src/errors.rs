//! Error taxonomy and the pre-run checks.
//!
//! Three conditions are fatal and abort a run before any classification:
//! a malformed invocation, a missing root path, and unreadable root
//! metadata. Everything that goes wrong with a single file (bad encoding, a
//! vanished entry) is recoverable: the file is skipped and contributes
//! nothing. The checks here decide the fatal cases from plain facts that
//! the surrounding process layer observes.

use vstd::prelude::*;

verus! {

/// A fatal, pre-run condition.
#[derive(Clone, Copy, PartialEq, Eq, Structural, Debug)]
pub enum FatalError {
    /// The invocation lacks the required root path argument.
    InvalidArgs,
    /// The root path does not exist.
    NotFound,
    /// The root path's metadata could not be read.
    IoError,
}

/// One file's bytes are not valid UTF-8; the file is skipped, never fatal.
#[derive(Clone, Copy, PartialEq, Eq, Structural, Debug)]
pub struct DecodeError;

impl FatalError {
    /// The wire name of the error kind.
    pub open spec fn kind_spec(self) -> Seq<char> {
        match self {
            FatalError::InvalidArgs => "InvalidArgs"@,
            FatalError::NotFound => "NotFound"@,
            FatalError::IoError => "IoError"@,
        }
    }

    /// The wire name of the error kind, for the structured error payload.
    pub fn kind(&self) -> (r: String)
        ensures
            r@ == self.kind_spec(),
    {
        match self {
            FatalError::InvalidArgs => "InvalidArgs".to_owned(),
            FatalError::NotFound => "NotFound".to_owned(),
            FatalError::IoError => "IoError".to_owned(),
        }
    }
}

/// An invocation must name a root path: with fewer than two arguments the
/// run is refused before it starts.
pub fn check_invocation(n_args: usize) -> (r: Result<(), FatalError>)
    ensures
        r is Ok <==> n_args >= 2,
        r is Err ==> r->Err_0 == FatalError::InvalidArgs,
{
    if n_args >= 2 {
        Ok(())
    } else {
        Err(FatalError::InvalidArgs)
    }
}

/// The root must exist and its metadata must be readable; otherwise the run
/// is refused before any file is touched, so no partial report can arise.
pub fn check_root(root_exists: bool, metadata_ok: bool) -> (r: Result<(), FatalError>)
    ensures
        r is Ok <==> root_exists && metadata_ok,
        !root_exists ==> r == Err::<(), FatalError>(FatalError::NotFound),
        root_exists && !metadata_ok ==> r == Err::<(), FatalError>(FatalError::IoError),
{
    if !root_exists {
        Err(FatalError::NotFound)
    } else if !metadata_ok {
        Err(FatalError::IoError)
    } else {
        Ok(())
    }
}

} // verus!
