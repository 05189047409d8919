//! The condition of the backing medium, and what it means for an operation.

use vstd::prelude::*;
use crate::error::StoreError;

verus! {

/// The condition of the backing medium, as its owner last found it.
#[derive(Clone, Copy, Debug, PartialEq, Eq, Structural)]
pub enum Medium {
    /// The medium can be read and written.
    Ready,
    /// The medium cannot be reached.
    Unreachable,
    /// The medium can be reached, but its contents cannot be parsed.
    Malformed,
}

impl Medium {
    /// What an operation that needs the medium returns before it has done
    /// anything: success on a ready medium, else the error of the fault.
    pub open spec fn outcome(self) -> Result<(), StoreError> {
        match self {
            Medium::Ready => Ok(()),
            Medium::Unreachable => Err(StoreError::Unavailable),
            Medium::Malformed => Err(StoreError::Corrupt),
        }
    }

    /// Success on a ready medium, else the error of the fault.
    pub fn check(&self) -> (result: Result<(), StoreError>)
        ensures
            result == self.outcome(),
    {
        match self {
            Medium::Ready => Ok(()),
            Medium::Unreachable => Err(StoreError::Unavailable),
            Medium::Malformed => Err(StoreError::Corrupt),
        }
    }
}

} // verus!
