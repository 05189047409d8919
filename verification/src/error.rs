//! The ways in which an operation on the store can fail.

use vstd::prelude::*;

verus! {

/// Why the store refused an operation.
#[derive(Clone, Copy, Debug, PartialEq, Eq, Structural)]
pub enum StoreError {
    /// The backing medium cannot be reached.
    Unavailable,
    /// The backing medium is there, but what it holds cannot be read.
    Corrupt,
}

impl StoreError {
    /// The text that `message` returns, as a sequence of characters.
    pub open spec fn message_text(self) -> Seq<char> {
        match self {
            StoreError::Unavailable => "drawing store is unavailable"@,
            StoreError::Corrupt => "drawing store is corrupt"@,
        }
    }

    /// A sentence for the caller on the far side of a boundary that carries
    /// only strings.
    pub fn message(&self) -> (text: String)
        ensures
            text@ == self.message_text(),
    {
        match self {
            StoreError::Unavailable => "drawing store is unavailable".to_owned(),
            StoreError::Corrupt => "drawing store is corrupt".to_owned(),
        }
    }
}

} // verus!
