//! Errors of the paste store.

use vstd::prelude::*;

verus! {

/// Why an operation on the paste store did not succeed.
#[derive(Debug, Clone, Copy, PartialEq, Eq, Structural)]
pub enum PasteError {
    /// No paste has the given identifier.
    NotFound,
    /// The supplied edit key is not the paste's edit key.
    Unauthorized,
    /// The content is longer than `MAX_PASTE_BYTES`.
    SizeExceeded,
    /// A submission carried no content.
    EmptyBody,
    /// The requested highlighting is not available.
    HighlightUnavailable,
    /// Every candidate identifier, up to the longest, was taken.
    IdSpaceExhausted,
}

impl PasteError {
    /// A short description of the error for a client.
    pub fn message(&self) -> (r: &'static str) {
        match self {
            PasteError::NotFound => "paste does not exist",
            PasteError::Unauthorized => "key is not valid",
            PasteError::SizeExceeded => "paste is too large",
            PasteError::EmptyBody => "no paste data submitted",
            PasteError::HighlightUnavailable => "requested highlight not available",
            PasteError::IdSpaceExhausted => "no free paste identifier",
        }
    }
}

} // verus!
