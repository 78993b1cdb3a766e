//! The size limit on content and the authorization gate in front of
//! replacement and removal.

use crate::error::PasteError;
use crate::key::{derive_key, edit_key, keys_match, Secret};
use vstd::prelude::*;
use vstd::utf8::encode_utf8;

verus! {

/// Largest paste, in bytes of UTF-8.
pub const MAX_PASTE_BYTES: usize = 2 * 1024 * 1024;

/// Length of `s` in bytes of UTF-8.
pub open spec fn byte_len(s: Seq<char>) -> nat {
    encode_utf8(s).len()
}

/// Outcome of the size limit on content `c`.
pub open spec fn size_check(c: Seq<char>) -> Result<(), PasteError> {
    if byte_len(c) > MAX_PASTE_BYTES {
        Err(PasteError::SizeExceeded)
    } else {
        Ok(())
    }
}

/// Outcome of the checks on new content `c`: it must not be empty, then not
/// too large.
pub open spec fn submission_check(c: Seq<char>) -> Result<(), PasteError> {
    if c.len() == 0 {
        Err(PasteError::EmptyBody)
    } else {
        size_check(c)
    }
}

/// Outcome of the authorization gate: the paste must exist, then the
/// supplied key must be its edit key.
pub open spec fn authorization(
    present: bool,
    secret: Seq<u8>,
    id: Seq<char>,
    supplied: Seq<char>,
) -> Result<(), PasteError> {
    if !present {
        Err(PasteError::NotFound)
    } else if supplied != edit_key(secret, id) {
        Err(PasteError::Unauthorized)
    } else {
        Ok(())
    }
}

/// Applies the size limit to `content`.
pub fn check_size(content: &str) -> (r: Result<(), PasteError>)
    ensures
        r == size_check(content@),
{
    if content.as_bytes().len() > MAX_PASTE_BYTES {
        Err(PasteError::SizeExceeded)
    } else {
        Ok(())
    }
}

/// Applies the checks on new content.
pub fn check_submission(content: &str) -> (r: Result<(), PasteError>)
    ensures
        r == submission_check(content@),
{
    if content.is_empty() {
        Err(PasteError::EmptyBody)
    } else {
        check_size(content)
    }
}

/// Decides whether `supplied` grants edit rights on paste `id`, given
/// whether that paste exists.
pub fn authorize(present: bool, secret: &Secret, id: &str, supplied: &str) -> (r: Result<
    (),
    PasteError,
>)
    ensures
        r == authorization(present, secret@, id@, supplied@),
{
    if !present {
        return Err(PasteError::NotFound);
    }
    let expected = derive_key(secret, id);
    if keys_match(expected.as_str(), supplied) {
        Ok(())
    } else {
        Err(PasteError::Unauthorized)
    }
}

} // verus!
