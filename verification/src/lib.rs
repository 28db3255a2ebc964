//! A schema-faithful data model for a voice-assistant skill's
//! request/response exchange: decoding an inbound JSON envelope into a
//! typed request, classifying its locale and intent, and building an
//! outbound response whose encoding follows the wire contract's field
//! renaming and omit-if-absent rules exactly.

use vstd::prelude::*;

pub mod json;
pub mod kvmap;
pub mod parse;
pub mod request;
pub mod response;

verus! {

/// Relies on `str`'s `PartialEq`: two string slices are equal exactly when
/// their character sequences are equal.
#[verifier::external_body]
pub(crate) fn str_eq(a: &str, b: &str) -> (r: bool)
    ensures
        r == (a@ == b@),
{
    a == b
}

} // verus!
