//! Byte/text conversion at the edge of the transforms.
//!
//! Decoding is delegated to the standard library and specified with the
//! UTF-8 model from `vstd`, so contracts can say exactly which byte contents
//! decode and to what.

use vstd::prelude::*;

verus! {

/// Relies on `str::from_utf8`: it succeeds exactly on valid UTF-8 and
/// returns the text whose encoding is the input, deterministically in the
/// bytes alone.
#[verifier::external_body]
pub(crate) fn bytes_to_text(bytes: &[u8]) -> (r: Option<&str>)
    ensures
        r is Some <==> vstd::utf8::valid_utf8(bytes@),
        r matches Some(s) ==> vstd::utf8::encode_utf8(s@) == bytes@,
{
    std::str::from_utf8(bytes).ok()
}

} // verus!
