//! Base64 for byte strings of any length.
//!
//! The base64 library computes buffer sizes that would overflow on inputs
//! near the size of the address space. No slice is that long, and the
//! functions here say so once, so that nothing that encodes or decodes has
//! to carry a bound on lengths.

use crate::primitives::base64_decode;
use crate::primitives::base64_encode;
use crate::primitives::bounded_len;
use crate::primitives::spec_base64_decode;
use crate::primitives::spec_base64_encode;
use crate::primitives::spec_base64_sound;
use vstd::prelude::*;

verus! {

/// The bytes that an optional byte vector holds.
pub open spec fn bytes_of(bytes: Option<Vec<u8>>) -> Option<Seq<u8>> {
    match bytes {
        Some(bytes) => Some(bytes@),
        None => None,
    }
}

/// Writes `bytes` as standard base64 with padding.
pub fn encode(bytes: &[u8]) -> (text: String)
    ensures
        text@ == spec_base64_encode(bytes@),
        spec_base64_sound(bytes@),
{
    // No slice is longer than `isize::MAX`, so the encoded size fits.
    let _len: usize = bounded_len(bytes);
    base64_encode(bytes)
}

/// Reads standard base64, or gives `None` where `text` is malformed.
pub fn decode(text: &[u8]) -> (bytes: Option<Vec<u8>>)
    ensures
        bytes_of(bytes) == spec_base64_decode(text@),
{
    // No slice is longer than `isize::MAX`, so the rounded length fits.
    let _len: usize = bounded_len(text);
    base64_decode(text)
}

} // verus!
