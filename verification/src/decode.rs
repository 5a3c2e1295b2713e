//! Decoding of raw broker payloads into text for display.

use vstd::prelude::*;

verus! {

/// The text that lossy UTF-8 decoding yields for `bytes`: well-formed
/// UTF-8 comes through as its characters, ill-formed ranges come through
/// as replacement characters. The result depends on the bytes alone.
pub uninterp spec fn lossy_utf8_of(bytes: Seq<u8>) -> Seq<char>;

/// Relies on std's `String::from_utf8_lossy`: the decoding is a pure
/// function of the bytes, and no bytes decode to no text.
#[verifier::external_body]
fn lossy_utf8(bytes: &[u8]) -> (r: String)
    ensures
        r@ == lossy_utf8_of(bytes@),
        bytes@.len() == 0 ==> r@.len() == 0,
{
    String::from_utf8_lossy(bytes).to_string()
}

/// Renders a raw key or payload, as received from the broker, as text.
pub fn decode_bytes(bytes: &[u8]) -> (r: String)
    ensures
        r@ == lossy_utf8_of(bytes@),
        bytes@.len() == 0 ==> r@.len() == 0,
{
    lossy_utf8(bytes)
}

} // verus!
