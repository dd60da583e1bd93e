//! Text decoding of byte fields.
//!
//! The instrument identifier arrives as a fixed-width byte field.  It
//! is read as text, and a field that is not valid text degrades to the
//! empty string instead of failing the record.

use vstd::prelude::*;
use vstd::utf8::decode_utf8;
use vstd::utf8::valid_utf8;

verus! {

/// The characters a byte field encodes, or the empty sequence when the
/// bytes are not valid text.
pub open spec fn text_or_empty(b: Seq<u8>) -> Seq<char> {
    if valid_utf8(b) {
        decode_utf8(b)
    } else {
        Seq::empty()
    }
}

/// Relies on str::from_utf8: it succeeds exactly on valid UTF-8 input
/// and returns the text those bytes encode.
#[verifier::external_body]
fn bytes_to_text(b: &[u8]) -> (r: Option<String>)
    ensures
        r is Some <==> valid_utf8(b@),
        r is Some ==> r->0@ == decode_utf8(b@),
{
    match core::str::from_utf8(b) {
        Ok(s) => Some(s.to_string()),
        Err(_) => None,
    }
}

/// Read a byte field as text, substituting the empty string when the
/// bytes are not valid text.
pub fn text_field(b: &[u8]) -> (r: String)
    ensures
        r@ == text_or_empty(b@),
{
    match bytes_to_text(b) {
        Some(s) => s,
        None => {
            let empty = String::new();
            proof {
                assert(empty@ =~= text_or_empty(b@));
            }
            empty
        },
    }
}

} // verus!
