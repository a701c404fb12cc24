//! Base64 rendering of fetched image bytes, delegated to the `base64` crate.
use vstd::prelude::*;

verus! {

/// The standard-alphabet, padded base64 rendering of the bytes `b`, as
/// `base64::engine::general_purpose::STANDARD` encodes them.  A function of
/// the bytes alone.
pub uninterp spec fn base64_of(b: Seq<u8>) -> Seq<char>;

/// Relies on `base64::Engine::encode` with the `STANDARD` engine: standard
/// alphabet with padding, hence four output characters for every started
/// group of three input bytes.
#[verifier::external_body]
fn base64_encode(b: &Vec<u8>) -> (r: String)
    requires
        4 * ((b@.len() + 2) / 3) <= usize::MAX,
    ensures
        r@ == base64_of(b@),
        r@.len() == 4 * ((b@.len() + 2) / 3),
{
    base64::Engine::encode(&base64::engine::general_purpose::STANDARD, b)
}

/// Render fetched image bytes as base64 for the user interface, refusing
/// inputs whose rendering would not fit in memory.
pub fn encode_image_bytes(b: &Vec<u8>) -> (r: Option<String>)
    ensures
        r is Some <==> 4 * ((b@.len() + 2) / 3) <= usize::MAX,
        r is Some ==> r->0@ == base64_of(b@) && r->0@.len() == 4 * ((b@.len() + 2) / 3),
{
    if b.len() <= usize::MAX / 4 * 3 {
        proof {
            assert(4 * ((b@.len() + 2) / 3) <= usize::MAX) by (nonlinear_arith)
                requires
                    b@.len() <= usize::MAX as int / 4 * 3,
            ;
        }
        Some(base64_encode(b))
    } else {
        proof {
            assert(!(4 * ((b@.len() + 2) / 3) <= usize::MAX)) by (nonlinear_arith)
                requires
                    b@.len() > usize::MAX as int / 4 * 3,
            ;
        }
        None
    }
}

} // verus!
