//! Base64 encoding of file content.
//!
//! File bytes are arbitrary, but the snapshot document is line-oriented
//! text, so file content is carried through it in base64.  The encoding and
//! its inverse are outside calls; the library relies on the standard engine
//! producing only alphabet bytes and on decoding inverting encoding.

use crate::codec::all_b64;
use crate::errors::VersionsError;
use base64::Engine;
use base64::prelude::BASE64_STANDARD;
use vstd::prelude::*;

verus! {

/// The base64 text of a byte sequence, as the standard padded engine
/// produces it.
pub uninterp spec fn b64_of(b: Seq<u8>) -> Seq<u8>;

/// Relies on base64's `BASE64_STANDARD.encode`: the standard alphabet with
/// padding, so every output byte is an alphabet or padding byte, and the
/// output depends on the input bytes alone.
#[verifier::external_body]
pub(crate) fn b64_encode(b: &Vec<u8>) -> (r: Vec<u8>)
    ensures
        r@ == b64_of(b@),
        all_b64(r@),
{
    BASE64_STANDARD.encode(b).into_bytes()
}

/// Relies on base64's `BASE64_STANDARD.decode`: decoding inverts encoding,
/// so on the encoding of `b` it returns exactly `b`; any failure is a decode
/// error.
#[verifier::external_body]
pub(crate) fn b64_decode(c: &Vec<u8>) -> (r: Result<Vec<u8>, VersionsError>)
    ensures
        match r {
            Ok(v) => forall|b: Seq<u8>| c@ == b64_of(b) ==> v@ == b,
            Err(e) => e == VersionsError::BaseDecodeError,
        },
        forall|b: Seq<u8>| c@ == b64_of(b) ==> r is Ok,
{
    match BASE64_STANDARD.decode(c) {
        Ok(v) => Ok(v),
        Err(_) => Err(VersionsError::BaseDecodeError),
    }
}

} // verus!
