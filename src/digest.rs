//! The digest carried by an `integrity` attribute.

use vstd::prelude::*;
use vstd::string::*;
use base64::Engine;
use sha2::Digest;

verus! {

/// The SHA-384 digest of a byte sequence.
pub uninterp spec fn sha384_of(b: Seq<u8>) -> Seq<u8>;

/// The standard base64 encoding (RFC 4648 alphabet, padded) of a byte sequence.
pub uninterp spec fn base64_of(b: Seq<u8>) -> Seq<char>;

/// Relies on `sha2::Sha384::digest`: the SHA-384 digest, 48 bytes long.
#[verifier::external_body]
fn sha384(b: &[u8]) -> (r: Vec<u8>)
    ensures
        r@ == sha384_of(b@),
        r@.len() == 48,
{
    sha2::Sha384::digest(b).to_vec()
}

/// Relies on `base64::engine::Engine::encode` of `BASE64_STANDARD`, which
/// panics only when the encoded length overflows `usize`.
#[verifier::external_body]
fn base64_standard(b: &[u8]) -> (r: String)
    requires
        b@.len() <= usize::MAX / 2,
    ensures
        r@ == base64_of(b@),
{
    base64::prelude::BASE64_STANDARD.encode(b)
}

/// The value of an `integrity` attribute for a resource body.
pub open spec fn sri_of(body: Seq<u8>) -> Seq<char> {
    "sha384-"@ + base64_of(sha384_of(body))
}

/// The `integrity` value for a resource body: `sha384-` followed by the
/// base64 encoding of the body's SHA-384 digest.
pub fn sri_value(body: &[u8]) -> (r: String)
    ensures
        r@ == sri_of(body@),
{
    let digest = sha384(body);
    let encoded = base64_standard(digest.as_slice());
    let mut out = String::from_str("sha384-");
    out.append(encoded.as_str());
    out
}

} // verus!
