//! Reading a response body up to a cap.

use vstd::prelude::*;
use std::io::Read;

verus! {

#[verifier::external_type_specification]
#[verifier::external_body]
pub struct ExResponse(ureq::Response);

#[verifier::external_type_specification]
#[verifier::external_body]
pub struct ExIoError(std::io::Error);

/// Reading the body of an HTTP response.
pub trait ResponseExt: Sized {
    /// Reads at most `limit` bytes of the body; a longer body is cut at
    /// `limit` bytes.
    fn read_bytes_with_limit(self, limit: usize) -> (r: Result<Vec<u8>, std::io::Error>)
        ensures
            r matches Ok(b) ==> b@.len() <= limit,
    ;
}

/// Relies on `ureq::Response::into_reader`, read to the end through
/// `Read::take` with the limit, which yields at most that many bytes.
#[verifier::external_body]
fn read_capped(response: ureq::Response, limit: usize) -> (r: Result<Vec<u8>, std::io::Error>)
    ensures
        r matches Ok(b) ==> b@.len() <= limit,
{
    let mut bytes: Vec<u8> = Vec::with_capacity(128 * 1024);
    response.into_reader().take(limit as u64).read_to_end(&mut bytes)?;
    Ok(bytes)
}

impl ResponseExt for ureq::Response {
    fn read_bytes_with_limit(self, limit: usize) -> (r: Result<Vec<u8>, std::io::Error>) {
        read_capped(self, limit)
    }
}

} // verus!
