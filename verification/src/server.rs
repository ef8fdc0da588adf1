//! The request handling of the decompiler's web front end: a request body
//! holds Base64 bytecode; a failure is answered with a status code.

use vstd::prelude::*;
use base64::prelude::BASE64_STANDARD;
use base64::{DecodeError, Engine};

verus! {

/// An error of the `base64` crate's decoder.
#[verifier::external_type_specification]
#[verifier::external_body]
pub struct ExDecodeError(DecodeError);

/// An I/O error of the standard library.
#[verifier::external_type_specification]
#[verifier::external_body]
pub struct ExIoError(std::io::Error);

/// Why a request failed.
pub enum ServerError {
    /// An I/O error of the server.
    Io(std::io::Error),
    /// The request body is not valid Base64.
    Base64(DecodeError),
}

impl ServerError {
    /// The HTTP status code of the answer: 500 for an I/O error, 400 for a
    /// request body that is not Base64.
    pub fn status_code(&self) -> (r: u16)
        ensures
            match self {
                ServerError::Io(_) => r == 500,
                ServerError::Base64(_) => r == 400,
            },
    {
        match self {
            ServerError::Io(_) => 500,
            ServerError::Base64(_) => 400,
        }
    }
}

/// The bytes that the standard Base64 alphabet, with padding, decodes `input`
/// to, or `None` when `input` is not such Base64.
pub uninterp spec fn base64_standard_decoding(input: Seq<u8>) -> Option<Seq<u8>>;

/// Calls `Engine::decode_vec` of `base64::prelude::BASE64_STANDARD` into an
/// empty buffer. What it returns is named `base64_standard_decoding(input)`;
/// which `DecodeError` it gives is not stated.
#[verifier::external_body]
fn base64_decode(input: &[u8]) -> (r: Result<Vec<u8>, DecodeError>)
    ensures
        match r {
            Ok(bytes) => base64_standard_decoding(input@) == Some(bytes@),
            Err(_) => base64_standard_decoding(input@) is None,
        },
{
    let mut buffer = Vec::new();
    match BASE64_STANDARD.decode_vec(input, &mut buffer) {
        Ok(()) => Ok(buffer),
        Err(e) => Err(e),
    }
}

/// The bytecode of a request, from the outcome of decoding its body: the
/// decoded bytes, or a Base64 error.
pub fn request_bytecode(decoded: Result<Vec<u8>, DecodeError>) -> (r: Result<Vec<u8>, ServerError>)
    ensures
        match decoded {
            Ok(bytes) => r matches Ok(b) && b@ == bytes@,
            Err(e) => r matches Err(ServerError::Base64(e2)) && e2 == e,
        },
{
    match decoded {
        Ok(bytes) => Ok(bytes),
        Err(e) => Err(ServerError::Base64(e)),
    }
}

/// Decodes the Base64 body of a request into bytecode.
pub fn decode_request_body(body: &[u8]) -> (r: Result<Vec<u8>, ServerError>)
    ensures
        match r {
            Ok(bytes) => base64_standard_decoding(body@) == Some(bytes@),
            Err(e) => e is Base64 && base64_standard_decoding(body@) is None,
        },
{
    request_bytecode(base64_decode(body))
}

} // verus!
