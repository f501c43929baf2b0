//! Error envelope returned to API clients.

use vstd::prelude::*;
use crate::bytes::{ascii_bytes, dec_digits, push_all, str_bytes, u64_to_dec};

verus! {

/// An API-level failure: an HTTP status code together with a message carried
/// in the JSON error body.
#[derive(Debug, Clone)]
pub struct ApiError {
    pub status: u16,
    pub message: Vec<u8>,
}

/// The rendering of an [`ApiError`], as shown in server logs.
pub open spec fn api_error_display(status: u16, message: Seq<u8>) -> Seq<u8> {
    ascii_bytes("API Error "@) + dec_digits(status as nat) + ascii_bytes(": "@) + message
}

impl ApiError {
    pub fn new(status: u16, message: Vec<u8>) -> (r: ApiError)
        ensures
            r.status == status,
            r.message == message,
    {
        ApiError { status, message }
    }

    pub fn not_found(message: Vec<u8>) -> (r: ApiError)
        ensures
            r.status == 404,
            r.message == message,
    {
        ApiError::new(404, message)
    }

    pub fn bad_request(message: Vec<u8>) -> (r: ApiError)
        ensures
            r.status == 400,
            r.message == message,
    {
        ApiError::new(400, message)
    }

    pub fn internal_server_error(message: Vec<u8>) -> (r: ApiError)
        ensures
            r.status == 500,
            r.message == message,
    {
        ApiError::new(500, message)
    }

    /// The human-readable form, `API Error <status>: <message>`.
    pub fn display_bytes(&self) -> (r: Vec<u8>)
        ensures
            r@ == api_error_display(self.status, self.message@),
    {
        proof {
            reveal_strlit("API Error ");
            reveal_strlit(": ");
        }
        let mut r = str_bytes("API Error ");
        let digits = u64_to_dec(self.status as u64);
        push_all(&mut r, digits.as_slice());
        let sep = str_bytes(": ");
        push_all(&mut r, sep.as_slice());
        push_all(&mut r, self.message.as_slice());
        r
    }
}

/// The JSON body sent back when a request fails structural validation.
#[derive(Debug, Clone)]
pub struct ValidationErrorDTO {
    pub message: Vec<u8>,
    pub fields: Vec<Vec<u8>>,
}

impl ValidationErrorDTO {
    /// An envelope that carries a decoder's message and names no fields.
    pub fn from_message(message: Vec<u8>) -> (r: ValidationErrorDTO)
        ensures
            r.message == message,
            r.fields@ == Seq::<Vec<u8>>::empty(),
    {
        ValidationErrorDTO { message, fields: Vec::new() }
    }
}

} // verus!
