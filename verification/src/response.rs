//! Received responses: classifying them by status and decoding the body of
//! a successful one.
//!
//! A response counts as a success when its status is 200, 201 or 202. Only
//! then is its body read as text and handed to the JSON parser. Any other
//! response comes back whole, inside a status error.

use vstd::prelude::*;
use vstd::utf8::*;
use crate::error::{CursError, CursResult, NetworkError};
use crate::headers::Headers;
use crate::trusted::{invalid_data, utf8_text};

verus! {

/// A response as the transport received it.
#[derive(Debug)]
pub struct Response {
    /// The status code.
    pub status: u16,
    /// The header fields.
    pub headers: Headers,
    /// The body, as raw bytes.
    pub body: Vec<u8>,
}

/// Whether a status counts as a success: 200, 201 and 202 do.
pub open spec fn is_success(status: u16) -> bool {
    status == 200 || status == 201 || status == 202
}

/// What a parser's verdict becomes: the value it parsed, or a JSON error
/// that holds its diagnostic.
pub open spec fn decoded_from<D>(parsed: Result<D, serde_json::Error>) -> CursResult<D> {
    match parsed {
        Ok(value) => Ok(value),
        Err(diagnostic) => Err(CursError::Json(diagnostic)),
    }
}

/// Whether `text` is what comes of `received` before any parsing: an
/// earlier error as it is; a status error that holds the response where
/// its status is no success; the body as text where it is UTF-8; a network
/// error caused by reading where it is not.
pub open spec fn is_body_text_of(text: CursResult<String>, received: CursResult<Response>) -> bool {
    match received {
        Err(earlier) => text matches Err(error) && error == earlier,
        Ok(response) => if !is_success(response.status) {
            text matches Err(error) && error == CursError::Status(response)
        } else if valid_utf8(response.body@) {
            text matches Ok(body) && body@ == decode_utf8(response.body@)
        } else {
            text matches Err(CursError::Network(NetworkError::Io(_)))
        },
    }
}

impl Response {
    /// Whether the status counts as a success.
    pub fn succeeded(&self) -> (yes: bool)
        ensures
            yes == is_success(self.status),
    {
        self.status == 200 || self.status == 201 || self.status == 202
    }
}

/// Classifies what the transport gave and reads the body of a success as
/// text.
pub fn body_text(received: CursResult<Response>) -> (text: CursResult<String>)
    ensures
        is_body_text_of(text, received),
{
    match received {
        Err(earlier) => Err(earlier),
        Ok(response) => {
            if !response.succeeded() {
                return Err(CursError::Status(response));
            }
            match utf8_text(response.body.as_slice()) {
                Some(body) => Ok(body.to_owned()),
                None => Err(CursError::from(invalid_data())),
            }
        },
    }
}

/// Turns a parser's verdict into a result of this crate.
pub fn decoded<D>(parsed: Result<D, serde_json::Error>) -> (outcome: CursResult<D>)
    ensures
        outcome == decoded_from(parsed),
{
    match parsed {
        Ok(value) => Ok(value),
        Err(diagnostic) => Err(CursError::from(diagnostic)),
    }
}

/// Results that can be decoded.
pub trait DecodableResult: Sized {
    /// What the transport gave.
    spec fn received(self) -> CursResult<Response>;

    /// Decodes the JSON body of a successful response with `parse`, which
    /// is to be a JSON parser for the type wanted. The parser is called on
    /// the body of a success only, and at most once.
    fn decode_success<D, P: FnOnce(&str) -> Result<D, serde_json::Error>>(self, parse: P) -> (outcome:
        CursResult<D>)
        requires
            forall|text: &str| parse.requires((text,)),
        ensures
            match self.received() {
                Err(earlier) => outcome matches Err(error) && error == earlier,
                Ok(response) => if !is_success(response.status) {
                    outcome matches Err(error) && error == CursError::Status(response)
                } else if valid_utf8(response.body@) {
                    exists|text: &str, parsed: Result<D, serde_json::Error>|
                        text@ == decode_utf8(response.body@) && #[trigger] parse.ensures(
                            (text,),
                            parsed,
                        ) && outcome == decoded_from(parsed)
                } else {
                    outcome matches Err(CursError::Network(NetworkError::Io(_)))
                },
            },
    ;
}

impl DecodableResult for CursResult<Response> {
    open spec fn received(self) -> CursResult<Response> {
        self
    }

    fn decode_success<D, P: FnOnce(&str) -> Result<D, serde_json::Error>>(self, parse: P) -> (outcome:
        CursResult<D>) {
        match body_text(self) {
            Err(error) => Err(error),
            Ok(body) => {
                let text = body.as_str();
                let parsed = parse(text);
                assert(parse.ensures((text,), parsed));
                decoded(parsed)
            },
        }
    }
}

} // verus!
