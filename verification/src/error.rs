//! The one error type that sending and decoding return.

use vstd::prelude::*;
use vstd::std_specs::convert::FromSpecImpl;
use crate::response::Response;

verus! {

/// Why a request could not be produced or transmitted.
#[derive(Debug)]
pub enum NetworkError {
    /// Reading a file to upload, or reading a response body, failed.
    Io(std::io::Error),
    /// The transport failed.
    Transport(hyper::Error),
}

/// Sending a request may fail for any of these reasons.
#[derive(Debug)]
pub enum CursError {
    /// A response came, with a status other than 200, 201 and 202. The
    /// response is carried along for inspection.
    Status(Response),
    /// The request could not be produced or transmitted.
    Network(NetworkError),
    /// The response's status was a success but its body was not JSON of
    /// the shape asked for.
    Json(serde_json::Error),
}

/// A value, or the reason why there is none.
pub type CursResult<T> = Result<T, CursError>;

impl From<hyper::Error> for CursError {
    fn from(err: hyper::Error) -> (error: CursError) {
        CursError::Network(NetworkError::Transport(err))
    }
}

impl FromSpecImpl<hyper::Error> for CursError {
    open spec fn obeys_from_spec() -> bool {
        true
    }

    open spec fn from_spec(err: hyper::Error) -> CursError {
        CursError::Network(NetworkError::Transport(err))
    }
}

impl From<std::io::Error> for CursError {
    fn from(err: std::io::Error) -> (error: CursError) {
        CursError::Network(NetworkError::Io(err))
    }
}

impl FromSpecImpl<std::io::Error> for CursError {
    open spec fn obeys_from_spec() -> bool {
        true
    }

    open spec fn from_spec(err: std::io::Error) -> CursError {
        CursError::Network(NetworkError::Io(err))
    }
}

impl From<serde_json::Error> for CursError {
    fn from(err: serde_json::Error) -> (error: CursError) {
        CursError::Json(err)
    }
}

impl FromSpecImpl<serde_json::Error> for CursError {
    open spec fn obeys_from_spec() -> bool {
        true
    }

    open spec fn from_spec(err: serde_json::Error) -> CursError {
        CursError::Json(err)
    }
}

} // verus!
