//! Request construction and response decoding for an HTTP client.
//!
//! A [`Request`] gathers a method, a URL, params, headers, files and an
//! optional raw body. Finalising it picks exactly one wire encoding (query
//! string, URL-encoded form, multipart/form-data or the raw body) and yields
//! what the transport is to put on the wire. A received [`Response`] is
//! classified by its status and, on success, handed to a JSON parser.
//!
//! The transport and the file system stay outside: a caller hands in what
//! reading each file gave, passes the finalised request to its transport,
//! and hands back the response it received.

pub mod error;
pub mod headers;
pub mod multipart;
pub mod params;
pub mod request;
pub mod response;
pub mod trusted;

pub use error::{CursError, CursResult, NetworkError};
pub use headers::Headers;
pub use multipart::{FileContents, FileUpload, MultipartBodyBuilder};
pub use params::{encode_params, Param, Params};
pub use request::{BodyKind, Method, Prepared, Request};
pub use response::{DecodableResult, Response};
