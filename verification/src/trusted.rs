//! The calls into other crates and into parts of std that carry no
//! specification. Nothing in this module is proved: each contract restates
//! what the called function is documented to do.

use vstd::prelude::*;
use vstd::utf8::*;
use crate::params::form_encode;

verus! {

#[verifier::external_type_specification]
#[verifier::external_body]
pub struct ExIoError(std::io::Error);

#[verifier::external_type_specification]
#[verifier::external_body]
pub struct ExHyperError(hyper::Error);

#[verifier::external_type_specification]
#[verifier::external_body]
pub struct ExJsonError(serde_json::Error);

/// What `url::Url::parse` makes of a text: the serialization of the URL it
/// parsed, or nothing where it reports a parse error.
pub uninterp spec fn url_serialization(input: Seq<char>) -> Option<Seq<char>>;

/// What `std::path::Path::file_name` gives for a path written as text: the
/// final component of the path, as std parses paths on the platform the
/// crate is built for, or nothing where the path has none.
pub uninterp spec fn path_file_name(path: Seq<char>) -> Option<Seq<char>>;

/// The media type that `mime_guess` has on record for the extension of a
/// path, or `application/octet-stream` where it has none.
pub uninterp spec fn guessed_mime(path: Seq<char>) -> Seq<char>;

/// Whether `c` is an ASCII letter or an ASCII digit.
pub open spec fn is_ascii_alphanumeric(c: char) -> bool {
    let n = c as u32;
    (0x30 <= n && n <= 0x39) || (0x41 <= n && n <= 0x5A) || (0x61 <= n && n <= 0x7A)
}

/// `url::form_urlencoded::byte_serialize`, collected into one string: the
/// `application/x-www-form-urlencoded` byte serializer run over the UTF-8
/// bytes of `text`. The crate leaves `*`, `-`, `.`, `_` and ASCII letters
/// and digits as they are, writes a space as `+`, and writes every other
/// byte as `%` followed by two upper-case hexadecimal digits.
#[verifier::external_body]
pub(crate) fn form_urlencode(text: &str) -> (out: String)
    ensures
        out@ == form_encode(encode_utf8(text@)),
{
    url::form_urlencoded::byte_serialize(text.as_bytes()).collect()
}

/// `url::Url::parse`, and the parsed URL turned back into its text. A text
/// that the crate does not accept as an absolute URL gives `None`.
#[verifier::external_body]
pub(crate) fn serialize_url(input: &str) -> (out: Option<String>)
    ensures
        match out {
            Some(text) => url_serialization(input@) == Some(text@),
            None => url_serialization(input@) is None,
        },
{
    match url::Url::parse(input) {
        Ok(parsed) => Some(String::from(parsed)),
        Err(_) => None,
    }
}

/// `std::path::Path::file_name` on a path given as text. The path is UTF-8
/// to begin with, so its final component is too.
#[verifier::external_body]
pub(crate) fn file_name_of(path: &str) -> (out: Option<String>)
    ensures
        match out {
            Some(name) => path_file_name(path@) == Some(name@),
            None => path_file_name(path@) is None,
        },
{
    match std::path::Path::new(path).file_name() {
        Some(name) => name.to_str().map(String::from),
        None => None,
    }
}

/// `mime_guess::from_path(..).first_or_octet_stream()`, written out as
/// text. The guess looks at the extension of the path only; it reads no
/// file.
#[verifier::external_body]
pub(crate) fn guess_mime(path: &str) -> (out: String)
    ensures
        out@ == guessed_mime(path@),
{
    mime_guess::from_path(path).first_or_octet_stream().to_string()
}

/// `rand`'s `Alphanumeric.sample_string` on the thread's generator: `len`
/// characters, each drawn from the ASCII letters and digits. Which ones is
/// left open: two calls need not agree.
#[verifier::external_body]
pub(crate) fn random_alphanumeric(len: usize) -> (out: String)
    ensures
        out@.len() == len,
        forall|i: int| 0 <= i < out@.len() ==> is_ascii_alphanumeric(#[trigger] out@[i]),
{
    rand::distributions::DistString::sample_string(
        &rand::distributions::Alphanumeric,
        &mut rand::thread_rng(),
        len,
    )
}

/// `std::str::from_utf8`: the bytes as text where they are valid UTF-8,
/// `None` where they are not.
#[verifier::external_body]
pub(crate) fn utf8_text(bytes: &[u8]) -> (out: Option<&str>)
    ensures
        match out {
            Some(text) => valid_utf8(bytes@) && text@ == decode_utf8(bytes@),
            None => !valid_utf8(bytes@),
        },
{
    std::str::from_utf8(bytes).ok()
}

/// `std::io::Error::from` on `ErrorKind::InvalidData`: the error with which
/// reading text fails when the bytes read are not UTF-8.
#[verifier::external_body]
pub(crate) fn invalid_data() -> std::io::Error {
    std::io::Error::from(std::io::ErrorKind::InvalidData)
}

} // verus!
