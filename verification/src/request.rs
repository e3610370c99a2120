//! Requests: what a caller gathers, and the one encoding that finalising
//! picks for it.
//!
//! The precedence is fixed. A raw body, set directly or as JSON, is sent as
//! it is whatever else was given. Without one, GET and HEAD carry their
//! params in the query string and no body, files included; any other method
//! sends its params as a URL-encoded form, or, as soon as there is a file,
//! params and files as `multipart/form-data`.

use vstd::prelude::*;
use vstd::pervasive::unreached;
use vstd::string::*;
use vstd::utf8::*;
use crate::error::{CursError, CursResult};
use crate::error::NetworkError;
use crate::headers::{lemma_set_then_get, value_of, with_field, Field, Headers, CONTENT_TYPE};
use crate::multipart::{
    all_named,
    built,
    bytes_of,
    every_file_named,
    files_section,
    first_failure,
    multipart_body,
    params_section,
    terminator,
    is_boundary,
    uploads_of,
    FileContents,
    FileUpload,
    FileUploadView,
    MultipartBody,
    MultipartBodyBuilder,
    BOUNDARY_LENGTH,
};
use crate::params::{
    encode_pairs,
    encode_params,
    lacks,
    lemma_encode_pairs_lacks_question_mark,
    lemma_occurrences_absent,
    lemma_occurrences_add,
    occurrences,
    pairs_of,
    Pair,
    Param,
};
use crate::trusted::{serialize_url, url_serialization};

verus! {

/// The media type of a URL-encoded form body.
pub const FORM_URLENCODED: &'static str = "application/x-www-form-urlencoded";

/// The media type of a JSON body.
pub const APPLICATION_JSON: &'static str = "application/json";

/// What the media type of a multipart body starts with; the boundary
/// follows.
pub const MULTIPART_PREFIX: &'static str = "multipart/form-data; boundary=";

/// The HTTP request method.
#[derive(Debug, PartialEq, Eq)]
pub enum Method {
    Options,
    Get,
    Post,
    Put,
    Delete,
    Head,
    Trace,
    Connect,
    Patch,
    Extension(String),
}

impl Method {
    /// Whether the method is GET or HEAD: the methods whose params go into
    /// the query string and for which no body is made.
    pub open spec fn is_query_only(self) -> bool {
        self is Get || self is Head
    }

    /// Whether the method is GET or HEAD.
    pub fn carries_params_in_query(&self) -> (yes: bool)
        ensures
            yes == self.is_query_only(),
    {
        match self {
            Method::Get => true,
            Method::Head => true,
            _ => false,
        }
    }
}

impl Clone for Method {
    fn clone(&self) -> (copy: Method)
        ensures
            copy == *self,
    {
        match self {
            Method::Options => Method::Options,
            Method::Get => Method::Get,
            Method::Post => Method::Post,
            Method::Put => Method::Put,
            Method::Delete => Method::Delete,
            Method::Head => Method::Head,
            Method::Trace => Method::Trace,
            Method::Connect => Method::Connect,
            Method::Patch => Method::Patch,
            Method::Extension(name) => Method::Extension(name.clone()),
        }
    }
}

/// The ways a request's body can come about.
#[derive(Clone, Copy, Debug, PartialEq, Eq, Structural)]
pub enum BodyKind {
    /// The raw body, as it was set.
    Raw,
    /// No body.
    Empty,
    /// The params as a URL-encoded form.
    Form,
    /// Params and files as `multipart/form-data`.
    Multipart,
}

/// A request as values.
pub struct RequestView {
    pub method: Method,
    pub url: Seq<char>,
    pub params: Seq<Pair>,
    pub headers: Seq<Field>,
    pub files: Seq<FileUploadView>,
    pub raw_body: Option<Seq<char>>,
}

/// What is handed to the transport: method, URL, header fields, and the
/// body if one is attached.
#[derive(Debug)]
pub struct Prepared {
    pub method: Method,
    pub url: String,
    pub headers: Headers,
    pub body: Option<Vec<u8>>,
}

/// What is handed to the transport, as values.
pub struct PreparedView {
    pub method: Method,
    pub url: Seq<char>,
    pub headers: Seq<Field>,
    pub body: Option<Seq<u8>>,
}

impl View for Prepared {
    type V = PreparedView;

    open spec fn view(&self) -> PreparedView {
        PreparedView {
            method: self.method,
            url: self.url@,
            headers: self.headers@,
            body: match self.body {
                Some(bytes) => Some(bytes@),
                None => None,
            },
        }
    }
}

/// The encoding that finalising picks.
pub open spec fn body_kind(request: RequestView) -> BodyKind {
    if request.raw_body is Some {
        BodyKind::Raw
    } else if request.method.is_query_only() {
        BodyKind::Empty
    } else if request.files.len() == 0 {
        BodyKind::Form
    } else {
        BodyKind::Multipart
    }
}

/// The URL of the request as it is sent: for GET and HEAD with at least
/// one param, `?` and the encoded params are put behind the URL.
pub open spec fn target(request: RequestView, base: Seq<char>) -> Seq<char> {
    if request.params.len() > 0 && request.method.is_query_only() {
        base + seq!['?'] + encode_pairs(request.params)
    } else {
        base
    }
}

/// The media type of a multipart body with the boundary given.
pub open spec fn multipart_media_type(boundary: Seq<char>) -> Seq<char> {
    MULTIPART_PREFIX@ + boundary
}

/// An empty body with the boundary given.
pub open spec fn fresh_body(boundary: Seq<char>) -> MultipartBody {
    MultipartBody { boundary, body: Seq::empty() }
}

/// What finalising gives when `builder` is the multipart builder at hand
/// and `contents` is what reading the files gave. Builder and contents
/// matter for a multipart body only.
pub open spec fn finalised(
    request: RequestView,
    builder: MultipartBody,
    contents: Seq<FileContents>,
) -> Result<PreparedView, CursError> {
    let method = request.method;
    let url = target(request, url_serialization(request.url)->0);
    match body_kind(request) {
        BodyKind::Raw => Ok(
            PreparedView {
                method,
                url,
                headers: request.headers,
                body: Some(encode_utf8(request.raw_body->0)),
            },
        ),
        BodyKind::Empty => Ok(PreparedView { method, url, headers: request.headers, body: None }),
        BodyKind::Form => Ok(
            PreparedView {
                method,
                url,
                headers: with_field(request.headers, CONTENT_TYPE@, FORM_URLENCODED@),
                body: Some(encode_utf8(encode_pairs(request.params))),
            },
        ),
        BodyKind::Multipart => match built(builder, request.files, request.params, contents) {
            Ok(body) => Ok(
                PreparedView {
                    method,
                    url,
                    headers: with_field(
                        request.headers,
                        CONTENT_TYPE@,
                        multipart_media_type(body.boundary),
                    ),
                    body: Some(body.body),
                },
            ),
            Err(error) => Err(error),
        },
    }
}

/// Whether `outcome` is what `finalised` describes.
pub open spec fn is_finalised(
    outcome: CursResult<Prepared>,
    request: RequestView,
    builder: MultipartBody,
    contents: Seq<FileContents>,
) -> bool {
    match outcome {
        Ok(prepared) => finalised(request, builder, contents) == Ok::<PreparedView, CursError>(
            prepared@,
        ),
        Err(error) => finalised(request, builder, contents) == Err::<PreparedView, CursError>(
            error,
        ),
    }
}

/// Whether finalising can go ahead: the URL parses, and where the body is
/// multipart there is a read outcome for each file and each file has a
/// file name.
pub open spec fn can_finalise(request: RequestView, contents: Seq<FileContents>) -> bool {
    &&& url_serialization(request.url) is Some
    &&& body_kind(request) == BodyKind::Multipart ==> {
        &&& contents.len() == request.files.len()
        &&& all_named(request.files)
    }
}

/// The main entry point: craft a request, then finalise it.
#[derive(Clone)]
pub struct Request<'a> {
    method: Method,
    url: &'a str,
    params: Vec<Param<'a>>,
    headers: Headers,
    files: Vec<FileUpload<'a>>,
    raw_body: Option<String>,
}

impl<'a> View for Request<'a> {
    type V = RequestView;

    closed spec fn view(&self) -> RequestView {
        RequestView {
            method: self.method,
            url: self.url@,
            params: pairs_of(self.params@),
            headers: self.headers@,
            files: uploads_of(self.files@),
            raw_body: match self.raw_body {
                Some(body) => Some(body@),
                None => None,
            },
        }
    }
}

impl<'a> Request<'a> {
    /// A request with the method and URL given and nothing else: no
    /// params, no headers, no files, no raw body. The URL is taken as it
    /// is; whether it parses is found out when the request is finalised.
    pub fn new(method: Method, url: &'a str) -> (request: Request<'a>)
        ensures
            request@ == (RequestView {
                method,
                url: url@,
                params: Seq::empty(),
                headers: Seq::empty(),
                files: Seq::empty(),
                raw_body: None,
            }),
    {
        let request = Request {
            method,
            url,
            params: Vec::new(),
            headers: Headers::new(),
            files: Vec::new(),
            raw_body: None,
        };
        assert(request@.params =~= Seq::<Pair>::empty());
        assert(request@.files =~= Seq::<FileUploadView>::empty());
        request
    }

    /// Adds params behind those already there.
    pub fn params(&mut self, additional: Vec<Param<'a>>) -> (request: &mut Request<'a>)
        ensures
            request@ == (RequestView {
                params: old(self)@.params + pairs_of(additional@),
                ..old(self)@
            }),
            *final(self) == *final(request),
    {
        let mut additional = additional;
        let ghost added = additional@;
        self.params.append(&mut additional);
        assert(pairs_of(old(self).params@ + added) =~= pairs_of(old(self).params@) + pairs_of(
            added,
        ));
        self
    }

    /// Sets `text`, which is to be JSON, as the raw body, and sets the
    /// content-type header to `application/json`. The raw body takes the
    /// place of any body that params or files would give.
    pub fn json(&mut self, text: String) -> (request: &mut Request<'a>)
        ensures
            request@ == (RequestView {
                raw_body: Some(text@),
                headers: with_field(old(self)@.headers, CONTENT_TYPE@, APPLICATION_JSON@),
                ..old(self)@
            }),
            *final(self) == *final(request),
    {
        self.raw_body = Some(text);
        self.headers.set(CONTENT_TYPE.to_owned(), APPLICATION_JSON.to_owned());
        self
    }

    /// Sets a raw body, in place of any raw body set before and of any
    /// body that params or files would give. No header is touched.
    pub fn override_body(&mut self, body: String) -> (request: &mut Request<'a>)
        ensures
            request@ == (RequestView { raw_body: Some(body@), ..old(self)@ }),
            *final(self) == *final(request),
    {
        self.raw_body = Some(body);
        self
    }

    /// Adds files to upload behind those already there.
    pub fn files(&mut self, additional: Vec<FileUpload<'a>>) -> (request: &mut Request<'a>)
        ensures
            request@ == (RequestView {
                files: old(self)@.files + uploads_of(additional@),
                ..old(self)@
            }),
            *final(self) == *final(request),
    {
        let mut additional = additional;
        let ghost added = additional@;
        self.files.append(&mut additional);
        assert(uploads_of(old(self).files@ + added) =~= uploads_of(old(self).files@)
            + uploads_of(added));
        self
    }

    /// Sets one header, in place of the header of that name if there is
    /// one.
    pub fn header(&mut self, name: &str, value: &str) -> (request: &mut Request<'a>)
        ensures
            request@ == (RequestView {
                headers: with_field(old(self)@.headers, name@, value@),
                ..old(self)@
            }),
            *final(self) == *final(request),
    {
        self.headers.set(name.to_owned(), value.to_owned());
        self
    }

    /// The files to upload, in the order they were added.
    pub fn uploads(&self) -> (files: &Vec<FileUpload<'a>>)
        ensures
            uploads_of(files@) == self@.files,
    {
        &self.files
    }

    /// The encoding that finalising will pick for the request as it stands.
    pub fn body_kind(&self) -> (kind: BodyKind)
        ensures
            kind == body_kind(self@),
    {
        if self.raw_body.is_some() {
            BodyKind::Raw
        } else if self.method.carries_params_in_query() {
            BodyKind::Empty
        } else if self.files.len() == 0 {
            BodyKind::Form
        } else {
            BodyKind::Multipart
        }
    }

    /// Whether the request can be finalised with these read outcomes: its
    /// URL parses, and where its body will be multipart there is an outcome
    /// for each file and each file has a file name.
    pub fn can_send(&self, contents: &Vec<FileContents>) -> (yes: bool)
        ensures
            yes == can_finalise(self@, contents@),
    {
        if serialize_url(self.url).is_none() {
            return false;
        }
        match self.body_kind() {
            BodyKind::Multipart => contents.len() == self.files.len() && every_file_named(
                &self.files,
            ),
            _ => true,
        }
    }

    /// The URL as it is sent.
    fn target_url(&self) -> (url: String)
        requires
            url_serialization(self@.url) is Some,
        ensures
            url@ == target(self@, url_serialization(self@.url)->0),
    {
        let mut url = match serialize_url(self.url) {
            Some(base) => base,
            None => unreached(),
        };
        if self.params.len() > 0 && self.method.carries_params_in_query() {
            let query = encode_params(&self.params);
            url.append("?");
            url.append(query.as_str());
            proof {
                reveal_strlit("?");
                assert("?"@ == seq!['?']);
            }
        }
        url
    }

    /// Finalises the request with the multipart builder given: picks the
    /// encoding, assembles the body and sets the content type that goes
    /// with it. `contents` holds, at the position of each file, what
    /// reading that file gave; it is looked at for a multipart body only,
    /// and so is the builder. A file whose read failed fails the request
    /// with a network error, and nothing is handed to the transport.
    pub fn send_with(&self, builder: MultipartBodyBuilder, contents: Vec<FileContents>) -> (outcome:
        CursResult<Prepared>)
        requires
            can_finalise(self@, contents@),
        ensures
            is_finalised(outcome, self@, builder@, contents@),
    {
        let url = self.target_url();
        let mut headers = self.headers.clone();
        let body = match self.body_kind() {
            BodyKind::Raw => match &self.raw_body {
                Some(raw) => Some(raw.as_str().as_bytes_vec()),
                None => unreached(),
            },
            BodyKind::Empty => None,
            BodyKind::Form => {
                headers.set(CONTENT_TYPE.to_owned(), FORM_URLENCODED.to_owned());
                Some(encode_params(&self.params).as_str().as_bytes_vec())
            },
            BodyKind::Multipart => match builder.fill(&self.files, &self.params, contents) {
                Ok(filled) => {
                    let mut media_type = MULTIPART_PREFIX.to_owned();
                    media_type.append(filled.boundary());
                    headers.set(CONTENT_TYPE.to_owned(), media_type);
                    Some(filled.into_body())
                },
                Err(error) => {
                    return Err(error);
                },
            },
        };
        Ok(Prepared { method: self.method.clone(), url, headers, body })
    }

    /// Finalises the request. A multipart body gets a fresh boundary of
    /// thirty random ASCII letters and digits; in every other respect this
    /// is `send_with`.
    pub fn send(&self, contents: Vec<FileContents>) -> (outcome: CursResult<Prepared>)
        requires
            can_finalise(self@, contents@),
        ensures
            exists|boundary: Seq<char>|
                is_boundary(boundary) && #[trigger] is_finalised(
                    outcome,
                    self@,
                    fresh_body(boundary),
                    contents@,
                ),
    {
        match self.body_kind() {
            BodyKind::Multipart => {
                let builder = MultipartBodyBuilder::new();
                let ghost boundary = builder@.boundary;
                assert(builder@ == fresh_body(boundary));
                let outcome = self.send_with(builder, contents);
                assert(is_boundary(boundary) && is_finalised(
                    outcome,
                    self@,
                    fresh_body(boundary),
                    contents@,
                ));
                outcome
            },
            _ => {
                let builder = MultipartBodyBuilder::with_boundary(String::new());
                let ghost unused = builder@;
                let outcome = self.send_with(builder, contents);
                proof {
                    let boundary = Seq::new(BOUNDARY_LENGTH as nat, |i: int| 'a');
                    assert(is_boundary(boundary));
                    assert(finalised(self@, fresh_body(boundary), contents@) == finalised(
                        self@,
                        unused,
                        contents@,
                    ));
                    assert(is_finalised(outcome, self@, fresh_body(boundary), contents@));
                }
                outcome
            },
        }
    }

    /// Finalises the request if it can be finalised, and says so if not:
    /// `None` where the URL does not parse, and, for a multipart body,
    /// where a file has no read outcome or no file name.
    pub fn try_send(&self, contents: Vec<FileContents>) -> (outcome: Option<CursResult<Prepared>>)
        ensures
            outcome is Some <==> can_finalise(self@, contents@),
            outcome matches Some(sent) ==> exists|boundary: Seq<char>|
                is_boundary(boundary) && #[trigger] is_finalised(
                    sent,
                    self@,
                    fresh_body(boundary),
                    contents@,
                ),
    {
        if self.can_send(&contents) {
            Some(self.send(contents))
        } else {
            None
        }
    }
}

/// GET and HEAD never get a body out of params or files: with at least
/// one param and no raw body set, nothing is attached, and the URL is the
/// parsed URL, one `?`, and the encoded params, which hold no `?`
/// themselves. If the parsed URL holds none either, the `?` in between is
/// the only one.
pub proof fn lemma_query_only_methods_send_no_body(
    request: RequestView,
    builder: MultipartBody,
    contents: Seq<FileContents>,
)
    requires
        request.method.is_query_only(),
        request.params.len() > 0,
        request.raw_body is None,
    ensures
        finalised(request, builder, contents) matches Ok(prepared) && {
            let base = url_serialization(request.url)->0;
            let query = encode_pairs(request.params);
            &&& prepared.body is None
            &&& prepared.headers == request.headers
            &&& prepared.url == base + seq!['?'] + query
            &&& lacks(query, '?')
            &&& lacks(base, '?') ==> occurrences(prepared.url, '?') == 1
        },
{
    let base = url_serialization(request.url)->0;
    let query = encode_pairs(request.params);
    lemma_encode_pairs_lacks_question_mark(request.params);
    if lacks(base, '?') {
        lemma_occurrences_absent(base, '?');
        lemma_occurrences_absent(query, '?');
        lemma_occurrences_add(base, seq!['?'], '?');
        lemma_occurrences_add(base + seq!['?'], query, '?');
        assert(occurrences(seq!['?'], '?') == 1) by {
            reveal_with_fuel(occurrences, 2);
            assert(seq!['?'].last() == '?');
            assert(seq!['?'].drop_last().len() == 0);
        }
    }
}

/// Files force a multipart body wherever a body is made from params and
/// files at all: for a method other than GET and HEAD, with no raw body
/// set and every file read, the content type is `multipart/form-data;
/// boundary=` followed by the boundary, and the body is a part for each
/// param, then a part for each file, each in the order given and behind a
/// line that holds the boundary, then the closing line.
pub proof fn lemma_files_force_multipart(
    request: RequestView,
    boundary: Seq<char>,
    contents: Seq<FileContents>,
)
    requires
        request.files.len() > 0,
        !request.method.is_query_only(),
        request.raw_body is None,
        contents.len() == request.files.len(),
        first_failure(contents) == contents.len(),
    ensures
        finalised(request, fresh_body(boundary), contents) matches Ok(prepared) && {
            &&& value_of(prepared.headers, CONTENT_TYPE@) == Some(MULTIPART_PREFIX@ + boundary)
            &&& prepared.body == Some(
                params_section(boundary, request.params) + files_section(
                    boundary,
                    request.files,
                    bytes_of(contents),
                ) + terminator(boundary),
            )
            &&& prepared.url == url_serialization(request.url)->0
        },
{
    lemma_set_then_get(request.headers, CONTENT_TYPE@, multipart_media_type(boundary));
    let body = multipart_body(boundary, request.params, request.files, bytes_of(contents));
    assert(Seq::<u8>::empty() + body == body);
}

/// A file whose read failed fails the whole request: where the body is to
/// be multipart, the error of the first such file comes back as a network
/// error, and nothing is handed to the transport.
pub proof fn lemma_failed_read_fails_request(
    request: RequestView,
    builder: MultipartBody,
    contents: Seq<FileContents>,
)
    requires
        body_kind(request) == BodyKind::Multipart,
        0 <= first_failure(contents) < contents.len(),
    ensures
        finalised(request, builder, contents) == Err::<PreparedView, CursError>(
            CursError::Network(NetworkError::Io(contents[first_failure(contents)]->Err_0)),
        ),
{
}

/// A raw body takes precedence over everything: whatever the method, the
/// params and the files, also files set before it, the raw body is sent as
/// it is and the headers stay as the caller set them.
pub proof fn lemma_raw_body_takes_precedence(
    request: RequestView,
    builder: MultipartBody,
    contents: Seq<FileContents>,
)
    requires
        request.raw_body is Some,
    ensures
        finalised(request, builder, contents) == Ok::<PreparedView, CursError>(
            PreparedView {
                method: request.method,
                url: target(request, url_serialization(request.url)->0),
                headers: request.headers,
                body: Some(encode_utf8(request.raw_body->0)),
            },
        ),
{
}

/// Without files and without a raw body, a method other than GET and HEAD
/// sends its params as a URL-encoded form, under the content type that
/// names it, and leaves the URL as it was parsed.
pub proof fn lemma_params_alone_make_a_form(
    request: RequestView,
    builder: MultipartBody,
    contents: Seq<FileContents>,
)
    requires
        request.files.len() == 0,
        !request.method.is_query_only(),
        request.raw_body is None,
    ensures
        finalised(request, builder, contents) matches Ok(prepared) && {
            &&& value_of(prepared.headers, CONTENT_TYPE@) == Some(FORM_URLENCODED@)
            &&& prepared.body == Some(encode_utf8(encode_pairs(request.params)))
            &&& prepared.url == url_serialization(request.url)->0
        },
{
    lemma_set_then_get(request.headers, CONTENT_TYPE@, FORM_URLENCODED@);
}

} // verus!
