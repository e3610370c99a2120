//! The encoder for `multipart/form-data` bodies: params first, then files,
//! each part behind a line that holds the boundary, and a closing line
//! after the last part.
//!
//! Nothing in a name, a value or a file is escaped, and the boundary is not
//! compared with them: a body is only well delimited while the boundary
//! does not occur in what it delimits.

use vstd::prelude::*;
use vstd::pervasive::unreached;
use vstd::utf8::*;
use crate::error::{CursError, NetworkError};
use crate::params::{pairs_of, Pair, Param};
use crate::trusted::{
    file_name_of,
    guess_mime,
    guessed_mime,
    is_ascii_alphanumeric,
    path_file_name,
    random_alphanumeric,
};

verus! {

/// The number of characters in a generated boundary.
pub const BOUNDARY_LENGTH: usize = 30;

/// A file to upload: the form field it is sent under, its media type if
/// the caller states one, and where the file is. The file is not read
/// here; what reading it gave is handed over when the body is built.
#[derive(Clone)]
pub struct FileUpload<'a> {
    pub name: String,
    pub mime: Option<String>,
    pub path: &'a str,
}

/// A file to upload, as text.
pub struct FileUploadView {
    pub name: Seq<char>,
    pub mime: Option<Seq<char>>,
    pub path: Seq<char>,
}

impl<'a> View for FileUpload<'a> {
    type V = FileUploadView;

    open spec fn view(&self) -> FileUploadView {
        FileUploadView {
            name: self.name@,
            mime: match self.mime {
                Some(mime) => Some(mime@),
                None => None,
            },
            path: self.path@,
        }
    }
}

/// What reading a file gave: its bytes, or the error that stopped the read.
pub type FileContents = Result<Vec<u8>, std::io::Error>;

/// The files as text.
pub open spec fn uploads_of(files: Seq<FileUpload>) -> Seq<FileUploadView> {
    files.map_values(|f: FileUpload| f@)
}

/// The bytes of each file; no bytes for a file whose read failed.
pub open spec fn bytes_of(contents: Seq<FileContents>) -> Seq<Seq<u8>> {
    contents.map_values(
        |c: FileContents|
            match c {
                Ok(bytes) => bytes@,
                Err(_) => Seq::empty(),
            },
    )
}

/// The position of the first file whose read failed, or the number of
/// files where every read succeeded.
pub open spec fn first_failure(contents: Seq<FileContents>) -> int
    decreases contents.len(),
{
    if contents.len() == 0 || contents[0] is Err {
        0
    } else {
        1 + first_failure(contents.skip(1))
    }
}

/// Whether every file has a file name to be sent under.
pub open spec fn all_named(files: Seq<FileUploadView>) -> bool {
    forall|i: int| 0 <= i < files.len() ==> path_file_name((#[trigger] files[i]).path) is Some
}

/// The media type a file is sent with: the one the caller stated, else the
/// one guessed from the path.
pub open spec fn content_type_of(file: FileUploadView) -> Seq<char> {
    match file.mime {
        Some(mime) => mime,
        None => guessed_mime(file.path),
    }
}

/// Whether `text` has the form of a generated boundary: thirty ASCII
/// letters and digits.
pub open spec fn is_boundary(text: Seq<char>) -> bool {
    &&& text.len() == BOUNDARY_LENGTH
    &&& forall|i: int| 0 <= i < text.len() ==> is_ascii_alphanumeric(#[trigger] text[i])
}

/// The line that opens a part, up to the closing quote of the field name:
/// `\r\n--<boundary>\r\nContent-Disposition: form-data; name="<name>"`.
pub open spec fn part_opening(boundary: Seq<char>, name: Seq<char>) -> Seq<u8> {
    encode_utf8("\r\n--"@) + encode_utf8(boundary) + encode_utf8("\r\n"@) + encode_utf8(
        "Content-Disposition: form-data; name=\""@,
    ) + encode_utf8(name) + encode_utf8("\""@)
}

/// The part for one param:
/// `<opening>\r\n\r\n<value>\r\n`.
pub open spec fn param_part(boundary: Seq<char>, pair: Pair) -> Seq<u8> {
    part_opening(boundary, pair.0) + encode_utf8("\r\n\r\n"@) + encode_utf8(pair.1) + encode_utf8(
        "\r\n"@,
    )
}

/// The part for one file:
/// `<opening>; filename="<file name>"\r\nContent-Type: <media type>\r\n\r\n<bytes>\r\n\r\n`.
pub open spec fn file_part(boundary: Seq<char>, file: FileUploadView, bytes: Seq<u8>) -> Seq<u8> {
    part_opening(boundary, file.name) + encode_utf8("; filename=\""@) + encode_utf8(
        path_file_name(file.path)->0,
    ) + encode_utf8("\""@) + encode_utf8("\r\nContent-Type: "@) + encode_utf8(
        content_type_of(file),
    ) + encode_utf8("\r\n\r\n"@) + bytes + encode_utf8("\r\n\r\n"@)
}

/// The line that closes the body: `\r\n--<boundary>--`.
pub open spec fn terminator(boundary: Seq<char>) -> Seq<u8> {
    encode_utf8("\r\n--"@) + encode_utf8(boundary) + encode_utf8("--"@)
}

/// The parts for the params, in their order.
pub open spec fn params_section(boundary: Seq<char>, params: Seq<Pair>) -> Seq<u8>
    decreases params.len(),
{
    if params.len() == 0 {
        Seq::empty()
    } else {
        params_section(boundary, params.drop_last()) + param_part(boundary, params.last())
    }
}

/// The parts for the files, in their order. `bytes` holds the bytes of
/// each file, at the file's position.
pub open spec fn files_section(
    boundary: Seq<char>,
    files: Seq<FileUploadView>,
    bytes: Seq<Seq<u8>>,
) -> Seq<u8>
    decreases files.len(),
{
    if files.len() == 0 {
        Seq::empty()
    } else {
        files_section(boundary, files.drop_last(), bytes) + file_part(
            boundary,
            files.last(),
            bytes[files.len() - 1],
        )
    }
}

/// A whole body: the params, the files, the closing line.
pub open spec fn multipart_body(
    boundary: Seq<char>,
    params: Seq<Pair>,
    files: Seq<FileUploadView>,
    bytes: Seq<Seq<u8>>,
) -> Seq<u8> {
    params_section(boundary, params) + files_section(boundary, files, bytes) + terminator(
        boundary,
    )
}

/// `first_failure` finds the failed read at `at` when every earlier read
/// succeeded.
pub proof fn lemma_first_failure_found(contents: Seq<FileContents>, at: int)
    requires
        0 <= at < contents.len(),
        contents[at] is Err,
        forall|j: int| 0 <= j < at ==> (#[trigger] contents[j]) is Ok,
    ensures
        first_failure(contents) == at,
    decreases at,
{
    if at > 0 {
        assert(contents[0] is Ok);
        assert forall|j: int| 0 <= j < at - 1 implies (#[trigger] contents.skip(1)[j]) is Ok by {
            assert(contents.skip(1)[j] == contents[j + 1]);
        }
        lemma_first_failure_found(contents.skip(1), at - 1);
    }
}

/// `first_failure` gives the number of files when every read succeeded.
pub proof fn lemma_first_failure_absent(contents: Seq<FileContents>)
    requires
        forall|j: int| 0 <= j < contents.len() ==> (#[trigger] contents[j]) is Ok,
    ensures
        first_failure(contents) == contents.len(),
    decreases contents.len(),
{
    if contents.len() > 0 {
        assert(contents[0] is Ok);
        assert forall|j: int| 0 <= j < contents.skip(1).len() implies (#[trigger] contents.skip(
            1,
        )[j]) is Ok by {
            assert(contents.skip(1)[j] == contents[j + 1]);
        }
        lemma_first_failure_absent(contents.skip(1));
    }
}

/// The section for the first `k + 1` files is the section for the first
/// `k` followed by the part for the file at `k`.
pub proof fn lemma_files_section_step(
    boundary: Seq<char>,
    files: Seq<FileUploadView>,
    bytes: Seq<Seq<u8>>,
    k: int,
)
    requires
        0 <= k < files.len(),
    ensures
        files_section(boundary, files.take(k + 1), bytes) == files_section(
            boundary,
            files.take(k),
            bytes,
        ) + file_part(boundary, files[k], bytes[k]),
{
    let next = files.take(k + 1);
    assert(next.drop_last() == files.take(k));
    assert(next.last() == files[k]);
}

/// The section for the first `k + 1` params is the section for the first
/// `k` followed by the part for the param at `k`.
pub proof fn lemma_params_section_step(boundary: Seq<char>, params: Seq<Pair>, k: int)
    requires
        0 <= k < params.len(),
    ensures
        params_section(boundary, params.take(k + 1)) == params_section(boundary, params.take(k))
            + param_part(boundary, params[k]),
{
    let next = params.take(k + 1);
    assert(next.drop_last() == params.take(k));
    assert(next.last() == params[k]);
}

/// Appending is associative.
proof fn lemma_append_twice(a: Seq<u8>, b: Seq<u8>, c: Seq<u8>)
    ensures
        (a + b) + c == a + (b + c),
{
    assert((a + b) + c =~= a + (b + c));
}

/// Appends the UTF-8 bytes of `text` to `buffer`.
pub fn append_text(buffer: &mut Vec<u8>, text: &str)
    ensures
        final(buffer)@ == old(buffer)@ + encode_utf8(text@),
{
    buffer.extend_from_slice(text.as_bytes());
    assert(buffer@ =~= old(buffer)@ + encode_utf8(text@));
}

/// Appends `bytes` to `buffer`.
pub fn append_bytes(buffer: &mut Vec<u8>, bytes: &Vec<u8>)
    ensures
        final(buffer)@ == old(buffer)@ + bytes@,
{
    buffer.extend_from_slice(bytes.as_slice());
    assert(buffer@ =~= old(buffer)@ + bytes@);
}

impl<'a> FileUpload<'a> {
    /// The name the file is sent under: the final component of its path,
    /// if the path has one.
    pub fn file_name(&self) -> (name: Option<String>)
        ensures
            match name {
                Some(text) => path_file_name(self@.path) == Some(text@),
                None => path_file_name(self@.path) is None,
            },
    {
        file_name_of(self.path)
    }

    /// The media type the file is sent with: the one stated, else the one
    /// guessed from the extension of the path.
    pub fn content_type(&self) -> (media_type: String)
        ensures
            media_type@ == content_type_of(self@),
    {
        match &self.mime {
            Some(mime) => mime.clone(),
            None => guess_mime(self.path),
        }
    }
}

/// Whether every file has a file name to be sent under.
pub fn every_file_named(files: &Vec<FileUpload>) -> (yes: bool)
    ensures
        yes == all_named(uploads_of(files@)),
{
    let mut k: usize = 0;
    while k < files.len()
        invariant
            k <= files.len(),
            forall|j: int|
                0 <= j < k ==> path_file_name((#[trigger] uploads_of(files@)[j]).path) is Some,
        decreases files.len() - k,
    {
        if files[k].file_name().is_none() {
            assert(uploads_of(files@)[k as int] == files@[k as int]@);
            return false;
        }
        assert(uploads_of(files@)[k as int] == files@[k as int]@);
        k += 1;
    }
    true
}

/// A multipart body under construction, and the boundary that delimits its
/// parts.
pub struct MultipartBodyBuilder {
    body: Vec<u8>,
    boundary: String,
}

/// A multipart body and its boundary, as values.
pub struct MultipartBody {
    pub boundary: Seq<char>,
    pub body: Seq<u8>,
}

impl View for MultipartBodyBuilder {
    type V = MultipartBody;

    closed spec fn view(&self) -> MultipartBody {
        MultipartBody { boundary: self.boundary@, body: self.body@ }
    }
}

/// What building gives, from a builder that holds `before`: the error of
/// the first file whose read failed, or else the body so far followed by
/// the parts for the params, the parts for the files and the closing line.
pub open spec fn built(
    before: MultipartBody,
    files: Seq<FileUploadView>,
    params: Seq<Pair>,
    contents: Seq<FileContents>,
) -> Result<MultipartBody, CursError> {
    let at = first_failure(contents);
    if 0 <= at < contents.len() {
        Err(CursError::Network(NetworkError::Io(contents[at]->Err_0)))
    } else {
        Ok(
            MultipartBody {
                boundary: before.boundary,
                body: before.body + multipart_body(
                    before.boundary,
                    params,
                    files,
                    bytes_of(contents),
                ),
            },
        )
    }
}

/// Whether `outcome` is what `built` describes.
pub open spec fn is_built(
    outcome: Result<MultipartBodyBuilder, CursError>,
    before: MultipartBody,
    files: Seq<FileUploadView>,
    params: Seq<Pair>,
    contents: Seq<FileContents>,
) -> bool {
    match outcome {
        Ok(builder) => built(before, files, params, contents) == Ok::<MultipartBody, CursError>(
            builder@,
        ),
        Err(error) => built(before, files, params, contents) == Err::<MultipartBody, CursError>(
            error,
        ),
    }
}

/// The bytes that a successful read gave.
pub fn bytes_read(outcome: &FileContents) -> (bytes: &Vec<u8>)
    requires
        outcome is Ok,
    ensures
        *bytes == outcome->Ok_0,
{
    match outcome {
        Ok(bytes) => bytes,
        Err(_) => unreached(),
    }
}

/// Looks for the first file whose read failed: gives its error, or gives
/// the outcomes back where every read succeeded.
pub fn take_first_failure(contents: Vec<FileContents>) -> (outcome: Result<
    Vec<FileContents>,
    std::io::Error,
>)
    ensures
        match outcome {
            Ok(all) => {
                &&& all@ == contents@
                &&& first_failure(contents@) == contents@.len()
                &&& forall|j: int| 0 <= j < contents@.len() ==> (#[trigger] contents@[j]) is Ok
            },
            Err(cause) => {
                &&& 0 <= first_failure(contents@) < contents@.len()
                &&& contents@[first_failure(contents@)] == Err::<Vec<u8>, std::io::Error>(cause)
            },
        },
{
    let mut remaining = contents;
    let mut k: usize = 0;
    while k < remaining.len()
        invariant
            k <= remaining.len(),
            remaining@ == contents@,
            forall|j: int| 0 <= j < k ==> (#[trigger] contents@[j]) is Ok,
        decreases remaining.len() - k,
    {
        if remaining[k].is_err() {
            proof {
                lemma_first_failure_found(contents@, k as int);
            }
            let failed = remaining.remove(k);
            return match failed {
                Err(cause) => Err(cause),
                Ok(_) => unreached(),
            };
        }
        k += 1;
    }
    proof {
        lemma_first_failure_absent(contents@);
    }
    Ok(remaining)
}

impl MultipartBodyBuilder {
    /// A builder with an empty body and a fresh boundary of thirty random
    /// ASCII letters and digits. The boundary is not compared with anything
    /// that will be written.
    pub fn new() -> (builder: MultipartBodyBuilder)
        ensures
            builder@.body == Seq::<u8>::empty(),
            is_boundary(builder@.boundary),
    {
        MultipartBodyBuilder { body: Vec::new(), boundary: random_alphanumeric(BOUNDARY_LENGTH) }
    }

    /// A builder with an empty body and the boundary given.
    pub fn with_boundary(boundary: String) -> (builder: MultipartBodyBuilder)
        ensures
            builder@ == (MultipartBody { boundary: boundary@, body: Seq::empty() }),
    {
        MultipartBodyBuilder { body: Vec::new(), boundary }
    }

    /// The boundary.
    pub fn boundary(&self) -> (boundary: &str)
        ensures
            boundary@ == self@.boundary,
    {
        self.boundary.as_str()
    }

    /// The body as far as it is built.
    pub fn body(&self) -> (body: &Vec<u8>)
        ensures
            body@ == self@.body,
    {
        &self.body
    }

    /// The body, given up by the builder.
    pub fn into_body(self) -> (body: Vec<u8>)
        ensures
            body@ == self@.body,
    {
        self.body
    }

    /// Appends the opening of a part for the field `name`.
    fn open_part(&mut self, name: &str)
        ensures
            final(self)@.boundary == old(self)@.boundary,
            final(self)@.body == old(self)@.body + part_opening(old(self)@.boundary, name@),
    {
        append_text(&mut self.body, "\r\n--");
        append_text(&mut self.body, self.boundary.as_str());
        append_text(&mut self.body, "\r\n");
        append_text(&mut self.body, "Content-Disposition: form-data; name=\"");
        append_text(&mut self.body, name);
        append_text(&mut self.body, "\"");
        assert(self@.body =~= old(self)@.body + part_opening(old(self)@.boundary, name@));
    }

    /// Appends the part for one param.
    fn write_param(&mut self, name: &str, value: &str)
        ensures
            final(self)@.boundary == old(self)@.boundary,
            final(self)@.body == old(self)@.body + param_part(
                old(self)@.boundary,
                (name@, value@),
            ),
    {
        self.open_part(name);
        append_text(&mut self.body, "\r\n\r\n");
        append_text(&mut self.body, value);
        append_text(&mut self.body, "\r\n");
        assert(self@.body =~= old(self)@.body + param_part(old(self)@.boundary, (name@, value@)));
    }

    /// Appends the part for one file.
    fn write_file(&mut self, file: &FileUpload, bytes: &Vec<u8>)
        requires
            path_file_name(file@.path) is Some,
        ensures
            final(self)@.boundary == old(self)@.boundary,
            final(self)@.body == old(self)@.body + file_part(old(self)@.boundary, file@, bytes@),
    {
        let file_name = match file.file_name() {
            Some(name) => name,
            None => unreached(),
        };
        let media_type = file.content_type();
        self.open_part(file.name.as_str());
        append_text(&mut self.body, "; filename=\"");
        append_text(&mut self.body, file_name.as_str());
        append_text(&mut self.body, "\"");
        append_text(&mut self.body, "\r\nContent-Type: ");
        append_text(&mut self.body, media_type.as_str());
        append_text(&mut self.body, "\r\n\r\n");
        append_bytes(&mut self.body, bytes);
        append_text(&mut self.body, "\r\n\r\n");
        assert(self@.body =~= old(self)@.body + file_part(old(self)@.boundary, file@, bytes@));
    }

    /// Appends the closing line.
    fn close(&mut self)
        ensures
            final(self)@.boundary == old(self)@.boundary,
            final(self)@.body == old(self)@.body + terminator(old(self)@.boundary),
    {
        append_text(&mut self.body, "\r\n--");
        append_text(&mut self.body, self.boundary.as_str());
        append_text(&mut self.body, "--");
        assert(self@.body =~= old(self)@.body + terminator(old(self)@.boundary));
    }

    /// Appends the parts for the params.
    fn write_params(&mut self, params: &Vec<Param>)
        ensures
            final(self)@.boundary == old(self)@.boundary,
            final(self)@.body == old(self)@.body + params_section(
                old(self)@.boundary,
                pairs_of(params@),
            ),
    {
        let ghost boundary = self@.boundary;
        let ghost start = self@.body;
        let ghost pairs = pairs_of(params@);
        assert(self@.body =~= start + params_section(boundary, pairs.take(0)));
        let mut i: usize = 0;
        while i < params.len()
            invariant
                i <= params.len(),
                pairs == pairs_of(params@),
                self@.boundary == boundary,
                self@.body == start + params_section(boundary, pairs.take(i as int)),
            decreases params.len() - i,
        {
            let ghost written = params_section(boundary, pairs.take(i as int));
            self.write_param(params[i].0, params[i].1);
            proof {
                assert(pairs[i as int] == (params@[i as int].0@, params@[i as int].1@));
                lemma_params_section_step(boundary, pairs, i as int);
                lemma_append_twice(start, written, param_part(boundary, pairs[i as int]));
            }
            i += 1;
        }
        assert(pairs.take(i as int) == pairs);
    }

    /// Appends the parts for the files, whose reads all succeeded.
    fn write_files(&mut self, files: &Vec<FileUpload>, contents: &Vec<FileContents>)
        requires
            contents.len() == files.len(),
            all_named(uploads_of(files@)),
            forall|j: int| 0 <= j < contents.len() ==> (#[trigger] contents[j]) is Ok,
        ensures
            final(self)@.boundary == old(self)@.boundary,
            final(self)@.body == old(self)@.body + files_section(
                old(self)@.boundary,
                uploads_of(files@),
                bytes_of(contents@),
            ),
    {
        let ghost boundary = self@.boundary;
        let ghost start = self@.body;
        let ghost uploads = uploads_of(files@);
        let ghost bytes = bytes_of(contents@);
        assert(self@.body =~= start + files_section(boundary, uploads.take(0), bytes));
        let mut k: usize = 0;
        while k < files.len()
            invariant
                k <= files.len(),
                contents.len() == files.len(),
                uploads == uploads_of(files@),
                bytes == bytes_of(contents@),
                all_named(uploads),
                forall|j: int| 0 <= j < contents.len() ==> (#[trigger] contents[j]) is Ok,
                self@.boundary == boundary,
                self@.body == start + files_section(boundary, uploads.take(k as int), bytes),
            decreases files.len() - k,
        {
            let ghost written = files_section(boundary, uploads.take(k as int), bytes);
            let read = bytes_read(&contents[k]);
            assert(uploads[k as int] == files@[k as int]@);
            assert(bytes[k as int] == read@);
            self.write_file(&files[k], read);
            proof {
                lemma_files_section_step(boundary, uploads, bytes, k as int);
                lemma_append_twice(
                    start,
                    written,
                    file_part(boundary, uploads[k as int], bytes[k as int]),
                );
            }
            k += 1;
        }
        assert(uploads.take(k as int) == uploads);
    }

    /// Writes the body for `params` and `files`, which are only read.
    pub(crate) fn fill(
        self,
        files: &Vec<FileUpload>,
        params: &Vec<Param>,
        contents: Vec<FileContents>,
    ) -> (outcome: Result<MultipartBodyBuilder, CursError>)
        requires
            contents.len() == files.len(),
            all_named(uploads_of(files@)),
        ensures
            is_built(outcome, self@, uploads_of(files@), pairs_of(params@), contents@),
    {
        let ghost before = self@;
        let ghost pairs = pairs_of(params@);
        let ghost uploads = uploads_of(files@);
        let ghost bytes = bytes_of(contents@);
        match take_first_failure(contents) {
            Err(cause) => Err(CursError::from(cause)),
            Ok(read) => {
                let mut builder = self;
                builder.write_params(params);
                builder.write_files(files, &read);
                builder.close();
                proof {
                    let fields = params_section(before.boundary, pairs);
                    let parts = files_section(before.boundary, uploads, bytes);
                    let end = terminator(before.boundary);
                    lemma_append_twice(before.body, fields, parts);
                    lemma_append_twice(before.body, fields + parts, end);
                }
                Ok(builder)
            },
        }
    }

    /// Builds the body: a part for each param, in the order given, then a
    /// part for each file, in the order given, then the closing line.
    /// `contents` holds, at the position of each file, what reading that
    /// file gave. A read that failed fails the whole build, with the error
    /// of the first such file as a network error.
    pub fn build<'a>(
        self,
        files: Vec<FileUpload>,
        params: Vec<Param<'a>>,
        contents: Vec<FileContents>,
    ) -> (outcome: Result<MultipartBodyBuilder, CursError>)
        requires
            contents.len() == files.len(),
            all_named(uploads_of(files@)),
        ensures
            is_built(outcome, self@, uploads_of(files@), pairs_of(params@), contents@),
    {
        self.fill(&files, &params, contents)
    }

    /// Builds the body if it can be built, and says so if not: `None`
    /// where a file has no read outcome or no file name.
    pub fn try_build<'a>(
        self,
        files: Vec<FileUpload>,
        params: Vec<Param<'a>>,
        contents: Vec<FileContents>,
    ) -> (outcome: Option<Result<MultipartBodyBuilder, CursError>>)
        ensures
            outcome is Some <==> contents.len() == files.len() && all_named(uploads_of(files@)),
            outcome matches Some(result) ==> is_built(
                result,
                self@,
                uploads_of(files@),
                pairs_of(params@),
                contents@,
            ),
    {
        if contents.len() == files.len() && every_file_named(&files) {
            Some(self.build(files, params, contents))
        } else {
            None
        }
    }
}

} // verus!
