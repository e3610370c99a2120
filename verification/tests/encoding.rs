use curs::multipart::every_file_named;
use curs::response::{body_text, decoded};
use curs::{
    encode_params, BodyKind, CursError, CursResult, DecodableResult, FileContents, FileUpload,
    Headers, Method, MultipartBodyBuilder, NetworkError, Request, Response,
};

fn pairs_back(text: &str) -> Vec<(String, String)> {
    url::form_urlencoded::parse(text.as_bytes()).into_owned().collect()
}

fn text(bytes: &[u8]) -> String {
    String::from_utf8(bytes.to_vec()).unwrap()
}

fn not_found() -> std::io::Error {
    std::io::Error::new(std::io::ErrorKind::NotFound, "no such file")
}

fn number(text: &str) -> Result<u64, serde_json::Error> {
    serde_json::from_str(text)
}

#[test]
fn params_are_joined_in_order() {
    assert_eq!(encode_params(&vec![]), "");
    assert_eq!(encode_params(&vec![("one", "value_one")]), "one=value_one");
    assert_eq!(
        encode_params(&vec![("one", "value_one"), ("two", "value_two")]),
        "one=value_one&two=value_two"
    );
    assert_eq!(encode_params(&vec![("a", "1"), ("a", "2"), ("", "")]), "a=1&a=2&=");
}

#[test]
fn params_are_percent_encoded() {
    assert_eq!(encode_params(&vec![("a b", "c&d=e?")]), "a+b=c%26d%3De%3F");
    assert_eq!(encode_params(&vec![("*-._", "~+%/")]), "*-._=%7E%2B%25%2F");
    assert_eq!(encode_params(&vec![("k", "\u{e9}\u{20ac}")]), "k=%C3%A9%E2%82%AC");
    assert_eq!(encode_params(&vec![("k", "\r\n\u{0}")]), "k=%0D%0A%00");
}

#[test]
fn encoded_params_decode_to_the_pairs_given() {
    let params = vec![
        ("one", "value_one"),
        ("a b", "c&d=e"),
        ("dup", "1"),
        ("dup", "2"),
        ("", ""),
        ("\u{e9}", "100% + \u{20ac}?"),
    ];
    let back = pairs_back(&encode_params(&params));
    let given: Vec<(String, String)> =
        params.iter().map(|p| (p.0.to_string(), p.1.to_string())).collect();
    assert_eq!(back, given);
}

#[test]
fn headers_replace_by_name() {
    let mut headers = Headers::new();
    assert_eq!(headers.len(), 0);
    assert_eq!(headers.get("a"), None);
    headers.set("a".to_string(), "1".to_string());
    headers.set("b".to_string(), "2".to_string());
    headers.set("a".to_string(), "3".to_string());
    assert_eq!(headers.len(), 2);
    assert_eq!(headers.get("a"), Some("3"));
    assert_eq!(headers.get("b"), Some("2"));
    assert_eq!(headers.field(0), ("a", "3"));
    assert_eq!(headers.field(1), ("b", "2"));
    let copy = headers.clone();
    assert_eq!(copy.len(), 2);
    assert_eq!(copy.field(0), ("a", "3"));
}

#[test]
fn a_fresh_boundary_is_thirty_letters_and_digits() {
    let builder = MultipartBodyBuilder::new();
    assert_eq!(builder.boundary().len(), 30);
    assert!(builder.boundary().chars().all(|c| c.is_ascii_alphanumeric()));
    assert!(builder.body().is_empty());
    let other = MultipartBodyBuilder::new();
    assert_ne!(builder.boundary(), other.boundary());
}

#[test]
fn multipart_body_is_laid_out_exactly() {
    let files = vec![
        FileUpload { name: "first".to_string(), mime: None, path: "dir/shim.png" },
        FileUpload {
            name: "second".to_string(),
            mime: Some("text/x-potato".to_string()),
            path: "notes.unknown-kind",
        },
    ];
    let contents: Vec<FileContents> = vec![Ok(vec![0, 255, 13, 10]), Ok(b"hi".to_vec())];
    let built = MultipartBodyBuilder::with_boundary("XYZ".to_string())
        .build(files, vec![("one", "value_one"), ("two", "value_two")], contents)
        .unwrap();
    assert_eq!(built.boundary(), "XYZ");

    let mut expected: Vec<u8> = Vec::new();
    expected.extend_from_slice(
        b"\r\n--XYZ\r\nContent-Disposition: form-data; name=\"one\"\r\n\r\nvalue_one\r\n",
    );
    expected.extend_from_slice(
        b"\r\n--XYZ\r\nContent-Disposition: form-data; name=\"two\"\r\n\r\nvalue_two\r\n",
    );
    expected.extend_from_slice(
        b"\r\n--XYZ\r\nContent-Disposition: form-data; name=\"first\"; filename=\"shim.png\"\r\nContent-Type: image/png\r\n\r\n",
    );
    expected.extend_from_slice(&[0, 255, 13, 10]);
    expected.extend_from_slice(b"\r\n\r\n");
    expected.extend_from_slice(
        b"\r\n--XYZ\r\nContent-Disposition: form-data; name=\"second\"; filename=\"notes.unknown-kind\"\r\nContent-Type: text/x-potato\r\n\r\n",
    );
    expected.extend_from_slice(b"hi\r\n\r\n");
    expected.extend_from_slice(b"\r\n--XYZ--");
    assert_eq!(built.body(), &expected);
    assert_eq!(built.into_body(), expected);
}

#[test]
fn an_empty_multipart_body_is_the_closing_line() {
    let built = MultipartBodyBuilder::with_boundary("b".to_string())
        .build(vec![], vec![], vec![])
        .unwrap();
    assert_eq!(text(built.body()), "\r\n--b--");
}

#[test]
fn an_unknown_extension_is_sent_as_octet_stream() {
    let file = FileUpload { name: "f".to_string(), mime: None, path: "a/b/data.zzzunknown" };
    assert_eq!(file.content_type(), "application/octet-stream");
    assert_eq!(file.file_name(), Some("data.zzzunknown".to_string()));
    let plain = FileUpload { name: "f".to_string(), mime: None, path: "a/b/page.html" };
    assert_eq!(plain.content_type(), "text/html");
    let stated =
        FileUpload { name: "f".to_string(), mime: Some("a/b".to_string()), path: "x.png" };
    assert_eq!(stated.content_type(), "a/b");
}

#[test]
fn a_failed_read_fails_the_build() {
    let files = vec![
        FileUpload { name: "a".to_string(), mime: None, path: "a.txt" },
        FileUpload { name: "b".to_string(), mime: None, path: "b.txt" },
        FileUpload { name: "c".to_string(), mime: None, path: "c.txt" },
    ];
    let contents: Vec<FileContents> = vec![
        Ok(vec![1]),
        Err(not_found()),
        Err(std::io::Error::new(std::io::ErrorKind::PermissionDenied, "later")),
    ];
    let outcome = MultipartBodyBuilder::with_boundary("b".to_string()).build(
        files,
        vec![("one", "value_one")],
        contents,
    );
    match outcome {
        Err(CursError::Network(NetworkError::Io(cause))) => {
            assert_eq!(cause.kind(), std::io::ErrorKind::NotFound)
        }
        _ => panic!("no network error"),
    }
}

#[test]
fn a_path_without_a_file_name_cannot_be_built() {
    let nameless = vec![FileUpload { name: "a".to_string(), mime: None, path: "dir/.." }];
    assert!(!every_file_named(&nameless));
    assert_eq!(nameless[0].file_name(), None);
    let outcome = MultipartBodyBuilder::with_boundary("b".to_string()).try_build(
        nameless,
        vec![],
        vec![Ok(vec![])],
    );
    assert!(outcome.is_none());

    let unread = vec![FileUpload { name: "a".to_string(), mime: None, path: "a.txt" }];
    assert!(every_file_named(&unread));
    let outcome =
        MultipartBodyBuilder::with_boundary("b".to_string()).try_build(unread, vec![], vec![]);
    assert!(outcome.is_none());
}

#[test]
fn the_body_kind_follows_the_precedence() {
    let file = FileUpload { name: "f".to_string(), mime: None, path: "f.txt" };
    let mut request = Request::new(Method::Post, "http://example.com/");
    assert_eq!(request.body_kind(), BodyKind::Form);
    request.files(vec![file.clone()]);
    assert_eq!(request.body_kind(), BodyKind::Multipart);
    request.override_body("raw".to_string());
    assert_eq!(request.body_kind(), BodyKind::Raw);

    let mut get = Request::new(Method::Get, "http://example.com/");
    get.files(vec![file.clone()]).params(vec![("a", "b")]);
    assert_eq!(get.body_kind(), BodyKind::Empty);
    let mut head = Request::new(Method::Head, "http://example.com/");
    head.files(vec![file]);
    assert_eq!(head.body_kind(), BodyKind::Empty);
    let put = Request::new(Method::Extension("PURGE".to_string()), "http://example.com/");
    assert_eq!(put.body_kind(), BodyKind::Form);
}

#[test]
fn get_and_head_put_params_in_the_query_and_drop_files() {
    for method in [Method::Get, Method::Head] {
        let mut request = Request::new(method, "http://example.com/find");
        request
            .params(vec![("q", "a b"), ("one", "value_one")])
            .files(vec![FileUpload { name: "f".to_string(), mime: None, path: "dir/.." }]);
        let prepared = request.try_send(vec![]).unwrap().unwrap();
        assert_eq!(prepared.url, "http://example.com/find?q=a+b&one=value_one");
        assert_eq!(prepared.url.matches('?').count(), 1);
        assert_eq!(prepared.body, None);
        assert_eq!(prepared.headers.len(), 0);
    }
    let bare = Request::new(Method::Get, "http://example.com/find");
    let prepared = bare.try_send(vec![]).unwrap().unwrap();
    assert_eq!(prepared.url, "http://example.com/find");
}

#[test]
fn the_url_is_sent_as_parsed() {
    let request = Request::new(Method::Post, "HTTP://Example.COM");
    let prepared = request.try_send(vec![]).unwrap().unwrap();
    assert_eq!(prepared.url, "http://example.com/");
    assert_eq!(prepared.headers.get("content-type"), Some("application/x-www-form-urlencoded"));
    assert_eq!(prepared.body, Some(vec![]));
}

#[test]
fn a_url_that_does_not_parse_cannot_be_sent() {
    let request = Request::new(Method::Get, "not a url");
    assert!(!request.can_send(&vec![]));
    assert!(request.try_send(vec![]).is_none());
    let fine = Request::new(Method::Get, "http://example.com/");
    assert!(fine.can_send(&vec![]));
}

#[test]
fn files_make_the_body_multipart() {
    let mut request = Request::new(Method::Post, "http://example.com/up");
    request.header("content-type", "text/plain").params(vec![("one", "value_one")]).files(vec![
        FileUpload { name: "shim.png".to_string(), mime: None, path: "tests/fixtures/shim.png" },
    ]);
    assert!(!request.can_send(&vec![]));
    let prepared = request.try_send(vec![Ok(b"PNG".to_vec())]).unwrap().unwrap();
    let media_type = prepared.headers.get("content-type").unwrap().to_string();
    let boundary = media_type.strip_prefix("multipart/form-data; boundary=").unwrap();
    assert_eq!(boundary.len(), 30);
    assert!(boundary.chars().all(|c| c.is_ascii_alphanumeric()));
    assert_eq!(prepared.headers.len(), 1);
    let expected = format!(
        "\r\n--{b}\r\nContent-Disposition: form-data; name=\"one\"\r\n\r\nvalue_one\r\n\
         \r\n--{b}\r\nContent-Disposition: form-data; name=\"shim.png\"; filename=\"shim.png\"\r\n\
         Content-Type: image/png\r\n\r\nPNG\r\n\r\n\r\n--{b}--",
        b = boundary
    );
    assert_eq!(text(&prepared.body.unwrap()), expected);
    assert_eq!(prepared.url, "http://example.com/up");
}

#[test]
fn send_with_uses_the_boundary_given() {
    let mut request = Request::new(Method::Put, "http://example.com/up");
    request.files(vec![FileUpload {
        name: "f".to_string(),
        mime: Some("text/plain".to_string()),
        path: "a.txt",
    }]);
    let contents: Vec<FileContents> = vec![Ok(b"x".to_vec())];
    assert!(request.can_send(&contents));
    let prepared =
        request.send_with(MultipartBodyBuilder::with_boundary("B0".to_string()), contents).unwrap();
    assert_eq!(prepared.headers.get("content-type"), Some("multipart/form-data; boundary=B0"));
    assert_eq!(
        text(&prepared.body.unwrap()),
        "\r\n--B0\r\nContent-Disposition: form-data; name=\"f\"; filename=\"a.txt\"\r\n\
         Content-Type: text/plain\r\n\r\nx\r\n\r\n\r\n--B0--"
    );
    assert_eq!(prepared.method, Method::Put);
}

#[test]
fn a_failed_read_fails_the_request() {
    let mut request = Request::new(Method::Post, "http://example.com/up");
    request.files(vec![FileUpload { name: "f".to_string(), mime: None, path: "gone.txt" }]);
    match request.try_send(vec![Err(not_found())]).unwrap() {
        Err(CursError::Network(NetworkError::Io(cause))) => {
            assert_eq!(cause.kind(), std::io::ErrorKind::NotFound)
        }
        _ => panic!("no network error"),
    }
}

#[test]
fn json_after_files_sends_the_json_and_ignores_the_files() {
    let mut request = Request::new(Method::Post, "http://example.com/up");
    request
        .files(vec![FileUpload { name: "f".to_string(), mime: None, path: "gone.txt" }])
        .params(vec![("one", "value_one")])
        .json(r#"{"foo":"this"}"#.to_string());
    assert_eq!(request.body_kind(), BodyKind::Raw);
    let prepared = request.try_send(vec![]).unwrap().unwrap();
    assert_eq!(text(&prepared.body.unwrap()), r#"{"foo":"this"}"#);
    assert_eq!(prepared.headers.get("content-type"), Some("application/json"));
    assert_eq!(prepared.url, "http://example.com/up");
}

#[test]
fn the_last_raw_body_wins_and_keeps_the_json_content_type() {
    let mut request = Request::new(Method::Post, "http://example.com/");
    request.json("{}".to_string()).override_body("plain".to_string());
    let prepared = request.try_send(vec![]).unwrap().unwrap();
    assert_eq!(text(&prepared.body.unwrap()), "plain");
    assert_eq!(prepared.headers.get("content-type"), Some("application/json"));

    let mut get = Request::new(Method::Get, "http://example.com/");
    get.override_body("sent anyway".to_string()).params(vec![("a", "b")]);
    let prepared = get.try_send(vec![]).unwrap().unwrap();
    assert_eq!(text(&prepared.body.unwrap()), "sent anyway");
    assert_eq!(prepared.url, "http://example.com/?a=b");
}

#[test]
fn params_and_files_add_up() {
    let mut request = Request::new(Method::Post, "http://example.com/");
    request.params(vec![("a", "1")]).params(vec![("b", "2"), ("a", "3")]);
    let prepared = request.clone().try_send(vec![]).unwrap().unwrap();
    assert_eq!(text(&prepared.body.unwrap()), "a=1&b=2&a=3");
    request.header("x", "1").header("x", "2");
    let prepared = request.try_send(vec![]).unwrap().unwrap();
    assert_eq!(prepared.headers.get("x"), Some("2"));
    assert_eq!(prepared.headers.len(), 2);
}

#[test]
fn success_statuses_are_decoded() {
    for status in [200u16, 201, 202] {
        let received: CursResult<Response> =
            Ok(Response { status, headers: Headers::new(), body: b" 42 ".to_vec() });
        assert_eq!(received.decode_success(number).unwrap(), 42);
    }
}

#[test]
fn other_statuses_give_the_response_back() {
    for status in [100u16, 199, 203, 204, 301, 404, 500, 0, 65535] {
        let mut headers = Headers::new();
        headers.set("x".to_string(), "y".to_string());
        let received: CursResult<Response> =
            Ok(Response { status, headers, body: b"42".to_vec() });
        match received.decode_success(number) {
            Err(CursError::Status(response)) => {
                assert_eq!(response.status, status);
                assert_eq!(response.body, b"42".to_vec());
                assert_eq!(response.headers.get("x"), Some("y"));
                assert!(!response.succeeded());
            }
            _ => panic!("no status error"),
        }
    }
}

#[test]
fn malformed_json_is_a_decode_error() {
    let received: CursResult<Response> =
        Ok(Response { status: 200, headers: Headers::new(), body: br#"{"foo":"#.to_vec() });
    let parse = |text: &str| serde_json::from_str::<serde_json::Value>(text);
    match received.decode_success(parse) {
        Err(CursError::Json(diagnostic)) => assert!(diagnostic.is_eof()),
        _ => panic!("no decode error"),
    }
    match decoded(number("nope")) {
        Err(CursError::Json(_)) => {}
        _ => panic!("no decode error"),
    }
    assert_eq!(decoded(number("7")).unwrap(), 7);
}

#[test]
fn a_body_that_is_not_text_is_a_network_error() {
    let received: CursResult<Response> =
        Ok(Response { status: 200, headers: Headers::new(), body: vec![0xFF, 0xFE] });
    match received.decode_success(number) {
        Err(CursError::Network(NetworkError::Io(cause))) => {
            assert_eq!(cause.kind(), std::io::ErrorKind::InvalidData)
        }
        _ => panic!("no network error"),
    }
    let text = body_text(Ok(Response {
        status: 202,
        headers: Headers::new(),
        body: "caf\u{e9}".as_bytes().to_vec(),
    }));
    assert_eq!(text.unwrap(), "caf\u{e9}");
}

#[test]
fn an_earlier_error_passes_through() {
    let received: CursResult<Response> = Err(CursError::from(not_found()));
    match received.decode_success(number) {
        Err(CursError::Network(NetworkError::Io(cause))) => {
            assert_eq!(cause.kind(), std::io::ErrorKind::NotFound)
        }
        _ => panic!("no network error"),
    }
    let transport = hyper::Error::from(not_found());
    match CursError::from(transport) {
        CursError::Network(NetworkError::Transport(_)) => {}
        _ => panic!("no transport error"),
    }
    let diagnostic = number("x").unwrap_err();
    match CursError::from(diagnostic) {
        CursError::Json(_) => {}
        _ => panic!("no decode error"),
    }
}
