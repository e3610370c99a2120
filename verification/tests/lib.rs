use curs::{
    CursError, CursResult, DecodableResult, FileContents, FileUpload, Headers, Method, Prepared,
    Request, Response,
};

#[derive(Debug, PartialEq)]
struct DummyJson {
    foo: String,
}

// Parses `{"foo": <text>}`; anything else is a JSON error.
fn dummy_json(text: &str) -> Result<DummyJson, serde_json::Error> {
    let fields: std::collections::BTreeMap<String, String> = serde_json::from_str(text)?;
    match fields.get("foo") {
        Some(foo) => Ok(DummyJson { foo: foo.clone() }),
        None => Err(<serde_json::Error as serde::de::Error>::missing_field("foo")),
    }
}

// The pattern with its backslash escapes resolved, as plain text.
fn plain(pattern: &str) -> String {
    let mut out = String::new();
    let mut chars = pattern.chars();
    while let Some(c) = chars.next() {
        if c == '\\' {
            match chars.next() {
                Some('r') => out.push('\r'),
                Some('n') => out.push('\n'),
                Some(other) => out.push(other),
                None => out.push('\\'),
            }
        } else {
            out.push(c);
        }
    }
    out
}

fn body_text(prepared: &Prepared) -> String {
    match &prepared.body {
        Some(bytes) => String::from_utf8_lossy(bytes).into_owned(),
        None => String::new(),
    }
}

fn got_path(prepared: &Prepared, pattern: &str) {
    assert!(prepared.url.contains(&plain(pattern)), "url was {}", prepared.url);
}

fn got_body(prepared: &Prepared, pattern: &str) {
    let body = body_text(prepared);
    assert!(body.contains(&plain(pattern)), "body was {:?}", body);
}

fn got_header(prepared: &Prepared, name: &str, pattern: &str) {
    let value = prepared.headers.get(name).unwrap_or_else(|| panic!("no header {}", name));
    assert!(value.contains(&plain(pattern)), "{} was {}", name, value);
}

fn reply(status: u16, body: &str) -> CursResult<Response> {
    Ok(Response { status, headers: Headers::new(), body: body.as_bytes().to_vec() })
}

fn sent(request: &Request, contents: Vec<FileContents>) -> Prepared {
    request.try_send(contents).expect("the request can be finalised").expect("no file failed")
}

#[test]
fn successful_multipart() {
    let url = "http://localhost:9501";
    let file = FileUpload {
        name: "shim.png".to_string(),
        mime: None,
        path: "tests/fixtures/test.png",
    };
    let png: Vec<u8> = vec![0x89, 0x50, 0x4E, 0x47, 0x0D, 0x0A, 0x1A, 0x0A, 0x00, 0xFF];

    let target = format!("{}/some_post", url);
    let mut request = Request::new(Method::Post, &target);
    request
        .params(vec![("one", "value_one"), ("two", "value_two")])
        .header("user-agent", "morcilla-firefox")
        .files(vec![file]);
    let prepared = sent(&request, vec![Ok(png.clone())]);

    got_path(&prepared, "/some_post");
    assert_eq!(prepared.method, Method::Post);
    got_header(&prepared, "content-type", "multipart/form-data; boundary");
    got_header(&prepared, "user-agent", "morcilla-firefox");
    got_body(&prepared, r"Content-Type: image/png");
    got_body(&prepared, r#"name="shim.png"; filename="test.png""#);
    got_body(&prepared, r#"Content-Disposition: form-data; name="two"\r\n\r\nvalue_two\r\n"#);
    let body = prepared.body.clone().unwrap();
    assert!(body.windows(png.len()).any(|w| w == &png[..]));

    let response: DummyJson =
        reply(200, r#"{"foo":"got files"}"#).decode_success(dummy_json).unwrap();
    assert_eq!(response, DummyJson { foo: "got files".to_string() });
}

#[test]
fn successful_json_get() {
    let url = "http://localhost:9502";
    let target = format!("{}/a_get", url);
    let mut request = Request::new(Method::Get, &target);
    request
        .params(vec![("one", "value_one"), ("two", "value_two")])
        .header("user-agent", "morcilla-firefox");
    let prepared = sent(&request, vec![]);

    got_path(&prepared, r"/a_get\?one=value_one&two=value_two");
    assert!(prepared.url.ends_with("?one=value_one&two=value_two"));
    assert_eq!(prepared.body, None);
    assert_eq!(prepared.method, Method::Get);
    got_header(&prepared, "user-agent", "morcilla-firefox");

    let response: DummyJson = reply(200, r#"{"foo":"bar"}"#).decode_success(dummy_json).unwrap();
    assert_eq!(response, DummyJson { foo: "bar".to_string() });
}

#[test]
fn successful_json_post() {
    let url = "http://localhost:9503";
    let target = format!("{}/some_post", url);
    let mut request = Request::new(Method::Post, &target);
    request.params(vec![("one", "value_one"), ("two", "value_two")]);
    let prepared = sent(&request, vec![]);

    got_path(&prepared, "/some_post");
    assert_eq!(prepared.method, Method::Post);
    got_body(&prepared, "one=value_one&two=value_two");
    assert_eq!(body_text(&prepared), "one=value_one&two=value_two");

    let response: DummyJson = reply(200, r#"{"foo":"that"}"#).decode_success(dummy_json).unwrap();
    assert_eq!(response, DummyJson { foo: "that".to_string() });
}

#[test]
fn successful_json_body_post() {
    let url = "http://localhost:9504";
    let mut thing = serde_json::Map::new();
    thing.insert("foo".to_string(), serde_json::Value::String("this".to_string()));
    let text = serde_json::to_string(&serde_json::Value::Object(thing)).unwrap();

    let target = format!("{}/see_this_json", url);
    let mut request = Request::new(Method::Post, &target);
    request
        .json(text)
        // Params are still given, to see that they are not used and break nothing.
        .params(vec![("one", "value_one"), ("two", "value_two")]);
    let prepared = sent(&request, vec![]);

    got_path(&prepared, "/see_this_json");
    assert_eq!(prepared.method, Method::Post);
    got_header(&prepared, "content-type", "application/json");
    got_body(&prepared, r#"\{"foo":"this"\}"#);
    assert_eq!(body_text(&prepared), r#"{"foo":"this"}"#);

    let response: DummyJson = reply(200, r#"{"foo":"that"}"#).decode_success(dummy_json).unwrap();
    assert_eq!(response, DummyJson { foo: "that".to_string() });
}

#[test]
fn successful_raw_body_post() {
    let url = "http://localhost:9505";
    let target = format!("{}/a_potato", url);
    let mut request = Request::new(Method::Post, &target);
    request
        .header("content-type", "application/potato")
        .override_body("A potato's body is delicious when fried".to_string());
    let prepared = sent(&request, vec![]);

    got_path(&prepared, "/a_potato");
    assert_eq!(prepared.method, Method::Post);
    got_header(&prepared, "content-type", "application/potato");
    got_body(&prepared, "A potato's body");
    assert_eq!(body_text(&prepared), "A potato's body is delicious when fried");

    let response: DummyJson =
        reply(200, r#"{"foo":"potato"}"#).decode_success(dummy_json).unwrap();
    assert_eq!(response, DummyJson { foo: "potato".to_string() });
}

#[test]
fn errors_out_with_not_found() {
    let url = "http://localhost:9506";
    let request = Request::new(Method::Get, url);
    let prepared = sent(&request, vec![]);
    assert_eq!(prepared.body, None);
    assert_eq!(prepared.method, Method::Get);

    let result: CursResult<DummyJson> = reply(500, "404 not found").decode_success(dummy_json);

    match result.unwrap_err() {
        CursError::Status(_) => {}
        _ => panic!("No status error"),
    }
}
