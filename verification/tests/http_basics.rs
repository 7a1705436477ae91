use http_server_lib::error::{HttpError, HttpErrorKind};
use http_server_lib::http_status::get_message;
use http_server_lib::http_types::status::HttpStatus;
use http_server_lib::http_types::version::Version;
use http_server_lib::http_types::headers::{HeaderType, MediaType, Charset, parse_charset};
use http_server_lib::http_types::request::BodyDataType;
use http_server_lib::router::status::{next, error};

#[test]
fn error_kind_from_code_and_back() {
    let kind = HttpErrorKind::from(404);
    assert_eq!(kind.as_str(), "NOT FOUND");
    assert_eq!(kind.code(), 404);
    assert_eq!(HttpErrorKind::from(999).as_str(), "INTERNAL SERVER ERROR");
    assert_eq!(HttpErrorKind::from(150).as_str(), "UNKOWN");
}

#[test]
fn error_message_falls_back_to_reason_phrase() {
    let e = HttpError::new(HttpErrorKind::NotFound, String::new());
    assert_eq!(e.message(), "NOT FOUND");
    assert_eq!(e.code(), 404);
    assert_eq!(e.to_string(), "404: NOT FOUND");
    let e = HttpError::new(HttpErrorKind::BadRequest, String::from("no"));
    assert_eq!(e.message(), "no");
    assert_eq!(e.to_string(), "400: no");
}

#[test]
fn status_messages_keep_their_quirks() {
    assert_eq!(get_message(404), "NOT FOUND");
    assert_eq!(get_message(405), "METHOD NOT ALLOWED");
    assert_eq!(get_message(500), "INTERNAL SERVER ERROR");
}

#[test]
fn status_names_and_codes() {
    assert_eq!(HttpStatus::NotFound.code(), 404);
    assert_eq!(HttpStatus::NotFound.as_str(), "NOT FOUND");
    assert_eq!(HttpStatus::OkStatus.code(), HttpErrorKind::OkStatus.code());
}

#[test]
fn version_written_out() {
    let v = Version { major: 1, minor: 1 };
    assert_eq!(v.to_string(), "HTTP/1.1");
    let v = Version { major: 0, minor: 9 };
    assert_eq!(v.to_string(), "HTTP/0.9");
}

#[test]
fn media_types() {
    let m = MediaType::from("text/html");
    assert_eq!(m.to_string(), "text/html");
    assert!(matches!(m.0, HeaderType::Text("text")));
    assert!(matches!(m.1, HeaderType::Text("html")));
    assert_eq!(MediaType::from("text").to_string(), "text/*");
    assert_eq!(MediaType::from("").to_string(), "*/*");
    assert_eq!(MediaType::new().to_string(), "*/*");
    assert_eq!(MediaType::from("a/b/c").to_string(), "a/b/c");
    assert!(matches!(MediaType::from("a/b/c").1, HeaderType::Text("b/c")));
    let h = HeaderType::Text("image/png");
    assert_eq!(MediaType::from_header(&h).to_string(), "image/png");
    assert_eq!(MediaType::from_header(&HeaderType::WildCard).to_string(), "*/*");
}

#[test]
fn charset_defaults_to_any() {
    let c = Charset::new();
    assert_eq!(c.charset.as_str(), "*");
    assert!(c.q.is_none());
}

#[test]
fn body_data_parts() {
    let f = BodyDataType::new_file("a.txt", "text/plain", b"hi");
    let data = f.file().unwrap();
    assert_eq!(data.name, "a.txt");
    assert_eq!(data.mimetype, "text/plain");
    assert_eq!(data.data, b"hi".to_vec());
    assert!(f.value().is_none());
    let v = BodyDataType::new("x");
    assert!(v.file().is_none());
    assert_eq!(v.value().unwrap().type_of(), "string");
}

#[test]
fn router_status_outcomes() {
    assert!(matches!(next(), Ok(None)));
    let e = HttpError::new(HttpErrorKind::Forbidden, String::from("stop"));
    match error(e) {
        Ok(Some(err)) => assert_eq!(err.message(), "stop"),
        _ => panic!("expected an error"),
    }
}

#[test]
fn charset_entries() {
    let (c, q) = parse_charset("utf-8;q=0.5");
    assert!(matches!(c, HeaderType::Text("utf-8")));
    assert_eq!(q, Some(String::from("0.5")));
    let (c, q) = parse_charset("*");
    assert!(matches!(c, HeaderType::WildCard));
    assert!(q.is_none());
    let (_, q) = parse_charset("latin1; q = 1 ;x");
    assert_eq!(q, Some(String::from("1")));
    let (_, q) = parse_charset("latin1;level=1");
    assert!(q.is_none());
}

#[test]
fn messages_agree_with_error_kinds() {
    for code in 0u16..1000 {
        assert_eq!(get_message(code), HttpErrorKind::from(code).as_str());
    }
}

#[test]
fn reason_phrases_tell_kinds_apart() {
    let mut seen: Vec<(&str, u16)> = Vec::new();
    for code in 0u16..1000 {
        let kind = HttpErrorKind::from(code);
        for (name, c) in seen.iter() {
            if *name == kind.as_str() {
                assert_eq!(*c, kind.code());
            }
        }
        seen.push((kind.as_str(), kind.code()));
    }
    assert_eq!(HttpErrorKind::MethodNotAllowed.as_str(), "METHOD NOT ALLOWED");
    assert_eq!(HttpErrorKind::Unknown.as_str(), "UNKOWN");
}
