use http_server_lib::http1::types::tokens::Text;
use http_server_lib::http_types::status::HttpStatus;
use http_server_lib::protocol::http1::response::response_head;
use http_server_lib::request::TextMap;
use http_server_lib::http1::types::uri::UriError;
use http_server_lib::http_types::version::Version;
use http_server_lib::protocol::http1::request::{parse_request, BuildError};
use http_server_lib::protocol::http1::types::ParseStreamError;

fn text(s: &str) -> Text {
    Text::from(&s.as_bytes().to_vec())
}

#[test]
fn reads_start_line_and_headers() {
    let buf = b"GET\t/a\tHTTP/1.1\r\nHost: x\r\nA: b : c\r\n\r\nbody";
    match parse_request(buf, Some("GET")) {
        Ok((method, uri, version, headers)) => {
            assert_eq!(method, "GET");
            assert_eq!(uri.to_string(), "/a");
            assert_eq!(version, Version { major: 1, minor: 1 });
            assert_eq!(
                headers,
                vec![
                    (String::from("Host"), String::from("x")),
                    (String::from("A"), String::from("b")),
                ]
            );
        }
        Err(e) => panic!("{}", e.to_string()),
    }
}

#[test]
fn headers_stop_at_the_last_complete_line() {
    let buf = b"PUT\t/\tHTTP/1.0\r\nHost: y\r\nPartial: z";
    let (_, _, version, headers) = parse_request(buf, Some(7u8)).ok().unwrap();
    assert_eq!(version, Version { major: 1, minor: 0 });
    assert_eq!(headers, vec![(String::from("Host"), String::from("y"))]);
}

#[test]
fn request_refusals() {
    assert!(matches!(parse_request::<u8>(b"", Some(1)), Err(BuildError::EmptyRequest)));
    assert!(matches!(parse_request::<u8>(b"partial", Some(1)), Err(BuildError::EmptyRequest)));
    assert!(matches!(
        parse_request::<u8>(b"G\xffT\t/\tHTTP/1.1\r\n", Some(1)),
        Err(BuildError::ParseError(ParseStreamError::ParseError(1)))
    ));
    assert!(matches!(parse_request::<u8>(b"GET\t/\r\n\r\n", Some(1)), Err(BuildError::MissingVersion(1, _))));
    assert!(matches!(parse_request::<u8>(b"FOO\t/\tHTTP/1.1\r\n", None), Err(BuildError::InvalidMethod(m)) if m == "FOO"));
    assert!(matches!(parse_request::<u8>(b"GET\t/\tHTTP/x\r\n", Some(1)), Err(BuildError::InvalidVersion(v)) if v == "HTTP/x"));
    assert!(matches!(parse_request::<u8>(b"\r\n", Some(1)), Err(BuildError::MissingMethod)));
    assert!(matches!(parse_request::<u8>(b"GET\r\n", Some(1)), Err(BuildError::MissingUri)));
    assert!(matches!(parse_request::<u8>(b"GET / HTTP/1.1\r\n", Some(1)), Err(BuildError::MissingUri)));
}

#[test]
fn error_messages() {
    assert_eq!(BuildError::<u8>::EmptyRequest.to_string(), "Empty Reqeust recieved!");
    assert_eq!(BuildError::<u8>::MissingMethod.to_string(), "Missing Method at start of request!");
    assert_eq!(BuildError::<u8>::MissingUri.to_string(), "Uri missing from request!");
    assert_eq!(
        BuildError::<u8>::InvalidMethod(String::from("FOO")).to_string(),
        "FOO is not a valid method!"
    );
    assert_eq!(
        BuildError::<u8>::InvalidVersion(String::from("HTTP/x")).to_string(),
        "HTTP/x is not a valid version!"
    );
    assert_eq!(
        BuildError::<u8>::Http0GetMethodOnly.to_string(),
        "Only absolute paths are allowed in http/0.9 requests!"
    );
    assert_eq!(
        BuildError::<u8>::ParseError(ParseStreamError::ParseError(12)).to_string(),
        "Invalid character found at: 12!"
    );
    assert_eq!(ParseStreamError::BufferTaken.to_string(), "Stream Buffer is taken!");
    assert_eq!(UriError::SyntaxError("Bad uri!").to_string(), "Bad uri!");
    assert_eq!(
        UriError::InvalidPort(text("99999")).to_string(),
        "Invalid Port Number: 99999!"
    );
    assert_eq!(
        BuildError::<u8>::InvalidUri(UriError::InvalidPort(text("x1"))).to_string(),
        "Invalid Port Number: x1!"
    );
    let io = std::io::Error::new(std::io::ErrorKind::Other, "broken pipe");
    assert_eq!(BuildError::<u8>::IoError(io).to_string(), "broken pipe");
}

#[test]
fn response_heads_by_version() {
    let mut headers = TextMap::new();
    headers.insert(String::from("Content-Type"), String::from("text/html"));
    headers.insert(String::from("Content-Length"), String::from("12"));
    assert_eq!(
        response_head(&Version { major: 1, minor: 1 }, &HttpStatus::NotFound, &headers),
        "HTTP/1.1 404 NOT FOUND\r\nContent-Type: text/html\r\nContent-Length: 12\r\n\r\n"
    );
    assert_eq!(
        response_head(&Version { major: 1, minor: 0 }, &HttpStatus::OkStatus, &TextMap::new()),
        "HTTP/1.0 200 OK\r\n\r\n"
    );
    assert_eq!(response_head(&Version { major: 0, minor: 9 }, &HttpStatus::OkStatus, &headers), "");
}
