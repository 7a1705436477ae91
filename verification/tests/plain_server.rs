use http_server_lib::request::{RequestHead, RequestError, TextMap};
use http_server_lib::response::{Response, ResponseError};

fn lines(v: &[&str]) -> Vec<String> {
    v.iter().map(|s| s.to_string()).collect()
}

#[test]
fn request_heads() {
    let head = match RequestHead::parse(&lines(&["GET /a/b?x=1&y=2&z HTTP/1.1\r\n", "Host: example.com\r\n", "Accept: a:b\r\n"])) {
        Ok(h) => h,
        Err(e) => panic!("{}", e.message()),
    };
    assert_eq!(head.method(), "GET");
    assert_eq!(head.path(), "/a/b");
    assert_eq!(head.header("Host"), "example.com");
    assert_eq!(head.header("Accept"), "a");
    assert_eq!(head.query("x"), Some("1"));
    assert_eq!(head.query("y"), Some("2"));
    assert_eq!(head.query("z"), None);
}

#[test]
fn request_head_refusals() {
    assert!(matches!(RequestHead::parse(&Vec::new()), Err(RequestError::NoHeaders)));
    assert!(matches!(RequestHead::parse(&lines(&["GET"])), Err(RequestError::Malformed)));
    assert!(matches!(RequestHead::parse(&lines(&["GET / HTTP/1.0"])), Err(RequestError::NotHttp)));
    assert!(RequestHead::try_parse(&lines(&["GET /"])).is_none());
    assert!(RequestHead::try_parse(&lines(&["GET / HTTP/1.1", "NoColon"])).is_none());
    assert_eq!(RequestError::NotHttp.message(), "Request is not an Http Request!");
}

#[test]
fn text_maps_override() {
    let mut m = TextMap::new();
    m.insert(String::from("a"), String::from("1"));
    m.insert(String::from("a"), String::from("2"));
    assert_eq!(m.len(), 1);
    assert_eq!(m.get("a"), Some("2"));
    assert_eq!(m.get("b"), None);
}

#[test]
fn response_heads() {
    let mut r = Response::new();
    assert!(r.status(404).is_ok());
    assert!(r.set_header("Content-Type", "text/plain").is_ok());
    assert_eq!(r.get_header("Content-Type"), "text/plain");
    assert!(!r.headers_sent());
    let head = r.send_headers();
    assert_eq!(head, "HTTP/1.1 404 NOT FOUND\r\nContent-Type: text/plain\r\n\r\n\r\n");
    assert!(r.headers_sent());
    assert_eq!(r.status(200), Err(ResponseError::HeadersSent));
    assert_eq!(r.set_header("X", "y"), Err(ResponseError::HeadersSent));
    assert_eq!(ResponseError::HeadersSent.message(), "Headers already sent!");
}
