use http_server_lib::error::HttpErrorKind;
use http_server_lib::http_types::status::HttpStatus;
use http_server_lib::http_types::headers::MediaType;
use http_server_lib::http_types::version::Version;
use http_server_lib::http1::types::tokens::{tokenize, Text, Tokens, Tokenizer, Seperator};
use http_server_lib::http1::types::uri::{Authority, AbsPath, Uri};
use http_server_lib::http1::types::version::parse_version;
use http_server_lib::protocol::http1::types::split_chunks;
use http_server_lib::json::{JsonValue, JsonObject, JsonRef};
use http_server_lib::server::queue::Queue;
use http_server_lib::request::TextMap;
use http_server_lib::response::Response;
use http_server_lib::server::task::TaskId;

fn text(s: &str) -> Text {
    Text::from(&s.as_bytes().to_vec())
}

fn separator_byte(s: &Seperator) -> u8 {
    for b in 0u8..128 {
        if Seperator::from(b as char).as_ref() == Some(s) {
            return b;
        }
    }
    panic!("every separator is an ASCII character");
}

#[test]
fn authority_written_out_reads_back() {
    for s in ["example.com", "me@example.com", "me@example.com:8080", "host:1"] {
        let a = Authority::parse(&text(s)).ok().unwrap();
        let written = a.to_string();
        assert_eq!(written, s);
        let again = Authority::parse(&text(&written)).ok().unwrap();
        assert_eq!(again.to_string(), written);
    }
}

#[test]
fn path_written_out_reads_back() {
    for s in ["/", "/a", "/a/b/c", "/index.html"] {
        let p = AbsPath::parse(&text(s)).ok().unwrap();
        let written = p.to_string();
        assert_eq!(written, s);
        let u = Uri::parse(&text(&written)).ok().unwrap();
        assert_eq!(u.to_string(), written);
    }
}

#[test]
fn version_written_out_reads_back() {
    for (major, minor) in [(1u8, 1u8), (1, 0), (2, 0), (9, 9), (0, 0)] {
        let v = Version { major, minor };
        let written = v.to_string();
        assert_eq!(parse_version(&text(&written)), Ok(v));
    }
}

#[test]
fn version_with_two_digits_does_not_read_back() {
    let v = Version { major: 10, minor: 1 };
    assert_eq!(v.to_string(), "HTTP/10.1");
    assert_ne!(parse_version(&text(&v.to_string())), Ok(v));
}

#[test]
fn media_type_written_out_reads_back() {
    for s in ["text/html", "application/json", "*/*", "image/*"] {
        assert_eq!(MediaType::from(s).to_string(), s);
    }
}

#[test]
fn chunks_put_back_together_give_the_bytes() {
    let buf: &[u8] = b"GET / HTTP/1.1\r\nHost: x\r\n\r\nrest";
    let (chunks, used) = split_chunks(buf).ok().unwrap();
    let mut joined: Vec<u8> = Vec::new();
    for c in chunks.iter() {
        let line = c.decode();
        assert!(!line.contains("\r\n"));
        joined.extend_from_slice(line.as_bytes());
        joined.extend_from_slice(b"\r\n");
    }
    assert_eq!(used, 27);
    assert_eq!(joined, buf[..used].to_vec());
}

#[test]
fn tokens_keep_every_byte_but_the_breaks() {
    let t = text("ab:c\td/e f");
    let mut joined: Vec<u8> = Vec::new();
    for tok in tokenize(&t) {
        match tok {
            Tokens::Text(x) => joined.extend_from_slice(x.as_bytes()),
            Tokens::Seperator(s) => joined.push(separator_byte(&s)),
        }
    }
    assert_eq!(joined, b"ab:cd/e f".to_vec());
}

#[test]
fn truthy_and_falsy_are_complements() {
    let values = vec![
        JsonValue::Boolean(true),
        JsonValue::Boolean(false),
        JsonValue::Integer(0),
        JsonValue::Integer(-3),
        JsonValue::Array(vec![]),
        JsonValue::Array(vec![JsonValue::Integer(1)]),
        JsonValue::Object(None),
        JsonValue::Object(Some(JsonObject::new())),
        JsonValue::Undefined,
    ];
    for v in values.iter() {
        assert_eq!(v.falsy(), !v.truthy());
        assert_eq!(v.to_ref().falsy(), !v.to_ref().truthy());
    }
    for c in ['a', ' ', '0'] {
        assert_eq!(JsonRef::Char(c).falsy(), !JsonRef::Char(c).truthy());
    }
}

#[test]
fn error_kinds_classify_their_own_codes() {
    for code in [400u16, 401, 403, 404, 405, 408, 500, 501, 503, 505] {
        let kind = HttpErrorKind::from(code);
        assert_eq!(kind.code(), code);
        assert_eq!(HttpErrorKind::from(kind.code()).as_str(), kind.as_str());
    }
    for code in [0u16, 150, 299, 399, 499, 999] {
        let kind = HttpErrorKind::from(code);
        assert_eq!(HttpErrorKind::from(kind.code()).code(), kind.code());
    }
}

#[test]
fn statuses_agree_with_error_kinds() {
    let s = HttpStatus::NotFound;
    let k = HttpErrorKind::from(s.code());
    assert_eq!(k.code(), s.code());
    assert_eq!(k.as_str(), s.as_str());
}

#[test]
fn queue_gives_ids_back_in_order() {
    let mut q = Queue::new(2);
    assert_eq!(q.push(TaskId(7)), Ok(()));
    assert_eq!(q.push(TaskId(3)), Ok(()));
    assert_eq!(q.pop(), Some(TaskId(7)));
    assert_eq!(q.pop(), Some(TaskId(3)));
    assert_eq!(q.pop(), None);
}

#[test]
fn maps_give_back_what_was_set() {
    let mut m = TextMap::new();
    m.insert(String::from("a"), String::from("1"));
    m.insert(String::from("b"), String::from("2"));
    m.insert(String::from("a"), String::from("3"));
    assert_eq!(m.get("a"), Some("3"));
    assert_eq!(m.get("b"), Some("2"));
    assert_eq!(m.get("c"), None);
    assert_eq!(m.len(), 2);
    let mut r = Response::new();
    assert!(r.set_header("Content-Type", "text/plain").is_ok());
    assert_eq!(r.get_header("Content-Type"), "text/plain");
    let _ = r.send_headers();
    assert!(r.set_header("Content-Type", "text/html").is_err());
    assert_eq!(r.get_header("Content-Type"), "text/plain");
}
