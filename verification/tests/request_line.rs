use http_server_lib::http1::types::tokens::{tokenize, split, Text, Tokens, Seperator, TokenError, TokenIterator};
use http_server_lib::http1::types::uri::{Uri, UriError, Authority, AbsPath, AbsUri, parse_port, UrlParts};
use http_server_lib::http1::types::version::parse_version;
use http_server_lib::http1::types::Chunk as LineChunk;
use http_server_lib::protocol::http1::types::{next_chunk, split_chunks, ParseStreamError};
use http_server_lib::protocol::http1::request::{start_line, header_line, http0_path, BuildError, parse_request, build_or_http0, Built, RequestBody};

fn text(s: &str) -> Text {
    Text::from(&s.as_bytes().to_vec())
}

#[test]
fn tokens_split_at_separators_and_breaks() {
    let toks = tokenize(&text("ab:c\td/"));
    assert_eq!(toks.len(), 5);
    assert!(matches!(&toks[0], Tokens::Text(t) if t.as_bytes() == &b"ab".to_vec()));
    assert!(matches!(&toks[1], Tokens::Seperator(Seperator::Colon)));
    assert!(matches!(&toks[2], Tokens::Text(t) if t.as_bytes() == &b"c".to_vec()));
    assert!(matches!(&toks[3], Tokens::Text(t) if t.as_bytes() == &b"d".to_vec()));
    assert!(matches!(&toks[4], Tokens::Seperator(Seperator::ForwardSlash)));
}

#[test]
fn spaces_are_text() {
    let parts = split(text("GET /a HTTP/1.1"));
    assert_eq!(parts.len(), 1);
    let parts = split(text("GET\t/a\tHTTP/1.1"));
    assert_eq!(parts.len(), 3);
    assert_eq!(parts[1].as_bytes(), &b"/a".to_vec());
}

#[test]
fn token_iterator_reads_in_order() {
    let mut it = TokenIterator::new(&text("a=b"));
    assert!(matches!(it.next(), Some(Tokens::Text(_))));
    assert!(matches!(it.next(), Some(Tokens::Seperator(Seperator::Equals))));
    assert!(matches!(it.next(), Some(Tokens::Text(_))));
    assert!(it.next().is_none());
    assert!(it.next().is_none());
}

#[test]
fn ports() {
    assert_eq!(parse_port(&text("8080")), Some(8080));
    assert_eq!(parse_port(&text("+80")), Some(80));
    assert_eq!(parse_port(&text("65535")), Some(65535));
    assert_eq!(parse_port(&text("65536")), None);
    assert_eq!(parse_port(&text("")), None);
    assert_eq!(parse_port(&text("+")), None);
    assert_eq!(parse_port(&text("8a")), None);
    assert_eq!(parse_port(&text("-1")), None);
}

#[test]
fn authorities() {
    assert_eq!(Authority::parse(&text("host")).ok().unwrap().to_string(), "host");
    assert_eq!(Authority::parse(&text("host:8080")).ok().unwrap().to_string(), "host:8080");
    assert_eq!(Authority::parse(&text("host:+80")).ok().unwrap().to_string(), "host:80");
    assert_eq!(Authority::parse(&text("me@host")).ok().unwrap().to_string(), "me@host");
    assert_eq!(Authority::parse(&text("me@host:1")).ok().unwrap().to_string(), "me@host:1");
    assert!(matches!(Authority::parse(&text("host:abc")), Err(UriError::InvalidPort(t)) if t.as_bytes() == &b"abc".to_vec()));
    assert!(matches!(Authority::parse(&text("host:99999")), Err(UriError::InvalidPort(_))));
    assert!(matches!(Authority::parse(&text("h;x")), Err(UriError::SyntaxError("Invalid Authority Syntax!"))));
    assert!(matches!(Authority::parse(&text("a:b:c")),
        Err(UriError::ParseToken(TokenError::MismatchError(Seperator::At, Seperator::Colon)))));
    assert!(matches!(Authority::parse(&text("a:b")), Err(UriError::InvalidPort(_))));
    assert!(matches!(Authority::parse(&text("a@b@c")), Err(UriError::ParseToken(TokenError::MismatchError(Seperator::Colon, Seperator::At)))));
    assert!(matches!(Authority::parse(&text("a@b@c@d")), Err(UriError::SyntaxError("Invalid Authority Layout!"))));
    assert!(matches!(Authority::parse(&text("a:")), Err(UriError::SyntaxError("Invalid Authority Layout!"))));
    assert!(matches!(Authority::parse(&text(":")), Err(UriError::ParseToken(TokenError::TextError(_, Seperator::Colon)))));
}

#[test]
fn credentials_of_the_user() {
    let a = Authority::parse(&text("name:pw@host")).ok();
    assert!(a.is_none());
    let a = Authority::parse(&text("me@host")).ok().unwrap();
    assert!(a.auth().is_none());
}

#[test]
fn absolute_paths() {
    let p = AbsPath::parse(&text("/a/b")).ok().unwrap();
    assert_eq!(p.to_string(), "/a/b");
    let p = AbsPath::parse(&text("a/b")).ok().unwrap();
    assert_eq!(p.to_string(), "/a/b");
    assert!(matches!(AbsPath::parse(&text("/a?x")), Err(TokenError::MismatchError(Seperator::ForwardSlash, Seperator::QuestionMark))));
    assert_eq!(AbsPath::empty().to_string(), "/");
}

#[test]
fn request_uris() {
    assert!(matches!(Uri::parse(&text("*")), Ok(Uri::Asterisk)));
    assert_eq!(Uri::parse(&text("/")).ok().unwrap().to_string(), "/");
    assert_eq!(Uri::parse(&text("")).ok().unwrap().to_string(), "/");
    assert!(matches!(Uri::parse(&text("x")), Err(UriError::SyntaxError("Invalid Uri Syntax!"))));
    let u = Uri::parse(&text("/a/b")).ok().unwrap();
    assert_eq!(u.absolute_path(), Ok(String::from("/a/b")));
    let u = Uri::parse(&text("host:80")).ok().unwrap();
    assert!(matches!(u, Uri::Authority(_)));
    assert_eq!(u.absolute_path(), Err(String::from("host:80")));
    assert_eq!(Uri::parse(&text("*")).ok().unwrap().absolute_path(), Err(String::from("*")));
}

#[test]
fn absolute_uris() {
    let u = Uri::parse(&text("http:/host/a/b?x=1")).ok().unwrap();
    assert!(matches!(u, Uri::AbsoluteURI(_)));
    assert_eq!(u.to_string(), "http://host/a/bx1");
    let u = Uri::parse(&text("http://host/a")).ok().unwrap();
    assert_eq!(u.to_string(), "http://host/a");
    assert!(matches!(Uri::parse(&text("http:/")),
        Err(UriError::SyntaxError("Unexpected end when parsing authority or path!"))));
    assert!(matches!(Uri::parse(&text("http:/host")),
        Err(UriError::SyntaxError("Unexpected end when parsing Authority!"))));
    assert!(matches!(AbsUri::parse(&text("http")),
        Err(UriError::SyntaxError("Unexpected end when parsing scheme!"))));
    assert!(matches!(Uri::parse(&text("http:/h/a?x;y")),
        Err(UriError::ParseToken(TokenError::MismatchError(Seperator::Equals, Seperator::Semicolon)))));
    assert_eq!(Uri::parse(&text("http:/u@h:8/p")).ok().unwrap().to_string(), "http://u@h:8/p");
}

#[test]
fn versions() {
    let v = parse_version(&text("HTTP/1.1")).unwrap();
    assert_eq!((v.major, v.minor), (1, 1));
    let v = parse_version(&text("http/1.0")).unwrap();
    assert_eq!((v.major, v.minor), (1, 0));
    assert!(parse_version(&text("HTTP/11")).is_err());
    assert!(parse_version(&text("FTP/1.1")).is_err());
    assert!(parse_version(&text("HTTP/x.1")).is_err());
    assert!(parse_version(&text("HTTP 1.1")).is_err());
    assert!(parse_version(&text("")).is_err());
}

#[test]
fn line_chunks_cut_at_crlf() {
    let mut c = LineChunk(b"abc\r\ndef".to_vec());
    assert_eq!(c.format(), Some(3));
    assert_eq!(c.0, b"abc".to_vec());
    assert!(c.has_some());
    let mut c = LineChunk(b"abc".to_vec());
    assert_eq!(c.format(), None);
    assert_eq!(c.0, b"abc".to_vec());
    assert!(!LineChunk(Vec::new()).has_some());
}

#[test]
fn stream_chunks() {
    let buf = b"GET /\r\nHost: x\r\n\r\n";
    assert!(matches!(next_chunk(buf, 0), Ok(Some(5))));
    assert!(matches!(next_chunk(buf, 7), Ok(Some(14))));
    assert!(matches!(next_chunk(buf, 18), Ok(None)));
    let (chunks, used) = match split_chunks(buf) {
        Ok(x) => x,
        Err(_) => panic!("ASCII input"),
    };
    assert_eq!(chunks.len(), 3);
    assert_eq!(used, 18);
    assert!(chunks[0].has_some());
    assert!(!chunks[2].has_some());
    let (name, value) = header_line(&chunks[1]);
    assert_eq!(name, "Host");
    assert_eq!(value, "x");
    assert!(matches!(split_chunks(b"ab\xffc\r\n"), Err(ParseStreamError::ParseError(2))));
    let (chunks, used) = match split_chunks(b"partial") {
        Ok(x) => x,
        Err(_) => panic!("ASCII input"),
    };
    assert_eq!(chunks.len(), 0);
    assert_eq!(used, 0);
}

#[test]
fn header_lines() {
    let chunks = match split_chunks(b"Host: a:b\r\nName\r\n") {
        Ok((c, _)) => c,
        Err(_) => panic!("ASCII input"),
    };
    assert_eq!(header_line(&chunks[0]), (String::from("Host"), String::from("a")));
    assert_eq!(header_line(&chunks[1]), (String::from("Name"), String::new()));
}

#[test]
fn start_lines() {
    let parts = vec![text("GET"), text("/a"), text("HTTP/1.1")];
    match start_line(parts, Some("GET")) {
        Ok((m, uri, v)) => {
            assert_eq!(m, "GET");
            assert_eq!(uri.to_string(), "/a");
            assert_eq!((v.major, v.minor), (1, 1));
        },
        Err(_) => panic!("a valid line"),
    }
    assert!(matches!(start_line::<&str>(Vec::new(), None), Err(BuildError::MissingMethod)));
    assert!(matches!(start_line::<&str>(vec![text("BREW")], None), Err(BuildError::InvalidMethod(s)) if s == "BREW"));
    assert!(matches!(start_line(vec![text("GET")], Some("GET")), Err(BuildError::MissingUri)));
    assert!(matches!(start_line(vec![text("GET"), text("x")], Some("GET")), Err(BuildError::InvalidUri(_))));
    assert!(matches!(start_line(vec![text("GET"), text("/a")], Some("GET")), Err(BuildError::MissingVersion("GET", _))));
    assert!(matches!(start_line(vec![text("GET"), text("/a"), text("HTTP/x")], Some("GET")),
        Err(BuildError::InvalidVersion(s)) if s == "HTTP/x"));
}

#[test]
fn http0_requests() {
    let uri = Uri::parse(&text("/a")).ok().unwrap();
    assert!(matches!(http0_path::<()>(true, &uri), Ok(s) if s == "/a"));
    assert!(matches!(http0_path::<()>(false, &uri), Err(BuildError::Http0GetMethodOnly)));
    let star = Uri::parse(&text("*")).ok().unwrap();
    assert!(matches!(http0_path::<()>(true, &star), Err(BuildError::Http0AbsolutePathOnly)));
}

#[test]
fn search_entries_of_absolute_uris() {
    let u = AbsUri::parse(&text("http:/h/p?a=1&b=2")).ok().unwrap();
    let (entries, hash) = u.search();
    assert_eq!(entries, vec![(String::from("a"), String::from("1"))]);
    assert!(hash.is_none());
}

#[test]
fn network_paths_carry_their_authority() {
    let u = AbsUri::parse(&text("http://host:8080/a/b")).ok().unwrap();
    assert_eq!(u.to_string(), "http://host:8080/a/b");
    let u = AbsUri::parse(&text("http://me@host")).ok().unwrap();
    assert_eq!(u.to_string(), "http://me@host/");
    let u = AbsUri::parse(&text("http://host?a=1")).ok().unwrap();
    assert_eq!(u.to_string(), "http://host/a1");
    assert!(matches!(AbsUri::parse(&text("http://host:x/a")), Err(UriError::InvalidPort(_))));
}

#[test]
fn absolute_paths_of_uris() {
    assert_eq!(Uri::Asterisk.absolute_path(), Err(String::from("*")));
    assert_eq!(Uri::AbsolutePath(AbsPath::empty()).absolute_path(), Ok(String::from("/")));
}

#[test]
fn http0_requests_are_get_of_a_path() {
    use_http0();
}

fn use_http0() {
    let line = parse_request(b"GET\t/a\r\n", Some(String::from("GET")));
    match build_or_http0(line) {
        Ok(Built::Http0(m, p)) => {
            assert_eq!(m, "GET");
            assert_eq!(p, "/a");
        },
        _ => panic!("an HTTP/0.9 request"),
    }
    let line = parse_request(b"POST\t/a\r\n", Some(String::from("POST")));
    assert!(matches!(build_or_http0(line), Err(BuildError::Http0GetMethodOnly)));
    let line = parse_request(b"GET\t*\r\n", Some(String::from("GET")));
    assert!(matches!(build_or_http0(line), Err(BuildError::Http0AbsolutePathOnly)));
    let line = parse_request(b"GET\t/a\tHTTP/1.1\r\n\r\n", Some(String::from("GET")));
    assert!(matches!(build_or_http0(line), Ok(Built::Http1(_, _, _, _))));
    let line = parse_request(b"", Some(String::from("GET")));
    assert!(matches!(build_or_http0(line), Err(BuildError::EmptyRequest)));
}

fn parts(u: &UrlParts) -> (String, u16, Vec<String>, Option<String>) {
    (u.hostname.clone(), u.port, u.path.clone(), u.scheme.clone())
}

#[test]
fn urls_of_request_targets() {
    let host = || String::from("localhost");
    let u = Uri::parse(&text("/a/b")).ok().unwrap().to_url(host(), 80);
    assert_eq!(parts(&u), (String::from("localhost"), 80, vec![String::from("a"), String::from("b")], None));
    assert!(u.auth.is_none() && u.search.is_empty() && u.hash.is_none());
    let u = Uri::Asterisk.to_url(host(), 80);
    assert_eq!(u.path, vec![String::from("*")]);
    let u = Uri::parse(&text("example.com:8080")).ok().unwrap().to_url(host(), 80);
    assert_eq!(parts(&u), (String::from("example.com"), 8080, vec![], None));
    let u = Uri::parse(&text("http://h:81/x?a=1")).ok().unwrap().to_url(host(), 80);
    assert_eq!(parts(&u), (String::from("h"), 81, vec![String::from("x")], Some(String::from("http"))));
    let u = Uri::parse(&text("http:/h/x")).ok().unwrap().to_url(host(), 80);
    assert_eq!(parts(&u), (String::from("h"), 80, vec![String::from("x")], Some(String::from("http"))));
    let a = Authority::parse(&text("example.com")).ok().unwrap();
    assert_eq!(a.hostname(), "example.com");
    let u = a.to_url_path(host(), 443, vec![String::from("p")]);
    assert_eq!(parts(&u), (String::from("example.com"), 443, vec![String::from("p")], None));
}

#[test]
fn a_body_is_taken_once() {
    let mut b = RequestBody::new(b"hello".to_vec());
    assert_eq!(b.body(), Ok(&b"hello"[..]));
    assert_eq!(b.body(), Err("Body has already been used!"));
}
