use http_server_lib::path::{escape, match_path, Path, PathError};
use http_server_lib::pattern::Pattern;
use http_server_lib::error::IoErrorKind;
use http_server_lib::request::RequestError;
use http_server_lib::response::Response;
use http_server_lib::path::lexer::{lexer, try_lexer};
use http_server_lib::path::token::{parse, try_parse, ParseOptions, TokenType};
use http_server_lib::path::segment::{compile, CompileOptions, Segment};
use http_server_lib::path::key::{Key, key_to_regexp_gen};

fn compiled(path: &str) -> (String, Vec<Key>) {
    let opts = CompileOptions::default();
    let data = match parse(&String::from(path), ParseOptions::from(&opts)) {
        Ok(d) => d,
        Err(e) => panic!("{}", e.message()),
    };
    let mut keys = Vec::new();
    let pattern = compile(data, &mut keys, &opts).unwrap();
    (pattern.as_str().to_string(), keys)
}

#[test]
fn escapes_regex_specials() {
    assert_eq!(escape(String::from("/a.b")), "\\/a\\.b");
    assert_eq!(escape(String::from("plain")), "plain");
}

#[test]
fn lexes_text_and_names() {
    let mut it = lexer(&String::from("/users/:id")).ok().unwrap();
    assert_eq!(it.text(), "/users/");
    assert_eq!(it.try_consume(TokenType::Name), Some(String::from("id")));
    assert_eq!(it.consume(TokenType::End).ok(), Some(String::new()));
}

#[test]
fn lex_errors_and_their_messages() {
    match lexer(&String::from("/:")) {
        Err(e) => {
            assert_eq!(e, PathError::MissingParameterName(1));
            assert_eq!(e.message(), "Missing parameter name at 1");
        },
        Ok(_) => panic!("a name is missing"),
    }
    assert!(matches!(lexer(&String::from("(?a)")), Err(PathError::PatternStartsWithQuestionMark(1))));
    assert!(matches!(lexer(&String::from("()")), Err(PathError::MissingPattern(0))));
    assert!(matches!(lexer(&String::from("(ab")), Err(PathError::UnbalancedPattern(0))));
    assert!(matches!(lexer(&String::from("(")), Err(PathError::UnbalancedPattern(0))));
    assert!(matches!(try_lexer(&String::from("/(a(b))")), Some(Err(PathError::CapturingGroup(3)))));
    assert_eq!(PathError::CapturingGroup(3).message(), "Capturing groups are not allowed at 3");
}

#[test]
fn bracketed_patterns_take_the_characters_between() {
    let mut it = lexer(&String::from("(ab)")).ok().unwrap();
    assert_eq!(it.try_consume(TokenType::Pattern), Some(String::from("ab")));
    assert!(it.try_consume(TokenType::End).is_some());
    let mut it = lexer(&String::from("(a)")).ok().unwrap();
    assert_eq!(it.try_consume(TokenType::Pattern), Some(String::from("a")));
    assert_eq!(it.try_consume(TokenType::End), Some(String::new()));
    let mut it = lexer(&String::from("(a(?:b))c")).ok().unwrap();
    assert_eq!(it.try_consume(TokenType::Pattern), Some(String::from("a(?:b)")));
    let mut it = lexer(&String::from("(\\))")).ok().unwrap();
    assert_eq!(it.try_consume(TokenType::Pattern), Some(String::from("\\)")));
}

#[test]
fn modifiers() {
    let mut it = lexer(&String::from("?")).ok().unwrap();
    assert_eq!(it.modifier(), Some(String::from("?")));
    let mut it = lexer(&String::from("x")).ok().unwrap();
    assert_eq!(it.modifier(), None);
}

#[test]
fn compiles_a_named_parameter() {
    let (pattern, keys) = compiled("/users/:id");
    assert_eq!(pattern, "^\\/users\\/(?:([^\\/]+?))(?:\\/)?$");
    assert_eq!(keys.len(), 1);
    assert_eq!(keys[0].name, "id");
    assert!(keys[0].separator.is_none());
}

#[test]
fn compiles_an_optional_group() {
    let (pattern, keys) = compiled("{/:id}?");
    assert_eq!(pattern, "^(?:\\/([^\\/]+?))?(?:\\/)?$");
    assert_eq!(keys[0].prefix, "/");
    assert_eq!(keys[0].modifier, "?");
}

#[test]
fn wildcards_become_numbered_keys() {
    let opts = CompileOptions::default();
    let data = match try_parse(&String::from("/files/*"), ParseOptions::from(&opts)) {
        Some(Ok(d)) => d,
        _ => panic!("a valid pattern"),
    };
    assert_eq!(data.tokens.len(), 2);
    match &data.tokens[1] {
        Segment::Key(k) => {
            assert_eq!(k.name, "0");
            assert_eq!(k.pattern, "^/]*");
            assert_eq!(k.modifier, "*");
            assert_eq!(k.separator, Some(String::from("/")));
        },
        Segment::Str(_) => panic!("expected a key"),
    }
}

#[test]
fn a_stray_bracket_is_refused() {
    let opts = CompileOptions::default();
    match parse(&String::from("}"), ParseOptions::from(&opts)) {
        Err(e) => assert_eq!(e.message(), "Expected End instead got }!"),
        Ok(_) => panic!("a stray bracket"),
    }
}

#[test]
fn key_regex_with_a_separator() {
    let mut gen = key_to_regexp_gen(String::from("/"));
    let key = Key {
        name: String::from("p"),
        prefix: String::from("/"),
        suffix: String::new(),
        pattern: String::new(),
        modifier: String::from("*"),
        separator: Some(String::from("*")),
    };
    assert_eq!(gen.call(key), "(?:\\/((?:[^\\/]+?)(?:\\*(?:[^\\/]+?))*))?");
    let bare = Key {
        name: String::new(),
        prefix: String::from("a"),
        suffix: String::from("b"),
        pattern: String::new(),
        modifier: String::from("?"),
        separator: None,
    };
    assert_eq!(gen.call(bare), "(?:ab)?");
    let star = Key {
        name: String::from("p"),
        prefix: String::from("/"),
        suffix: String::new(),
        pattern: String::new(),
        modifier: String::from("*"),
        separator: Some(String::from("/")),
    };
    assert_eq!(gen.call(star), "(?:\\/((?:[^\\/]+?)(?:\\/(?:[^\\/]+?))*))?");
    let plus = Key {
        name: String::from("p"),
        prefix: String::from("/"),
        suffix: String::new(),
        pattern: String::new(),
        modifier: String::from("+"),
        separator: Some(String::from("/")),
    };
    assert_eq!(gen.call(plus), "(?:\\/((?:[^\\/]+?)(?:\\/(?:[^\\/]+?))*))");
}

#[test]
fn compile_options() {
    let o = CompileOptions::new(None, Some(String::from("-")), None, Some(false), None, None, Some(true));
    assert_eq!(o.delimiter, "-");
    assert_eq!(o.prefixes, "./");
    assert!(!o.start);
    assert!(o.end);
    assert!(o.sensitive);
}

#[test]
fn matched_paths_pair_keys_with_groups() {
    let path = Path {
        regex: Pattern::new("^/user/([^/]+)/post/([^/]+)$", false).ok().unwrap(),
        keys: vec![String::from("user"), String::from("post")],
    };
    assert_eq!(
        path.match_path("/user/ann/post/7"),
        Some(vec![
            (String::from("user"), String::from("ann")),
            (String::from("post"), String::from("7")),
        ])
    );
    assert_eq!(match_path("/user/ann", &path), None);
    let fewer = Path { regex: Pattern::new("^/a/([^/]+)$", false).ok().unwrap(), keys: vec![] };
    assert_eq!(fewer.match_path("/a/b"), None);
    let optional = Path {
        regex: Pattern::new("^/a(?:/([^/]+))?$", false).ok().unwrap(),
        keys: vec![String::from("x")],
    };
    assert_eq!(optional.match_path("/a"), None);
    assert_eq!(optional.match_path("/a/b"), Some(vec![(String::from("x"), String::from("b"))]));
    let plain = Path { regex: Pattern::new("^/$", false).ok().unwrap(), keys: vec![] };
    assert_eq!(plain.match_path("/"), Some(vec![]));
}

fn compiled_with(path: &str, opts: &CompileOptions) -> Pattern {
    let data = match parse(&String::from(path), ParseOptions::from(opts)) {
        Ok(d) => d,
        Err(e) => panic!("{}", e.message()),
    };
    let mut keys = Vec::new();
    compile(data, &mut keys, opts).unwrap()
}

#[test]
fn case_follows_the_sensitive_option() {
    let insensitive = compiled_with("/Users", &CompileOptions::default());
    assert!(insensitive.is_match("/users"));
    assert!(insensitive.is_match("/USERS"));
    let opts = CompileOptions::new(None, None, None, None, None, None, Some(true));
    let sensitive = compiled_with("/Users", &opts);
    assert!(sensitive.is_match("/Users"));
    assert!(!sensitive.is_match("/users"));
}

#[test]
fn refusals_have_io_error_kinds() {
    assert_eq!(PathError::MissingPattern(0).kind(), IoErrorKind::InvalidInput);
    assert_eq!(PathError::ExpectedEnd(TokenType::Char).kind(), IoErrorKind::UnexpectedEof);
    match lexer(&String::from("/:")) {
        Err(e) => assert_eq!(e.kind(), IoErrorKind::InvalidInput),
        Ok(_) => panic!("a name is missing"),
    }
    assert_eq!(RequestError::Malformed.kind(), IoErrorKind::InvalidData);
    assert_eq!(RequestError::NoHeaders.kind(), IoErrorKind::InvalidData);
    let mut r = Response::new();
    let _ = r.send_headers();
    match r.status(404) {
        Err(e) => assert_eq!(e.kind(), IoErrorKind::PermissionDenied),
        Ok(_) => panic!("the head is sent"),
    }
}
