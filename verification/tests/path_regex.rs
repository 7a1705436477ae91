use http_server_lib::path_regex as regex;

const PATH: &'static str = "/Hello/:World";
const QUOTES_PATH: &'static str = "/:\"Good Bye\"";

#[test]
fn lexer_test() {
    let mut it = regex::lexer(PATH);
    assert_eq!(it.tokens.len(), 9);

    it = regex::lexer(QUOTES_PATH);
    assert_eq!(it.tokens.len(), 3);
}

#[test]
fn iter_test() {
    let mut it = regex::lexer(PATH);
    let mut seg = it.parse(regex::TokenType::End);

    assert_eq!(seg.len(), 2);
    while let Some(value) = seg.pop_front() {
        match value {
            regex::Segment::Parameter(value) => {
                assert_eq!(value, "World")
            },
            regex::Segment::Text(value) => {
                assert_eq!(value, "Hello")
            },
            _ => { panic!("Unexpected Segment Type!")}
        }
    }
}

#[test]
fn compile_test() {
    let (regex_str, keys) = regex::compile(PATH, false, true);
    println!("{}", regex_str);
    assert_eq!(keys.len(), 1);
}

#[test]
fn lexer_token_kinds_and_values() {
    let it = regex::lexer("a{:id}\\*x");
    let kinds: Vec<regex::TokenType> = it.tokens.iter().map(|t| t.token_type).collect();
    assert_eq!(
        kinds,
        vec![
            regex::TokenType::Char,
            regex::TokenType::OpenBracket,
            regex::TokenType::Param,
            regex::TokenType::ClosedBracket,
            regex::TokenType::Escaped,
            regex::TokenType::WildCard,
            regex::TokenType::End,
        ]
    );
    let values: Vec<&str> = it.tokens.iter().map(|t| t.value.as_str()).collect();
    assert_eq!(values, vec!["a", "{", "id", "}", "*", "x", ""]);
}

#[test]
fn lexer_refuses_incomplete_names() {
    assert!(regex::try_lexer("/:").is_none());
    assert!(regex::try_lexer("/:-").is_none());
    assert!(regex::try_lexer("/:\"open").is_none());
    assert!(regex::try_lexer("/:\"\"").is_none());
    assert!(regex::try_lexer("end\\").is_none());
    assert!(regex::try_lexer("/plain").is_some());
}

#[test]
fn quoted_name_with_escape() {
    let it = regex::lexer("/:\"a\\\"b\"");
    assert_eq!(it.tokens.len(), 3);
    assert_eq!(it.tokens[1].value, "a\"b");
}

#[test]
fn reserved_characters_lex_as_chars() {
    assert_eq!(regex::TokenType::from('('), regex::TokenType::Reserved);
    let it = regex::lexer("(+)");
    assert!(it.tokens.iter().take(3).all(|t| t.token_type == regex::TokenType::Char));
}

#[test]
fn token_type_names() {
    assert_eq!(regex::TokenType::WildCard.as_str(), "WILDCARD");
    assert_eq!(regex::TokenType::OpenBracket.as_str(), "{");
    assert_eq!(regex::TokenType::End.as_str(), "END");
}

#[test]
fn iter_consumes_from_the_front() {
    let mut it = regex::lexer("ab:x");
    assert_eq!(it.try_consume(regex::TokenType::Param), None);
    assert_eq!(it.text(), "ab");
    assert_eq!(it.peek().map(|t| t.token_type), Some(regex::TokenType::Param));
    assert_eq!(it.consume(regex::TokenType::Param), "x");
    assert_eq!(it.text(), "");
    assert_eq!(it.consume(regex::TokenType::End), "");
    assert!(it.peek().is_none());
}

#[test]
fn parse_groups_and_wildcards() {
    let mut it = regex::lexer("/a{/:b}");
    let mut seg = it.parse(regex::TokenType::End);
    assert_eq!(seg.len(), 2);
    match seg.pop_front() {
        Some(regex::Segment::Text(t)) => assert_eq!(t, "a"),
        _ => panic!("expected text"),
    }
    match seg.pop_front() {
        Some(regex::Segment::Group(g)) => {
            assert_eq!(g.len(), 1);
            match &g[0] {
                regex::Segment::Parameter(p) => assert_eq!(p, "b"),
                _ => panic!("expected parameter"),
            }
        },
        _ => panic!("expected group"),
    }
}

#[test]
fn compile_exact_pattern() {
    let (pattern, keys) = regex::compile(PATH, false, true);
    assert_eq!(pattern, "^(?:\\$&Hello\\$&([^/])+)$");
    assert_eq!(keys, vec!["World".to_string()]);

    let (pattern, _) = regex::compile("/x", true, false);
    assert_eq!(pattern, "^(?:\\$&x)(?:$\\/$)?(?=\\/|$)");
}

#[test]
fn compile_parameter_after_text_without_delimiter() {
    let (pattern, keys) = regex::compile(":a-:b", false, true);
    assert_eq!(keys, vec!["a".to_string(), "b".to_string()]);
    assert_eq!(pattern, "^(?:([^/])+-([^/-])+)$");
}

#[test]
fn compile_refuses_what_cannot_compile() {
    assert!(regex::try_compile(":a:b", false, true).is_none());
    assert!(regex::try_compile("/*rest", false, true).is_none());
    assert!(regex::try_compile("{:a", false, true).is_none());
    assert!(regex::try_compile("/:a", false, true).is_some());
}
