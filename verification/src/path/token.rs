//! Tokens of a path pattern, and the parser from a pattern to segments.
use vstd::prelude::*;
use crate::path::{Encode, PathError, escape, escape_string};
use crate::path::segment::CompileOptions;
use crate::text::{decimal_string, spec_decimal};
use crate::path::lexer::{Iter, try_lexer, spec_path_lex, text_run, lemma_text_run_bounds};
use crate::path::segment::{Segment, SegmentView, RegexData, key_segment, segments_view};

verus! {

/// The prefixes a parameter may have by default.
pub const DEFAULT_PREFIX: &'static str = "./";

/// The default path delimiter.
pub const DEFAULT_DELIMITER: &'static str = "/";

/// The options the parser takes from the compile options.
pub struct ParseOptions {
    delimiter: String,
    encode_path: Encode,
}

impl ParseOptions {
    pub closed spec fn spec_delimiter(&self) -> Seq<char> {
        self.delimiter@
    }

    pub closed spec fn spec_encode(&self) -> Encode {
        self.encode_path
    }

    /// The delimiter and encoder of the compile options.
    pub fn from(data: &CompileOptions) -> (opts: ParseOptions)
        ensures
            opts.spec_delimiter() == data.delimiter@,
            opts.spec_encode() == data.encode_path,
    {
        ParseOptions { delimiter: data.delimiter.clone(), encode_path: data.encode_path }
    }
}

/// The kind of a lexed token.
#[derive(Debug, Copy, Clone, PartialEq, Eq, Structural)]
pub enum TokenType {
    Name,
    Pattern,
    Char,
    Escaped,
    End,
    OpenBracket,
    ClosedBracket,
    Asterisk,
    Plus,
    Exclimation,
    SemiColon,
    AtSymbol,
    QuestionMark,
}

/// The name of a token kind, as error messages show it.
pub open spec fn token_type_name(t: TokenType) -> Seq<char> {
    match t {
        TokenType::Name => "NAME"@,
        TokenType::Pattern => "PATTERN"@,
        TokenType::Char => "CHAR"@,
        TokenType::Escaped => "ESCAPED"@,
        TokenType::End => "END"@,
        TokenType::Exclimation => "!"@,
        TokenType::SemiColon => ";"@,
        TokenType::AtSymbol => "@"@,
        TokenType::OpenBracket => "{"@,
        TokenType::ClosedBracket => "}"@,
        TokenType::Asterisk => "*"@,
        TokenType::Plus => "+"@,
        TokenType::QuestionMark => "?"@,
    }
}

/// The kind of single-character token that `c` is, if it is one.
pub open spec fn symbol_token(c: char) -> Option<TokenType> {
    if c == '{' {
        Some(TokenType::OpenBracket)
    } else if c == '}' {
        Some(TokenType::ClosedBracket)
    } else if c == '*' {
        Some(TokenType::Asterisk)
    } else if c == '+' {
        Some(TokenType::Plus)
    } else if c == '?' {
        Some(TokenType::QuestionMark)
    } else if c == '!' {
        Some(TokenType::Exclimation)
    } else if c == '@' {
        Some(TokenType::AtSymbol)
    } else if c == ';' {
        Some(TokenType::SemiColon)
    } else {
        None
    }
}

impl TokenType {
    /// The name of this token kind.
    pub fn as_str(&self) -> (name: &'static str)
        ensures
            name@ == token_type_name(*self),
    {
        match self {
            TokenType::Name => "NAME",
            TokenType::Pattern => "PATTERN",
            TokenType::Char => "CHAR",
            TokenType::Escaped => "ESCAPED",
            TokenType::End => "END",
            TokenType::Exclimation => "!",
            TokenType::SemiColon => ";",
            TokenType::AtSymbol => "@",
            TokenType::OpenBracket => "{",
            TokenType::ClosedBracket => "}",
            TokenType::Asterisk => "*",
            TokenType::Plus => "+",
            TokenType::QuestionMark => "?",
        }
    }

    /// The kind of single-character token that `c` is, if it is one.
    pub fn from(c: char) -> (t: Option<TokenType>)
        ensures
            t == symbol_token(c),
    {
        if c == '{' {
            return Some(TokenType::OpenBracket);
        }
        if c == '}' {
            return Some(TokenType::ClosedBracket);
        }
        if c == '*' {
            return Some(TokenType::Asterisk);
        }
        if c == '+' {
            return Some(TokenType::Plus);
        }
        if c == '?' {
            return Some(TokenType::QuestionMark);
        }
        if c == '!' {
            return Some(TokenType::Exclimation);
        }
        if c == '@' {
            return Some(TokenType::AtSymbol);
        }
        if c == ';' {
            return Some(TokenType::SemiColon);
        }
        None
    }

    /// Whether two token kinds are the same.
    pub fn eq(&self, compare: &TokenType) -> (r: bool)
        ensures
            r == (*self == *compare),
    {
        *self == *compare
    }
}

/// A lexed token: its kind, the position the lexer had reached, and its text.
#[derive(Debug)]
pub struct Token {
    pub token_type: TokenType,
    pub(crate) _index: usize,
    pub value: String,
}

/// A token as a mathematical value.
pub struct TokenView {
    pub kind: TokenType,
    pub index: nat,
    pub value: Seq<char>,
}

impl View for Token {
    type V = TokenView;

    closed spec fn view(&self) -> TokenView {
        TokenView { kind: self.token_type, index: self._index as nat, value: self.value@ }
    }
}

impl Token {
    pub fn new(token_type: TokenType, index: usize, value: String) -> (t: Token)
        ensures
            t@ == (TokenView { kind: token_type, index: index as nat, value: value@ }),
    {
        Token { token_type, value, _index: index }
    }

    /// The kind of this token.
    pub fn kind(&self) -> (t: TokenType)
        ensures
            t == self@.kind,
    {
        self.token_type
    }

    /// A copy of this token's text.
    pub fn text(&self) -> (v: String)
        ensures
            v@ == self@.value,
    {
        self.value.clone()
    }

    /// A copy of this token.
    pub fn duplicate(&self) -> (t: Token)
        ensures
            t@ == self@,
    {
        Token { token_type: self.token_type, _index: self._index, value: self.value.clone() }
    }
}

} // verus!

verus! {

/// The token at `i` and the position after it, when it is of kind `kind`;
/// otherwise nothing and `i`.
pub open spec fn optional_token(toks: Seq<TokenView>, i: nat, kind: TokenType) -> (Option<Seq<char>>, nat) {
    if i < toks.len() && toks[i as int].kind == kind {
        (Some(toks[i as int].value), i + 1)
    } else {
        (None, i)
    }
}

/// The modifier (`?`, `*` or `+`) at `i` and the position after it.
pub open spec fn modifier_token(toks: Seq<TokenView>, i: nat) -> (Option<Seq<char>>, nat) {
    if i < toks.len() && (toks[i as int].kind == TokenType::QuestionMark || toks[i as int].kind == TokenType::Asterisk
        || toks[i as int].kind == TokenType::Plus) {
        (Some(toks[i as int].value), i + 1)
    } else {
        (None, i)
    }
}

/// Parsing the tokens from position `i` on, with `key` the number that the
/// next unnamed parameter gets and `acc` the segments so far:
/// `Some(Err(..))` where the end of the pattern was due and another token
/// came, `None` where a token past the end would be read or a `{` is not
/// closed by a `}`.
pub open spec fn parse_from(
    toks: Seq<TokenView>,
    i: nat,
    key: nat,
    delimiter: Seq<char>,
    acc: Seq<SegmentView>,
) -> Option<Result<Seq<SegmentView>, PathError>>
    decreases toks.len() - i,
{
    let (t, j) = text_run(toks, i);
    proof {
        lemma_text_run_bounds(toks, i);
    }
    if j >= toks.len() {
        None
    } else {
        let acc1 = if t.len() > 0 { acc.push(SegmentView::Str(escape_string(t))) } else { acc };
        let (name, j1) = optional_token(toks, j, TokenType::Name);
        if j1 >= toks.len() {
            None
        } else {
            let (pattern, j2) = optional_token(toks, j1, TokenType::Pattern);
            if name is Some || pattern is Some {
                let string = match name { Some(n) => n, None => spec_decimal(key) };
                parse_from(toks, j2, key + 1, delimiter, acc1.push(key_segment(delimiter, string, pattern, None, None, None)))
            } else {
                let is_asterisk = toks[j as int].kind == TokenType::Asterisk;
                let acc2 = if is_asterisk {
                    acc1.push(key_segment(
                        delimiter,
                        spec_decimal(key),
                        Some("^"@ + delimiter + "]*"@),
                        Some(seq![]),
                        Some(seq![]),
                        Some(toks[j as int].value),
                    ))
                } else {
                    acc1
                };
                let key2 = if is_asterisk { key + 1 } else { key };
                let j3 = if is_asterisk { j + 1 } else { j };
                if j3 >= toks.len() {
                    None
                } else if toks[j3 as int].kind == TokenType::OpenBracket {
                    let (prefix, k1) = text_run(toks, j3 + 1);
                    proof {
                        lemma_text_run_bounds(toks, j3 + 1);
                    }
                    if k1 >= toks.len() {
                        None
                    } else {
                        let (nm, k2) = optional_token(toks, k1, TokenType::Name);
                        if k2 >= toks.len() {
                            None
                        } else {
                            let (pat, k3) = optional_token(toks, k2, TokenType::Pattern);
                            let (suffix, k4) = text_run(toks, k3);
                            proof {
                                lemma_text_run_bounds(toks, k3);
                            }
                            if k4 >= toks.len() || toks[k4 as int].kind != TokenType::ClosedBracket {
                                None
                            } else if k4 + 1 >= toks.len() {
                                None
                            } else {
                                let (name2, key3) = match nm {
                                    Some(n) => (n, key2),
                                    None => if pat is Some { (spec_decimal(key2), key2 + 1) } else { (seq![], key2) },
                                };
                                let (m, k6) = modifier_token(toks, k4 + 1);
                                parse_from(
                                    toks,
                                    k6,
                                    key3,
                                    delimiter,
                                    acc2.push(key_segment(delimiter, name2, pat, Some(prefix), Some(suffix), m)),
                                )
                            }
                        }
                    }
                } else if toks[j3 as int].kind == TokenType::End {
                    Some(Ok(acc2))
                } else {
                    Some(Err(PathError::ExpectedEnd(toks[j3 as int].kind)))
                }
            }
        }
    }
}

/// The segments of a path pattern, or why it is refused; `None` where
/// lexing or parsing would read past the end of the input or a `{` is not
/// closed.
pub open spec fn spec_parse(s: Seq<char>, delimiter: Seq<char>) -> Option<Result<Seq<SegmentView>, PathError>> {
    match spec_path_lex(s) {
        None => None,
        Some(Err(e)) => Some(Err(e)),
        Some(Ok(toks)) => parse_from(toks, 0, 0, delimiter, seq![]),
    }
}

} // verus!

verus! {

fn push_segment(tokens: &mut Vec<Segment>, s: Segment)
    ensures
        segments_view(final(tokens)@) == segments_view(old(tokens)@).push(crate::path::segment::segment_view(s)),
{
    tokens.push(s);
    proof {
        assert(segments_view(tokens@) =~= segments_view(old(tokens)@).push(crate::path::segment::segment_view(s)));
    }
}

#[verifier::rlimit(100)]
fn parse_checked(str: &String, opts: &ParseOptions) -> (r: Option<Result<RegexData, PathError>>)
    ensures
        r is None <==> spec_parse(str@, opts.spec_delimiter()) is None,
        r matches Some(Ok(d)) ==> spec_parse(str@, opts.spec_delimiter())
            == Some(Ok::<Seq<SegmentView>, PathError>(segments_view(d.tokens@)))
            && d.delimiter@ == opts.spec_delimiter(),
        r matches Some(Err(e)) ==> spec_parse(str@, opts.spec_delimiter()) == Some(Err::<Seq<SegmentView>, PathError>(e)),
{
    let mut tokens: Vec<Segment> = Vec::new();
    let mut key: usize = 0;
    let mut it = match try_lexer(str) {
        Some(Ok(it)) => it,
        Some(Err(e)) => return Some(Err(e)),
        None => return None,
    };
    let ghost toks = it.spec_tokens();
    let ghost delim = opts.spec_delimiter();
    proof {
        assert(segments_view(tokens@) =~= Seq::<SegmentView>::empty());
    }
    loop
        invariant_except_break
            spec_parse(str@, delim) == parse_from(toks, it.spec_index(), key as nat, delim, segments_view(tokens@)),
        invariant
            toks == it.spec_tokens(),
            delim == opts.spec_delimiter(),
            key <= it.spec_index(),
            it.spec_index() <= toks.len(),
        ensures
            spec_parse(str@, delim) == Some(Ok::<Seq<SegmentView>, PathError>(segments_view(tokens@))),
        decreases toks.len() - it.spec_index(),
    {
        let ghost i = it.spec_index();
        proof {
            lemma_text_run_bounds(toks, i);
        }
        if !it.text_is_closed() {
            return None;
        }
        let path = it.text();
        if !path.as_str().is_empty() {
            push_segment(&mut tokens, Segment::Str(escape(path)));
        }
        let name = it.try_consume(TokenType::Name);
        if !it.has_next() {
            return None;
        }
        let pattern = it.try_consume(TokenType::Pattern);
        proof {
            it.lemma_index_fits();
        }
        if name.is_some() || pattern.is_some() {
            let string = match name {
                Some(n) => n,
                None => decimal_string(key as u64),
            };
            key = key + 1;
            push_segment(
                &mut tokens,
                Segment::new(opts.encode_path, opts.delimiter.clone(), string, pattern, None, None, None),
            );
            continue;
        }
        let asterisk = it.try_consume(TokenType::Asterisk);
        proof {
            it.lemma_index_fits();
        }
        if asterisk.is_some() {
            let name = decimal_string(key as u64);
            key = key + 1;
            let mut any = String::from_str("^");
            any.append(opts.delimiter.as_str());
            any.append("]*");
            push_segment(
                &mut tokens,
                Segment::new(
                    opts.encode_path,
                    opts.delimiter.clone(),
                    name,
                    Some(any),
                    Some(String::new()),
                    Some(String::new()),
                    asterisk,
                ),
            );
        }
        if !it.has_next() {
            return None;
        }
        let open = it.try_consume(TokenType::OpenBracket);
        if open.is_some() {
            let ghost k0 = it.spec_index();
            proof {
                lemma_text_run_bounds(toks, k0);
            }
            if !it.text_is_closed() {
                return None;
            }
            let prefix = it.text();
            let name = it.try_consume(TokenType::Name);
            if !it.has_next() {
                return None;
            }
            let pattern = it.try_consume(TokenType::Pattern);
            let ghost k3 = it.spec_index();
            proof {
                lemma_text_run_bounds(toks, k3);
            }
            if !it.text_is_closed() {
                return None;
            }
            let suffix = it.text();
            proof {
                it.lemma_index_fits();
            }
            match it.consume(TokenType::ClosedBracket) {
                Ok(_) => {},
                Err(_) => return None,
            }
            if !it.has_next() {
                return None;
            }
            let name = match name {
                Some(n) => n,
                None => if pattern.is_some() {
                    let value = decimal_string(key as u64);
                    key = key + 1;
                    value
                } else {
                    String::new()
                },
            };
            let modifier = it.modifier();
            push_segment(
                &mut tokens,
                Segment::new(
                    opts.encode_path,
                    opts.delimiter.clone(),
                    name,
                    pattern,
                    Some(prefix),
                    Some(suffix),
                    modifier,
                ),
            );
            continue;
        }
        match it.consume(TokenType::End) {
            Ok(_) => break,
            Err(_) => {
                let next = it.peek();
                return Some(Err(PathError::ExpectedEnd(next.kind())));
            },
        }
    }
    Some(Ok(RegexData { tokens, delimiter: opts.delimiter.clone() }))
}

/// Parses a path pattern into segments: escaped static texts, and keys for
/// the `:name` parameters, the bracketed patterns, the `*` wildcards and
/// the `{..}` groups; unnamed keys are numbered from 0. Refuses a pattern
/// that does not lex, or that has a token where its end is due.
pub fn parse(str: &String, opts: ParseOptions) -> (r: Result<RegexData, PathError>)
    requires
        spec_parse(str@, opts.spec_delimiter()) is Some,
    ensures
        r matches Ok(d) ==> spec_parse(str@, opts.spec_delimiter())
            == Some(Ok::<Seq<SegmentView>, PathError>(segments_view(d.tokens@)))
            && d.delimiter@ == opts.spec_delimiter(),
        r matches Err(e) ==> spec_parse(str@, opts.spec_delimiter()) == Some(Err::<Seq<SegmentView>, PathError>(e)),
{
    match parse_checked(str, &opts) {
        Some(r) => r,
        None => {
            proof {
                assert(false);
            }
            Err(PathError::MissingPattern(0))
        },
    }
}

/// Parses a path pattern where that does not read past the end of its
/// tokens: `None` exactly where `spec_parse` is `None`.
pub fn try_parse(str: &String, opts: ParseOptions) -> (r: Option<Result<RegexData, PathError>>)
    ensures
        r is None <==> spec_parse(str@, opts.spec_delimiter()) is None,
        r matches Some(Ok(d)) ==> spec_parse(str@, opts.spec_delimiter())
            == Some(Ok::<Seq<SegmentView>, PathError>(segments_view(d.tokens@)))
            && d.delimiter@ == opts.spec_delimiter(),
        r matches Some(Err(e)) ==> spec_parse(str@, opts.spec_delimiter()) == Some(Err::<Seq<SegmentView>, PathError>(e)),
{
    if parse_checked(str, &opts).is_some() {
        Some(parse(str, opts))
    } else {
        None
    }
}

} // verus!
