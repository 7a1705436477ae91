//! The lexer of path patterns and the token iterator the parser reads.
use vstd::prelude::*;
use crate::path::PathError;
use crate::path::token::{Token, TokenType, TokenView, symbol_token};
use crate::pattern::{Pattern, regex_builds, regex_is_match};
use crate::text::{chars_of, char_string, string_from_range};

verus! {

/// The regular expression of a character that continues a parameter name.
pub const CHAR_REGEX: &'static str = "^\\p{XID_Continue}$";

/// Whether `c` continues a parameter name.
pub open spec fn is_name_char(c: char) -> bool {
    regex_is_match(CHAR_REGEX@, false, seq![c])
}

/// The position of the last character of the name that follows the `:` at
/// `k` (or `k` itself when no name follows): characters are taken while the
/// next one, a space past the end of the text, continues a name. `None`
/// when that reads past the end.
pub open spec fn name_end(chars: Seq<char>, k: nat) -> Option<nat>
    decreases chars.len() - k,
{
    let next = if k + 1 < chars.len() { chars[k + 1 as int] } else { ' ' };
    if is_name_char(next) {
        if k + 1 < chars.len() {
            name_end(chars, k + 1)
        } else {
            None
        }
    } else {
        Some(k)
    }
}

/// How the scan of a bracketed pattern ends.
pub enum PatternScan {
    /// The brackets are balanced: the text between them and the position
    /// after the closing one.
    Closed(Seq<char>, nat),
    /// The text ends before the brackets are balanced.
    Open,
    /// A capturing group (a `(` not followed by `?`) at this position.
    Capturing(nat),
}

/// The rest of a bracketed pattern from position `k` on, `count` brackets
/// open and `acc` holding what was read: a backslash is kept with the
/// character after it, brackets nest (an inner one must start a
/// non-capturing group, `(?`), and the `)` that closes the first bracket
/// ends the pattern.
pub open spec fn scan_pattern(chars: Seq<char>, k: nat, count: nat, acc: Seq<char>) -> PatternScan
    decreases chars.len() - k,
{
    if k >= chars.len() {
        PatternScan::Open
    } else if chars[k as int] == '\\' {
        if k + 1 >= chars.len() {
            PatternScan::Open
        } else {
            scan_pattern(chars, k + 2, count, acc.push(chars[k as int]).push(chars[k + 1 as int]))
        }
    } else if chars[k as int] == ')' {
        if count <= 1 {
            PatternScan::Closed(acc, k + 1)
        } else {
            scan_pattern(chars, k + 1, (count - 1) as nat, acc.push(')'))
        }
    } else if chars[k as int] == '(' {
        if k + 1 < chars.len() && chars[k + 1 as int] == '?' {
            scan_pattern(chars, k + 1, count + 1, acc.push('('))
        } else {
            PatternScan::Capturing(k)
        }
    } else {
        scan_pattern(chars, k + 1, count, acc.push(chars[k as int]))
    }
}

pub proof fn lemma_name_end_bounds(chars: Seq<char>, k: nat)
    ensures
        name_end(chars, k) matches Some(e) ==> k <= e && (k < chars.len() ==> e < chars.len()),
    decreases chars.len() - k,
{
    if k + 1 < chars.len() {
        lemma_name_end_bounds(chars, k + 1);
    }
}

pub proof fn lemma_scan_pattern_bounds(chars: Seq<char>, k: nat, count: nat, acc: Seq<char>)
    ensures
        scan_pattern(chars, k, count, acc) matches PatternScan::Closed(_, e) ==> k < e <= chars.len(),
        scan_pattern(chars, k, count, acc) matches PatternScan::Capturing(e) ==> k <= e < chars.len(),
    decreases chars.len() - k,
{
    if k >= chars.len() {
    } else if chars[k as int] == '\\' {
        if k + 1 < chars.len() {
            lemma_scan_pattern_bounds(chars, k + 2, count, acc.push(chars[k as int]).push(chars[k + 1 as int]));
        }
    } else if chars[k as int] == ')' {
        if count > 1 {
            lemma_scan_pattern_bounds(chars, k + 1, (count - 1) as nat, acc.push(')'));
        }
    } else if chars[k as int] == '(' {
        if k + 1 < chars.len() && chars[k + 1 as int] == '?' {
            lemma_scan_pattern_bounds(chars, k + 1, count + 1, acc.push('('));
        }
    } else {
        lemma_scan_pattern_bounds(chars, k + 1, count, acc.push(chars[k as int]));
    }
}

/// The tokens of `chars` from position `idx` on, appended to `acc`:
/// `Some(Err(..))` where the pattern is refused, `None` where a name runs
/// to the end of the text and the name test is not known for the space
/// read past it.
pub open spec fn lex_path_from(chars: Seq<char>, idx: nat, acc: Seq<TokenView>) -> Option<Result<Seq<TokenView>, PathError>>
    decreases chars.len() - idx,
{
    if idx >= chars.len() {
        Some(Ok(acc.push(TokenView { kind: TokenType::End, index: idx, value: seq![] })))
    } else {
        let c = chars[idx as int];
        match symbol_token(c) {
            Some(t) => lex_path_from(chars, idx + 1, acc.push(TokenView { kind: t, index: idx, value: seq![c] })),
            None => if c == '\\' {
                lex_path_from(chars, idx + 1, acc.push(TokenView { kind: TokenType::Escaped, index: idx, value: seq![c] }))
            } else if c == ':' {
                proof {
                    lemma_name_end_bounds(chars, idx);
                }
                match name_end(chars, idx) {
                    None => None,
                    Some(e) => if e == idx {
                        Some(Err(PathError::MissingParameterName(idx as usize)))
                    } else {
                        lex_path_from(
                            chars,
                            e + 1,
                            acc.push(TokenView { kind: TokenType::Name, index: e, value: chars.subrange(idx + 1 as int, e + 1 as int) }),
                        )
                    },
                }
            } else if c == '(' {
                if idx + 1 < chars.len() && chars[idx + 1 as int] == '?' {
                    Some(Err(PathError::PatternStartsWithQuestionMark((idx + 1) as usize)))
                } else {
                    proof {
                        lemma_scan_pattern_bounds(chars, idx + 1, 1, seq![]);
                    }
                    match scan_pattern(chars, idx + 1, 1, seq![]) {
                        PatternScan::Open => Some(Err(PathError::UnbalancedPattern(idx as usize))),
                        PatternScan::Capturing(j) => Some(Err(PathError::CapturingGroup(j as usize))),
                        PatternScan::Closed(p, e) => if p.len() == 0 {
                            Some(Err(PathError::MissingPattern(idx as usize)))
                        } else {
                            lex_path_from(chars, e, acc.push(TokenView { kind: TokenType::Pattern, index: e, value: p }))
                        },
                    }
                }
            } else {
                lex_path_from(chars, idx + 1, acc.push(TokenView { kind: TokenType::Char, index: idx, value: seq![c] }))
            },
        }
    }
}

/// The tokens of a path pattern, or why it is refused; `None` where the
/// name pattern does not compile or lexing would read past the end.
pub open spec fn spec_path_lex(s: Seq<char>) -> Option<Result<Seq<TokenView>, PathError>> {
    if regex_builds(CHAR_REGEX@, false) {
        lex_path_from(s, 0, seq![])
    } else {
        None
    }
}

/// The views of a sequence of tokens.
pub open spec fn tokens_view(tokens: Seq<Token>) -> Seq<TokenView> {
    tokens.map_values(|t: Token| t@)
}

/// Tokens of a path pattern and the position of the next one to read.
pub struct Iter {
    index: usize,
    tokens: Vec<Token>,
}

impl Iter {
    /// The tokens.
    pub closed spec fn spec_tokens(&self) -> Seq<TokenView> {
        tokens_view(self.tokens@)
    }

    /// The position of the next token to read.
    pub closed spec fn spec_index(&self) -> nat {
        self.index as nat
    }

    /// The position is a machine integer.
    pub proof fn lemma_index_fits(&self)
        ensures
            self.spec_index() <= usize::MAX,
    {
    }

    pub fn new(tokens: Vec<Token>) -> (it: Iter)
        ensures
            it.spec_tokens() == tokens_view(tokens@),
            it.spec_index() == 0,
    {
        Iter { tokens, index: 0 }
    }
}

fn char_matches(pattern: &Pattern, c: char) -> (r: bool)
    ensures
        r == regex_is_match(pattern@.0, pattern@.1, seq![c]),
{
    let s = char_string(c);
    pattern.is_match(s.as_str())
}

fn name_end_exec(chars: &Vec<char>, k: usize, name_chars: &Pattern) -> (r: Option<usize>)
    requires
        k < chars.len(),
        name_chars@ == (CHAR_REGEX@, false),
    ensures
        r is None <==> name_end(chars@, k as nat) is None,
        r matches Some(e) ==> name_end(chars@, k as nat) == Some(e as nat),
{
    let mut i = k;
    loop
        invariant
            k <= i < chars.len(),
            name_chars@ == (CHAR_REGEX@, false),
            name_end(chars@, k as nat) == name_end(chars@, i as nat),
        decreases chars@.len() - i,
    {
        let next = if i + 1 < chars.len() { chars[i + 1] } else { ' ' };
        if !char_matches(name_chars, next) {
            return Some(i);
        }
        if i + 1 >= chars.len() {
            return None;
        }
        i = i + 1;
    }
}

fn scan_pattern_exec(chars: &Vec<char>, k: usize) -> (r: Result<(String, usize), Option<usize>>)
    requires
        1 <= k <= chars.len(),
    ensures
        match scan_pattern(chars@, k as nat, 1, seq![]) {
            PatternScan::Closed(p, e) => r matches Ok((q, x)) && q@ == p && x == e,
            PatternScan::Open => r matches Err(None),
            PatternScan::Capturing(e) => r matches Err(Some(x)) && x == e,
        },
{
    let mut i = k;
    let mut count: usize = 1;
    let mut acc = String::new();
    loop
        invariant
            k <= i <= chars@.len(),
            1 <= count <= i,
            scan_pattern(chars@, k as nat, 1, seq![]) == scan_pattern(chars@, i as nat, count as nat, acc@),
        decreases chars@.len() - i,
    {
        if i >= chars.len() {
            return Err(None);
        }
        if chars[i] == '\\' {
            if i + 1 >= chars.len() {
                return Err(None);
            }
            crate::text::push_char(&mut acc, chars[i]);
            crate::text::push_char(&mut acc, chars[i + 1]);
            i = i + 2;
            continue;
        }
        if chars[i] == ')' {
            if count <= 1 {
                return Ok((acc, i + 1));
            }
            count = count - 1;
            crate::text::push_char(&mut acc, ')');
            i = i + 1;
            continue;
        }
        if chars[i] == '(' {
            if i + 1 < chars.len() && chars[i + 1] == '?' {
                count = count + 1;
                crate::text::push_char(&mut acc, '(');
                i = i + 1;
                continue;
            }
            return Err(Some(i));
        }
        crate::text::push_char(&mut acc, chars[i]);
        i = i + 1;
    }
}

/// Lexes a path pattern; `None` exactly where `spec_path_lex` is `None`.
fn lex_path(string: &String) -> (r: Option<Result<Iter, PathError>>)
    ensures
        r is None <==> spec_path_lex(string@) is None,
        r matches Some(Ok(it)) ==> spec_path_lex(string@) == Some(Ok::<Seq<TokenView>, PathError>(it.spec_tokens()))
            && it.spec_index() == 0,
        r matches Some(Err(e)) ==> spec_path_lex(string@) == Some(Err::<Seq<TokenView>, PathError>(e)),
{
    let name_chars = match Pattern::new(CHAR_REGEX, false) {
        Ok(p) => p,
        Err(_) => return None,
    };
    let chars = chars_of(string.as_str());
    let length = chars.len();
    let mut tokens: Vec<Token> = Vec::new();
    let mut index: usize = 0;
    proof {
        assert(tokens_view(tokens@) =~= Seq::<TokenView>::empty());
    }
    while index < length
        invariant
            length == chars@.len(),
            chars@ == string@,
            index <= length,
            name_chars@ == (CHAR_REGEX@, false),
            regex_builds(CHAR_REGEX@, false),
            lex_path_from(chars@, 0, seq![]) == lex_path_from(chars@, index as nat, tokens_view(tokens@)),
        decreases length - index,
    {
        let value = chars[index];
        let ghost before = tokens_view(tokens@);
        match TokenType::from(value) {
            Some(token) => {
                tokens.push(Token::new(token, index, char_string(value)));
                index = index + 1;
            },
            None => {
                if value == '\\' {
                    tokens.push(Token::new(TokenType::Escaped, index, char_string(value)));
                    index = index + 1;
                } else if value == ':' {
                    proof {
                        lemma_name_end_bounds(chars@, index as nat);
                    }
                    match name_end_exec(&chars, index, &name_chars) {
                        None => return None,
                        Some(e) => {
                            if e == index {
                                return Some(Err(PathError::MissingParameterName(index)));
                            }
                            let name = string_from_range(chars.as_slice(), index + 1, e + 1);
                            tokens.push(Token::new(TokenType::Name, e, name));
                            index = e + 1;
                        },
                    }
                } else if value == '(' {
                    let pos = index;
                    if index + 1 < length && chars[index + 1] == '?' {
                        return Some(Err(PathError::PatternStartsWithQuestionMark(index + 1)));
                    }
                    proof {
                        lemma_scan_pattern_bounds(chars@, (index + 1) as nat, 1, seq![]);
                    }
                    match scan_pattern_exec(&chars, index + 1) {
                        Err(None) => return Some(Err(PathError::UnbalancedPattern(pos))),
                        Err(Some(j)) => return Some(Err(PathError::CapturingGroup(j))),
                        Ok((pattern, e)) => {
                            if pattern.as_str().is_empty() {
                                return Some(Err(PathError::MissingPattern(pos)));
                            }
                            tokens.push(Token::new(TokenType::Pattern, e, pattern));
                            index = e;
                        },
                    }
                } else {
                    tokens.push(Token::new(TokenType::Char, index, char_string(value)));
                    index = index + 1;
                }
            },
        }
        proof {
            assert(tokens_view(tokens@) =~= before.push(tokens@.last()@));
        }
    }
    let ghost before = tokens_view(tokens@);
    tokens.push(Token::new(TokenType::End, index, String::new()));
    proof {
        assert(tokens_view(tokens@) =~= before.push(tokens@.last()@));
    }
    Some(Ok(Iter::new(tokens)))
}

/// Lexes a path pattern into tokens, or says why it is refused: a `:`
/// without a name, or a bracketed pattern that starts with `?`, is empty,
/// is not closed or holds a capturing group.
pub fn lexer(string: &String) -> (r: Result<Iter, PathError>)
    requires
        spec_path_lex(string@) is Some,
    ensures
        r matches Ok(it) ==> spec_path_lex(string@) == Some(Ok::<Seq<TokenView>, PathError>(it.spec_tokens()))
            && it.spec_index() == 0,
        r matches Err(e) ==> spec_path_lex(string@) == Some(Err::<Seq<TokenView>, PathError>(e)),
{
    match lex_path(string) {
        Some(r) => r,
        None => {
            proof {
                assert(false);
            }
            Err(PathError::MissingPattern(0))
        },
    }
}

/// Lexes a path pattern where that does not read past its end: `None`
/// exactly where `spec_path_lex` is `None`.
pub fn try_lexer(string: &String) -> (r: Option<Result<Iter, PathError>>)
    ensures
        r is None <==> spec_path_lex(string@) is None,
        r matches Some(Ok(it)) ==> spec_path_lex(string@) == Some(Ok::<Seq<TokenView>, PathError>(it.spec_tokens()))
            && it.spec_index() == 0,
        r matches Some(Err(e)) ==> spec_path_lex(string@) == Some(Err::<Seq<TokenView>, PathError>(e)),
{
    if lex_path(string).is_some() {
        Some(lexer(string))
    } else {
        None
    }
}

} // verus!

verus! {

/// The text that the `Char` and `Escaped` tokens from position `i` on
/// spell, and the position of the first token that is neither.
pub open spec fn text_run(toks: Seq<TokenView>, i: nat) -> (Seq<char>, nat)
    decreases toks.len() - i,
{
    if i < toks.len() && (toks[i as int].kind == TokenType::Char || toks[i as int].kind == TokenType::Escaped) {
        let (t, e) = text_run(toks, i + 1);
        (toks[i as int].value + t, e)
    } else {
        (seq![], i)
    }
}

pub proof fn lemma_text_run_bounds(toks: Seq<TokenView>, i: nat)
    ensures
        i <= text_run(toks, i).1,
        i <= toks.len() ==> text_run(toks, i).1 <= toks.len(),
    decreases toks.len() - i,
{
    if i < toks.len() && (toks[i as int].kind == TokenType::Char || toks[i as int].kind == TokenType::Escaped) {
        lemma_text_run_bounds(toks, i + 1);
    }
}

impl Iter {
    /// The next token; there must be one.
    pub fn peek(&self) -> (t: &Token)
        requires
            self.spec_index() < self.spec_tokens().len(),
        ensures
            t@ == self.spec_tokens()[self.spec_index() as int],
    {
        &self.tokens[self.index]
    }

    /// Takes the next token's text when it is of kind `token_type`; there
    /// must be a next token.
    pub fn try_consume(&mut self, token_type: TokenType) -> (r: Option<String>)
        requires
            old(self).spec_index() < old(self).spec_tokens().len(),
        ensures
            final(self).spec_tokens() == old(self).spec_tokens(),
            old(self).spec_tokens()[old(self).spec_index() as int].kind == token_type ==> {
                &&& r matches Some(v) && v@ == old(self).spec_tokens()[old(self).spec_index() as int].value
                &&& final(self).spec_index() == old(self).spec_index() + 1
            },
            old(self).spec_tokens()[old(self).spec_index() as int].kind != token_type ==> {
                &&& r is None
                &&& final(self).spec_index() == old(self).spec_index()
            },
    {
        proof {
            assert(self.spec_tokens().len() == self.tokens@.len());
        }
        let token = &self.tokens[self.index];
        if !token.kind().eq(&token_type) {
            return None;
        }
        let value = token.text();
        let count = self.tokens.len();
        proof {
            assert(self.index < count);
        }
        self.index = self.index + 1;
        Some(value)
    }

    /// Takes the next token's text, which must be of kind `token_type`;
    /// otherwise says what was found where.
    pub fn consume(&mut self, token_type: TokenType) -> (r: Result<String, PathError>)
        requires
            old(self).spec_index() < old(self).spec_tokens().len(),
        ensures
            final(self).spec_tokens() == old(self).spec_tokens(),
            old(self).spec_tokens()[old(self).spec_index() as int].kind == token_type ==> {
                &&& r matches Ok(v) && v@ == old(self).spec_tokens()[old(self).spec_index() as int].value
                &&& final(self).spec_index() == old(self).spec_index() + 1
            },
            old(self).spec_tokens()[old(self).spec_index() as int].kind != token_type ==> {
                &&& r == Err::<String, PathError>(PathError::Unexpected(
                    old(self).spec_tokens()[old(self).spec_index() as int].kind,
                    old(self).spec_index() as usize,
                    token_type,
                ))
                &&& final(self).spec_index() == old(self).spec_index()
            },
    {
        let value = self.try_consume(token_type);
        match value {
            Some(value) => Ok(value),
            None => {
                let next = self.peek();
                Err(PathError::Unexpected(next.kind(), self.index, token_type))
            },
        }
    }

    /// Takes a `?`, `*` or `+` modifier, in that order of preference, when
    /// the next token is one.
    pub fn modifier(&mut self) -> (r: Option<String>)
        requires
            old(self).spec_index() < old(self).spec_tokens().len(),
        ensures
            final(self).spec_tokens() == old(self).spec_tokens(),
            ({
                let t = old(self).spec_tokens()[old(self).spec_index() as int];
                if t.kind == TokenType::QuestionMark || t.kind == TokenType::Asterisk || t.kind == TokenType::Plus {
                    r matches Some(v) && v@ == t.value && final(self).spec_index() == old(self).spec_index() + 1
                } else {
                    r is None && final(self).spec_index() == old(self).spec_index()
                }
            }),
    {
        match self.try_consume(TokenType::QuestionMark) {
            Some(value) => Some(value),
            None => match self.try_consume(TokenType::Asterisk) {
                Some(value) => Some(value),
                None => self.try_consume(TokenType::Plus),
            },
        }
    }

    fn next(&mut self) -> (r: Option<String>)
        requires
            old(self).spec_index() < old(self).spec_tokens().len(),
        ensures
            final(self).spec_tokens() == old(self).spec_tokens(),
            ({
                let t = old(self).spec_tokens()[old(self).spec_index() as int];
                if t.kind == TokenType::Char || t.kind == TokenType::Escaped {
                    r matches Some(v) && v@ == t.value && final(self).spec_index() == old(self).spec_index() + 1
                } else {
                    r is None && final(self).spec_index() == old(self).spec_index()
                }
            }),
    {
        match self.try_consume(TokenType::Char) {
            Some(value) => Some(value),
            None => self.try_consume(TokenType::Escaped),
        }
    }

    /// Whether a token is left at the current position.
    pub fn has_next(&self) -> (r: bool)
        ensures
            r == (self.spec_index() < self.spec_tokens().len()),
    {
        proof {
            assert(self.spec_tokens().len() == self.tokens@.len());
        }
        self.index < self.tokens.len()
    }

    /// Whether a token of another kind than `Char` and `Escaped` comes at or
    /// after the current position.
    pub fn text_is_closed(&self) -> (r: bool)
        ensures
            r == (text_run(self.spec_tokens(), self.spec_index()).1 < self.spec_tokens().len()),
    {
        let ghost toks = self.spec_tokens();
        proof {
            assert(toks.len() == self.tokens@.len());
            lemma_text_run_bounds(toks, self.spec_index());
        }
        if self.index >= self.tokens.len() {
            return false;
        }
        let mut i = self.index;
        while i < self.tokens.len()
            invariant
                toks == self.spec_tokens(),
                toks.len() == self.tokens@.len(),
                self.spec_index() <= i <= toks.len(),
                text_run(toks, self.spec_index()).1 == text_run(toks, i as nat).1,
            decreases toks.len() - i,
        {
            let t = self.tokens[i].kind();
            if t != TokenType::Char && t != TokenType::Escaped {
                proof {
                    assert(toks[i as int] == self.tokens@[i as int]@);
                }
                return true;
            }
            proof {
                assert(toks[i as int] == self.tokens@[i as int]@);
            }
            i = i + 1;
        }
        false
    }

    /// Takes the `Char` and `Escaped` tokens from the current position on
    /// and gives the text they spell; a token of another kind must follow.
    pub fn text(&mut self) -> (result: String)
        requires
            text_run(old(self).spec_tokens(), old(self).spec_index()).1 < old(self).spec_tokens().len(),
        ensures
            final(self).spec_tokens() == old(self).spec_tokens(),
            result@ == text_run(old(self).spec_tokens(), old(self).spec_index()).0,
            final(self).spec_index() == text_run(old(self).spec_tokens(), old(self).spec_index()).1,
    {
        let ghost toks = self.spec_tokens();
        let ghost start = self.spec_index();
        let mut result = String::new();
        proof {
            lemma_text_run_bounds(toks, start);
        }
        loop
            invariant
                toks == old(self).spec_tokens(),
                start == old(self).spec_index(),
                self.spec_tokens() == toks,
                start <= self.spec_index() <= text_run(toks, start).1,
                text_run(toks, start).1 < toks.len(),
                text_run(toks, start).1 == text_run(toks, self.spec_index()).1,
                text_run(toks, start).0 == result@ + text_run(toks, self.spec_index()).0,
            decreases toks.len() - self.spec_index(),
        {
            let ghost i = self.spec_index();
            match self.next() {
                Some(value) => {
                    proof {
                        lemma_text_run_bounds(toks, i + 1);
                        assert(result@ + value@ + text_run(toks, i + 1).0 =~= result@ + (toks[i as int].value
                            + text_run(toks, i + 1).0));
                    }
                    result.append(value.as_str());
                },
                None => {
                    proof {
                        assert(result@ + text_run(toks, i).0 =~= result@);
                    }
                    return result;
                },
            }
        }
    }
}

} // verus!
