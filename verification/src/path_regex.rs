//! Path patterns such as `/user/:id` turned into regular expressions:
//! a lexer, a parser into segments, and the compiler to a pattern string
//! and the list of parameter names.
use vstd::prelude::*;
use std::collections::VecDeque;
use crate::pattern::{Pattern, regex_builds, regex_is_match, regex_replace_all};
use crate::text::{chars_of, push_char, char_string, string_from_range};

verus! {

/// The path delimiter.
pub const DELIMITER: &'static str = "/";

/// The path delimiter as it is escaped inside a regular expression.
pub const ESCAPED_DELIMITER: &'static str = "\\/";

/// The regular expression of a character that may start a parameter name.
pub const ID_START: &'static str = "^[$_\\p{ID_Start}]$";

/// The regular expression of a character that may continue a parameter name.
pub const ID_CONTINUE: &'static str = "^[$\\u200c\\u200d\\p{ID_Continue}]$";

/// The regular expression of the characters that `escape` marks.
pub const ESCAPE: &'static str = "[.+*?^${}()\\[\\]|/\\\\]";

/// What `escape` puts in place of each marked character.
pub const ESCAPE_REPLACEMENT: &'static str = "\\$&";

/// The kind of a lexed token.
#[derive(Debug, Clone, Copy, PartialEq, Eq, Structural)]
pub enum TokenType {
    OpenBracket,
    ClosedBracket,
    WildCard,
    Param,
    Char,
    Escaped,
    End,
    Reserved,
}

/// The name of a token kind, as error messages show it.
pub open spec fn token_type_name(t: TokenType) -> Seq<char> {
    match t {
        TokenType::OpenBracket => "{"@,
        TokenType::ClosedBracket => "}"@,
        TokenType::WildCard => "WILDCARD"@,
        TokenType::Param => "PARAM"@,
        TokenType::Char => "CHAR"@,
        TokenType::Escaped => "ESCAPED"@,
        TokenType::End => "END"@,
        TokenType::Reserved => "RESERVED"@,
    }
}

/// The kind of token that a character starts.
pub open spec fn token_type_of(c: char) -> TokenType {
    if c == '{' {
        TokenType::OpenBracket
    } else if c == '}' {
        TokenType::ClosedBracket
    } else if c == '*' {
        TokenType::WildCard
    } else if c == ':' {
        TokenType::Param
    } else if c == '\\' {
        TokenType::Escaped
    } else if c == '(' || c == ')' || c == '[' || c == ']' || c == '+' || c == '?' || c == '!' {
        TokenType::Reserved
    } else {
        TokenType::Char
    }
}

impl TokenType {
    /// The name of this token kind.
    pub fn as_str(&self) -> (name: &'static str)
        ensures
            name@ == token_type_name(*self),
    {
        match self {
            TokenType::OpenBracket => "{",
            TokenType::ClosedBracket => "}",
            TokenType::WildCard => "WILDCARD",
            TokenType::Param => "PARAM",
            TokenType::Char => "CHAR",
            TokenType::Escaped => "ESCAPED",
            TokenType::End => "END",
            TokenType::Reserved => "RESERVED",
        }
    }

    /// The kind of token that `c` starts; characters reserved for future
    /// syntax are `Reserved`, all others not listed are `Char`.
    pub fn from(c: char) -> (t: TokenType)
        ensures
            t == token_type_of(c),
    {
        match c {
            '{' => TokenType::OpenBracket,
            '}' => TokenType::ClosedBracket,
            '*' => TokenType::WildCard,
            ':' => TokenType::Param,
            '\\' => TokenType::Escaped,
            '(' => TokenType::Reserved,
            ')' => TokenType::Reserved,
            '[' => TokenType::Reserved,
            ']' => TokenType::Reserved,
            '+' => TokenType::Reserved,
            '?' => TokenType::Reserved,
            '!' => TokenType::Reserved,
            _ => TokenType::Char,
        }
    }
}

/// A lexed token: its kind, the position the lexer had reached, and its text.
pub struct Token {
    pub token_type: TokenType,
    index: usize,
    pub value: String,
}

/// A token as a mathematical value.
pub struct TokenView {
    pub kind: TokenType,
    pub index: nat,
    pub value: Seq<char>,
}

impl View for Token {
    type V = TokenView;

    closed spec fn view(&self) -> TokenView {
        TokenView { kind: self.token_type, index: self.index as nat, value: self.value@ }
    }
}

/// Whether `c` may start a parameter name.
pub open spec fn is_id_start(c: char) -> bool {
    regex_is_match(ID_START@, true, seq![c])
}

/// Whether `c` may continue a parameter name.
pub open spec fn is_id_continue(c: char) -> bool {
    regex_is_match(ID_CONTINUE@, true, seq![c])
}

/// The end of the run of name-continuing characters that starts at `k`.
pub open spec fn id_run_end(chars: Seq<char>, k: nat) -> nat
    decreases chars.len() - k,
{
    if k < chars.len() && is_id_continue(chars[k as int]) {
        id_run_end(chars, k + 1)
    } else {
        k
    }
}

/// The rest of a quoted name from position `k` on, `acc` holding what was
/// read so far: a backslash takes the next character literally, a double
/// quote ends the name. Gives the name and the position after the closing
/// quote, or `None` when the text ends first.
pub open spec fn scan_quoted(chars: Seq<char>, k: nat, acc: Seq<char>) -> Option<(Seq<char>, nat)>
    decreases chars.len() - k,
{
    if k >= chars.len() {
        None
    } else if chars[k as int] == '"' {
        Some((acc, k + 1))
    } else if chars[k as int] == '\\' {
        if k + 1 >= chars.len() {
            None
        } else {
            scan_quoted(chars, k + 2, acc.push(chars[k + 1 as int]))
        }
    } else {
        scan_quoted(chars, k + 1, acc.push(chars[k as int]))
    }
}

/// The name that follows the `:` or `*` at position `i`, and the position
/// after it: an identifier, or a quoted text that is not empty. `None` when
/// neither follows.
pub open spec fn scan_name(chars: Seq<char>, i: nat) -> Option<(Seq<char>, nat)> {
    let j = i + 1;
    if j >= chars.len() {
        None
    } else if is_id_start(chars[j as int]) {
        let e = id_run_end(chars, j + 1);
        Some((chars.subrange(j as int, e as int), e))
    } else if chars[j as int] == '"' {
        match scan_quoted(chars, j + 1, seq![]) {
            Some((v, e)) => if v.len() == 0 { None } else { Some((v, e)) },
            None => None,
        }
    } else {
        None
    }
}

proof fn lemma_id_run_end_bounds(chars: Seq<char>, k: nat)
    ensures
        k <= id_run_end(chars, k),
        k <= chars.len() ==> id_run_end(chars, k) <= chars.len(),
    decreases chars.len() - k,
{
    if k < chars.len() && is_id_continue(chars[k as int]) {
        lemma_id_run_end_bounds(chars, k + 1);
    }
}

proof fn lemma_scan_quoted_bounds(chars: Seq<char>, k: nat, acc: Seq<char>)
    ensures
        scan_quoted(chars, k, acc) matches Some((v, e)) ==> k < e <= chars.len(),
    decreases chars.len() - k,
{
    if k >= chars.len() {
    } else if chars[k as int] == '"' {
    } else if chars[k as int] == '\\' {
        if k + 1 < chars.len() {
            lemma_scan_quoted_bounds(chars, k + 2, acc.push(chars[k + 1 as int]));
        }
    } else {
        lemma_scan_quoted_bounds(chars, k + 1, acc.push(chars[k as int]));
    }
}

/// A name always ends after the character that introduces it.
pub proof fn lemma_scan_name_advances(chars: Seq<char>, i: nat)
    ensures
        scan_name(chars, i) matches Some((v, e)) ==> i + 1 < e <= chars.len(),
{
    let j = i + 1;
    if j < chars.len() {
        lemma_id_run_end_bounds(chars, j + 1);
        lemma_scan_quoted_bounds(chars, j + 1, seq![]);
    }
}

/// The tokens of `chars` from position `idx` on, appended to `acc`; `None`
/// where the text cannot be lexed (a backslash or a `:`/`*` without what
/// must follow it).
pub open spec fn lex_from(chars: Seq<char>, idx: nat, acc: Seq<TokenView>) -> Option<Seq<TokenView>>
    decreases chars.len() - idx,
{
    if idx >= chars.len() {
        Some(acc.push(TokenView { kind: TokenType::End, index: idx, value: seq![] }))
    } else {
        let c = chars[idx as int];
        let t = token_type_of(c);
        if t == TokenType::OpenBracket || t == TokenType::ClosedBracket {
            lex_from(chars, idx + 1, acc.push(TokenView { kind: t, index: idx, value: seq![c] }))
        } else if t == TokenType::Escaped {
            if idx + 1 >= chars.len() {
                None
            } else {
                lex_from(
                    chars,
                    idx + 1,
                    acc.push(TokenView { kind: TokenType::Escaped, index: idx, value: seq![chars[idx + 1 as int]] }),
                )
            }
        } else if t == TokenType::Param || t == TokenType::WildCard {
            proof {
                lemma_scan_name_advances(chars, idx);
            }
            match scan_name(chars, idx) {
                Some((v, e)) => lex_from(chars, e, acc.push(TokenView { kind: t, index: e, value: v })),
                None => None,
            }
        } else {
            lex_from(chars, idx + 1, acc.push(TokenView { kind: TokenType::Char, index: idx, value: seq![c] }))
        }
    }
}

/// The tokens of a path, ending with an `End` token, when the path can be
/// lexed and the name patterns compile.
pub open spec fn spec_lex(path: Seq<char>) -> Option<Seq<TokenView>> {
    if regex_builds(ID_START@, true) && regex_builds(ID_CONTINUE@, true) {
        lex_from(path, 0, seq![])
    } else {
        None
    }
}

} // verus!

verus! {

/// The views of a sequence of tokens.
pub open spec fn tokens_view(tokens: Seq<Token>) -> Seq<TokenView> {
    tokens.map_values(|t: Token| t@)
}

/// Tokens of a path, consumed from the front.
pub struct Iter {
    pub tokens: VecDeque<Token>,
}

impl Iter {
    /// The tokens still to be consumed.
    pub open spec fn model(&self) -> Seq<TokenView> {
        tokens_view(self.tokens@)
    }

    pub fn new(tokens: VecDeque<Token>) -> (it: Iter)
        ensures
            it.tokens@ == tokens@,
    {
        Iter { tokens }
    }
}

/// Whether the one-character text `c` matches `pattern`.
fn char_matches(pattern: &Pattern, c: char) -> (r: bool)
    ensures
        r == regex_is_match(pattern@.0, pattern@.1, seq![c]),
{
    let s = char_string(c);
    pattern.is_match(s.as_str())
}

fn scan_id_run_exec(chars: &Vec<char>, k: usize, id_continue: &Pattern) -> (e: usize)
    requires
        k <= chars@.len(),
        id_continue@ == (ID_CONTINUE@, true),
    ensures
        e as nat == id_run_end(chars@, k as nat),
        k <= e <= chars@.len(),
{
    let mut i = k;
    while i < chars.len() && char_matches(id_continue, chars[i])
        invariant
            k <= i <= chars@.len(),
            id_continue@ == (ID_CONTINUE@, true),
            id_run_end(chars@, k as nat) == id_run_end(chars@, i as nat),
        decreases chars@.len() - i,
    {
        i = i + 1;
    }
    i
}

fn scan_quoted_exec(chars: &Vec<char>, k: usize) -> (r: Option<(String, usize)>)
    requires
        k <= chars@.len(),
    ensures
        r is None <==> scan_quoted(chars@, k as nat, seq![]) is None,
        r matches Some((v, e)) ==> scan_quoted(chars@, k as nat, seq![]) == Some((v@, e as nat)),
{
    let mut i = k;
    let mut acc = String::new();
    loop
        invariant
            i <= chars@.len(),
            scan_quoted(chars@, k as nat, seq![]) == scan_quoted(chars@, i as nat, acc@),
        decreases chars@.len() - i,
    {
        if i >= chars.len() {
            return None;
        }
        let c = chars[i];
        if c == '"' {
            return Some((acc, i + 1));
        }
        if c == '\\' {
            if i + 1 >= chars.len() {
                return None;
            }
            push_char(&mut acc, chars[i + 1]);
            i = i + 2;
        } else {
            push_char(&mut acc, c);
            i = i + 1;
        }
    }
}

fn scan_name_exec(chars: &Vec<char>, i: usize, id_start: &Pattern, id_continue: &Pattern) -> (r: Option<(String, usize)>)
    requires
        i < chars.len(),
        id_start@ == (ID_START@, true),
        id_continue@ == (ID_CONTINUE@, true),
    ensures
        r is None <==> scan_name(chars@, i as nat) is None,
        r matches Some((v, e)) ==> scan_name(chars@, i as nat) == Some((v@, e as nat)),
{
    let j = i + 1;
    if j >= chars.len() {
        return None;
    }
    if char_matches(id_start, chars[j]) {
        let e = scan_id_run_exec(chars, j + 1, id_continue);
        let v = string_from_range(chars.as_slice(), j, e);
        Some((v, e))
    } else if chars[j] == '"' {
        match scan_quoted_exec(chars, j + 1) {
            Some((v, e)) => {
                if v.as_str().is_empty() {
                    None
                } else {
                    Some((v, e))
                }
            },
            None => None,
        }
    } else {
        None
    }
}

fn make_token(token_type: TokenType, index: usize, value: String) -> (t: Token)
    ensures
        t@ == (TokenView { kind: token_type, index: index as nat, value: value@ }),
{
    Token { token_type, index, value }
}

/// Lexes a path; `None` exactly where `spec_lex` has no tokens for it.
fn lex_tokens(path: &str) -> (r: Option<Iter>)
    ensures
        r is Some <==> spec_lex(path@) is Some,
        r matches Some(it) ==> it.model() == spec_lex(path@).unwrap(),
{
    let id_start = match Pattern::new(ID_START, true) {
        Ok(p) => p,
        Err(_) => return None,
    };
    let id_continue = match Pattern::new(ID_CONTINUE, true) {
        Ok(p) => p,
        Err(_) => return None,
    };
    let chars = chars_of(path);
    let length = chars.len();
    let mut tokens: VecDeque<Token> = VecDeque::new();
    let mut index: usize = 0;
    proof {
        assert(tokens_view(tokens@) =~= Seq::<TokenView>::empty());
    }
    while index < length
        invariant
            length == chars@.len(),
            chars@ == path@,
            index <= length,
            id_start@ == (ID_START@, true),
            id_continue@ == (ID_CONTINUE@, true),
            regex_builds(ID_START@, true),
            regex_builds(ID_CONTINUE@, true),
            lex_from(chars@, 0, seq![]) == lex_from(chars@, index as nat, tokens_view(tokens@)),
        decreases length - index,
    {
        let value = chars[index];
        let token = TokenType::from(value);
        let ghost before = tokens_view(tokens@);
        match token {
            TokenType::ClosedBracket | TokenType::OpenBracket => {
                let t = make_token(token, index, char_string(value));
                tokens.push_back(t);
                index = index + 1;
            },
            TokenType::Escaped => {
                if index + 1 >= length {
                    return None;
                }
                let t = make_token(token, index, char_string(chars[index + 1]));
                tokens.push_back(t);
                index = index + 1;
            },
            TokenType::Param | TokenType::WildCard => {
                match scan_name_exec(&chars, index, &id_start, &id_continue) {
                    Some((name, inc)) => {
                        proof {
                            lemma_scan_name_advances(chars@, index as nat);
                        }
                        index = inc;
                        let t = make_token(token, index, name);
                        tokens.push_back(t);
                    },
                    None => return None,
                }
            },
            _ => {
                let t = make_token(TokenType::Char, index, char_string(value));
                tokens.push_back(t);
                index = index + 1;
            },
        }
        proof {
            assert(tokens_view(tokens@) =~= before.push(tokens@.last()@));
        }
    }
    let end = make_token(TokenType::End, index, String::new());
    let ghost before = tokens_view(tokens@);
    tokens.push_back(end);
    proof {
        assert(tokens_view(tokens@) =~= before.push(tokens@.last()@));
    }
    Some(Iter::new(tokens))
}

/// Lexes a path when it can be lexed: `None` where `spec_lex` has no
/// tokens for it (the name patterns do not compile, or a backslash, `:` or
/// `*` lacks what must follow it).
pub fn try_lexer(path: &str) -> (r: Option<Iter>)
    ensures
        r is Some <==> spec_lex(path@) is Some,
        r matches Some(it) ==> it.model() == spec_lex(path@).unwrap(),
{
    if lex_tokens(path).is_some() {
        Some(lexer(path))
    } else {
        None
    }
}

/// Lexes a path that `spec_lex` accepts.
pub fn lexer(path: &str) -> (it: Iter)
    requires
        spec_lex(path@) is Some,
    ensures
        it.model() == spec_lex(path@).unwrap(),
{
    match lex_tokens(path) {
        Some(it) => it,
        None => {
            proof {
                assert(false);
            }
            Iter::new(VecDeque::new())
        },
    }
}

} // verus!

verus! {

/// The text that the leading `Char` and `Escaped` tokens spell, and how
/// many tokens that is.
pub open spec fn text_prefix(toks: Seq<TokenView>) -> (Seq<char>, nat)
    decreases toks.len(),
{
    if toks.len() > 0 && (toks[0].kind == TokenType::Char || toks[0].kind == TokenType::Escaped) {
        let (t, n) = text_prefix(toks.drop_first());
        (toks[0].value + t, n + 1)
    } else {
        (seq![], 0)
    }
}

pub proof fn lemma_text_prefix_len(toks: Seq<TokenView>)
    ensures
        text_prefix(toks).1 <= toks.len(),
    decreases toks.len(),
{
    if toks.len() > 0 && (toks[0].kind == TokenType::Char || toks[0].kind == TokenType::Escaped) {
        lemma_text_prefix_len(toks.drop_first());
    }
}

impl Iter {
    /// The first token, if any.
    pub fn peek(&self) -> (t: Option<&Token>)
        ensures
            t is None <==> self.tokens@.len() == 0,
            t matches Some(t) ==> *t == self.tokens@[0],
    {
        if self.tokens.len() > 0 {
            Some(&self.tokens[0])
        } else {
            None
        }
    }

    /// Takes the first token's text when the first token is of kind `token`;
    /// otherwise leaves the tokens as they are.
    pub fn try_consume(&mut self, token: TokenType) -> (r: Option<String>)
        ensures
            old(self).model().len() > 0 && old(self).model()[0].kind == token ==> {
                &&& r matches Some(v) && v@ == old(self).model()[0].value
                &&& final(self).model() == old(self).model().drop_first()
            },
            !(old(self).model().len() > 0 && old(self).model()[0].kind == token) ==> {
                &&& r is None
                &&& final(self).model() == old(self).model()
            },
    {
        let ghost m = self.model();
        if self.tokens.len() > 0 && self.tokens[0].token_type == token {
            proof {
                assert(m[0] == self.tokens@[0]@);
            }
            match self.tokens.pop_front() {
                Some(t) => {
                    proof {
                        assert(self.model() =~= m.drop_first());
                    }
                    Some(t.value)
                },
                None => None,
            }
        } else {
            proof {
                if self.tokens@.len() > 0 {
                    assert(m[0] == self.tokens@[0]@);
                }
            }
            None
        }
    }

    /// Takes the first token's text; the first token must be of kind `token`.
    pub fn consume(&mut self, token: TokenType) -> (value: String)
        requires
            old(self).model().len() > 0,
            old(self).model()[0].kind == token,
        ensures
            value@ == old(self).model()[0].value,
            final(self).model() == old(self).model().drop_first(),
    {
        match self.try_consume(token) {
            Some(v) => v,
            None => {
                proof {
                    assert(false);
                }
                String::new()
            },
        }
    }

    fn next(&mut self) -> (r: Option<String>)
        ensures
            old(self).model().len() > 0 && (old(self).model()[0].kind == TokenType::Char
                || old(self).model()[0].kind == TokenType::Escaped) ==> {
                &&& r matches Some(v) && v@ == old(self).model()[0].value
                &&& final(self).model() == old(self).model().drop_first()
            },
            !(old(self).model().len() > 0 && (old(self).model()[0].kind == TokenType::Char
                || old(self).model()[0].kind == TokenType::Escaped)) ==> {
                &&& r is None
                &&& final(self).model() == old(self).model()
            },
    {
        match self.try_consume(TokenType::Char) {
            Some(value) => Some(value),
            None => self.try_consume(TokenType::Escaped),
        }
    }

    /// Takes the leading `Char` and `Escaped` tokens and gives the text they spell.
    pub fn text(&mut self) -> (result: String)
        ensures
            result@ == text_prefix(old(self).model()).0,
            final(self).model() == old(self).model().skip(text_prefix(old(self).model()).1 as int),
    {
        let ghost orig = self.model();
        let mut result = String::new();
        let ghost mut taken: nat = 0;
        proof {
            assert(orig.skip(0) =~= orig);
        }
        loop
            invariant
                orig == old(self).model(),
                taken <= orig.len(),
                self.model() == orig.skip(taken as int),
                text_prefix(orig).0 == result@ + text_prefix(self.model()).0,
                text_prefix(orig).1 == taken + text_prefix(self.model()).1,
            decreases self.model().len(),
        {
            let ghost cur = self.model();
            match self.next() {
                Some(next) => {
                    proof {
                        assert(cur.drop_first() =~= orig.skip(taken + 1 as int));
                        assert(result@ + next@ + text_prefix(cur.drop_first()).0
                            =~= result@ + (cur[0].value + text_prefix(cur.drop_first()).0));
                        taken = taken + 1;
                    }
                    result.append(next.as_str());
                },
                None => {
                    proof {
                        assert(result@ + text_prefix(cur).0 =~= result@);
                    }
                    return result;
                },
            }
        }
    }
}

} // verus!

verus! {

/// A parsed piece of a path.
pub enum Segment {
    Parameter(String),
    WildCard(String),
    Text(String),
    Group(Vec<Segment>),
}

/// A parsed piece of a path as a mathematical value.
pub enum SegmentView {
    Parameter(Seq<char>),
    WildCard(Seq<char>),
    Text(Seq<char>),
    Group(Seq<SegmentView>),
}

pub open spec fn segment_view(s: Segment) -> SegmentView
    decreases s,
{
    match s {
        Segment::Parameter(v) => SegmentView::Parameter(v@),
        Segment::WildCard(v) => SegmentView::WildCard(v@),
        Segment::Text(v) => SegmentView::Text(v@),
        Segment::Group(g) => SegmentView::Group(segments_view(g@)),
    }
}

pub open spec fn segments_view(s: Seq<Segment>) -> Seq<SegmentView>
    decreases s,
{
    if s.len() == 0 {
        seq![]
    } else {
        segments_view(s.drop_last()).push(segment_view(s.last()))
    }
}

proof fn lemma_segments_view_push(s: Seq<Segment>, x: Segment)
    ensures
        segments_view(s.push(x)) == segments_view(s).push(segment_view(x)),
{
    assert(s.push(x).drop_last() =~= s);
}

/// `t` without the delimiters at its start.
pub open spec fn strip_leading(t: Seq<char>) -> Seq<char>
    decreases t.len(),
{
    if t.len() > 0 && t[0] == '/' {
        strip_leading(t.drop_first())
    } else {
        t
    }
}

/// `t` without the delimiters at its end.
pub open spec fn strip_trailing(t: Seq<char>) -> Seq<char>
    decreases t.len(),
{
    if t.len() > 0 && t.last() == '/' {
        strip_trailing(t.drop_last())
    } else {
        t
    }
}

/// `t` without the delimiters at either end.
pub open spec fn trim_delimiters(t: Seq<char>) -> Seq<char> {
    strip_trailing(strip_leading(t))
}

fn trim_delimiters_exec(s: String) -> (r: String)
    ensures
        r@ == trim_delimiters(s@),
{
    let chars = chars_of(s.as_str());
    let n = chars.len();
    let mut a: usize = 0;
    proof {
        assert(chars@.subrange(0, n as int) =~= chars@);
    }
    while a < n && chars[a] == '/'
        invariant
            a <= n == chars@.len(),
            strip_leading(chars@) == strip_leading(chars@.subrange(a as int, n as int)),
        decreases n - a,
    {
        proof {
            assert(chars@.subrange(a as int, n as int).drop_first() =~= chars@.subrange(a + 1, n as int));
        }
        a = a + 1;
    }
    let ghost lead = chars@.subrange(a as int, n as int);
    proof {
        assert(strip_leading(lead) == lead);
        assert(lead.subrange(0, lead.len() as int) =~= lead);
    }
    let mut b: usize = n;
    while b > a && chars[b - 1] == '/'
        invariant
            a <= b <= n == chars@.len(),
            lead == chars@.subrange(a as int, n as int),
            strip_trailing(lead) == strip_trailing(chars@.subrange(a as int, b as int)),
        decreases b - a,
    {
        proof {
            assert(chars@.subrange(a as int, b as int).drop_last() =~= chars@.subrange(a as int, b - 1));
        }
        b = b - 1;
    }
    string_from_range(chars.as_slice(), a, b)
}

/// Parsing from the token sequence `toks` up to and including a token of
/// kind `end`: the segments found (appended to `acc`) and the tokens left.
/// Texts are trimmed of delimiters when `trim` holds and left out when
/// nothing remains of them. `None` where the tokens do not parse: a
/// wildcard, a missing `end`, or a token of another kind where `end` is due.
pub open spec fn parse_loop(
    toks: Seq<TokenView>,
    end: TokenType,
    trim: bool,
    acc: Seq<SegmentView>,
) -> Option<(Seq<SegmentView>, Seq<TokenView>)>
    decreases toks.len(),
{
    let (t, n) = text_prefix(toks);
    let shown = if trim { trim_delimiters(t) } else { t };
    let acc1 = if shown.len() > 0 { acc.push(SegmentView::Text(shown)) } else { acc };
    let rest = toks.skip(n as int);
    proof {
        lemma_text_prefix_len(toks);
    }
    if rest.len() == 0 {
        None
    } else if rest[0].kind == TokenType::Param {
        parse_loop(rest.drop_first(), end, trim, acc1.push(SegmentView::Parameter(rest[0].value)))
    } else if rest[0].kind == TokenType::WildCard {
        None
    } else if rest[0].kind == TokenType::OpenBracket {
        match parse_loop(rest.drop_first(), TokenType::ClosedBracket, trim, seq![]) {
            Some((g, rest2)) => if rest2.len() < toks.len() {
                parse_loop(rest2, end, trim, acc1.push(SegmentView::Group(g)))
            } else {
                None
            },
            None => None,
        }
    } else if rest[0].kind == end {
        Some((acc1, rest.drop_first()))
    } else {
        None
    }
}

/// Parsing leaves fewer tokens than it was given.
pub proof fn lemma_parse_loop_consumes(
    toks: Seq<TokenView>,
    end: TokenType,
    trim: bool,
    acc: Seq<SegmentView>,
)
    ensures
        parse_loop(toks, end, trim, acc) matches Some((_, r)) ==> r.len() < toks.len(),
    decreases toks.len(),
{
    let (t, n) = text_prefix(toks);
    let shown = if trim { trim_delimiters(t) } else { t };
    let acc1 = if shown.len() > 0 { acc.push(SegmentView::Text(shown)) } else { acc };
    let rest = toks.skip(n as int);
    lemma_text_prefix_len(toks);
    if rest.len() == 0 {
    } else if rest[0].kind == TokenType::Param {
        lemma_parse_loop_consumes(rest.drop_first(), end, trim, acc1.push(SegmentView::Parameter(rest[0].value)));
    } else if rest[0].kind == TokenType::WildCard {
    } else if rest[0].kind == TokenType::OpenBracket {
        lemma_parse_loop_consumes(rest.drop_first(), TokenType::ClosedBracket, trim, seq![]);
        match parse_loop(rest.drop_first(), TokenType::ClosedBracket, trim, seq![]) {
            Some((g, rest2)) => {
                if rest2.len() < toks.len() {
                    lemma_parse_loop_consumes(rest2, end, trim, acc1.push(SegmentView::Group(g)));
                }
            },
            None => {},
        }
    } else {
    }
}

} // verus!

verus! {

impl Iter {
    /// Parses segments up to and including a token of kind `end`; `None`
    /// exactly where `parse_loop` has no result.
    fn try_parse_segments(&mut self, end: TokenType, trim: bool) -> (segments: Option<Vec<Segment>>)
        ensures
            segments is None <==> parse_loop(old(self).model(), end, trim, seq![]) is None,
            segments matches Some(v) ==> parse_loop(old(self).model(), end, trim, seq![])
                == Some((segments_view(v@), final(self).model())),
        decreases old(self).model().len(),
    {
        let ghost orig = self.model();
        let mut tokens: Vec<Segment> = Vec::new();
        proof {
            assert(segments_view(tokens@) =~= Seq::<SegmentView>::empty());
        }
        loop
            invariant
                orig == old(self).model(),
                self.model().len() <= orig.len(),
                parse_loop(orig, end, trim, seq![]) == parse_loop(self.model(), end, trim, segments_view(tokens@)),
            decreases self.model().len(),
        {
            let ghost cur = self.model();
            let ghost acc = segments_view(tokens@);
            proof {
                lemma_text_prefix_len(cur);
            }
            let path = self.text();
            let shown = if trim { trim_delimiters_exec(path) } else { path };
            if !shown.as_str().is_empty() {
                let ghost before = tokens@;
                tokens.push(Segment::Text(shown));
                proof {
                    lemma_segments_view_push(before, tokens@.last());
                }
            }
            let ghost rest = self.model();
            let param = self.try_consume(TokenType::Param);
            if let Some(p) = param {
                let ghost before = tokens@;
                tokens.push(Segment::Parameter(p));
                proof {
                    lemma_segments_view_push(before, tokens@.last());
                }
                continue;
            }
            let wildcard = self.try_consume(TokenType::WildCard);
            if wildcard.is_some() {
                return None;
            }
            let open = self.try_consume(TokenType::OpenBracket);
            if open.is_some() {
                proof {
                    lemma_parse_loop_consumes(rest.drop_first(), TokenType::ClosedBracket, trim, seq![]);
                }
                match self.try_parse_segments(TokenType::ClosedBracket, trim) {
                    Some(group) => {
                        let ghost before = tokens@;
                        tokens.push(Segment::Group(group));
                        proof {
                            lemma_segments_view_push(before, tokens@.last());
                        }
                        continue;
                    },
                    None => return None,
                }
            }
            match self.peek() {
                Some(t) => {
                    if t.token_type != end {
                        return None;
                    }
                },
                None => return None,
            }
            self.consume(end);
            return Some(tokens);
        }
    }

    /// Parses segments up to and including a token of kind `end`.
    fn parse_segments(&mut self, end: TokenType, trim: bool) -> (segments: Vec<Segment>)
        requires
            parse_loop(old(self).model(), end, trim, seq![]) is Some,
        ensures
            parse_loop(old(self).model(), end, trim, seq![]) == Some((segments_view(segments@), final(self).model())),
    {
        match self.try_parse_segments(end, trim) {
            Some(v) => v,
            None => {
                proof {
                    assert(false);
                }
                Vec::new()
            },
        }
    }

    /// Parses the tokens up to and including a token of kind `end` into
    /// segments: the static texts, with the delimiters at their ends left
    /// out, the parameters, and the `{..}` groups.
    pub fn parse(&mut self, end: TokenType) -> (segments: VecDeque<Segment>)
        requires
            parse_loop(old(self).model(), end, true, seq![]) is Some,
        ensures
            parse_loop(old(self).model(), end, true, seq![]) == Some((segments_view(segments@), final(self).model())),
    {
        let mut v = self.parse_segments(end, true);
        let ghost all = v@;
        let mut out: VecDeque<Segment> = VecDeque::new();
        while v.len() > 0
            invariant
                v@.len() <= all.len(),
                v@ == all.subrange(0, v@.len() as int),
                out@ == all.subrange(v@.len() as int, all.len() as int),
            decreases v@.len(),
        {
            match v.pop() {
                Some(s) => {
                    out.push_front(s);
                    proof {
                        assert(out@ =~= all.subrange(v@.len() as int, all.len() as int));
                    }
                },
                None => {},
            }
        }
        proof {
            assert(out@ =~= all);
        }
        out
    }
}

} // verus!

verus! {

/// A segment once groups are spliced into their surroundings.
pub enum Flattened {
    Parameter(String),
    WildCard(String),
    Text(String),
}

/// A flattened segment as a mathematical value.
pub enum FlatView {
    Parameter(Seq<char>),
    WildCard(Seq<char>),
    Text(Seq<char>),
}

pub open spec fn flattened_view(f: Flattened) -> FlatView {
    match f {
        Flattened::Parameter(v) => FlatView::Parameter(v@),
        Flattened::WildCard(v) => FlatView::WildCard(v@),
        Flattened::Text(v) => FlatView::Text(v@),
    }
}

pub open spec fn flats_view(fs: Seq<Flattened>) -> Seq<FlatView> {
    fs.map_values(|f: Flattened| flattened_view(f))
}

/// The segments in order with the contents of every group put in its place.
pub open spec fn flatten_spec(segs: Seq<SegmentView>) -> Seq<FlatView>
    decreases segs,
{
    if segs.len() == 0 {
        seq![]
    } else {
        let last = match segs.last() {
            SegmentView::Group(g) => flatten_spec(g),
            SegmentView::Parameter(v) => seq![FlatView::Parameter(v)],
            SegmentView::WildCard(v) => seq![FlatView::WildCard(v)],
            SegmentView::Text(v) => seq![FlatView::Text(v)],
        };
        flatten_spec(segs.drop_last()) + last
    }
}

/// Splices the contents of every group into its surroundings.
pub fn flatten(segments: &Vec<Segment>) -> (output: Vec<Flattened>)
    ensures
        flats_view(output@) == flatten_spec(segments_view(segments@)),
    decreases segments@,
{
    let mut output: Vec<Flattened> = Vec::new();
    let mut i: usize = 0;
    proof {
        assert(flats_view(output@) =~= Seq::<FlatView>::empty());
        assert(segments@.subrange(0, 0) =~= Seq::<Segment>::empty());
    }
    while i < segments.len()
        invariant
            i <= segments@.len(),
            flats_view(output@) == flatten_spec(segments_view(segments@.subrange(0, i as int))),
        decreases segments@.len() - i,
    {
        let ghost prefix = segments@.subrange(0, i as int);
        let ghost before = flats_view(output@);
        proof {
            assert(segments@.subrange(0, i + 1) =~= prefix.push(segments@[i as int]));
            lemma_segments_view_push(prefix, segments@[i as int]);
            assert(segments_view(prefix.push(segments@[i as int])).drop_last() =~= segments_view(prefix));
        }
        match &segments[i] {
            Segment::Group(g) => {
                proof {
                    assert(decreases_to!(segments@ => segments@[i as int]));
                }
                let mut inner = flatten(g);
                let ghost inner_view = flats_view(inner@);
                output.append(&mut inner);
                proof {
                    assert(flats_view(output@) =~= before + inner_view);
                }
            },
            Segment::Parameter(v) => {
                output.push(Flattened::Parameter(v.clone()));
                proof {
                    assert(flats_view(output@) =~= before + seq![FlatView::Parameter(v@)]);
                }
            },
            Segment::WildCard(v) => {
                output.push(Flattened::WildCard(v.clone()));
                proof {
                    assert(flats_view(output@) =~= before + seq![FlatView::WildCard(v@)]);
                }
            },
            Segment::Text(v) => {
                output.push(Flattened::Text(v.clone()));
                proof {
                    assert(flats_view(output@) =~= before + seq![FlatView::Text(v@)]);
                }
            },
        }
        i = i + 1;
    }
    proof {
        assert(segments@.subrange(0, segments@.len() as int) =~= segments@);
    }
    output
}

} // verus!

verus! {

/// `s` with each character that has a meaning in regular expressions
/// replaced as `escape` does it.
pub open spec fn escape_spec(s: Seq<char>) -> Seq<char> {
    regex_replace_all(ESCAPE@, false, s, ESCAPE_REPLACEMENT@)
}

/// Whether `s` takes fewer than two bytes in UTF-8.
pub open spec fn is_short(s: Seq<char>) -> bool {
    s.len() == 0 || (s.len() == 1 && (s[0] as u32) < 128)
}

/// The character class, or lookahead, of a parameter's characters that
/// keeps the match from running into the text `s` that follows it.
pub open spec fn negate_spec(s: Seq<char>) -> Seq<char> {
    if is_short(s) {
        "[^"@ + DELIMITER@ + s + "]"@
    } else {
        "(?:(?!"@ + escape_spec(s) + ")[^"@ + ESCAPED_DELIMITER@ + "])"@
    }
}

/// The pattern body and the keys of flattened segments `fs` from position
/// `i` on, given what was built so far: the pattern, the keys, all the text
/// seen, and whether a parameter may start here without text before it.
/// `None` where a parameter follows another one with no text seen at all,
/// or where escaping is needed and the escape pattern does not compile.
pub open spec fn build_spec(
    fs: Seq<FlatView>,
    i: nat,
    pattern: Seq<char>,
    keys: Seq<Seq<char>>,
    backtrack: Seq<char>,
    safe: bool,
) -> Option<(Seq<char>, Seq<Seq<char>>)>
    decreases fs.len() - i,
{
    if i >= fs.len() {
        Some((pattern, keys))
    } else {
        match fs[i as int] {
            FlatView::Text(v) => if !regex_builds(ESCAPE@, false) {
                None
            } else {
                build_spec(fs, i + 1, pattern + escape_spec(v), keys, backtrack + v, safe || v.contains('/'))
            },
            FlatView::WildCard(v) => if !safe && backtrack.len() == 0 {
                None
            } else {
                build_spec(fs, i + 1, pattern + "([\\s\\S]+)"@, keys.push(v), backtrack, false)
            },
            FlatView::Parameter(v) => if !safe && backtrack.len() == 0 {
                None
            } else {
                let avoid = if safe { seq![] } else { backtrack };
                if !is_short(avoid) && !regex_builds(ESCAPE@, false) {
                    None
                } else {
                    build_spec(fs, i + 1, pattern + "("@ + negate_spec(avoid) + ")+"@, keys.push(v), backtrack, false)
                }
            },
        }
    }
}

/// A parameter's characters are kept from running into the text before it:
/// for a text of two or more bytes (two or more characters, or one outside
/// ASCII) by a lookahead that refuses the whole escaped text, `(?:(?!text)`
/// followed by one character other than the escaped delimiter; for a shorter
/// text by a class that refuses the delimiter and that text, `[^/text]`.
pub proof fn lemma_negate_forms(s: Seq<char>)
    ensures
        (s.len() >= 2 || (s.len() == 1 && (s[0] as u32) >= 128))
            ==> negate_spec(s) == seq!['(', '?', ':', '(', '?', '!'] + escape_spec(s) + seq![')', '[', '^', '\\', '/', ']', ')'],
        (s.len() == 0 || (s.len() == 1 && (s[0] as u32) < 128))
            ==> negate_spec(s) == seq!['[', '^', '/'] + s + seq![']'],
{
    reveal_strlit("[^");
    reveal_strlit("/");
    reveal_strlit("]");
    reveal_strlit("(?:(?!");
    reveal_strlit(")[^");
    reveal_strlit("\\/");
    reveal_strlit("])");
    assert("[^"@ + "/"@ =~= seq!['[', '^', '/']);
    assert(")[^"@ + "\\/"@ + "])"@ =~= seq![')', '[', '^', '\\', '/', ']', ')']);
    assert("[^"@ + "/"@ + s + "]"@ =~= seq!['[', '^', '/'] + s + seq![']']);
    assert("(?:(?!"@ + escape_spec(s) + ")[^"@ + "\\/"@ + "])"@
        =~= seq!['(', '?', ':', '(', '?', '!'] + escape_spec(s) + seq![')', '[', '^', '\\', '/', ']', ')']);
}

/// A parameter that follows text in the same segment (not after a `/`)
/// repeats the class that keeps it from running into all the text seen so
/// far: for two or more bytes of it the lookahead over that escaped text.
pub proof fn lemma_parameter_after_long_text(
    fs: Seq<FlatView>,
    i: nat,
    pattern: Seq<char>,
    keys: Seq<Seq<char>>,
    backtrack: Seq<char>,
    name: Seq<char>,
)
    requires
        i < fs.len(),
        fs[i as int] == FlatView::Parameter(name),
        backtrack.len() >= 2 || (backtrack.len() == 1 && (backtrack[0] as u32) >= 128),
        regex_builds(ESCAPE@, false),
    ensures
        build_spec(fs, i, pattern, keys, backtrack, false) == build_spec(
            fs,
            i + 1,
            pattern + seq!['(', '(', '?', ':', '(', '?', '!'] + escape_spec(backtrack)
                + seq![')', '[', '^', '\\', '/', ']', ')', ')', '+'],
            keys.push(name),
            backtrack,
            false,
        ),
{
    lemma_negate_forms(backtrack);
    reveal_strlit("(");
    reveal_strlit(")+");
    assert(pattern + "("@ + negate_spec(backtrack) + ")+"@ =~= pattern + seq!['(', '(', '?', ':', '(', '?', '!']
        + escape_spec(backtrack) + seq![')', '[', '^', '\\', '/', ']', ')', ')', '+']);
}

/// The regular expression of a path and the names of its parameters, in
/// order; `None` where the path does not lex, parse or compile.
pub open spec fn spec_compile(path: Seq<char>, trailing: bool, end: bool) -> Option<(Seq<char>, Seq<Seq<char>>)> {
    match spec_lex(path) {
        None => None,
        Some(toks) => match parse_loop(toks, TokenType::End, false, seq![]) {
            None => None,
            Some((segs, _)) => match build_spec(flatten_spec(segs), 0, seq![], seq![], seq![], true) {
                None => None,
                Some((body, keys)) => Some((
                    "^(?:"@ + body + ")"@
                        + (if trailing { "(?:$"@ + ESCAPED_DELIMITER@ + "$)?"@ } else { seq![] })
                        + (if end { "$"@ } else { "(?="@ + ESCAPED_DELIMITER@ + "|$)"@ }),
                    keys,
                )),
            },
        },
    }
}

/// The views of a list of strings.
pub open spec fn strings_view(v: Seq<String>) -> Seq<Seq<char>> {
    v.map_values(|s: String| s@)
}

fn escape(escaper: &Pattern, s: &str) -> (r: String)
    requires
        escaper@ == (ESCAPE@, false),
    ensures
        r@ == escape_spec(s@),
{
    escaper.replace_all(s, ESCAPE_REPLACEMENT)
}

fn is_short_exec(s: &str) -> (r: bool)
    ensures
        r == is_short(s@),
{
    let n = s.unicode_len();
    if n == 0 {
        true
    } else if n == 1 {
        (s.get_char(0) as u32) < 128
    } else {
        false
    }
}

fn negate(escaper: &Option<Pattern>, s: &str) -> (r: Option<String>)
    requires
        escaper matches Some(p) ==> p@ == (ESCAPE@, false),
        escaper is Some <==> regex_builds(ESCAPE@, false),
    ensures
        r is None <==> (!is_short(s@) && !regex_builds(ESCAPE@, false)),
        r matches Some(v) ==> v@ == negate_spec(s@),
{
    if is_short_exec(s) {
        let mut out = String::from_str("[^");
        out.append(DELIMITER);
        out.append(s);
        out.append("]");
        Some(out)
    } else {
        match escaper {
            Some(p) => {
                let mut out = String::from_str("(?:(?!");
                let e = escape(p, s);
                out.append(e.as_str());
                out.append(")[^");
                out.append(ESCAPED_DELIMITER);
                out.append("])");
                Some(out)
            },
            None => None,
        }
    }
}

fn contains_delimiter(s: &str) -> (r: bool)
    ensures
        r == s@.contains('/'),
{
    let chars = chars_of(s);
    let mut i: usize = 0;
    while i < chars.len()
        invariant
            i <= chars@.len(),
            chars@ == s@,
            forall|k: int| 0 <= k < i ==> chars@[k] != '/',
        decreases chars@.len() - i,
    {
        if chars[i] == '/' {
            return true;
        }
        i = i + 1;
    }
    false
}

fn build_pattern(fs: &Vec<Flattened>) -> (r: Option<(String, Vec<String>)>)
    ensures
        r is None <==> build_spec(flats_view(fs@), 0, seq![], seq![], seq![], true) is None,
        r matches Some((p, k)) ==> build_spec(flats_view(fs@), 0, seq![], seq![], seq![], true) == Some((p@, strings_view(k@))),
{
    let escaper = match Pattern::new(ESCAPE, false) {
        Ok(p) => Some(p),
        Err(_) => None,
    };
    let ghost fv = flats_view(fs@);
    let mut pattern = String::new();
    let mut keys: Vec<String> = Vec::new();
    let mut backtrack = String::new();
    let mut safe = true;
    let mut i: usize = 0;
    proof {
        assert(strings_view(keys@) =~= Seq::<Seq<char>>::empty());
    }
    while i < fs.len()
        invariant
            i <= fs@.len(),
            fv == flats_view(fs@),
            escaper matches Some(p) ==> p@ == (ESCAPE@, false),
            escaper is Some <==> regex_builds(ESCAPE@, false),
            build_spec(fv, 0, seq![], seq![], seq![], true)
                == build_spec(fv, i as nat, pattern@, strings_view(keys@), backtrack@, safe),
        decreases fs@.len() - i,
    {
        let ghost keys_before = keys@;
        match &fs[i] {
            Flattened::Text(value) => {
                match &escaper {
                    Some(p) => {
                        let e = escape(p, value.as_str());
                        pattern.append(e.as_str());
                        backtrack.append(value.as_str());
                        safe = safe || contains_delimiter(value.as_str());
                    },
                    None => return None,
                }
            },
            Flattened::WildCard(value) => {
                if !safe && backtrack.as_str().is_empty() {
                    return None;
                }
                pattern.append("([\\s\\S]+)");
                keys.push(value.clone());
                safe = false;
                proof {
                    assert(strings_view(keys@) =~= strings_view(keys_before).push(value@));
                }
            },
            Flattened::Parameter(value) => {
                if !safe && backtrack.as_str().is_empty() {
                    return None;
                }
                let avoid: &str = if safe { "" } else { backtrack.as_str() };
                proof {
                    if safe {
                        reveal_strlit("");
                        assert(avoid@ =~= Seq::<char>::empty());
                    }
                }
                match negate(&escaper, avoid) {
                    Some(n) => {
                        pattern.append("(");
                        pattern.append(n.as_str());
                        pattern.append(")+");
                    },
                    None => return None,
                }
                keys.push(value.clone());
                safe = false;
                proof {
                    assert(strings_view(keys@) =~= strings_view(keys_before).push(value@));
                }
            },
        }
        i = i + 1;
    }
    Some((pattern, keys))
}

} // verus!

verus! {

fn compile_impl(path: &str, trailing: bool, end: bool) -> (r: Option<(String, Vec<String>)>)
    ensures
        r is None <==> spec_compile(path@, trailing, end) is None,
        r matches Some((p, k)) ==> spec_compile(path@, trailing, end) == Some((p@, strings_view(k@))),
{
    let mut iter = match lex_tokens(path) {
        Some(it) => it,
        None => return None,
    };
    let segments = match iter.try_parse_segments(TokenType::End, false) {
        Some(s) => s,
        None => return None,
    };
    let flat = flatten(&segments);
    let (body, keys) = match build_pattern(&flat) {
        Some(r) => r,
        None => return None,
    };
    let mut pattern = String::from_str("^(?:");
    pattern.append(body.as_str());
    pattern.append(")");
    if trailing {
        pattern.append("(?:$");
        pattern.append(ESCAPED_DELIMITER);
        pattern.append("$)?");
    }
    if end {
        pattern.append("$");
    } else {
        pattern.append("(?=");
        pattern.append(ESCAPED_DELIMITER);
        pattern.append("|$)");
    }
    proof {
        reveal_strlit("");
    }
    Some((pattern, keys))
}

/// Compiles a path pattern to the source of a regular expression and the
/// names of its parameters in order. The expression is anchored at the
/// start; `trailing` lets a final delimiter match, `end` anchors it at the
/// end (else it must be followed by a delimiter or the end).
pub fn compile(path: &str, trailing: bool, end: bool) -> (r: (String, Vec<String>))
    requires
        spec_compile(path@, trailing, end) is Some,
    ensures
        spec_compile(path@, trailing, end) == Some((r.0@, strings_view(r.1@))),
{
    match compile_impl(path, trailing, end) {
        Some(r) => r,
        None => {
            proof {
                assert(false);
            }
            (String::new(), Vec::new())
        },
    }
}

/// Compiles a path pattern when it can be compiled: `None` exactly where
/// `spec_compile` has no result.
pub fn try_compile(path: &str, trailing: bool, end: bool) -> (r: Option<(String, Vec<String>)>)
    ensures
        r is None <==> spec_compile(path@, trailing, end) is None,
        r matches Some((p, k)) ==> spec_compile(path@, trailing, end) == Some((p@, strings_view(k@))),
{
    if compile_impl(path, trailing, end).is_some() {
        Some(compile(path, trailing, end))
    } else {
        None
    }
}

} // verus!
