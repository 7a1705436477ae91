//! Splitting request text into tokens: runs of printable ASCII text and the
//! separator characters of RFC 2616 (section 2.2).
use vstd::prelude::*;
use crate::text::push_char;

verus! {

/// Whether a byte ends a run of text: a control byte or one outside
/// printable ASCII.
pub open spec fn is_break(b: u8) -> bool {
    b < 32 || b > 126
}

/// A text: a run of bytes of the request.
#[derive(PartialEq, Eq, Clone, Debug)]
pub struct Text {
    bytes: Vec<u8>,
}

impl View for Text {
    type V = Seq<u8>;

    closed spec fn view(&self) -> Seq<u8> {
        self.bytes@
    }
}

/// The characters that the bytes of a text stand for, one per byte.
pub open spec fn bytes_as_chars(b: Seq<u8>) -> Seq<char> {
    b.map_values(|x: u8| x as char)
}

/// What can be split into tokens: a sequence of bytes.
pub trait Tokenizer: Sized {
    spec fn spec_bytes(&self) -> Seq<u8>;

    /// The number of bytes.
    fn len(&self) -> (n: usize)
        ensures
            n == self.spec_bytes().len();

    /// The byte at `index`, if there is one.
    fn at(&self, index: usize) -> (r: Option<u8>)
        ensures
            index < self.spec_bytes().len() ==> r == Some(self.spec_bytes()[index as int]),
            index >= self.spec_bytes().len() ==> r is None;

    /// The text as a string, one character per byte.
    fn decode(&self) -> (s: String)
        ensures
            s@ == bytes_as_chars(self.spec_bytes());
}

/// A string with one character per byte of `bytes`.
pub fn decode(bytes: &Vec<u8>) -> (s: String)
    ensures
        s@ == bytes_as_chars(bytes@),
{
    let mut s = String::new();
    let mut i: usize = 0;
    while i < bytes.len()
        invariant
            i <= bytes@.len(),
            s@ == bytes_as_chars(bytes@.subrange(0, i as int)),
        decreases bytes@.len() - i,
    {
        push_char(&mut s, bytes[i] as char);
        i = i + 1;
        proof {
            assert(s@ =~= bytes_as_chars(bytes@.subrange(0, i as int)));
        }
    }
    proof {
        assert(bytes@.subrange(0, bytes@.len() as int) =~= bytes@);
    }
    s
}

impl Text {
    /// A text holding a copy of the given bytes.
    pub fn from(vec: &Vec<u8>) -> (t: Text)
        ensures
            t@ == vec@,
    {
        Text { bytes: vec.clone() }
    }

    /// A text of the bytes of `bytes` from `from` up to `to`.
    pub fn from_range(bytes: &Vec<u8>, from: usize, to: usize) -> (t: Text)
        requires
            from <= to <= bytes@.len(),
        ensures
            t@ == bytes@.subrange(from as int, to as int),
    {
        let mut v: Vec<u8> = Vec::new();
        let mut i = from;
        while i < to
            invariant
                from <= i <= to <= bytes@.len(),
                v@ == bytes@.subrange(from as int, i as int),
            decreases to - i,
        {
            v.push(bytes[i]);
            i = i + 1;
            proof {
                assert(v@ =~= bytes@.subrange(from as int, i as int));
            }
        }
        Text { bytes: v }
    }

    /// A copy of this text.
    pub fn duplicate(&self) -> (t: Text)
        ensures
            t@ == self@,
    {
        Text { bytes: self.bytes.clone() }
    }

    /// The bytes of this text.
    pub fn as_bytes(&self) -> (b: &Vec<u8>)
        ensures
            b@ == self@,
    {
        &self.bytes
    }
}

impl Tokenizer for Text {
    closed spec fn spec_bytes(&self) -> Seq<u8> {
        self.bytes@
    }

    fn len(&self) -> (n: usize) {
        self.bytes.len()
    }

    fn at(&self, index: usize) -> (r: Option<u8>) {
        if index < self.bytes.len() {
            Some(self.bytes[index])
        } else {
            None
        }
    }

    fn decode(&self) -> (s: String) {
        decode(&self.bytes)
    }
}

impl Text {
    pub proof fn lemma_bytes_are_view(&self)
        ensures
            self.spec_bytes() == self@,
    {
    }
}

/// A separator character.
#[derive(Eq, PartialEq, Clone, Copy, Structural, Debug)]
pub enum Seperator {
    OpenParenthesis,
    CloseParenthesis,
    OpenAngleBracket,
    CloseAngleBracket,
    OpenCurlyBracket,
    CloseCurlyBracket,
    OpenSquareBracket,
    CloseSquareBracket,
    At,
    Comma,
    DoubleQuotes,
    QuestionMark,
    Equals,
    Colon,
    Semicolon,
    ForwardSlash,
    BackSlash,
}

/// The separator that a byte is, if it is one.
pub open spec fn separator_of(b: u8) -> Option<Seperator> {
    if b == 40 {
        Some(Seperator::OpenParenthesis)
    } else if b == 41 {
        Some(Seperator::CloseParenthesis)
    } else if b == 60 {
        Some(Seperator::OpenAngleBracket)
    } else if b == 62 {
        Some(Seperator::CloseAngleBracket)
    } else if b == 123 {
        Some(Seperator::OpenCurlyBracket)
    } else if b == 125 {
        Some(Seperator::CloseCurlyBracket)
    } else if b == 91 {
        Some(Seperator::OpenSquareBracket)
    } else if b == 93 {
        Some(Seperator::CloseSquareBracket)
    } else if b == 64 {
        Some(Seperator::At)
    } else if b == 44 {
        Some(Seperator::Comma)
    } else if b == 34 {
        Some(Seperator::DoubleQuotes)
    } else if b == 63 {
        Some(Seperator::QuestionMark)
    } else if b == 61 {
        Some(Seperator::Equals)
    } else if b == 58 {
        Some(Seperator::Colon)
    } else if b == 59 {
        Some(Seperator::Semicolon)
    } else if b == 47 {
        Some(Seperator::ForwardSlash)
    } else if b == 92 {
        Some(Seperator::BackSlash)
    } else {
        None
    }
}

impl Seperator {
    /// The separator that the character `c` is, if it is one.
    pub fn from(c: char) -> (r: Option<Seperator>)
        ensures
            (c as u32) < 256 ==> r == separator_of(c as u8),
            (c as u32) >= 256 ==> r is None,
    {
        match c {
            '(' => Some(Self::OpenParenthesis),
            ')' => Some(Self::CloseParenthesis),
            '<' => Some(Self::OpenAngleBracket),
            '>' => Some(Self::CloseAngleBracket),
            '{' => Some(Self::OpenCurlyBracket),
            '}' => Some(Self::CloseCurlyBracket),
            '[' => Some(Self::OpenSquareBracket),
            ']' => Some(Self::CloseSquareBracket),
            '@' => Some(Self::At),
            ',' => Some(Self::Comma),
            '"' => Some(Self::DoubleQuotes),
            '?' => Some(Self::QuestionMark),
            '=' => Some(Self::Equals),
            ':' => Some(Self::Colon),
            ';' => Some(Self::Semicolon),
            '/' => Some(Self::ForwardSlash),
            '\\' => Some(Self::BackSlash),
            _ => None,
        }
    }
}

} // verus!

verus! {

fn separator_of_byte(b: u8) -> (r: Option<Seperator>)
    ensures
        r == separator_of(b),
{
    Seperator::from(b as char)
}

fn bytes_of<T: Tokenizer>(value: &T) -> (raw: Vec<u8>)
    ensures
        raw@ == value.spec_bytes(),
{
    let ghost bytes = value.spec_bytes();
    let len = value.len();
    let mut raw: Vec<u8> = Vec::new();
    let mut k: usize = 0;
    while k < len
        invariant
            len == bytes.len(),
            bytes == value.spec_bytes(),
            k <= len,
            raw@ == bytes.subrange(0, k as int),
        decreases len - k,
    {
        match value.at(k) {
            Some(b) => raw.push(b),
            None => {},
        }
        k = k + 1;
        proof {
            assert(raw@ =~= bytes.subrange(0, k as int));
        }
    }
    proof {
        assert(raw@ =~= bytes);
    }
    raw
}

/// The runs of text of `bytes`: the maximal runs of bytes that are not
/// breaks, scanning from position `i` with the current run starting at
/// `start`, appended to `acc`.
pub open spec fn split_from(bytes: Seq<u8>, i: nat, start: nat, acc: Seq<Seq<u8>>) -> Seq<Seq<u8>>
    decreases bytes.len() - i,
{
    if i >= bytes.len() {
        if start < i { acc.push(bytes.subrange(start as int, i as int)) } else { acc }
    } else if is_break(bytes[i as int]) {
        let acc1 = if start < i { acc.push(bytes.subrange(start as int, i as int)) } else { acc };
        split_from(bytes, i + 1, i + 1, acc1)
    } else {
        split_from(bytes, i + 1, start, acc)
    }
}

/// The maximal runs of bytes of `bytes` that are printable ASCII.
pub open spec fn split_spec(bytes: Seq<u8>) -> Seq<Seq<u8>> {
    split_from(bytes, 0, 0, seq![])
}

/// The views of a list of texts.
pub open spec fn texts_view(v: Seq<Text>) -> Seq<Seq<u8>> {
    v.map_values(|t: Text| t@)
}

/// Splits a value into its runs of printable ASCII bytes.
pub fn split<T: Tokenizer>(value: T) -> (vec: Vec<Text>)
    ensures
        texts_view(vec@) == split_spec(value.spec_bytes()),
{
    let raw = bytes_of(&value);
    let ghost bytes = raw@;
    let len = raw.len();
    let mut vec: Vec<Text> = Vec::new();
    let mut start: usize = 0;
    let mut i: usize = 0;
    proof {
        assert(texts_view(vec@) =~= Seq::<Seq<u8>>::empty());
    }
    while i < len
        invariant
            len == bytes.len(),
            raw@ == bytes,
            start <= i <= len,
            split_spec(bytes) == split_from(bytes, i as nat, start as nat, texts_view(vec@)),
        decreases len - i,
    {
        let c = raw[i];
        if c < 32 || c > 126 {
            if start < i {
                let ghost before = texts_view(vec@);
                vec.push(Text::from_range(&raw, start, i));
                proof {
                    assert(texts_view(vec@) =~= before.push(bytes.subrange(start as int, i as int)));
                }
            }
            start = i + 1;
        }
        i = i + 1;
    }
    if start < i {
        let ghost before = texts_view(vec@);
        vec.push(Text::from_range(&raw, start, i));
        proof {
            assert(texts_view(vec@) =~= before.push(bytes.subrange(start as int, i as int)));
        }
    }
    vec
}

/// A token: a separator or a run of text.
pub enum Tokens {
    Seperator(Seperator),
    Text(Text),
}

/// A token as a mathematical value.
pub enum TokenView {
    Seperator(Seperator),
    Text(Seq<u8>),
}

pub open spec fn token_view(t: Tokens) -> TokenView {
    match t {
        Tokens::Seperator(s) => TokenView::Seperator(s),
        Tokens::Text(t) => TokenView::Text(t@),
    }
}

pub open spec fn tokens_view(v: Seq<Tokens>) -> Seq<TokenView> {
    v.map_values(|t: Tokens| token_view(t))
}

/// The tokens of `bytes` from position `i` on, the current run of text
/// starting at `start`, appended to `acc`: breaks end a run, separators end
/// a run and are tokens of their own.
pub open spec fn tokenize_from(bytes: Seq<u8>, i: nat, start: nat, acc: Seq<TokenView>) -> Seq<TokenView>
    decreases bytes.len() - i,
{
    let flushed = if start < i { acc.push(TokenView::Text(bytes.subrange(start as int, i as int))) } else { acc };
    if i >= bytes.len() {
        flushed
    } else if is_break(bytes[i as int]) {
        tokenize_from(bytes, i + 1, i + 1, flushed)
    } else if separator_of(bytes[i as int]) is Some {
        tokenize_from(bytes, i + 1, i + 1, flushed.push(TokenView::Seperator(separator_of(bytes[i as int]).unwrap())))
    } else {
        tokenize_from(bytes, i + 1, start, acc)
    }
}

/// The tokens of a sequence of bytes.
pub open spec fn tokenize_spec(bytes: Seq<u8>) -> Seq<TokenView> {
    tokenize_from(bytes, 0, 0, seq![])
}

/// Splits a value into tokens: separators, and the runs of printable ASCII
/// text between them.
pub fn tokenize<T: Tokenizer>(value: &T) -> (vec: Vec<Tokens>)
    ensures
        tokens_view(vec@) == tokenize_spec(value.spec_bytes()),
{
    let raw = bytes_of(value);
    let ghost bytes = raw@;
    let len = raw.len();
    let mut vec: Vec<Tokens> = Vec::new();
    let mut start: usize = 0;
    let mut i: usize = 0;
    proof {
        assert(tokens_view(vec@) =~= Seq::<TokenView>::empty());
    }
    while i < len
        invariant
            len == bytes.len(),
            raw@ == bytes,
            start <= i <= len,
            tokenize_spec(bytes) == tokenize_from(bytes, i as nat, start as nat, tokens_view(vec@)),
        decreases len - i,
    {
        let c = raw[i];
        let ghost before = tokens_view(vec@);
        if c < 32 || c > 126 {
            if start < i {
                vec.push(Tokens::Text(Text::from_range(&raw, start, i)));
                proof {
                    assert(tokens_view(vec@) =~= before.push(TokenView::Text(bytes.subrange(start as int, i as int))));
                }
            }
            start = i + 1;
        } else {
            match separator_of_byte(c) {
                Some(sep) => {
                    if start < i {
                        vec.push(Tokens::Text(Text::from_range(&raw, start, i)));
                        proof {
                            assert(tokens_view(vec@) =~= before.push(TokenView::Text(bytes.subrange(start as int, i as int))));
                        }
                    }
                    let ghost flushed = tokens_view(vec@);
                    vec.push(Tokens::Seperator(sep));
                    proof {
                        assert(tokens_view(vec@) =~= flushed.push(TokenView::Seperator(sep)));
                    }
                    start = i + 1;
                },
                None => {},
            }
        }
        i = i + 1;
    }
    if start < i {
        let ghost before = tokens_view(vec@);
        vec.push(Tokens::Text(Text::from_range(&raw, start, i)));
        proof {
            assert(tokens_view(vec@) =~= before.push(TokenView::Text(bytes.subrange(start as int, i as int))));
        }
    }
    vec
}

} // verus!

verus! {

/// Why a token is not what the grammar wanted at its place.
pub enum TokenError {
    /// A separator where a text was due; the text's role, if it has one.
    TextError(Option<String>, Seperator),
    /// A text where a separator was due; the separator wanted, if one is.
    SeperatorError(Option<Seperator>, Text),
    /// A separator other than the one wanted.
    MismatchError(Seperator, Seperator),
}

/// A token error as a mathematical value.
pub enum TokenErrorView {
    TextError(Option<Seq<char>>, Seperator),
    SeperatorError(Option<Seperator>, Seq<u8>),
    MismatchError(Seperator, Seperator),
}

pub open spec fn token_error_view(e: TokenError) -> TokenErrorView {
    match e {
        TokenError::TextError(n, s) => TokenErrorView::TextError(
            match n {
                Some(n) => Some(n@),
                None => None,
            },
            s,
        ),
        TokenError::SeperatorError(e, t) => TokenErrorView::SeperatorError(e, t@),
        TokenError::MismatchError(a, b) => TokenErrorView::MismatchError(a, b),
    }
}

/// The text of a token, or the error of finding a separator where a text
/// with the role `name` was due.
pub open spec fn spec_text(t: TokenView, name: Option<Seq<char>>) -> Result<Seq<u8>, TokenErrorView> {
    match t {
        TokenView::Text(x) => Ok(x),
        TokenView::Seperator(s) => Err(TokenErrorView::TextError(name, s)),
    }
}

/// The separator of a token, which must be `expected` when that is given.
pub open spec fn spec_sep(t: TokenView, expected: Option<Seperator>) -> Result<Seperator, TokenErrorView> {
    match t {
        TokenView::Text(x) => Err(TokenErrorView::SeperatorError(expected, x)),
        TokenView::Seperator(s) => match expected {
            Some(e) => if e == s {
                Ok(s)
            } else {
                Err(TokenErrorView::MismatchError(e, s))
            },
            None => Ok(s),
        },
    }
}

/// The view of the result of `Tokens::text`.
pub open spec fn text_result_view(r: Result<Text, TokenError>) -> Result<Seq<u8>, TokenErrorView> {
    match r {
        Ok(t) => Ok(t@),
        Err(e) => Err(token_error_view(e)),
    }
}

/// The view of the result of `Tokens::seperator`.
pub open spec fn sep_result_view(r: Result<Seperator, TokenError>) -> Result<Seperator, TokenErrorView> {
    match r {
        Ok(s) => Ok(s),
        Err(e) => Err(token_error_view(e)),
    }
}

impl Tokens {
    /// A copy of this token.
    pub fn duplicate(&self) -> (t: Tokens)
        ensures
            token_view(t) == token_view(*self),
    {
        match self {
            Tokens::Seperator(s) => Tokens::Seperator(*s),
            Tokens::Text(t) => Tokens::Text(t.duplicate()),
        }
    }

    /// Whether this token is a text.
    pub fn is_text(&self) -> (r: bool)
        ensures
            r == (token_view(*self) is Text),
    {
        match self {
            Tokens::Text(_) => true,
            Tokens::Seperator(_) => false,
        }
    }

    /// The text of this token; a separator is an error, reported with
    /// `name`, the role of the text wanted.
    pub fn text(&self, name: Option<&str>) -> (r: Result<Text, TokenError>)
        ensures
            text_result_view(r) == spec_text(
                token_view(*self),
                match name {
                    Some(n) => Some(n@),
                    None => None,
                },
            ),
    {
        match self {
            Tokens::Text(t) => Ok(t.duplicate()),
            Tokens::Seperator(s) => Err(TokenError::TextError(
                match name {
                    Some(n) => Some(String::from_str(n)),
                    None => None,
                },
                *s,
            )),
        }
    }

    /// The separator of this token, which must be `expected` when that is
    /// given; a text is an error.
    pub fn seperator(&self, expected: Option<Seperator>) -> (r: Result<Seperator, TokenError>)
        ensures
            sep_result_view(r) == spec_sep(token_view(*self), expected),
    {
        match self {
            Tokens::Text(t) => Err(TokenError::SeperatorError(expected, t.duplicate())),
            Tokens::Seperator(s) => match expected {
                Some(e) => if e == *s {
                    Ok(*s)
                } else {
                    Err(TokenError::MismatchError(e, *s))
                },
                None => Ok(*s),
            },
        }
    }
}

/// The tokens of a value, read from the front.
pub struct TokenIterator {
    tokens: Vec<Tokens>,
    index: usize,
}

impl TokenIterator {
    /// The tokens not read yet.
    pub closed spec fn rest(&self) -> Seq<TokenView> {
        if self.index <= self.tokens@.len() {
            tokens_view(self.tokens@).skip(self.index as int)
        } else {
            seq![]
        }
    }

    /// The tokens of `value`, none read yet.
    pub fn new<T: Tokenizer>(value: &T) -> (it: TokenIterator)
        ensures
            it.rest() == tokenize_spec(value.spec_bytes()),
    {
        let tokens = tokenize(value);
        let it = TokenIterator { tokens, index: 0 };
        proof {
            assert(it.rest() =~= tokens_view(it.tokens@));
        }
        it
    }

    /// Whether the next token is a text.
    pub fn peek_is_text(&self) -> (r: bool)
        ensures
            r == (self.rest().len() > 0 && self.rest()[0] is Text),
    {
        if self.index < self.tokens.len() {
            proof {
                assert(self.rest()[0] == token_view(self.tokens@[self.index as int]));
            }
            self.tokens[self.index].is_text()
        } else {
            false
        }
    }

    /// The next token, if any.
    pub fn next(&mut self) -> (r: Option<Tokens>)
        ensures
            old(self).rest().len() == 0 ==> r is None && final(self).rest() == old(self).rest(),
            old(self).rest().len() > 0 ==> (r matches Some(t) && token_view(t) == old(self).rest()[0]
                && final(self).rest() == old(self).rest().drop_first()),
    {
        if self.index < self.tokens.len() {
            let t = self.tokens[self.index].duplicate();
            let ghost before = self.rest();
            proof {
                assert(before[0] == token_view(self.tokens@[self.index as int]));
            }
            self.index = self.index + 1;
            proof {
                assert(self.rest() =~= before.drop_first());
            }
            Some(t)
        } else {
            None
        }
    }
}

/// Whether a byte is plain text: printable and no separator.
pub open spec fn is_plain(b: u8) -> bool {
    !is_break(b) && separator_of(b) is None
}

/// Whether all bytes of a sequence are plain text.
pub open spec fn all_plain(t: Seq<u8>) -> bool {
    forall|k: int| 0 <= k < t.len() ==> is_plain(#[trigger] t[k])
}

/// Plain bytes extend the pending text and produce no token.
pub proof fn lemma_tokenize_plain(b: Seq<u8>, i: nat, j: nat, start: nat, acc: Seq<TokenView>)
    requires
        start <= i <= j <= b.len(),
        forall|k: int| i <= k < j ==> is_plain(#[trigger] b[k]),
    ensures
        tokenize_from(b, i, start, acc) == tokenize_from(b, j, start, acc),
    decreases j - i,
{
    if i < j {
        assert(is_plain(b[i as int]));
        lemma_tokenize_plain(b, i + 1, j, start, acc);
    }
}

/// A run of plain bytes followed by a separator: a text token, then the
/// separator's token.
pub proof fn lemma_tokenize_text_sep(b: Seq<u8>, i: nat, n: nat, acc: Seq<TokenView>)
    requires
        n >= 1,
        i + n < b.len(),
        forall|k: int| i <= k < i + n ==> is_plain(#[trigger] b[k]),
        separator_of(b[(i + n) as int]) is Some,
    ensures
        tokenize_from(b, i, i, acc) == tokenize_from(
            b,
            i + n + 1,
            i + n + 1,
            acc.push(TokenView::Text(b.subrange(i as int, (i + n) as int))).push(TokenView::Seperator(separator_of(b[(i + n) as int]).unwrap())),
        ),
{
    lemma_tokenize_plain(b, i, i + n, i, acc);
    let s = separator_of(b[(i + n) as int]).unwrap();
    assert(!is_break(b[(i + n) as int])) by {
        assert(32 <= b[(i + n) as int] <= 126);
    }
}

/// A run of plain bytes to the end: one last text token.
pub proof fn lemma_tokenize_final_text(b: Seq<u8>, i: nat, acc: Seq<TokenView>)
    requires
        i < b.len(),
        forall|k: int| i <= k < b.len() ==> is_plain(#[trigger] b[k]),
    ensures
        tokenize_from(b, i, i, acc) == acc.push(TokenView::Text(b.subrange(i as int, b.len() as int))),
{
    lemma_tokenize_plain(b, i, b.len(), i, acc);
}

/// The bytes that a string of ASCII characters is made of.
pub open spec fn ascii_bytes(s: Seq<char>) -> Seq<u8> {
    s.map_values(|c: char| c as u8)
}

/// Writing bytes as characters and reading them back gives the bytes.
pub proof fn lemma_ascii_bytes_of_chars(t: Seq<u8>)
    ensures
        ascii_bytes(bytes_as_chars(t)) == t,
{
    assert forall|k: int| 0 <= k < t.len() implies #[trigger] ascii_bytes(bytes_as_chars(t))[k] == t[k] by {
        let x = t[k];
        assert(((x as char) as u8) == x);
    }
    assert(ascii_bytes(bytes_as_chars(t)) =~= t);
}

/// Whether every text token holds a non-empty run of plain bytes.
pub open spec fn texts_are_plain(t: Seq<TokenView>) -> bool {
    forall|k: int| 0 <= k < t.len() ==> (#[trigger] t[k] matches TokenView::Text(x) ==> x.len() > 0 && all_plain(x))
}

proof fn lemma_tokenize_from_plain(b: Seq<u8>, i: nat, start: nat, acc: Seq<TokenView>)
    requires
        start <= i <= b.len(),
        forall|k: int| start <= k < i ==> is_plain(#[trigger] b[k]),
        texts_are_plain(acc),
    ensures
        texts_are_plain(tokenize_from(b, i, start, acc)),
    decreases b.len() - i,
{
    let flushed = if start < i { acc.push(TokenView::Text(b.subrange(start as int, i as int))) } else { acc };
    if start < i {
        let x = b.subrange(start as int, i as int);
        assert forall|k: int| 0 <= k < x.len() implies is_plain(#[trigger] x[k]) by {
            assert(x[k] == b[start + k]);
        }
        assert forall|k: int| 0 <= k < flushed.len() implies (#[trigger] flushed[k] matches TokenView::Text(y) ==> y.len() > 0 && all_plain(y)) by {
            if k < acc.len() {
                assert(flushed[k] == acc[k]);
            }
        }
    }
    assert(texts_are_plain(flushed));
    if i >= b.len() {
    } else if is_break(b[i as int]) {
        lemma_tokenize_from_plain(b, i + 1, i + 1, flushed);
    } else if separator_of(b[i as int]) is Some {
        let next = flushed.push(TokenView::Seperator(separator_of(b[i as int]).unwrap()));
        assert forall|k: int| 0 <= k < next.len() implies (#[trigger] next[k] matches TokenView::Text(y) ==> y.len() > 0 && all_plain(y)) by {
            if k < flushed.len() {
                assert(next[k] == flushed[k]);
            }
        }
        lemma_tokenize_from_plain(b, i + 1, i + 1, next);
    } else {
        assert(is_plain(b[i as int]));
        lemma_tokenize_from_plain(b, i + 1, start, acc);
    }
}

/// Every text token of any bytes is a non-empty run of plain bytes.
pub proof fn lemma_tokens_are_plain(b: Seq<u8>)
    ensures
        texts_are_plain(tokenize_spec(b)),
{
    lemma_tokenize_from_plain(b, 0, 0, seq![]);
}

/// The byte of a separator.
pub open spec fn sep_byte(s: Seperator) -> u8 {
    match s {
        Seperator::OpenParenthesis => 40,
        Seperator::CloseParenthesis => 41,
        Seperator::OpenAngleBracket => 60,
        Seperator::CloseAngleBracket => 62,
        Seperator::OpenCurlyBracket => 123,
        Seperator::CloseCurlyBracket => 125,
        Seperator::OpenSquareBracket => 91,
        Seperator::CloseSquareBracket => 93,
        Seperator::At => 64,
        Seperator::Comma => 44,
        Seperator::DoubleQuotes => 34,
        Seperator::QuestionMark => 63,
        Seperator::Equals => 61,
        Seperator::Colon => 58,
        Seperator::Semicolon => 59,
        Seperator::ForwardSlash => 47,
        Seperator::BackSlash => 92,
    }
}

/// The bytes that a token stands for.
pub open spec fn token_bytes(t: TokenView) -> Seq<u8> {
    match t {
        TokenView::Text(x) => x,
        TokenView::Seperator(s) => seq![sep_byte(s)],
    }
}

/// The bytes of tokens written one after another.
pub open spec fn tokens_bytes(ts: Seq<TokenView>) -> Seq<u8>
    decreases ts.len(),
{
    if ts.len() == 0 {
        seq![]
    } else {
        tokens_bytes(ts.drop_last()) + token_bytes(ts.last())
    }
}

/// The bytes that are not breaks, in order.
pub open spec fn printable(b: Seq<u8>) -> Seq<u8>
    decreases b.len(),
{
    if b.len() == 0 {
        seq![]
    } else {
        printable(b.drop_last()) + if is_break(b.last()) { Seq::<u8>::empty() } else { seq![b.last()] }
    }
}

proof fn lemma_printable_concat(x: Seq<u8>, y: Seq<u8>)
    ensures
        printable(x + y) == printable(x) + printable(y),
    decreases y.len(),
{
    if y.len() == 0 {
        assert(x + y =~= x);
        assert(printable(x) + printable(y) =~= printable(x));
    } else {
        lemma_printable_concat(x, y.drop_last());
        assert((x + y).drop_last() =~= x + y.drop_last());
        assert((x + y).last() == y.last());
        let tail = if is_break(y.last()) { Seq::<u8>::empty() } else { seq![y.last()] };
        assert(printable(x) + printable(y.drop_last()) + tail =~= printable(x) + (printable(y.drop_last()) + tail));
    }
}

proof fn lemma_printable_plain(x: Seq<u8>)
    requires
        forall|k: int| 0 <= k < x.len() ==> is_plain(#[trigger] x[k]),
    ensures
        printable(x) == x,
    decreases x.len(),
{
    if x.len() > 0 {
        assert(is_plain(x[x.len() - 1]));
        lemma_printable_plain(x.drop_last());
        assert(x.drop_last().push(x.last()) =~= x);
    }
}

proof fn lemma_sep_byte(b: u8)
    requires
        separator_of(b) is Some,
    ensures
        sep_byte(separator_of(b).unwrap()) == b,
        !is_break(b),
{
}

proof fn lemma_tokens_bytes_push(ts: Seq<TokenView>, t: TokenView)
    ensures
        tokens_bytes(ts.push(t)) == tokens_bytes(ts) + token_bytes(t),
{
    assert(ts.push(t).drop_last() =~= ts);
}

proof fn lemma_tokenize_from_bytes(b: Seq<u8>, i: nat, start: nat, acc: Seq<TokenView>)
    requires
        start <= i <= b.len(),
        forall|k: int| start <= k < i ==> is_plain(#[trigger] b[k]),
    ensures
        tokens_bytes(tokenize_from(b, i, start, acc)) == tokens_bytes(acc) + printable(b.subrange(start as int, b.len() as int)),
    decreases b.len() - i,
{
    let pending = b.subrange(start as int, i as int);
    assert forall|k: int| 0 <= k < pending.len() implies is_plain(#[trigger] pending[k]) by {
        assert(pending[k] == b[start + k]);
    }
    lemma_printable_plain(pending);
    let flushed = if start < i { acc.push(TokenView::Text(pending)) } else { acc };
    if start < i {
        lemma_tokens_bytes_push(acc, TokenView::Text(pending));
    } else {
        assert(pending =~= Seq::<u8>::empty());
    }
    assert(tokens_bytes(flushed) =~= tokens_bytes(acc) + pending);
    let whole = b.subrange(start as int, b.len() as int);
    let rest = b.subrange(i as int, b.len() as int);
    assert(whole =~= pending + rest);
    lemma_printable_concat(pending, rest);
    if i >= b.len() {
        assert(rest =~= Seq::<u8>::empty());
        assert(tokens_bytes(acc) + pending + Seq::<u8>::empty() =~= tokens_bytes(acc) + pending);
    } else {
        let after = b.subrange((i + 1) as int, b.len() as int);
        assert(rest =~= seq![b[i as int]] + after);
        lemma_printable_concat(seq![b[i as int]], after);
        assert(printable(seq![b[i as int]]) == printable(Seq::<u8>::empty()) + (if is_break(b[i as int]) { Seq::<u8>::empty() } else { seq![b[i as int]] })) by {
            assert(seq![b[i as int]].drop_last() =~= Seq::<u8>::empty());
        }
        if is_break(b[i as int]) {
            lemma_tokenize_from_bytes(b, i + 1, i + 1, flushed);
            assert(b.subrange((i + 1) as int, b.len() as int) == after);
            assert(tokens_bytes(acc) + pending + printable(after) =~= tokens_bytes(acc) + (pending + (Seq::<u8>::empty() + printable(after))));
        } else if separator_of(b[i as int]) is Some {
            let sp = separator_of(b[i as int]).unwrap();
            lemma_sep_byte(b[i as int]);
            let next = flushed.push(TokenView::Seperator(sp));
            lemma_tokens_bytes_push(flushed, TokenView::Seperator(sp));
            lemma_tokenize_from_bytes(b, i + 1, i + 1, next);
            assert(tokens_bytes(acc) + pending + seq![b[i as int]] + printable(after) =~= tokens_bytes(acc) + (pending + (seq![b[i as int]] + printable(after))));
        } else {
            assert(is_plain(b[i as int]));
            lemma_tokenize_from_bytes(b, i + 1, start, acc);
        }
    }
}

/// The tokens of a text, written one after another, are its bytes without
/// the breaks: tokenizing loses nothing else and reorders nothing.
pub proof fn lemma_tokens_keep_printable_bytes(b: Seq<u8>)
    ensures
        tokens_bytes(tokenize_spec(b)) == printable(b),
{
    lemma_tokenize_from_bytes(b, 0, 0, seq![]);
    assert(b.subrange(0, b.len() as int) =~= b);
    assert(tokens_bytes(Seq::<TokenView>::empty()) + printable(b) =~= printable(b));
}

} // verus!
