//! Request URIs (RFC 2616, section 5.1.2): `*`, an absolute URI, an
//! absolute path or an authority, read from the tokens of the request line.
use vstd::prelude::*;
use crate::http1::types::tokens::{
    Text, Tokens, TokenView, Seperator, Tokenizer, TokenError, TokenErrorView,
    TokenIterator, tokenize, tokenize_spec, tokens_view, token_view, token_error_view,
    spec_text, spec_sep, bytes_as_chars, ascii_bytes, all_plain, is_plain, separator_of,
    lemma_tokenize_text_sep, lemma_tokenize_final_text, lemma_ascii_bytes_of_chars,
    texts_are_plain, lemma_tokens_are_plain, tokenize_from,
};
use crate::text::digit_char;
use crate::text::{decimal_string, spec_decimal, push_char, first_index_from};

verus! {

/// The value of a run of decimal digits.
pub open spec fn digits_value(d: Seq<u8>) -> nat
    decreases d.len(),
{
    if d.len() == 0 {
        0
    } else {
        digits_value(d.drop_last()) * 10 + (d.last() - 48) as nat
    }
}

/// Whether every byte is an ASCII digit.
pub open spec fn all_digits(d: Seq<u8>) -> bool {
    forall|i: int| 0 <= i < d.len() ==> 48 <= #[trigger] d[i] <= 57
}

/// The port number that a text spells: an optional `+`, then one or more
/// decimal digits, of value at most 65535.
pub open spec fn spec_port(t: Seq<u8>) -> Option<u16> {
    let d = if t.len() > 0 && t[0] == 43 { t.drop_first() } else { t };
    if d.len() > 0 && all_digits(d) && digits_value(d) <= 65535 {
        Some(digits_value(d) as u16)
    } else {
        None
    }
}

proof fn lemma_digits_value_prefix(d: Seq<u8>, i: int)
    requires
        0 <= i < d.len(),
    ensures
        d.subrange(0, i + 1).drop_last() == d.subrange(0, i),
        d.subrange(0, i + 1).last() == d[i],
{
    assert(d.subrange(0, i + 1).drop_last() =~= d.subrange(0, i));
}

/// The port number that the text `t` spells, as `u16::from_str` reads it.
pub fn parse_port(t: &Text) -> (r: Option<u16>)
    ensures
        r == spec_port(t@),
{
    let b = t.as_bytes();
    let n = b.len();
    proof {
        t.lemma_bytes_are_view();
    }
    let mut i: usize = 0;
    if n > 0 && b[0] == 43 {
        i = 1;
    }
    let ghost d = if t@.len() > 0 && t@[0] == 43 { t@.drop_first() } else { t@ };
    let first = i;
    if first >= n {
        return None;
    }
    let mut acc: u32 = 0;
    while i < n
        invariant
            b@ == t@,
            n == b@.len(),
            first <= i <= n,
            first < n,
            d == b@.subrange(first as int, n as int),
            d == (if t@.len() > 0 && t@[0] == 43 { t@.drop_first() } else { t@ }),
            all_digits(d.subrange(0, i - first)),
            acc == if digits_value(d.subrange(0, i - first)) <= 65535 {
                digits_value(d.subrange(0, i - first))
            } else {
                65536
            },
        decreases n - i,
    {
        let c = b[i];
        if c < 48 || c > 57 {
            proof {
                assert(d[i - first] == c);
                assert(!all_digits(d));
            }
            return None;
        }
        let ghost k = i - first;
        proof {
            lemma_digits_value_prefix(d, k);
            assert(d.subrange(0, k + 1)[k] == c);
            assert forall|j: int| 0 <= j < k + 1 implies 48 <= #[trigger] d.subrange(0, k + 1)[j] <= 57 by {
                if j < k {
                    assert(d.subrange(0, k + 1)[j] == d.subrange(0, k)[j]);
                }
            }
        }
        let v = acc * 10 + (c - 48) as u32;
        acc = if v > 65535 { 65536 } else { v };
        i = i + 1;
    }
    proof {
        assert(d.subrange(0, n - first) =~= d);
    }
    if acc > 65535 {
        None
    } else {
        Some(acc as u16)
    }
}

/// An authority: a host, with a port and a user where given.
pub struct Authority {
    host: Text,
    port: Option<u16>,
    user: Option<Text>,
}

/// An authority as a mathematical value.
pub struct AuthorityView {
    pub host: Seq<u8>,
    pub port: Option<u16>,
    pub user: Option<Seq<u8>>,
}

impl View for Authority {
    type V = AuthorityView;

    closed spec fn view(&self) -> AuthorityView {
        AuthorityView {
            host: self.host@,
            port: self.port,
            user: match self.user {
                Some(u) => Some(u@),
                None => None,
            },
        }
    }
}

/// Why a request URI could not be read.
pub enum UriError {
    /// A token other than the grammar wanted.
    ParseToken(TokenError),
    /// A port that is no number from 0 to 65535.
    InvalidPort(Text),
    /// Tokens in a layout that the grammar does not have.
    SyntaxError(&'static str),
}

/// A URI error as a mathematical value.
pub enum UriErrorView {
    ParseToken(TokenErrorView),
    InvalidPort(Seq<u8>),
    SyntaxError(Seq<char>),
}

pub open spec fn uri_error_view(e: UriError) -> UriErrorView {
    match e {
        UriError::ParseToken(t) => UriErrorView::ParseToken(token_error_view(t)),
        UriError::InvalidPort(t) => UriErrorView::InvalidPort(t@),
        UriError::SyntaxError(s) => UriErrorView::SyntaxError(s@),
    }
}

/// The message of a URI error other than a token error: the text of a
/// syntax error, or `Invalid Port Number: port!`.
pub open spec fn uri_error_text(e: UriErrorView) -> Seq<char> {
    match e {
        UriErrorView::SyntaxError(s) => s,
        UriErrorView::InvalidPort(t) => "Invalid Port Number: "@ + text_chars(t) + "!"@,
        UriErrorView::ParseToken(_) => seq![],
    }
}

impl UriError {
    /// The message of this error; that of a token error is its own.
    pub fn to_string(&self) -> (s: String)
        requires
            !(self is ParseToken),
        ensures
            s@ == uri_error_text(uri_error_view(*self)),
    {
        match self {
            UriError::SyntaxError(text) => String::from_str(text),
            UriError::InvalidPort(t) => {
                proof {
                    t.lemma_bytes_are_view();
                }
                let mut s = String::from_str("Invalid Port Number: ");
                s.append(t.decode().as_str());
                s.append("!");
                s
            },
            UriError::ParseToken(_) => String::new(),
        }
    }
}

pub open spec fn authority_result_view(r: Result<Authority, UriError>) -> Result<AuthorityView, UriErrorView> {
    match r {
        Ok(a) => Ok(a@),
        Err(e) => Err(uri_error_view(e)),
    }
}

/// The text of a token with the role `name`, a token error lifted to a URI
/// error.
pub open spec fn uri_text(t: TokenView, name: Seq<char>) -> Result<Seq<u8>, UriErrorView> {
    match spec_text(t, Some(name)) {
        Ok(x) => Ok(x),
        Err(e) => Err(UriErrorView::ParseToken(e)),
    }
}

/// The separator `expected` at a token, a token error lifted to a URI
/// error.
pub open spec fn uri_sep(t: TokenView, expected: Seperator) -> Result<(), UriErrorView> {
    match spec_sep(t, Some(expected)) {
        Ok(_) => Ok(()),
        Err(e) => Err(UriErrorView::ParseToken(e)),
    }
}

/// The authority with the given host and user and the port spelled by
/// `port`, or the error of a port that is no number.
pub open spec fn authority_with_port(host: Seq<u8>, user: Option<Seq<u8>>, port: Seq<u8>) -> Result<AuthorityView, UriErrorView> {
    match spec_port(port) {
        Some(p) => Ok(AuthorityView { host, port: Some(p), user }),
        None => Err(UriErrorView::InvalidPort(port)),
    }
}

/// The authority that the tokens `v` spell: `host`, `host:port`,
/// `user@host` or `user@host:port`.
pub open spec fn authority_spec(v: Seq<TokenView>) -> Result<AuthorityView, UriErrorView> {
    if v.len() == 1 {
        match uri_text(v[0], "host"@) {
            Ok(h) => Ok(AuthorityView { host: h, port: None, user: None }),
            Err(e) => Err(e),
        }
    } else if v.len() == 3 {
        match v[1] {
            TokenView::Seperator(Seperator::At) => match uri_text(v[0], "user"@) {
                Err(e) => Err(e),
                Ok(u) => match uri_text(v[2], "host"@) {
                    Err(e) => Err(e),
                    Ok(h) => Ok(AuthorityView { host: h, port: None, user: Some(u) }),
                },
            },
            TokenView::Seperator(Seperator::Colon) => match uri_text(v[0], "host"@) {
                Err(e) => Err(e),
                Ok(h) => match uri_text(v[2], "port"@) {
                    Err(e) => Err(e),
                    Ok(p) => authority_with_port(h, None, p),
                },
            },
            TokenView::Seperator(_) => Err(UriErrorView::SyntaxError("Invalid Authority Syntax!"@)),
            TokenView::Text(t) => Err(UriErrorView::ParseToken(TokenErrorView::SeperatorError(None, t))),
        }
    } else if v.len() == 5 {
        match uri_text(v[0], "user"@) {
            Err(e) => Err(e),
            Ok(u) => match uri_sep(v[1], Seperator::At) {
                Err(e) => Err(e),
                Ok(_) => match uri_text(v[2], "host"@) {
                    Err(e) => Err(e),
                    Ok(h) => match uri_sep(v[3], Seperator::Colon) {
                        Err(e) => Err(e),
                        Ok(_) => match uri_text(v[4], "port"@) {
                            Err(e) => Err(e),
                            Ok(p) => authority_with_port(h, Some(u), p),
                        },
                    },
                },
            },
        }
    } else {
        Err(UriErrorView::SyntaxError("Invalid Authority Layout!"@))
    }
}

fn token_text(t: &Tokens, name: &str) -> (r: Result<Text, UriError>)
    ensures
        authority_text_view(r) == uri_text(token_view(*t), name@),
{
    match t.text(Some(name)) {
        Ok(x) => Ok(x),
        Err(e) => Err(UriError::ParseToken(e)),
    }
}

pub open spec fn authority_text_view(r: Result<Text, UriError>) -> Result<Seq<u8>, UriErrorView> {
    match r {
        Ok(t) => Ok(t@),
        Err(e) => Err(uri_error_view(e)),
    }
}

pub open spec fn unit_result_view(r: Result<(), UriError>) -> Result<(), UriErrorView> {
    match r {
        Ok(_) => Ok(()),
        Err(e) => Err(uri_error_view(e)),
    }
}

fn token_sep(t: &Tokens, expected: Seperator) -> (r: Result<(), UriError>)
    ensures
        unit_result_view(r) == uri_sep(token_view(*t), expected),
{
    match t.seperator(Some(expected)) {
        Ok(_) => Ok(()),
        Err(e) => Err(UriError::ParseToken(e)),
    }
}

fn authority_port(host: Text, user: Option<Text>, port: Text) -> (r: Result<Authority, UriError>)
    ensures
        authority_result_view(r) == authority_with_port(
            host@,
            match user {
                Some(u) => Some(u@),
                None => None,
            },
            port@,
        ),
{
    match parse_port(&port) {
        Some(p) => Ok(Authority { host, port: Some(p), user }),
        None => Err(UriError::InvalidPort(port)),
    }
}

impl Authority {
    /// The authority that a text spells: `host`, `host:port`, `user@host`
    /// or `user@host:port`.
    pub fn parse(value: &Text) -> (r: Result<Authority, UriError>)
        ensures
            authority_result_view(r) == authority_spec(tokenize_spec(value@)),
    {
        proof {
            value.lemma_bytes_are_view();
        }
        Self::parse_vec(tokenize(value))
    }

    /// The authority that a list of tokens spells.
    pub fn parse_vec(value: Vec<Tokens>) -> (r: Result<Authority, UriError>)
        ensures
            authority_result_view(r) == authority_spec(tokens_view(value@)),
    {
        let ghost v = tokens_view(value@);
        if value.len() == 1 {
            proof {
                assert(v[0] == token_view(value@[0]));
            }
            match token_text(&value[0], "host") {
                Ok(host) => Ok(Authority { host, port: None, user: None }),
                Err(e) => Err(e),
            }
        } else if value.len() == 3 {
            proof {
                assert(v[0] == token_view(value@[0]));
                assert(v[1] == token_view(value@[1]));
                assert(v[2] == token_view(value@[2]));
            }
            match &value[1] {
                Tokens::Seperator(Seperator::At) => {
                    let user = match token_text(&value[0], "user") {
                        Ok(u) => u,
                        Err(e) => return Err(e),
                    };
                    match token_text(&value[2], "host") {
                        Ok(host) => Ok(Authority { host, port: None, user: Some(user) }),
                        Err(e) => Err(e),
                    }
                },
                Tokens::Seperator(Seperator::Colon) => {
                    let host = match token_text(&value[0], "host") {
                        Ok(h) => h,
                        Err(e) => return Err(e),
                    };
                    let port = match token_text(&value[2], "port") {
                        Ok(p) => p,
                        Err(e) => return Err(e),
                    };
                    authority_port(host, None, port)
                },
                Tokens::Seperator(_) => Err(UriError::SyntaxError("Invalid Authority Syntax!")),
                Tokens::Text(t) => Err(UriError::ParseToken(TokenError::SeperatorError(None, t.duplicate()))),
            }
        } else if value.len() == 5 {
            proof {
                assert(v[0] == token_view(value@[0]));
                assert(v[1] == token_view(value@[1]));
                assert(v[2] == token_view(value@[2]));
                assert(v[3] == token_view(value@[3]));
                assert(v[4] == token_view(value@[4]));
            }
            let user = match token_text(&value[0], "user") {
                Ok(u) => u,
                Err(e) => return Err(e),
            };
            match token_sep(&value[1], Seperator::At) {
                Ok(_) => {},
                Err(e) => return Err(e),
            }
            let host = match token_text(&value[2], "host") {
                Ok(h) => h,
                Err(e) => return Err(e),
            };
            match token_sep(&value[3], Seperator::Colon) {
                Ok(_) => {},
                Err(e) => return Err(e),
            }
            let port = match token_text(&value[4], "port") {
                Ok(p) => p,
                Err(e) => return Err(e),
            };
            authority_port(host, Some(user), port)
        } else {
            Err(UriError::SyntaxError("Invalid Authority Layout!"))
        }
    }
}

/// The characters of a text.
pub open spec fn text_chars(t: Seq<u8>) -> Seq<char> {
    bytes_as_chars(t)
}

/// An authority written out: `user@` where there is a user, the host, and
/// `:port` where there is a port.
pub open spec fn authority_string(a: AuthorityView) -> Seq<char> {
    (match a.user {
        Some(u) => text_chars(u).push('@'),
        None => Seq::<char>::empty(),
    }) + text_chars(a.host) + (match a.port {
        Some(p) => seq![':'] + spec_decimal(p as nat),
        None => Seq::<char>::empty(),
    })
}

/// The user name and password of a user text `name:password`, split at its
/// first colon.
pub open spec fn spec_credentials(u: Seq<u8>) -> Option<(Seq<char>, Seq<char>)> {
    let c = text_chars(u);
    match first_index_from(c, ':', 0) {
        Some(i) => Some((c.subrange(0, i as int), c.subrange((i + 1) as int, c.len() as int))),
        None => None,
    }
}

fn text_string(t: &Text) -> (s: String)
    ensures
        s@ == text_chars(t@),
{
    proof {
        t.lemma_bytes_are_view();
    }
    t.decode()
}

impl Authority {
    /// The user name and password of this authority, where its user is
    /// written `name:password`.
    pub fn auth(&self) -> (r: Option<(String, String)>)
        ensures
            match self@.user {
                Some(u) => match spec_credentials(u) {
                    Some((a, b)) => r matches Some((x, y)) && x@ == a && y@ == b,
                    None => r is None,
                },
                None => r is None,
            },
    {
        match &self.user {
            Some(value) => {
                let str = text_string(value);
                let chars = crate::text::chars_of(str.as_str());
                let ghost c = chars@;
                let mut i: usize = 0;
                while i < chars.len()
                    invariant
                        c == chars@,
                        c == text_chars(value@),
                        self@.user == Some(value@),
                        i <= chars@.len(),
                        first_index_from(c, ':', 0) == first_index_from(c, ':', i as nat),
                    decreases chars@.len() - i,
                {
                    if chars[i] == ':' {
                        proof {
                            assert(first_index_from(c, ':', i as nat) == Some(i as nat));
                        }
                        let a = crate::text::string_from_range(chars.as_slice(), 0, i);
                        let b = crate::text::string_from_range(chars.as_slice(), i + 1, chars.len());
                        return Some((a, b));
                    }
                    i = i + 1;
                }
                None
            },
            None => None,
        }
    }

    /// This authority written out.
    pub fn to_string(&self) -> (s: String)
        ensures
            s@ == authority_string(self@),
    {
        let mut s = String::new();
        match &self.user {
            Some(u) => {
                let us = text_string(u);
                s.append(us.as_str());
                push_char(&mut s, '@');
            },
            None => {},
        }
        let hs = text_string(&self.host);
        s.append(hs.as_str());
        match self.port {
            Some(p) => {
                push_char(&mut s, ':');
                let ps = decimal_string(p as u64);
                s.append(ps.as_str());
            },
            None => {},
        }
        proof {
            assert(s@ =~= authority_string(self@));
        }
        s
    }
}

/// An absolute path: its segments, in order.
pub struct AbsPath(Vec<Text>);

impl View for AbsPath {
    type V = Seq<Seq<u8>>;

    closed spec fn view(&self) -> Seq<Seq<u8>> {
        texts_of(self.0@)
    }
}

/// The views of a list of texts.
pub open spec fn texts_of(v: Seq<Text>) -> Seq<Seq<u8>> {
    v.map_values(|t: Text| t@)
}

/// How a scan of path segments ends: with the segments read, the separator
/// other than `/` that stopped it (if one did) and the tokens after it; or
/// with a token error.
pub enum PathScan {
    Done(Seq<Seq<u8>>, Option<Seperator>, Seq<TokenView>),
    Failed(TokenErrorView),
}

/// Reads path segments from `t` after the segments `acc`: a text, then a
/// separator, which continues the path if it is `/` and stops it otherwise.
pub open spec fn path_scan(t: Seq<TokenView>, acc: Seq<Seq<u8>>) -> PathScan
    decreases t.len(),
{
    if t.len() == 0 {
        PathScan::Done(acc, None, t)
    } else {
        match spec_text(t[0], None) {
            Err(e) => PathScan::Failed(e),
            Ok(x) => if t.len() == 1 {
                PathScan::Done(acc.push(x), None, t.skip(1))
            } else {
                match spec_sep(t[1], None) {
                    Err(e) => PathScan::Failed(e),
                    Ok(sep) => if sep != Seperator::ForwardSlash {
                        PathScan::Done(acc.push(x), Some(sep), t.skip(2))
                    } else {
                        path_scan(t.skip(2), acc.push(x))
                    },
                }
            },
        }
    }
}

/// The segments of an absolute path spelled by the tokens `t`: an optional
/// first segment, which must be followed by `/` if anything follows it (a
/// leading separator is passed over), then segments separated by `/`.
pub open spec fn abs_path_spec(t: Seq<TokenView>) -> Result<Seq<Seq<u8>>, TokenErrorView> {
    let start: Result<(Seq<Seq<u8>>, Seq<TokenView>), TokenErrorView> = if t.len() == 0 {
        Ok((seq![], t))
    } else {
        match t[0] {
            TokenView::Text(x) => if t.len() == 1 {
                Ok((seq![x], t.skip(1)))
            } else {
                match spec_sep(t[1], Some(Seperator::ForwardSlash)) {
                    Err(e) => Err(e),
                    Ok(_) => Ok((seq![x], t.skip(2))),
                }
            },
            TokenView::Seperator(_) => Ok((seq![], t.skip(1))),
        }
    };
    match start {
        Err(e) => Err(e),
        Ok((acc, rest)) => match path_scan(rest, acc) {
            PathScan::Failed(e) => Err(e),
            PathScan::Done(segs, stop, _) => match stop {
                Some(sep) => Err(TokenErrorView::MismatchError(Seperator::ForwardSlash, sep)),
                None => Ok(segs),
            },
        },
    }
}

/// The segments joined by `/`.
pub open spec fn join_segments(segs: Seq<Seq<u8>>) -> Seq<char>
    decreases segs.len(),
{
    if segs.len() == 0 {
        seq![]
    } else if segs.len() == 1 {
        text_chars(segs[0])
    } else {
        join_segments(segs.drop_last()).push('/') + text_chars(segs.last())
    }
}

/// An absolute path written out: `/` and its segments joined by `/`.
pub open spec fn path_string(segs: Seq<Seq<u8>>) -> Seq<char> {
    seq!['/'] + join_segments(segs)
}

pub open spec fn abs_path_result_view(r: Result<AbsPath, TokenError>) -> Result<Seq<Seq<u8>>, TokenErrorView> {
    match r {
        Ok(p) => Ok(p@),
        Err(e) => Err(token_error_view(e)),
    }
}

impl AbsPath {
    /// The empty path.
    pub fn empty() -> (p: AbsPath)
        ensures
            p@ == Seq::<Seq<u8>>::empty(),
    {
        let p = AbsPath(Vec::new());
        proof {
            assert(p@ =~= Seq::<Seq<u8>>::empty());
        }
        p
    }

    /// The absolute path that a text spells.
    pub fn parse(value: &Text) -> (r: Result<AbsPath, TokenError>)
        ensures
            abs_path_result_view(r) == abs_path_spec(tokenize_spec(value@)),
    {
        proof {
            value.lemma_bytes_are_view();
        }
        let mut it = TokenIterator::new(value);
        let ghost t = it.rest();
        let mut start: Option<Text> = None;
        match it.next() {
            Some(token) => {
                if token.is_text() {
                    let first = match token.text(None) {
                        Ok(x) => x,
                        Err(e) => return Err(e),
                    };
                    start = Some(first);
                    match it.next() {
                        Some(sep) => {
                            match sep.seperator(Some(Seperator::ForwardSlash)) {
                                Ok(_) => {},
                                Err(e) => return Err(e),
                            }
                        },
                        None => {},
                    }
                }
            },
            None => {},
        }
        proof {
            if t.len() >= 2 {
                assert(t.skip(2) =~= t.drop_first().drop_first());
            }
            if t.len() >= 1 {
                assert(t.skip(1) =~= t.drop_first());
            }
        }
        match Self::parse_iter(&mut it, start) {
            Ok((result, err_sep)) => match err_sep {
                Some(sep) => Err(TokenError::MismatchError(Seperator::ForwardSlash, sep)),
                None => Ok(result),
            },
            Err(e) => Err(e),
        }
    }

    /// Reads path segments from `value`, after `start` where it is given,
    /// until the tokens end or a separator other than `/` stops the path;
    /// returns the path and that separator.
    pub fn parse_iter(value: &mut TokenIterator, start: Option<Text>) -> (r: Result<(AbsPath, Option<Seperator>), TokenError>)
        ensures
            match path_scan(
                old(value).rest(),
                match start {
                    Some(t) => seq![t@],
                    None => seq![],
                },
            ) {
                PathScan::Done(segs, stop, rest) => r matches Ok((p, s)) && p@ == segs && s == stop
                    && final(value).rest() == rest,
                PathScan::Failed(e) => r matches Err(x) && token_error_view(x) == e,
            },
    {
        let mut vec: Vec<Text> = Vec::new();
        match start {
            Some(t) => vec.push(t),
            None => {},
        }
        let ghost init = texts_of(vec@);
        proof {
            assert(init =~= match start {
                Some(t) => seq![t@],
                None => seq![],
            });
        }
        loop
            invariant
                path_scan(old(value).rest(), init) == path_scan(value.rest(), texts_of(vec@)),
                init == match start {
                    Some(t) => seq![t@],
                    None => seq![],
                },
            decreases value.rest().len(),
        {
            let ghost t = value.rest();
            let segment = match value.next() {
                Some(s) => s,
                None => {
                    let p = AbsPath(vec);
                    return Ok((p, None));
                },
            };
            let x = match segment.text(None) {
                Ok(x) => x,
                Err(e) => return Err(e),
            };
            let ghost before = texts_of(vec@);
            vec.push(x);
            proof {
                assert(texts_of(vec@) =~= before.push(t[0]->Text_0));
            }
            match value.next() {
                Some(sep_token) => {
                    let sep = match sep_token.seperator(None) {
                        Ok(s) => s,
                        Err(e) => return Err(e),
                    };
                    proof {
                        assert(value.rest() =~= t.skip(2));
                    }
                    if sep != Seperator::ForwardSlash {
                        return Ok((AbsPath(vec), Some(sep)));
                    }
                },
                None => {
                    proof {
                        assert(value.rest() =~= t.skip(1));
                    }
                },
            }
        }
    }

    /// This path written out: `/` and its segments joined by `/`.
    pub fn to_string(&self) -> (s: String)
        ensures
            s@ == path_string(self@),
    {
        let mut s = String::new();
        push_char(&mut s, '/');
        let rest = self.segments_string();
        s.append(rest.as_str());
        s
    }

    /// The segments of this path joined by `/`.
    pub fn segments_string(&self) -> (s: String)
        ensures
            s@ == join_segments(self@),
    {
        let mut s = String::new();
        let mut i: usize = 0;
        while i < self.0.len()
            invariant
                i <= self.0@.len(),
                s@ == join_segments(texts_of(self.0@.subrange(0, i as int))),
            decreases self.0@.len() - i,
        {
            if i > 0 {
                push_char(&mut s, '/');
            }
            let part = text_string(&self.0[i]);
            s.append(part.as_str());
            proof {
                let segs = texts_of(self.0@.subrange(0, i + 1));
                assert(segs.drop_last() =~= texts_of(self.0@.subrange(0, i as int)));
                assert(segs.last() == self.0@[i as int]@);
                if i == 0 {
                    assert(segs.len() == 1);
                }
            }
            i = i + 1;
            proof {
                assert(s@ =~= join_segments(texts_of(self.0@.subrange(0, i as int))));
            }
        }
        proof {
            assert(self.0@.subrange(0, self.0@.len() as int) =~= self.0@);
        }
        s
    }
}

/// An absolute URI: a scheme, an authority where given, a path and the
/// texts of a query.
pub struct AbsUri {
    scheme: Text,
    authority: Option<Authority>,
    path: AbsPath,
    query: Vec<Text>,
}

/// An absolute URI as a mathematical value.
pub struct AbsUriView {
    pub scheme: Seq<u8>,
    pub authority: Option<AuthorityView>,
    pub path: Seq<Seq<u8>>,
    pub query: Seq<Seq<u8>>,
}

impl View for AbsUri {
    type V = AbsUriView;

    closed spec fn view(&self) -> AbsUriView {
        AbsUriView {
            scheme: self.scheme@,
            authority: match self.authority {
                Some(a) => Some(a@),
                None => None,
            },
            path: self.path@,
            query: texts_of(self.query@),
        }
    }
}

/// How the tokens of an authority inside an absolute URI end: the tokens
/// run out, or a separator other than `:` and `@` (or the sixth token)
/// stops them; then the authority's tokens, the stopping token and the
/// tokens after it.
pub enum AuthorityRun {
    Ended(Seq<TokenView>),
    Stopped(Seq<TokenView>, TokenView, Seq<TokenView>),
}

/// Collects up to five more tokens of an authority from `rest` after the
/// tokens `v`, of which `k` were collected here already.
pub open spec fn authority_run(rest: Seq<TokenView>, v: Seq<TokenView>, k: nat) -> AuthorityRun
    decreases 5 - k,
{
    if k >= 5 {
        AuthorityRun::Stopped(v, v.last(), rest)
    } else if rest.len() == 0 {
        AuthorityRun::Ended(v)
    } else {
        match rest[0] {
            TokenView::Seperator(sep) => if sep == Seperator::Colon || sep == Seperator::At {
                authority_run(rest.drop_first(), v.push(rest[0]), k + 1)
            } else {
                AuthorityRun::Stopped(v, rest[0], rest.drop_first())
            },
            TokenView::Text(_) => authority_run(rest.drop_first(), v.push(rest[0]), k + 1),
        }
    }
}

/// The texts of a query read from `rest` after the texts `acc`: the texts
/// in order, where every separator must be `=`.
pub open spec fn query_spec(rest: Seq<TokenView>, acc: Seq<Seq<u8>>) -> Result<Seq<Seq<u8>>, UriErrorView>
    decreases rest.len(),
{
    if rest.len() == 0 {
        Ok(acc)
    } else {
        match rest[0] {
            TokenView::Seperator(sep) => if sep != Seperator::Equals {
                Err(UriErrorView::ParseToken(TokenErrorView::MismatchError(Seperator::Equals, sep)))
            } else {
                query_spec(rest.drop_first(), acc)
            },
            TokenView::Text(x) => query_spec(rest.drop_first(), acc.push(x)),
        }
    }
}

/// The rest of an absolute URI after its scheme and authority: `/`, the
/// path, and a query after `?`; a path stopped by another separator ends
/// the URI there.
pub open spec fn abs_uri_tail(
    scheme: Seq<u8>,
    authority: Option<AuthorityView>,
    next: TokenView,
    rest: Seq<TokenView>,
) -> Result<AbsUriView, UriErrorView> {
    match uri_sep(next, Seperator::ForwardSlash) {
        Err(e) => Err(e),
        Ok(_) => match path_scan(rest, seq![]) {
            PathScan::Failed(e) => Err(UriErrorView::ParseToken(e)),
            PathScan::Done(path, stop, rest2) => if stop == Some(Seperator::QuestionMark) {
                match query_spec(rest2, seq![]) {
                    Err(e) => Err(e),
                    Ok(query) => Ok(AbsUriView { scheme, authority, path, query }),
                }
            } else {
                Ok(AbsUriView { scheme, authority, path, query: seq![] })
            },
        },
    }
}

/// The rest of an absolute URI after `scheme://` and its authority `a`,
/// from the token `next` that stopped the authority: the absolute path
/// after `/`, or a query at once after `?`.
pub open spec fn net_path_tail(scheme: Seq<u8>, a: AuthorityView, next: TokenView, rest: Seq<TokenView>) -> Result<AbsUriView, UriErrorView> {
    if next == TokenView::Seperator(Seperator::QuestionMark) {
        match query_spec(rest, seq![]) {
            Err(e) => Err(e),
            Ok(query) => Ok(AbsUriView { scheme, authority: Some(a), path: seq![], query }),
        }
    } else {
        abs_uri_tail(scheme, Some(a), next, rest)
    }
}

/// The rest of an absolute URI after `scheme:/`, from its next token
/// `first`: a text there starts an authority; a second `/` followed by a
/// text starts a network path (`//authority[/path][?query]`, the authority
/// reaching to the next separator other than `:` and `@`).
pub open spec fn abs_uri_after(scheme: Seq<u8>, first: TokenView, rest: Seq<TokenView>) -> Result<AbsUriView, UriErrorView> {
    if first is Text {
        match authority_run(rest, seq![first], 0) {
            AuthorityRun::Ended(_) => Err(UriErrorView::SyntaxError("Unexpected end when parsing Authority!"@)),
            AuthorityRun::Stopped(v, next, rest2) => match authority_spec(v) {
                Err(e) => Err(e),
                Ok(a) => abs_uri_tail(scheme, Some(a), next, rest2),
            },
        }
    } else if first == TokenView::Seperator(Seperator::ForwardSlash) && rest.len() > 0 && rest[0] is Text {
        match authority_run(rest.drop_first(), seq![rest[0]], 0) {
            AuthorityRun::Ended(v) => match authority_spec(v) {
                Err(e) => Err(e),
                Ok(a) => Ok(AbsUriView { scheme, authority: Some(a), path: seq![], query: seq![] }),
            },
            AuthorityRun::Stopped(v, next, rest2) => match authority_spec(v) {
                Err(e) => Err(e),
                Ok(a) => net_path_tail(scheme, a, next, rest2),
            },
        }
    } else {
        abs_uri_tail(scheme, None, first, rest)
    }
}

/// The absolute URI that the tokens `t` spell:
/// `scheme:/[authority]/path[?query]`.
pub open spec fn abs_uri_spec(t: Seq<TokenView>) -> Result<AbsUriView, UriErrorView> {
    if t.len() == 0 {
        Err(UriErrorView::SyntaxError("Unexpected end when parsing scheme!"@))
    } else {
        match uri_text(t[0], "scheme"@) {
            Err(e) => Err(e),
            Ok(scheme) => if t.len() == 1 {
                Err(UriErrorView::SyntaxError("Unexpected end when parsing scheme!"@))
            } else {
                match uri_sep(t[1], Seperator::Colon) {
                    Err(e) => Err(e),
                    Ok(_) => if t.len() == 2 {
                        Err(UriErrorView::SyntaxError("Unexpected end when parsing authority or path!"@))
                    } else {
                        match uri_sep(t[2], Seperator::ForwardSlash) {
                            Err(e) => Err(e),
                            Ok(_) => if t.len() == 3 {
                                Err(UriErrorView::SyntaxError("Unexpected end when parsing authority or path!"@))
                            } else {
                                abs_uri_after(scheme, t[3], t.skip(4))
                            },
                        }
                    },
                }
            },
        }
    }
}

/// The texts of a list of texts, concatenated.
pub open spec fn concat_texts(q: Seq<Seq<u8>>) -> Seq<char>
    decreases q.len(),
{
    if q.len() == 0 {
        seq![]
    } else {
        concat_texts(q.drop_last()) + text_chars(q.last())
    }
}

/// An absolute URI written out: the scheme and `:/`, then `/authority/`
/// where there is an authority, the path's segments joined by `/`, and the
/// query's texts.
pub open spec fn abs_uri_string(u: AbsUriView) -> Seq<char> {
    text_chars(u.scheme) + seq![':', '/'] + (match u.authority {
        Some(a) => seq!['/'] + authority_string(a) + seq!['/'],
        None => Seq::<char>::empty(),
    }) + join_segments(u.path) + concat_texts(u.query)
}

pub open spec fn abs_uri_result_view(r: Result<AbsUri, UriError>) -> Result<AbsUriView, UriErrorView> {
    match r {
        Ok(u) => Ok(u@),
        Err(e) => Err(uri_error_view(e)),
    }
}

fn next_or(it: &mut TokenIterator, msg: &'static str) -> (r: Result<Tokens, UriError>)
    ensures
        old(it).rest().len() == 0 ==> (r matches Err(e) && uri_error_view(e) == UriErrorView::SyntaxError(msg@)),
        old(it).rest().len() > 0 ==> (r matches Ok(t) && token_view(t) == old(it).rest()[0]
            && final(it).rest() == old(it).rest().drop_first()),
{
    match it.next() {
        Some(t) => Ok(t),
        None => Err(UriError::SyntaxError(msg)),
    }
}

impl AbsUri {
    /// Collects the tokens of an authority that starts with `first`, and
    /// the token that stopped it, unless the tokens ran out first.
    fn authority_tokens(it: &mut TokenIterator, first: Tokens) -> (r: (Vec<Tokens>, Option<Tokens>))
        ensures
            match authority_run(old(it).rest(), seq![token_view(first)], 0) {
                AuthorityRun::Ended(v) => tokens_view(r.0@) == v && r.1 is None,
                AuthorityRun::Stopped(v, next, rest) => tokens_view(r.0@) == v
                    && (r.1 matches Some(n) && token_view(n) == next) && final(it).rest() == rest,
            },
    {
        let ghost v0 = seq![token_view(first)];
        let mut next = first.duplicate();
        let mut vec: Vec<Tokens> = Vec::with_capacity(5);
        vec.push(first);
        proof {
            assert(tokens_view(vec@) =~= v0);
        }
        let mut k: usize = 0;
        while k < 5
            invariant
                k <= 5,
                v0 == seq![token_view(first)],
                authority_run(old(it).rest(), v0, 0) == authority_run(it.rest(), tokens_view(vec@), k as nat),
                vec@.len() > 0,
                token_view(next) == tokens_view(vec@).last(),
            decreases 5 - k,
        {
            let ghost rest = it.rest();
            next = match it.next() {
                Some(t) => t,
                None => return (vec, None),
            };
            let ghost before = tokens_view(vec@);
            match &next {
                Tokens::Seperator(sep) => {
                    if *sep == Seperator::Colon || *sep == Seperator::At {
                        vec.push(next.duplicate());
                    } else {
                        return (vec, Some(next));
                    }
                },
                Tokens::Text(_) => vec.push(next.duplicate()),
            }
            proof {
                assert(tokens_view(vec@) =~= before.push(rest[0]));
            }
            k = k + 1;
        }
        (vec, Some(next))
    }

    /// Reads query texts to the end of the tokens.
    fn query_texts(it: &mut TokenIterator) -> (r: Result<Vec<Text>, UriError>)
        ensures
            match query_spec(old(it).rest(), seq![]) {
                Ok(q) => r matches Ok(v) && texts_of(v@) == q,
                Err(e) => r matches Err(x) && uri_error_view(x) == e,
            },
    {
        let mut query: Vec<Text> = Vec::new();
        proof {
            assert(texts_of(query@) =~= Seq::<Seq<u8>>::empty());
        }
        loop
            invariant
                query_spec(old(it).rest(), seq![]) == query_spec(it.rest(), texts_of(query@)),
            decreases it.rest().len(),
        {
            let ghost rest = it.rest();
            match it.next() {
                Some(token) => match token {
                    Tokens::Seperator(sep) => {
                        if sep != Seperator::Equals {
                            return Err(UriError::ParseToken(TokenError::MismatchError(Seperator::Equals, sep)));
                        }
                    },
                    Tokens::Text(txt) => {
                        let ghost before = texts_of(query@);
                        query.push(txt);
                        proof {
                            assert(texts_of(query@) =~= before.push(rest[0]->Text_0));
                        }
                    },
                },
                None => return Ok(query),
            }
        }
    }

    /// Reads the rest of an absolute URI after its scheme and authority.
    fn parse_tail(scheme: Text, authority: Option<Authority>, next: Tokens, it: &mut TokenIterator) -> (r: Result<AbsUri, UriError>)
        ensures
            abs_uri_result_view(r) == abs_uri_tail(
                scheme@,
                match authority {
                    Some(a) => Some(a@),
                    None => None,
                },
                token_view(next),
                old(it).rest(),
            ),
    {
        match token_sep(&next, Seperator::ForwardSlash) {
            Ok(_) => {},
            Err(e) => return Err(e),
        }
        let (path, stop) = match AbsPath::parse_iter(it, None) {
            Ok(x) => x,
            Err(e) => return Err(UriError::ParseToken(e)),
        };
        let query = if stop == Some(Seperator::QuestionMark) {
            match Self::query_texts(it) {
                Ok(q) => q,
                Err(e) => return Err(e),
            }
        } else {
            Vec::new()
        };
        let u = AbsUri { scheme, authority, path, query };
        proof {
            if stop != Some(Seperator::QuestionMark) {
                assert(u@.query =~= Seq::<Seq<u8>>::empty());
            }
        }
        Ok(u)
    }

    /// The absolute URI that a text spells: `scheme:/[authority]/path[?query]`.
    pub fn parse(value: &Text) -> (r: Result<AbsUri, UriError>)
        ensures
            abs_uri_result_view(r) == abs_uri_spec(tokenize_spec(value@)),
    {
        proof {
            value.lemma_bytes_are_view();
        }
        let mut it = TokenIterator::new(value);
        let ghost t = it.rest();
        let t0 = match next_or(&mut it, "Unexpected end when parsing scheme!") {
            Ok(x) => x,
            Err(e) => return Err(e),
        };
        let scheme = match token_text(&t0, "scheme") {
            Ok(x) => x,
            Err(e) => return Err(e),
        };
        let t1 = match next_or(&mut it, "Unexpected end when parsing scheme!") {
            Ok(x) => x,
            Err(e) => return Err(e),
        };
        match token_sep(&t1, Seperator::Colon) {
            Ok(_) => {},
            Err(e) => return Err(e),
        }
        let t2 = match next_or(&mut it, "Unexpected end when parsing authority or path!") {
            Ok(x) => x,
            Err(e) => return Err(e),
        };
        match token_sep(&t2, Seperator::ForwardSlash) {
            Ok(_) => {},
            Err(e) => return Err(e),
        }
        let next = match next_or(&mut it, "Unexpected end when parsing authority or path!") {
            Ok(x) => x,
            Err(e) => return Err(e),
        };
        proof {
            assert(it.rest() =~= t.skip(4));
        }
        if next.is_text() {
            let (vec, stop) = Self::authority_tokens(&mut it, next);
            let stop = match stop {
                Some(t) => t,
                None => return Err(UriError::SyntaxError("Unexpected end when parsing Authority!")),
            };
            let authority = match Authority::parse_vec(vec) {
                Ok(a) => a,
                Err(e) => return Err(e),
            };
            Self::parse_tail(scheme, Some(authority), stop, &mut it)
        } else if matches!(next, Tokens::Seperator(Seperator::ForwardSlash)) && it.peek_is_text() {
            let ghost rest = it.rest();
            let first = match it.next() {
                Some(t) => t,
                None => return Err(UriError::SyntaxError("Unexpected end when parsing Authority!")),
            };
            proof {
                assert(token_view(first) == rest[0]);
                assert(it.rest() == rest.drop_first());
            }
            let (vec, stop) = Self::authority_tokens(&mut it, first);
            let authority = match Authority::parse_vec(vec) {
                Ok(a) => a,
                Err(e) => return Err(e),
            };
            match stop {
                None => {
                    let u = AbsUri { scheme, authority: Some(authority), path: AbsPath::empty(), query: Vec::new() };
                    proof {
                        assert(u@.query =~= Seq::<Seq<u8>>::empty());
                    }
                    Ok(u)
                },
                Some(stop) => {
                    if matches!(stop, Tokens::Seperator(Seperator::QuestionMark)) {
                        let query = match Self::query_texts(&mut it) {
                            Ok(q) => q,
                            Err(e) => return Err(e),
                        };
                        Ok(AbsUri { scheme, authority: Some(authority), path: AbsPath::empty(), query })
                    } else {
                        Self::parse_tail(scheme, Some(authority), stop, &mut it)
                    }
                },
            }
        } else {
            Self::parse_tail(scheme, None, next, &mut it)
        }
    }

    /// This URI written out.
    pub fn to_string(&self) -> (s: String)
        ensures
            s@ == abs_uri_string(self@),
    {
        let mut s = text_string(&self.scheme);
        push_char(&mut s, ':');
        push_char(&mut s, '/');
        match &self.authority {
            Some(a) => {
                push_char(&mut s, '/');
                let as_ = a.to_string();
                s.append(as_.as_str());
                push_char(&mut s, '/');
            },
            None => {},
        }
        let ps = self.path.segments_string();
        s.append(ps.as_str());
        let mut i: usize = 0;
        while i < self.query.len()
            invariant
                i <= self.query@.len(),
                s@ == text_chars(self.scheme@) + seq![':', '/'] + (match self@.authority {
                    Some(a) => seq!['/'] + authority_string(a) + seq!['/'],
                    None => Seq::<char>::empty(),
                }) + join_segments(self.path@) + concat_texts(texts_of(self.query@.subrange(0, i as int))),
            decreases self.query@.len() - i,
        {
            let q = text_string(&self.query[i]);
            s.append(q.as_str());
            proof {
                let qs = texts_of(self.query@.subrange(0, i + 1));
                assert(qs.drop_last() =~= texts_of(self.query@.subrange(0, i as int)));
            }
            i = i + 1;
        }
        proof {
            assert(self.query@.subrange(0, self.query@.len() as int) =~= self.query@);
            assert(s@ =~= abs_uri_string(self@));
        }
        s
    }
}

/// A request URI.
pub enum Uri {
    Asterisk,
    AbsoluteURI(AbsUri),
    AbsolutePath(AbsPath),
    Authority(Authority),
}

/// A request URI as a mathematical value.
pub enum UriView {
    Asterisk,
    AbsoluteURI(AbsUriView),
    AbsolutePath(Seq<Seq<u8>>),
    Authority(AuthorityView),
}

impl View for Uri {
    type V = UriView;

    open spec fn view(&self) -> UriView {
        match self {
            Uri::Asterisk => UriView::Asterisk,
            Uri::AbsoluteURI(u) => UriView::AbsoluteURI(u@),
            Uri::AbsolutePath(p) => UriView::AbsolutePath(p@),
            Uri::Authority(a) => UriView::Authority(a@),
        }
    }
}

/// Whether the byte `x` occurs in `b`.
pub open spec fn has_byte(b: Seq<u8>, x: u8) -> bool {
    exists|i: int| 0 <= i < b.len() && b[i] == x
}

/// Whether the byte `x` occurs in `b` directly followed by `y`.
pub open spec fn has_pair(b: Seq<u8>, x: u8, y: u8) -> bool {
    exists|i: int| 0 <= i < b.len() - 1 && #[trigger] b[i] == x && b[i + 1] == y
}

/// The request URI that the bytes `b` spell: empty or `/` is the root path,
/// `*` the asterisk; text with `:/` an absolute URI, other text with `/` an
/// absolute path, and other text an authority.
pub open spec fn uri_spec(b: Seq<u8>) -> Result<UriView, UriErrorView> {
    if b.len() == 0 {
        Ok(UriView::AbsolutePath(seq![]))
    } else if b.len() == 1 {
        if b[0] == 42 {
            Ok(UriView::Asterisk)
        } else if b[0] == 47 {
            Ok(UriView::AbsolutePath(seq![]))
        } else {
            Err(UriErrorView::SyntaxError("Invalid Uri Syntax!"@))
        }
    } else if !has_pair(b, 58, 47) {
        if has_byte(b, 47) {
            match abs_path_spec(tokenize_spec(b)) {
                Ok(p) => Ok(UriView::AbsolutePath(p)),
                Err(e) => Err(UriErrorView::ParseToken(e)),
            }
        } else {
            match authority_spec(tokenize_spec(b)) {
                Ok(a) => Ok(UriView::Authority(a)),
                Err(e) => Err(e),
            }
        }
    } else {
        match abs_uri_spec(tokenize_spec(b)) {
            Ok(u) => Ok(UriView::AbsoluteURI(u)),
            Err(e) => Err(e),
        }
    }
}

/// A request URI written out.
pub open spec fn uri_string(u: UriView) -> Seq<char> {
    match u {
        UriView::Asterisk => seq!['*'],
        UriView::Authority(a) => authority_string(a),
        UriView::AbsolutePath(p) => path_string(p),
        UriView::AbsoluteURI(x) => abs_uri_string(x),
    }
}

pub open spec fn uri_result_view(r: Result<Uri, UriError>) -> Result<UriView, UriErrorView> {
    match r {
        Ok(u) => Ok(u@),
        Err(e) => Err(uri_error_view(e)),
    }
}

fn find_byte(b: &Vec<u8>, x: u8) -> (r: bool)
    ensures
        r == has_byte(b@, x),
{
    let mut i: usize = 0;
    while i < b.len()
        invariant
            i <= b@.len(),
            forall|j: int| 0 <= j < i ==> b@[j] != x,
        decreases b@.len() - i,
    {
        if b[i] == x {
            return true;
        }
        i = i + 1;
    }
    false
}

fn find_pair(b: &Vec<u8>, x: u8, y: u8) -> (r: bool)
    ensures
        r == has_pair(b@, x, y),
{
    if b.len() < 2 {
        return false;
    }
    let mut i: usize = 0;
    while i < b.len() - 1
        invariant
            b@.len() >= 2,
            i <= b@.len(),
            forall|j: int| 0 <= j < i && j + 1 < b@.len() ==> !(#[trigger] b@[j] == x && b@[j + 1] == y),
        decreases b@.len() - i,
    {
        if b[i] == x && b[i + 1] == y {
            return true;
        }
        i = i + 1;
    }
    false
}

impl Uri {
    /// The request URI that a text spells.
    pub fn parse(text: &Text) -> (r: Result<Uri, UriError>)
        ensures
            uri_result_view(r) == uri_spec(text@),
    {
        let b = text.as_bytes();
        let length = b.len();
        if length == 0 {
            Ok(Uri::AbsolutePath(AbsPath::empty()))
        } else if length == 1 {
            if b[0] == 42 {
                Ok(Uri::Asterisk)
            } else if b[0] == 47 {
                Ok(Uri::AbsolutePath(AbsPath::empty()))
            } else {
                Err(UriError::SyntaxError("Invalid Uri Syntax!"))
            }
        } else if !find_pair(b, 58, 47) {
            if find_byte(b, 47) {
                match AbsPath::parse(text) {
                    Ok(p) => Ok(Uri::AbsolutePath(p)),
                    Err(e) => Err(UriError::ParseToken(e)),
                }
            } else {
                match Authority::parse(text) {
                    Ok(a) => Ok(Uri::Authority(a)),
                    Err(e) => Err(e),
                }
            }
        } else {
            match AbsUri::parse(text) {
                Ok(u) => Ok(Uri::AbsoluteURI(u)),
                Err(e) => Err(e),
            }
        }
    }

    /// The absolute path that this URI is; any other URI is an error that
    /// holds the URI written out.
    pub fn absolute_path(&self) -> (r: Result<String, String>)
        ensures
            match self@ {
                UriView::AbsolutePath(p) => r matches Ok(s) && s@ == path_string(p),
                _ => r matches Err(s) && s@ == uri_string(self@),
            },
    {
        match self {
            Uri::AbsolutePath(abs) => Ok(abs.to_string()),
            _ => Err(self.to_string()),
        }
    }

    /// This URI written out.
    pub fn to_string(&self) -> (s: String)
        ensures
            s@ == uri_string(self@),
    {
        match self {
            Uri::Asterisk => crate::text::char_string('*'),
            Uri::Authority(a) => a.to_string(),
            Uri::AbsolutePath(p) => p.to_string(),
            Uri::AbsoluteURI(u) => u.to_string(),
        }
    }
}

/// Whether a text can be one token of a request line: not empty, and
/// plain bytes only.
pub open spec fn is_token_text(t: Seq<u8>) -> bool {
    t.len() > 0 && all_plain(t)
}

/// Whether an authority's texts can each be one token: those that `parse`
/// gives always can.
pub open spec fn valid_authority(a: AuthorityView) -> bool {
    is_token_text(a.host) && match a.user {
        Some(u) => is_token_text(u),
        None => true,
    }
}

proof fn lemma_ascii_bytes_concat(x: Seq<char>, y: Seq<char>)
    ensures
        ascii_bytes(x + y) == ascii_bytes(x) + ascii_bytes(y),
{
    assert(ascii_bytes(x + y) =~= ascii_bytes(x) + ascii_bytes(y));
}

proof fn lemma_digit_byte(k: nat)
    requires
        k < 10,
    ensures
        (digit_char(k) as u8) == 48 + k,
{
}

/// The bytes of a decimal numeral are plain digits that read back as the
/// number, with no sign in front.
pub proof fn lemma_decimal_bytes(n: nat)
    ensures
        ascii_bytes(spec_decimal(n)).len() > 0,
        all_digits(ascii_bytes(spec_decimal(n))),
        all_plain(ascii_bytes(spec_decimal(n))),
        digits_value(ascii_bytes(spec_decimal(n))) == n,
        ascii_bytes(spec_decimal(n))[0] != 43,
    decreases n,
{
    let d = ascii_bytes(spec_decimal(n));
    if n < 10 {
        lemma_digit_byte(n);
        assert(d =~= seq![(48 + n) as u8]);
        assert(d.drop_last() =~= Seq::<u8>::empty());
        assert(d.last() == 48 + n);
        assert(digits_value(d.drop_last()) == 0);
        assert(digits_value(d) == digits_value(d.drop_last()) * 10 + (d.last() - 48) as nat);
    } else {
        lemma_decimal_bytes(n / 10);
        let p = ascii_bytes(spec_decimal(n / 10));
        lemma_digit_byte(n % 10);
        assert(d =~= p.push((48 + n % 10) as u8));
        assert(d.drop_last() =~= p);
        assert(n == (n / 10) * 10 + n % 10);
        assert(d.last() == 48 + n % 10);
        assert(digits_value(d) == digits_value(d.drop_last()) * 10 + (d.last() - 48) as nat);
        assert forall|k: int| 0 <= k < d.len() implies 48 <= #[trigger] d[k] <= 57 by {
            if k < p.len() {
                assert(d[k] == p[k]);
            }
        }
        assert forall|k: int| 0 <= k < d.len() implies is_plain(#[trigger] d[k]) by {
            assert(48 <= d[k] <= 57);
        }
    }
}

/// Writing an authority out and reading it back gives the authority, for
/// every authority whose texts can each be one token.
pub proof fn lemma_authority_round_trip(a: AuthorityView)
    requires
        valid_authority(a),
    ensures
        authority_spec(tokenize_spec(ascii_bytes(authority_string(a)))) == Ok::<AuthorityView, UriErrorView>(a),
{
    let h = a.host;
    lemma_ascii_bytes_of_chars(h);
    let hb = ascii_bytes(text_chars(h));
    assert(hb == h);
    let user_part: Seq<char> = match a.user {
        Some(u) => text_chars(u).push('@'),
        None => Seq::<char>::empty(),
    };
    let port_part: Seq<char> = match a.port {
        Some(p) => seq![':'] + spec_decimal(p as nat),
        None => Seq::<char>::empty(),
    };
    assert(authority_string(a) == user_part + text_chars(h) + port_part);
    lemma_ascii_bytes_concat(user_part + text_chars(h), port_part);
    lemma_ascii_bytes_concat(user_part, text_chars(h));
    let b = ascii_bytes(authority_string(a));
    let ub = ascii_bytes(user_part);
    let pb = ascii_bytes(port_part);
    assert(b == ub + h + pb);
    match a.user {
        Some(u) => {
            lemma_ascii_bytes_of_chars(u);
            lemma_ascii_bytes_concat(text_chars(u), seq!['@']);
            assert(ascii_bytes(seq!['@']) =~= seq![64u8]);
            assert(ub == u + seq![64u8]);
        },
        None => {
            assert(ub =~= Seq::<u8>::empty());
        },
    }
    match a.port {
        Some(p) => {
            lemma_decimal_bytes(p as nat);
            lemma_ascii_bytes_concat(seq![':'], spec_decimal(p as nat));
            assert(ascii_bytes(seq![':']) =~= seq![58u8]);
            assert(pb == seq![58u8] + ascii_bytes(spec_decimal(p as nat)));
        },
        None => {
            assert(pb =~= Seq::<u8>::empty());
        },
    }
    let empty = Seq::<TokenView>::empty();
    match (a.user, a.port) {
        (None, None) => {
            assert(b =~= h);
            lemma_tokenize_final_text(b, 0, empty);
            assert(b.subrange(0, b.len() as int) =~= h);
        },
        (Some(u), None) => {
            let n = u.len();
            assert(b =~= u + seq![64u8] + h);
            assert(separator_of(b[n as int]) == Some(Seperator::At));
            lemma_tokenize_text_sep(b, 0, n, empty);
            let t1 = empty.push(TokenView::Text(b.subrange(0, n as int))).push(TokenView::Seperator(Seperator::At));
            lemma_tokenize_final_text(b, n + 1, t1);
            assert(b.subrange(0, n as int) =~= u);
            assert(b.subrange((n + 1) as int, b.len() as int) =~= h);
        },
        (None, Some(p)) => {
            let d = ascii_bytes(spec_decimal(p as nat));
            let n = h.len();
            assert(b =~= h + seq![58u8] + d);
            assert(separator_of(b[n as int]) == Some(Seperator::Colon));
            lemma_tokenize_text_sep(b, 0, n, empty);
            let t1 = empty.push(TokenView::Text(b.subrange(0, n as int))).push(TokenView::Seperator(Seperator::Colon));
            assert forall|k: int| n + 1 <= k < b.len() implies is_plain(#[trigger] b[k]) by {
                assert(b[k] == d[k - n - 1]);
            }
            lemma_tokenize_final_text(b, n + 1, t1);
            assert(b.subrange(0, n as int) =~= h);
            assert(b.subrange((n + 1) as int, b.len() as int) =~= d);
        },
        (Some(u), Some(p)) => {
            let d = ascii_bytes(spec_decimal(p as nat));
            let n = u.len();
            let m = h.len();
            assert(b =~= u + seq![64u8] + h + seq![58u8] + d);
            assert(separator_of(b[n as int]) == Some(Seperator::At));
            lemma_tokenize_text_sep(b, 0, n, empty);
            let t1 = empty.push(TokenView::Text(b.subrange(0, n as int))).push(TokenView::Seperator(Seperator::At));
            assert(separator_of(b[(n + 1 + m) as int]) == Some(Seperator::Colon));
            assert forall|k: int| n + 1 <= k < n + 1 + m implies is_plain(#[trigger] b[k]) by {
                assert(b[k] == h[k - n - 1]);
            }
            lemma_tokenize_text_sep(b, n + 1, m, t1);
            let t2 = t1.push(TokenView::Text(b.subrange((n + 1) as int, (n + 1 + m) as int))).push(TokenView::Seperator(Seperator::Colon));
            assert forall|k: int| n + m + 2 <= k < b.len() implies is_plain(#[trigger] b[k]) by {
                assert(b[k] == d[k - n - m - 2]);
            }
            lemma_tokenize_final_text(b, n + m + 2, t2);
            assert(b.subrange(0, n as int) =~= u);
            assert(b.subrange((n + 1) as int, (n + 1 + m) as int) =~= h);
            assert(b.subrange((n + m + 2) as int, b.len() as int) =~= d);
        },
    }
}

/// An authority read from a text has texts that can each be one token, so
/// writing it out and reading it back gives it again.
pub proof fn lemma_parsed_authority_round_trip(b: Seq<u8>, a: AuthorityView)
    requires
        authority_spec(tokenize_spec(b)) == Ok::<AuthorityView, UriErrorView>(a),
    ensures
        valid_authority(a),
        authority_spec(tokenize_spec(ascii_bytes(authority_string(a)))) == Ok::<AuthorityView, UriErrorView>(a),
{
    let t = tokenize_spec(b);
    lemma_tokens_are_plain(b);
    assert(t.len() == 1 || t.len() == 3 || t.len() == 5);
    assert(t[0] matches TokenView::Text(x) ==> x.len() > 0 && all_plain(x));
    if t.len() >= 3 {
        assert(t[2] matches TokenView::Text(x) ==> x.len() > 0 && all_plain(x));
    }
    lemma_authority_round_trip(a);
}

/// The bytes of segments joined by `/`, built from the front.
pub open spec fn join_front(p: Seq<Seq<u8>>) -> Seq<u8>
    decreases p.len(),
{
    if p.len() == 0 {
        seq![]
    } else if p.len() == 1 {
        p[0]
    } else {
        p[0] + seq![47u8] + join_front(p.drop_first())
    }
}

/// The tokens of segments joined by `/`.
pub open spec fn segment_tokens(p: Seq<Seq<u8>>) -> Seq<TokenView>
    decreases p.len(),
{
    if p.len() == 0 {
        seq![]
    } else if p.len() == 1 {
        seq![TokenView::Text(p[0])]
    } else {
        seq![TokenView::Text(p[0]), TokenView::Seperator(Seperator::ForwardSlash)] + segment_tokens(p.drop_first())
    }
}

/// Whether every segment can be one token.
pub open spec fn valid_segments(p: Seq<Seq<u8>>) -> bool {
    forall|k: int| 0 <= k < p.len() ==> is_token_text(#[trigger] p[k])
}

proof fn lemma_join_front_last(p: Seq<Seq<u8>>)
    requires
        p.len() >= 2,
    ensures
        join_front(p) == join_front(p.drop_last()) + seq![47u8] + p.last(),
    decreases p.len(),
{
    let q = p.drop_first();
    if q.len() == 1 {
        assert(p.drop_last() =~= seq![p[0]]);
        assert(q[0] == p.last());
        assert(join_front(q) == q[0]);
        assert(join_front(p.drop_last()) == p[0]);
        assert(join_front(p) =~= join_front(p.drop_last()) + seq![47u8] + p.last());
    } else {
        lemma_join_front_last(q);
        assert(p.drop_last().drop_first() =~= q.drop_last());
        assert(p.drop_last()[0] == p[0]);
        assert(q.last() == p.last());
        assert(join_front(p.drop_last()) == p[0] + seq![47u8] + join_front(q.drop_last()));
        assert(join_front(p) =~= join_front(p.drop_last()) + seq![47u8] + p.last());
    }
}

proof fn lemma_join_bytes(p: Seq<Seq<u8>>)
    ensures
        ascii_bytes(join_segments(p)) == join_front(p),
    decreases p.len(),
{
    if p.len() == 0 {
        assert(ascii_bytes(join_segments(p)) =~= Seq::<u8>::empty());
    } else if p.len() == 1 {
        lemma_ascii_bytes_of_chars(p[0]);
    } else {
        lemma_join_bytes(p.drop_last());
        lemma_join_front_last(p);
        lemma_ascii_bytes_of_chars(p.last());
        lemma_ascii_bytes_concat(join_segments(p.drop_last()).push('/'), text_chars(p.last()));
        lemma_ascii_bytes_concat(join_segments(p.drop_last()), seq!['/']);
        assert(join_segments(p.drop_last()).push('/') == join_segments(p.drop_last()) + seq!['/']);
        assert(ascii_bytes(seq!['/']) =~= seq![47u8]);
    }
}

proof fn lemma_segment_tokens(b: Seq<u8>, o: nat, q: Seq<Seq<u8>>, acc: Seq<TokenView>)
    requires
        q.len() > 0,
        valid_segments(q),
        o <= b.len(),
        b.subrange(o as int, b.len() as int) == join_front(q),
    ensures
        tokenize_from(b, o, o, acc) == acc + segment_tokens(q),
    decreases q.len(),
{
    let n = q[0].len();
    assert(is_token_text(q[0]));
    if q.len() == 1 {
        assert forall|k: int| o <= k < b.len() implies is_plain(#[trigger] b[k]) by {
            assert(b.subrange(o as int, b.len() as int)[k - o] == b[k]);
            assert(q[0][k - o] == b[k]);
        }
        lemma_tokenize_final_text(b, o, acc);
        assert(b.subrange(o as int, b.len() as int) == q[0]);
        assert(acc.push(TokenView::Text(q[0])) =~= acc + segment_tokens(q));
    } else {
        let rest = q.drop_first();
        let j = join_front(q);
        let sb = b.subrange(o as int, b.len() as int);
        assert(j == q[0] + seq![47u8] + join_front(rest));
        assert(sb == j);
        assert(b.len() == o + n + 1 + join_front(rest).len());
        assert forall|k: int| o <= k < o + n implies is_plain(#[trigger] b[k]) by {
            assert(sb[k - o] == b[k]);
            assert(j[k - o] == q[0][k - o]);
        }
        assert(sb[n as int] == b[(o + n) as int]);
        assert(b[(o + n) as int] == j[n as int]);
        assert forall|x: int| 0 <= x < join_front(rest).len() implies #[trigger] b.subrange((o + n + 1) as int, b.len() as int)[x] == join_front(rest)[x] by {
            assert(sb[n + 1 + x] == b[o + n + 1 + x]);
            assert(j[n + 1 + x] == join_front(rest)[x]);
        }
        assert(separator_of(b[(o + n) as int]) == Some(Seperator::ForwardSlash));
        lemma_tokenize_text_sep(b, o, n, acc);
        assert(b.subrange(o as int, (o + n) as int) =~= q[0]);
        let acc2 = acc.push(TokenView::Text(q[0])).push(TokenView::Seperator(Seperator::ForwardSlash));
        assert(b.subrange((o + n + 1) as int, b.len() as int) =~= join_front(rest));
        assert forall|k: int| 0 <= k < rest.len() implies is_token_text(#[trigger] rest[k]) by {
            assert(rest[k] == q[k + 1]);
        }
        lemma_segment_tokens(b, o + n + 1, rest, acc2);
        assert(acc2 + segment_tokens(rest) =~= acc + segment_tokens(q));
    }
}

proof fn lemma_scan_segments(q: Seq<Seq<u8>>, acc: Seq<Seq<u8>>)
    requires
        q.len() > 0,
    ensures
        path_scan(segment_tokens(q), acc) == PathScan::Done(acc + q, None, Seq::<TokenView>::empty()),
    decreases q.len(),
{
    let t = segment_tokens(q);
    if q.len() == 1 {
        assert(t.skip(1) =~= Seq::<TokenView>::empty());
        assert(acc.push(q[0]) =~= acc + q);
    } else {
        let rest = q.drop_first();
        assert(t.skip(2) =~= segment_tokens(rest));
        lemma_scan_segments(rest, acc.push(q[0]));
        assert(acc.push(q[0]) + rest =~= acc + q);
    }
}

/// Writing an absolute path out and reading it back gives the path, for
/// every path whose segments can each be one token.
pub proof fn lemma_abs_path_round_trip(p: Seq<Seq<u8>>)
    requires
        valid_segments(p),
    ensures
        abs_path_spec(tokenize_spec(ascii_bytes(path_string(p)))) == Ok::<Seq<Seq<u8>>, TokenErrorView>(p),
        uri_spec(ascii_bytes(path_string(p))) == Ok::<UriView, UriErrorView>(UriView::AbsolutePath(p)),
{
    lemma_join_bytes(p);
    lemma_ascii_bytes_concat(seq!['/'], join_segments(p));
    assert(ascii_bytes(seq!['/']) =~= seq![47u8]);
    let b = ascii_bytes(path_string(p));
    assert(b == seq![47u8] + join_front(p));
    assert(separator_of(b[0]) == Some(Seperator::ForwardSlash));
    let first = seq![TokenView::Seperator(Seperator::ForwardSlash)];
    assert(tokenize_from(b, 0, 0, seq![]) == tokenize_from(b, 1, 1, first));
    let t = tokenize_spec(b);
    if p.len() == 0 {
        assert(b =~= seq![47u8]);
        assert(t == first);
        assert(t.skip(1) =~= Seq::<TokenView>::empty());
    } else {
        assert(b.subrange(1, b.len() as int) =~= join_front(p));
        lemma_segment_tokens(b, 1, p, first);
        assert(t.skip(1) =~= segment_tokens(p));
        lemma_scan_segments(p, seq![]);
        assert(Seq::<Seq<u8>>::empty() + p =~= p);
        assert(b.len() >= 2);
        assert(has_byte(b, 47)) by {
            assert(b[0] == 47);
        }
        assert(!has_pair(b, 58, 47)) by {
            assert forall|i: int| 0 <= i < b.len() - 1 implies !(#[trigger] b[i] == 58 && b[i + 1] == 47) by {
                if i >= 1 {
                    lemma_plain_path_bytes(p, i - 1);
                    assert(b[i] == join_front(p)[i - 1]);
                }
            }
        }
    }
}

proof fn lemma_plain_path_bytes(p: Seq<Seq<u8>>, i: int)
    requires
        valid_segments(p),
        0 <= i < join_front(p).len(),
    ensures
        join_front(p)[i] != 58,
    decreases p.len(),
{
    if p.len() == 1 {
        assert(is_token_text(p[0]));
        assert(is_plain(p[0][i]));
    } else if p.len() >= 2 {
        let rest = p.drop_first();
        assert(is_token_text(p[0]));
        if i < p[0].len() {
            assert(join_front(p)[i] == p[0][i]);
            assert(is_plain(p[0][i]));
        } else if i == p[0].len() {
        } else {
            assert forall|k: int| 0 <= k < rest.len() implies is_token_text(#[trigger] rest[k]) by {
                assert(rest[k] == p[k + 1]);
            }
            lemma_plain_path_bytes(rest, i - p[0].len() - 1);
            assert(join_front(p)[i] == join_front(rest)[i - p[0].len() - 1]);
        }
    }
}

proof fn lemma_texts_plain_skip(t: Seq<TokenView>, k: int)
    requires
        texts_are_plain(t),
        0 <= k <= t.len(),
    ensures
        texts_are_plain(t.skip(k)),
{
    assert forall|i: int| 0 <= i < t.skip(k).len() implies (#[trigger] t.skip(k)[i] matches TokenView::Text(x) ==> x.len() > 0 && all_plain(x)) by {
        assert(t.skip(k)[i] == t[i + k]);
    }
}

proof fn lemma_path_scan_valid(t: Seq<TokenView>, acc: Seq<Seq<u8>>)
    requires
        texts_are_plain(t),
        valid_segments(acc),
    ensures
        path_scan(t, acc) matches PathScan::Done(segs, _, _) ==> valid_segments(segs),
    decreases t.len(),
{
    if t.len() > 0 {
        if let TokenView::Text(x) = t[0] {
            let acc2 = acc.push(x);
            assert(x.len() > 0 && all_plain(x));
            assert forall|k: int| 0 <= k < acc2.len() implies is_token_text(#[trigger] acc2[k]) by {
                if k < acc.len() {
                    assert(acc2[k] == acc[k]);
                }
            }
            if t.len() >= 2 {
                lemma_texts_plain_skip(t, 2);
                lemma_path_scan_valid(t.skip(2), acc2);
            }
        }
    }
}

/// A path read from a text has segments that can each be one token, so
/// writing it out and reading it back gives it again.
pub proof fn lemma_parsed_path_round_trip(b: Seq<u8>, p: Seq<Seq<u8>>)
    requires
        abs_path_spec(tokenize_spec(b)) == Ok::<Seq<Seq<u8>>, TokenErrorView>(p),
    ensures
        valid_segments(p),
        abs_path_spec(tokenize_spec(ascii_bytes(path_string(p)))) == Ok::<Seq<Seq<u8>>, TokenErrorView>(p),
{
    let t = tokenize_spec(b);
    lemma_tokens_are_plain(b);
    let e = Seq::<Seq<u8>>::empty();
    if t.len() == 0 {
        lemma_path_scan_valid(t, e);
    } else {
        match t[0] {
            TokenView::Text(x) => {
                assert(x.len() > 0 && all_plain(x));
                let acc = seq![x];
                assert forall|k: int| 0 <= k < acc.len() implies is_token_text(#[trigger] acc[k]) by {}
                if t.len() == 1 {
                    lemma_texts_plain_skip(t, 1);
                    lemma_path_scan_valid(t.skip(1), acc);
                } else {
                    lemma_texts_plain_skip(t, 2);
                    lemma_path_scan_valid(t.skip(2), acc);
                }
            },
            TokenView::Seperator(_) => {
                lemma_texts_plain_skip(t, 1);
                lemma_path_scan_valid(t.skip(1), e);
            },
        }
    }
    lemma_abs_path_round_trip(p);
}

/// The state of reading an absolute URI's query texts into search
/// entries: the entries set so far, the key being read, the value being
/// read (if one is), and where a hash starts (a text's index and the index
/// of its `=`), if one does.
pub struct SearchScan {
    pub entries: Seq<(Seq<char>, Seq<char>)>,
    pub key: Seq<char>,
    pub value: Option<Seq<char>>,
    pub hash: Option<(nat, nat)>,
}

/// The search entries of the query texts from `i` on: a `&` in a text
/// ends the entry being read, its value being the text before the `&`,
/// and starts the next key; a `=` ends the search and starts the hash;
/// other texts add to the value being read or else to the key.
pub open spec fn search_scan(q: Seq<Seq<char>>, i: nat, st: SearchScan) -> SearchScan
    decreases q.len() - i,
{
    if i >= q.len() {
        st
    } else {
        let line = q[i as int];
        match first_index_from(line, '&', 0) {
            Some(k) => {
                let v = match st.value {
                    Some(x) => x + line.subrange(0, k as int),
                    None => line.subrange(0, k as int),
                };
                search_scan(q, i + 1, SearchScan {
                    entries: st.entries.push((st.key, v)),
                    key: line.subrange((k + 1) as int, line.len() as int),
                    value: None,
                    hash: st.hash,
                })
            },
            None => match first_index_from(line, '=', 0) {
                Some(k) => {
                    let v = match st.value {
                        Some(x) => x + line.subrange(0, k as int),
                        None => line.subrange(0, k as int),
                    };
                    SearchScan { entries: st.entries.push((st.key, v)), key: st.key, value: st.value, hash: Some((i, k)) }
                },
                None => match st.value {
                    Some(x) => search_scan(q, i + 1, SearchScan { value: Some(x + line), ..st }),
                    None => search_scan(q, i + 1, SearchScan { key: st.key + line, ..st }),
                },
            },
        }
    }
}

/// The texts from `i` on, one after another.
pub open spec fn concat_from(q: Seq<Seq<char>>, i: nat) -> Seq<char>
    decreases q.len() - i,
{
    if i >= q.len() {
        seq![]
    } else {
        q[i as int] + concat_from(q, i + 1)
    }
}

/// The search entries of a query, in the order they are set, and its hash
/// value where it has one: the rest of the text with the `=` and the texts
/// after it.
pub open spec fn search_spec(q: Seq<Seq<char>>) -> (Seq<(Seq<char>, Seq<char>)>, Option<Seq<char>>) {
    let st = search_scan(q, 0, SearchScan { entries: seq![], key: seq![], value: None, hash: None });
    (st.entries, match st.hash {
        Some((i, k)) => Some(q[i as int].subrange((k + 1) as int, q[i as int].len() as int) + concat_from(q, i + 1)),
        None => None,
    })
}

pub open spec fn pairs_view(v: Seq<(String, String)>) -> Seq<(Seq<char>, Seq<char>)> {
    v.map_values(|p: (String, String)| (p.0@, p.1@))
}

fn vec_string(c: &Vec<char>, from: usize, to: usize) -> (s: String)
    requires
        from <= to <= c@.len(),
    ensures
        s@ == c@.subrange(from as int, to as int),
{
    crate::text::string_from_range(c.as_slice(), from, to)
}

impl AbsUri {
    /// The texts of this URI's query.
    pub closed spec fn query_chars(&self) -> Seq<Seq<char>> {
        texts_of(self.query@).map_values(|t: Seq<u8>| text_chars(t))
    }

    /// The search entries that this URI's query sets, in order, and its
    /// hash value where it has one.
    pub fn search(&self) -> (r: (Vec<(String, String)>, Option<String>))
        ensures
            pairs_view(r.0@) == search_spec(self.query_chars()).0,
            match search_spec(self.query_chars()).1 {
                Some(h) => r.1 matches Some(x) && x@ == h,
                None => r.1 is None,
            },
    {
        let ghost q = self.query_chars();
        let length = self.query.len();
        let mut entries: Vec<(String, String)> = Vec::new();
        let mut key = String::new();
        let mut value: Option<String> = None;
        let ghost init = SearchScan { entries: seq![], key: seq![], value: None, hash: None };
        proof {
            assert(pairs_view(entries@) =~= Seq::<(Seq<char>, Seq<char>)>::empty());
        }
        let mut i: usize = 0;
        while i < length
            invariant
                length == self.query@.len(),
                q == self.query_chars(),
                q.len() == length,
                init == (SearchScan { entries: seq![], key: seq![], value: None, hash: None }),
                i <= length,
                search_scan(q, 0, init) == search_scan(q, i as nat, SearchScan {
                    entries: pairs_view(entries@),
                    key: key@,
                    value: crate::path::key::opt_view(value),
                    hash: None,
                }),
            decreases length - i,
        {
            let line = text_string(&self.query[i]);
            let c = crate::text::chars_of(line.as_str());
            proof {
                assert(q[i as int] == c@);
                crate::text::lemma_first_index_bounds(c@, '&', 0);
                crate::text::lemma_first_index_bounds(c@, '=', 0);
            }
            let ghost state = SearchScan {
                entries: pairs_view(entries@),
                key: key@,
                value: crate::path::key::opt_view(value),
                hash: None,
            };
            match crate::text::find_from(&c, '&', 0) {
                Some(index) => {
                    assert(index < c.len());
                    let head = vec_string(&c, 0, index);
                    let final_value = match value {
                        Some(v) => {
                            let mut v = v;
                            v.append(head.as_str());
                            v
                        },
                        None => head,
                    };
                    let ghost before = pairs_view(entries@);
                    let k2 = vec_string(&c, index + 1, c.len());
                    entries.push((key, final_value));
                    proof {
                        assert(pairs_view(entries@) =~= before.push((entries@.last().0@, entries@.last().1@)));
                    }
                    value = None;
                    key = k2;
                },
                None => match crate::text::find_from(&c, '=', 0) {
                    Some(index) => {
                        assert(index < c.len());
                        let head = vec_string(&c, 0, index);
                        let final_value = match value {
                            Some(v) => {
                                let mut v = v;
                                v.append(head.as_str());
                                v
                            },
                            None => head,
                        };
                        let ghost before = pairs_view(entries@);
                        entries.push((key, final_value));
                        proof {
                            assert(pairs_view(entries@) =~= before.push((entries@.last().0@, entries@.last().1@)));
                        }
                        let tail = vec_string(&c, index + 1, c.len());
                        let mut h = tail;
                        let mut j = i + 1;
                        let ghost start_h = h@;
                        let ghost final_state = SearchScan {
                            entries: pairs_view(entries@),
                            key: state.key,
                            value: state.value,
                            hash: Some((i as nat, index as nat)),
                        };
                        proof {
                            assert(search_scan(q, i as nat, state) == final_state);
                            assert(start_h == q[i as int].subrange((index + 1) as int, q[i as int].len() as int));
                        }
                        while j < length
                            invariant
                                length == self.query@.len(),
                                search_scan(q, 0, init) == final_state,
                                init == (SearchScan { entries: seq![], key: seq![], value: None, hash: None }),
                                q == self.query_chars(),
                                q.len() == length,
                                i < length,
                                index < q[i as int].len(),
                                final_state.entries == pairs_view(entries@),
                                final_state.hash == Some((i as nat, index as nat)),
                                start_h == q[i as int].subrange((index + 1) as int, q[i as int].len() as int),
                                q == self.query_chars(),
                                q.len() == length,
                                i < j <= length,
                                h@ + concat_from(q, j as nat) == start_h + concat_from(q, (i + 1) as nat),
                            decreases length - j,
                        {
                            let part = text_string(&self.query[j]);
                            proof {
                                assert(q[j as int] == part@);
                                assert(concat_from(q, j as nat) == part@ + concat_from(q, (j + 1) as nat));
                            }
                            h.append(part.as_str());
                            j = j + 1;
                        }
                        proof {
                            assert(concat_from(q, j as nat) =~= Seq::<char>::empty());
                        }
                        return (entries, Some(h));
                    },
                    None => {
                        match value {
                            Some(v) => {
                                let mut v = v;
                                v.append(line.as_str());
                                value = Some(v);
                            },
                            None => {
                                key.append(line.as_str());
                                value = None;
                            },
                        }
                    },
                },
            }
            i = i + 1;
        }
        (entries, None)
    }
}


/// The parts of a URL that a request target gives: host name, port, path
/// segments, user name and password, scheme, search entries and hash.
pub struct UrlParts {
    pub hostname: String,
    pub port: u16,
    pub path: Vec<String>,
    pub auth: Option<(String, String)>,
    pub scheme: Option<String>,
    pub search: Vec<(String, String)>,
    pub hash: Option<String>,
}

/// The parts of a URL as mathematical values.
pub struct UrlView {
    pub hostname: Seq<char>,
    pub port: u16,
    pub path: Seq<Seq<char>>,
    pub auth: Option<(Seq<char>, Seq<char>)>,
    pub scheme: Option<Seq<char>>,
    pub search: Seq<(Seq<char>, Seq<char>)>,
    pub hash: Option<Seq<char>>,
}

pub open spec fn url_view(u: UrlParts) -> UrlView {
    UrlView {
        hostname: u.hostname@,
        port: u.port,
        path: u.path@.map_values(|s: String| s@),
        auth: match u.auth {
            Some((a, b)) => Some((a@, b@)),
            None => None,
        },
        scheme: match u.scheme {
            Some(x) => Some(x@),
            None => None,
        },
        search: pairs_view(u.search@),
        hash: match u.hash {
            Some(x) => Some(x@),
            None => None,
        },
    }
}

/// The texts of path segments.
pub open spec fn segment_texts(p: Seq<Seq<u8>>) -> Seq<Seq<char>> {
    p.map_values(|t: Seq<u8>| text_chars(t))
}

/// A URL on the given host and port with the given path and nothing else.
pub open spec fn plain_url(hostname: Seq<char>, port: u16, path: Seq<Seq<char>>) -> UrlView {
    UrlView { hostname, port, path, auth: None, scheme: None, search: seq![], hash: None }
}

/// The URL that an authority gives with the given path: its host (the
/// given one where its host is empty), its port (the given one where it
/// has none), and the user name and password of its user.
pub open spec fn authority_url(a: AuthorityView, hostname: Seq<char>, port: u16, path: Seq<Seq<char>>) -> UrlView {
    UrlView {
        hostname: if a.host.len() == 0 { hostname } else { text_chars(a.host) },
        port: match a.port {
            Some(p) => p,
            None => port,
        },
        path,
        auth: match a.user {
            Some(u) => spec_credentials(u),
            None => None,
        },
        scheme: None,
        search: seq![],
        hash: None,
    }
}

/// The URL that an absolute URI gives: that of its authority (or the given
/// host and port) with its path, its scheme, and the search entries and
/// hash of its query.
pub open spec fn abs_uri_url(u: AbsUriView, hostname: Seq<char>, port: u16) -> UrlView {
    let base = match u.authority {
        Some(a) => authority_url(a, hostname, port, segment_texts(u.path)),
        None => plain_url(hostname, port, segment_texts(u.path)),
    };
    let s = search_spec(u.query.map_values(|t: Seq<u8>| text_chars(t)));
    UrlView { scheme: Some(text_chars(u.scheme)), search: s.0, hash: s.1, ..base }
}

/// The URL that a request target gives, on the given host and port where
/// it names none: `*` is the path `*`.
pub open spec fn uri_url(u: UriView, hostname: Seq<char>, port: u16) -> UrlView {
    match u {
        UriView::Asterisk => plain_url(hostname, port, seq![seq!['*']]),
        UriView::AbsolutePath(p) => plain_url(hostname, port, segment_texts(p)),
        UriView::Authority(a) => authority_url(a, hostname, port, seq![]),
        UriView::AbsoluteURI(x) => abs_uri_url(x, hostname, port),
    }
}

impl AbsPath {
    /// The texts of the segments.
    pub fn segments(&self) -> (v: Vec<String>)
        ensures
            v@.map_values(|s: String| s@) == segment_texts(self@),
    {
        let mut v: Vec<String> = Vec::new();
        let mut i: usize = 0;
        while i < self.0.len()
            invariant
                i <= self.0@.len(),
                v@.map_values(|s: String| s@) == segment_texts(self@).subrange(0, i as int),
            decreases self.0@.len() - i,
        {
            let t = text_string(&self.0[i]);
            let ghost before = v@.map_values(|s: String| s@);
            v.push(t);
            proof {
                assert(self@[i as int] == self.0@[i as int]@);
                assert(v@.map_values(|s: String| s@) =~= before.push(t@));
                assert(segment_texts(self@).subrange(0, i + 1) =~= segment_texts(self@).subrange(0, i as int).push(t@));
            }
            i = i + 1;
        }
        proof {
            assert(segment_texts(self@).subrange(0, i as int) =~= segment_texts(self@));
        }
        v
    }

    /// The URL of this path on the given host and port.
    pub fn to_url(&self, hostname: String, port: u16) -> (u: UrlParts)
        ensures
            url_view(u) == plain_url(hostname@, port, segment_texts(self@)),
    {
        let path = self.segments();
        let u = UrlParts { hostname, port, path, auth: None, scheme: None, search: Vec::new(), hash: None };
        proof {
            assert(pairs_view(u.search@) =~= Seq::<(Seq<char>, Seq<char>)>::empty());
        }
        u
    }
}

impl Authority {
    /// The host name of this authority.
    pub fn hostname(&self) -> (h: String)
        ensures
            h@ == text_chars(self@.host),
    {
        text_string(&self.host)
    }

    /// The URL of this authority with the given path: on the given host and
    /// port where it names none.
    pub fn to_url_path(&self, hostname: String, port: u16, path: Vec<String>) -> (u: UrlParts)
        ensures
            url_view(u) == authority_url(self@, hostname@, port, path@.map_values(|s: String| s@)),
    {
        let own = self.hostname();
        let host = if self.host.len() == 0 { hostname } else { own };
        let port = match self.port {
            Some(p) => p,
            None => port,
        };
        let auth = self.auth();
        let u = UrlParts { hostname: host, port, path, auth, scheme: None, search: Vec::new(), hash: None };
        proof {
            self.host.lemma_bytes_are_view();
            assert(pairs_view(u.search@) =~= Seq::<(Seq<char>, Seq<char>)>::empty());
        }
        u
    }

    /// The URL of this authority, with no path.
    pub fn to_url(&self, hostname: String, port: u16) -> (u: UrlParts)
        ensures
            url_view(u) == authority_url(self@, hostname@, port, seq![]),
    {
        let path: Vec<String> = Vec::new();
        proof {
            assert(path@.map_values(|s: String| s@) =~= Seq::<Seq<char>>::empty());
        }
        self.to_url_path(hostname, port, path)
    }
}

impl AbsUri {
    /// The URL of this URI: that of its authority, or on the given host and
    /// port, with its path, its scheme and its query's search entries and
    /// hash. The scheme is handed on as text.
    pub fn to_url(&self, hostname: String, port: u16) -> (u: UrlParts)
        ensures
            url_view(u) == abs_uri_url(self@, hostname@, port),
    {
        let path = self.path.segments();
        let base = match &self.authority {
            Some(a) => a.to_url_path(hostname, port, path),
            None => {
                let u = UrlParts { hostname, port, path, auth: None, scheme: None, search: Vec::new(), hash: None };
                proof {
                    assert(pairs_view(u.search@) =~= Seq::<(Seq<char>, Seq<char>)>::empty());
                }
                u
            },
        };
        let (search, hash) = self.search();
        let scheme = text_string(&self.scheme);
        proof {
            assert(self.query_chars() =~= self@.query.map_values(|t: Seq<u8>| text_chars(t)));
        }
        UrlParts { scheme: Some(scheme), search, hash, ..base }
    }
}

impl Uri {
    /// The URL of this request target, on the given host and port where it
    /// names none.
    pub fn to_url(&self, hostname: String, port: u16) -> (u: UrlParts)
        ensures
            url_view(u) == uri_url(self@, hostname@, port),
    {
        match self {
            Uri::Asterisk => {
                let mut path: Vec<String> = Vec::new();
                path.push(crate::text::char_string('*'));
                let u = UrlParts { hostname, port, path, auth: None, scheme: None, search: Vec::new(), hash: None };
                proof {
                    assert(u.path@.map_values(|s: String| s@) =~= seq![seq!['*']]);
                    assert(pairs_view(u.search@) =~= Seq::<(Seq<char>, Seq<char>)>::empty());
                }
                u
            },
            Uri::AbsolutePath(p) => p.to_url(hostname, port),
            Uri::Authority(a) => a.to_url(hostname, port),
            Uri::AbsoluteURI(x) => x.to_url(hostname, port),
        }
    }
}

} // verus!
