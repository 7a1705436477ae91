//! Reading a request's start line and header lines (RFC 2616, section 5):
//! `METHOD SP Request-URI SP HTTP-Version CRLF`, then `name: value` lines.
use vstd::prelude::*;
use crate::http1::types::tokens::{Text, Tokenizer};
use crate::http1::types::uri::{Uri, UriError, UriView, UriErrorView, uri_spec, uri_result_view, uri_error_view, text_chars};
use crate::text::{first_index_from, lemma_first_index_bounds, find_from};
use crate::http1::types::version::{parse_version, version_spec};
use crate::http1::types::tokens::tokenize_spec;
use crate::http_types::version::Version;
use crate::protocol::http1::types::{Chunk, ParseStreamError, split_chunks, split_chunks_spec, chunks_view, io_error_text, stream_error_text};
use crate::http1::types::uri::uri_error_text;
use crate::http1::types::tokens::{split, split_spec, bytes_as_chars};
use crate::json::{trim, trim_bounds};

verus! {

/// Why a request could not be built; `M` is the type of methods.
pub enum BuildError<M> {
    Http0GetMethodOnly,
    Http0AbsolutePathOnly,
    IoError(std::io::Error),
    EmptyRequest,
    ParseError(ParseStreamError),
    MissingMethod,
    InvalidMethod(String),
    InvalidVersion(String),
    MissingVersion(M, Uri),
    MissingUri,
    InvalidUri(UriError),
    InvalidUrl(String),
}

/// The message of a build error whose text is known here: all but a failed
/// read and a URI's token error, whose messages are their own.
pub open spec fn build_error_text<M>(e: BuildError<M>) -> Option<Seq<char>> {
    match e {
        BuildError::Http0GetMethodOnly => Some("Only absolute paths are allowed in http/0.9 requests!"@),
        BuildError::Http0AbsolutePathOnly => Some("Only Get methods are allowed in http/0.9 requests!"@),
        BuildError::IoError(_) => None,
        BuildError::EmptyRequest => Some("Empty Reqeust recieved!"@),
        BuildError::ParseError(p) => if p is ReadError { None } else { Some(stream_error_text(p)) },
        BuildError::MissingMethod => Some("Missing Method at start of request!"@),
        BuildError::InvalidMethod(s) => Some(s@ + " is not a valid method!"@),
        BuildError::InvalidVersion(s) => Some(s@ + " is not a valid version!"@),
        BuildError::MissingVersion(_, _) => Some("Unable to find the http version!"@),
        BuildError::MissingUri => Some("Uri missing from request!"@),
        BuildError::InvalidUri(u) => if u is ParseToken { None } else { Some(uri_error_text(uri_error_view(u))) },
        BuildError::InvalidUrl(s) => Some(s@),
    }
}

impl<M> BuildError<M> {
    /// The message of this error.
    pub fn to_string(&self) -> (s: String)
        requires
            !(self matches BuildError::InvalidUri(u) && u is ParseToken),
        ensures
            build_error_text(*self) matches Some(t) ==> s@ == t,
    {
        match self {
            BuildError::Http0GetMethodOnly => String::from_str("Only absolute paths are allowed in http/0.9 requests!"),
            BuildError::Http0AbsolutePathOnly => String::from_str("Only Get methods are allowed in http/0.9 requests!"),
            BuildError::IoError(e) => io_error_text(e),
            BuildError::EmptyRequest => String::from_str("Empty Reqeust recieved!"),
            BuildError::ParseError(p) => p.to_string(),
            BuildError::MissingMethod => String::from_str("Missing Method at start of request!"),
            BuildError::InvalidMethod(m) => {
                let mut s = m.clone();
                s.append(" is not a valid method!");
                s
            },
            BuildError::InvalidVersion(v) => {
                let mut s = v.clone();
                s.append(" is not a valid version!");
                s
            },
            BuildError::MissingVersion(_, _) => String::from_str("Unable to find the http version!"),
            BuildError::MissingUri => String::from_str("Uri missing from request!"),
            BuildError::InvalidUri(u) => u.to_string(),
            BuildError::InvalidUrl(s) => s.clone(),
        }
    }
}

/// What the start line of a request gives, from its texts `parts` and the
/// method that the first of them names (`method`, where it names one): the
/// method, the request URI and the version; or the first error met.
pub open spec fn start_line_spec<M>(parts: Seq<Seq<u8>>, method: Option<M>) -> StartLineView<M> {
    if parts.len() == 0 {
        StartLineView::MissingMethod
    } else if method is None {
        StartLineView::InvalidMethod(text_chars(parts[0]))
    } else if parts.len() < 2 {
        StartLineView::MissingUri
    } else {
        match uri_spec(parts[1]) {
            Err(e) => StartLineView::InvalidUri(e),
            Ok(u) => if parts.len() < 3 {
                StartLineView::MissingVersion(method.unwrap(), u)
            } else {
                match version_spec(tokenize_spec(parts[2])) {
                    None => StartLineView::InvalidVersion(text_chars(parts[2])),
                    Some(v) => StartLineView::Line(method.unwrap(), u, v),
                }
            },
        }
    }
}

/// The outcome of reading a start line, as a mathematical value.
pub enum StartLineView<M> {
    Line(M, UriView, Version),
    MissingMethod,
    InvalidMethod(Seq<char>),
    MissingUri,
    InvalidUri(UriErrorView),
    MissingVersion(M, UriView),
    InvalidVersion(Seq<char>),
}

pub open spec fn start_line_view<M>(r: Result<(M, Uri, Version), BuildError<M>>) -> Option<StartLineView<M>> {
    match r {
        Ok((m, u, v)) => Some(StartLineView::Line(m, u@, v)),
        Err(BuildError::MissingMethod) => Some(StartLineView::MissingMethod),
        Err(BuildError::InvalidMethod(s)) => Some(StartLineView::InvalidMethod(s@)),
        Err(BuildError::MissingUri) => Some(StartLineView::MissingUri),
        Err(BuildError::InvalidUri(e)) => Some(StartLineView::InvalidUri(uri_error_view(e))),
        Err(BuildError::MissingVersion(m, u)) => Some(StartLineView::MissingVersion(m, u@)),
        Err(BuildError::InvalidVersion(s)) => Some(StartLineView::InvalidVersion(s@)),
        _ => None,
    }
}

fn text_string(t: &Text) -> (s: String)
    ensures
        s@ == text_chars(t@),
{
    proof {
        t.lemma_bytes_are_view();
    }
    t.decode()
}

/// Reads a start line from its texts `parts` (the runs of printable text
/// of the line, see `split`) and the method that the first of them names,
/// where it names one: a line without a version is an HTTP/0.9 request,
/// reported as `MissingVersion` with its method and URI.
pub fn start_line<M>(parts: Vec<Text>, method: Option<M>) -> (r: Result<(M, Uri, Version), BuildError<M>>)
    ensures
        start_line_view(r) == Some(start_line_spec(parts@.map_values(|t: Text| t@), method)),
{
    let ghost p = parts@.map_values(|t: Text| t@);
    if parts.len() == 0 {
        return Err(BuildError::MissingMethod);
    }
    proof {
        assert(p[0] == parts@[0]@);
    }
    let m = match method {
        Some(m) => m,
        None => return Err(BuildError::InvalidMethod(text_string(&parts[0]))),
    };
    if parts.len() < 2 {
        return Err(BuildError::MissingUri);
    }
    proof {
        assert(p[1] == parts@[1]@);
    }
    let uri = match Uri::parse(&parts[1]) {
        Ok(u) => u,
        Err(e) => return Err(BuildError::InvalidUri(e)),
    };
    if parts.len() < 3 {
        return Err(BuildError::MissingVersion(m, uri));
    }
    proof {
        assert(p[2] == parts@[2]@);
    }
    match parse_version(&parts[2]) {
        Ok(v) => Ok((m, uri, v)),
        Err(_) => Err(BuildError::InvalidVersion(text_string(&parts[2]))),
    }
}

/// The name and value of a header line `name: value`: the texts before the
/// first colon and between it and the next, both trimmed; a line without a
/// colon is a name with an empty value.
pub open spec fn header_spec(c: Seq<char>) -> (Seq<char>, Seq<char>) {
    match first_index_from(c, ':', 0) {
        None => (trim(c), seq![]),
        Some(i) => {
            let end = match first_index_from(c, ':', i + 1) {
                Some(j) => j,
                None => c.len(),
            };
            (trim(c.subrange(0, i as int)), trim(c.subrange((i + 1) as int, end as int)))
        },
    }
}

fn trimmed(c: &Vec<char>, from: usize, to: usize) -> (s: String)
    requires
        from <= to <= c@.len(),
    ensures
        s@ == trim(c@.subrange(from as int, to as int)),
{
    let mut part: Vec<char> = Vec::new();
    let mut i = from;
    while i < to
        invariant
            from <= i <= to <= c@.len(),
            part@ == c@.subrange(from as int, i as int),
        decreases to - i,
    {
        part.push(c[i]);
        i = i + 1;
        proof {
            assert(part@ =~= c@.subrange(from as int, i as int));
        }
    }
    let (a, b) = trim_bounds(&part);
    crate::text::string_from_range(part.as_slice(), a, b)
}

/// The name and value of a header line.
pub fn header_line(chunk: &Chunk) -> (r: (String, String))
    ensures
        r.0@ == header_spec(crate::http1::types::tokens::bytes_as_chars(chunk@)).0,
        r.1@ == header_spec(crate::http1::types::tokens::bytes_as_chars(chunk@)).1,
{
    proof {
        chunk.lemma_bytes_are_view();
    }
    let s = chunk.decode();
    let c = crate::text::chars_of(s.as_str());
    let n = c.len();
    proof {
        lemma_first_index_bounds(c@, ':', 0);
        assert(c@.subrange(0, n as int) =~= c@);
    }
    match find_from(&c, ':', 0) {
        None => (trimmed(&c, 0, n), String::new()),
        Some(i) => {
            proof {
                lemma_first_index_bounds(c@, ':', (i + 1) as nat);
            }
            let end = match find_from(&c, ':', i + 1) {
                Some(j) => j,
                None => n,
            };
            (trimmed(&c, 0, i), trimmed(&c, i + 1, end))
        },
    }
}

/// The path of an HTTP/0.9 request, `GET path`: the method must be `GET`
/// (`is_get`) and the URI an absolute path.
pub fn http0_path<M>(is_get: bool, uri: &Uri) -> (r: Result<String, BuildError<M>>)
    ensures
        !is_get ==> r matches Err(BuildError::Http0GetMethodOnly),
        is_get ==> match uri@ {
            UriView::AbsolutePath(p) => r matches Ok(s) && s@ == crate::http1::types::uri::path_string(p),
            _ => r matches Err(BuildError::Http0AbsolutePathOnly),
        },
{
    if !is_get {
        return Err(BuildError::Http0GetMethodOnly);
    }
    match uri.absolute_path() {
        Ok(s) => Ok(s),
        Err(_) => Err(BuildError::Http0AbsolutePathOnly),
    }
}

/// The header lines of a request, from the lines that follow its start
/// line: each line up to the first empty one, read as `name: value`.
pub open spec fn header_lines_spec(cs: Seq<Seq<u8>>) -> Seq<(Seq<char>, Seq<char>)>
    decreases cs.len(),
{
    if cs.len() == 0 || cs[0].len() == 0 {
        seq![]
    } else {
        seq![header_spec(bytes_as_chars(cs[0]))] + header_lines_spec(cs.drop_first())
    }
}

/// The views of a list of name and value pairs.
pub open spec fn pairs_view(v: Seq<(String, String)>) -> Seq<(Seq<char>, Seq<char>)> {
    v.map_values(|p: (String, String)| (p.0@, p.1@))
}

/// What a request read from `b` is, the first word of its first line
/// naming `method` (where it names one): its start line and, where that
/// reads, its header lines; or the first error met.
pub open spec fn request_spec<M>(b: Seq<u8>, method: Option<M>) -> Result<(StartLineView<M>, Seq<(Seq<char>, Seq<char>)>), RequestErrorView> {
    match split_chunks_spec(b, 0) {
        Err(k) => Err(RequestErrorView::ParseError(k)),
        Ok((cs, _)) => if cs.len() == 0 {
            Err(RequestErrorView::EmptyRequest)
        } else {
            let line = start_line_spec(split_spec(cs[0]), method);
            Ok((line, if line is Line { header_lines_spec(cs.drop_first()) } else { seq![] }))
        },
    }
}

/// Why the lines of a request could not be read, as a mathematical value.
pub enum RequestErrorView {
    EmptyRequest,
    ParseError(nat),
}

pub open spec fn request_view<M>(r: Result<(M, Uri, Version, Vec<(String, String)>), BuildError<M>>) -> Option<Result<(StartLineView<M>, Seq<(Seq<char>, Seq<char>)>), RequestErrorView>> {
    match r {
        Ok((m, u, v, h)) => Some(Ok((StartLineView::Line(m, u@, v), pairs_view(h@)))),
        Err(BuildError::EmptyRequest) => Some(Err(RequestErrorView::EmptyRequest)),
        Err(BuildError::ParseError(ParseStreamError::ParseError(k))) => Some(Err(RequestErrorView::ParseError(k as nat))),
        Err(e) => match start_line_view::<M>(Err(e)) {
            Some(s) => Some(Ok((s, seq![]))),
            None => None,
        },
    }
}

/// Reads a request from what was read of its stream, `buffer`: its start
/// line (see `start_line`; `method` is the method that the first word of
/// the first line names, where it names one) and its header lines, up to
/// the first empty line or the last complete line of the buffer.
pub fn parse_request<M>(buffer: &[u8], method: Option<M>) -> (r: Result<(M, Uri, Version, Vec<(String, String)>), BuildError<M>>)
    ensures
        request_view(r) == Some(request_spec(buffer@, method)),
{
    let (chunks, _used) = match split_chunks(buffer) {
        Ok(x) => x,
        Err(e) => return Err(BuildError::ParseError(e)),
    };
    let ghost cs = chunks_view(chunks@);
    if chunks.len() == 0 {
        return Err(BuildError::EmptyRequest);
    }
    let mut rest = chunks;
    let first = rest.remove(0);
    proof {
        assert(first@ == cs[0]);
        first.lemma_bytes_are_view();
        assert(chunks_view(rest@) =~= cs.drop_first());
    }
    let parts = split(first);
    proof {
        assert(parts@.map_values(|t: Text| t@) =~= crate::http1::types::tokens::texts_view(parts@));
    }
    let (m, uri, version) = match start_line(parts, method) {
        Ok(x) => x,
        Err(e) => return Err(e),
    };
    let ghost hs = chunks_view(rest@);
    let mut headers: Vec<(String, String)> = Vec::new();
    let mut i: usize = 0;
    proof {
        assert(hs.skip(0) =~= hs);
        assert(pairs_view(headers@) =~= Seq::<(Seq<char>, Seq<char>)>::empty());
    }
    while i < rest.len() && rest[i].has_some()
        invariant
            i <= rest@.len(),
            hs == chunks_view(rest@),
            header_lines_spec(hs) == pairs_view(headers@) + header_lines_spec(hs.skip(i as int)),
        decreases rest@.len() - i,
    {
        let pair = header_line(&rest[i]);
        proof {
            assert(hs.skip(i as int)[0] == rest@[i as int]@);
            assert(hs.skip(i as int).drop_first() =~= hs.skip(i + 1));
            assert(pairs_view(headers@.push(pair)) =~= pairs_view(headers@).push((pair.0@, pair.1@)));
            assert(pairs_view(headers@).push((pair.0@, pair.1@)) + header_lines_spec(hs.skip(i + 1))
                =~= pairs_view(headers@) + header_lines_spec(hs.skip(i as int)));
        }
        headers.push(pair);
        i = i + 1;
    }
    proof {
        assert(header_lines_spec(hs.skip(i as int)) =~= Seq::<(Seq<char>, Seq<char>)>::empty());
        assert(pairs_view(headers@) + Seq::<(Seq<char>, Seq<char>)>::empty() =~= pairs_view(headers@));
    }
    Ok((m, uri, version, headers))
}


/// A request whose start line was read: an HTTP/1.x request with its
/// method, URI, version and headers, or an HTTP/0.9 request (`GET path`,
/// no version) with its method and path.
pub enum Built {
    Http1(String, Uri, Version, Vec<(String, String)>),
    Http0(String, String),
}

/// Whether a method is named `GET`.
pub open spec fn is_get_name(m: Seq<char>) -> bool {
    m == "GET"@
}

fn is_get(m: &String) -> (r: bool)
    ensures
        r == is_get_name(m@),
{
    proof {
        reveal_strlit("GET");
    }
    let c = crate::text::chars_of(m.as_str());
    let r = c.len() == 3 && c[0] == 'G' && c[1] == 'E' && c[2] == 'T';
    proof {
        if r {
            assert(c@ =~= "GET"@);
        }
    }
    r
}

/// Builds a request from what reading its start line gave, methods named
/// by their text: a line without a version is an HTTP/0.9 request, which
/// must be `GET` of an absolute path; any other result is kept.
pub fn build_or_http0(r: Result<(String, Uri, Version, Vec<(String, String)>), BuildError<String>>) -> (b: Result<Built, BuildError<String>>)
    ensures
        match r {
            Ok((m, u, v, h)) => b == Ok::<Built, BuildError<String>>(Built::Http1(m, u, v, h)),
            Err(BuildError::MissingVersion(m, u)) => if !is_get_name(m@) {
                b matches Err(BuildError::Http0GetMethodOnly)
            } else {
                match u@ {
                    UriView::AbsolutePath(p) => b matches Ok(Built::Http0(m2, s)) && m2 == m
                        && s@ == crate::http1::types::uri::path_string(p),
                    _ => b matches Err(BuildError::Http0AbsolutePathOnly),
                }
            },
            Err(e) => b == Err::<Built, BuildError<String>>(e),
        },
{
    match r {
        Ok((m, u, v, h)) => Ok(Built::Http1(m, u, v, h)),
        Err(BuildError::MissingVersion(m, u)) => {
            let get = is_get(&m);
            match http0_path::<String>(get, &u) {
                Ok(path) => Ok(Built::Http0(m, path)),
                Err(e) => Err(e),
            }
        },
        Err(e) => Err(e),
    }
}


/// The body of a request as it was read, which can be taken once.
pub struct RequestBody {
    buffer: Vec<u8>,
    used: bool,
}

impl View for RequestBody {
    type V = (Seq<u8>, bool);

    closed spec fn view(&self) -> (Seq<u8>, bool) {
        (self.buffer@, self.used)
    }
}

impl RequestBody {
    /// A body of the given bytes, not taken yet.
    pub fn new(buffer: Vec<u8>) -> (b: RequestBody)
        ensures
            b@ == (buffer@, false),
    {
        RequestBody { buffer, used: false }
    }

    /// The bytes of the body, the first time; an error after that.
    pub fn body(&mut self) -> (r: Result<&[u8], &'static str>)
        ensures
            final(self)@ == (old(self)@.0, true),
            old(self)@.1 ==> (r matches Err(m) && m@ == "Body has already been used!"@),
            !old(self)@.1 ==> (r matches Ok(b) && b@ == old(self)@.0),
    {
        if self.used {
            Err("Body has already been used!")
        } else {
            self.used = true;
            Ok(self.buffer.as_slice())
        }
    }
}

} // verus!
