//! The head of a request as a plain HTTP/1.1 server reads it: the request
//! line `METHOD URL HTTP/1.1`, then `name: value` header lines; the URL's
//! path and its `?key=value&..` query.
use vstd::prelude::*;
use crate::error::IoErrorKind;
use crate::json::{trim, trim_bounds};
use crate::text::{first_index_from, lemma_first_index_bounds, find_from, chars_of, string_from_range};

verus! {

/// Pieces of a text split at every `x` (`str::split`): empty pieces are
/// kept, and a text without `x` is one piece.
pub open spec fn split_char(c: Seq<char>, x: char) -> Seq<Seq<char>>
    decreases c.len(),
{
    match first_index_from(c, x, 0) {
        None => seq![c],
        Some(i) => {
            proof {
                lemma_first_index_bounds(c, x, 0);
            }
            seq![c.subrange(0, i as int)] + split_char(c.subrange((i + 1) as int, c.len() as int), x)
        },
    }
}

/// Entries with the value of `key` set to `value`: in place where the key
/// is there, at the end where it is not.
pub open spec fn assoc_insert(e: Seq<(Seq<char>, Seq<char>)>, key: Seq<char>, value: Seq<char>) -> Seq<(Seq<char>, Seq<char>)> {
    if exists|i: int| 0 <= i < e.len() && (#[trigger] e[i]).0 == key {
        let i = choose|i: int| 0 <= i < e.len() && (#[trigger] e[i]).0 == key;
        e.update(i, (key, value))
    } else {
        e.push((key, value))
    }
}

/// Whether no key occurs twice.
pub open spec fn assoc_distinct(e: Seq<(Seq<char>, Seq<char>)>) -> bool {
    forall|i: int, j: int| 0 <= i < e.len() && 0 <= j < e.len() && i != j ==> (#[trigger] e[i]).0 != (#[trigger] e[j]).0
}

/// What a map gives back after a key was set: the value just set for that
/// key, and what it gave before for every other key; no key comes to occur
/// twice.
pub proof fn lemma_get_after_insert(e: Seq<(Seq<char>, Seq<char>)>, key: Seq<char>, value: Seq<char>, other: Seq<char>)
    requires
        assoc_distinct(e),
    ensures
        assoc_get(assoc_insert(e, key, value), key) == Some(value),
        other != key ==> assoc_get(assoc_insert(e, key, value), other) == assoc_get(e, other),
        assoc_distinct(assoc_insert(e, key, value)),
{
    let n = assoc_insert(e, key, value);
    if exists|i: int| 0 <= i < e.len() && (#[trigger] e[i]).0 == key {
        let i = choose|i: int| 0 <= i < e.len() && (#[trigger] e[i]).0 == key;
        assert(n == e.update(i, (key, value)));
        assert(n[i].0 == key);
        let j = choose|j: int| 0 <= j < n.len() && (#[trigger] n[j]).0 == key;
        assert(j == i);
        if other != key {
            if exists|k: int| 0 <= k < e.len() && (#[trigger] e[k]).0 == other {
                let k = choose|k: int| 0 <= k < e.len() && (#[trigger] e[k]).0 == other;
                assert(n[k].0 == other);
                let m = choose|m: int| 0 <= m < n.len() && (#[trigger] n[m]).0 == other;
                assert(m == k);
            } else {
                assert forall|m: int| 0 <= m < n.len() implies (#[trigger] n[m]).0 != other by {
                    if m != i {
                        assert(n[m] == e[m]);
                    }
                }
            }
        }
    } else {
        assert(n == e.push((key, value)));
        let last = e.len() as int;
        assert(n[last].0 == key);
        let j = choose|j: int| 0 <= j < n.len() && (#[trigger] n[j]).0 == key;
        assert(j == last);
        if other != key {
            if exists|k: int| 0 <= k < e.len() && (#[trigger] e[k]).0 == other {
                let k = choose|k: int| 0 <= k < e.len() && (#[trigger] e[k]).0 == other;
                assert(n[k].0 == other);
                let m = choose|m: int| 0 <= m < n.len() && (#[trigger] n[m]).0 == other;
                assert(m == k);
            } else {
                assert forall|m: int| 0 <= m < n.len() implies (#[trigger] n[m]).0 != other by {
                    if m < last {
                        assert(n[m] == e[m]);
                    }
                }
            }
        }
    }
}

/// A map from texts to texts, kept in the order keys were first set.
pub struct TextMap {
    entries: Vec<(String, String)>,
}

pub open spec fn text_pairs(v: Seq<(String, String)>) -> Seq<(Seq<char>, Seq<char>)> {
    v.map_values(|p: (String, String)| (p.0@, p.1@))
}

impl View for TextMap {
    type V = Seq<(Seq<char>, Seq<char>)>;

    closed spec fn view(&self) -> Seq<(Seq<char>, Seq<char>)> {
        text_pairs(self.entries@)
    }
}

/// The value of `key` among the entries, if it is there.
pub open spec fn assoc_get(e: Seq<(Seq<char>, Seq<char>)>, key: Seq<char>) -> Option<Seq<char>> {
    if exists|i: int| 0 <= i < e.len() && (#[trigger] e[i]).0 == key {
        let i = choose|i: int| 0 <= i < e.len() && (#[trigger] e[i]).0 == key;
        Some(e[i].1)
    } else {
        None
    }
}

impl TextMap {
    #[verifier::type_invariant]
    closed spec fn keys_distinct(self) -> bool {
        assoc_distinct(text_pairs(self.entries@))
    }

    /// An empty map.
    pub fn new() -> (m: TextMap)
        ensures
            m@ == Seq::<(Seq<char>, Seq<char>)>::empty(),
    {
        let m = TextMap { entries: Vec::new() };
        proof {
            assert(m@ =~= Seq::<(Seq<char>, Seq<char>)>::empty());
        }
        m
    }

    /// The number of keys.
    pub fn len(&self) -> (n: usize)
        ensures
            n == self@.len(),
    {
        self.entries.len()
    }

    /// Sets the value of `key`.
    pub fn insert(&mut self, key: String, value: String)
        ensures
            final(self)@ == assoc_insert(old(self)@, key@, value@),
            assoc_distinct(final(self)@),
    {
        proof {
            use_type_invariant(&*self);
        }
        let ghost e = self@;
        let mut i: usize = 0;
        while i < self.entries.len()
            invariant
                e == self@,
                *self == *old(self),
                e.len() == self.entries@.len(),
                assoc_distinct(e),
                i <= self.entries@.len(),
                forall|j: int| 0 <= j < i ==> (#[trigger] e[j]).0 != key@,
            decreases self.entries@.len() - i,
        {
            proof {
                assert(e[i as int] == (self.entries@[i as int].0@, self.entries@[i as int].1@));
            }
            if self.entries[i].0 == key {
                let mut entries = Vec::new();
                std::mem::swap(&mut entries, &mut self.entries);
                let ghost before = entries@;
                let ghost kv = key@;
                let ghost vv = value@;
                entries.set(i, (key, value));
                proof {
                    assert(text_pairs(entries@) =~= e.update(i as int, (kv, vv)));
                    assert(exists|k: int| 0 <= k < e.len() && (#[trigger] e[k]).0 == kv);
                    let c = choose|k: int| 0 <= k < e.len() && (#[trigger] e[k]).0 == kv;
                    assert(c == i);
                    assert(assoc_distinct(e.update(i as int, (kv, vv))));
                }
                self.entries = entries;
                return;
            }
            i = i + 1;
        }
        let mut entries = Vec::new();
        std::mem::swap(&mut entries, &mut self.entries);
        let ghost kv = key@;
        let ghost vv = value@;
        entries.push((key, value));
        proof {
            assert(text_pairs(entries@) =~= e.push((kv, vv)));
            assert(!exists|k: int| 0 <= k < e.len() && (#[trigger] e[k]).0 == kv);
            assert(assoc_distinct(e.push((kv, vv))));
        }
        self.entries = entries;
    }

    /// The value of `key`, if it is set.
    pub fn get(&self, key: &str) -> (r: Option<&str>)
        ensures
            match assoc_get(self@, key@) {
                Some(v) => r matches Some(x) && x@ == v,
                None => r is None,
            },
    {
        proof {
            use_type_invariant(self);
        }
        let ghost e = self@;
        let wanted = String::from_str(key);
        let mut i: usize = 0;
        while i < self.entries.len()
            invariant
                e == self@,
                wanted@ == key@,
                e.len() == self.entries@.len(),
                assoc_distinct(e),
                i <= self.entries@.len(),
                forall|j: int| 0 <= j < i ==> (#[trigger] e[j]).0 != key@,
            decreases self.entries@.len() - i,
        {
            proof {
                assert(e[i as int] == (self.entries@[i as int].0@, self.entries@[i as int].1@));
            }
            if self.entries[i].0 == wanted {
                proof {
                    assert(exists|k: int| 0 <= k < e.len() && (#[trigger] e[k]).0 == key@);
                    let c = choose|k: int| 0 <= k < e.len() && (#[trigger] e[k]).0 == key@;
                    assert(c == i);
                }
                return Some(self.entries[i].1.as_str());
            }
            i = i + 1;
        }
        None
    }
}

proof fn lemma_split_nonempty(c: Seq<char>, x: char)
    ensures
        split_char(c, x).len() >= 1,
    decreases c.len(),
{
    lemma_first_index_bounds(c, x, 0);
    if let Some(i) = first_index_from(c, x, 0) {
        lemma_split_nonempty(c.subrange((i + 1) as int, c.len() as int), x);
    }
}

fn range_chars(c: &Vec<char>, from: usize, to: usize) -> (r: Vec<char>)
    requires
        from <= to <= c@.len(),
    ensures
        r@ == c@.subrange(from as int, to as int),
{
    let mut r: Vec<char> = Vec::new();
    let mut i = from;
    while i < to
        invariant
            from <= i <= to <= c@.len(),
            r@ == c@.subrange(from as int, i as int),
        decreases to - i,
    {
        r.push(c[i]);
        i = i + 1;
        proof {
            assert(r@ =~= c@.subrange(from as int, i as int));
        }
    }
    r
}

pub open spec fn pieces_view(v: Seq<Vec<char>>) -> Seq<Seq<char>> {
    v.map_values(|p: Vec<char>| p@)
}

/// The pieces of `c` split at every `x`.
fn split_chars(c: &Vec<char>, x: char) -> (r: Vec<Vec<char>>)
    ensures
        pieces_view(r@) == split_char(c@, x),
{
    let n = c.len();
    let mut out: Vec<Vec<char>> = Vec::new();
    let mut start: usize = 0;
    proof {
        assert(c@.subrange(0, n as int) =~= c@);
        assert(pieces_view(out@) + split_char(c@.subrange(0, n as int), x) =~= split_char(c@, x));
    }
    loop
        invariant
            n == c@.len(),
            start <= n,
            pieces_view(out@) + split_char(c@.subrange(start as int, n as int), x) == split_char(c@, x),
        decreases n - start,
    {
        let ghost rest = c@.subrange(start as int, n as int);
        proof {
            lemma_first_index_bounds(c@, x, start as nat);
            lemma_first_index_bounds(rest, x, 0);
        }
        match find_from(c, x, start) {
            None => {
                proof {
                    assert(first_index_from(rest, x, 0) is None) by {
                        if first_index_from(rest, x, 0) is Some {
                            let k = first_index_from(rest, x, 0).unwrap();
                            assert(c@[start + k] == x);
                        }
                    }
                    assert(split_char(rest, x) == seq![rest]);
                }
                let last = range_chars(c, start, n);
                let ghost before = pieces_view(out@);
                out.push(last);
                proof {
                    assert(pieces_view(out@) =~= before + seq![rest]);
                }
                return out;
            },
            Some(i) => {
                let ghost k = (i - start) as nat;
                proof {
                    assert(rest[k as int] == x);
                    assert(forall|j: int| 0 <= j < k ==> rest[j] != x) by {
                        assert forall|j: int| 0 <= j < k implies rest[j] != x by {
                            assert(rest[j] == c@[start + j]);
                        }
                    }
                    lemma_first_at(rest, x, k);
                    assert(rest.subrange(0, k as int) =~= c@.subrange(start as int, i as int));
                    assert(rest.subrange((k + 1) as int, rest.len() as int) =~= c@.subrange((i + 1) as int, n as int));
                }
                let piece = range_chars(c, start, i);
                let ghost before = pieces_view(out@);
                out.push(piece);
                proof {
                    assert(pieces_view(out@) =~= before.push(c@.subrange(start as int, i as int)));
                    assert(pieces_view(out@) + split_char(c@.subrange((i + 1) as int, n as int), x)
                        =~= before + split_char(rest, x));
                }
                start = i + 1;
            },
        }
    }
}

proof fn lemma_first_at(c: Seq<char>, x: char, k: nat)
    requires
        k < c.len(),
        c[k as int] == x,
        forall|j: int| 0 <= j < k ==> c[j] != x,
    ensures
        first_index_from(c, x, 0) == Some(k),
{
    lemma_first_at_from(c, x, 0, k);
}

proof fn lemma_first_at_from(c: Seq<char>, x: char, i: nat, k: nat)
    requires
        i <= k < c.len(),
        c[k as int] == x,
        forall|j: int| i <= j < k ==> c[j] != x,
    ensures
        first_index_from(c, x, i) == Some(k),
    decreases k - i,
{
    if i < k {
        lemma_first_at_from(c, x, i + 1, k);
    }
}

fn trim_vec(c: &Vec<char>) -> (s: String)
    ensures
        s@ == trim(c@),
{
    let (a, b) = trim_bounds(c);
    string_from_range(c.as_slice(), a, b)
}

/// Why a request head is refused.
#[derive(Debug, Clone, Copy, PartialEq, Eq, Structural)]
pub enum RequestError {
    NoHeaders,
    Malformed,
    NotHttp,
}

impl RequestError {
    /// The kind of I/O error every refusal of a request head is: the data
    /// read is not valid.
    pub fn kind(&self) -> (k: IoErrorKind)
        ensures
            k == IoErrorKind::InvalidData,
    {
        IoErrorKind::InvalidData
    }

    /// What the error says.
    pub fn message(&self) -> (m: &'static str)
        ensures
            m@ == request_error_message(*self),
    {
        match self {
            RequestError::NoHeaders => "No Http Headers found in Request!",
            RequestError::Malformed => "Malformed Http Request!",
            RequestError::NotHttp => "Request is not an Http Request!",
        }
    }
}

pub open spec fn request_error_message(e: RequestError) -> Seq<char> {
    match e {
        RequestError::NoHeaders => "No Http Headers found in Request!"@,
        RequestError::Malformed => "Malformed Http Request!"@,
        RequestError::NotHttp => "Request is not an Http Request!"@,
    }
}

/// A request head as a mathematical value.
pub struct HeadView {
    pub method: Seq<char>,
    pub url: Seq<char>,
    pub headers: Seq<(Seq<char>, Seq<char>)>,
    pub path: Seq<char>,
    pub query: Seq<(Seq<char>, Seq<char>)>,
}

pub open spec fn word_http11() -> Seq<char> {
    seq!['H', 'T', 'T', 'P', '/', '1', '.', '1']
}

/// The headers of the trimmed lines from `i` on, set in order into `acc`:
/// the texts before the first `:` and between it and the next, trimmed;
/// none where a line has no `:`.
pub open spec fn headers_from(raw: Seq<Seq<char>>, i: nat, acc: Seq<(Seq<char>, Seq<char>)>) -> Option<Seq<(Seq<char>, Seq<char>)>>
    decreases raw.len() - i,
{
    if i >= raw.len() {
        Some(acc)
    } else {
        let parts = split_char(raw[i as int], ':');
        if parts.len() < 2 {
            None
        } else {
            headers_from(raw, i + 1, assoc_insert(acc, trim(parts[0]), trim(parts[1])))
        }
    }
}

/// The query entries of the pieces from `i` on, set in order into `acc`:
/// a piece `key=value` sets the trimmed key to the trimmed value (the text
/// up to any next `=`); a piece without `=` is passed over.
pub open spec fn query_from(pieces: Seq<Seq<char>>, i: nat, acc: Seq<(Seq<char>, Seq<char>)>) -> Seq<(Seq<char>, Seq<char>)>
    decreases pieces.len() - i,
{
    if i >= pieces.len() {
        acc
    } else {
        let buf = split_char(pieces[i as int], '=');
        let next = if buf.len() > 1 { assoc_insert(acc, trim(buf[0]), trim(buf[1])) } else { acc };
        query_from(pieces, i + 1, next)
    }
}

/// Whether the query piece `p` (`key=value`) sets the key `k`: it holds a
/// `=` and its text before the first `=`, trimmed, is `k`.
pub open spec fn piece_sets(p: Seq<char>, k: Seq<char>) -> bool {
    split_char(p, '=').len() > 1 && trim(split_char(p, '=')[0]) == k
}

/// The value a query piece `key=value` gives: the text after the first `=`
/// up to any next one, trimmed.
pub open spec fn piece_value(p: Seq<char>) -> Seq<char> {
    trim(split_char(p, '=')[1])
}

proof fn lemma_query_from_last(pieces: Seq<Seq<char>>, i: nat, acc: Seq<(Seq<char>, Seq<char>)>, k: Seq<char>)
    requires
        assoc_distinct(acc),
    ensures
        assoc_distinct(query_from(pieces, i, acc)),
        (forall|j: int| i <= j < pieces.len() ==> !piece_sets(#[trigger] pieces[j], k))
            ==> assoc_get(query_from(pieces, i, acc), k) == assoc_get(acc, k),
        forall|j: int| i <= j < pieces.len() && piece_sets(#[trigger] pieces[j], k)
            && (forall|m: int| j < m < pieces.len() ==> !piece_sets(#[trigger] pieces[m], k))
            ==> assoc_get(query_from(pieces, i, acc), k) == Some(piece_value(pieces[j])),
    decreases pieces.len() - i,
{
    if i < pieces.len() {
        let buf = split_char(pieces[i as int], '=');
        let next = if buf.len() > 1 { assoc_insert(acc, trim(buf[0]), trim(buf[1])) } else { acc };
        if buf.len() > 1 {
            lemma_get_after_insert(acc, trim(buf[0]), trim(buf[1]), k);
        }
        lemma_query_from_last(pieces, i + 1, next, k);
        assert(query_from(pieces, i, acc) == query_from(pieces, i + 1, next));
        assert forall|j: int| i <= j < pieces.len() && piece_sets(#[trigger] pieces[j], k)
            && (forall|m: int| j < m < pieces.len() ==> !piece_sets(#[trigger] pieces[m], k))
            implies assoc_get(query_from(pieces, i, acc), k) == Some(piece_value(pieces[j])) by {
            if j == i {
                assert(forall|m: int| i + 1 <= m < pieces.len() ==> !piece_sets(#[trigger] pieces[m], k));
                assert(assoc_get(next, k) == Some(piece_value(pieces[j])));
            }
        }
    }
}

/// The pieces of a URL's search: its text after the first `?` (none where
/// it has no `?`), split at every `&`.
pub open spec fn search_pieces(url: Seq<char>) -> Seq<Seq<char>> {
    let parts = split_char(url, '?');
    split_char(if parts.len() > 1 { parts[1] } else { seq![] }, '&')
}

/// The query of a request keeps, for every key, the value of the last piece
/// `key=value` of the URL's search that sets that key; a key that no piece
/// sets has no value.
pub proof fn lemma_query_last_wins(lines: Seq<Seq<char>>, k: Seq<char>)
    requires
        head_spec(lines) is Some,
        head_spec(lines).unwrap() is Ok,
    ensures
        (forall|j: int| 0 <= j < search_pieces(head_spec(lines).unwrap().unwrap().url).len()
            ==> !piece_sets(#[trigger] search_pieces(head_spec(lines).unwrap().unwrap().url)[j], k))
            ==> assoc_get(head_spec(lines).unwrap().unwrap().query, k) is None,
        forall|j: int| 0 <= j < search_pieces(head_spec(lines).unwrap().unwrap().url).len()
            && piece_sets(#[trigger] search_pieces(head_spec(lines).unwrap().unwrap().url)[j], k)
            && (forall|m: int| j < m < search_pieces(head_spec(lines).unwrap().unwrap().url).len()
                ==> !piece_sets(#[trigger] search_pieces(head_spec(lines).unwrap().unwrap().url)[m], k))
            ==> assoc_get(head_spec(lines).unwrap().unwrap().query, k)
                == Some(piece_value(search_pieces(head_spec(lines).unwrap().unwrap().url)[j])),
{
    let h = head_spec(lines).unwrap().unwrap();
    let pieces = search_pieces(h.url);
    let empty = Seq::<(Seq<char>, Seq<char>)>::empty();
    assert(h.query == query_from(pieces, 0, empty));
    assert(assoc_get(empty, k) is None);
    lemma_query_from_last(pieces, 0, empty, k);
}

/// What reading the lines of a request head gives: the head, or why it
/// is refused; none where the reading fails on a request line of exactly
/// two words or a header line without `:`.
pub open spec fn head_spec(lines: Seq<Seq<char>>) -> Option<Result<HeadView, RequestError>> {
    if lines.len() == 0 {
        Some(Err(RequestError::NoHeaders))
    } else {
        let raw = lines.map_values(|l: Seq<char>| trim(l));
        let status = split_char(raw[0], ' ');
        if status.len() < 2 {
            Some(Err(RequestError::Malformed))
        } else if status.len() == 2 {
            None
        } else if trim(status[2]) != word_http11() {
            Some(Err(RequestError::NotHttp))
        } else {
            match headers_from(raw, 1, seq![]) {
                None => None,
                Some(headers) => {
                    let url = status[1];
                    let url_parts = split_char(url, '?');
                    let search = if url_parts.len() > 1 { url_parts[1] } else { seq![] };
                    Some(Ok(HeadView {
                        method: status[0],
                        url,
                        headers,
                        path: url_parts[0],
                        query: query_from(split_char(search, '&'), 0, seq![]),
                    }))
                },
            }
        }
    }
}

/// The head of a request: its method, URL, headers, path and query.
pub struct RequestHead {
    url: String,
    method: String,
    headers: TextMap,
    path: String,
    query: TextMap,
}

impl View for RequestHead {
    type V = HeadView;

    closed spec fn view(&self) -> HeadView {
        HeadView {
            method: self.method@,
            url: self.url@,
            headers: self.headers@,
            path: self.path@,
            query: self.query@,
        }
    }
}

pub open spec fn head_result_view(r: Result<RequestHead, RequestError>) -> Result<HeadView, RequestError> {
    match r {
        Ok(h) => Ok(h@),
        Err(e) => Err(e),
    }
}

fn vec_string(c: &Vec<char>) -> (s: String)
    ensures
        s@ == c@,
{
    crate::text::string_from_chars(c.as_slice())
}

impl RequestHead {
    /// Reads the lines of a request head, as they were read, up to the empty
    /// line: a request line `METHOD URL HTTP/1.1` and `name: value` header
    /// lines, each trimmed.
    pub fn parse(lines: &Vec<String>) -> (r: Result<RequestHead, RequestError>)
        requires
            head_spec(lines@.map_values(|l: String| l@)) is Some,
        ensures
            Some(head_result_view(r)) == head_spec(lines@.map_values(|l: String| l@)),
    {
        match Self::parse_checked(lines) {
            Some(r) => r,
            None => Err(RequestError::Malformed),
        }
    }

    /// Reads the lines of a request head where that can be done: none for
    /// a request line of exactly two words or a header line without `:`.
    pub fn try_parse(lines: &Vec<String>) -> (r: Option<Result<RequestHead, RequestError>>)
        ensures
            match r {
                Some(x) => Some(head_result_view(x)) == head_spec(lines@.map_values(|l: String| l@)),
                None => head_spec(lines@.map_values(|l: String| l@)) is None,
            },
    {
        Self::parse_checked(lines)
    }

    fn parse_checked(lines: &Vec<String>) -> (r: Option<Result<RequestHead, RequestError>>)
        ensures
            match r {
                Some(x) => Some(head_result_view(x)) == head_spec(lines@.map_values(|l: String| l@)),
                None => head_spec(lines@.map_values(|l: String| l@)) is None,
            },
    {
        let ghost ls = lines@.map_values(|l: String| l@);
        if lines.len() == 0 {
            return Some(Err(RequestError::NoHeaders));
        }
        let ghost raw = ls.map_values(|l: Seq<char>| trim(l));
        let first = chars_of(lines[0].as_str());
        let (a, b) = trim_bounds(&first);
        let line0 = range_chars(&first, a, b);
        proof {
            assert(line0@ == raw[0]);
        }
        let status = split_chars(&line0, ' ');
        if status.len() < 2 {
            return Some(Err(RequestError::Malformed));
        } else if status.len() == 2 {
            return None;
        }
        proof {
            assert(pieces_view(status@)[2] == status@[2]@);
            assert(pieces_view(status@)[1] == status@[1]@);
            assert(pieces_view(status@)[0] == status@[0]@);
        }
        let version = trim_vec(&status[2]);
        let w = ['H', 'T', 'T', 'P', '/', '1', '.', '1'];
        proof {
            assert(w@ =~= word_http11());
        }
        if !same_chars(&version, &w) {
            return Some(Err(RequestError::NotHttp));
        }
        let mut headers = TextMap::new();
        let mut i: usize = 1;
        while i < lines.len()
            invariant
                1 <= i <= lines@.len(),
                ls == lines@.map_values(|l: String| l@),
                raw == ls.map_values(|l: Seq<char>| trim(l)),
                pieces_view(status@) == split_char(raw[0], ' '),
                status@.len() > 2,
                trim(status@[2]@) == word_http11(),
                headers_from(raw, 1, seq![]) == headers_from(raw, i as nat, headers@),
            decreases lines@.len() - i,
        {
            let cs = chars_of(lines[i].as_str());
            let (a, b) = trim_bounds(&cs);
            let line = range_chars(&cs, a, b);
            proof {
                assert(line@ == raw[i as int]);
            }
            let parts = split_chars(&line, ':');
            if parts.len() < 2 {
                return None;
            }
            proof {
                assert(pieces_view(parts@)[0] == parts@[0]@);
                assert(pieces_view(parts@)[1] == parts@[1]@);
            }
            let key = trim_vec(&parts[0]);
            let value = trim_vec(&parts[1]);
            headers.insert(key, value);
            i = i + 1;
        }
        let url = vec_string(&status[1]);
        let url_chars = status[1].clone();
        let url_parts = split_chars(&url_chars, '?');
        proof {
            lemma_split_nonempty(url_chars@, '?');
            assert(pieces_view(url_parts@)[0] == url_parts@[0]@);
        }
        let path = vec_string(&url_parts[0]);
        let search: Vec<char> = if url_parts.len() > 1 {
            proof {
                assert(pieces_view(url_parts@)[1] == url_parts@[1]@);
            }
            url_parts[1].clone()
        } else {
            Vec::new()
        };
        let pieces = split_chars(&search, '&');
        let mut query = TextMap::new();
        let mut k: usize = 0;
        while k < pieces.len()
            invariant
                k <= pieces@.len(),
                query_from(pieces_view(pieces@), 0, seq![]) == query_from(pieces_view(pieces@), k as nat, query@),
            decreases pieces@.len() - k,
        {
            proof {
                assert(pieces_view(pieces@)[k as int] == pieces@[k as int]@);
            }
            let buf = split_chars(&pieces[k], '=');
            if buf.len() > 1 {
                proof {
                    assert(pieces_view(buf@)[0] == buf@[0]@);
                    assert(pieces_view(buf@)[1] == buf@[1]@);
                }
                let key = trim_vec(&buf[0]);
                let value = trim_vec(&buf[1]);
                query.insert(key, value);
            }
            k = k + 1;
        }
        let method = vec_string(&status[0]);
        Some(Ok(RequestHead { url, method, headers, path, query }))
    }

    /// The path of the URL.
    pub fn path(&self) -> (p: &str)
        ensures
            p@ == self@.path,
    {
        self.path.as_str()
    }

    /// The method.
    pub fn method(&self) -> (m: &str)
        ensures
            m@ == self@.method,
    {
        self.method.as_str()
    }

    /// The value of a header that the request has.
    pub fn header(&self, key: &str) -> (v: &str)
        requires
            assoc_get(self@.headers, key@) is Some,
        ensures
            Some(v@) == assoc_get(self@.headers, key@),
    {
        match self.headers.get(key) {
            Some(v) => v,
            None => "",
        }
    }

    /// The value of a query entry, if the URL sets it.
    pub fn query(&self, key: &str) -> (v: Option<&str>)
        ensures
            match assoc_get(self@.query, key@) {
                Some(x) => v matches Some(y) && y@ == x,
                None => v is None,
            },
    {
        self.query.get(key)
    }
}

fn same_chars(s: &String, w: &[char]) -> (r: bool)
    ensures
        r == (s@ == w@),
{
    let c = chars_of(s.as_str());
    if c.len() != w.len() {
        return false;
    }
    let mut i: usize = 0;
    while i < w.len()
        invariant
            c@ == s@,
            c@.len() == w@.len(),
            i <= w@.len(),
            forall|j: int| 0 <= j < i ==> c@[j] == w@[j],
        decreases w@.len() - i,
    {
        if c[i] != w[i] {
            return false;
        }
        i = i + 1;
    }
    proof {
        assert(c@ =~= w@);
    }
    true
}

impl TextMap {
    /// The entries written as header lines, each `name: value` and `\r\n`.
    pub fn lines(&self) -> (s: String)
        ensures
            s@ == crate::response::header_lines(self@),
    {
        let mut s = String::new();
        let mut i: usize = 0;
        while i < self.entries.len()
            invariant
                i <= self.entries@.len(),
                s@ == crate::response::header_lines(text_pairs(self.entries@.subrange(0, i as int))),
            decreases self.entries@.len() - i,
        {
            let ghost before = s@;
            s.append(self.entries[i].0.as_str());
            s.append(": ");
            s.append(self.entries[i].1.as_str());
            s.append("\r\n");
            proof {
                let h = text_pairs(self.entries@.subrange(0, i + 1));
                assert(h.drop_last() =~= text_pairs(self.entries@.subrange(0, i as int)));
                assert(h.last() == (self.entries@[i as int].0@, self.entries@[i as int].1@));
                assert(s@ =~= before + self.entries@[i as int].0@ + ": "@ + self.entries@[i as int].1@ + "\r\n"@);
            }
            i = i + 1;
        }
        proof {
            assert(self.entries@.subrange(0, self.entries@.len() as int) =~= self.entries@);
        }
        s
    }
}

} // verus!
