//! Splitting the bytes read from a stream into chunks, the lines of a
//! request ended by `\r\n`, which must hold ASCII bytes only.
use vstd::prelude::*;
use crate::http1::types::tokens::{Tokenizer, bytes_as_chars, decode};
use crate::text::{decimal_string, spec_decimal};

verus! {

/// An I/O error of the stream.
#[verifier::external_type_specification]
#[verifier::external_body]
pub struct ExIoError(std::io::Error);

/// Why the stream could not be read.
pub enum ParseStreamError {
    /// Reading failed.
    ReadError(std::io::Error),
    /// The stream was handed on and can be read here no longer.
    BufferTaken,
    /// A byte that is no ASCII, at this index.
    ParseError(usize),
}

/// The message of an I/O error: `std::io::Error`'s `Display`. It says how
/// the system described the failure, which nothing here states.
#[verifier::external_body]
pub(crate) fn io_error_text(e: &std::io::Error) -> (s: String)
{
    e.to_string()
}

/// The message of a stream error other than a failed read: `Stream Buffer
/// is taken!`, or `Invalid character found at: index!`.
pub open spec fn stream_error_text(e: ParseStreamError) -> Seq<char> {
    match e {
        ParseStreamError::BufferTaken => "Stream Buffer is taken!"@,
        ParseStreamError::ParseError(k) => "Invalid character found at: "@ + spec_decimal(k as nat) + "!"@,
        ParseStreamError::ReadError(_) => seq![],
    }
}

impl ParseStreamError {
    /// The message of this error; that of a failed read is the I/O error's.
    pub fn to_string(&self) -> (s: String)
        ensures
            !(self is ReadError) ==> s@ == stream_error_text(*self),
    {
        match self {
            ParseStreamError::ReadError(e) => io_error_text(e),
            ParseStreamError::BufferTaken => String::from_str("Stream Buffer is taken!"),
            ParseStreamError::ParseError(k) => {
                let mut s = String::from_str("Invalid character found at: ");
                s.append(decimal_string(*k as u64).as_str());
                s.append("!");
                s
            },
        }
    }
}

/// Whether the bytes at `j` and `j + 1` are `\r\n`.
pub open spec fn is_crlf(b: Seq<u8>, j: int) -> bool {
    b[j] == 13 && b[j + 1] == 10
}

/// Scans `b` from `j` for the `\r\n` that ends a chunk: its index, none if
/// the bytes end first, or the index of a byte above 127 met on the way.
pub open spec fn chunk_scan(b: Seq<u8>, j: nat) -> Result<Option<nat>, nat>
    decreases b.len() - j,
{
    if j + 1 >= b.len() {
        Ok(None)
    } else if b[(j + 1) as int] > 127 {
        Err(j + 1)
    } else if is_crlf(b, j as int) {
        Ok(Some(j))
    } else {
        chunk_scan(b, j + 1)
    }
}

/// Where the chunk of `b` that starts at `i` ends: the index of its `\r\n`,
/// none if there is no complete chunk there, or the index of a byte above
/// 127.
pub open spec fn next_chunk_spec(b: Seq<u8>, i: nat) -> Result<Option<nat>, nat> {
    if i >= b.len() {
        Ok(None)
    } else if b[i as int] > 127 {
        Err(i)
    } else {
        chunk_scan(b, i)
    }
}

/// A chunk found from `i` ends at or after `i`, before the last byte.
pub proof fn lemma_next_chunk_bounds(b: Seq<u8>, i: nat)
    ensures
        next_chunk_spec(b, i) matches Ok(Some(n)) ==> i <= n && n + 1 < b.len(),
{
    lemma_chunk_scan_bounds(b, i);
}

/// A chunk found by a scan from `j` ends at or after `j`, before the last
/// byte.
pub proof fn lemma_chunk_scan_bounds(b: Seq<u8>, j: nat)
    ensures
        chunk_scan(b, j) matches Ok(Some(n)) ==> j <= n && n + 1 < b.len(),
    decreases b.len() - j,
{
    if j + 1 < b.len() && !(b[(j + 1) as int] > 127) && !is_crlf(b, j as int) {
        lemma_chunk_scan_bounds(b, j + 1);
    }
}

/// The complete chunks of `b` from `i` on, and the index after the last of
/// them; or the index of a byte above 127.
pub open spec fn split_chunks_spec(b: Seq<u8>, i: nat) -> Result<(Seq<Seq<u8>>, nat), nat>
    decreases b.len() - i,
{
    match next_chunk_spec(b, i) {
        Err(k) => Err(k),
        Ok(None) => Ok((seq![], i)),
        Ok(Some(n)) => {
            proof {
                lemma_next_chunk_bounds(b, i);
            }
            match split_chunks_spec(b, n + 2) {
                Err(k) => Err(k),
                Ok((cs, end)) => Ok((seq![b.subrange(i as int, n as int)] + cs, end)),
            }
        },
    }
}

/// The index of the `\r\n` that ends the chunk of `buffer` starting at
/// `index`, if the buffer holds all of it; an error at the first byte above
/// 127 on the way.
pub fn next_chunk(buffer: &[u8], index: usize) -> (r: Result<Option<usize>, ParseStreamError>)
    ensures
        match next_chunk_spec(buffer@, index as nat) {
            Ok(Some(n)) => r matches Ok(Some(x)) && x == n,
            Ok(None) => r matches Ok(None),
            Err(k) => r matches Err(ParseStreamError::ParseError(x)) && x == k,
        },
{
    let length = buffer.len();
    if index >= length {
        return Ok(None);
    } else if buffer[index] > 127 {
        return Err(ParseStreamError::ParseError(index));
    }
    let mut j = index;
    let length = length - 1;
    while j < length
        invariant
            length + 1 == buffer@.len(),
            index <= j,
            index < buffer@.len(),
            buffer@[index as int] <= 127,
            chunk_scan(buffer@, index as nat) == chunk_scan(buffer@, j as nat),
        decreases length - j,
    {
        let next = j + 1;
        if buffer[next] > 127 {
            return Err(ParseStreamError::ParseError(next));
        } else if buffer[j] == 13 && buffer[next] == 10 {
            return Ok(Some(j));
        }
        j = next;
    }
    Ok(None)
}

/// A line of a request, without its `\r\n`.
pub struct Chunk(Vec<u8>);

impl View for Chunk {
    type V = Seq<u8>;

    closed spec fn view(&self) -> Seq<u8> {
        self.0@
    }
}

impl Tokenizer for Chunk {
    closed spec fn spec_bytes(&self) -> Seq<u8> {
        self.0@
    }

    fn len(&self) -> (n: usize) {
        self.0.len()
    }

    fn at(&self, index: usize) -> (r: Option<u8>) {
        if index < self.0.len() {
            Some(self.0[index])
        } else {
            None
        }
    }

    fn decode(&self) -> (s: String) {
        decode(&self.0)
    }
}

impl Chunk {
    /// The bytes of a chunk are its view.
    pub proof fn lemma_bytes_are_view(&self)
        ensures
            self.spec_bytes() == self@,
    {
    }

    /// Whether this chunk holds any byte.
    pub fn has_some(&self) -> (r: bool)
        ensures
            r == (self@.len() > 0),
    {
        self.0.len() != 0
    }
}

/// The views of a list of chunks.
pub open spec fn chunks_view(v: Seq<Chunk>) -> Seq<Seq<u8>> {
    v.map_values(|c: Chunk| c@)
}

fn copy_range(b: &[u8], from: usize, to: usize) -> (v: Vec<u8>)
    requires
        from <= to <= b@.len(),
    ensures
        v@ == b@.subrange(from as int, to as int),
{
    let mut v: Vec<u8> = Vec::new();
    let mut i = from;
    while i < to
        invariant
            from <= i <= to <= b@.len(),
            v@ == b@.subrange(from as int, i as int),
        decreases to - i,
    {
        v.push(b[i]);
        i = i + 1;
        proof {
            assert(v@ =~= b@.subrange(from as int, i as int));
        }
    }
    v
}

/// Splits what was read from a stream into its complete chunks; returns
/// them with the number of bytes they take up, separators included.
pub fn split_chunks(buffer: &[u8]) -> (r: Result<(Vec<Chunk>, usize), ParseStreamError>)
    ensures
        match split_chunks_spec(buffer@, 0) {
            Ok((cs, end)) => r matches Ok((v, n)) && chunks_view(v@) == cs && n == end,
            Err(k) => r matches Err(ParseStreamError::ParseError(x)) && x == k,
        },
{
    let mut chunks: Vec<Chunk> = Vec::new();
    let mut index: usize = 0;
    let blen = buffer.len();
    let ghost spec0 = split_chunks_spec(buffer@, 0);
    loop
        invariant
            index <= buffer@.len(),
            blen == buffer@.len(),
            spec0 == split_chunks_spec(buffer@, 0),
            match split_chunks_spec(buffer@, index as nat) {
                Ok((cs, end)) => spec0 == Ok::<(Seq<Seq<u8>>, nat), nat>((chunks_view(chunks@) + cs, end)),
                Err(k) => spec0 == Err::<(Seq<Seq<u8>>, nat), nat>(k),
            },
        decreases buffer@.len() - index,
    {
        let ghost cur = split_chunks_spec(buffer@, index as nat);
        match next_chunk(buffer, index) {
            Ok(Some(next)) => {
                proof {
                    lemma_next_chunk_bounds(buffer@, index as nat);
                }
                let ghost before = chunks_view(chunks@);
                chunks.push(Chunk(copy_range(buffer, index, next)));
                proof {
                    assert(chunks_view(chunks@) =~= before.push(buffer@.subrange(index as int, next as int)));
                    match split_chunks_spec(buffer@, (next + 2) as nat) {
                        Ok((cs, end)) => {
                            assert(before + (seq![buffer@.subrange(index as int, next as int)] + cs)
                                =~= chunks_view(chunks@) + cs);
                        },
                        Err(k) => {},
                    }
                }
                index = next + 2;
            },
            Ok(None) => {
                proof {
                    assert(chunks_view(chunks@) + Seq::<Seq<u8>>::empty() =~= chunks_view(chunks@));
                }
                return Ok((chunks, index));
            },
            Err(e) => return Err(e),
        }
    }
}

/// Lines written one after another, each ended by `\r\n`.
pub open spec fn join_lines(cs: Seq<Seq<u8>>) -> Seq<u8>
    decreases cs.len(),
{
    if cs.len() == 0 {
        seq![]
    } else {
        cs[0] + seq![13u8, 10u8] + join_lines(cs.drop_first())
    }
}

/// Whether a line holds no `\r\n`.
pub open spec fn has_no_crlf(c: Seq<u8>) -> bool {
    forall|k: int| 0 <= k < c.len() - 1 ==> !is_crlf(c, k)
}

proof fn lemma_chunk_scan_found(b: Seq<u8>, j: nat)
    ensures
        chunk_scan(b, j) matches Ok(Some(n)) ==> j <= n && n + 1 < b.len() && is_crlf(b, n as int)
            && forall|k: int| j <= k < n ==> !is_crlf(b, k),
    decreases b.len() - j,
{
    if j + 1 < b.len() && !(b[(j + 1) as int] > 127) && !is_crlf(b, j as int) {
        lemma_chunk_scan_found(b, j + 1);
    }
}

/// The complete chunks of what was read, each followed by `\r\n`, are the
/// bytes they take up; none of them holds `\r\n`.
pub proof fn lemma_chunks_reassemble(b: Seq<u8>, i: nat)
    requires
        i <= b.len(),
        split_chunks_spec(b, i) is Ok,
    ensures
        split_chunks_spec(b, i) matches Ok((cs, end)) && i <= end <= b.len()
            && b.subrange(i as int, end as int) == join_lines(cs)
            && forall|k: int| 0 <= k < cs.len() ==> has_no_crlf(#[trigger] cs[k]),
    decreases b.len() - i,
{
    match next_chunk_spec(b, i) {
        Err(_) => {},
        Ok(None) => {
            assert(b.subrange(i as int, i as int) =~= join_lines(seq![]));
        },
        Ok(Some(n)) => {
            lemma_next_chunk_bounds(b, i);
            lemma_chunk_scan_found(b, i);
            lemma_chunks_reassemble(b, n + 2);
            let (cs, end) = split_chunks_spec(b, n + 2)->Ok_0;
            let c = b.subrange(i as int, n as int);
            let all = seq![c] + cs;
            assert(all.drop_first() =~= cs);
            assert(all[0] == c);
            assert(b.subrange(i as int, end as int) =~= c + seq![13u8, 10u8] + b.subrange((n + 2) as int, end as int));
            assert(chunk_scan(b, i) == Ok::<Option<nat>, nat>(Some(n)));
            assert forall|k: int| 0 <= k < c.len() - 1 implies !is_crlf(c, k) by {
                assert(c[k] == b[i + k]);
                assert(c[k + 1] == b[i + k + 1]);
                assert(!is_crlf(b, i + k));
            }
            assert forall|k: int| 0 <= k < all.len() implies has_no_crlf(#[trigger] all[k]) by {
                if k > 0 {
                    assert(all[k] == cs[k - 1]);
                }
            }
        },
    }
}

} // verus!
