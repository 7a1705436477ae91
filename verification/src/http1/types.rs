//! The pieces of an HTTP/1.x request line, and the lines themselves as they
//! are read from a stream.
pub mod tokens;
pub mod uri;
pub mod version;

use vstd::prelude::*;
use crate::http1::types::tokens::{Tokenizer, decode};

verus! {

/// Why a line could not be read from a stream: the read failed, or what was
/// read did not parse.
pub enum ParseStreamError<ParseError> {
    ReadError(std::io::Error),
    ParseError(ParseError),
}

/// A stream from which lines of a request are read one at a time.
pub trait ParseStream: Sized {
    type Error;
    type Type: Tokenizer;

    /// The next line, or none at the end of the stream.
    fn parse(&mut self) -> Result<Option<Self::Type>, ParseStreamError<Self::Error>>;
}

/// The bytes read from a stream for one line.
pub struct Chunk(pub Vec<u8>);

/// The index of the first `\r\n` in `b` at or after `i`, if there is one.
pub open spec fn first_crlf_from(b: Seq<u8>, i: nat) -> Option<nat>
    decreases b.len() - i,
{
    if i + 1 >= b.len() {
        None
    } else if b[i as int] == 13 && b[(i + 1) as int] == 10 {
        Some(i)
    } else {
        first_crlf_from(b, i + 1)
    }
}

impl Tokenizer for Chunk {
    closed spec fn spec_bytes(&self) -> Seq<u8> {
        self.0@
    }

    fn len(&self) -> (n: usize) {
        self.0.len()
    }

    fn at(&self, index: usize) -> (r: Option<u8>) {
        if index < self.0.len() {
            Some(self.0[index])
        } else {
            None
        }
    }

    fn decode(&self) -> (s: String) {
        decode(&self.0)
    }
}

impl Chunk {
    /// Cuts this chunk at its first `\r\n`, where it has one, and returns
    /// the length of the line before it; a chunk without one is left as it
    /// is.
    pub fn format(&mut self) -> (r: Option<usize>)
        ensures
            match first_crlf_from(old(self).0@, 0) {
                Some(i) => (r matches Some(x) && x == i) && final(self).0@ == old(self).0@.subrange(0, i as int),
                None => r is None && final(self).0@ == old(self).0@,
            },
    {
        let n = self.0.len();
        if n < 2 {
            return None;
        }
        let mut i: usize = 0;
        while i < n - 1
            invariant
                n >= 2,
                n == self.0@.len(),
                self.0@ == old(self).0@,
                first_crlf_from(self.0@, 0) == first_crlf_from(self.0@, i as nat),
            decreases n - i,
        {
            if self.0[i] == 13 && self.0[i + 1] == 10 {
                self.0.truncate(i);
                return Some(i);
            }
            i = i + 1;
        }
        None
    }

    /// Whether this chunk holds any byte.
    pub fn has_some(&self) -> (r: bool)
        ensures
            r == (self.0@.len() > 0),
    {
        self.0.len() != 0
    }
}

} // verus!
