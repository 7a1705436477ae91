//! Values of request headers: media types and character sets.
use vstd::prelude::*;
use crate::text::{push_char, first_index_from, lemma_first_index_bounds, find_from, chars_of, string_from_range};
use crate::json::{trim, trim_bounds};

verus! {

/// A header value: `*`, or a text.
pub enum HeaderType<'a> {
    WildCard,
    Text(&'a str),
}

/// A header value as the text it stands for: `*` for the wild card.
pub open spec fn header_text(h: HeaderType) -> Seq<char> {
    match h {
        HeaderType::WildCard => seq!['*'],
        HeaderType::Text(s) => s@,
    }
}

impl<'a> HeaderType<'a> {
    /// The text of this value.
    pub fn as_str(&self) -> (s: &'a str)
        ensures
            s@ == header_text(*self),
    {
        match self {
            HeaderType::WildCard => {
                let s = "*";
                proof {
                    reveal_strlit("*");
                }
                s
            },
            HeaderType::Text(s) => *s,
        }
    }
}

/// A media type: a type and a subtype, each a text or `*`.
pub struct MediaType<'a>(pub HeaderType<'a>, pub HeaderType<'a>);

/// The index of the first `/` in `s`, if there is one.
pub open spec fn first_slash(s: Seq<char>) -> Option<int> {
    match first_index_from(s, '/', 0) {
        Some(i) => Some(i as int),
        None => None,
    }
}

/// Whether `m` is the media type that the text `s` names: `type/subtype`
/// split at the first `/`; a text without `/` is a type with any subtype,
/// and an empty text is `*/*`.
pub open spec fn names_media_type(m: MediaType, s: Seq<char>) -> bool {
    if s.len() == 0 {
        m.0 is WildCard && m.1 is WildCard
    } else {
        match first_slash(s) {
            Some(i) => (m.0 matches HeaderType::Text(a) && a@ == s.subrange(0, i))
                && (m.1 matches HeaderType::Text(b) && b@ == s.subrange(i + 1, s.len() as int)),
            None => (m.0 matches HeaderType::Text(a) && a@ == s) && m.1 is WildCard,
        }
    }
}

/// A media type written out: `type/subtype`.
pub open spec fn media_type_string(m: MediaType) -> Seq<char> {
    header_text(m.0) + seq!['/'] + header_text(m.1)
}

impl<'a> MediaType<'a> {
    /// The media type `*/*`.
    pub fn new() -> (m: MediaType<'a>)
        ensures
            m.0 is WildCard && m.1 is WildCard,
    {
        MediaType(HeaderType::WildCard, HeaderType::WildCard)
    }

    /// The media type that a text names: `type/subtype`, split at the first
    /// `/`; a text without `/` is a type with any subtype, and an empty text
    /// is `*/*`.
    pub fn from(str: &'a str) -> (m: MediaType<'a>)
        ensures
            names_media_type(m, str@),
    {
        let n = str.unicode_len();
        if n == 0 {
            return Self::new();
        }
        let mut i: usize = 0;
        while i < n
            invariant
                n == str@.len(),
                i <= n,
                first_index_from(str@, '/', 0) == first_index_from(str@, '/', i as nat),
            decreases n - i,
        {
            if str.get_char(i) == '/' {
                let head = str.substring_char(0, i);
                let tail = str.substring_char(i + 1, n);
                return MediaType(HeaderType::Text(head), HeaderType::Text(tail));
            }
            i = i + 1;
        }
        MediaType(HeaderType::Text(str), HeaderType::WildCard)
    }

    /// The media type that a header value names.
    pub fn from_header(value: &HeaderType<'a>) -> (m: MediaType<'a>)
        ensures
            match *value {
                HeaderType::WildCard => m.0 is WildCard && m.1 is WildCard,
                HeaderType::Text(s) => names_media_type(m, s@),
            },
    {
        match value {
            HeaderType::WildCard => Self::new(),
            HeaderType::Text(s) => Self::from(*s),
        }
    }

    /// This media type written out: `type/subtype`.
    pub fn to_string(&self) -> (s: String)
        ensures
            s@ == media_type_string(*self),
    {
        let mut s = String::new();
        s.append(self.0.as_str());
        push_char(&mut s, '/');
        s.append(self.1.as_str());
        s
    }
}

/// An `Accept-Charset` entry: a character set or `*`, with a quality where
/// one is given, held as the bits of its single-precision float.
pub struct Charset<'a> {
    pub charset: HeaderType<'a>,
    pub q: Option<u32>,
}

impl<'a> Charset<'a> {
    /// Any character set, without a quality.
    pub fn new() -> (c: Charset<'a>)
        ensures
            c.charset is WildCard,
            c.q is None,
    {
        Charset { charset: HeaderType::WildCard, q: None }
    }
}

/// A media type read from a text with a `/` writes out as that text.
pub proof fn lemma_media_type_round_trip(m: MediaType, s: Seq<char>)
    requires
        names_media_type(m, s),
        exists|i: int| 0 <= i < s.len() && s[i] == '/',
    ensures
        media_type_string(m) == s,
{
    lemma_first_index_bounds(s, '/', 0);
    let i = first_slash(s).unwrap();
    assert(s[i] == '/');
    assert(s.subrange(0, i) + seq!['/'] + s.subrange(i + 1, s.len() as int) =~= s);
}

/// The character set of an `Accept-Charset` entry `charset;q=value`: the
/// text before the first `;` (`*` is any), and the text of its quality
/// where one is given: after the first `=` of the text between the first
/// and the second `;`, trimmed, where the trimmed text before that `=` is
/// `q`.
pub open spec fn charset_spec(s: Seq<char>) -> (Seq<char>, Option<Seq<char>>) {
    let end0 = match first_index_from(s, ';', 0) {
        Some(i) => i,
        None => s.len(),
    };
    let q = match first_index_from(s, ';', 0) {
        None => None,
        Some(i) => {
            let end1 = match first_index_from(s, ';', i + 1) {
                Some(j) => j,
                None => s.len(),
            };
            let part = s.subrange((i + 1) as int, end1 as int);
            match first_index_from(part, '=', 0) {
                None => None,
                Some(k) => if trim(part.subrange(0, k as int)) == seq!['q'] {
                    Some(trim(part.subrange((k + 1) as int, part.len() as int)))
                } else {
                    None
                },
            }
        },
    };
    (s.subrange(0, end0 as int), q)
}

fn trimmed_text(c: &Vec<char>, from: usize, to: usize) -> (s: String)
    requires
        from <= to <= c@.len(),
    ensures
        s@ == trim(c@.subrange(from as int, to as int)),
{
    let mut part: Vec<char> = Vec::new();
    let mut i = from;
    while i < to
        invariant
            from <= i <= to <= c@.len(),
            part@ == c@.subrange(from as int, i as int),
        decreases to - i,
    {
        part.push(c[i]);
        i = i + 1;
        proof {
            assert(part@ =~= c@.subrange(from as int, i as int));
        }
    }
    let (a, b) = trim_bounds(&part);
    string_from_range(part.as_slice(), a, b)
}

/// The character set of an `Accept-Charset` entry and the text of its
/// quality, where one is given; the quality is read as a number by the
/// caller.
pub fn parse_charset<'a>(str: &'a str) -> (r: (HeaderType<'a>, Option<String>))
    ensures
        match r.0 {
            HeaderType::WildCard => charset_spec(str@).0 == seq!['*'],
            HeaderType::Text(t) => t@ == charset_spec(str@).0 && t@ != seq!['*'],
        },
        match charset_spec(str@).1 {
            Some(q) => r.1 matches Some(x) && x@ == q,
            None => r.1 is None,
        },
{
    let c = chars_of(str);
    let n = c.len();
    proof {
        lemma_first_index_bounds(c@, ';', 0);
    }
    let first = find_from(&c, ';', 0);
    let end0 = match first {
        Some(i) => i,
        None => n,
    };
    let head = str.substring_char(0, end0);
    proof {
        assert(head@ == c@.subrange(0, end0 as int));
        assert(head@ == charset_spec(str@).0);
    }
    let charset = if end0 == 1 && c[0] == '*' {
        proof {
            assert(head@ =~= seq!['*']);
        }
        HeaderType::WildCard
    } else {
        proof {
            if head@ == seq!['*'] {
                assert(head@.len() == 1);
                assert(head@[0] == c@[0]);
            }
        }
        HeaderType::Text(head)
    };
    let q = match first {
        None => None,
        Some(i) => {
            proof {
                lemma_first_index_bounds(c@, ';', (i + 1) as nat);
            }
            let end1 = match find_from(&c, ';', i + 1) {
                Some(j) => j,
                None => n,
            };
            let mut part: Vec<char> = Vec::new();
            let mut k = i + 1;
            while k < end1
                invariant
                    i + 1 <= k <= end1 <= c@.len(),
                    part@ == c@.subrange((i + 1) as int, k as int),
                decreases end1 - k,
            {
                part.push(c[k]);
                k = k + 1;
                proof {
                    assert(part@ =~= c@.subrange((i + 1) as int, k as int));
                }
            }
            proof {
                lemma_first_index_bounds(part@, '=', 0);
            }
            match find_from(&part, '=', 0) {
                None => None,
                Some(e) => {
                    let key = trimmed_text(&part, 0, e);
                    let value = trimmed_text(&part, e + 1, part.len());
                    let kc = chars_of(key.as_str());
                    if kc.len() == 1 && kc[0] == 'q' {
                        proof {
                            assert(key@ =~= seq!['q']);
                        }
                        Some(value)
                    } else {
                        proof {
                            if key@ == seq!['q'] {
                                assert(kc@[0] == key@[0]);
                            }
                        }
                        None
                    }
                },
            }
        },
    };
    (charset, q)
}

} // verus!
