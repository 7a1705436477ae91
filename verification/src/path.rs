//! Express-style path patterns (`/user/:id(\d+)?`): lexing, parsing into
//! segments and keys, and compiling to a regular expression.
use vstd::prelude::*;
use crate::path::token::{TokenType, token_type_name};
use crate::text::{chars_of, push_char, decimal_string, spec_decimal};
use crate::pattern::{Pattern, regex_captures, captures_view};
use crate::error::IoErrorKind;

pub mod key;
pub mod lexer;
pub mod segment;
pub mod token;

verus! {

/// How the static parts of a path are encoded before they are matched.
/// The only encoder is `NoEncode`, which leaves a text as it is.
#[derive(Debug, Clone, Copy, PartialEq, Eq, Structural)]
pub enum Encode {
    NoEncode,
}

/// The encoder that leaves a text as it is.
pub const no_encode: Encode = Encode::NoEncode;

impl Encode {
    /// Encodes a text.
    pub fn apply(&self, value: String) -> (r: String)
        ensures
            r@ == value@,
    {
        match self {
            Encode::NoEncode => value,
        }
    }
}

/// Whether a character has a meaning in regular expressions and is escaped
/// by `escape`.
pub open spec fn is_special(c: char) -> bool {
    c == '.' || c == '+' || c == '*' || c == '?' || c == '=' || c == '^' || c == '!' || c == ':'
        || c == '$' || c == '{' || c == '}' || c == '(' || c == ')' || c == '[' || c == ']'
        || c == '|' || c == '/' || c == '\\'
}

/// `s` with a backslash put before every special character.
pub open spec fn escape_string(s: Seq<char>) -> Seq<char>
    decreases s.len(),
{
    if s.len() == 0 {
        seq![]
    } else {
        let last = s.last();
        escape_string(s.drop_last()) + if is_special(last) { seq!['\\', last] } else { seq![last] }
    }
}

fn is_special_exec(c: char) -> (r: bool)
    ensures
        r == is_special(c),
{
    c == '.' || c == '+' || c == '*' || c == '?' || c == '=' || c == '^' || c == '!' || c == ':'
        || c == '$' || c == '{' || c == '}' || c == '(' || c == ')' || c == '[' || c == ']'
        || c == '|' || c == '/' || c == '\\'
}

/// Escapes a text for use inside a regular expression: a backslash goes
/// before every special character.
pub fn escape(value: String) -> (r: String)
    ensures
        r@ == escape_string(value@),
{
    let chars = chars_of(value.as_str());
    let mut out = String::new();
    let mut i: usize = 0;
    proof {
        assert(chars@.subrange(0, 0) =~= Seq::<char>::empty());
    }
    while i < chars.len()
        invariant
            i <= chars@.len(),
            out@ == escape_string(chars@.subrange(0, i as int)),
        decreases chars@.len() - i,
    {
        let c = chars[i];
        let ghost before = out@;
        if is_special_exec(c) {
            push_char(&mut out, '\\');
        }
        push_char(&mut out, c);
        proof {
            let next = chars@.subrange(0, i + 1);
            assert(next.drop_last() =~= chars@.subrange(0, i as int));
            assert(next.last() == c);
            if is_special(c) {
                assert(out@ =~= before + seq!['\\', c]);
            } else {
                assert(out@ =~= before + seq![c]);
            }
        }
        i = i + 1;
    }
    proof {
        assert(chars@.subrange(0, chars@.len() as int) =~= chars@);
    }
    out
}

/// Why a path pattern was refused.
#[derive(Debug, Clone, Copy, PartialEq, Eq, Structural)]
pub enum PathError {
    /// A `:` with no name after it, at the given position.
    MissingParameterName(usize),
    /// A pattern in brackets that starts with `?`, at the given position.
    PatternStartsWithQuestionMark(usize),
    /// A pattern whose closing bracket is missing; it opens at the given position.
    UnbalancedPattern(usize),
    /// An empty pattern; it opens at the given position.
    MissingPattern(usize),
    /// A capturing group inside a pattern, at the given position.
    CapturingGroup(usize),
    /// A token of the first kind, at the given token position, where one
    /// of the second kind was due.
    Unexpected(TokenType, usize, TokenType),
    /// A token of the given kind where the end of the path was due.
    ExpectedEnd(TokenType),
}

/// The message of an error.
pub open spec fn path_error_message(e: PathError) -> Seq<char> {
    match e {
        PathError::MissingParameterName(i) => "Missing parameter name at "@ + spec_decimal(i as nat),
        PathError::PatternStartsWithQuestionMark(i) => "Pattern cannot start with '?' at "@ + spec_decimal(i as nat),
        PathError::UnbalancedPattern(i) => "Unbalanced pattern at "@ + spec_decimal(i as nat),
        PathError::MissingPattern(i) => "Missing pattern at "@ + spec_decimal(i as nat),
        PathError::CapturingGroup(i) => "Capturing groups are not allowed at "@ + spec_decimal(i as nat),
        PathError::Unexpected(found, i, expected) => "Unexpected "@ + token_type_name(found) + " at "@
            + spec_decimal(i as nat) + ", expected "@ + token_type_name(expected),
        PathError::ExpectedEnd(found) => "Expected End instead got "@ + token_type_name(found) + "!"@,
    }
}

/// The kind of I/O error a refusal of a path pattern is: a path that ends
/// where more was due is `UnexpectedEof`, anything else `InvalidInput`.
pub open spec fn path_error_kind(e: PathError) -> IoErrorKind {
    match e {
        PathError::ExpectedEnd(_) => IoErrorKind::UnexpectedEof,
        _ => IoErrorKind::InvalidInput,
    }
}

impl PathError {
    /// The kind of I/O error this refusal is.
    pub fn kind(&self) -> (k: IoErrorKind)
        ensures
            k == path_error_kind(*self),
    {
        match self {
            PathError::ExpectedEnd(_) => IoErrorKind::UnexpectedEof,
            _ => IoErrorKind::InvalidInput,
        }
    }

    /// The message of this error.
    pub fn message(&self) -> (m: String)
        ensures
            m@ == path_error_message(*self),
    {
        match self {
            PathError::MissingParameterName(i) => {
                let mut m = String::from_str("Missing parameter name at ");
                m.append(decimal_string(*i as u64).as_str());
                m
            },
            PathError::PatternStartsWithQuestionMark(i) => {
                let mut m = String::from_str("Pattern cannot start with '?' at ");
                m.append(decimal_string(*i as u64).as_str());
                m
            },
            PathError::UnbalancedPattern(i) => {
                let mut m = String::from_str("Unbalanced pattern at ");
                m.append(decimal_string(*i as u64).as_str());
                m
            },
            PathError::MissingPattern(i) => {
                let mut m = String::from_str("Missing pattern at ");
                m.append(decimal_string(*i as u64).as_str());
                m
            },
            PathError::CapturingGroup(i) => {
                let mut m = String::from_str("Capturing groups are not allowed at ");
                m.append(decimal_string(*i as u64).as_str());
                m
            },
            PathError::Unexpected(found, i, expected) => {
                let mut m = String::from_str("Unexpected ");
                m.append(found.as_str());
                m.append(" at ");
                m.append(decimal_string(*i as u64).as_str());
                m.append(", expected ");
                m.append(expected.as_str());
                m
            },
            PathError::ExpectedEnd(found) => {
                let mut m = String::from_str("Expected End instead got ");
                m.append(found.as_str());
                m.append("!");
                m
            },
        }
    }
}


/// A compiled path pattern and the names of its parameters, one per
/// capture group in order.
pub struct Path {
    pub regex: Pattern,
    pub keys: Vec<String>,
}

/// The parameters of a path given the capture groups of its match: each key
/// with the text of its group (key `i` with group `i + 1`). None without a
/// match, and none where the groups are not one per key or a group did not
/// take part in the match.
pub open spec fn path_params(caps: Option<Seq<Option<Seq<char>>>>, keys: Seq<Seq<char>>) -> Option<Seq<(Seq<char>, Seq<char>)>> {
    match caps {
        None => None,
        Some(g) => if g.len() != keys.len() + 1 || exists|i: int| 1 <= i < g.len() && (#[trigger] g[i]) is None {
            None
        } else {
            Some(Seq::new(keys.len(), |i: int| (keys[i], g[i + 1]->Some_0)))
        },
    }
}

/// The views of a list of names.
pub open spec fn names_view(v: Seq<String>) -> Seq<Seq<char>> {
    v.map_values(|s: String| s@)
}

/// The views of a list of name and value pairs.
pub open spec fn params_view(v: Seq<(String, String)>) -> Seq<(Seq<char>, Seq<char>)> {
    v.map_values(|p: (String, String)| (p.0@, p.1@))
}

impl Path {
    /// The parameters of `pathname`, where the pattern matches it: each key
    /// with the text its capture group took.
    pub fn match_path(&self, pathname: &str) -> (r: Option<Vec<(String, String)>>)
        ensures
            match path_params(regex_captures(self.regex@.0, self.regex@.1, pathname@), names_view(self.keys@)) {
                Some(p) => r matches Some(v) && params_view(v@) == p,
                None => r is None,
            },
    {
        let caps = self.regex.captures(pathname);
        let ghost keys = names_view(self.keys@);
        let ghost cv = captures_view(caps);
        let groups = match caps {
            None => return None,
            Some(g) => g,
        };
        let ghost gv = cv->Some_0;
        if groups.len() == 0 || groups.len() - 1 != self.keys.len() {
            return None;
        }
        let mut out: Vec<(String, String)> = Vec::new();
        let mut i: usize = 0;
        proof {
            assert(params_view(out@) =~= Seq::<(Seq<char>, Seq<char>)>::empty());
        }
        while i < self.keys.len()
            invariant
                i <= self.keys@.len(),
                groups@.len() == self.keys@.len() + 1,
                keys == names_view(self.keys@),
                cv == captures_view(Some(groups)),
                cv == regex_captures(self.regex@.0, self.regex@.1, pathname@),
                gv == cv->Some_0,
                gv.len() == groups@.len(),
                forall|j: int| 1 <= j <= i ==> (#[trigger] gv[j]) is Some,
                params_view(out@) == Seq::new(i as nat, |j: int| (keys[j], gv[j + 1]->Some_0)),
            decreases self.keys@.len() - i,
        {
            proof {
                assert(gv[i + 1] == match groups@[i + 1] {
                    Some(x) => Some(x@),
                    None => None::<Seq<char>>,
                });
                assert(keys[i as int] == self.keys@[i as int]@);
            }
            match &groups[i + 1] {
                Some(v) => {
                    let ghost before = params_view(out@);
                    let k = self.keys[i].clone();
                    let val = v.clone();
                    out.push((k, val));
                    proof {
                        assert(params_view(out@) =~= before.push((keys[i as int], gv[i + 1]->Some_0)));
                        assert(params_view(out@) =~= Seq::new((i + 1) as nat, |j: int| (keys[j], gv[j + 1]->Some_0)));
                    }
                },
                None => {
                    return None;
                },
            }
            i = i + 1;
        }
        proof {
            assert(!exists|j: int| 1 <= j < gv.len() && (#[trigger] gv[j]) is None);
            assert(params_view(out@) =~= Seq::new(keys.len(), |j: int| (keys[j], gv[j + 1]->Some_0)));
        }
        Some(out)
    }
}

/// The parameters of `pathname` under `path`, where its pattern matches.
pub fn match_path(pathname: &str, path: &Path) -> (r: Option<Vec<(String, String)>>)
    ensures
        match path_params(regex_captures(path.regex@.0, path.regex@.1, pathname@), names_view(path.keys@)) {
            Some(p) => r matches Some(v) && params_view(v@) == p,
            None => r is None,
        },
{
    path.match_path(pathname)
}

} // verus!
