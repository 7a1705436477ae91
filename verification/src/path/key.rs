//! Keys of a path pattern (its parameters) and their regular expressions.
use vstd::prelude::*;
use crate::path::{escape, escape_string};

verus! {

/// A parameter of a path pattern.
#[derive(Debug, Clone)]
pub struct Key {
    pub name: String,
    pub prefix: String,
    pub suffix: String,
    pub pattern: String,
    pub modifier: String,
    pub separator: Option<String>,
}

/// A key as a mathematical value.
pub struct KeyView {
    pub name: Seq<char>,
    pub prefix: Seq<char>,
    pub suffix: Seq<char>,
    pub pattern: Seq<char>,
    pub modifier: Seq<char>,
    pub separator: Option<Seq<char>>,
}

/// The view of an optional string.
pub open spec fn opt_view(o: Option<String>) -> Option<Seq<char>> {
    match o {
        Some(s) => Some(s@),
        None => None,
    }
}

impl View for Key {
    type V = KeyView;

    open spec fn view(&self) -> KeyView {
        KeyView {
            name: self.name@,
            prefix: self.prefix@,
            suffix: self.suffix@,
            pattern: self.pattern@,
            modifier: self.modifier@,
            separator: opt_view(self.separator),
        }
    }
}

impl Key {
    /// A copy of this key.
    pub fn duplicate(&self) -> (k: Key)
        ensures
            k@ == self@,
    {
        Key {
            name: self.name.clone(),
            prefix: self.prefix.clone(),
            suffix: self.suffix.clone(),
            pattern: self.pattern.clone(),
            modifier: self.modifier.clone(),
            separator: match &self.separator {
                Some(s) => Some(s.clone()),
                None => None,
            },
        }
    }
}

/// The pattern of a parameter that has none of its own: one or more
/// characters other than the delimiter, as few as possible.
pub open spec fn segment_pattern_of(delimiter: Seq<char>) -> Seq<char> {
    "[^"@ + escape_string(delimiter) + "]+?"@
}

/// The regular expression of a key, given the pattern of parameters that
/// have none of their own: a key with a separator repeats its pattern
/// parted by the separator, the whole group optional for the `*` modifier.
pub open spec fn key_regex(segment_pattern: Seq<char>, key: KeyView) -> Seq<char> {
    let prefix = escape_string(key.prefix);
    let suffix = escape_string(key.suffix);
    let separator = match key.separator {
        Some(s) => s,
        None => seq![],
    };
    if key.name.len() > 0 {
        let pattern = if key.pattern.len() == 0 { segment_pattern } else { key.pattern };
        if separator.len() > 0 {
            let modifier = if key.modifier == seq!['*'] { seq!['?'] } else { seq![] };
            "(?:"@ + prefix + "((?:"@ + pattern + ")(?:"@ + escape_string(separator) + "(?:"@ + pattern + "))*)"@
                + suffix + ")"@ + modifier
        } else {
            "(?:"@ + prefix + "("@ + pattern + ")"@ + suffix + ")"@ + key.modifier
        }
    } else {
        "(?:"@ + prefix + suffix + ")"@ + key.modifier
    }
}

/// Turns keys into regular expressions for a given delimiter.
pub struct KeyToRegex {
    segment_pattern: String,
}

impl View for KeyToRegex {
    type V = Seq<char>;

    closed spec fn view(&self) -> Seq<char> {
        self.segment_pattern@
    }
}

/// Whether `s` is the one-character text `c`.
pub fn is_char_text(s: &str, c: char) -> (r: bool)
    ensures
        r == (s@ == seq![c]),
{
    let n = s.unicode_len();
    if n == 1 {
        let first = s.get_char(0);
        proof {
            if first == c {
                assert(s@ =~= seq![c]);
            }
        }
        first == c
    } else {
        proof {
            if s@ == seq![c] {
                assert(s@.len() == 1);
            }
        }
        false
    }
}

/// The generator of key regular expressions for a delimiter.
pub fn key_to_regexp_gen(delimiter: String) -> (gen: KeyToRegex)
    ensures
        gen@ == segment_pattern_of(delimiter@),
{
    let mut segment_pattern = String::from_str("[^");
    segment_pattern.append(escape(delimiter).as_str());
    segment_pattern.append("]+?");
    KeyToRegex { segment_pattern }
}

impl KeyToRegex {
    /// The regular expression of a key.
    pub fn call(&mut self, key: Key) -> (r: String)
        ensures
            r@ == key_regex(old(self)@, key@),
            final(self)@ == old(self)@,
    {
        let ghost kv = key@;
        let prefix = escape(key.prefix);
        let suffix = escape(key.suffix);
        let seperator = match key.separator {
            Some(s) => s,
            None => String::new(),
        };
        if !key.name.as_str().is_empty() {
            let pattern = if key.pattern.as_str().is_empty() {
                self.segment_pattern.clone()
            } else {
                key.pattern
            };
            if !seperator.as_str().is_empty() {
                let modifier = if is_char_text(key.modifier.as_str(), '*') {
                    String::from_str("?")
                } else {
                    String::new()
                };
                proof {
                    reveal_strlit("?");
                    reveal_strlit("");
                    assert(modifier@ == (if kv.modifier == seq!['*'] { seq!['?'] } else { Seq::<char>::empty() }));
                }
                let split = escape(seperator);
                let mut out = String::from_str("(?:");
                out.append(prefix.as_str());
                out.append("((?:");
                out.append(pattern.as_str());
                out.append(")(?:");
                out.append(split.as_str());
                out.append("(?:");
                out.append(pattern.as_str());
                out.append("))*)");
                out.append(suffix.as_str());
                out.append(")");
                out.append(modifier.as_str());
                return out;
            } else {
                let mut out = String::from_str("(?:");
                out.append(prefix.as_str());
                out.append("(");
                out.append(pattern.as_str());
                out.append(")");
                out.append(suffix.as_str());
                out.append(")");
                out.append(key.modifier.as_str());
                proof {
                    reveal_strlit("");
                }
                return out;
            }
        }
        let mut out = String::from_str("(?:");
        out.append(prefix.as_str());
        out.append(suffix.as_str());
        out.append(")");
        out.append(key.modifier.as_str());
        proof {
            reveal_strlit("");
        }
        out
    }
}

} // verus!
