//! Segments of a parsed path pattern, the compile options, and the
//! compiler from segments to a regular expression.
use vstd::prelude::*;
use crate::path::{Encode, no_encode, escape, escape_string};
use crate::path::token::{DEFAULT_PREFIX, DEFAULT_DELIMITER};
use crate::path::key::{Key, KeyView, KeyToRegex, key_to_regexp_gen, key_regex, segment_pattern_of, is_char_text};
use crate::pattern::{Pattern, regex_builds};

verus! {

/// How a path pattern is compiled.
pub struct CompileOptions {
    pub delimiter: String,
    pub prefixes: String,
    pub encode_path: Encode,
    pub sensitive: bool,
    pub end: bool,
    pub start: bool,
    pub trailing: bool,
}

impl CompileOptions {
    /// Prefixes "./", delimiter "/", no encoding, anchored at start and end,
    /// a trailing delimiter allowed, case-insensitive.
    pub fn default() -> (opts: CompileOptions)
        ensures
            opts.prefixes@ == DEFAULT_PREFIX@,
            opts.delimiter@ == DEFAULT_DELIMITER@,
            opts.encode_path == no_encode,
            opts.end,
            opts.start,
            opts.trailing,
            !opts.sensitive,
    {
        CompileOptions {
            prefixes: String::from_str(DEFAULT_PREFIX),
            delimiter: String::from_str(DEFAULT_DELIMITER),
            encode_path: no_encode,
            end: true,
            start: true,
            trailing: true,
            sensitive: false,
        }
    }

    /// The given options, each missing one as in `default`.
    pub fn new(
        prefixes: Option<String>,
        delimiter: Option<String>,
        encode_path: Option<Encode>,
        start: Option<bool>,
        end: Option<bool>,
        trailing: Option<bool>,
        sensitive: Option<bool>,
    ) -> (opts: CompileOptions)
        ensures
            opts.prefixes@ == (match prefixes { Some(p) => p@, None => DEFAULT_PREFIX@ }),
            opts.delimiter@ == (match delimiter { Some(d) => d@, None => DEFAULT_DELIMITER@ }),
            opts.encode_path == (match encode_path { Some(e) => e, None => no_encode }),
            opts.start == (match start { Some(b) => b, None => true }),
            opts.end == (match end { Some(b) => b, None => true }),
            opts.trailing == (match trailing { Some(b) => b, None => true }),
            opts.sensitive == (match sensitive { Some(b) => b, None => false }),
    {
        CompileOptions {
            prefixes: match prefixes {
                Some(p) => p,
                None => String::from_str(DEFAULT_PREFIX),
            },
            delimiter: match delimiter {
                Some(d) => d,
                None => String::from_str(DEFAULT_DELIMITER),
            },
            encode_path: match encode_path {
                Some(e) => e,
                None => no_encode,
            },
            start: match start {
                Some(b) => b,
                None => true,
            },
            end: match end {
                Some(b) => b,
                None => true,
            },
            trailing: match trailing {
                Some(b) => b,
                None => true,
            },
            sensitive: match sensitive {
                Some(b) => b,
                None => false,
            },
        }
    }
}

/// A parsed piece of a path pattern: a parameter or an escaped static text.
pub enum Segment {
    Key(Key),
    Str(String),
}

/// A segment as a mathematical value.
pub enum SegmentView {
    Key(KeyView),
    Str(Seq<char>),
}

pub open spec fn segment_view(s: Segment) -> SegmentView {
    match s {
        Segment::Key(k) => SegmentView::Key(k@),
        Segment::Str(s) => SegmentView::Str(s@),
    }
}

pub open spec fn segments_view(s: Seq<Segment>) -> Seq<SegmentView> {
    s.map_values(|x: Segment| segment_view(x))
}

/// The key that `Segment::new` makes: prefix and suffix default to empty,
/// and a key repeated with `*` or `+` is separated by its prefix followed
/// by its suffix, or by the delimiter when it has no suffix.
pub open spec fn key_segment(
    delimiter: Seq<char>,
    name: Seq<char>,
    pattern: Option<Seq<char>>,
    prefix: Option<Seq<char>>,
    suffix: Option<Seq<char>>,
    modifier: Option<Seq<char>>,
) -> SegmentView {
    let prefix = match prefix { Some(p) => p, None => seq![] };
    let suffix = match suffix { Some(s) => s, None => seq![] };
    let modifier = match modifier { Some(m) => m, None => seq![] };
    let pattern = match pattern { Some(p) => p, None => seq![] };
    let separator = if modifier == seq!['*'] || modifier == seq!['+'] {
        Some(prefix + if suffix.len() > 0 { suffix } else { delimiter })
    } else {
        None
    };
    SegmentView::Key(KeyView { name, prefix, suffix, pattern, modifier, separator })
}

fn unwrap_or_empty(o: Option<String>) -> (s: String)
    ensures
        s@ == (match o { Some(v) => v@, None => seq![] }),
{
    match o {
        Some(v) => v,
        None => {
            let s = String::new();
            s
        },
    }
}

impl Segment {
    /// The key segment of a parameter.
    pub fn new(
        encode: Encode,
        delimiter: String,
        name: String,
        pattern: Option<String>,
        input_prefix: Option<String>,
        input_suffix: Option<String>,
        modifier: Option<String>,
    ) -> (s: Segment)
        ensures
            segment_view(s) == key_segment(
                delimiter@,
                name@,
                crate::path::key::opt_view(pattern),
                crate::path::key::opt_view(input_prefix),
                crate::path::key::opt_view(input_suffix),
                crate::path::key::opt_view(modifier),
            ),
    {
        let prefix = encode.apply(unwrap_or_empty(input_prefix));
        let suffix = encode.apply(unwrap_or_empty(input_suffix));
        let modifier = unwrap_or_empty(modifier);
        let pattern = unwrap_or_empty(pattern);

        let separator: Option<String> = if is_char_text(modifier.as_str(), '*') || is_char_text(modifier.as_str(), '+') {
            let postfix: String = if !suffix.as_str().is_empty() {
                suffix.clone()
            } else {
                delimiter
            };
            let mut sep = prefix.clone();
            sep.append(postfix.as_str());
            Some(sep)
        } else {
            None
        };
        Segment::Key(Key { name, prefix, suffix, separator, modifier, pattern })
    }
}

/// What the parser produces: the segments and the delimiter.
pub struct RegexData {
    pub tokens: Vec<Segment>,
    pub delimiter: String,
}

/// The text of the segments in order: static texts as they are, keys as
/// their regular expressions.
pub open spec fn segments_regex(segment_pattern: Seq<char>, segs: Seq<SegmentView>) -> Seq<char>
    decreases segs.len(),
{
    if segs.len() == 0 {
        seq![]
    } else {
        segments_regex(segment_pattern, segs.drop_last()) + match segs.last() {
            SegmentView::Str(s) => s,
            SegmentView::Key(k) => key_regex(segment_pattern, k),
        }
    }
}

/// The keys that have a name, in order.
pub open spec fn named_keys(segs: Seq<SegmentView>) -> Seq<KeyView>
    decreases segs.len(),
{
    if segs.len() == 0 {
        seq![]
    } else {
        named_keys(segs.drop_last()) + match segs.last() {
            SegmentView::Key(k) => if k.name.len() > 0 { seq![k] } else { seq![] },
            SegmentView::Str(_) => seq![],
        }
    }
}

/// The source of the regular expression that `compile` builds.
pub open spec fn compiled_source(
    delimiter: Seq<char>,
    segs: Seq<SegmentView>,
    start: bool,
    trailing: bool,
    end: bool,
) -> Seq<char> {
    (if start { "^"@ } else { seq![] })
        + segments_regex(segment_pattern_of(delimiter), segs)
        + (if trailing { "(?:"@ + escape_string(delimiter) + ")?"@ } else { seq![] })
        + (if end { "$"@ } else { "(?="@ + escape_string(delimiter) + "|$)"@ })
}

/// The views of a list of keys.
pub open spec fn keys_view(keys: Seq<Key>) -> Seq<KeyView> {
    keys.map_values(|k: Key| k@)
}

/// Compiles parsed segments to a regular expression, appending the keys that
/// have a name to `keys`; the expression ignores case unless the options
/// are `sensitive`. Fails exactly when the `regex` crate refuses the
/// expression.
pub fn compile(data: RegexData, keys: &mut Vec<Key>, options: &CompileOptions) -> (r: Result<Pattern, regex::Error>)
    ensures
        keys_view(final(keys)@) == keys_view(old(keys)@) + named_keys(segments_view(data.tokens@)),
        r.is_ok() == regex_builds(
            compiled_source(data.delimiter@, segments_view(data.tokens@), options.start, options.trailing, options.end),
            !options.sensitive,
        ),
        r matches Ok(p) ==> p@ == (
            compiled_source(data.delimiter@, segments_view(data.tokens@), options.start, options.trailing, options.end),
            !options.sensitive,
        ),
{
    let mut key_to_regexp = key_to_regexp_gen(data.delimiter.clone());
    let ghost segs = segments_view(data.tokens@);
    let ghost seg_pat = segment_pattern_of(data.delimiter@);
    let ghost keys0 = keys_view(keys@);
    let mut pattern = String::new();
    if options.start {
        pattern.append("^");
    }
    proof {
        reveal_strlit("");
        assert(segs.subrange(0, 0) =~= Seq::<SegmentView>::empty());
    }
    let ghost head = pattern@;
    proof {
        assert(head == (if options.start { "^"@ } else { Seq::<char>::empty() }));
    }
    let mut i: usize = 0;
    while i < data.tokens.len()
        invariant
            i <= data.tokens@.len(),
            segs == segments_view(data.tokens@),
            key_to_regexp@ == seg_pat,
            seg_pat == segment_pattern_of(data.delimiter@),
            pattern@ == head + segments_regex(seg_pat, segs.subrange(0, i as int)),
            keys_view(keys@) == keys0 + named_keys(segs.subrange(0, i as int)),
        decreases data.tokens@.len() - i,
    {
        let ghost before = pattern@;
        let ghost keys_before = keys_view(keys@);
        proof {
            assert(segs.subrange(0, i + 1).drop_last() =~= segs.subrange(0, i as int));
            assert(segs.subrange(0, i + 1).last() == segment_view(data.tokens@[i as int]));
        }
        match &data.tokens[i] {
            Segment::Str(s) => {
                pattern.append(s.as_str());
                proof {
                    assert(keys_view(keys@) =~= keys_before + Seq::<KeyView>::empty());
                }
            },
            Segment::Key(token) => {
                if !token.name.as_str().is_empty() {
                    keys.push(token.duplicate());
                    proof {
                        assert(keys_view(keys@) =~= keys_before + seq![token@]);
                    }
                } else {
                    proof {
                        assert(keys_view(keys@) =~= keys_before + Seq::<KeyView>::empty());
                    }
                }
                let regex = key_to_regexp.call(token.duplicate());
                pattern.append(regex.as_str());
            },
        }
        proof {
            assert(pattern@ =~= head + segments_regex(seg_pat, segs.subrange(0, i + 1)));
        }
        i = i + 1;
    }
    proof {
        assert(segs.subrange(0, data.tokens@.len() as int) =~= segs);
    }
    if options.trailing {
        pattern.append("(?:");
        pattern.append(escape(data.delimiter.clone()).as_str());
        pattern.append(")?");
    }
    if options.end {
        pattern.append("$");
    } else {
        pattern.append("(?=");
        pattern.append(escape(data.delimiter.clone()).as_str());
        pattern.append("|$)");
    }
    proof {
        assert(pattern@ =~= compiled_source(data.delimiter@, segs, options.start, options.trailing, options.end));
    }
    Pattern::new(pattern.as_str(), !options.sensitive)
}

} // verus!
