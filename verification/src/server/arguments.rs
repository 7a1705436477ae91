//! Server options: from the command line (`key=value` arguments) and from a
//! configuration file (`key = value` lines), the command line first.
use vstd::prelude::*;
use crate::json::{trim, trim_bounds, ascii_lower};
use crate::text::{first_index_from, lemma_first_index_bounds, find_from, chars_of, string_from_range};

verus! {

/// The options of a server; an option not given is left to the server.
pub struct ServerOpts {
    pub port: Option<u16>,
    pub hostname: Option<String>,
    pub threads: Option<usize>,
}

/// The options given on the command line.
pub struct CommandLineArguments {
    pub port: Option<u16>,
    pub hostname: Option<String>,
    pub threads: Option<usize>,
    pub config: Option<String>,
}

/// Options as mathematical values.
pub struct OptsView {
    pub port: Option<u16>,
    pub hostname: Option<Seq<char>>,
    pub threads: Option<usize>,
    pub config: Option<Seq<char>>,
}

pub open spec fn opt_string(o: Option<String>) -> Option<Seq<char>> {
    match o {
        Some(s) => Some(s@),
        None => None,
    }
}

pub open spec fn opts_view(o: ServerOpts) -> OptsView {
    OptsView { port: o.port, hostname: opt_string(o.hostname), threads: o.threads, config: None }
}

pub open spec fn args_view(a: CommandLineArguments) -> OptsView {
    OptsView { port: a.port, hostname: opt_string(a.hostname), threads: a.threads, config: opt_string(a.config) }
}

impl ServerOpts {
    /// All three options.
    pub fn new(hostname: String, port: u16, threads: usize) -> (o: ServerOpts)
        ensures
            opts_view(o) == (OptsView { port: Some(port), hostname: Some(hostname@), threads: Some(threads), config: None }),
    {
        ServerOpts { hostname: Some(hostname), port: Some(port), threads: Some(threads) }
    }

    /// Only the host name.
    pub fn hostname(value: String) -> (o: ServerOpts)
        ensures
            opts_view(o) == (OptsView { port: None, hostname: Some(value@), threads: None, config: None }),
    {
        ServerOpts { hostname: Some(value), threads: None, port: None }
    }

    /// Only the port.
    pub fn port(value: u16) -> (o: ServerOpts)
        ensures
            opts_view(o) == (OptsView { port: Some(value), hostname: None, threads: None, config: None }),
    {
        ServerOpts { hostname: None, threads: None, port: Some(value) }
    }

    /// Only the number of threads.
    pub fn threads(value: usize) -> (o: ServerOpts)
        ensures
            opts_view(o) == (OptsView { port: None, hostname: None, threads: Some(value), config: None }),
    {
        ServerOpts { hostname: None, threads: Some(value), port: None }
    }

    /// No option.
    pub fn none() -> (o: ServerOpts)
        ensures
            opts_view(o) == (OptsView { port: None, hostname: None, threads: None, config: None }),
    {
        ServerOpts { port: None, hostname: None, threads: None }
    }
}

/// Whether every character is an ASCII digit.
pub open spec fn all_digit_chars(d: Seq<char>) -> bool {
    forall|i: int| 0 <= i < d.len() ==> '0' <= #[trigger] d[i] <= '9'
}

/// The value of a run of decimal digit characters.
pub open spec fn digit_chars_value(d: Seq<char>) -> nat
    decreases d.len(),
{
    if d.len() == 0 {
        0
    } else {
        digit_chars_value(d.drop_last()) * 10 + ((d.last() as u32) - 48) as nat
    }
}

/// The number that a text spells as `str::parse` reads an unsigned
/// integer no greater than `max`: an optional `+`, then one or more
/// decimal digits.
pub open spec fn spec_unsigned(t: Seq<char>, max: nat) -> Option<nat> {
    let d = if t.len() > 0 && t[0] == '+' { t.drop_first() } else { t };
    if d.len() > 0 && all_digit_chars(d) && digit_chars_value(d) <= max {
        Some(digit_chars_value(d))
    } else {
        None
    }
}

proof fn lemma_digit_prefix(d: Seq<char>, i: int)
    requires
        0 <= i < d.len(),
    ensures
        d.subrange(0, i + 1).drop_last() == d.subrange(0, i),
        d.subrange(0, i + 1).last() == d[i],
{
    assert(d.subrange(0, i + 1).drop_last() =~= d.subrange(0, i));
}

/// The number that `t` spells, if it is no greater than `max`.
fn parse_unsigned(t: &Vec<char>, max: u64) -> (r: Option<u64>)
    requires
        max >= 9,
    ensures
        match spec_unsigned(t@, max as nat) {
            Some(n) => r == Some(n as u64),
            None => r is None,
        },
{
    let n = t.len();
    let mut i: usize = 0;
    if n > 0 && t[0] == '+' {
        i = 1;
    }
    let ghost d = if t@.len() > 0 && t@[0] == '+' { t@.drop_first() } else { t@ };
    let first = i;
    if first >= n {
        return None;
    }
    let mut acc: u64 = 0;
    let mut over = false;
    while i < n
        invariant
            n == t@.len(),
            max >= 9,
            first <= i <= n,
            first < n,
            d == t@.subrange(first as int, n as int),
            d == (if t@.len() > 0 && t@[0] == '+' { t@.drop_first() } else { t@ }),
            all_digit_chars(d.subrange(0, i - first)),
            over == (digit_chars_value(d.subrange(0, i - first)) > max),
            !over ==> acc == digit_chars_value(d.subrange(0, i - first)),
        decreases n - i,
    {
        let c = t[i];
        if c < '0' || c > '9' {
            proof {
                assert(d[i - first] == c);
                assert(!all_digit_chars(d));
            }
            return None;
        }
        let ghost k = i - first;
        proof {
            lemma_digit_prefix(d, k);
            assert(d.subrange(0, k + 1)[k] == c);
            assert forall|j: int| 0 <= j < k + 1 implies '0' <= #[trigger] d.subrange(0, k + 1)[j] <= '9' by {
                if j < k {
                    assert(d.subrange(0, k + 1)[j] == d.subrange(0, k)[j]);
                }
            }
        }
        let digit = (c as u32 - 48) as u64;
        if !over {
            if acc > (max - digit) / 10 {
                proof {
                    assert(acc * 10 + digit > max) by (nonlinear_arith)
                        requires acc > (max - digit) / 10, digit <= 9, max >= 0;
                }
                over = true;
            } else {
                proof {
                    assert(acc * 10 + digit <= max) by (nonlinear_arith)
                        requires acc <= (max - digit) / 10, digit <= 9, digit <= max;
                }
                acc = acc * 10 + digit;
            }
        } else {
            proof {
                assert(digit_chars_value(d.subrange(0, k + 1)) >= digit_chars_value(d.subrange(0, k)) * 10);
                assert(digit_chars_value(d.subrange(0, k)) * 10 >= digit_chars_value(d.subrange(0, k))) by (nonlinear_arith)
                    requires digit_chars_value(d.subrange(0, k)) >= 0;
            }
        }
        i = i + 1;
    }
    proof {
        assert(d.subrange(0, n - first) =~= d);
    }
    if over {
        None
    } else {
        Some(acc)
    }
}

/// Why command-line arguments are refused: an argument that is not one of
/// `port`, `hostname`, `config` and `threads` (the text shown), or a
/// number that does not read as one (the argument's key and value).
pub enum ArgumentError {
    UnknownArgument(String),
    InvalidNumber(String, String),
}

/// An argument error as a mathematical value.
pub enum ArgumentErrorView {
    UnknownArgument(Seq<char>),
    InvalidNumber(Seq<char>, Seq<char>),
}

pub open spec fn argument_error_view(e: ArgumentError) -> ArgumentErrorView {
    match e {
        ArgumentError::UnknownArgument(s) => ArgumentErrorView::UnknownArgument(s@),
        ArgumentError::InvalidNumber(k, v) => ArgumentErrorView::InvalidNumber(k@, v@),
    }
}

pub open spec fn word_port() -> Seq<char> {
    seq!['p', 'o', 'r', 't']
}

pub open spec fn word_hostname() -> Seq<char> {
    seq!['h', 'o', 's', 't', 'n', 'a', 'm', 'e']
}

pub open spec fn word_config() -> Seq<char> {
    seq!['c', 'o', 'n', 'f', 'i', 'g']
}

pub open spec fn word_threads() -> Seq<char> {
    seq!['t', 'h', 'r', 'e', 'a', 'd', 's']
}

/// The options after one command-line argument `key=value` (the key in
/// any case); an argument without `=` is refused when `strict` and passed
/// over otherwise.
pub open spec fn apply_argument(a: Seq<char>, o: OptsView, strict: bool) -> Result<OptsView, ArgumentErrorView> {
    match first_index_from(a, '=', 0) {
        None => if strict { Err(ArgumentErrorView::UnknownArgument(a)) } else { Ok(o) },
        Some(i) => {
            let key = ascii_lower(a.subrange(0, i as int));
            let value = a.subrange((i + 1) as int, a.len() as int);
            if key == word_port() {
                match spec_unsigned(value, 65535) {
                    Some(n) => Ok(OptsView { port: Some(n as u16), ..o }),
                    None => Err(ArgumentErrorView::InvalidNumber(key, value)),
                }
            } else if key == word_hostname() {
                Ok(OptsView { hostname: Some(value), ..o })
            } else if key == word_config() {
                Ok(OptsView { config: Some(value), ..o })
            } else if key == word_threads() {
                match spec_unsigned(value, usize::MAX as nat) {
                    Some(n) => Ok(OptsView { threads: Some(n as usize), ..o }),
                    None => Err(ArgumentErrorView::InvalidNumber(key, value)),
                }
            } else {
                Err(ArgumentErrorView::UnknownArgument(key))
            }
        },
    }
}

/// The options that a list of command-line arguments gives, read in order,
/// a later argument overriding an earlier one; or the first refusal.
pub open spec fn arguments_spec(args: Seq<Seq<char>>, strict: bool) -> Result<OptsView, ArgumentErrorView>
    decreases args.len(),
{
    if args.len() == 0 {
        Ok(OptsView { port: None, hostname: None, threads: None, config: None })
    } else {
        match arguments_spec(args.drop_last(), strict) {
            Err(e) => Err(e),
            Ok(o) => apply_argument(args.last(), o, strict),
        }
    }
}

pub open spec fn strings_view(v: Seq<String>) -> Seq<Seq<char>> {
    v.map_values(|s: String| s@)
}

pub open spec fn arguments_result_view(r: Result<CommandLineArguments, ArgumentError>) -> Result<OptsView, ArgumentErrorView> {
    match r {
        Ok(a) => Ok(args_view(a)),
        Err(e) => Err(argument_error_view(e)),
    }
}

fn lower_chars(c: &Vec<char>, from: usize, to: usize) -> (r: Vec<char>)
    requires
        from <= to <= c@.len(),
    ensures
        r@ == ascii_lower(c@.subrange(from as int, to as int)),
{
    let mut r: Vec<char> = Vec::new();
    let mut i = from;
    while i < to
        invariant
            from <= i <= to <= c@.len(),
            r@ == ascii_lower(c@.subrange(from as int, i as int)),
        decreases to - i,
    {
        let ch = c[i];
        let l = if 'A' <= ch && ch <= 'Z' { ((ch as u8) + 32) as char } else { ch };
        r.push(l);
        i = i + 1;
        proof {
            assert(r@ =~= ascii_lower(c@.subrange(from as int, i as int)));
        }
    }
    r
}

fn chars_are(c: &Vec<char>, word: &[char]) -> (r: bool)
    ensures
        r == (c@ == word@),
{
    if c.len() != word.len() {
        return false;
    }
    let mut i: usize = 0;
    while i < word.len()
        invariant
            c@.len() == word@.len(),
            i <= word@.len(),
            forall|j: int| 0 <= j < i ==> c@[j] == word@[j],
        decreases word@.len() - i,
    {
        if c[i] != word[i] {
            return false;
        }
        i = i + 1;
    }
    proof {
        assert(c@ =~= word@);
    }
    true
}

fn range_vec(c: &Vec<char>, from: usize, to: usize) -> (r: Vec<char>)
    requires
        from <= to <= c@.len(),
    ensures
        r@ == c@.subrange(from as int, to as int),
{
    let mut r: Vec<char> = Vec::new();
    let mut i = from;
    while i < to
        invariant
            from <= i <= to <= c@.len(),
            r@ == c@.subrange(from as int, i as int),
        decreases to - i,
    {
        r.push(c[i]);
        i = i + 1;
        proof {
            assert(r@ =~= c@.subrange(from as int, i as int));
        }
    }
    r
}

fn apply_argument_exec(arg: &String, o: CommandLineArguments, strict: bool) -> (r: Result<CommandLineArguments, ArgumentError>)
    ensures
        arguments_result_view(r) == apply_argument(arg@, args_view(o), strict),
{
    let c = chars_of(arg.as_str());
    let n = c.len();
    proof {
        lemma_first_index_bounds(c@, '=', 0);
    }
    match find_from(&c, '=', 0) {
        None => {
            if strict {
                Err(ArgumentError::UnknownArgument(arg.clone()))
            } else {
                Ok(o)
            }
        },
        Some(i) => {
            let key = lower_chars(&c, 0, i);
            let value = range_vec(&c, i + 1, n);
            proof {
                assert(key@.subrange(0, key@.len() as int) =~= key@);
                assert(value@.subrange(0, value@.len() as int) =~= value@);
            }
            let w_port = ['p', 'o', 'r', 't'];
            let w_hostname = ['h', 'o', 's', 't', 'n', 'a', 'm', 'e'];
            let w_config = ['c', 'o', 'n', 'f', 'i', 'g'];
            let w_threads = ['t', 'h', 'r', 'e', 'a', 'd', 's'];
            proof {
                assert(w_port@ =~= word_port());
                assert(w_hostname@ =~= word_hostname());
                assert(w_config@ =~= word_config());
                assert(w_threads@ =~= word_threads());
            }
            if chars_are(&key, &w_port) {
                match parse_unsigned(&value, 65535) {
                    Some(p) => Ok(CommandLineArguments { port: Some(p as u16), ..o }),
                    None => Err(ArgumentError::InvalidNumber(
                        string_from_range(key.as_slice(), 0, key.len()),
                        string_from_range(value.as_slice(), 0, value.len()),
                    )),
                }
            } else if chars_are(&key, &w_hostname) {
                Ok(CommandLineArguments { hostname: Some(string_from_range(value.as_slice(), 0, value.len())), ..o })
            } else if chars_are(&key, &w_config) {
                Ok(CommandLineArguments { config: Some(string_from_range(value.as_slice(), 0, value.len())), ..o })
            } else if chars_are(&key, &w_threads) {
                match parse_unsigned(&value, usize::MAX as u64) {
                    Some(t) => Ok(CommandLineArguments { threads: Some(t as usize), ..o }),
                    None => Err(ArgumentError::InvalidNumber(
                        string_from_range(key.as_slice(), 0, key.len()),
                        string_from_range(value.as_slice(), 0, value.len()),
                    )),
                }
            } else {
                Err(ArgumentError::UnknownArgument(string_from_range(key.as_slice(), 0, key.len())))
            }
        },
    }
}

fn read_arguments(args: &Vec<String>, strict: bool) -> (r: Result<CommandLineArguments, ArgumentError>)
    ensures
        arguments_result_view(r) == arguments_spec(strings_view(args@), strict),
{
    let mut o = CommandLineArguments { port: None, hostname: None, threads: None, config: None };
    let mut i: usize = 0;
    while i < args.len()
        invariant
            i <= args@.len(),
            arguments_spec(strings_view(args@.subrange(0, i as int)), strict) == Ok::<OptsView, ArgumentErrorView>(args_view(o)),
        decreases args@.len() - i,
    {
        proof {
            let next = strings_view(args@.subrange(0, i + 1));
            assert(next.drop_last() =~= strings_view(args@.subrange(0, i as int)));
            assert(next.last() == args@[i as int]@);
        }
        match apply_argument_exec(&args[i], o, strict) {
            Ok(next) => o = next,
            Err(e) => {
                proof {
                    let p = strings_view(args@);
                    lemma_arguments_fail_prefix(p, (i + 1) as nat, strict);
                    assert(p.subrange(0, i + 1) =~= strings_view(args@.subrange(0, i + 1)));
                }
                return Err(e);
            },
        }
        i = i + 1;
    }
    proof {
        assert(args@.subrange(0, args@.len() as int) =~= args@);
    }
    Ok(o)
}

/// A refusal of the first `k` arguments is the refusal of them all.
proof fn lemma_arguments_fail_prefix(args: Seq<Seq<char>>, k: nat, strict: bool)
    requires
        k <= args.len(),
        arguments_spec(args.subrange(0, k as int), strict) is Err,
    ensures
        arguments_spec(args, strict) == arguments_spec(args.subrange(0, k as int), strict),
    decreases args.len() - k,
{
    if k < args.len() {
        let longer = args.subrange(0, (k + 1) as int);
        assert(longer.drop_last() =~= args.subrange(0, k as int));
        lemma_arguments_fail_prefix(args, k + 1, strict);
    } else {
        assert(args.subrange(0, k as int) =~= args);
    }
}

/// The options given on a command line (`key=value` arguments, the key in
/// any case); an argument without `=` is passed over.
pub fn get_arguments(args: &Vec<String>) -> (r: Result<CommandLineArguments, ArgumentError>)
    ensures
        arguments_result_view(r) == arguments_spec(strings_view(args@), false),
{
    read_arguments(args, false)
}

/// The options given on a command line (`key=value` arguments, the key in
/// any case); an argument without `=` is refused.
pub fn get_cmd_line_args(args: &Vec<String>) -> (r: Result<CommandLineArguments, ArgumentError>)
    ensures
        arguments_result_view(r) == arguments_spec(strings_view(args@), true),
{
    read_arguments(args, true)
}

/// The options after one configuration line `key = value`: the key and
/// the value are the texts before the first `=` and between it and the
/// next, trimmed; a value that does not read as the option's number is
/// passed over, and so is an unknown key.
pub open spec fn apply_line(l: Seq<char>, o: OptsView) -> OptsView {
    let key = match first_index_from(l, '=', 0) {
        Some(i) => trim(l.subrange(0, i as int)),
        None => trim(l),
    };
    let value = match first_index_from(l, '=', 0) {
        Some(i) => {
            let end = match first_index_from(l, '=', i + 1) {
                Some(j) => j,
                None => l.len(),
            };
            trim(l.subrange((i + 1) as int, end as int))
        },
        None => seq![],
    };
    if key == word_port() {
        match spec_unsigned(value, 65535) {
            Some(n) => OptsView { port: Some(n as u16), ..o },
            None => o,
        }
    } else if key == word_hostname() {
        OptsView { hostname: Some(value), ..o }
    } else if key == word_threads() {
        match spec_unsigned(value, usize::MAX as nat) {
            Some(n) => OptsView { threads: Some(n as usize), ..o },
            None => o,
        }
    } else {
        o
    }
}

/// The options that the lines of a configuration text (split at `\n`)
/// give, read in order from the options `o`.
pub open spec fn config_spec(c: Seq<char>, o: OptsView) -> OptsView
    decreases c.len(),
{
    match first_index_from(c, '\n', 0) {
        None => apply_line(c, o),
        Some(i) => {
            proof {
                lemma_first_index_bounds(c, '\n', 0);
            }
            config_spec(c.subrange((i + 1) as int, c.len() as int), apply_line(c.subrange(0, i as int), o))
        },
    }
}

fn trimmed_vec(c: &Vec<char>, from: usize, to: usize) -> (r: Vec<char>)
    requires
        from <= to <= c@.len(),
    ensures
        r@ == trim(c@.subrange(from as int, to as int)),
{
    let part = range_vec(c, from, to);
    let (a, b) = trim_bounds(&part);
    range_vec(&part, a, b)
}

fn apply_line_exec(c: &Vec<char>, from: usize, to: usize, o: ServerOpts) -> (r: ServerOpts)
    requires
        from <= to <= c@.len(),
    ensures
        opts_view(r) == apply_line(c@.subrange(from as int, to as int), opts_view(o)),
{
    let l = range_vec(c, from, to);
    let n = l.len();
    proof {
        lemma_first_index_bounds(l@, '=', 0);
        assert(l@.subrange(0, n as int) =~= l@);
    }
    let (key, value) = match find_from(&l, '=', 0) {
        None => (trimmed_vec(&l, 0, n), Vec::new()),
        Some(i) => {
            proof {
                lemma_first_index_bounds(l@, '=', (i + 1) as nat);
            }
            let end = match find_from(&l, '=', i + 1) {
                Some(j) => j,
                None => n,
            };
            (trimmed_vec(&l, 0, i), trimmed_vec(&l, i + 1, end))
        },
    };
    proof {
        assert(value@.subrange(0, value@.len() as int) =~= value@);
        if first_index_from(l@, '=', 0) is None {
            assert(value@ =~= Seq::<char>::empty());
        }
    }
    let w_port = ['p', 'o', 'r', 't'];
    let w_hostname = ['h', 'o', 's', 't', 'n', 'a', 'm', 'e'];
    let w_threads = ['t', 'h', 'r', 'e', 'a', 'd', 's'];
    proof {
        assert(w_port@ =~= word_port());
        assert(w_hostname@ =~= word_hostname());
        assert(w_threads@ =~= word_threads());
    }
    if chars_are(&key, &w_port) {
        match parse_unsigned(&value, 65535) {
            Some(p) => ServerOpts { port: Some(p as u16), ..o },
            None => o,
        }
    } else if chars_are(&key, &w_hostname) {
        ServerOpts { hostname: Some(string_from_range(value.as_slice(), 0, value.len())), ..o }
    } else if chars_are(&key, &w_threads) {
        match parse_unsigned(&value, usize::MAX as u64) {
            Some(t) => ServerOpts { threads: Some(t as usize), ..o },
            None => o,
        }
    } else {
        o
    }
}

/// The options that a configuration text gives: one `key = value` per
/// line, for the keys `port`, `hostname` and `threads`; a later line
/// overrides an earlier one, and other lines are passed over.
pub fn parse_config(buffer: &str) -> (o: ServerOpts)
    ensures
        opts_view(o) == config_spec(buffer@, OptsView { port: None, hostname: None, threads: None, config: None }),
{
    let c = chars_of(buffer);
    let n = c.len();
    let mut o = ServerOpts { port: None, hostname: None, threads: None };
    let mut start: usize = 0;
    let ghost init = OptsView { port: None, hostname: None, threads: None, config: None };
    proof {
        assert(c@.subrange(0, n as int) =~= c@);
    }
    loop
        invariant
            n == c@.len(),
            c@ == buffer@,
            init == (OptsView { port: None, hostname: None, threads: None, config: None }),
            start <= n,
            config_spec(c@, init) == config_spec(c@.subrange(start as int, n as int), opts_view(o)),
        decreases n - start,
    {
        let ghost rest = c@.subrange(start as int, n as int);
        proof {
            lemma_first_index_bounds(c@, '\n', start as nat);
            lemma_first_index_bounds(rest, '\n', 0);
        }
        match find_from(&c, '\n', start) {
            None => {
                proof {
                    assert(first_index_from(rest, '\n', 0) is None) by {
                        if first_index_from(rest, '\n', 0) is Some {
                            let k = first_index_from(rest, '\n', 0).unwrap();
                            assert(c@[start + k] == '\n');
                        }
                    }
                }
                let r = apply_line_exec(&c, start, n, o);
                return r;
            },
            Some(i) => {
                proof {
                    let k = (i - start) as nat;
                    assert(rest[k as int] == '\n');
                    assert(first_index_from(rest, '\n', 0) == Some(k)) by {
                        lemma_first_is(rest, '\n', k);
                    }
                    assert(rest.subrange(0, k as int) =~= c@.subrange(start as int, i as int));
                    assert(rest.subrange((k + 1) as int, rest.len() as int) =~= c@.subrange(i + 1, n as int));
                }
                o = apply_line_exec(&c, start, i, o);
                start = i + 1;
            },
        }
    }
}

/// The first `x` in `c` is at `k` where `c[k]` is `x` and no `x` comes
/// before it.
proof fn lemma_first_is(c: Seq<char>, x: char, k: nat)
    requires
        k < c.len(),
        c[k as int] == x,
        forall|j: int| 0 <= j < k ==> c[j] != x,
    ensures
        first_index_from(c, x, 0) == Some(k),
{
    lemma_first_from(c, x, 0, k);
}

proof fn lemma_first_from(c: Seq<char>, x: char, i: nat, k: nat)
    requires
        i <= k < c.len(),
        c[k as int] == x,
        forall|j: int| i <= j < k ==> c[j] != x,
    ensures
        first_index_from(c, x, i) == Some(k),
    decreases k - i,
{
    if i < k {
        lemma_first_from(c, x, i + 1, k);
    }
}

/// The options of the command line, each missing one taken from the
/// configuration file where it gives one.
pub fn merge_options(args: CommandLineArguments, file: Option<ServerOpts>) -> (o: ServerOpts)
    ensures
        match file {
            Some(f) => opts_view(o) == (OptsView {
                port: if args.port is Some { args.port } else { f.port },
                hostname: if args.hostname is Some { opt_string(args.hostname) } else { opt_string(f.hostname) },
                threads: if args.threads is Some { args.threads } else { f.threads },
                config: None,
            }),
            None => opts_view(o) == (OptsView { port: args.port, hostname: opt_string(args.hostname), threads: args.threads, config: None }),
        },
{
    match file {
        Some(f) => ServerOpts {
            port: match args.port { Some(p) => Some(p), None => f.port },
            hostname: match args.hostname { Some(h) => Some(h), None => f.hostname },
            threads: match args.threads { Some(t) => Some(t), None => f.threads },
        },
        None => ServerOpts { port: args.port, hostname: args.hostname, threads: args.threads },
    }
}

} // verus!
