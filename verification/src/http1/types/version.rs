//! The version of a request line (RFC 2616, section 3.1):
//! `HTTP-Version = "HTTP" "/" 1*DIGIT "." 1*DIGIT`.
use vstd::prelude::*;
use crate::http1::types::tokens::{Text, Tokens, TokenView, Seperator, tokenize, tokenize_spec, tokens_view, token_view};
use crate::http_types::version::{Version, version_string};
use crate::http1::types::tokens::{ascii_bytes, is_plain, separator_of, lemma_tokenize_text_sep, lemma_tokenize_final_text};
use crate::text::{spec_decimal, digit_char};

verus! {

/// Whether a byte is `c` in either case, for an ASCII letter `c` given in
/// upper case.
pub open spec fn is_letter(b: u8, c: u8) -> bool {
    b == c || b == c + 32
}

/// Whether a text reads `HTTP` in any mix of cases.
pub open spec fn is_http(t: Seq<u8>) -> bool {
    t.len() == 4 && is_letter(t[0], 72) && is_letter(t[1], 84) && is_letter(t[2], 84) && is_letter(t[3], 80)
}

/// Whether a byte is an ASCII digit.
pub open spec fn is_digit(b: u8) -> bool {
    48 <= b <= 57
}

/// The version that the tokens `t` spell: the text `HTTP` (in any case),
/// `/`, and a text that starts with a digit, a dot and a digit.
pub open spec fn version_spec(t: Seq<TokenView>) -> Option<Version> {
    if t.len() < 3 {
        None
    } else {
        match (t[0], t[1], t[2]) {
            (TokenView::Text(h), TokenView::Seperator(Seperator::ForwardSlash), TokenView::Text(v)) =>
                if is_http(h) && v.len() >= 3 && is_digit(v[0]) && v[1] == 46 && is_digit(v[2]) {
                    Some(Version { major: (v[0] - 48) as u8, minor: (v[2] - 48) as u8 })
                } else {
                    None
                },
            _ => None,
        }
    }
}

fn http_word(t: &Text) -> (r: bool)
    ensures
        r == is_http(t@),
{
    let b = t.as_bytes();
    b.len() == 4 && (b[0] == 72 || b[0] == 104) && (b[1] == 84 || b[1] == 116)
        && (b[2] == 84 || b[2] == 116) && (b[3] == 80 || b[3] == 112)
}

/// The version that a text spells: `HTTP/major.minor` with one digit each.
pub fn parse_version(text: &Text) -> (r: Result<Version, ()>)
    ensures
        match version_spec(tokenize_spec(text@)) {
            Some(v) => r == Ok::<Version, ()>(v),
            None => r is Err,
        },
{
    proof {
        text.lemma_bytes_are_view();
    }
    let list = tokenize(text);
    if list.len() < 3 {
        return Err(());
    }
    proof {
        assert(tokens_view(list@)[0] == token_view(list@[0]));
        assert(tokens_view(list@)[1] == token_view(list@[1]));
        assert(tokens_view(list@)[2] == token_view(list@[2]));
    }
    match &list[0] {
        Tokens::Text(http) => {
            if !http_word(http) {
                return Err(());
            }
        },
        Tokens::Seperator(_) => return Err(()),
    }
    match &list[1] {
        Tokens::Seperator(sep) => {
            if *sep != Seperator::ForwardSlash {
                return Err(());
            }
        },
        Tokens::Text(_) => return Err(()),
    }
    let version = match &list[2] {
        Tokens::Text(t) => t.as_bytes(),
        Tokens::Seperator(_) => return Err(()),
    };
    if version.len() < 3 {
        return Err(());
    }
    let a = version[0];
    let dot = version[1];
    let b = version[2];
    if a < 48 || a > 57 || dot != 46 || b < 48 || b > 57 {
        return Err(());
    }
    Ok(Version { major: a - 48, minor: b - 48 })
}

/// Writing a version out and reading it back gives the version, for
/// versions whose numbers have one digit each.
pub proof fn lemma_version_round_trip(v: Version)
    requires
        v.major <= 9,
        v.minor <= 9,
    ensures
        version_spec(tokenize_spec(ascii_bytes(version_string(v)))) == Some(v),
{
    let b = ascii_bytes(version_string(v));
    let ma = (48 + v.major) as u8;
    let mi = (48 + v.minor) as u8;
    assert(spec_decimal(v.major as nat) == seq![digit_char(v.major as nat)]);
    assert(spec_decimal(v.minor as nat) == seq![digit_char(v.minor as nat)]);
    assert((digit_char(v.major as nat) as u8) == ma);
    assert((digit_char(v.minor as nat) as u8) == mi);
    assert(b =~= seq![72u8, 84u8, 84u8, 80u8, 47u8, ma, 46u8, mi]);
    let empty = Seq::<TokenView>::empty();
    assert(separator_of(b[4]) == Some(Seperator::ForwardSlash));
    lemma_tokenize_text_sep(b, 0, 4, empty);
    let t1 = empty.push(TokenView::Text(b.subrange(0, 4))).push(TokenView::Seperator(Seperator::ForwardSlash));
    assert forall|k: int| 5 <= k < b.len() implies is_plain(#[trigger] b[k]) by {
    }
    lemma_tokenize_final_text(b, 5, t1);
    let t = tokenize_spec(b);
    assert(b.subrange(0, 4) =~= seq![72u8, 84u8, 84u8, 80u8]);
    assert(b.subrange(5, 8) =~= seq![ma, 46u8, mi]);
    assert(t[0] == TokenView::Text(seq![72u8, 84u8, 84u8, 80u8]));
    assert(t[2] == TokenView::Text(seq![ma, 46u8, mi]));
}

} // verus!
