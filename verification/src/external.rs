//! The calls this library makes into other crates, each with the contract it relies on.
use vstd::prelude::*;
use vstd::utf8::{valid_utf8, decode_utf8};

verus! {

/// The lower-case hexadecimal digit for `n`, which is below 16.
pub open spec fn hex_digit(n: int) -> char {
    if n < 10 {
        (('0' as int) + n) as char
    } else {
        (('a' as int) + (n - 10)) as char
    }
}

/// How one character is written inside a JSON string literal: quote, backslash and the
/// control characters below U+0020 are escaped, every other character stands as it is.
pub open spec fn json_escaped_char(c: char) -> Seq<char> {
    if c == '"' {
        seq!['\\', '"']
    } else if c == '\\' {
        seq!['\\', '\\']
    } else if c == '\u{8}' {
        seq!['\\', 'b']
    } else if c == '\t' {
        seq!['\\', 't']
    } else if c == '\n' {
        seq!['\\', 'n']
    } else if c == '\u{c}' {
        seq!['\\', 'f']
    } else if c == '\r' {
        seq!['\\', 'r']
    } else if (c as int) < 0x20 {
        seq!['\\', 'u', '0', '0', hex_digit((c as int) / 16), hex_digit((c as int) % 16)]
    } else {
        seq![c]
    }
}

/// The characters of `s`, each written as inside a JSON string literal.
pub open spec fn json_escaped(s: Seq<char>) -> Seq<char>
    decreases s.len(),
{
    if s.len() == 0 {
        Seq::empty()
    } else {
        json_escaped(s.drop_last()) + json_escaped_char(s.last())
    }
}

/// `s` written as a JSON string literal, quotes included.
pub open spec fn json_quoted(s: Seq<char>) -> Seq<char> {
    seq!['"'] + json_escaped(s) + seq!['"']
}

/// Calls `serde_json::to_string` on a string slice. Claimed: it succeeds, and its text is `s`
/// quoted, with the escapes of serde_json's `ESCAPE` table (`json_quoted`). It writes into a
/// `Vec`, whose writes do not fail, so serializing a string has no error to give.
#[verifier::external_body]
pub(crate) fn json_string(s: &str) -> (r: Option<String>)
    ensures
        r is Some,
        r matches Some(j) ==> j@ == json_quoted(s@),
{
    match serde_json::to_string(s) {
        Ok(j) => Some(j),
        Err(_) => None,
    }
}

/// What the path of a URI is, as `http::Uri` parses `s` and gives its `path()`: `None` where
/// `s` is no URI.
pub uninterp spec fn uri_path_of(s: Seq<char>) -> Option<Seq<char>>;

/// Parses `s` as an `http::Uri` (its `FromStr` impl) and, when that succeeds, takes
/// `Uri::path`. Claimed: the result is a function of the characters of `s` (`uri_path_of`).
/// Nothing is claimed of which strings parse or of what their paths are.
#[verifier::external_body]
pub(crate) fn uri_path(s: &str) -> (r: Option<String>)
    ensures
        match r {
            Some(p) => uri_path_of(s@) == Some(p@),
            None => uri_path_of(s@) is None,
        },
{
    match s.parse::<http::Uri>() {
        Ok(uri) => Some(uri.path().to_string()),
        Err(_) => None,
    }
}

/// What `regex::Regex::new(pattern)` and then `Regex::replace(haystack, rep)` give: `None`
/// where the pattern does not compile.
pub uninterp spec fn regex_replaced(pattern: Seq<char>, haystack: Seq<char>, rep: Seq<char>) -> Option<Seq<char>>;

/// An ASCII letter or digit, which a regex matches as itself.
pub open spec fn is_ascii_alnum(c: char) -> bool {
    ('a' <= c <= 'z') || ('A' <= c <= 'Z') || ('0' <= c <= '9')
}

/// A pattern made of a short run of ASCII letters and digits followed by `$`: it matches that
/// run where it ends the haystack, and nowhere else.
pub open spec fn is_literal_suffix_pattern(pattern: Seq<char>) -> bool {
    &&& 2 <= pattern.len() <= 64
    &&& pattern.last() == '$'
    &&& forall|i: int| 0 <= i < pattern.len() - 1 ==> is_ascii_alnum(#[trigger] pattern[i])
}

/// A replacement with no `$`, which therefore names no group and stands for itself.
pub open spec fn no_group_reference(rep: Seq<char>) -> bool {
    !rep.contains('$')
}

/// `s` ends with `suffix`.
pub open spec fn ends_with(s: Seq<char>, suffix: Seq<char>) -> bool {
    suffix.len() <= s.len() && s.subrange(s.len() - suffix.len(), s.len() as int) == suffix
}

/// `s` with `suffix` at its end replaced by `rep`, or `s` itself where it does not end with it.
pub open spec fn replace_suffix(s: Seq<char>, suffix: Seq<char>, rep: Seq<char>) -> Seq<char> {
    if ends_with(s, suffix) {
        s.subrange(0, s.len() - suffix.len()) + rep
    } else {
        s
    }
}

/// Compiles `pattern` with `regex::Regex::new` and, when that succeeds, replaces the leftmost
/// match in `haystack` with `rep` by `Regex::replace`. Claimed: the result is a function of the
/// three strings (`regex_replaced`); and, as the crate documents for its syntax (letters and
/// digits match themselves, `$` matches only at the end of the haystack when multi-line mode is
/// off, `$` in the replacement names a group), a pattern of letters and digits followed by `$`
/// compiles, and with a replacement free of `$` the result is the haystack with that run
/// replaced where it ends the haystack.
#[verifier::external_body]
pub(crate) fn regex_replace(pattern: &str, haystack: &str, rep: &str) -> (r: Option<String>)
    ensures
        match r {
            Some(t) => regex_replaced(pattern@, haystack@, rep@) == Some(t@),
            None => regex_replaced(pattern@, haystack@, rep@) is None,
        },
        r is None ==> !(is_literal_suffix_pattern(pattern@) && no_group_reference(rep@)),
        r matches Some(t) ==> (is_literal_suffix_pattern(pattern@) && no_group_reference(rep@) ==> t@ == replace_suffix(haystack@, pattern@.drop_last(), rep@)),
{
    match regex::Regex::new(pattern) {
        Ok(re) => Some(re.replace(haystack, rep).into_owned()),
        Err(_) => None,
    }
}

/// What `str::to_lowercase` gives for a string whose characters are `s`.
pub uninterp spec fn lowercase_of(s: Seq<char>) -> Seq<char>;

/// Calls `str::to_lowercase`. Claimed: the result is a function of the characters of `s`
/// (`lowercase_of`); the Unicode case mapping itself is not stated.
#[verifier::external_body]
pub(crate) fn to_lowercase(s: &str) -> (r: String)
    ensures
        r@ == lowercase_of(s@),
{
    s.to_lowercase()
}

/// Calls `std::str::from_utf8` and copies the text it gives. Claimed, as its documentation
/// says: it succeeds exactly on valid UTF-8 (`valid_utf8`), and the text is then the characters
/// that the bytes encode (`decode_utf8`).
#[verifier::external_body]
pub(crate) fn utf8_text(bytes: &[u8]) -> (r: Option<String>)
    ensures
        r is Some <==> valid_utf8(bytes@),
        r matches Some(t) ==> t@ == decode_utf8(bytes@),
{
    std::str::from_utf8(bytes).ok().map(|t| t.to_string())
}

} // verus!
