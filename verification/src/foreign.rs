//! The calls that the library makes into std functions without a Verus
//! specification and into the `regex` and `serde_json` crates.
//!
//! Each function here is trusted: Verus believes its contract without reading
//! its body. Results that would take pages to describe are given names
//! (`lowercase_of`, `regex_captures_of`, ...) so that the verified code can
//! state exactly what it does with them.
use vstd::prelude::*;
use crate::text::is_ascii_upper;
use crate::utils::encoding_detector::{TextEncoding, encoding_label};
use crate::utils::time_utils::{DAY_FORMAT, DISPLAY_FORMAT};

verus! {

/// `str::to_lowercase` of a string with this view.
pub uninterp spec fn lowercase_of(s: Seq<char>) -> Seq<char>;

/// `str::to_uppercase` of a string with this view.
pub uninterp spec fn uppercase_of(s: Seq<char>) -> Seq<char>;

/// What `regex::Regex::new(pattern)` followed by `captures(text)` yields: `None` when
/// the pattern does not compile or does not match, else every group in order
/// (group 0 being the whole match), `None` for a group that did not participate.
pub uninterp spec fn regex_captures_of(pattern: Seq<char>, text: Seq<char>) -> Option<Seq<Option<Seq<char>>>>;

/// The message of the error that `regex::Regex::new(pattern)` returns, if it fails.
pub uninterp spec fn regex_error_of(pattern: Seq<char>) -> Option<Seq<char>>;

/// What `regex::Regex::new(pattern)` followed by `replace_all(text, rep)` yields; the
/// text itself when the pattern does not compile.
pub uninterp spec fn regex_replaced_all_of(pattern: Seq<char>, text: Seq<char>, rep: Seq<char>) -> Seq<char>;

/// The texts of the matches that `regex::Regex::new(pattern)` followed by
/// `find_iter(text)` yields, in order; empty when the pattern does not compile.
pub uninterp spec fn regex_matches_of(pattern: Seq<char>, text: Seq<char>) -> Seq<Seq<char>>;

/// The characters that have a meaning in a regular expression, as
/// `regex_syntax::is_meta_character` lists them.
pub open spec fn is_regex_meta(c: char) -> bool {
    c == '\\' || c == '.' || c == '+' || c == '*' || c == '?' || c == '(' || c == ')' || c == '|' || c == '['
        || c == ']' || c == '{' || c == '}' || c == '^' || c == '$' || c == '#' || c == '&' || c == '-' || c == '~'
}

/// What `regex::escape(text)` yields: each meta character preceded by a backslash,
/// every other character kept.
pub open spec fn regex_escaped_of(text: Seq<char>) -> Seq<char>
    decreases text.len(),
{
    if text.len() == 0 {
        Seq::empty()
    } else {
        regex_escaped_of(text.drop_last()) + if is_regex_meta(text.last()) {
            seq!['\\', text.last()]
        } else {
            seq![text.last()]
        }
    }
}

/// What `std::path::Path::new(path).extension()` yields, as a string.
pub uninterp spec fn extension_of(path: Seq<char>) -> Option<Seq<char>>;

/// What `regex::Regex::new(pattern)` followed by `replace(text, rep)` yields (the
/// first match replaced); the text itself when the pattern does not compile.
pub uninterp spec fn regex_replaced_of(pattern: Seq<char>, text: Seq<char>, rep: Seq<char>) -> Seq<char>;

/// What `serde_json::from_str::<serde_json::Value>(text)` followed by a lookup of
/// the string member under each key yields: an error message when the text is not
/// JSON, else for each key the member's string value (`None` when the member is
/// absent or not a string, or when the text is not an object).
pub uninterp spec fn json_string_members_of(text: Seq<char>, keys: Seq<Seq<char>>) -> Result<Seq<Option<Seq<char>>>, Seq<char>>;

/// ASCII letters `'A'..='Z'` mapped to lower case, everything else kept.
pub open spec fn ascii_lower_char(c: char) -> char {
    if is_ascii_upper(c) {
        ((c as u32) + 32) as char
    } else {
        c
    }
}

pub open spec fn ascii_lower(s: Seq<char>) -> Seq<char> {
    s.map_values(|c: char| ascii_lower_char(c))
}

pub open spec fn ascii_upper_char(c: char) -> char {
    if 'a' <= c && c <= 'z' {
        ((c as u32) - 32) as char
    } else {
        c
    }
}

pub open spec fn ascii_upper(s: Seq<char>) -> Seq<char> {
    s.map_values(|c: char| ascii_upper_char(c))
}

pub open spec fn all_ascii(s: Seq<char>) -> bool {
    forall|i: int| 0 <= i < s.len() ==> (s[i] as u32) < 0x80
}

/// The view of an optional string.
pub open spec fn opt_view(o: Option<String>) -> Option<Seq<char>> {
    match o {
        Some(s) => Some(s@),
        None => None,
    }
}

/// The view of a list of optional strings (the groups of a match, the members of
/// an object).
pub open spec fn groups_view(v: Seq<Option<String>>) -> Seq<Option<Seq<char>>> {
    v.map_values(|o: Option<String>| opt_view(o))
}

/// The view of what `json_string_members` hands back.
pub open spec fn members_view(r: Result<Vec<Option<String>>, String>) -> Result<Seq<Option<Seq<char>>>, Seq<char>> {
    match r {
        Ok(v) => Ok(groups_view(v@)),
        Err(e) => Err(e@),
    }
}

/// What `serde_json::from_str::<serde_json::Value>(text)` followed by
/// `serde_json::to_string_pretty` yields (the value's compact form, should printing
/// fail): `None` when the text is not JSON.
pub uninterp spec fn json_pretty_of(text: Seq<char>) -> Option<Seq<char>>;

/// What `decode_without_bom_handling` of the `encoding_rs` encoding with this name
/// makes of `bytes`: the text, or `None` when it met malformed sequences.
pub uninterp spec fn clean_decoding_of(bytes: Seq<u8>, encoding_name: Seq<char>) -> Option<Seq<char>>;

/// Decodes `bytes` with `encoding_rs::Encoding::decode_without_bom_handling` of the
/// encoding's static (`UTF_8`, `GBK`, `GB18030`, `UTF_16LE`, `UTF_16BE`) and hands back
/// the text unless the decoder reported malformed sequences. The result is named
/// `clean_decoding_of`. The decoder panics when the size of its buffer overflows
/// `usize`, which the bound on the length rules out.
#[verifier::external_body]
pub(crate) fn decode_clean(bytes: &[u8], encoding: TextEncoding) -> (r: Option<String>)
    requires
        bytes@.len() <= usize::MAX / 8,
    ensures
        opt_view(r) == clean_decoding_of(bytes@, encoding_label(encoding)),
{
    let e = match encoding {
        TextEncoding::Utf8 => encoding_rs::UTF_8,
        TextEncoding::Gbk => encoding_rs::GBK,
        TextEncoding::Gb18030 => encoding_rs::GB18030,
        TextEncoding::Utf16Le => encoding_rs::UTF_16LE,
        TextEncoding::Utf16Be => encoding_rs::UTF_16BE,
    };
    let (text, had_errors) = e.decode_without_bom_handling(bytes);
    if had_errors { None } else { Some(text.into_owned()) }
}

/// The instant that `chrono::DateTime::parse_from_str(text, format)` reads, in
/// milliseconds since the Unix epoch (UTC); `None` when it does not parse.
pub uninterp spec fn parsed_millis_of(text: Seq<char>, format: Seq<char>) -> Option<int>;

/// The text that `chrono::DateTime::<Utc>::from_timestamp_millis(millis)` formatted
/// with `format` gives; `None` when the instant is outside chrono's range.
pub uninterp spec fn formatted_millis_of(millis: int, format: Seq<char>) -> Option<Seq<char>>;

/// Calls `chrono::DateTime::parse_from_str` and takes `timestamp_millis` of the
/// result; the result is named `parsed_millis_of`.
#[verifier::external_body]
pub(crate) fn parse_millis(text: &str, format: &str) -> (r: Option<i64>)
    ensures
        match r {
            Some(m) => parsed_millis_of(text@, format@) == Some(m as int),
            None => parsed_millis_of(text@, format@) is None,
        },
{
    chrono::DateTime::parse_from_str(text, format).ok().map(|d| d.timestamp_millis())
}

/// Calls `chrono::DateTime::from_timestamp_millis` and formats the instant with
/// `DateTime::format(..).to_string()`; the result is named `formatted_millis_of`.
/// Formatting panics on a format string that chrono cannot read, so only the two
/// formats of the library are admitted.
#[verifier::external_body]
pub(crate) fn format_millis(millis: i64, format: &str) -> (r: Option<String>)
    requires
        format@ == DISPLAY_FORMAT@ || format@ == DAY_FORMAT@,
    ensures
        match r {
            Some(t) => formatted_millis_of(millis as int, format@) == Some(t@),
            None => formatted_millis_of(millis as int, format@) is None,
        },
{
    chrono::DateTime::from_timestamp_millis(millis).map(|d| d.format(format).to_string())
}

/// What `decode_without_bom_handling` of the `encoding_rs` encoding with this name
/// makes of `bytes`, malformed sequences replaced by U+FFFD.
pub uninterp spec fn lossy_decoding_of(bytes: Seq<u8>, encoding_name: Seq<char>) -> Seq<char>;

/// Decodes `bytes` with `encoding_rs::Encoding::decode_without_bom_handling` of the
/// encoding's static and keeps the text, whatever the decoder's error flag says; the
/// result is named `lossy_decoding_of`. The bound on the length rules out the
/// decoder's buffer overflow.
#[verifier::external_body]
pub(crate) fn decode_lossy(bytes: &[u8], encoding: TextEncoding) -> (r: String)
    requires
        bytes@.len() <= usize::MAX / 8,
    ensures
        r@ == lossy_decoding_of(bytes@, encoding_label(encoding)),
{
    let e = match encoding {
        TextEncoding::Utf8 => encoding_rs::UTF_8,
        TextEncoding::Gbk => encoding_rs::GBK,
        TextEncoding::Gb18030 => encoding_rs::GB18030,
        TextEncoding::Utf16Le => encoding_rs::UTF_16LE,
        TextEncoding::Utf16Be => encoding_rs::UTF_16BE,
    };
    let (text, _had_errors) = e.decode_without_bom_handling(bytes);
    text.into_owned()
}

/// Reads the system clock with `std::time::SystemTime::now` and converts it to
/// milliseconds since the Unix epoch with `duration_since(UNIX_EPOCH)`; `None` when
/// the clock is set before 1970 or past what an `i64` of milliseconds holds. Of the
/// time read only this is stated: it is not before 1970.
#[verifier::external_body]
pub(crate) fn now_millis() -> (r: Option<i64>)
    ensures
        r matches Some(t) ==> t >= 0,
{
    match std::time::SystemTime::now().duration_since(std::time::UNIX_EPOCH) {
        Ok(d) => i64::try_from(d.as_millis()).ok(),
        Err(_) => None,
    }
}

/// Calls `str::len`, which counts the bytes of the UTF-8 encoding.
#[verifier::external_body]
pub(crate) fn str_len(s: &str) -> (n: usize)
    ensures
        n == crate::text::utf8_len(s@),
{
    s.len()
}

/// Parses `text` with `serde_json::from_str::<serde_json::Value>` and prints the value
/// again with `serde_json::to_string_pretty`, or with `to_string` should that fail;
/// `None` when the text is not JSON. The result is named `json_pretty_of`.
#[verifier::external_body]
pub(crate) fn json_pretty(text: &str) -> (r: Option<String>)
    ensures
        opt_view(r) == json_pretty_of(text@),
{
    match serde_json::from_str::<serde_json::Value>(text) {
        Ok(v) => match serde_json::to_string_pretty(&v) {
            Ok(p) => Some(p),
            Err(_) => Some(v.to_string()),
        },
        Err(_) => None,
    }
}

/// Calls `str::to_lowercase`.
///
/// The contract names its result `lowercase_of` (Unicode case mapping) and states
/// one fact that its documentation gives: on ASCII text it maps `'A'..='Z'` to
/// `'a'..='z'` and keeps every other character.
#[verifier::external_body]
pub(crate) fn to_lowercase(s: &str) -> (r: String)
    ensures
        r@ == lowercase_of(s@),
        all_ascii(s@) ==> r@ == ascii_lower(s@),
{
    s.to_lowercase()
}

/// Calls `str::to_uppercase`.
///
/// The contract names its result `uppercase_of` and states that on ASCII text it
/// maps `'a'..='z'` to `'A'..='Z'` and keeps every other character.
#[verifier::external_body]
pub(crate) fn to_uppercase(s: &str) -> (r: String)
    ensures
        r@ == uppercase_of(s@),
        all_ascii(s@) ==> r@ == ascii_upper(s@),
{
    s.to_uppercase()
}

/// Compiles `pattern` with `regex::Regex::new` and calls `Regex::captures` on `text`,
/// turning each group into an owned string.
///
/// The result is named `regex_captures_of`; the regex documentation also gives that
/// a successful match has at least one group, the whole match, which is present.
#[verifier::external_body]
pub(crate) fn regex_captures(pattern: &str, text: &str) -> (r: Option<Vec<Option<String>>>)
    ensures
        match r {
            Some(v) => regex_captures_of(pattern@, text@) == Some(v@.map_values(|o: Option<String>| opt_view(o)))
                && v@.len() >= 1 && v@[0] is Some,
            None => regex_captures_of(pattern@, text@) is None,
        },
{
    match regex::Regex::new(pattern) {
        Ok(re) => re.captures(text).map(|c| c.iter().map(|m| m.map(|x| x.as_str().to_string())).collect()),
        Err(_) => None,
    }
}

/// Compiles `pattern` with `regex::Regex::new` and hands back the message of the
/// error, if any. The result is named `regex_error_of`.
#[verifier::external_body]
pub(crate) fn regex_compile_error(pattern: &str) -> (r: Option<String>)
    ensures
        match r {
            Some(e) => regex_error_of(pattern@) == Some(e@),
            None => regex_error_of(pattern@) is None,
        },
{
    regex::Regex::new(pattern).err().map(|e| e.to_string())
}

/// Compiles `pattern` with `regex::Regex::new` and calls `Regex::replace` on `text`
/// with the replacement `rep`; the result is named `regex_replaced_of`.
#[verifier::external_body]
pub(crate) fn regex_replace(pattern: &str, text: &str, rep: &str) -> (r: String)
    ensures
        r@ == regex_replaced_of(pattern@, text@, rep@),
{
    match regex::Regex::new(pattern) {
        Ok(re) => re.replace(text, rep).to_string(),
        Err(_) => text.to_string(),
    }
}

/// Compiles `pattern` with `regex::Regex::new` and calls `Regex::replace_all` on
/// `text` with the replacement `rep`; the result is named `regex_replaced_all_of`.
#[verifier::external_body]
pub(crate) fn regex_replace_all(pattern: &str, text: &str, rep: &str) -> (r: String)
    ensures
        r@ == regex_replaced_all_of(pattern@, text@, rep@),
{
    match regex::Regex::new(pattern) {
        Ok(re) => re.replace_all(text, rep).to_string(),
        Err(_) => text.to_string(),
    }
}

/// Compiles `pattern` with `regex::Regex::new` and collects the texts of
/// `Regex::find_iter` on `text`; the result is named `regex_matches_of`.
#[verifier::external_body]
pub(crate) fn regex_find_all(pattern: &str, text: &str) -> (r: Vec<String>)
    ensures
        r@.map_values(|s: String| s@) == regex_matches_of(pattern@, text@),
{
    match regex::Regex::new(pattern) {
        Ok(re) => re.find_iter(text).map(|m| m.as_str().to_string()).collect(),
        Err(_) => Vec::new(),
    }
}

/// Calls `regex::escape`, which (through `regex_syntax::escape_into`) puts a
/// backslash before each meta character and keeps every other character.
#[verifier::external_body]
pub(crate) fn regex_escape(text: &str) -> (r: String)
    ensures
        r@ == regex_escaped_of(text@),
{
    regex::escape(text)
}

/// Calls `std::path::Path::extension` on the path and turns the extension into a
/// string; the result is named `extension_of`.
#[verifier::external_body]
pub(crate) fn path_extension(path: &str) -> (r: Option<String>)
    ensures
        match r {
            Some(e) => extension_of(path@) == Some(e@),
            None => extension_of(path@) is None,
        },
{
    std::path::Path::new(path).extension().and_then(|e| e.to_str()).map(|e| e.to_string())
}

/// Parses `text` with `serde_json::from_str::<serde_json::Value>` and reads the string
/// member under each key with `Value::get` and `Value::as_str`; a parse error becomes
/// its message. The result is named `json_string_members_of`, and on success it holds
/// one entry per key.
#[verifier::external_body]
pub(crate) fn json_string_members(text: &str, keys: &Vec<String>) -> (r: Result<Vec<Option<String>>, String>)
    ensures
        match r {
            Ok(v) => json_string_members_of(text@, keys@.map_values(|k: String| k@)) == Ok::<Seq<Option<Seq<char>>>, Seq<char>>(
                v@.map_values(|o: Option<String>| opt_view(o)),
            ) && v@.len() == keys@.len(),
            Err(e) => json_string_members_of(text@, keys@.map_values(|k: String| k@)) == Err::<Seq<Option<Seq<char>>>, Seq<char>>(e@),
        },
{
    match serde_json::from_str::<serde_json::Value>(text) {
        Ok(v) => Ok(keys.iter().map(|k| v.get(k.as_str()).and_then(|x| x.as_str()).map(|x| x.to_string())).collect()),
        Err(e) => Err(e.to_string()),
    }
}

} // verus!
