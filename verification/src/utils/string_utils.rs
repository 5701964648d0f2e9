//! Cleaning, escaping, cutting and searching strings.
use vstd::prelude::*;
use crate::bytes::{replace_all, replace_str};
use crate::foreign::{
    regex_escape, regex_escaped_of, regex_find_all, regex_matches_of, regex_replace_all, regex_replaced_all_of,
};
use crate::text::{append_str, byte_prefix, chars_of, is_char_boundary, own, string_of, take_bytes, trim, trim_seq, utf8_len, utf8_len_capped};

verus! {

/// String helpers.
pub struct StringUtils;

/// Runs of white space.
pub const WHITESPACE_RUN_PATTERN: &'static str = r"\s+";

/// Balanced braces, possibly holding quoted strings.
pub const JSON_OBJECT_PATTERN: &'static str = r#"\{(?:[^{}]|"[^"]*")*\}"#;

/// An SQL keyword followed by white space (ignoring case).
pub const SQL_STATEMENT_PATTERN: &'static str = r"(?i)(SELECT|INSERT|UPDATE|DELETE|CREATE|DROP|ALTER)\s+.*?;?";

/// The HTML-escaped text: `&`, `<`, `>`, `"` and `'` replaced, `&` first.
pub open spec fn html_escaped(s: Seq<char>) -> Seq<char> {
    let s1 = replace_all(s, "&"@, "&amp;"@);
    let s2 = replace_all(s1, "<"@, "&lt;"@);
    let s3 = replace_all(s2, ">"@, "&gt;"@);
    let s4 = replace_all(s3, "\""@, "&quot;"@);
    replace_all(s4, "'"@, "&#x27;"@)
}

/// `s` when it has at most `max` bytes, else its first `max - 3` bytes (0 when
/// `max` is below 3) and `...`.
pub open spec fn truncated(s: Seq<char>, max: nat) -> Seq<char> {
    if utf8_len(s) <= max {
        s
    } else {
        byte_prefix(s, if max >= 3 {
            max - 3
        } else {
            0
        }) + "..."@
    }
}

/// Every keyword, as a whole word, wrapped in `<mark>` tags, one keyword after the other.
pub open spec fn highlighted(text: Seq<char>, ks: Seq<Seq<char>>) -> Seq<char>
    decreases ks.len(),
{
    if ks.len() == 0 {
        text
    } else {
        let k = ks.last();
        regex_replaced_all_of(
            "\\b"@ + regex_escaped_of(k) + "\\b"@,
            highlighted(text, ks.drop_last()),
            "<mark>"@ + k + "</mark>"@,
        )
    }
}

impl StringUtils {
    /// White space removed from both ends.
    pub fn clean_string(s: &str) -> (r: String)
        ensures
            r@ == trim_seq(s@),
    {
        let c = chars_of(s);
        string_of(&trim(&c))
    }

    /// Every run of white space turned into one space, and the ends trimmed.
    pub fn remove_extra_whitespace(s: &str) -> (r: String)
        ensures
            r@ == trim_seq(regex_replaced_all_of(WHITESPACE_RUN_PATTERN@, s@, " "@)),
    {
        let once = regex_replace_all(WHITESPACE_RUN_PATTERN, s, " ");
        let c = chars_of(once.as_str());
        string_of(&trim(&c))
    }

    /// The text with the HTML special characters escaped.
    pub fn escape_html(s: &str) -> (r: String)
        ensures
            r@ == html_escaped(s@),
    {
        let c = chars_of(s);
        let s1 = replace_str(&c, "&", "&amp;");
        let s2 = replace_str(&s1, "<", "&lt;");
        let s3 = replace_str(&s2, ">", "&gt;");
        let s4 = replace_str(&s3, "\"", "&quot;");
        let s5 = replace_str(&s4, "'", "&#x27;");
        string_of(&s5)
    }

    /// The text cut to `max_length` bytes, the last three of them an ellipsis. The
    /// cut must fall between two characters.
    pub fn truncate_string(s: &str, max_length: usize) -> (r: String)
        requires
            utf8_len(s@) > max_length ==> is_char_boundary(s@, if max_length >= 3 {
                max_length - 3
            } else {
                0
            }),
        ensures
            r@ == truncated(s@, max_length as nat),
    {
        let c = chars_of(s);
        let within = crate::bytes::utf8_len_wide(&c) <= max_length as u128;
        if within {
            own(s)
        } else {
            let keep = if max_length >= 3 {
                max_length - 3
            } else {
                0
            };
            let mut r = take_bytes(&c, keep);
            append_str(&mut r, "...");
            string_of(&r)
        }
    }

    /// Wraps each keyword, as a whole word, in `<mark>` tags.
    pub fn highlight_keywords(text: &str, keywords: &[String]) -> (r: String)
        ensures
            r@ == highlighted(text@, keywords@.map_values(|k: String| k@)),
    {
        let ghost ks = keywords@.map_values(|k: String| k@);
        let mut result = own(text);
        let mut i: usize = 0;
        while i < keywords.len()
            invariant
                i <= keywords@.len(),
                ks == keywords@.map_values(|k: String| k@),
                result@ == highlighted(text@, ks.take(i as int)),
            decreases keywords.len() - i,
        {
            let k = &keywords[i];
            let mut pattern = chars_of("\\b");
            let esc = regex_escape(k.as_str());
            append_str(&mut pattern, esc.as_str());
            append_str(&mut pattern, "\\b");
            let mut replacement = chars_of("<mark>");
            append_str(&mut replacement, k.as_str());
            append_str(&mut replacement, "</mark>");
            let p = string_of(&pattern);
            let rp = string_of(&replacement);
            result = regex_replace_all(p.as_str(), result.as_str(), rp.as_str());
            assert(ks.take(i as int + 1).drop_last() =~= ks.take(i as int));
            assert(ks.take(i as int + 1).last() == k@);
            i = i + 1;
        }
        assert(ks.take(keywords@.len() as int) =~= ks);
        result
    }

    /// The JSON-like objects in the text, in order.
    pub fn extract_json_strings(text: &str) -> (r: Vec<String>)
        ensures
            r@.map_values(|s: String| s@) == regex_matches_of(JSON_OBJECT_PATTERN@, text@),
    {
        regex_find_all(JSON_OBJECT_PATTERN, text)
    }

    /// The SQL statements in the text, in order.
    pub fn extract_sql_statements(text: &str) -> (r: Vec<String>)
        ensures
            r@.map_values(|s: String| s@) == regex_matches_of(SQL_STATEMENT_PATTERN@, text@),
    {
        regex_find_all(SQL_STATEMENT_PATTERN, text)
    }
}

} // verus!
