//! The unified display format shared by the single-format parsers:
//! `TIMESTAMP [LEVEL] (thread) [TAGS] message`.
use vstd::prelude::*;
use crate::foreign::{lowercase_of, uppercase_of, to_lowercase, to_uppercase};
use crate::metadata::Metadata;
use crate::text::{append, before_char, byte_suffix, chars_of, contains, contains_char, decimal, decimal_string, eq_str, find, find_seq, is_ascii_digit, join, join_parts, lemma_index_of, lemma_utf8_len_le, lower, own, skip_bytes, slice, slice_from, starts_with, string_of, take_before_char, trim, trim_seq, trim_start, trim_start_seq, upper, utf8_len, utf8_len_capped};

verus! {

/// A log line in the unified format.
#[derive(Debug, Clone)]
pub struct UnifiedLogFormat {
    /// ISO-like timestamp cut to whole seconds.
    pub timestamp: Option<String>,
    pub level: Option<String>,
    pub thread: Option<String>,
    /// Logger or source name.
    pub source: Option<String>,
    pub message: String,
    pub metadata: Metadata,
    pub raw_content: String,
}

/// Builds the unified format and its display string.
pub struct UnifiedFormatter;

// ---------------------------------------------------------------------------
// Specification
// ---------------------------------------------------------------------------

/// All trailing `c` removed.
pub open spec fn trim_end_char_seq(s: Seq<char>, c: char) -> Seq<char>
    decreases s.len(),
{
    if s.len() > 0 && s.last() == c {
        trim_end_char_seq(s.drop_last(), c)
    } else {
        s
    }
}

/// The timestamp cut to whole seconds (`...T08:00:07.890Z` becomes `...T08:00:07`,
/// `... 08:00:07,890` becomes `... 08:00:07`); `None` when what is left is shorter
/// than 16 bytes.
pub open spec fn normalized_timestamp(ts: Option<Seq<char>>) -> Option<Seq<char>> {
    match ts {
        None => None,
        Some(raw) => {
            let t = trim_seq(raw);
            let n = if t.contains('T') {
                trim_end_char_seq(before_char(t, '.'), 'Z')
            } else if t.contains('-') && t.contains(':') {
                if t.contains('.') {
                    before_char(t, '.')
                } else {
                    before_char(t, ',')
                }
            } else {
                t
            };
            if utf8_len(n) >= 16 {
                Some(n)
            } else {
                None
            }
        },
    }
}

/// The level family of an upper-case level name.
pub open spec fn level_family(u: Seq<char>) -> Seq<char> {
    if u == "ERROR"@ || u == "ERR"@ || u == "FATAL"@ || u == "SEVERE"@ {
        "ERROR"@
    } else if u == "WARN"@ || u == "WARNING"@ || u == "ALERT"@ {
        "WARN"@
    } else if u == "INFO"@ || u == "INFORMATION"@ || u == "NOTE"@ {
        "INFO"@
    } else if u == "DEBUG"@ || u == "TRACE"@ || u == "VERBOSE"@ {
        "DEBUG"@
    } else {
        u
    }
}

pub open spec fn normalized_level(level: Option<Seq<char>>) -> Option<Seq<char>> {
    match level {
        None => None,
        Some(l) => Some(level_family(uppercase_of(l))),
    }
}

/// The prefixes that `extract_message` strips, in the order it tries them.
pub open spec fn message_prefixes() -> Seq<Seq<char>> {
    seq![
        "ERROR:"@, "Error:"@, "WARN:"@, "Warning:"@, "WARN"@, "INFO:"@, "Info:"@,
        "DEBUG:"@, "Debug:"@, "TRACE:"@, "Trace:"@, "FATAL:"@, "Fatal:"@,
        "SEVERE:"@, "Severe:"@, "CRITICAL:"@, "Critical:"@
    ]
}

/// `c` with the first prefix of `ps` (compared after lower-casing both) and the
/// white space after it removed.
pub open spec fn strip_first_prefix(c: Seq<char>, ps: Seq<Seq<char>>) -> Seq<char>
    decreases ps.len(),
{
    if ps.len() == 0 {
        c
    } else if lowercase_of(ps[0]).is_prefix_of(lowercase_of(c)) {
        trim_start_seq(byte_suffix(c, utf8_len(ps[0]) as int))
    } else {
        strip_first_prefix(c, ps.drop_first())
    }
}

pub open spec fn is_level_word(w: Seq<char>) -> bool {
    w == "ERROR"@ || w == "WARN"@ || w == "INFO"@ || w == "DEBUG"@ || w == "TRACE"@ || w == "FATAL"@
}

/// The character indices of the spaces in `s`.
pub open spec fn space_positions(s: Seq<char>) -> Seq<int>
    decreases s.len(),
{
    if s.len() == 0 {
        Seq::empty()
    } else if s.last() == ' ' {
        space_positions(s.drop_last()).push(s.len() - 1)
    } else {
        space_positions(s.drop_last())
    }
}

/// The end of a leading timestamp, searched from the space `sp[i]` on.
pub open spec fn scan_time_end(c: Seq<char>, sp: Seq<int>, i: int) -> Option<int>
    decreases sp.len() - i,
{
    if i >= sp.len() || i < 0 {
        None
    } else {
        let pe = sp[i] + 1;
        let after = c.skip(pe);
        let fw = before_char(after, ' ');
        if utf8_len(after) >= 4 && is_level_word(fw) {
            Some(pe + fw.len() + 1)
        } else if !(after.len() > 0 && is_ascii_digit(after[0])) {
            Some(pe)
        } else {
            scan_time_end(c, sp, i + 1)
        }
    }
}

/// Where the message starts after a leading timestamp, as a character index (may be
/// past the end).
pub open spec fn time_end(c: Seq<char>) -> Option<int> {
    let sp = space_positions(c);
    if sp.len() == 0 {
        None
    } else if sp.len() == 1 {
        Some(sp[0] + 1)
    } else if sp.len() == 2 {
        Some(sp[1] + 1)
    } else if sp.len() == 3 {
        let after = c.skip(sp[2] + 1);
        let fw = before_char(after, ' ');
        if utf8_len(after) >= 4 && is_level_word(fw) {
            Some(sp[2] + 1 + fw.len() + 1)
        } else {
            Some(sp[2] + 1)
        }
    } else {
        scan_time_end(c, sp, 2)
    }
}

pub open spec fn char_at_is(c: Seq<char>, i: int, x: char) -> bool {
    0 <= i < c.len() && c[i] == x
}

/// Whether `c` starts like a date followed by a time.
pub open spec fn looks_timestamped(c: Seq<char>) -> bool {
    &&& (char_at_is(c, 4, '-') || char_at_is(c, 4, '/') || char_at_is(c, 2, '.'))
    &&& (c.contains('T') || (utf8_len(c) >= 11 && char_at_is(c, 10, ' ')) || char_at_is(c, 13, ' '))
}

/// `c` without a leading timestamp (and level word).
pub open spec fn without_leading_timestamp(c: Seq<char>) -> Seq<char> {
    if utf8_len(c) < 19 || !looks_timestamped(c) {
        c
    } else {
        match time_end(c) {
            Some(e) => if e < c.len() {
                trim_start_seq(c.skip(e))
            } else {
                c
            },
            None => c,
        }
    }
}

/// The value of `key` in a metadata map, if present.
pub open spec fn meta_get(m: Map<Seq<char>, Seq<char>>, key: Seq<char>) -> Option<Seq<char>> {
    if m.contains_key(key) {
        Some(m[key])
    } else {
        None
    }
}

/// The main message of a log line.
pub open spec fn extracted_message(content: Seq<char>, m: Map<Seq<char>, Seq<char>>) -> Seq<char> {
    let cleaned = strip_first_prefix(trim_seq(content), message_prefixes());
    let body = if meta_get(m, "type"@) == Some("sql_prepare"@) {
        match find_seq(cleaned, "Preparing:"@) {
            Some(i) => cleaned.skip(i),
            None => cleaned,
        }
    } else if meta_get(m, "type"@) == Some("sql_parameters"@) {
        match find_seq(cleaned, "Parameters:"@) {
            Some(i) => cleaned.skip(i),
            None => cleaned,
        }
    } else if meta_get(m, "type"@) == Some("stacktrace"@) {
        cleaned
    } else {
        without_leading_timestamp(cleaned)
    };
    trim_seq(body)
}

/// `[` + `s` + `]`.
pub open spec fn bracketed(s: Seq<char>) -> Seq<char> {
    seq!['['] + s + seq![']']
}

/// Tags derived from the metadata: the stream in upper case, and a marker per
/// line type.
pub open spec fn metadata_tags(m: Map<Seq<char>, Seq<char>>) -> Seq<Seq<char>> {
    let stream_tag: Seq<Seq<char>> = match meta_get(m, "stream"@) {
        Some(s) => seq![bracketed(uppercase_of(s))],
        None => Seq::empty(),
    };
    let type_tag: Seq<Seq<char>> = match meta_get(m, "type"@) {
        Some(t) => if t == "sql_prepare"@ {
            seq!["[SQL]"@]
        } else if t == "sql_parameters"@ {
            seq!["[PARAMS]"@]
        } else if t == "sql_updates"@ {
            seq!["[UPDATE]"@]
        } else if t == "stacktrace"@ {
            seq!["[STACK]"@]
        } else {
            Seq::empty()
        },
        None => Seq::empty(),
    };
    stream_tag + type_tag
}

pub open spec fn opt_part(o: Option<Seq<char>>) -> Seq<Seq<char>> {
    match o {
        Some(s) => seq![s],
        None => Seq::empty(),
    }
}

/// The parts of the display string, in order.
pub open spec fn display_parts(
    timestamp: Option<Seq<char>>,
    level: Option<Seq<char>>,
    thread: Option<Seq<char>>,
    m: Map<Seq<char>, Seq<char>>,
    message: Seq<char>,
) -> Seq<Seq<char>> {
    let ts = opt_part(timestamp);
    let lv = match level {
        Some(l) => seq![bracketed(l)],
        None => Seq::<Seq<char>>::empty(),
    };
    let th = match thread {
        Some(t) => if utf8_len(t) <= 20 {
            seq![seq!['('] + t + seq![')']]
        } else {
            Seq::<Seq<char>>::empty()
        },
        None => Seq::<Seq<char>>::empty(),
    };
    ts + lv + th + metadata_tags(m) + seq![message]
}

pub open spec fn display_string(f: UnifiedLogFormat) -> Seq<char> {
    join(
        display_parts(
            opt_view_of(f.timestamp),
            opt_view_of(f.level),
            opt_view_of(f.thread),
            f.metadata@,
            f.message@,
        ),
        " "@,
    )
}

pub open spec fn opt_view_of(o: Option<String>) -> Option<Seq<char>> {
    match o {
        Some(s) => Some(s@),
        None => None,
    }
}

// ---------------------------------------------------------------------------
// Helpers
// ---------------------------------------------------------------------------

pub(crate) fn opt_chars(o: &Option<String>) -> (r: Option<Vec<char>>)
    ensures
        match r {
            Some(v) => o is Some && v@ == o->0@,
            None => o is None,
        },
{
    match o {
        Some(s) => Some(chars_of(s.as_str())),
        None => None,
    }
}

pub(crate) fn wrap(open: char, s: &Vec<char>, close: char) -> (r: Vec<char>)
    ensures
        r@ == seq![open] + s@ + seq![close],
{
    let mut r: Vec<char> = Vec::new();
    r.push(open);
    append(&mut r, s);
    r.push(close);
    assert(r@ =~= seq![open] + s@ + seq![close]);
    r
}

pub(crate) fn push_part(parts: &mut Vec<Vec<char>>, p: Vec<char>)
    ensures
        final(parts)@.map_values(|v: Vec<char>| v@) == old(parts)@.map_values(|v: Vec<char>| v@).push(p@),
{
    parts.push(p);
    assert(parts@.map_values(|v: Vec<char>| v@) =~= old(parts)@.map_values(|v: Vec<char>| v@).push(p@));
}

fn find_space_positions(c: &Vec<char>) -> (r: Vec<usize>)
    ensures
        r@.map_values(|x: usize| x as int) == space_positions(c@),
        forall|k: int| 0 <= k < r@.len() ==> r@[k] < c@.len(),
{
    let mut r: Vec<usize> = Vec::new();
    let mut i: usize = 0;
    assert(c@.take(0) =~= Seq::<char>::empty());
    while i < c.len()
        invariant
            i <= c.len(),
            r@.map_values(|x: usize| x as int) == space_positions(c@.take(i as int)),
            forall|k: int| 0 <= k < r@.len() ==> r@[k] < i,
        decreases c.len() - i,
    {
        assert(c@.take(i as int + 1).drop_last() =~= c@.take(i as int));
        if c[i] == ' ' {
            r.push(i);
            assert(r@.map_values(|x: usize| x as int) =~= space_positions(c@.take(i as int)).push(i as int));
        }
        i = i + 1;
    }
    assert(c@.take(c.len() as int) =~= c@);
    r
}

fn is_level_word_exec(w: &Vec<char>) -> (b: bool)
    ensures
        b == is_level_word(w@),
{
    eq_str(w, "ERROR") || eq_str(w, "WARN") || eq_str(w, "INFO") || eq_str(w, "DEBUG")
        || eq_str(w, "TRACE") || eq_str(w, "FATAL")
}

/// After the space before `pe`: the position after a level word that follows, if
/// the rest has at least four bytes and starts with such a word (capped at the length).
fn level_word_end(content: &Vec<char>, pe: usize) -> (r: Option<usize>)
    requires
        pe <= content@.len(),
    ensures
        ({
            let after = content@.skip(pe as int);
            let fw = before_char(after, ' ');
            let t = pe + fw.len() + 1;
            match r {
                Some(e) => utf8_len(after) >= 4 && is_level_word(fw) && e == (if t < content@.len() { t } else { content@.len() as int }),
                None => !(utf8_len(after) >= 4 && is_level_word(fw)),
            }
        }),
{
    let clen = content.len();
    let after = slice_from(content, pe);
    let fw = take_before_char(&after, ' ');
    proof {
        lemma_index_of(after@, ' ');
    }
    if utf8_len_capped(&after, 4) >= 4 && is_level_word_exec(&fw) {
        assert(fw@.len() <= after@.len());
        assert(pe + fw@.len() <= clen);
        let end = pe + fw.len();
        if end < content.len() {
            Some(end + 1)
        } else {
            Some(content.len())
        }
    } else {
        None
    }
}

/// `scan_time_end` from the `i`-th space on.
fn scan_from(content: &Vec<char>, sp: &Vec<usize>, i0: usize) -> (r: Option<usize>)
    requires
        sp@.map_values(|x: usize| x as int) == space_positions(content@),
        forall|k: int| 0 <= k < sp@.len() ==> sp@[k] < content@.len(),
    ensures
        match r {
            Some(e) => scan_time_end(content@, space_positions(content@), i0 as int) matches Some(t)
                && e == (if t < content@.len() { t } else { content@.len() as int }),
            None => scan_time_end(content@, space_positions(content@), i0 as int) is None,
        },
{
    let ghost spv = sp@.map_values(|x: usize| x as int);
    let clen = content.len();
    let mut i: usize = i0;
    while i < sp.len()
        invariant
            i0 <= i,
            spv == sp@.map_values(|x: usize| x as int),
            spv == space_positions(content@),
            forall|k: int| 0 <= k < sp@.len() ==> sp@[k] < content@.len(),
            clen == content@.len(),
            scan_time_end(content@, spv, i0 as int) == scan_time_end(content@, spv, i as int),
        decreases sp.len() - i,
    {
        let p = sp[i];
        assert(spv[i as int] == p);
        assert(p < content@.len());
        let pe = p + 1;
        match level_word_end(content, pe) {
            Some(e) => {
                return Some(e);
            },
            None => {},
        }
        if !(pe < content.len() && is_ascii_digit_exec(content[pe])) {
            assert(pe < content@.len() ==> content@.skip(pe as int)[0] == content@[pe as int]);
            return Some(pe);
        }
        assert(content@.skip(pe as int)[0] == content@[pe as int]);
        i = i + 1;
    }
    None
}

pub(crate) fn trim_end_char(s: &Vec<char>, c: char) -> (r: Vec<char>)
    ensures
        r@ == trim_end_char_seq(s@, c),
{
    let mut j: usize = s.len();
    assert(s@.take(s.len() as int) =~= s@);
    while j > 0 && s[j - 1] == c
        invariant
            j <= s.len(),
            trim_end_char_seq(s@, c) == trim_end_char_seq(s@.take(j as int), c),
        decreases j,
    {
        assert(s@.take(j as int).drop_last() =~= s@.take(j as int - 1));
        j = j - 1;
    }
    assert(s@.subrange(0, j as int) =~= s@.take(j as int));
    slice(s, 0, j)
}

fn is_ascii_digit_exec(c: char) -> (b: bool)
    ensures
        b == is_ascii_digit(c),
{
    '0' <= c && c <= '9'
}

fn char_at_is_exec(c: &Vec<char>, i: usize, x: char) -> (b: bool)
    ensures
        b == char_at_is(c@, i as int, x),
{
    i < c.len() && c[i] == x
}

impl UnifiedFormatter {
    /// Builds the unified format of one line.
    ///
    /// The metadata is copied and extended with `processed_by` (the plugin name)
    /// and `line_number`; the thread comes from the `thread` entry, the source from
    /// `logger` or else `source`.
    pub fn format_log_line(
        line_number: usize,
        content: &str,
        level: Option<String>,
        timestamp: Option<String>,
        metadata: &Metadata,
        plugin_name: &str,
    ) -> (r: UnifiedLogFormat)
        requires
            metadata.wf(),
        ensures
            r.metadata.wf(),
            r.metadata@ == metadata@.insert("processed_by"@, plugin_name@).insert("line_number"@, decimal(line_number as nat)),
            opt_view_of(r.timestamp) == normalized_timestamp(opt_view_of(timestamp)),
            opt_view_of(r.level) == normalized_level(opt_view_of(level)),
            opt_view_of(r.thread) == meta_get(metadata@, "thread"@),
            opt_view_of(r.source) == (if metadata@.contains_key("logger"@) {
                meta_get(metadata@, "logger"@)
            } else {
                meta_get(metadata@, "source"@)
            }),
            r.message@ == extracted_message(content@, metadata@),
            r.raw_content@ == content@,
    {
        let mut unified_metadata = metadata.copy();
        unified_metadata.insert_str("processed_by", own(plugin_name));
        unified_metadata.insert_str("line_number", decimal_string(line_number));
        let thread = match metadata.get("thread") {
            Some(t) => Some(t.clone()),
            None => None,
        };
        let source = match metadata.get("logger") {
            Some(l) => Some(l.clone()),
            None => match metadata.get("source") {
                Some(s) => Some(s.clone()),
                None => None,
            },
        };
        UnifiedLogFormat {
            timestamp: Self::normalize_timestamp(timestamp),
            level: Self::normalize_level(level),
            thread,
            source,
            message: Self::extract_message(content, metadata),
            metadata: unified_metadata,
            raw_content: own(content),
        }
    }

    /// The display string: timestamp, `[LEVEL]`, `(thread)` when the thread name
    /// has at most 20 bytes, the metadata tags, and the message, separated by spaces.
    pub fn format_display_string(format: &UnifiedLogFormat) -> (r: String)
        requires
            format.metadata.wf(),
        ensures
            r@ == display_string(*format),
    {
        let mut parts: Vec<Vec<char>> = Vec::new();
        if let Some(ts) = opt_chars(&format.timestamp) {
            push_part(&mut parts, ts);
        }
        if let Some(l) = opt_chars(&format.level) {
            push_part(&mut parts, wrap('[', &l, ']'));
        }
        if let Some(t) = opt_chars(&format.thread) {
            if utf8_len_capped(&t, 21) <= 20 {
                push_part(&mut parts, wrap('(', &t, ')'));
            }
        }
        Self::add_metadata_tags(&mut parts, &format.metadata);
        push_part(&mut parts, chars_of(format.message.as_str()));
        let joined = join_parts(&parts, " ");
        proof {
            let ghost ts = opt_part(opt_view_of(format.timestamp));
            assert(parts@.map_values(|v: Vec<char>| v@) =~= display_parts(
                opt_view_of(format.timestamp),
                opt_view_of(format.level),
                opt_view_of(format.thread),
                format.metadata@,
                format.message@,
            ));
        }
        string_of(&joined)
    }

    /// Cuts a timestamp to whole seconds (see `normalized_timestamp`).
    pub fn normalize_timestamp(timestamp: Option<String>) -> (r: Option<String>)
        ensures
            opt_view_of(r) == normalized_timestamp(opt_view_of(timestamp)),
    {
        match timestamp {
            None => None,
            Some(ts) => {
                let raw = chars_of(ts.as_str());
                let t = trim(&raw);
                let n = if contains_char(&t, 'T') {
                    let w = take_before_char(&t, '.');
                    trim_end_char(&w, 'Z')
                } else if contains_char(&t, '-') && contains_char(&t, ':') {
                    if contains_char(&t, '.') {
                        take_before_char(&t, '.')
                    } else {
                        take_before_char(&t, ',')
                    }
                } else {
                    t
                };
                if utf8_len_capped(&n, 16) >= 16 {
                    Some(string_of(&n))
                } else {
                    None
                }
            },
        }
    }

    /// Maps a level to its family `ERROR`, `WARN`, `INFO` or `DEBUG`, or else to its
    /// upper-case form.
    pub fn normalize_level(level: Option<String>) -> (r: Option<String>)
        ensures
            opt_view_of(r) == normalized_level(opt_view_of(level)),
    {
        match level {
            None => None,
            Some(l) => {
                let u = chars_of(to_uppercase(l.as_str()).as_str());
                let fam = if eq_str(&u, "ERROR") || eq_str(&u, "ERR") || eq_str(&u, "FATAL") || eq_str(&u, "SEVERE") {
                    own("ERROR")
                } else if eq_str(&u, "WARN") || eq_str(&u, "WARNING") || eq_str(&u, "ALERT") {
                    own("WARN")
                } else if eq_str(&u, "INFO") || eq_str(&u, "INFORMATION") || eq_str(&u, "NOTE") {
                    own("INFO")
                } else if eq_str(&u, "DEBUG") || eq_str(&u, "TRACE") || eq_str(&u, "VERBOSE") {
                    own("DEBUG")
                } else {
                    string_of(&u)
                };
                Some(fam)
            },
        }
    }

    /// The main message of a line (see `extracted_message`).
    pub fn extract_message(content: &str, metadata: &Metadata) -> (r: String)
        requires
            metadata.wf(),
        ensures
            r@ == extracted_message(content@, metadata@),
    {
        let raw = chars_of(content);
        let trimmed = trim(&raw);
        let cleaned = Self::strip_level_prefix(&trimmed);
        let ty = metadata.get("type");
        let body = match ty {
            Some(t) => {
                let tc = chars_of(t.as_str());
                if eq_str(&tc, "sql_prepare") {
                    let needle = chars_of("Preparing:");
                    match find(&cleaned, &needle) {
                        Some(i) => slice_from(&cleaned, i),
                        None => cleaned,
                    }
                } else if eq_str(&tc, "sql_parameters") {
                    let needle = chars_of("Parameters:");
                    match find(&cleaned, &needle) {
                        Some(i) => slice_from(&cleaned, i),
                        None => cleaned,
                    }
                } else if eq_str(&tc, "stacktrace") {
                    cleaned
                } else {
                    Self::strip_leading_timestamp(&cleaned)
                }
            },
            None => Self::strip_leading_timestamp(&cleaned),
        };
        let res = trim(&body);
        string_of(&res)
    }

    fn strip_level_prefix(c: &Vec<char>) -> (r: Vec<char>)
        ensures
            r@ == strip_first_prefix(c@, message_prefixes()),
    {
        let prefixes: Vec<&str> = vec![
            "ERROR:", "Error:", "WARN:", "Warning:", "WARN", "INFO:", "Info:",
            "DEBUG:", "Debug:", "TRACE:", "Trace:", "FATAL:", "Fatal:",
            "SEVERE:", "Severe:", "CRITICAL:", "Critical:",
        ];
        let ghost ps = message_prefixes();
        assert(prefixes@.map_values(|p: &str| p@) =~= ps);
        let lc = lower(c);
        proof {
            reveal_strlit("ERROR:");
            reveal_strlit("Error:");
            reveal_strlit("WARN:");
            reveal_strlit("Warning:");
            reveal_strlit("WARN");
            reveal_strlit("INFO:");
            reveal_strlit("Info:");
            reveal_strlit("DEBUG:");
            reveal_strlit("Debug:");
            reveal_strlit("TRACE:");
            reveal_strlit("Trace:");
            reveal_strlit("FATAL:");
            reveal_strlit("Fatal:");
            reveal_strlit("SEVERE:");
            reveal_strlit("Severe:");
            reveal_strlit("CRITICAL:");
            reveal_strlit("Critical:");
            assert(forall|k: int| 0 <= k < ps.len() ==> #[trigger] ps[k].len() <= 9);
        }
        let mut i: usize = 0;
        assert(ps.skip(0) =~= ps);
        while i < prefixes.len()
            invariant
                i <= prefixes@.len(),
                prefixes@.map_values(|p: &str| p@) == ps,
                ps == message_prefixes(),
                forall|k: int| 0 <= k < ps.len() ==> #[trigger] ps[k].len() <= 9,
                lc@ == lowercase_of(c@),
                strip_first_prefix(c@, ps) == strip_first_prefix(c@, ps.skip(i as int)),
            decreases prefixes.len() - i,
        {
            let p = prefixes[i];
            assert(ps[i as int] == p@);
            let pc = chars_of(p);
            let pl = lower(&pc);
            assert(ps.skip(i as int)[0] == p@);
            assert(ps.skip(i as int).drop_first() =~= ps.skip(i as int + 1));
            if starts_with(&lc, &pl) {
                proof {
                    lemma_utf8_len_le(pc@);
                }
                let n = utf8_len_capped(&pc, usize::MAX);
                let rest = skip_bytes(c, n);
                return trim_start(&rest);
            }
            i = i + 1;
        }
        assert(ps.skip(prefixes@.len() as int) =~= Seq::<Seq<char>>::empty());
        c.clone()
    }

    /// `content` without a leading timestamp (see `without_leading_timestamp`).
    /// The text without a leading timestamp (and the level word after it).
    pub fn remove_leading_timestamp(content: &str) -> (r: String)
        ensures
            r@ == without_leading_timestamp(content@),
    {
        let c = chars_of(content);
        string_of(&Self::strip_leading_timestamp(&c))
    }

    fn strip_leading_timestamp(content: &Vec<char>) -> (r: Vec<char>)
        ensures
            r@ == without_leading_timestamp(content@),
    {
        if utf8_len_capped(content, 19) < 19 {
            return content.clone();
        }
        let has_start = (char_at_is_exec(content, 4, '-') || char_at_is_exec(content, 4, '/')
            || char_at_is_exec(content, 2, '.')) && (contains_char(content, 'T') || (
        utf8_len_capped(content, 11) >= 11 && char_at_is_exec(content, 10, ' '))
            || char_at_is_exec(content, 13, ' '));
        if !has_start {
            return content.clone();
        }
        match Self::find_timestamp_end(content) {
            Some(e) => {
                if e < content.len() {
                    let rest = slice_from(content, e);
                    trim_start(&rest)
                } else {
                    content.clone()
                }
            },
            None => content.clone(),
        }
    }

    /// Where the message starts after a leading timestamp, as a character index
    /// (see `time_end`), or the length of `content` when that position lies past its end.
    pub fn find_timestamp_end(content: &Vec<char>) -> (r: Option<usize>)
        ensures
            match r {
                Some(e) => time_end(content@) matches Some(t) && e == (if t < content@.len() { t } else { content@.len() as int }),
                None => time_end(content@) is None,
            },
    {
        let sp = find_space_positions(content);
        let ghost spv = sp@.map_values(|x: usize| x as int);
        assert(spv == space_positions(content@));
        let clen = content.len();
        let n = sp.len();
        if n == 0 {
            None
        } else if n == 1 {
            let p = sp[0];
            assert(spv[0] == p);
            Some(p + 1)
        } else if n == 2 {
            let p = sp[1];
            assert(spv[1] == p);
            Some(p + 1)
        } else if n == 3 {
            let p = sp[2];
            assert(spv[2] == p);
            match level_word_end(content, p + 1) {
                Some(e) => Some(e),
                None => Some(p + 1),
            }
        } else {
            scan_from(content, &sp, 2)
        }
    }

    /// Pushes the tags of `metadata_tags` onto `parts`.
    pub fn add_metadata_tags(parts: &mut Vec<Vec<char>>, metadata: &Metadata)
        requires
            metadata.wf(),
        ensures
            final(parts)@.map_values(|v: Vec<char>| v@) == old(parts)@.map_values(|v: Vec<char>| v@) + metadata_tags(metadata@),
    {
        let ghost start = parts@.map_values(|v: Vec<char>| v@);
        if let Some(stream) = metadata.get("stream") {
            let u = chars_of(to_uppercase(stream.as_str()).as_str());
            push_part(parts, wrap('[', &u, ']'));
        }
        let ghost mid = parts@.map_values(|v: Vec<char>| v@);
        if let Some(t) = metadata.get("type") {
            let tc = chars_of(t.as_str());
            if eq_str(&tc, "sql_prepare") {
                push_part(parts, chars_of("[SQL]"));
            } else if eq_str(&tc, "sql_parameters") {
                push_part(parts, chars_of("[PARAMS]"));
            } else if eq_str(&tc, "sql_updates") {
                push_part(parts, chars_of("[UPDATE]"));
            } else if eq_str(&tc, "stacktrace") {
                push_part(parts, chars_of("[STACK]"));
            }
        }
        assert(parts@.map_values(|v: Vec<char>| v@) =~= start + metadata_tags(metadata@));
    }

    /// Terminal colour escape for a level: red for `ERROR`, yellow for `WARN`,
    /// green for `INFO`, cyan for `DEBUG`, white otherwise.
    pub fn get_color_code(level: &Option<String>) -> (r: &'static str)
        ensures
            r@ == color_code(opt_view_of(*level)),
    {
        match level {
            Some(l) => {
                let lc = chars_of(l.as_str());
                if eq_str(&lc, "ERROR") {
                    "\x1b[31m"
                } else if eq_str(&lc, "WARN") {
                    "\x1b[33m"
                } else if eq_str(&lc, "INFO") {
                    "\x1b[32m"
                } else if eq_str(&lc, "DEBUG") {
                    "\x1b[36m"
                } else {
                    "\x1b[37m"
                }
            },
            None => "\x1b[37m",
        }
    }

    /// The escape that resets terminal colours.
    pub fn reset_color() -> (r: &'static str)
        ensures
            r@ == "\x1b[0m"@,
    {
        "\x1b[0m"
    }
}

pub open spec fn color_code(level: Option<Seq<char>>) -> Seq<char> {
    match level {
        Some(l) => if l == "ERROR"@ {
            "\x1b[31m"@
        } else if l == "WARN"@ {
            "\x1b[33m"@
        } else if l == "INFO"@ {
            "\x1b[32m"@
        } else if l == "DEBUG"@ {
            "\x1b[36m"@
        } else {
            "\x1b[37m"@
        },
        None => "\x1b[37m"@,
    }
}

/// The display string of a line in the unified format (`format_log_line` followed
/// by `format_display_string`).
pub open spec fn unified_display(
    n: nat,
    content: Seq<char>,
    level: Option<Seq<char>>,
    timestamp: Option<Seq<char>>,
    m: Map<Seq<char>, Seq<char>>,
    plugin: Seq<char>,
) -> Seq<char> {
    join(
        display_parts(
            normalized_timestamp(timestamp),
            normalized_level(level),
            meta_get(m, "thread"@),
            m.insert("processed_by"@, plugin).insert("line_number"@, decimal(n)),
            extracted_message(content, m),
        ),
        " "@,
    )
}

/// Formats a line in the unified format and returns its display string, level
/// and timestamp.
pub(crate) fn unified(
    n: usize,
    content: &str,
    level: Option<String>,
    timestamp: Option<String>,
    metadata: &Metadata,
    plugin: &str,
) -> (r: (String, Option<String>, Option<String>))
    requires
        metadata.wf(),
    ensures
        r.0@ == unified_display(n as nat, content@, opt_view_of(level), opt_view_of(timestamp), metadata@, plugin@),
        opt_view_of(r.1) == normalized_level(opt_view_of(level)),
        opt_view_of(r.2) == normalized_timestamp(opt_view_of(timestamp)),
{
    let uf = UnifiedFormatter::format_log_line(n, content, level, timestamp, metadata, plugin);
    let d = UnifiedFormatter::format_display_string(&uf);
    (d, uf.level, uf.timestamp)
}

} // verus!
