//! Spring Boot application logs:
//! `2024-01-15 14:30:25.123 [main] INFO com.example.App - Message`.
//!
//! Each line that matches the Spring Boot layout becomes a structured line with an
//! ISO timestamp, a normalised level, the thread and logger in the metadata and a
//! `stream` (`stderr` for errors, `stdout` otherwise). Lines that do not match
//! (stack traces) are kept as `ERROR` lines on `stderr`. Long prefixes are shown in
//! a compact form (`http-nio-8080-exec-1` as `H8080-`, package names shortened).
use vstd::prelude::*;
use crate::foreign::{lowercase_of, uppercase_of, regex_captures_of, regex_captures, to_uppercase, opt_view};
use crate::metadata::Metadata;
use crate::plugins::{LogLine, LineView, LogParser, ParseRequest, ParseResult, lv, lines_wf, ov, sv};
use crate::plugins::formatter::level_family;
use crate::plugins::filters::level_family_exec;
use crate::text::{
    append, append_str, before_char, byte_prefix, chars_of, contains_char, contains_str,
    eq_str, find, join, join_parts, lemma_index_of, lines_of, lower, own, replace_char,
    replace_char_seq, seq_contains, slice, slice_from, split_char, split_char_seq, split_lines,
    starts_with_str, string_of, take_before_char, take_bytes, trim, trim_seq, utf8_len,
    utf8_len_capped, find_seq, is_ascii_digit, is_ws, lemma_index_of_char, lemma_trim_noop,
};

verus! {

/// The Spring Boot line layout: timestamp, `[thread]`, level, logger, ` - `, message.
pub const SPRINGBOOT_LINE_PATTERN: &'static str = r"^(\d{4}-\d{2}-\d{2}\s+\d{2}:\d{2}:\d{2}[.,]\d{3})\s+\[([^\]]+)\]\s+([A-Z]+)\s+([^-]+?)\s+-\s+(.*)$";

/// The short layout without a logger: timestamp, `[thread]`, level, message.
pub const SPRINGBOOT_SHORT_LINE_PATTERN: &'static str = r"^(\d{4}-\d{2}-\d{2}\s+\d{2}:\d{2}:\d{2}[.,]\d{3})\s+\[([^\]]+)\]\s+([A-Z]+)\s+(.*)$";

/// The Spring Boot log parser.
pub struct SpringBootParser;

// ---------------------------------------------------------------------------
// Specification
// ---------------------------------------------------------------------------

/// Group `k` of a match, `None` when absent.
pub open spec fn group(g: Seq<Option<Seq<char>>>, k: int) -> Option<Seq<char>> {
    if 0 <= k < g.len() {
        g[k]
    } else {
        None
    }
}

/// The parts of a Spring Boot line: timestamp, thread, level, logger, message.
pub open spec fn springboot_fields(line: Seq<char>) -> Option<(Option<Seq<char>>, Option<Seq<char>>, Option<Seq<char>>, Option<Seq<char>>, Option<Seq<char>>)> {
    match regex_captures_of(SPRINGBOOT_LINE_PATTERN@, line) {
        Some(g) => Some((group(g, 1), group(g, 2), group(g, 3), group(g, 4), group(g, 5))),
        None => match regex_captures_of(SPRINGBOOT_SHORT_LINE_PATTERN@, line) {
            Some(g) => Some((group(g, 1), group(g, 2), group(g, 3), None, group(g, 4))),
            None => None,
        },
    }
}

/// `2024-09-30 08:00:07.123` as `2024-09-30T08:00:07`: milliseconds (after `.` or
/// `,`) dropped and spaces turned into `T`.
pub open spec fn iso_timestamp(ts: Seq<char>) -> Seq<char> {
    let t = trim_seq(ts);
    let base = if t.contains('.') {
        before_char(t, '.')
    } else if t.contains(',') {
        before_char(t, ',')
    } else {
        t
    };
    replace_char_seq(base, ' ', 'T')
}

pub open spec fn fast_timestamp(ts: Option<Seq<char>>) -> Option<Seq<char>> {
    match ts {
        Some(t) => Some(iso_timestamp(t)),
        None => None,
    }
}

/// The level family of a level in any case (`Error`, `warning`, `TRACE`, ...):
/// `ERROR`, `WARN`, `INFO` or `DEBUG`, or else the level upper-cased.
pub open spec fn fast_level_of(l: Seq<char>) -> Seq<char> {
    level_family(uppercase_of(l))
}

pub open spec fn fast_level(l: Option<Seq<char>>) -> Option<Seq<char>> {
    match l {
        Some(x) => Some(fast_level_of(x)),
        None => None,
    }
}

/// `stderr` for error levels, `stdout` for every other level and for none.
pub open spec fn stream_of(level: Option<Seq<char>>) -> Seq<char> {
    match level {
        Some(l) => if l == "ERROR"@ || l == "FATAL"@ || l == "SEVERE"@ {
            "stderr"@
        } else {
            "stdout"@
        },
        None => "stdout"@,
    }
}

/// The stream tag shown in formatted lines.
pub open spec fn stream_tag(level: Option<Seq<char>>) -> Seq<char> {
    if stream_of(level) == "stderr"@ {
        "[STDERR] "@
    } else {
        "[STDOUT] "@
    }
}

/// `TIMESTAMP [LEVEL] [STREAM] `, the common head of formatted lines.
pub open spec fn format_head(timestamp: Option<Seq<char>>, level: Option<Seq<char>>) -> Seq<char> {
    let ts = match timestamp {
        Some(t) => t + " "@,
        None => Seq::empty(),
    };
    let lv = match level {
        Some(l) => "["@ + l + "] "@,
        None => Seq::empty(),
    };
    ts + lv + stream_tag(level)
}

pub open spec fn formatted_fast(timestamp: Option<Seq<char>>, level: Option<Seq<char>>, message: Seq<char>) -> Seq<char> {
    format_head(timestamp, level) + message
}

/// `"H" + s`-style abbreviation of a prefix followed by a number.
pub open spec fn abbreviate(letter: char, rest: Seq<char>) -> Seq<char> {
    seq![letter] + rest
}

/// Port part of an HTTP worker name starting with `prefix`: the text between the
/// prefix and the first `-exec-`.
pub open spec fn http_thread_abbrev(t: Seq<char>, start: int) -> Seq<char> {
    http_abbrev_at(t, start, find_seq(t, "-exec-"@))
}

/// `H`, the text from `start` to the found position, and `-`; nothing where
/// nothing was found.
pub open spec fn http_abbrev_at(t: Seq<char>, start: int, found: Option<int>) -> Seq<char> {
    match found {
        Some(p) => if start <= p {
            seq!['H'] + t.subrange(start, p) + seq!['-']
        } else {
            seq!['H', '-']
        },
        None => Seq::empty(),
    }
}

/// The compact form of a thread name.
pub open spec fn compact_thread(t: Seq<char>) -> Seq<char> {
    if t == "main"@ {
        Seq::empty()
    } else if "http-nio-"@.is_prefix_of(t) {
        http_thread_abbrev(t, 9)
    } else if "nio-"@.is_prefix_of(t) {
        http_thread_abbrev(t, 4)
    } else if "worker-thread-"@.is_prefix_of(t) {
        abbreviate('W', t.skip(14))
    } else if "redis-thread-"@.is_prefix_of(t) {
        abbreviate('R', t.skip(13))
    } else if "scheduling-"@.is_prefix_of(t) {
        abbreviate('S', t.skip(11))
    } else if utf8_len(t) > 15 {
        byte_prefix(t, 12) + "..."@
    } else {
        t
    }
}

/// The package parts (all but the last part) as initials: `com.example.` becomes `c.e.`;
/// empty parts are skipped.
pub open spec fn package_initials(parts: Seq<Seq<char>>) -> Seq<char>
    decreases parts.len(),
{
    if parts.len() == 0 {
        Seq::empty()
    } else if parts.last().len() == 0 {
        package_initials(parts.drop_last())
    } else {
        package_initials(parts.drop_last()) + byte_prefix(parts.last(), 1) + "."@
    }
}

/// The compact form of a class name: with more than three parts, the package is
/// shortened to initials and a class name of more than eight bytes to its first six
/// bytes and `..`.
pub open spec fn compact_class(c: Seq<char>) -> Seq<char> {
    let parts = split_char_seq(c, '.');
    if parts.len() > 3 {
        let last = parts.last();
        let tail = if utf8_len(last) > 8 {
            byte_prefix(last, 6) + ".."@
        } else {
            last
        };
        package_initials(parts.drop_last()) + tail
    } else {
        c
    }
}

/// The non-empty compact thread and logger names, joined with ` · `.
pub open spec fn compact_prefix(thread: Option<Seq<char>>, logger: Option<Seq<char>>) -> Seq<char> {
    let tp: Seq<Seq<char>> = match thread {
        Some(t) => if compact_thread(t).len() > 0 {
            seq![compact_thread(t)]
        } else {
            Seq::empty()
        },
        None => Seq::empty(),
    };
    let lp: Seq<Seq<char>> = match logger {
        Some(l) => if compact_class(l).len() > 0 {
            seq![compact_class(l)]
        } else {
            Seq::empty()
        },
        None => Seq::empty(),
    };
    join(tp + lp, " · "@)
}

pub open spec fn formatted_compact(
    timestamp: Option<Seq<char>>,
    level: Option<Seq<char>>,
    thread: Option<Seq<char>>,
    logger: Option<Seq<char>>,
    message: Seq<char>,
) -> Seq<char> {
    let p = compact_prefix(thread, logger);
    format_head(timestamp, level) + (if p.len() > 0 {
        p + " | "@
    } else {
        Seq::empty()
    }) + message
}

pub open spec fn opt_len(o: Option<Seq<char>>) -> nat {
    match o {
        Some(s) => utf8_len(s),
        None => 0,
    }
}

/// The compact layout is used when thread and logger together take more than 30
/// bytes, or when the logger has a package, the thread a `-`, and the message fewer
/// than 80 bytes.
pub open spec fn use_compact(thread: Option<Seq<char>>, logger: Option<Seq<char>>, message: Seq<char>) -> bool {
    let long_prefix = opt_len(thread) + opt_len(logger) > 30;
    let short_message = utf8_len(message) < 80;
    let pattern = (logger matches Some(l) && l.contains('.')) && (thread matches Some(t) && t.contains('-'));
    long_prefix || (pattern && short_message)
}

pub open spec fn meta_opt(m: Map<Seq<char>, Seq<char>>, key: Seq<char>, v: Option<Seq<char>>) -> Map<Seq<char>, Seq<char>> {
    match v {
        Some(x) => m.insert(key, x),
        None => m,
    }
}

/// The parts of a line that the Spring Boot patterns give: timestamp, thread,
/// level, logger and message, each present or not.
pub type SpringBootFieldsView = (Option<Seq<char>>, Option<Seq<char>>, Option<Seq<char>>, Option<Seq<char>>, Option<Seq<char>>);

/// The parsed form of line `n` of the input, given its parts (`None` when no
/// pattern matched it).
pub open spec fn line_from_fields(n: nat, line: Seq<char>, fields: Option<SpringBootFieldsView>) -> LineView {
    match fields {
        Some((ts, thread, level, logger, msg)) => {
            let message = trim_seq(
                match msg {
                    Some(m) => m,
                    None => line,
                },
            );
            let nts = fast_timestamp(ts);
            let nl = fast_level(level);
            let md = meta_opt(meta_opt(Map::empty(), "thread"@, thread), "logger"@, logger).insert(
                "stream"@,
                stream_of(nl),
            );
            let formatted = if use_compact(thread, logger, message) {
                formatted_compact(nts, nl, thread, logger, message)
            } else {
                formatted_fast(nts, nl, message)
            };
            LineView {
                line_number: n,
                content: message,
                level: nl,
                timestamp: nts,
                formatted_content: Some(formatted),
                metadata: md,
                processed_by: seq!["springboot_parser"@],
            }
        },
        None => LineView {
            line_number: n,
            content: trim_seq(line),
            level: Some("ERROR"@),
            timestamp: None,
            formatted_content: Some(formatted_fast(None, Some("ERROR"@), trim_seq(line))),
            metadata: Map::empty().insert("type"@, "stacktrace"@).insert("stream"@, "stderr"@),
            processed_by: seq!["springboot_parser"@],
        },
    }
}

/// The parsed form of line `n` of the input.
pub open spec fn springboot_line(n: nat, line: Seq<char>) -> LineView {
    line_from_fields(n, line, springboot_fields(line))
}

/// The parsed form of every line of the input.
pub open spec fn springboot_lines(content: Seq<char>) -> Seq<LineView> {
    lines_of(content).map(|i: int, line: Seq<char>| springboot_line((i + 1) as nat, line))
}

/// Whether a (lower-cased) line starts like a timestamped log line.
pub open spec fn looks_like_log_line(line: Seq<char>) -> bool {
    &&& line.len() > 0 && is_ascii_digit(line[0])
    &&& utf8_len(line) >= 10
    &&& (line.contains('[') || seq_contains(line, " INFO "@) || seq_contains(line, " ERROR "@))
}

/// Spring Boot keywords, or a line that starts like a timestamped log line.
pub open spec fn springboot_detected(content: Seq<char>) -> bool {
    let lc = lowercase_of(content);
    ||| seq_contains(lc, "spring"@)
    ||| seq_contains(lc, "application.start"@)
    ||| seq_contains(lc, "springframework"@)
    ||| exists|i: int| 0 <= i < lines_of(lc).len() && looks_like_log_line(#[trigger] lines_of(lc)[i])
}

// ---------------------------------------------------------------------------
// Implementation
// ---------------------------------------------------------------------------

pub(crate) fn group_of(g: &Vec<Option<String>>, k: usize) -> (r: Option<Vec<char>>)
    ensures
        match r {
            Some(v) => group(g@.map_values(|o: Option<String>| opt_view(o)), k as int) == Some(v@),
            None => group(g@.map_values(|o: Option<String>| opt_view(o)), k as int) is None,
        },
{
    if k < g.len() {
        match &g[k] {
            Some(s) => Some(chars_of(s.as_str())),
            None => None,
        }
    } else {
        None
    }
}

fn opt_chars(o: Option<&str>) -> (r: Option<Vec<char>>)
    ensures
        match r {
            Some(v) => o matches Some(s) && v@ == s@,
            None => o is None,
        },
{
    match o {
        Some(s) => Some(chars_of(s)),
        None => None,
    }
}

pub open spec fn oview(o: Option<Vec<char>>) -> Option<Seq<char>> {
    match o {
        Some(v) => Some(v@),
        None => None,
    }
}

pub open spec fn osview(o: Option<&str>) -> Option<Seq<char>> {
    match o {
        Some(v) => Some(v@),
        None => None,
    }
}

/// The parts of a Spring Boot line (see `springboot_fields`).
fn line_fields(line: &Vec<char>) -> (r: Option<(Option<Vec<char>>, Option<Vec<char>>, Option<Vec<char>>, Option<Vec<char>>, Option<Vec<char>>)>)
    ensures
        match r {
            Some((a, b, c, d, e)) => springboot_fields(line@) == Some((oview(a), oview(b), oview(c), oview(d), oview(e))),
            None => springboot_fields(line@) is None,
        },
{
    let text = string_of(line);
    match regex_captures(SPRINGBOOT_LINE_PATTERN, text.as_str()) {
        Some(g) => Some((group_of(&g, 1), group_of(&g, 2), group_of(&g, 3), group_of(&g, 4), group_of(&g, 5))),
        None => match regex_captures(SPRINGBOOT_SHORT_LINE_PATTERN, text.as_str()) {
            Some(g) => Some((group_of(&g, 1), group_of(&g, 2), group_of(&g, 3), None, group_of(&g, 4))),
            None => None,
        },
    }
}

fn iso_timestamp_exec(ts: &Vec<char>) -> (r: Vec<char>)
    ensures
        r@ == iso_timestamp(ts@),
{
    let t = trim(ts);
    let base = if contains_char(&t, '.') {
        take_before_char(&t, '.')
    } else if contains_char(&t, ',') {
        take_before_char(&t, ',')
    } else {
        t
    };
    replace_char(&base, ' ', 'T')
}

/// `2024-09-30 08:00:07.123` (or `,123`) as `2024-09-30T08:00:07`.
pub fn normalize_timestamp_fast(timestamp: Option<&str>) -> (r: Option<String>)
    ensures
        ov(r) == fast_timestamp(osview(timestamp)),
{
    match timestamp {
        Some(ts) => {
            let c = chars_of(ts);
            let r = iso_timestamp_exec(&c);
            Some(string_of(&r))
        },
        None => None,
    }
}

fn fast_level_exec(l: &Vec<char>) -> (r: Vec<char>)
    ensures
        r@ == fast_level_of(l@),
{
    let s = string_of(l);
    let u = chars_of(to_uppercase(s.as_str()).as_str());
    level_family_exec(&u)
}

/// Maps a level in any case to its family `ERROR`, `WARN`, `INFO` or `DEBUG`, or
/// else to its upper-case form.
pub fn normalize_level_fast(level: Option<&str>) -> (r: Option<String>)
    ensures
        ov(r) == fast_level(osview(level)),
{
    match level {
        Some(l) => {
            let c = chars_of(l);
            let r = fast_level_exec(&c);
            Some(string_of(&r))
        },
        None => None,
    }
}

pub(crate) fn stream_of_exec(level: &Option<Vec<char>>) -> (r: &'static str)
    ensures
        r@ == stream_of(oview(*level)),
{
    match level {
        Some(l) => if eq_str(l, "ERROR") || eq_str(l, "FATAL") || eq_str(l, "SEVERE") {
            "stderr"
        } else {
            "stdout"
        },
        None => "stdout",
    }
}

/// `stderr` for `ERROR`, `FATAL` and `SEVERE`, `stdout` otherwise.
pub fn determine_stream_type(level: Option<&str>) -> (r: &'static str)
    ensures
        r@ == stream_of(osview(level)),
{
    let l = opt_chars(level);
    stream_of_exec(&l)
}

fn head_exec(timestamp: &Option<Vec<char>>, level: &Option<Vec<char>>) -> (r: Vec<char>)
    ensures
        r@ == format_head(oview(*timestamp), oview(*level)),
{
    let mut r: Vec<char> = Vec::new();
    if let Some(ts) = timestamp {
        append(&mut r, ts);
        r.push(' ');
    }
    let ghost after_ts = r@;
    if let Some(l) = level {
        r.push('[');
        append(&mut r, l);
        append_str(&mut r, "] ");
    }
    let ghost after_lv = r@;
    if eq_str(&chars_of(stream_of_exec(level)), "stderr") {
        append_str(&mut r, "[STDERR] ");
    } else {
        append_str(&mut r, "[STDOUT] ");
    }
    proof {
        reveal_strlit(" ");
        reveal_strlit("[");
        let ts_part = match oview(*timestamp) {
            Some(t) => t + " "@,
            None => Seq::<char>::empty(),
        };
        assert(after_ts =~= ts_part);
        let lv_part = match oview(*level) {
            Some(l) => "["@ + l + "] "@,
            None => Seq::<char>::empty(),
        };
        assert(after_lv =~= ts_part + lv_part);
    }
    r
}

/// `TIMESTAMP [LEVEL] [STREAM] MESSAGE`, the layout shared with Docker JSON lines.
pub fn build_formatted_content_fast(
    timestamp: Option<&str>,
    level: Option<&str>,
    _thread: Option<&str>,
    message: &str,
) -> (r: String)
    ensures
        r@ == formatted_fast(osview(timestamp), osview(level), message@),
{
    let ts = opt_chars(timestamp);
    let lv = opt_chars(level);
    let mut r = head_exec(&ts, &lv);
    append_str(&mut r, message);
    string_of(&r)
}

fn compact_thread_exec(t: &Vec<char>) -> (r: Vec<char>)
    ensures
        r@ == compact_thread(t@),
{
    if eq_str(t, "main") {
        Vec::new()
    } else if starts_with_str(t, "http-nio-") {
        http_abbrev_exec(t, 9)
    } else if starts_with_str(t, "nio-") {
        http_abbrev_exec(t, 4)
    } else if starts_with_str(t, "worker-thread-") {
        proof {
            reveal_strlit("worker-thread-");
        }
        abbrev_exec('W', t, 14)
    } else if starts_with_str(t, "redis-thread-") {
        proof {
            reveal_strlit("redis-thread-");
        }
        abbrev_exec('R', t, 13)
    } else if starts_with_str(t, "scheduling-") {
        proof {
            reveal_strlit("scheduling-");
        }
        abbrev_exec('S', t, 11)
    } else if utf8_len_capped(t, 16) > 15 {
        let mut r = take_bytes(t, 12);
        append_str(&mut r, "...");
        r
    } else {
        t.clone()
    }
}

fn abbrev_exec(letter: char, t: &Vec<char>, k: usize) -> (r: Vec<char>)
    requires
        k <= t@.len(),
    ensures
        r@ == abbreviate(letter, t@.skip(k as int)),
{
    let mut r: Vec<char> = Vec::new();
    r.push(letter);
    let rest = slice_from(t, k);
    append(&mut r, &rest);
    assert(r@ =~= abbreviate(letter, t@.skip(k as int)));
    r
}

fn http_abbrev_exec(t: &Vec<char>, start: usize) -> (r: Vec<char>)
    ensures
        r@ == http_thread_abbrev(t@, start as int),
{
    let needle = chars_of("-exec-");
    let found = find(t, &needle);
    http_abbrev_from(t, start, found)
}

fn http_abbrev_from(t: &Vec<char>, start: usize, found: Option<usize>) -> (r: Vec<char>)
    requires
        found matches Some(p) ==> p <= t@.len(),
    ensures
        r@ == http_abbrev_at(t@, start as int, match found { Some(p) => Some(p as int), None => None }),
{
    match found {
        Some(p) => {
            let mut r: Vec<char> = Vec::new();
            r.push('H');
            if start <= p {
                let mid = slice(t, start, p);
                append(&mut r, &mid);
                assert(r@ =~= seq!['H'] + t@.subrange(start as int, p as int));
            }
            r.push('-');
            r
        },
        None => Vec::new(),
    }
}

/// Abbreviates a thread name: `main` disappears, `http-nio-8080-exec-1` becomes
/// `H8080-`, `worker-thread-5` `W5`, `redis-thread-2` `R2`, `scheduling-1` `S1`,
/// and names of more than 15 bytes are cut to 12 bytes and `...`.
pub fn compact_thread_name(thread: &str) -> (r: String)
    ensures
        r@ == compact_thread(thread@),
{
    let t = chars_of(thread);
    let r = compact_thread_exec(&t);
    string_of(&r)
}

fn compact_class_exec(c: &Vec<char>) -> (r: Vec<char>)
    ensures
        r@ == compact_class(c@),
{
    let parts = split_char(c, '.');
    let ghost ps = parts@.map_values(|v: Vec<char>| v@);
    if parts.len() > 3 {
        let mut r: Vec<char> = Vec::new();
        let mut i: usize = 0;
        assert(ps.drop_last().take(0) =~= Seq::<Seq<char>>::empty());
        while i < parts.len() - 1
            invariant
                parts@.len() > 3,
                i <= parts@.len() - 1,
                ps == parts@.map_values(|v: Vec<char>| v@),
                r@ == package_initials(ps.drop_last().take(i as int)),
            decreases parts.len() - 1 - i,
        {
            let part = &parts[i];
            assert(ps.drop_last().take(i as int + 1).drop_last() =~= ps.drop_last().take(i as int));
            if part.len() > 0 {
                let first = take_bytes(part, 1);
                append(&mut r, &first);
                r.push('.');
                proof {
                    reveal_strlit(".");
                }
                assert(r@ =~= package_initials(ps.drop_last().take(i as int + 1)));
            }
            i = i + 1;
        }
        assert(ps.drop_last().take(parts@.len() - 1) =~= ps.drop_last());
        let last = &parts[parts.len() - 1];
        if utf8_len_capped(last, 9) > 8 {
            let head = take_bytes(last, 6);
            append(&mut r, &head);
            append_str(&mut r, "..");
        } else {
            append(&mut r, last);
        }
        r
    } else {
        c.clone()
    }
}

/// Abbreviates a Java class name: with more than three parts, `com.example.service.impl.UserServiceImpl`
/// becomes `c.e.s.i.UserSe..`; shorter names are kept.
pub fn compact_class_name(class_name: &str) -> (r: String)
    ensures
        r@ == compact_class(class_name@),
{
    let c = chars_of(class_name);
    let r = compact_class_exec(&c);
    string_of(&r)
}

fn compact_prefix_exec(thread: &Option<Vec<char>>, logger: &Option<Vec<char>>) -> (r: Vec<char>)
    ensures
        r@ == compact_prefix(oview(*thread), oview(*logger)),
{
    let mut parts: Vec<Vec<char>> = Vec::new();
    if let Some(t) = thread {
        let ct = compact_thread_exec(t);
        if ct.len() > 0 {
            parts.push(ct);
        }
    }
    if let Some(l) = logger {
        let cl = compact_class_exec(l);
        if cl.len() > 0 {
            parts.push(cl);
        }
    }
    let r = join_parts(&parts, " · ");
    proof {
        let tp: Seq<Seq<char>> = match oview(*thread) {
            Some(t) => if compact_thread(t).len() > 0 {
                seq![compact_thread(t)]
            } else {
                Seq::empty()
            },
            None => Seq::empty(),
        };
        let lp: Seq<Seq<char>> = match oview(*logger) {
            Some(l) => if compact_class(l).len() > 0 {
                seq![compact_class(l)]
            } else {
                Seq::empty()
            },
            None => Seq::empty(),
        };
        assert(parts@.map_values(|v: Vec<char>| v@) =~= tp + lp);
    }
    r
}

/// The non-empty compact thread and logger names joined with ` · `.
pub fn build_compact_prefix(thread: Option<&str>, logger: Option<&str>) -> (r: String)
    ensures
        r@ == compact_prefix(osview(thread), osview(logger)),
{
    let t = opt_chars(thread);
    let l = opt_chars(logger);
    let r = compact_prefix_exec(&t, &l);
    string_of(&r)
}

fn compact_exec(
    timestamp: &Option<Vec<char>>,
    level: &Option<Vec<char>>,
    thread: &Option<Vec<char>>,
    logger: &Option<Vec<char>>,
    message: &Vec<char>,
) -> (r: Vec<char>)
    ensures
        r@ == formatted_compact(oview(*timestamp), oview(*level), oview(*thread), oview(*logger), message@),
{
    let mut r = head_exec(timestamp, level);
    let p = compact_prefix_exec(thread, logger);
    let ghost h = r@;
    if p.len() > 0 {
        append(&mut r, &p);
        append_str(&mut r, " | ");
    }
    assert(r@ =~= h + (if p@.len() > 0 { p@ + " | "@ } else { Seq::empty() }));
    append(&mut r, message);
    r
}

/// `TIMESTAMP [LEVEL] [STREAM] PREFIX | MESSAGE` with the compact thread and logger
/// names as prefix (no ` | ` when the prefix is empty).
pub fn build_compact_formatted_content(
    timestamp: Option<&str>,
    level: Option<&str>,
    thread: Option<&str>,
    logger: Option<&str>,
    message: &str,
) -> (r: String)
    ensures
        r@ == formatted_compact(osview(timestamp), osview(level), osview(thread), osview(logger), message@),
{
    let ts = opt_chars(timestamp);
    let lv = opt_chars(level);
    let th = opt_chars(thread);
    let lg = opt_chars(logger);
    let m = chars_of(message);
    let r = compact_exec(&ts, &lv, &th, &lg, &m);
    string_of(&r)
}

fn opt_len_capped(o: &Option<Vec<char>>, cap: usize) -> (n: usize)
    ensures
        n == if opt_len(oview(*o)) < cap { opt_len(oview(*o)) } else { cap as nat },
{
    match o {
        Some(v) => utf8_len_capped(v, cap),
        None => 0,
    }
}

fn use_compact_exec(thread: &Option<Vec<char>>, logger: &Option<Vec<char>>, message: &Vec<char>) -> (b: bool)
    ensures
        b == use_compact(oview(*thread), oview(*logger), message@),
{
    let a = opt_len_capped(thread, 31);
    let b = opt_len_capped(logger, 31);
    let long_prefix = a + b > 30;
    let short_message = utf8_len_capped(message, 80) < 80;
    let pattern = (match logger {
        Some(l) => contains_char(l, '.'),
        None => false,
    }) && (match thread {
        Some(t) => contains_char(t, '-'),
        None => false,
    });
    long_prefix || (pattern && short_message)
}

/// Whether the compact layout is used (see `use_compact`).
pub fn should_use_compact_format(thread: Option<&str>, logger: Option<&str>, message: &str) -> (b: bool)
    ensures
        b == use_compact(osview(thread), osview(logger), message@),
{
    let t = opt_chars(thread);
    let l = opt_chars(logger);
    let m = chars_of(message);
    use_compact_exec(&t, &l, &m)
}

fn vopt_string(o: &Option<Vec<char>>) -> (r: Option<String>)
    ensures
        ov(r) == oview(*o),
{
    match o {
        Some(v) => Some(string_of(v)),
        None => None,
    }
}

fn one_string(s: &str) -> (r: Vec<String>)
    ensures
        sv(r@) == seq![s@],
{
    let mut r: Vec<String> = Vec::new();
    r.push(own(s));
    assert(sv(r@) =~= seq![s@]);
    r
}

/// The parts of a line, as vectors of characters.
pub open spec fn vfields(f: Option<(Option<Vec<char>>, Option<Vec<char>>, Option<Vec<char>>, Option<Vec<char>>, Option<Vec<char>>)>) -> Option<SpringBootFieldsView> {
    match f {
        Some((a, b, c, d, e)) => Some((oview(a), oview(b), oview(c), oview(d), oview(e))),
        None => None,
    }
}

/// The parts of a line, as strings.
pub open spec fn sfields(f: Option<(Option<String>, Option<String>, Option<String>, Option<String>, Option<String>)>) -> Option<SpringBootFieldsView> {
    match f {
        Some((a, b, c, d, e)) => Some((opt_view(a), opt_view(b), opt_view(c), opt_view(d), opt_view(e))),
        None => None,
    }
}

fn schars(o: &Option<String>) -> (r: Option<Vec<char>>)
    ensures
        oview(r) == opt_view(*o),
{
    match o {
        Some(x) => Some(chars_of(x.as_str())),
        None => None,
    }
}

/// The parsed form of one line (see `springboot_line`).
fn parse_line(n: usize, line: &Vec<char>) -> (r: LogLine)
    ensures
        r@ == springboot_line(n as nat, line@),
        r.wf(),
{
    let f = line_fields(line);
    parse_fields_exec(n, line, f)
}

/// The parsed form of one line, given its parts (see `line_from_fields`).
fn parse_fields_exec(
    n: usize,
    line: &Vec<char>,
    f: Option<(Option<Vec<char>>, Option<Vec<char>>, Option<Vec<char>>, Option<Vec<char>>, Option<Vec<char>>)>,
) -> (r: LogLine)
    ensures
        r@ == line_from_fields(n as nat, line@, vfields(f)),
        r.wf(),
{
    match f {
        Some((ts, thread, level, logger, msg)) => {
            let raw_msg = match msg {
                Some(m) => m,
                None => line.clone(),
            };
            let message = trim(&raw_msg);
            let nts = match &ts {
                Some(t) => Some(iso_timestamp_exec(t)),
                None => None,
            };
            let nl = match &level {
                Some(l) => Some(fast_level_exec(l)),
                None => None,
            };
            let stream = stream_of_exec(&nl);
            let mut metadata = Metadata::new();
            if let Some(t) = &thread {
                metadata.insert_str("thread", string_of(t));
            }
            if let Some(l) = &logger {
                metadata.insert_str("logger", string_of(l));
            }
            metadata.insert_str("stream", own(stream));
            let formatted = if use_compact_exec(&thread, &logger, &message) {
                compact_exec(&nts, &nl, &thread, &logger, &message)
            } else {
                let mut f = head_exec(&nts, &nl);
                append(&mut f, &message);
                f
            };
            LogLine {
                line_number: n,
                content: string_of(&message),
                level: vopt_string(&nl),
                timestamp: vopt_string(&nts),
                formatted_content: Some(string_of(&formatted)),
                metadata,
                processed_by: one_string("springboot_parser"),
            }
        },
        None => {
            let content = trim(line);
            let mut metadata = Metadata::new();
            metadata.insert_str("type", own("stacktrace"));
            metadata.insert_str("stream", own("stderr"));
            let lvl: Option<Vec<char>> = Some(chars_of("ERROR"));
            let none: Option<Vec<char>> = None;
            let mut f = head_exec(&none, &lvl);
            append(&mut f, &content);
            LogLine {
                line_number: n,
                content: string_of(&content),
                level: Some(own("ERROR")),
                timestamp: None,
                formatted_content: Some(string_of(&f)),
                metadata,
                processed_by: one_string("springboot_parser"),
            }
        },
    }
}

impl SpringBootParser {
    /// Line `line_number`, given the parts that the Spring Boot patterns found in it
    /// (timestamp, thread, level, logger and message), or `None` when no pattern
    /// matched: a line without parts is kept whole as an `ERROR` stack trace line.
    pub fn parse_fields(
        line_number: usize,
        line: &str,
        fields: Option<(Option<String>, Option<String>, Option<String>, Option<String>, Option<String>)>,
    ) -> (r: LogLine)
        ensures
            r@ == line_from_fields(line_number as nat, line@, sfields(fields)),
            r.wf(),
    {
        let c = chars_of(line);
        let f = match &fields {
            Some((a, b, t, d, e)) => Some((schars(a), schars(b), schars(t), schars(d), schars(e))),
            None => None,
        };
        assert(vfields(f) == sfields(fields));
        parse_fields_exec(line_number, &c, f)
    }

    /// Parses every line of `content` (see `springboot_lines`).
    pub fn parse_lines(content: &str) -> (r: Vec<LogLine>)
        ensures
            lv(r@) == springboot_lines(content@),
            lines_wf(r@),
    {
        let c = chars_of(content);
        let lines = split_lines(&c);
        let mut out: Vec<LogLine> = Vec::new();
        let mut i: usize = 0;
        while i < lines.len()
            invariant
                i <= lines@.len(),
                lines@.len() == lines_of(c@).len(),
                forall|k: int| 0 <= k < lines@.len() ==> #[trigger] lines@[k]@ == lines_of(c@)[k],
                c@ == content@,
                lv(out@) == springboot_lines(content@).take(i as int),
                lines_wf(out@),
            decreases lines.len() - i,
        {
            let l = parse_line(i + 1, &lines[i]);
            let ghost prev = out@;
            out.push(l);
            proof {
                assert(lines@[i as int]@ == lines_of(c@)[i as int]);
                assert(springboot_lines(content@)[i as int] == springboot_line((i + 1) as nat, lines_of(c@)[i as int]));
                assert(out@ == prev.push(l));
                assert(lv(out@) =~= lv(prev).push(l@));
                assert(lv(out@) =~= springboot_lines(content@).take(i as int + 1));
            }
            i = i + 1;
        }
        assert(springboot_lines(content@).take(lines@.len() as int) =~= springboot_lines(content@));
        out
    }
}

impl LogParser for SpringBootParser {
    fn name(&self) -> (r: &str)
        ensures
            r@ == "springboot"@,
    {
        "springboot"
    }

    fn description(&self) -> (r: &str)
        ensures
            r@ == "Spring Boot 应用日志解析器"@,
    {
        "Spring Boot 应用日志解析器"
    }

    fn supported_extensions(&self) -> (r: Vec<String>)
        ensures
            sv(r@) == seq!["log"@, "txt"@, "out"@],
    {
        let mut r: Vec<String> = Vec::new();
        r.push(own("log"));
        r.push(own("txt"));
        r.push(own("out"));
        assert(sv(r@) =~= seq!["log"@, "txt"@, "out"@]);
        r
    }

    /// Spring keywords (case-insensitive), or a line that starts with a digit, has at
    /// least ten bytes and holds a `[` (checked on the lower-cased text).
    fn can_parse(&self, content: &str, _file_path: Option<&str>) -> (b: bool)
        ensures
            b == springboot_detected(content@),
    {
        let c = chars_of(content);
        let lc = lower(&c);
        if contains_str(&lc, "spring") || contains_str(&lc, "application.start") || contains_str(&lc, "springframework") {
            return true;
        }
        let lines = split_lines(&lc);
        let mut i: usize = 0;
        while i < lines.len()
            invariant
                i <= lines@.len(),
                lines@.len() == lines_of(lc@).len(),
                forall|k: int| 0 <= k < lines@.len() ==> #[trigger] lines@[k]@ == lines_of(lc@)[k],
                forall|k: int| 0 <= k < i ==> !looks_like_log_line(#[trigger] lines_of(lc@)[k]),
                lc@ == lowercase_of(content@),
                !seq_contains(lc@, "spring"@),
                !seq_contains(lc@, "application.start"@),
                !seq_contains(lc@, "springframework"@),
            decreases lines.len() - i,
        {
            let line = &lines[i];
            if line.len() > 0 && '0' <= line[0] && line[0] <= '9' && utf8_len_capped(line, 10) >= 10 && (
            contains_char(line, '[') || contains_str(line, " INFO ") || contains_str(line, " ERROR ")) {
                proof {
                    let ln = lines_of(lc@)[i as int];
                    assert(lines@[i as int]@ == ln);
                    assert(looks_like_log_line(ln));
                }
                return true;
            }
            i = i + 1;
        }
        false
    }

    /// Parses every line; never fails.
    fn parse(&self, content: &str, _request: &ParseRequest) -> (r: Result<ParseResult, String>)
        ensures
            r matches Ok(res) && lv(res.lines@) == springboot_lines(content@) && lines_wf(res.lines@)
                && res.total_lines == lines_of(content@).len() && ov(res.detected_format) == Some("springboot"@)
                && res.parsing_errors@.len() == 0,
    {
        let lines = Self::parse_lines(content);
        let total = lines.len();
        assert(lv(lines@).len() == lines@.len());
        Ok(ParseResult {
            lines,
            total_lines: total,
            detected_format: Some(own("springboot")),
            parsing_errors: Vec::new(),
        })
    }
}

} // verus!

verus! {

/// Every line the Spring Boot parser makes goes to `stderr` exactly when its
/// level is `ERROR`, `FATAL` or `SEVERE`, and to `stdout` otherwise.
pub proof fn lemma_stream_follows_level(content: Seq<char>)
    ensures
        forall|i: int| 0 <= i < springboot_lines(content).len() ==> {
            let l = #[trigger] springboot_lines(content)[i];
            &&& l.metadata.contains_key("stream"@)
            &&& l.metadata["stream"@] == stream_of(l.level)
        },
{
    assert forall|i: int| 0 <= i < springboot_lines(content).len() implies {
        let l = #[trigger] springboot_lines(content)[i];
        &&& l.metadata.contains_key("stream"@)
        &&& l.metadata["stream"@] == stream_of(l.level)
    } by {
        let l = springboot_lines(content)[i];
        match springboot_fields(lines_of(content)[i]) {
            Some(_) => {},
            None => {
                assert(l.metadata["stream"@] == "stderr"@);
                assert(stream_of(Some("ERROR"@)) == "stderr"@);
            },
        }
    }
}

/// A level family goes to `stderr` exactly when it is `ERROR`.
pub proof fn lemma_family_stream(u: Seq<char>)
    ensures
        (stream_of(Some(level_family(u))) == "stderr"@) <==> (level_family(u) == "ERROR"@),
{
    reveal_strlit("ERROR");
    reveal_strlit("FATAL");
    reveal_strlit("SEVERE");
    reveal_strlit("WARN");
    reveal_strlit("INFO");
    reveal_strlit("DEBUG");
    reveal_strlit("stderr");
    reveal_strlit("stdout");
    let x = level_family(u);
    if x == "WARN"@ || x == "INFO"@ || x == "DEBUG"@ {
        assert(x != "ERROR"@ && x != "FATAL"@ && x != "SEVERE"@) by {
            if x == "ERROR"@ || x == "FATAL"@ || x == "SEVERE"@ {
                assert(x.len() == 5 || x.len() == 6);
                assert(x.len() == 4 || x.len() == 5);
                if x.len() == 5 {
                    assert(x[0] == 'E' || x[0] == 'F');
                    assert(x[0] == 'D' || x[0] == 'I');
                }
            }
        }
    }
    assert("stdout"@ != "stderr"@) by {
        assert("stdout"@[3] != "stderr"@[3]);
    }
}

/// Every line the Spring Boot parser makes goes to `stderr` exactly when its level
/// is `ERROR`; and a line lacks a level only where a pattern matched it without
/// giving a level.
pub proof fn lemma_springboot_error_stream(content: Seq<char>)
    ensures
        forall|i: int| 0 <= i < springboot_lines(content).len() ==> {
            let l = #[trigger] springboot_lines(content)[i];
            &&& l.metadata.contains_key("stream"@)
            &&& (l.metadata["stream"@] == "stderr"@ <==> l.level == Some("ERROR"@))
            &&& (l.level is None ==> (springboot_fields(lines_of(content)[i]) matches Some(f) && f.2 is None))
        },
{
    lemma_stream_follows_level(content);
    assert forall|i: int| 0 <= i < springboot_lines(content).len() implies {
        let l = #[trigger] springboot_lines(content)[i];
        &&& l.metadata.contains_key("stream"@)
        &&& (l.metadata["stream"@] == "stderr"@ <==> l.level == Some("ERROR"@))
        &&& (l.level is None ==> (springboot_fields(lines_of(content)[i]) matches Some(f) && f.2 is None))
    } by {
        let l = springboot_lines(content)[i];
        reveal_strlit("stdout");
        reveal_strlit("stderr");
        assert("stdout"@ != "stderr"@) by {
            assert("stdout"@[3] != "stderr"@[3]);
        }
        match springboot_fields(lines_of(content)[i]) {
            Some(f) => {
                match f.2 {
                    Some(lv) => {
                        lemma_family_stream(uppercase_of(lv));
                    },
                    None => {},
                }
            },
            None => {
                reveal_strlit("ERROR");
            },
        }
    }
}

/// Worker, Redis and scheduling thread names become a letter and their number:
/// `worker-thread-5` becomes `W5`.
pub proof fn lemma_numbered_threads(n: Seq<char>)
    ensures
        compact_thread("worker-thread-"@ + n) == seq!['W'] + n,
        compact_thread("redis-thread-"@ + n) == seq!['R'] + n,
        compact_thread("scheduling-"@ + n) == seq!['S'] + n,
{
    reveal_strlit("worker-thread-");
    reveal_strlit("redis-thread-");
    reveal_strlit("scheduling-");
    reveal_strlit("main");
    reveal_strlit("http-nio-");
    reveal_strlit("nio-");
    let w = "worker-thread-"@ + n;
    assert(w[0] == 'w');
    assert(w.take(14) =~= "worker-thread-"@);
    assert(w.skip(14) =~= n);
    assert(w != "main"@) by {
        if w.len() == 4 {
            assert(w[1] != "main"@[1]);
        }
    }
    assert(!"http-nio-"@.is_prefix_of(w)) by {
        if "http-nio-"@.is_prefix_of(w) {
            assert(w[0] == "http-nio-"@[0]);
        }
    }
    assert(!"nio-"@.is_prefix_of(w)) by {
        if "nio-"@.is_prefix_of(w) {
            assert(w[0] == "nio-"@[0]);
        }
    }
    let r = "redis-thread-"@ + n;
    assert(r[0] == 'r');
    assert(r.take(13) =~= "redis-thread-"@);
    assert(r.skip(13) =~= n);
    assert(r != "main"@) by {
        if r.len() == 4 {
            assert(r[0] != "main"@[0]);
        }
    }
    assert(!"http-nio-"@.is_prefix_of(r)) by {
        if "http-nio-"@.is_prefix_of(r) {
            assert(r[0] == "http-nio-"@[0]);
        }
    }
    assert(!"nio-"@.is_prefix_of(r)) by {
        if "nio-"@.is_prefix_of(r) {
            assert(r[0] == "nio-"@[0]);
        }
    }
    assert(!"worker-thread-"@.is_prefix_of(r)) by {
        if "worker-thread-"@.is_prefix_of(r) {
            assert(r[0] == "worker-thread-"@[0]);
        }
    }
    let s = "scheduling-"@ + n;
    assert(s[0] == 's');
    assert(s.take(11) =~= "scheduling-"@);
    assert(s.skip(11) =~= n);
    assert(s != "main"@) by {
        if s.len() == 4 {
            assert(s[0] != "main"@[0]);
        }
    }
    assert(!"http-nio-"@.is_prefix_of(s)) by {
        if "http-nio-"@.is_prefix_of(s) {
            assert(s[0] == "http-nio-"@[0]);
        }
    }
    assert(!"nio-"@.is_prefix_of(s)) by {
        if "nio-"@.is_prefix_of(s) {
            assert(s[0] == "nio-"@[0]);
        }
    }
    assert(!"worker-thread-"@.is_prefix_of(s)) by {
        if "worker-thread-"@.is_prefix_of(s) {
            assert(s[0] == "worker-thread-"@[0]);
        }
    }
    assert(!"redis-thread-"@.is_prefix_of(s)) by {
        if "redis-thread-"@.is_prefix_of(s) {
            assert(s[0] == "redis-thread-"@[0]);
        }
    }
}

/// `s` holds no white space, no `.` and no `,`.
pub open spec fn plain_part(s: Seq<char>) -> bool {
    forall|i: int| 0 <= i < s.len() ==> !is_ws(#[trigger] s[i]) && s[i] != '.' && s[i] != ','
}

/// A timestamp `D T` (date and time apart by a space or a `T`) followed by a
/// fraction of a second after `.` or `,` becomes `DTT` in ISO form: the date and
/// the time joined by `T`, the fraction dropped whichever separator it has.
pub proof fn lemma_iso_drops_fraction(d: Seq<char>, g: char, t: Seq<char>, sep: char, m: Seq<char>)
    requires
        d.len() > 0,
        plain_part(d),
        plain_part(t),
        plain_part(m),
        g == ' ' || g == 'T',
        sep == '.' || sep == ',',
    ensures
        iso_timestamp(d + seq![g] + t + seq![sep] + m) == d + seq!['T'] + t,
        crate::plugins::filters::filter_timestamp(d + seq![g] + t + seq![sep] + m) == d + seq!['T'] + t,
{
    let s = d + seq![g] + t + seq![sep] + m;
    let k: int = (d.len() + 1 + t.len()) as int;
    assert(s[0] == d[0]);
    assert(!is_ws(s.last())) by {
        if m.len() > 0 {
            assert(s.last() == m[m.len() - 1]);
        } else {
            assert(s.last() == sep);
        }
    }
    lemma_trim_noop(s);
    assert forall|j: int| 0 <= j < s.len() && j != k implies s[j] != '.' && s[j] != ',' by {
        if j < d.len() {
            assert(s[j] == d[j]);
        } else if j == d.len() {
            assert(s[j] == g);
        } else if j < k {
            assert(s[j] == t[j - d.len() - 1]);
        } else {
            assert(s[j] == m[j - k - 1]);
        }
    }
    assert(s[k] == sep);
    lemma_index_of_char(s, sep, k);
    if sep == ',' {
        assert(!s.contains('.'));
    } else {
        assert(s.contains('.'));
    }
    assert(s.contains(sep));
    let base = s.take(k);
    assert(before_char(s, sep) == base);
    assert(base =~= d + seq![g] + t);
    assert(replace_char_seq(base, ' ', 'T') =~= d + seq!['T'] + t) by {
        assert forall|j: int| 0 <= j < base.len() implies #[trigger] replace_char_seq(base, ' ', 'T')[j] == (d
            + seq!['T'] + t)[j] by {
            if j < d.len() {
                assert(base[j] == d[j]);
                assert(!is_ws(d[j]));
            } else if j > d.len() {
                assert(base[j] == t[j - d.len() - 1]);
                assert(!is_ws(t[j - d.len() - 1]));
            }
        }
    }
}

/// A Spring Boot line whose timestamp has a fraction of a second after `.` or `,`
/// gets its timestamp in ISO form without the fraction.
pub proof fn lemma_springboot_iso_timestamp(
    content: Seq<char>,
    i: int,
    d: Seq<char>,
    g: char,
    t: Seq<char>,
    sep: char,
    m: Seq<char>,
)
    requires
        0 <= i < lines_of(content).len(),
        springboot_fields(lines_of(content)[i]) matches Some(f) && f.0 == Some(d + seq![g] + t + seq![sep] + m),
        d.len() > 0,
        plain_part(d),
        plain_part(t),
        plain_part(m),
        g == ' ' || g == 'T',
        sep == '.' || sep == ',',
    ensures
        springboot_lines(content)[i].timestamp == Some(d + seq!['T'] + t),
{
    lemma_iso_drops_fraction(d, g, t, sep, m);
}

} // verus!
