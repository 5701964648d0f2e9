//! The parser of Docker's JSON log lines.
use vstd::prelude::*;
use crate::foreign::{json_string_members, json_string_members_of, lowercase_of, members_view, opt_view};
use crate::metadata::Metadata;
use crate::plugins::{
    LineView, LogLine, LogParser, ParseRequest, ParseResult, ResultView, copy_opt, lines_wf, lv, ov, single, sv,
};
use crate::plugins::filters::{docker_keys, docker_wants, group_or};
use crate::plugins::formatter::{trim_end_char, trim_end_char_seq, unified, unified_display};
use crate::plugins::springboot::{group, group_of};
use crate::text::{
    append, append_str, chars_of, contains_str, lemma_contains_prefix, decimal, decimal_chars, lines_of, lower, own, seq_contains, split_lines,
    string_of, trim_start,
};

verus! {

/// Reads each line as a Docker JSON object: `log`, `stream` and `time`.
pub struct DockerJsonParser;

/// The level named in a log message (ignoring case), checked from `error` down to `debug`.
pub open spec fn log_level_of(log: Seq<char>) -> Option<Seq<char>> {
    let lc = lowercase_of(log);
    if seq_contains(lc, "error"@) || seq_contains(lc, "err"@) {
        Some("ERROR"@)
    } else if seq_contains(lc, "warn"@) || seq_contains(lc, "warning"@) {
        Some("WARN"@)
    } else if seq_contains(lc, "info"@) {
        Some("INFO"@)
    } else if seq_contains(lc, "debug"@) {
        Some("DEBUG"@)
    } else {
        None
    }
}

/// Line `n` of a Docker log, given what reading it as JSON gave (the `stream`,
/// `time` and `log` members, or the parse error), and the error recorded for it
/// when it is not JSON.
pub open spec fn docker_line_from(n: nat, line: Seq<char>, members: Result<Seq<Option<Seq<char>>>, Seq<char>>) -> (LineView, Option<Seq<char>>) {
    match members {
        Ok(ms) => {
            let m = match group(ms, 0) {
                Some(st) => Map::empty().insert("stream"@, st),
                None => Map::empty(),
            };
            let log = trim_end_char_seq(group_or(ms, 2, line), '\n');
            let level = log_level_of(log);
            let ts = group(ms, 1);
            (
                LineView {
                    line_number: n,
                    content: log,
                    level,
                    timestamp: ts,
                    formatted_content: Some(unified_display(n, log, level, ts, m, "docker_json"@)),
                    metadata: m,
                    processed_by: seq!["docker_json_parser"@],
                },
                None,
            )
        },
        Err(e) => (
            LineView {
                line_number: n,
                content: line,
                level: None,
                timestamp: None,
                formatted_content: Some(unified_display(n, line, None, None, Map::empty(), "docker_json"@)),
                metadata: Map::empty(),
                processed_by: seq!["docker_json_parser"@],
            },
            Some("Line "@ + decimal(n) + ": Failed to parse JSON: "@ + e),
        ),
    }
}

/// Line `n` of a Docker log, and the error recorded for it when it is not JSON.
pub open spec fn docker_parsed_line(n: nat, line: Seq<char>) -> (LineView, Option<Seq<char>>) {
    docker_line_from(n, line, json_string_members_of(line, docker_keys()))
}

/// The errors of the first `k` lines, in order.
pub open spec fn docker_errors(ls: Seq<Seq<char>>, k: nat) -> Seq<Seq<char>>
    decreases k,
{
    if k == 0 {
        Seq::empty()
    } else {
        let prev = docker_errors(ls, (k - 1) as nat);
        match docker_parsed_line(k, ls[k - 1]).1 {
            Some(e) => prev.push(e),
            None => prev,
        }
    }
}

/// What the Docker JSON parser makes of a text.
pub open spec fn docker_parse_result(content: Seq<char>) -> ResultView {
    let ls = lines_of(content);
    ResultView {
        lines: ls.map(|i: int, l: Seq<char>| docker_parsed_line((i + 1) as nat, l).0),
        total_lines: ls.len(),
        detected_format: Some("docker_json"@),
        parsing_errors: docker_errors(ls, ls.len()),
    }
}

/// The level named in a log message.
pub fn extract_level_from_log(log: &str) -> (r: Option<String>)
    ensures
        ov(r) == log_level_of(log@),
{
    let c = chars_of(log);
    let lc = lower(&c);
    if contains_str(&lc, "error") || contains_str(&lc, "err") {
        Some(own("ERROR"))
    } else if contains_str(&lc, "warn") || contains_str(&lc, "warning") {
        Some(own("WARN"))
    } else if contains_str(&lc, "info") {
        Some(own("INFO"))
    } else if contains_str(&lc, "debug") {
        Some(own("DEBUG"))
    } else {
        None
    }
}

fn docker_keys_list() -> (r: Vec<String>)
    ensures
        r@.map_values(|k: String| k@) == docker_keys(),
{
    let mut r: Vec<String> = Vec::new();
    r.push(own("stream"));
    r.push(own("time"));
    r.push(own("log"));
    assert(r@.map_values(|k: String| k@) =~= docker_keys());
    r
}

fn docker_parsed_exec(n: usize, line: &Vec<char>) -> (r: (LogLine, Option<String>))
    ensures
        r.0@ == docker_parsed_line(n as nat, line@).0,
        ov(r.1) == docker_parsed_line(n as nat, line@).1,
        r.0.wf(),
{
    let s = string_of(line);
    let keys = docker_keys_list();
    let members = json_string_members(s.as_str(), &keys);
    assert(members_view(members) == json_string_members_of(line@, docker_keys()));
    DockerJsonParser::line_from_members(n, s.as_str(), &members)
}

impl DockerJsonParser {
    /// Line `n` of a Docker log, given what reading it as JSON gave: the `stream`,
    /// `time` and `log` members in that order, or the parse error. Hands back the
    /// parsed line and, for a line that is not JSON, the error to record.
    pub fn line_from_members(n: usize, line: &str, members: &Result<Vec<Option<String>>, String>) -> (r: (LogLine, Option<String>))
        ensures
            r.0@ == docker_line_from(n as nat, line@, members_view(*members)).0,
            ov(r.1) == docker_line_from(n as nat, line@, members_view(*members)).1,
            r.0.wf(),
    {
        let s = own(line);
        let chars = chars_of(line);
        match members {
            Ok(ms) => {
                let ghost g = ms@.map_values(|o: Option<String>| opt_view(o));
                let mut metadata = Metadata::new();
                if let Some(st) = group_of(ms, 0) {
                    metadata.insert_str("stream", string_of(&st));
                }
                let raw_log = match group_of(ms, 2) {
                    Some(x) => x,
                    None => chars.clone(),
                };
                let log = trim_end_char(&raw_log, '\n');
                let log_s = string_of(&log);
                let level = extract_level_from_log(log_s.as_str());
                let ts = match group_of(ms, 1) {
                    Some(t) => Some(string_of(&t)),
                    None => None,
                };
                let (d, _, _) = unified(n, log_s.as_str(), copy_opt(&level), copy_opt(&ts), &metadata, "docker_json");
                let r = LogLine {
                    line_number: n,
                    content: log_s,
                    level,
                    timestamp: ts,
                    formatted_content: Some(d),
                    metadata,
                    processed_by: single("docker_json_parser"),
                };
                assert(r@ =~= docker_line_from(n as nat, line@, members_view(*members)).0);
                (r, None)
            },
            Err(e) => {
                let metadata = Metadata::new();
                let (d, lvl, ts) = unified(n, s.as_str(), None, None, &metadata, "docker_json");
                let mut msg = chars_of("Line ");
                let num = decimal_chars(n);
                append(&mut msg, &num);
                append_str(&mut msg, ": Failed to parse JSON: ");
                append_str(&mut msg, e.as_str());
                let r = LogLine {
                    line_number: n,
                    content: s,
                    level: lvl,
                    timestamp: ts,
                    formatted_content: Some(d),
                    metadata,
                    processed_by: single("docker_json_parser"),
                };
                assert(r@ =~= docker_line_from(n as nat, line@, members_view(*members)).0);
                (r, Some(string_of(&msg)))
            },
        }
    }
}

impl LogParser for DockerJsonParser {
    fn name(&self) -> (r: &str)
        ensures
            r@ == "docker_json"@,
    {
        "docker_json"
    }

    fn description(&self) -> (r: &str)
        ensures
            r@ == "Docker JSON 日志解析器"@,
    {
        "Docker JSON 日志解析器"
    }

    fn supported_extensions(&self) -> (r: Vec<String>)
        ensures
            sv(r@) == seq!["json"@, "log"@],
    {
        let mut r: Vec<String> = Vec::new();
        r.push(own("json"));
        r.push(own("log"));
        assert(sv(r@) =~= seq!["json"@, "log"@]);
        r
    }

    /// Whether the first line starts with `{` (after white space) and mentions
    /// `"log"` or `"stream"`.
    fn can_parse(&self, content: &str, _file_path: Option<&str>) -> (b: bool)
        ensures
            b == (lines_of(content@).len() > 0 && docker_wants(lines_of(content@)[0])),
    {
        let c = chars_of(content);
        let ls = split_lines(&c);
        if ls.len() == 0 {
            return false;
        }
        let first = &ls[0];
        assert(first@ == lines_of(c@)[0]);
        let t = trim_start(first);
        t.len() > 0 && t[0] == '{' && (contains_str(first, "\"log\"") || contains_str(first, "\"stream\""))
    }

    /// Every line read as JSON; a line that is not JSON is kept as it is and its
    /// error recorded.
    fn parse(&self, content: &str, _request: &ParseRequest) -> (r: Result<ParseResult, String>)
        ensures
            r matches Ok(res) && res@ == docker_parse_result(content@) && lines_wf(res.lines@),
    {
        let c = chars_of(content);
        let ls = split_lines(&c);
        let ghost lsv = lines_of(c@);
        let ghost want = lsv.map(|i: int, l: Seq<char>| docker_parsed_line((i + 1) as nat, l).0);
        let mut out: Vec<LogLine> = Vec::new();
        let mut errors: Vec<String> = Vec::new();
        let mut i: usize = 0;
        while i < ls.len()
            invariant
                i <= ls@.len(),
                ls@.len() == lsv.len(),
                forall|k: int| 0 <= k < ls@.len() ==> #[trigger] ls@[k]@ == lsv[k],
                want == lsv.map(|i: int, l: Seq<char>| docker_parsed_line((i + 1) as nat, l).0),
                lv(out@) == want.take(i as int),
                sv(errors@) == docker_errors(lsv, i as nat),
                lines_wf(out@),
            decreases ls.len() - i,
        {
            let (l, e) = docker_parsed_exec(i + 1, &ls[i]);
            let ghost prev = out@;
            out.push(l);
            assert(ls@[i as int]@ == lsv[i as int]);
            assert(lv(out@) =~= lv(prev).push(l@));
            assert(lv(out@) =~= want.take(i as int + 1));
            if let Some(m) = e {
                let ghost pe = errors@;
                errors.push(m);
                assert(sv(errors@) =~= sv(pe).push(m@));
            }
            i = i + 1;
        }
        assert(want.take(ls@.len() as int) =~= want);
        let total = ls.len();
        let res = ParseResult {
            lines: out,
            total_lines: total,
            detected_format: Some(own("docker_json")),
            parsing_errors: errors,
        };
        assert(res@ =~= docker_parse_result(content@));
        Ok(res)
    }
}

/// How many of the first `k` lines are not JSON objects that serde_json reads.
pub open spec fn non_json_count(ls: Seq<Seq<char>>, k: nat) -> nat
    decreases k,
{
    if k == 0 {
        0
    } else {
        non_json_count(ls, (k - 1) as nat) + if json_string_members_of(ls[k - 1], docker_keys()) is Err {
            1nat
        } else {
            0nat
        }
    }
}

proof fn lemma_docker_errors_count(ls: Seq<Seq<char>>, k: nat)
    requires
        k <= ls.len(),
    ensures
        docker_errors(ls, k).len() == non_json_count(ls, k),
    decreases k,
{
    if k > 0 {
        lemma_docker_errors_count(ls, (k - 1) as nat);
    }
}

/// The Docker parser keeps one line per input line, numbered from 1, and records
/// one error per line that is not JSON; such a line keeps its text, and a JSON line
/// shows its `log` member without the trailing newlines (the whole line when it has
/// no `log` member).
pub proof fn lemma_docker_errors_per_line(content: Seq<char>)
    ensures
        docker_parse_result(content).lines.len() == lines_of(content).len(),
        docker_parse_result(content).total_lines == lines_of(content).len(),
        docker_parse_result(content).detected_format == Some("docker_json"@),
        docker_parse_result(content).parsing_errors.len() == non_json_count(lines_of(content), lines_of(content).len()),
        forall|i: int| 0 <= i < lines_of(content).len() ==> {
            let l = #[trigger] docker_parse_result(content).lines[i];
            let line = lines_of(content)[i];
            &&& l.line_number == i + 1
            &&& (json_string_members_of(line, docker_keys()) is Err ==> l.content == line)
            &&& (json_string_members_of(line, docker_keys()) matches Ok(ms) ==> l.content == trim_end_char_seq(
                group_or(ms, 2, line),
                '\n',
            ))
        },
{
    let ls = lines_of(content);
    lemma_docker_errors_count(ls, ls.len());
}

/// The level named in a Docker log message follows the words of its lower-cased
/// text: `err` gives `ERROR`; otherwise `warn` gives `WARN`, then `info` and `debug`
/// give `INFO` and `DEBUG`, in that order; none of them gives no level.
pub proof fn lemma_log_level_words(log: Seq<char>)
    ensures
        ({
            let lc = lowercase_of(log);
            &&& seq_contains(lc, "err"@) ==> log_level_of(log) == Some("ERROR"@)
            &&& !seq_contains(lc, "err"@) && seq_contains(lc, "warn"@) ==> log_level_of(log) == Some("WARN"@)
            &&& !seq_contains(lc, "err"@) && !seq_contains(lc, "warn"@) && seq_contains(lc, "info"@) ==> log_level_of(
                log,
            ) == Some("INFO"@)
            &&& !seq_contains(lc, "err"@) && !seq_contains(lc, "warn"@) && !seq_contains(lc, "info"@)
                && seq_contains(lc, "debug"@) ==> log_level_of(log) == Some("DEBUG"@)
            &&& !seq_contains(lc, "err"@) && !seq_contains(lc, "warn"@) && !seq_contains(lc, "info"@)
                && !seq_contains(lc, "debug"@) ==> log_level_of(log) is None
        }),
{
    let lc = lowercase_of(log);
    reveal_strlit("err");
    reveal_strlit("error");
    reveal_strlit("warn");
    reveal_strlit("warning");
    assert("err"@.is_prefix_of("error"@));
    assert("warn"@.is_prefix_of("warning"@));
    if seq_contains(lc, "error"@) {
        lemma_contains_prefix(lc, "error"@, "err"@);
    }
    if seq_contains(lc, "warning"@) {
        lemma_contains_prefix(lc, "warning"@, "warn"@);
    }
}

/// A Docker JSON line gets the level its message names (see `lemma_log_level_words`):
/// a message that holds `info` but neither `err` nor `warn` (ignoring case) gets
/// `INFO`. A line that is not JSON gets no level.
pub proof fn lemma_docker_line_level(content: Seq<char>, i: int)
    requires
        0 <= i < lines_of(content).len(),
    ensures
        ({
            let l = docker_parse_result(content).lines[i];
            let lc = lowercase_of(l.content);
            &&& json_string_members_of(lines_of(content)[i], docker_keys()) is Err ==> l.level is None
            &&& json_string_members_of(lines_of(content)[i], docker_keys()) is Ok ==> {
                &&& l.level == log_level_of(l.content)
                &&& (!seq_contains(lc, "err"@) && !seq_contains(lc, "warn"@) && seq_contains(lc, "info"@)
                    ==> l.level == Some("INFO"@))
            }
        }),
{
    let l = docker_parse_result(content).lines[i];
    lemma_log_level_words(l.content);
}

} // verus!
