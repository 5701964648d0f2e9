//! The parser that guesses a level and a timestamp on every line.
use vstd::prelude::*;
use crate::foreign::lowercase_of;
use crate::metadata::Metadata;
use crate::plugins::{LineView, LogLine, LogParser, ParseRequest, ParseResult, ResultView, lines_wf, lv, single, sv};
use crate::text::{
    chars_of, contains_str, is_ascii_digit, lemma_contains_prefix, lines_of, lower, own, seq_contains, slice, split_lines, string_of, trim,
    trim_seq,
};

verus! {

/// Guesses the level and timestamp of any line.
pub struct AutoParser;

/// The level named in a line (ignoring case), checked from `error` down to `trace`.
pub open spec fn guessed_line_level(line: Seq<char>) -> Option<Seq<char>> {
    let lc = lowercase_of(line);
    if seq_contains(lc, "error"@) || seq_contains(lc, "err"@) {
        Some("ERROR"@)
    } else if seq_contains(lc, "warn"@) || seq_contains(lc, "warning"@) {
        Some("WARN"@)
    } else if seq_contains(lc, "info"@) {
        Some("INFO"@)
    } else if seq_contains(lc, "debug"@) {
        Some("DEBUG"@)
    } else if seq_contains(lc, "trace"@) {
        Some("TRACE"@)
    } else {
        None
    }
}

/// `s[i]` exists and is an ASCII digit.
pub open spec fn digit_at(s: Seq<char>, i: int) -> bool {
    0 <= i < s.len() && is_ascii_digit(s[i])
}

/// `s` starts with a date and a time: `YYYY-MM-DD HH:MM:SS`, with a space or a `T`
/// between date and time.
pub open spec fn starts_with_date_time(s: Seq<char>) -> bool {
    &&& digit_at(s, 0) && digit_at(s, 1) && digit_at(s, 2) && digit_at(s, 3)
    &&& s.len() > 4 && s[4] == '-'
    &&& digit_at(s, 5) && digit_at(s, 6)
    &&& s.len() > 7 && s[7] == '-'
    &&& digit_at(s, 8) && digit_at(s, 9)
    &&& s.len() > 10 && (s[10] == ' ' || s[10] == 'T')
    &&& digit_at(s, 11) && digit_at(s, 12)
    &&& s.len() > 13 && s[13] == ':'
    &&& digit_at(s, 14) && digit_at(s, 15)
    &&& s.len() > 16 && s[16] == ':'
    &&& digit_at(s, 17) && digit_at(s, 18)
}

/// How many ASCII digits follow one another in `s` from index `i` on.
pub open spec fn digit_run(s: Seq<char>, i: nat) -> nat
    decreases s.len() - i,
{
    if digit_at(s, i as int) {
        1 + digit_run(s, i + 1)
    } else {
        0
    }
}

/// The leading date-time of a line that starts with one, with its fraction of a
/// second (digits after `.` or `,`) when it has one.
pub open spec fn date_time_token(s: Seq<char>) -> Seq<char> {
    if s.len() > 19 && (s[19] == '.' || s[19] == ',') && digit_run(s, 20) > 0 {
        s.take(20 + digit_run(s, 20) as int)
    } else {
        s.take(19)
    }
}

/// The timestamp of a line of more than 20 characters: its leading date-time when
/// it starts with one, else the whole line (the timestamp is assumed to lead the
/// line). Shorter lines have none.
pub open spec fn guessed_timestamp(line: Seq<char>) -> Option<Seq<char>> {
    if line.len() > 20 {
        if starts_with_date_time(line) {
            Some(date_time_token(line))
        } else {
            Some(line)
        }
    } else {
        None
    }
}

fn digit_at_exec(s: &Vec<char>, i: usize) -> (b: bool)
    ensures
        b == digit_at(s@, i as int),
{
    i < s.len() && '0' <= s[i] && s[i] <= '9'
}

fn starts_with_date_time_exec(s: &Vec<char>) -> (b: bool)
    ensures
        b == starts_with_date_time(s@),
{
    digit_at_exec(s, 0) && digit_at_exec(s, 1) && digit_at_exec(s, 2) && digit_at_exec(s, 3) && s.len() > 4
        && s[4] == '-' && digit_at_exec(s, 5) && digit_at_exec(s, 6) && s.len() > 7 && s[7] == '-'
        && digit_at_exec(s, 8) && digit_at_exec(s, 9) && s.len() > 10 && (s[10] == ' ' || s[10] == 'T')
        && digit_at_exec(s, 11) && digit_at_exec(s, 12) && s.len() > 13 && s[13] == ':' && digit_at_exec(s, 14)
        && digit_at_exec(s, 15) && s.len() > 16 && s[16] == ':' && digit_at_exec(s, 17) && digit_at_exec(s, 18)
}

fn digit_run_exec(s: &Vec<char>, i: usize) -> (n: usize)
    requires
        i <= s.len(),
    ensures
        n == digit_run(s@, i as nat),
        i + n <= s.len(),
{
    let mut k: usize = i;
    while k < s.len() && digit_at_exec(s, k)
        invariant
            i <= k <= s.len(),
            forall|m: int| i <= m < k ==> digit_at(s@, m),
        decreases s.len() - k,
    {
        k = k + 1;
    }
    let mut j: usize = k;
    let mut n: usize = 0;
    while j > i
        invariant
            i <= j <= k,
            k <= s.len(),
            !digit_at(s@, k as int),
            forall|m: int| i <= m < k ==> digit_at(s@, m),
            n == k - j,
            n == digit_run(s@, j as nat),
        decreases j - i,
    {
        j = j - 1;
        n = n + 1;
    }
    n
}

fn timestamp_exec(c: &Vec<char>) -> (r: Option<Vec<char>>)
    ensures
        match r {
            Some(t) => guessed_timestamp(c@) == Some(t@),
            None => guessed_timestamp(c@) is None,
        },
{
    if c.len() > 20 {
        if starts_with_date_time_exec(c) {
            let run = if c[19] == '.' || c[19] == ',' {
                digit_run_exec(c, 20)
            } else {
                0
            };
            let end = if run > 0 {
                20 + run
            } else {
                19
            };
            let t = slice(c, 0, end);
            assert(t@ =~= date_time_token(c@));
            Some(t)
        } else {
            Some(c.clone())
        }
    } else {
        None
    }
}

/// The guessed level and timestamp, also kept in the metadata.
pub open spec fn auto_metadata(line: Seq<char>) -> Map<Seq<char>, Seq<char>> {
    let m1 = match guessed_line_level(line) {
        Some(l) => Map::empty().insert("level"@, l),
        None => Map::empty(),
    };
    match guessed_timestamp(line) {
        Some(t) => m1.insert("timestamp"@, t),
        None => m1,
    }
}

/// Line `n` as the auto parser reads it.
pub open spec fn auto_line(n: nat, line: Seq<char>) -> LineView {
    LineView {
        line_number: n,
        content: line,
        level: guessed_line_level(line),
        timestamp: guessed_timestamp(line),
        formatted_content: Some(trim_seq(line)),
        metadata: auto_metadata(line),
        processed_by: seq!["auto_parser"@],
    }
}

/// What the auto parser makes of a text.
pub open spec fn auto_result(content: Seq<char>) -> ResultView {
    let ls = lines_of(content);
    ResultView {
        lines: ls.map(|i: int, l: Seq<char>| auto_line((i + 1) as nat, l)),
        total_lines: ls.len(),
        detected_format: Some("auto"@),
        parsing_errors: Seq::empty(),
    }
}

/// The level and timestamp guessed for a line.
pub fn extract_level_and_timestamp(line: &str) -> (r: (Option<String>, Option<String>))
    ensures
        crate::plugins::ov(r.0) == guessed_line_level(line@),
        crate::plugins::ov(r.1) == guessed_timestamp(line@),
{
    let c = chars_of(line);
    let lc = lower(&c);
    let level = if contains_str(&lc, "error") || contains_str(&lc, "err") {
        Some(own("ERROR"))
    } else if contains_str(&lc, "warn") || contains_str(&lc, "warning") {
        Some(own("WARN"))
    } else if contains_str(&lc, "info") {
        Some(own("INFO"))
    } else if contains_str(&lc, "debug") {
        Some(own("DEBUG"))
    } else if contains_str(&lc, "trace") {
        Some(own("TRACE"))
    } else {
        None
    };
    let timestamp = match timestamp_exec(&c) {
        Some(t) => Some(string_of(&t)),
        None => None,
    };
    (level, timestamp)
}

fn auto_line_exec(n: usize, line: &Vec<char>) -> (r: LogLine)
    ensures
        r@ == auto_line(n as nat, line@),
        r.wf(),
{
    let s = string_of(line);
    let (level, timestamp) = extract_level_and_timestamp(s.as_str());
    let mut metadata = Metadata::new();
    if let Some(l) = &level {
        metadata.insert_str("level", l.clone());
    }
    if let Some(t) = &timestamp {
        metadata.insert_str("timestamp", t.clone());
    }
    let r = LogLine {
        line_number: n,
        content: s,
        level,
        timestamp,
        formatted_content: Some(string_of(&trim(line))),
        metadata,
        processed_by: single("auto_parser"),
    };
    assert(r@ =~= auto_line(n as nat, line@));
    r
}

impl LogParser for AutoParser {
    fn name(&self) -> (r: &str)
        ensures
            r@ == "auto"@,
    {
        "auto"
    }

    fn description(&self) -> (r: &str)
        ensures
            r@ == "自动检测日志格式"@,
    {
        "自动检测日志格式"
    }

    fn supported_extensions(&self) -> (r: Vec<String>)
        ensures
            sv(r@) == seq!["*"@],
    {
        single("*")
    }

    fn can_parse(&self, _content: &str, _file_path: Option<&str>) -> (b: bool)
        ensures
            b,
    {
        true
    }

    /// Every line with its guessed level and timestamp.
    fn parse(&self, content: &str, _request: &ParseRequest) -> (r: Result<ParseResult, String>)
        ensures
            r matches Ok(res) && res@ == auto_result(content@) && lines_wf(res.lines@),
    {
        let c = chars_of(content);
        let ls = split_lines(&c);
        let ghost lsv = lines_of(c@);
        let ghost want = lsv.map(|i: int, l: Seq<char>| auto_line((i + 1) as nat, l));
        let mut out: Vec<LogLine> = Vec::new();
        let mut i: usize = 0;
        while i < ls.len()
            invariant
                i <= ls@.len(),
                ls@.len() == lsv.len(),
                forall|k: int| 0 <= k < ls@.len() ==> #[trigger] ls@[k]@ == lsv[k],
                want == lsv.map(|i: int, l: Seq<char>| auto_line((i + 1) as nat, l)),
                lv(out@) == want.take(i as int),
                lines_wf(out@),
            decreases ls.len() - i,
        {
            let l = auto_line_exec(i + 1, &ls[i]);
            let ghost prev = out@;
            out.push(l);
            assert(ls@[i as int]@ == lsv[i as int]);
            assert(lv(out@) =~= lv(prev).push(l@));
            assert(lv(out@) =~= want.take(i as int + 1));
            i = i + 1;
        }
        assert(want.take(ls@.len() as int) =~= want);
        let total = ls.len();
        let res = ParseResult {
            lines: out,
            total_lines: total,
            detected_format: Some(own("auto")),
            parsing_errors: Vec::new(),
        };
        assert(res@ =~= auto_result(content@));
        Ok(res)
    }
}

/// The level guessed for a line follows the words its lower-cased text holds: `err`
/// gives `ERROR`; otherwise `warn` gives `WARN`, then `info`, `debug` and `trace`
/// give `INFO`, `DEBUG` and `TRACE`, in that order; none of them gives no level.
pub proof fn lemma_guessed_level_words(line: Seq<char>)
    ensures
        ({
            let lc = lowercase_of(line);
            &&& seq_contains(lc, "err"@) ==> guessed_line_level(line) == Some("ERROR"@)
            &&& !seq_contains(lc, "err"@) && seq_contains(lc, "warn"@) ==> guessed_line_level(line) == Some("WARN"@)
            &&& !seq_contains(lc, "err"@) && !seq_contains(lc, "warn"@) && seq_contains(lc, "info"@)
                ==> guessed_line_level(line) == Some("INFO"@)
            &&& !seq_contains(lc, "err"@) && !seq_contains(lc, "warn"@) && !seq_contains(lc, "info"@)
                && seq_contains(lc, "debug"@) ==> guessed_line_level(line) == Some("DEBUG"@)
            &&& !seq_contains(lc, "err"@) && !seq_contains(lc, "warn"@) && !seq_contains(lc, "info"@)
                && !seq_contains(lc, "debug"@) && seq_contains(lc, "trace"@) ==> guessed_line_level(line) == Some(
                "TRACE"@,
            )
            &&& !seq_contains(lc, "err"@) && !seq_contains(lc, "warn"@) && !seq_contains(lc, "info"@)
                && !seq_contains(lc, "debug"@) && !seq_contains(lc, "trace"@) ==> guessed_line_level(line) is None
        }),
{
    let lc = lowercase_of(line);
    reveal_strlit("err");
    reveal_strlit("error");
    reveal_strlit("warn");
    reveal_strlit("warning");
    assert("err"@.is_prefix_of("error"@));
    assert("warn"@.is_prefix_of("warning"@));
    if seq_contains(lc, "error"@) {
        lemma_contains_prefix(lc, "error"@, "err"@);
    }
    if seq_contains(lc, "warning"@) {
        lemma_contains_prefix(lc, "warning"@, "warn"@);
    }
}

/// Every line the auto parser reads carries its guessed level both as its level and
/// under the `level` key, and that level follows the words of the line as
/// `lemma_guessed_level_words` says; in particular a line that holds `warn` and not
/// `err` (ignoring case) gets `WARN`.
pub proof fn lemma_auto_line_level(content: Seq<char>, i: int)
    requires
        0 <= i < lines_of(content).len(),
    ensures
        ({
            let l = auto_result(content).lines[i];
            let lc = lowercase_of(lines_of(content)[i]);
            &&& l.level == guessed_line_level(lines_of(content)[i])
            &&& (l.level matches Some(v) ==> l.metadata.contains_key("level"@) && l.metadata["level"@] == v)
            &&& (l.level is None ==> !l.metadata.contains_key("level"@))
            &&& (!seq_contains(lc, "err"@) && seq_contains(lc, "warn"@) ==> l.level == Some("WARN"@)
                && l.metadata["level"@] == "WARN"@)
        }),
{
    let line = lines_of(content)[i];
    lemma_guessed_level_words(line);
    reveal_strlit("level");
    reveal_strlit("timestamp");
    assert("timestamp"@ != "level"@) by {
        assert("timestamp"@.len() != "level"@.len());
    }
}

} // verus!
