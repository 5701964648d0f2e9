//! The parser of MyBatis SQL logs.
use vstd::prelude::*;
use crate::foreign::lowercase_of;
use crate::metadata::Metadata;
use crate::plugins::{LineView, LogLine, LogParser, ParseRequest, ParseResult, ResultView, lines_wf, lv, single, sv};
use crate::plugins::formatter::{normalized_level, unified, unified_display};
use crate::text::{chars_of, contains_str, lines_of, lower, own, seq_contains, split_lines, string_of};

verus! {

/// Marks the statement, parameter and update lines of MyBatis.
pub struct MyBatisParser;

/// The metadata of a MyBatis line: its `type`.
pub open spec fn mybatis_metadata(line: Seq<char>) -> Map<Seq<char>, Seq<char>> {
    let lc = lowercase_of(line);
    if seq_contains(lc, "preparing:"@) {
        Map::empty().insert("type"@, "sql_prepare"@)
    } else if seq_contains(lc, "parameters:"@) {
        Map::empty().insert("type"@, "sql_parameters"@)
    } else if seq_contains(lc, "updates:"@) {
        Map::empty().insert("type"@, "sql_updates"@)
    } else {
        Map::empty()
    }
}

/// `DEBUG` for a line that mentions `debug` (ignoring case).
pub open spec fn mybatis_level(line: Seq<char>) -> Option<Seq<char>> {
    if seq_contains(lowercase_of(line), "debug"@) {
        Some("DEBUG"@)
    } else {
        None
    }
}

/// Line `n` of a MyBatis log.
pub open spec fn mybatis_parsed_line(n: nat, line: Seq<char>) -> LineView {
    let m = mybatis_metadata(line);
    let level = mybatis_level(line);
    LineView {
        line_number: n,
        content: line,
        level: normalized_level(level),
        timestamp: None,
        formatted_content: Some(unified_display(n, line, level, None, m, "mybatis"@)),
        metadata: m,
        processed_by: seq!["mybatis_parser"@],
    }
}

/// What the MyBatis parser makes of a text.
pub open spec fn mybatis_parse_result(content: Seq<char>) -> ResultView {
    let ls = lines_of(content);
    ResultView {
        lines: ls.map(|i: int, l: Seq<char>| mybatis_parsed_line((i + 1) as nat, l)),
        total_lines: ls.len(),
        detected_format: Some("mybatis"@),
        parsing_errors: Seq::empty(),
    }
}

fn mybatis_line_exec(n: usize, line: &Vec<char>) -> (r: LogLine)
    ensures
        r@ == mybatis_parsed_line(n as nat, line@),
        r.wf(),
{
    let lc = lower(line);
    let mut metadata = Metadata::new();
    if contains_str(&lc, "preparing:") {
        metadata.insert_str("type", own("sql_prepare"));
    } else if contains_str(&lc, "parameters:") {
        metadata.insert_str("type", own("sql_parameters"));
    } else if contains_str(&lc, "updates:") {
        metadata.insert_str("type", own("sql_updates"));
    }
    let level = if contains_str(&lc, "debug") {
        Some(own("DEBUG"))
    } else {
        None
    };
    let s = string_of(line);
    let (d, nl, ts) = unified(n, s.as_str(), level, None, &metadata, "mybatis");
    let r = LogLine {
        line_number: n,
        content: s,
        level: nl,
        timestamp: ts,
        formatted_content: Some(d),
        metadata,
        processed_by: single("mybatis_parser"),
    };
    assert(r@ =~= mybatis_parsed_line(n as nat, line@));
    r
}

impl LogParser for MyBatisParser {
    fn name(&self) -> (r: &str)
        ensures
            r@ == "mybatis"@,
    {
        "mybatis"
    }

    fn description(&self) -> (r: &str)
        ensures
            r@ == "MyBatis SQL 日志解析器"@,
    {
        "MyBatis SQL 日志解析器"
    }

    fn supported_extensions(&self) -> (r: Vec<String>)
        ensures
            sv(r@) == seq!["log"@, "txt"@],
    {
        let mut r: Vec<String> = Vec::new();
        r.push(own("log"));
        r.push(own("txt"));
        assert(sv(r@) =~= seq!["log"@, "txt"@]);
        r
    }

    /// Whether the text mentions `mybatis`, `preparing:` or `parameters:` (ignoring case).
    fn can_parse(&self, content: &str, _file_path: Option<&str>) -> (b: bool)
        ensures
            b == (seq_contains(lowercase_of(content@), "mybatis"@) || seq_contains(lowercase_of(content@), "preparing:"@)
                || seq_contains(lowercase_of(content@), "parameters:"@)),
    {
        let c = chars_of(content);
        let lc = lower(&c);
        contains_str(&lc, "mybatis") || contains_str(&lc, "preparing:") || contains_str(&lc, "parameters:")
    }

    /// Every line with its SQL kind and level.
    fn parse(&self, content: &str, _request: &ParseRequest) -> (r: Result<ParseResult, String>)
        ensures
            r matches Ok(res) && res@ == mybatis_parse_result(content@) && lines_wf(res.lines@),
    {
        let c = chars_of(content);
        let ls = split_lines(&c);
        let ghost lsv = lines_of(c@);
        let ghost want = lsv.map(|i: int, l: Seq<char>| mybatis_parsed_line((i + 1) as nat, l));
        let mut out: Vec<LogLine> = Vec::new();
        let mut i: usize = 0;
        while i < ls.len()
            invariant
                i <= ls@.len(),
                ls@.len() == lsv.len(),
                forall|k: int| 0 <= k < ls@.len() ==> #[trigger] ls@[k]@ == lsv[k],
                want == lsv.map(|i: int, l: Seq<char>| mybatis_parsed_line((i + 1) as nat, l)),
                lv(out@) == want.take(i as int),
                lines_wf(out@),
            decreases ls.len() - i,
        {
            let l = mybatis_line_exec(i + 1, &ls[i]);
            let ghost prev = out@;
            out.push(l);
            assert(ls@[i as int]@ == lsv[i as int]);
            assert(lv(out@) =~= lv(prev).push(l@));
            assert(lv(out@) =~= want.take(i as int + 1));
            i = i + 1;
        }
        assert(want.take(ls@.len() as int) =~= want);
        let total = ls.len();
        let res = ParseResult {
            lines: out,
            total_lines: total,
            detected_format: Some(own("mybatis")),
            parsing_errors: Vec::new(),
        };
        assert(res@ =~= mybatis_parse_result(content@));
        Ok(res)
    }
}

/// Every line of a MyBatis log is marked by the first SQL stage its lower-cased text
/// names: `preparing:` gives type `sql_prepare`; otherwise `parameters:` gives
/// `sql_parameters`, then `updates:` gives `sql_updates`; a line that names none of
/// them has no type. The type is the only metadata.
pub proof fn lemma_mybatis_line_types(content: Seq<char>, i: int)
    requires
        0 <= i < lines_of(content).len(),
    ensures
        ({
            let l = mybatis_parse_result(content).lines[i];
            let lc = lowercase_of(lines_of(content)[i]);
            &&& l.line_number == i + 1
            &&& l.content == lines_of(content)[i]
            &&& seq_contains(lc, "preparing:"@) ==> l.metadata == Map::<Seq<char>, Seq<char>>::empty().insert(
                "type"@,
                "sql_prepare"@,
            )
            &&& !seq_contains(lc, "preparing:"@) && seq_contains(lc, "parameters:"@) ==> l.metadata == Map::<
                Seq<char>,
                Seq<char>,
            >::empty().insert("type"@, "sql_parameters"@)
            &&& !seq_contains(lc, "preparing:"@) && !seq_contains(lc, "parameters:"@) && seq_contains(lc, "updates:"@)
                ==> l.metadata == Map::<Seq<char>, Seq<char>>::empty().insert("type"@, "sql_updates"@)
            &&& !seq_contains(lc, "preparing:"@) && !seq_contains(lc, "parameters:"@) && !seq_contains(
                lc,
                "updates:"@,
            ) ==> l.metadata == Map::<Seq<char>, Seq<char>>::empty()
        }),
{
}

} // verus!
