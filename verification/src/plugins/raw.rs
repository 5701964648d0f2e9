//! The parser of plain text: every line as it is, in the unified display format.
use vstd::prelude::*;
use crate::metadata::Metadata;
use crate::plugins::{LineView, LogLine, LogParser, ParseRequest, ParseResult, ResultView, lines_wf, lv, single, sv};
use crate::plugins::formatter::{unified, unified_display};
use crate::text::{chars_of, lines_of, own, split_lines, string_of};

verus! {

/// Takes any text line by line.
pub struct RawParser;

/// Line `n` of a plain text.
pub open spec fn raw_line(n: nat, line: Seq<char>) -> LineView {
    LineView {
        line_number: n,
        content: line,
        level: None,
        timestamp: None,
        formatted_content: Some(unified_display(n, line, None, None, Map::empty(), "raw"@)),
        metadata: Map::empty(),
        processed_by: seq!["raw_parser"@],
    }
}

/// What the raw parser makes of a text.
pub open spec fn raw_result(content: Seq<char>) -> ResultView {
    let ls = lines_of(content);
    ResultView {
        lines: ls.map(|i: int, l: Seq<char>| raw_line((i + 1) as nat, l)),
        total_lines: ls.len(),
        detected_format: Some("raw"@),
        parsing_errors: Seq::empty(),
    }
}

fn raw_line_exec(n: usize, line: &Vec<char>) -> (r: LogLine)
    ensures
        r@ == raw_line(n as nat, line@),
        r.wf(),
{
    let metadata = Metadata::new();
    let s = string_of(line);
    let (d, level, ts) = unified(n, s.as_str(), None, None, &metadata, "raw");
    let r = LogLine {
        line_number: n,
        content: s,
        level,
        timestamp: ts,
        formatted_content: Some(d),
        metadata,
        processed_by: single("raw_parser"),
    };
    assert(r@ =~= raw_line(n as nat, line@));
    r
}

impl LogParser for RawParser {
    fn name(&self) -> (r: &str)
        ensures
            r@ == "raw"@,
    {
        "raw"
    }

    fn description(&self) -> (r: &str)
        ensures
            r@ == "原始文本日志解析器"@,
    {
        "原始文本日志解析器"
    }

    fn supported_extensions(&self) -> (r: Vec<String>)
        ensures
            sv(r@) == seq!["log"@, "txt"@, "out"@],
    {
        let mut r: Vec<String> = Vec::new();
        r.push(own("log"));
        r.push(own("txt"));
        r.push(own("out"));
        assert(sv(r@) =~= seq!["log"@, "txt"@, "out"@]);
        r
    }

    fn can_parse(&self, _content: &str, _file_path: Option<&str>) -> (b: bool)
        ensures
            b,
    {
        true
    }

    /// Every line, unchanged, with its unified display string.
    fn parse(&self, content: &str, _request: &ParseRequest) -> (r: Result<ParseResult, String>)
        ensures
            r matches Ok(res) && res@ == raw_result(content@) && lines_wf(res.lines@),
    {
        let c = chars_of(content);
        let ls = split_lines(&c);
        let ghost lsv = lines_of(c@);
        let ghost want = lsv.map(|i: int, l: Seq<char>| raw_line((i + 1) as nat, l));
        let mut out: Vec<LogLine> = Vec::new();
        let mut i: usize = 0;
        while i < ls.len()
            invariant
                i <= ls@.len(),
                ls@.len() == lsv.len(),
                forall|k: int| 0 <= k < ls@.len() ==> #[trigger] ls@[k]@ == lsv[k],
                want == lsv.map(|i: int, l: Seq<char>| raw_line((i + 1) as nat, l)),
                lv(out@) == want.take(i as int),
                lines_wf(out@),
            decreases ls.len() - i,
        {
            let l = raw_line_exec(i + 1, &ls[i]);
            let ghost prev = out@;
            out.push(l);
            assert(ls@[i as int]@ == lsv[i as int]);
            assert(lv(out@) =~= lv(prev).push(l@));
            assert(lv(out@) =~= want.take(i as int + 1));
            i = i + 1;
        }
        assert(want.take(ls@.len() as int) =~= want);
        let total = ls.len();
        let res = ParseResult { lines: out, total_lines: total, detected_format: Some(own("raw")), parsing_errors: Vec::new() };
        assert(res@ =~= raw_result(content@));
        Ok(res)
    }
}

} // verus!
