//! The log parsing plugins: the shared data types, the single-format parsers,
//! the filter chains that combine several filters, and the unified formatter.
use vstd::prelude::*;
use crate::metadata::Metadata;

pub mod formatter;
pub mod springboot;
pub mod chain;
pub mod presets;
pub mod raw;
pub mod mybatis;
pub mod docker_json;
pub mod auto;
pub mod manager;
pub mod enhanced;
pub mod trait_def;
pub mod correlation_tracker;
pub mod replica_analyzer;
pub mod log_deduplicator;
pub mod analysis;
pub mod error_highlighter;
pub mod json_repair;

pub mod filters;

verus! {

/// One parsed log line.
///
/// `content` holds the (possibly extracted) message, `formatted_content` the text
/// shown to the user, and `metadata` extra fields such as `thread`, `logger` or
/// `stream`. `processed_by` lists the parsers and filters that touched the line.
#[derive(Debug, Clone)]
pub struct LogLine {
    /// Line number in the input, counted from 1.
    pub line_number: usize,
    pub content: String,
    pub level: Option<String>,
    pub timestamp: Option<String>,
    pub formatted_content: Option<String>,
    pub metadata: Metadata,
    pub processed_by: Vec<String>,
}

/// The mathematical content of a `LogLine`.
#[verifier::ext_equal]
pub struct LineView {
    pub line_number: nat,
    pub content: Seq<char>,
    pub level: Option<Seq<char>>,
    pub timestamp: Option<Seq<char>>,
    pub formatted_content: Option<Seq<char>>,
    pub metadata: Map<Seq<char>, Seq<char>>,
    pub processed_by: Seq<Seq<char>>,
}

/// The view of an optional string.
pub open spec fn ov(o: Option<String>) -> Option<Seq<char>> {
    match o {
        Some(s) => Some(s@),
        None => None,
    }
}

/// The views of a list of strings.
pub open spec fn sv(v: Seq<String>) -> Seq<Seq<char>> {
    v.map_values(|s: String| s@)
}

impl View for LogLine {
    type V = LineView;

    open spec fn view(&self) -> LineView {
        LineView {
            line_number: self.line_number as nat,
            content: self.content@,
            level: ov(self.level),
            timestamp: ov(self.timestamp),
            formatted_content: ov(self.formatted_content),
            metadata: self.metadata@,
            processed_by: sv(self.processed_by@),
        }
    }
}

/// The views of a list of lines.
pub open spec fn lv(v: Seq<LogLine>) -> Seq<LineView> {
    v.map_values(|l: LogLine| l@)
}

/// Former name of `LogLine`.
pub type LogEntry = LogLine;

impl LogLine {
    pub open spec fn wf(&self) -> bool {
        self.metadata.wf()
    }

    /// A copy of the line.
    pub fn copy(&self) -> (r: LogLine)
        requires
            self.wf(),
        ensures
            r@ == self@,
            r.wf(),
    {
        LogLine {
            line_number: self.line_number,
            content: self.content.clone(),
            level: copy_opt(&self.level),
            timestamp: copy_opt(&self.timestamp),
            formatted_content: copy_opt(&self.formatted_content),
            metadata: self.metadata.copy(),
            processed_by: copy_strings(&self.processed_by),
        }
    }
}

/// A list holding one string.
pub fn single(s: &str) -> (r: Vec<String>)
    ensures
        sv(r@) == seq![s@],
{
    let mut r: Vec<String> = Vec::new();
    r.push(crate::text::own(s));
    assert(sv(r@) =~= seq![s@]);
    r
}

/// A copy of an optional string.
pub fn copy_opt(o: &Option<String>) -> (r: Option<String>)
    ensures
        ov(r) == ov(*o),
{
    match o {
        Some(s) => Some(s.clone()),
        None => None,
    }
}

/// A copy of a list of strings.
pub fn copy_strings(v: &Vec<String>) -> (r: Vec<String>)
    ensures
        sv(r@) == sv(v@),
{
    let mut r: Vec<String> = Vec::new();
    let mut i: usize = 0;
    while i < v.len()
        invariant
            i <= v@.len(),
            sv(r@) == sv(v@.take(i as int)),
        decreases v.len() - i,
    {
        let ghost prev = r@;
        let c = v[i].clone();
        r.push(c);
        assert(v@.take(i as int + 1) =~= v@.take(i as int).push(v@[i as int]));
        assert(r@ =~= prev.push(c));
        assert(sv(r@) =~= sv(prev).push(c@));
        assert(sv(r@) =~= sv(v@.take(i as int + 1)));
        i = i + 1;
    }
    assert(v@.take(v@.len() as int) =~= v@);
    r
}

/// A copy of a list of lines.
pub fn copy_lines(v: &Vec<LogLine>) -> (r: Vec<LogLine>)
    requires
        lines_wf(v@),
    ensures
        lv(r@) == lv(v@),
        lines_wf(r@),
{
    let mut r: Vec<LogLine> = Vec::new();
    let mut i: usize = 0;
    while i < v.len()
        invariant
            i <= v@.len(),
            lines_wf(v@),
            lv(r@) == lv(v@.take(i as int)),
            lines_wf(r@),
        decreases v.len() - i,
    {
        let ghost prev = r@;
        let l = v[i].copy();
        r.push(l);
        assert(v@.take(i as int + 1) =~= v@.take(i as int).push(v@[i as int]));
        assert(r@ =~= prev.push(l));
        assert(lv(r@) =~= lv(prev).push(l@));
        assert(lv(r@) =~= lv(v@.take(i as int + 1)));
        i = i + 1;
    }
    assert(v@.take(v@.len() as int) =~= v@);
    r
}

/// Number of `true` entries.
pub open spec fn count_true(s: Seq<bool>) -> nat
    decreases s.len(),
{
    if s.len() == 0 {
        0
    } else {
        count_true(s.drop_last()) + if s.last() {
            1nat
        } else {
            0nat
        }
    }
}

/// Every line of a list is well formed.
pub open spec fn lines_wf(lines: Seq<LogLine>) -> bool {
    forall|i: int| 0 <= i < lines.len() ==> #[trigger] lines[i].wf()
}

/// The result of parsing a whole text.
#[derive(Debug, Clone)]
pub struct ParseResult {
    pub lines: Vec<LogLine>,
    /// Number of lines of the input.
    pub total_lines: usize,
    pub detected_format: Option<String>,
    pub parsing_errors: Vec<String>,
}

/// The mathematical content of a `ParseResult`.
#[verifier::ext_equal]
pub struct ResultView {
    pub lines: Seq<LineView>,
    pub total_lines: nat,
    pub detected_format: Option<Seq<char>>,
    pub parsing_errors: Seq<Seq<char>>,
}

impl View for ParseResult {
    type V = ResultView;

    open spec fn view(&self) -> ResultView {
        ResultView {
            lines: lv(self.lines@),
            total_lines: self.total_lines as nat,
            detected_format: ov(self.detected_format),
            parsing_errors: sv(self.parsing_errors@),
        }
    }
}

/// A request to parse a text.
#[derive(Debug, Clone)]
pub struct ParseRequest {
    pub content: String,
    /// Parser to use; `None` asks for detection.
    pub plugin: Option<String>,
    /// Path of the file the text comes from.
    pub file_path: Option<String>,
    pub chunk_size: Option<usize>,
}

impl ParseRequest {
    /// An empty request: no content, no plugin, no path, no chunk size.
    pub fn new() -> (r: ParseRequest)
        ensures
            r.content@ == Seq::<char>::empty(),
            r.plugin is None,
            r.file_path is None,
            r.chunk_size is None,
    {
        ParseRequest { content: String::new(), plugin: None, file_path: None, chunk_size: None }
    }
}

impl Default for ParseRequest {
    fn default() -> (r: ParseRequest)
        ensures
            r.content@ == Seq::<char>::empty(),
            r.plugin is None,
            r.file_path is None,
            r.chunk_size is None,
    {
        ParseRequest::new()
    }
}

/// What a parser tells about itself.
#[derive(Debug, Clone)]
pub struct PluginInfo {
    pub name: String,
    pub description: String,
    pub supported_extensions: Vec<String>,
    pub auto_detectable: bool,
}

/// A parser for one log format.
pub trait LogParser {
    /// Unique name of the parser.
    fn name(&self) -> &str;

    /// What the parser is for.
    fn description(&self) -> &str;

    /// File extensions the parser is meant for.
    fn supported_extensions(&self) -> Vec<String>;

    /// Whether the text looks like this parser's format.
    fn can_parse(&self, content: &str, file_path: Option<&str>) -> bool;

    /// Parses a whole text.
    fn parse(&self, content: &str, request: &ParseRequest) -> Result<ParseResult, String>;
}

} // verus!
