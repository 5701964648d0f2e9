//! A renderer that marks lines mentioning errors or warnings.
use vstd::prelude::*;
use crate::foreign::{regex_captures, regex_captures_of, regex_compile_error, regex_error_of, str_len};
use crate::models::{BlockContent, BlockMetadata, BlockView, ContentView, RenderedBlock, blocks_view, line_block_metadata};
use crate::plugins::{LineView, LogEntry, ov, sv};
use crate::plugins::springboot::group;
use crate::plugins::trait_def::{LogRenderer, MemoryUsageRating, PerformanceRating, PluginCapabilities, PluginLifecycle};
use crate::text::{append_str, chars_of, decimal, decimal_chars, own, string_of, utf8_len};

verus! {

/// Error words (ignoring case).
pub const ERROR_WORDS_PATTERN: &'static str = r"(?i)\b(error|exception|failed|failure|fatal)\b";

/// Error codes and values (ignoring case).
pub const ERROR_VALUES_PATTERN: &'static str = r"(?i)\b(500|timeout|null|undefined)\b";

/// Crashes (ignoring case).
pub const ERROR_CRASH_PATTERN: &'static str = r"(?i)\b(crash|abort|panic)\b";

/// Warning words (ignoring case).
pub const WARNING_WORDS_PATTERN: &'static str = r"(?i)\b(warn|warning|deprecated)\b";

/// Things not found (ignoring case).
pub const WARNING_MISSING_PATTERN: &'static str = r"(?i)\b(404|not found|missing)\b";

/// Slowness and retries (ignoring case).
pub const WARNING_SLOW_PATTERN: &'static str = r"(?i)\b(slow|timeout|retry)\b";

pub open spec fn default_error_patterns() -> Seq<Seq<char>> {
    seq![ERROR_WORDS_PATTERN@, ERROR_VALUES_PATTERN@, ERROR_CRASH_PATTERN@]
}

pub open spec fn default_warning_patterns() -> Seq<Seq<char>> {
    seq![WARNING_WORDS_PATTERN@, WARNING_MISSING_PATTERN@, WARNING_SLOW_PATTERN@]
}

/// Whether one of the patterns matches the text.
pub open spec fn any_match(ps: Seq<Seq<char>>, c: Seq<char>) -> bool {
    exists|i: int| 0 <= i < ps.len() && (#[trigger] regex_captures_of(ps[i], c)) is Some
}

/// The text of the first match of the first pattern, in order, that matches.
pub open spec fn first_found(ps: Seq<Seq<char>>, c: Seq<char>) -> Option<Seq<char>>
    decreases ps.len(),
{
    if ps.len() == 0 {
        None
    } else {
        match regex_captures_of(ps[0], c) {
            Some(g) => if group(g, 0) is Some {
                group(g, 0)
            } else {
                first_found(ps.drop_first(), c)
            },
            None => first_found(ps.drop_first(), c),
        }
    }
}

/// The error of the first pattern, in order, that does not compile.
pub open spec fn first_compile_error(ps: Seq<Seq<char>>) -> Option<Seq<char>>
    decreases ps.len(),
{
    if ps.len() == 0 {
        None
    } else {
        match regex_error_of(ps[0]) {
            Some(e) => Some(e),
            None => first_compile_error(ps.drop_first()),
        }
    }
}

/// The patterns a highlighter uses and whether it is on.
pub struct HighlighterView {
    pub error_patterns: Seq<Seq<char>>,
    pub warning_patterns: Seq<Seq<char>>,
    pub enabled: bool,
}

/// Marks lines that mention errors (checked first) or warnings.
pub struct ErrorHighlighterRenderer {
    error_patterns: Vec<String>,
    warning_patterns: Vec<String>,
    enabled: bool,
}

impl View for ErrorHighlighterRenderer {
    type V = HighlighterView;

    closed spec fn view(&self) -> HighlighterView {
        HighlighterView {
            error_patterns: sv(self.error_patterns@),
            warning_patterns: sv(self.warning_patterns@),
            enabled: self.enabled,
        }
    }
}

/// The block shown for a line: an error block naming the first error match when an
/// error pattern matches, else a warning block naming the first warning match when
/// a warning pattern matches, else none.
pub open spec fn highlight_blocks(h: HighlighterView, l: LineView) -> Seq<BlockView> {
    let c = l.content;
    let n = l.line_number;
    if any_match(h.error_patterns, c) {
        match first_found(h.error_patterns, c) {
            Some(info) => seq![
                BlockView {
                    id: "error_"@ + decimal(n),
                    content: ContentView::Error("错误: "@ + info),
                    metadata: Some(line_block_metadata(n, utf8_len(c), 90)),
                },
            ],
            None => Seq::empty(),
        }
    } else if any_match(h.warning_patterns, c) {
        match first_found(h.warning_patterns, c) {
            Some(info) => seq![
                BlockView {
                    id: "warning_"@ + decimal(n),
                    content: ContentView::Warning("警告: "@ + info),
                    metadata: Some(line_block_metadata(n, utf8_len(c), 80)),
                },
            ],
            None => Seq::empty(),
        }
    } else {
        Seq::empty()
    }
}

fn error_pattern_list() -> (r: Vec<String>)
    ensures
        sv(r@) == default_error_patterns(),
{
    let mut r: Vec<String> = Vec::new();
    r.push(own(ERROR_WORDS_PATTERN));
    r.push(own(ERROR_VALUES_PATTERN));
    r.push(own(ERROR_CRASH_PATTERN));
    assert(sv(r@) =~= default_error_patterns());
    r
}

fn warning_pattern_list() -> (r: Vec<String>)
    ensures
        sv(r@) == default_warning_patterns(),
{
    let mut r: Vec<String> = Vec::new();
    r.push(own(WARNING_WORDS_PATTERN));
    r.push(own(WARNING_MISSING_PATTERN));
    r.push(own(WARNING_SLOW_PATTERN));
    assert(sv(r@) =~= default_warning_patterns());
    r
}

fn matches_any(ps: &Vec<String>, content: &str) -> (b: bool)
    ensures
        b == any_match(sv(ps@), content@),
{
    let ghost p = sv(ps@);
    let mut i: usize = 0;
    while i < ps.len()
        invariant
            i <= ps@.len(),
            p == sv(ps@),
            forall|k: int| 0 <= k < i ==> (#[trigger] regex_captures_of(p[k], content@)) is None,
        decreases ps.len() - i,
    {
        if regex_captures(ps[i].as_str(), content).is_some() {
            assert(regex_captures_of(p[i as int], content@) is Some);
            return true;
        }
        i = i + 1;
    }
    false
}

fn first_found_exec(ps: &Vec<String>, content: &str) -> (r: Option<String>)
    ensures
        ov(r) == first_found(sv(ps@), content@),
{
    let ghost p = sv(ps@);
    let mut i: usize = 0;
    assert(p.skip(0) =~= p);
    while i < ps.len()
        invariant
            i <= ps@.len(),
            p == sv(ps@),
            first_found(p.skip(i as int), content@) == first_found(p, content@),
        decreases ps.len() - i,
    {
        assert(p.skip(i as int).drop_first() =~= p.skip(i as int + 1));
        assert(p.skip(i as int)[0] == ps@[i as int]@);
        match regex_captures(ps[i].as_str(), content) {
            Some(g) => {
                if g.len() > 0 {
                    match &g[0] {
                        Some(m) => {
                            return Some(m.clone());
                        },
                        None => {},
                    }
                }
            },
            None => {},
        }
        i = i + 1;
    }
    assert(p.skip(i as int) =~= Seq::<Seq<char>>::empty());
    None
}

fn first_compile_error_exec(ps: &Vec<String>) -> (r: Option<String>)
    ensures
        ov(r) == first_compile_error(sv(ps@)),
{
    let ghost p = sv(ps@);
    let mut i: usize = 0;
    assert(p.skip(0) =~= p);
    while i < ps.len()
        invariant
            i <= ps@.len(),
            p == sv(ps@),
            first_compile_error(p.skip(i as int)) == first_compile_error(p),
        decreases ps.len() - i,
    {
        assert(p.skip(i as int).drop_first() =~= p.skip(i as int + 1));
        assert(p.skip(i as int)[0] == ps@[i as int]@);
        match regex_compile_error(ps[i].as_str()) {
            Some(e) => {
                return Some(e);
            },
            None => {},
        }
        i = i + 1;
    }
    assert(p.skip(i as int) =~= Seq::<Seq<char>>::empty());
    None
}

/// `head` followed by `text`.
fn labelled(head: &str, text: &String) -> (r: String)
    ensures
        r@ == head@ + text@,
{
    let mut v = chars_of(head);
    append_str(&mut v, text.as_str());
    string_of(&v)
}

fn block_id(head: &str, n: usize) -> (r: String)
    ensures
        r@ == head@ + decimal(n as nat),
{
    let mut v = chars_of(head);
    let d = decimal_chars(n);
    crate::text::append(&mut v, &d);
    string_of(&v)
}

impl ErrorHighlighterRenderer {
    /// A highlighter with the default error and warning patterns, switched on.
    pub fn new() -> (r: Self)
        ensures
            r@ == (HighlighterView {
                error_patterns: default_error_patterns(),
                warning_patterns: default_warning_patterns(),
                enabled: true,
            }),
    {
        ErrorHighlighterRenderer {
            error_patterns: error_pattern_list(),
            warning_patterns: warning_pattern_list(),
            enabled: true,
        }
    }

    fn is_error_log(&self, content: &str) -> (b: bool)
        ensures
            b == any_match(self@.error_patterns, content@),
    {
        matches_any(&self.error_patterns, content)
    }

    fn is_warning_log(&self, content: &str) -> (b: bool)
        ensures
            b == any_match(self@.warning_patterns, content@),
    {
        matches_any(&self.warning_patterns, content)
    }

    fn extract_error_info(&self, content: &str) -> (r: Option<String>)
        ensures
            ov(r) == first_found(self@.error_patterns, content@),
    {
        first_found_exec(&self.error_patterns, content)
    }

    fn extract_warning_info(&self, content: &str) -> (r: Option<String>)
        ensures
            ov(r) == first_found(self@.warning_patterns, content@),
    {
        first_found_exec(&self.warning_patterns, content)
    }
}

impl LogRenderer for ErrorHighlighterRenderer {
    /// Whether the highlighter is on and an error or a warning pattern matches.
    fn can_handle(&self, entry: &LogEntry) -> (b: bool)
        ensures
            b == (self@.enabled && (any_match(self@.error_patterns, entry.content@) || any_match(
                self@.warning_patterns,
                entry.content@,
            ))),
    {
        if !self.enabled {
            return false;
        }
        self.is_error_log(entry.content.as_str()) || self.is_warning_log(entry.content.as_str())
    }

    /// See `highlight_blocks`.
    fn render(&self, entry: &LogEntry) -> (r: Vec<RenderedBlock>)
        ensures
            blocks_view(r@) == highlight_blocks(self@, entry@),
    {
        let mut blocks: Vec<RenderedBlock> = Vec::new();
        let content = entry.content.as_str();
        let n = entry.line_number;
        if self.is_error_log(content) {
            if let Some(info) = self.extract_error_info(content) {
                let len = str_len(content);
                let b = RenderedBlock {
                    id: block_id("error_", n),
                    content: BlockContent::Error { message: labelled("错误: ", &info) },
                    metadata: Some(
                        BlockMetadata { line_start: n, line_end: n, char_start: 0, char_end: len, confidence_percent: 90 },
                    ),
                };
                blocks.push(b);
            }
        } else if self.is_warning_log(content) {
            if let Some(info) = self.extract_warning_info(content) {
                let len = str_len(content);
                let b = RenderedBlock {
                    id: block_id("warning_", n),
                    content: BlockContent::Warning { message: labelled("警告: ", &info) },
                    metadata: Some(
                        BlockMetadata { line_start: n, line_end: n, char_start: 0, char_end: len, confidence_percent: 80 },
                    ),
                };
                blocks.push(b);
            }
        }
        assert(blocks_view(blocks@) =~= highlight_blocks(self@, entry@));
        blocks
    }

    fn name(&self) -> (r: &str)
        ensures
            r@ == "Error Highlighter"@,
    {
        "Error Highlighter"
    }

    fn description(&self) -> (r: &str)
        ensures
            r@ == "识别和高亮错误、警告日志，提供快速定位功能"@,
    {
        "识别和高亮错误、警告日志，提供快速定位功能"
    }

    fn priority(&self) -> (r: u32)
        ensures
            r == 5,
    {
        5
    }

    fn is_enabled(&self) -> (b: bool)
        ensures
            b == self@.enabled,
    {
        self.enabled
    }

    fn set_enabled(&mut self, enabled: bool)
        ensures
            final(self)@ == (HighlighterView { enabled, ..old(self)@ }),
    {
        self.enabled = enabled;
    }
}

impl PluginLifecycle for ErrorHighlighterRenderer {
    /// Compiles the default patterns again and puts them in place, the error patterns
    /// first: the first pattern that does not compile stops it with its error, and
    /// leaves that list (and the warning list after it) as it was.
    fn initialize(&mut self) -> (r: Result<(), String>)
        ensures
            match first_compile_error(default_error_patterns()) {
                Some(e) => (r matches Err(m) && m@ == "Failed to compile error regex: "@ + e) && final(self)@
                    == old(self)@,
                None => match first_compile_error(default_warning_patterns()) {
                    Some(e) => (r matches Err(m) && m@ == "Failed to compile warning regex: "@ + e) && final(self)@
                        == (HighlighterView { error_patterns: default_error_patterns(), ..old(self)@ }),
                    None => r is Ok && final(self)@ == (HighlighterView {
                        error_patterns: default_error_patterns(),
                        warning_patterns: default_warning_patterns(),
                        enabled: old(self)@.enabled,
                    }),
                },
            },
    {
        let errors = error_pattern_list();
        if let Some(e) = first_compile_error_exec(&errors) {
            return Err(labelled("Failed to compile error regex: ", &e));
        }
        self.error_patterns = errors;
        let warnings = warning_pattern_list();
        if let Some(e) = first_compile_error_exec(&warnings) {
            return Err(labelled("Failed to compile warning regex: ", &e));
        }
        self.warning_patterns = warnings;
        Ok(())
    }

    fn cleanup(&mut self) -> (r: Result<(), String>)
        ensures
            r is Ok,
            final(self)@ == old(self)@,
    {
        Ok(())
    }
}

impl PluginCapabilities for ErrorHighlighterRenderer {
    fn supported_file_types(&self) -> (r: Vec<String>)
        ensures
            sv(r@) == seq!["*"@],
    {
        let mut v: Vec<String> = Vec::new();
        v.push(own("*"));
        assert(sv(v@) =~= seq!["*"@]);
        v
    }

    fn max_file_size(&self) -> (r: Option<usize>)
        ensures
            r is None,
    {
        None
    }

    fn performance_rating(&self) -> (r: PerformanceRating)
        ensures
            r == PerformanceRating::VeryHigh,
    {
        PerformanceRating::VeryHigh
    }

    fn memory_usage_rating(&self) -> (r: MemoryUsageRating)
        ensures
            r == MemoryUsageRating::Low,
    {
        MemoryUsageRating::Low
    }
}

} // verus!
