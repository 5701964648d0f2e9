//! A renderer that finds a JSON object in a line, repairs common mistakes in it
//! and shows it pretty-printed.
use vstd::prelude::*;
use crate::bytes::{replace_all, replace_str};
use crate::foreign::{
    json_pretty, json_pretty_of, regex_compile_error, regex_error_of, regex_find_all, regex_matches_of,
    regex_replace_all, regex_replaced_all_of, str_len,
};
use crate::models::{BlockContent, BlockMetadata, BlockView, ContentView, RenderedBlock, blocks_view, line_block_metadata};
use crate::plugins::{LineView, LogEntry, ov, sv};
use crate::plugins::trait_def::{LogRenderer, MemoryUsageRating, PerformanceRating, PluginCapabilities, PluginLifecycle};
use crate::text::{append, append_str, chars_of, decimal, decimal_chars, own, string_of, utf8_len};
use crate::utils::string_utils::JSON_OBJECT_PATTERN;

verus! {

/// A word followed by `:`, a key without quotes (the word is group 1).
pub const BARE_KEY_PATTERN: &'static str = r#"(\w+):"#;

/// The key of `BARE_KEY_PATTERN` in quotes.
pub const QUOTED_KEY: &'static str = r#""$1":"#;

/// The first JSON-like object in a text.
pub open spec fn first_json(c: Seq<char>) -> Option<Seq<char>> {
    let ms = regex_matches_of(JSON_OBJECT_PATTERN@, c);
    if ms.len() > 0 {
        Some(ms[0])
    } else {
        None
    }
}

/// How often `x` occurs in `s`.
pub open spec fn count_char(s: Seq<char>, x: char) -> nat
    decreases s.len(),
{
    if s.len() == 0 {
        0
    } else {
        count_char(s.drop_last(), x) + if s.last() == x {
            1nat
        } else {
            0nat
        }
    }
}

/// How many more `open` than `close` characters `s` has (none when fewer).
pub open spec fn unclosed(s: Seq<char>, open: char, close: char) -> nat {
    if count_char(s, open) > count_char(s, close) {
        (count_char(s, open) - count_char(s, close)) as nat
    } else {
        0
    }
}

/// `n` copies of `x`.
pub open spec fn repeat_char(x: char, n: nat) -> Seq<char> {
    Seq::new(n, |i: int| x)
}

/// `s` followed by a `}` for each unclosed `{` and then a `]` for each unclosed `[`.
pub open spec fn closed_brackets(s: Seq<char>) -> Seq<char> {
    s + repeat_char('}', unclosed(s, '{', '}')) + repeat_char(']', unclosed(s, '[', ']'))
}

/// `s` with `\\` turned into `\` and the escapes `\n`, `\t` and `\r` into the
/// characters they stand for, in that order.
pub open spec fn unescaped(s: Seq<char>) -> Seq<char> {
    let a = replace_all(s, "\\\""@, "\\\""@);
    let b = replace_all(a, "\\\\"@, "\\"@);
    let c = replace_all(b, "\\n"@, "\n"@);
    let d = replace_all(c, "\\t"@, "\t"@);
    replace_all(d, "\\r"@, "\r"@)
}

/// The repairs tried on broken JSON: a comma and a quote between `}{`, quotes round
/// bare keys, missing closing brackets, then escapes.
pub open spec fn repaired(s: Seq<char>) -> Seq<char> {
    let a = replace_all(s, "}{"@, "},{\""@);
    let b = regex_replaced_all_of(BARE_KEY_PATTERN@, a, QUOTED_KEY@);
    unescaped(closed_brackets(b))
}

/// The block shown for a line: none without a JSON object; the object
/// pretty-printed when it is valid JSON (confidence 100); else its repair
/// pretty-printed when that is valid (confidence 80); else an error block.
pub open spec fn json_blocks(l: LineView) -> Seq<BlockView> {
    let n = l.line_number;
    let len = utf8_len(l.content);
    match first_json(l.content) {
        None => Seq::empty(),
        Some(j) => match json_pretty_of(j) {
            Some(f) => seq![
                BlockView {
                    id: "json_"@ + decimal(n),
                    content: ContentView::Json(j, f),
                    metadata: Some(line_block_metadata(n, len, 100)),
                },
            ],
            None => match json_pretty_of(repaired(j)) {
                Some(f) => seq![
                    BlockView {
                        id: "json_repaired_"@ + decimal(n),
                        content: ContentView::Json(j, f),
                        metadata: Some(line_block_metadata(n, len, 80)),
                    },
                ],
                None => seq![
                    BlockView {
                        id: "json_error_"@ + decimal(n),
                        content: ContentView::Error("JSON解析失败: "@ + j),
                        metadata: Some(line_block_metadata(n, len, 0)),
                    },
                ],
            },
        },
    }
}

/// Finds, repairs and pretty-prints JSON objects in log lines.
pub struct JsonRepairRenderer {
    enabled: bool,
}

impl JsonRepairRenderer {
    /// Whether the renderer is on.
    pub closed spec fn is_on(&self) -> bool {
        self.enabled
    }

    /// A renderer, switched on.
    pub fn new() -> (r: Self)
        ensures
            r.is_on(),
    {
        JsonRepairRenderer { enabled: true }
    }

    fn extract_json(&self, content: &str) -> (r: Option<String>)
        ensures
            ov(r) == first_json(content@),
    {
        let ms = regex_find_all(JSON_OBJECT_PATTERN, content);
        if ms.len() > 0 {
            assert(ms@.map_values(|s: String| s@)[0] == ms@[0]@);
            Some(ms[0].clone())
        } else {
            None
        }
    }

    /// The repaired text, pretty-printed when it is valid JSON.
    fn repair_json(&self, json_str: &str) -> (r: Option<String>)
        ensures
            ov(r) == json_pretty_of(repaired(json_str@)),
    {
        let fixed = self.fix_common_issues(json_str);
        json_pretty(fixed.as_str())
    }

    fn fix_common_issues(&self, json_str: &str) -> (r: String)
        ensures
            r@ == repaired(json_str@),
    {
        let c = chars_of(json_str);
        let a = replace_str(&c, "}{", "},{\"");
        let a_s = string_of(&a);
        let b = self.fix_missing_quotes(a_s.as_str());
        let closed = self.fix_unclosed_brackets(b.as_str());
        self.fix_escape_characters(closed.as_str())
    }

    fn fix_missing_quotes(&self, json_str: &str) -> (r: String)
        ensures
            r@ == regex_replaced_all_of(BARE_KEY_PATTERN@, json_str@, QUOTED_KEY@),
    {
        regex_replace_all(BARE_KEY_PATTERN, json_str, QUOTED_KEY)
    }

    /// Closes every unclosed `{` and then every unclosed `[` at the end of the text
    /// (see `closed_brackets`).
    pub fn fix_unclosed_brackets(&self, json_str: &str) -> (r: String)
        ensures
            r@ == closed_brackets(json_str@),
    {
        let c = chars_of(json_str);
        let open_braces = count_exec(&c, '{');
        let close_braces = count_exec(&c, '}');
        let open_brackets = count_exec(&c, '[');
        let close_brackets = count_exec(&c, ']');
        let mut result = c.clone();
        if open_braces > close_braces {
            push_repeat(&mut result, '}', open_braces - close_braces);
        }
        let ghost with_braces = result@;
        assert(with_braces =~= c@ + repeat_char('}', unclosed(c@, '{', '}')));
        if open_brackets > close_brackets {
            push_repeat(&mut result, ']', open_brackets - close_brackets);
        }
        assert(result@ =~= with_braces + repeat_char(']', unclosed(c@, '[', ']')));
        string_of(&result)
    }

    fn fix_escape_characters(&self, json_str: &str) -> (r: String)
        ensures
            r@ == unescaped(json_str@),
    {
        let c = chars_of(json_str);
        let a = replace_str(&c, "\\\"", "\\\"");
        let b = replace_str(&a, "\\\\", "\\");
        let d = replace_str(&b, "\\n", "\n");
        let e = replace_str(&d, "\\t", "\t");
        let f = replace_str(&e, "\\r", "\r");
        string_of(&f)
    }
}

/// How often `x` occurs in `s`.
fn count_exec(s: &Vec<char>, x: char) -> (n: usize)
    ensures
        n == count_char(s@, x),
{
    let mut n: usize = 0;
    let mut i: usize = 0;
    while i < s.len()
        invariant
            i <= s.len(),
            n <= i,
            n == count_char(s@.take(i as int), x),
        decreases s.len() - i,
    {
        assert(s@.take(i as int + 1).drop_last() =~= s@.take(i as int));
        if s[i] == x {
            n = n + 1;
        }
        i = i + 1;
    }
    assert(s@.take(s.len() as int) =~= s@);
    n
}

/// Appends `n` copies of `x`.
fn push_repeat(v: &mut Vec<char>, x: char, n: usize)
    ensures
        final(v)@ == old(v)@ + repeat_char(x, n as nat),
{
    let mut i: usize = 0;
    while i < n
        invariant
            i <= n,
            v@ == old(v)@ + repeat_char(x, i as nat),
        decreases n - i,
    {
        v.push(x);
        i = i + 1;
        assert(v@ =~= old(v)@ + repeat_char(x, i as nat));
    }
}

fn block_id(head: &str, n: usize) -> (r: String)
    ensures
        r@ == head@ + decimal(n as nat),
{
    let mut v = chars_of(head);
    let d = decimal_chars(n);
    append(&mut v, &d);
    string_of(&v)
}

impl LogRenderer for JsonRepairRenderer {
    /// Whether the renderer is on and the line holds a JSON-like object.
    fn can_handle(&self, entry: &LogEntry) -> (b: bool)
        ensures
            b == (self.is_on() && regex_matches_of(JSON_OBJECT_PATTERN@, entry.content@).len() > 0),
    {
        if !self.enabled {
            return false;
        }
        let ms = regex_find_all(JSON_OBJECT_PATTERN, entry.content.as_str());
        ms.len() > 0
    }

    /// See `json_blocks`.
    fn render(&self, entry: &LogEntry) -> (r: Vec<RenderedBlock>)
        ensures
            blocks_view(r@) == json_blocks(entry@),
    {
        let mut blocks: Vec<RenderedBlock> = Vec::new();
        let content = entry.content.as_str();
        let n = entry.line_number;
        if let Some(json_str) = self.extract_json(content) {
            let len = str_len(content);
            match json_pretty(json_str.as_str()) {
                Some(formatted) => {
                    blocks.push(
                        RenderedBlock {
                            id: block_id("json_", n),
                            content: BlockContent::Json { original: json_str, formatted },
                            metadata: Some(
                                BlockMetadata {
                                    line_start: n,
                                    line_end: n,
                                    char_start: 0,
                                    char_end: len,
                                    confidence_percent: 100,
                                },
                            ),
                        },
                    );
                },
                None => match self.repair_json(json_str.as_str()) {
                    Some(formatted) => {
                        blocks.push(
                            RenderedBlock {
                                id: block_id("json_repaired_", n),
                                content: BlockContent::Json { original: json_str, formatted },
                                metadata: Some(
                                    BlockMetadata {
                                        line_start: n,
                                        line_end: n,
                                        char_start: 0,
                                        char_end: len,
                                        confidence_percent: 80,
                                    },
                                ),
                            },
                        );
                    },
                    None => {
                        let mut msg = chars_of("JSON解析失败: ");
                        append_str(&mut msg, json_str.as_str());
                        blocks.push(
                            RenderedBlock {
                                id: block_id("json_error_", n),
                                content: BlockContent::Error { message: string_of(&msg) },
                                metadata: Some(
                                    BlockMetadata {
                                        line_start: n,
                                        line_end: n,
                                        char_start: 0,
                                        char_end: len,
                                        confidence_percent: 0,
                                    },
                                ),
                            },
                        );
                    },
                },
            }
        }
        assert(blocks_view(blocks@) =~= json_blocks(entry@));
        blocks
    }

    fn name(&self) -> (r: &str)
        ensures
            r@ == "JSON Repair"@,
    {
        "JSON Repair"
    }

    fn description(&self) -> (r: &str)
        ensures
            r@ == "修复和格式化JSON数据，支持常见JSON语法错误的自动修复"@,
    {
        "修复和格式化JSON数据，支持常见JSON语法错误的自动修复"
    }

    fn priority(&self) -> (r: u32)
        ensures
            r == 20,
    {
        20
    }

    fn is_enabled(&self) -> (b: bool)
        ensures
            b == self.is_on(),
    {
        self.enabled
    }

    fn set_enabled(&mut self, enabled: bool)
        ensures
            final(self).is_on() == enabled,
    {
        self.enabled = enabled;
    }
}

impl PluginLifecycle for JsonRepairRenderer {
    /// Checks that the JSON pattern compiles.
    fn initialize(&mut self) -> (r: Result<(), String>)
        ensures
            match regex_error_of(JSON_OBJECT_PATTERN@) {
                Some(e) => r matches Err(m) && m@ == "Failed to compile JSON regex: "@ + e,
                None => r is Ok,
            },
            final(self).is_on() == old(self).is_on(),
    {
        match regex_compile_error(JSON_OBJECT_PATTERN) {
            Some(e) => {
                let mut m = chars_of("Failed to compile JSON regex: ");
                append_str(&mut m, e.as_str());
                Err(string_of(&m))
            },
            None => Ok(()),
        }
    }

    fn cleanup(&mut self) -> (r: Result<(), String>)
        ensures
            r is Ok,
            final(self).is_on() == old(self).is_on(),
    {
        Ok(())
    }
}

impl PluginCapabilities for JsonRepairRenderer {
    fn supported_file_types(&self) -> (r: Vec<String>)
        ensures
            sv(r@) == seq!["log"@, "txt"@, "json"@],
    {
        let mut v: Vec<String> = Vec::new();
        v.push(own("log"));
        v.push(own("txt"));
        v.push(own("json"));
        assert(sv(v@) =~= seq!["log"@, "txt"@, "json"@]);
        v
    }

    /// 100 MiB.
    fn max_file_size(&self) -> (r: Option<usize>)
        ensures
            r == Some(104857600usize),
    {
        Some(100 * 1024 * 1024)
    }

    fn performance_rating(&self) -> (r: PerformanceRating)
        ensures
            r == PerformanceRating::High,
    {
        PerformanceRating::High
    }

    fn memory_usage_rating(&self) -> (r: MemoryUsageRating)
        ensures
            r == MemoryUsageRating::Medium,
    {
        MemoryUsageRating::Medium
    }
}

/// Counting over a concatenation adds up.
proof fn lemma_count_concat(a: Seq<char>, b: Seq<char>, x: char)
    ensures
        count_char(a + b, x) == count_char(a, x) + count_char(b, x),
    decreases b.len(),
{
    if b.len() == 0 {
        assert(a + b =~= a);
    } else {
        assert((a + b).drop_last() =~= a + b.drop_last());
        lemma_count_concat(a, b.drop_last(), x);
    }
}

/// `n` copies of `x` hold `n` of `x` and none of any other character.
proof fn lemma_count_repeat(x: char, n: nat, y: char)
    ensures
        count_char(repeat_char(x, n), y) == if x == y {
            n
        } else {
            0
        },
    decreases n,
{
    if n > 0 {
        assert(repeat_char(x, n).drop_last() =~= repeat_char(x, (n - 1) as nat));
        lemma_count_repeat(x, (n - 1) as nat, y);
    }
}

/// After the brackets are closed, no `{` and no `[` is left without its closing
/// partner: each opening character occurs at most as often as its closing one.
pub proof fn lemma_closed_brackets_balance(s: Seq<char>)
    ensures
        unclosed(closed_brackets(s), '{', '}') == 0,
        unclosed(closed_brackets(s), '[', ']') == 0,
{
    let a = repeat_char('}', unclosed(s, '{', '}'));
    let b = repeat_char(']', unclosed(s, '[', ']'));
    lemma_count_concat(s, a, '{');
    lemma_count_concat(s, a, '}');
    lemma_count_concat(s, a, '[');
    lemma_count_concat(s, a, ']');
    lemma_count_concat(s + a, b, '{');
    lemma_count_concat(s + a, b, '}');
    lemma_count_concat(s + a, b, '[');
    lemma_count_concat(s + a, b, ']');
    lemma_count_repeat('}', unclosed(s, '{', '}'), '{');
    lemma_count_repeat('}', unclosed(s, '{', '}'), '}');
    lemma_count_repeat('}', unclosed(s, '{', '}'), '[');
    lemma_count_repeat('}', unclosed(s, '{', '}'), ']');
    lemma_count_repeat(']', unclosed(s, '[', ']'), '{');
    lemma_count_repeat(']', unclosed(s, '[', ']'), '}');
    lemma_count_repeat(']', unclosed(s, '[', ']'), '[');
    lemma_count_repeat(']', unclosed(s, '[', ']'), ']');
}

} // verus!
