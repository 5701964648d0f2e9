//! The filters that chains are built from. Each filter states, line by line,
//! what it does to the context it is given.
use vstd::prelude::*;
use crate::metadata::Metadata;
use crate::plugins::{LineView, LogLine, count_true, lines_wf, lv, sv};
use crate::plugins::chain::{ContextView, PluginChainContext, PluginFilter, with_lines};
use crate::text::{
    append, append_str, before_char, byte_prefix, byte_suffix, chars_of, contains_char, contains_str, decimal,
    decimal_string, eq_str, find, find_char, find_seq, index_of, join, join_parts, lemma_index_of, lines_of, lower,
    own, replace_char, replace_char_seq, is_ascii_digit, seq_contains, slice_from, split_lines, trim_start, trim_start_seq, take_before_char, take_bytes, trim, trim_seq, utf8_len, utf8_len_capped,
};
use crate::bytes::{
    bslice, bslice_exec, prefix_bytes_exec, take_bytes_wide, trim_start_char, trim_start_char_seq, nth_token_1, prefix_bytes, replace_all, replace_str, second_token, skip_after, skip_bytes_wide, trim_brackets,
    trim_brackets_seq, utf8_len_wide,
};
use crate::foreign::{
    groups_view, json_string_members, json_string_members_of, lowercase_of, members_view, opt_view, regex_captures, regex_captures_of,
    regex_compile_error, regex_error_of, regex_replace, regex_replaced_of, uppercase_of,
};
use crate::plugins::springboot::{group, group_of, looks_like_log_line, stream_of, stream_of_exec};
use crate::plugins::formatter::{level_family, meta_get, opt_chars, push_part, trim_end_char, trim_end_char_seq};

verus! {

// ---------------------------------------------------------------------------
// Lines a filter starts from
// ---------------------------------------------------------------------------

/// A line read from the original text, with nothing extracted yet.
pub open spec fn fresh_line(n: nat, content: Seq<char>) -> LineView {
    LineView {
        line_number: n,
        content,
        level: None,
        timestamp: None,
        formatted_content: None,
        metadata: Map::empty(),
        processed_by: Seq::empty(),
    }
}

/// The first `n` lines of `ls` that are not blank, numbered by their position.
pub open spec fn nonblank_lines(ls: Seq<Seq<char>>, n: nat) -> Seq<LineView>
    decreases n,
{
    if n == 0 {
        Seq::empty()
    } else {
        let prev = nonblank_lines(ls, (n - 1) as nat);
        if trim_seq(ls[n - 1]).len() == 0 {
            prev
        } else {
            prev.push(fresh_line(n, ls[n - 1]))
        }
    }
}

/// The lines a parsing filter works on: the current lines, or, when there are
/// none yet, the non-blank lines of the original text.
pub open spec fn starting_lines(c: ContextView) -> Seq<LineView> {
    if c.current_lines.len() == 0 {
        let ls = lines_of(c.original_content);
        nonblank_lines(ls, ls.len())
    } else {
        c.current_lines
    }
}

fn fresh_log_line(n: usize, content: &Vec<char>) -> (r: LogLine)
    ensures
        r@ == fresh_line(n as nat, content@),
        r.wf(),
{
    let r = LogLine {
        line_number: n,
        content: crate::text::string_of(content),
        level: None,
        timestamp: None,
        formatted_content: None,
        metadata: Metadata::new(),
        processed_by: Vec::new(),
    };
    assert(sv(r.processed_by@) =~= Seq::<Seq<char>>::empty());
    assert(r@ =~= fresh_line(n as nat, content@));
    r
}

fn starting_log_lines(ctx: &PluginChainContext) -> (r: Vec<LogLine>)
    requires
        ctx.wf(),
    ensures
        lv(r@) == starting_lines(ctx@),
        lines_wf(r@),
{
    if ctx.current_lines.len() > 0 {
        return crate::plugins::copy_lines(&ctx.current_lines);
    }
    let c = chars_of(ctx.original_content.as_str());
    let ls = split_lines(&c);
    let ghost lsv = lines_of(c@);
    let mut out: Vec<LogLine> = Vec::new();
    let mut i: usize = 0;
    while i < ls.len()
        invariant
            i <= ls@.len(),
            ls@.len() == lsv.len(),
            forall|k: int| 0 <= k < ls@.len() ==> #[trigger] ls@[k]@ == lsv[k],
            lv(out@) == nonblank_lines(lsv, i as nat),
            lines_wf(out@),
        decreases ls.len() - i,
    {
        let t = trim(&ls[i]);
        assert(ls@[i as int]@ == lsv[i as int]);
        if t.len() > 0 {
            let l = fresh_log_line(i + 1, &ls[i]);
            let ghost prev = out@;
            out.push(l);
            assert(lv(out@) =~= lv(prev).push(l@));
        }
        i = i + 1;
    }
    out
}

// ---------------------------------------------------------------------------
// Content enhancer
// ---------------------------------------------------------------------------

/// Marks lines that hold a URL, an `@` or an error.
pub struct ContentEnhancerFilter;

/// The line with its markers, and whether it got one.
pub open spec fn enhanced_line(l: LineView) -> (LineView, bool) {
    let url = seq_contains(l.content, "http://"@) || seq_contains(l.content, "https://"@);
    let email = seq_contains(l.content, "@"@);
    let err = l.level == Some("ERROR"@);
    let m1 = if url {
        l.metadata.insert("has_url"@, "true"@)
    } else {
        l.metadata
    };
    let m2 = if email {
        m1.insert("has_email"@, "true"@)
    } else {
        m1
    };
    let m3 = if err {
        m2.insert("is_error"@, "true"@)
    } else {
        m2
    };
    let enhanced = url || email || err;
    (
        LineView {
            metadata: m3,
            processed_by: if enhanced {
                l.processed_by.push("content_enhancer_filter"@)
            } else {
                l.processed_by
            },
            ..l
        },
        enhanced,
    )
}

pub open spec fn enhancer_wants(l: LineView) -> bool {
    enhanced_line(l).1
}

/// The context after the content enhancer.
pub open spec fn enhancer_result(c: ContextView) -> ContextView {
    let ls = c.current_lines;
    with_lines(
        c,
        ls.map_values(|l: LineView| enhanced_line(l).0),
        c.chain_metadata.insert(
            "content_enhanced"@,
            decimal(count_true(ls.map_values(|l: LineView| enhanced_line(l).1))),
        ),
    )
}

fn level_is(l: &Option<String>, w: &str) -> (b: bool)
    ensures
        b == (crate::plugins::ov(*l) == Some(w@)),
{
    match l {
        Some(s) => {
            let c = chars_of(s.as_str());
            eq_str(&c, w)
        },
        None => false,
    }
}

fn enhance_line(l: &LogLine) -> (r: (LogLine, bool))
    requires
        l.wf(),
    ensures
        r.0@ == enhanced_line(l@).0,
        r.1 == enhanced_line(l@).1,
        r.0.wf(),
{
    let mut n = l.copy();
    let c = chars_of(l.content.as_str());
    let url = contains_str(&c, "http://") || contains_str(&c, "https://");
    let email = contains_str(&c, "@");
    let err = level_is(&l.level, "ERROR");
    if url {
        n.metadata.insert_str("has_url", own("true"));
    }
    if email {
        n.metadata.insert_str("has_email", own("true"));
    }
    if err {
        n.metadata.insert_str("is_error", own("true"));
    }
    let enhanced = url || email || err;
    if enhanced {
        n.processed_by.push(own("content_enhancer_filter"));
    }
    assert(n@ =~= enhanced_line(l@).0);
    (n, enhanced)
}

impl PluginFilter for ContentEnhancerFilter {
    fn name(&self) -> (r: &str)
        ensures
            r@ == "content_enhancer"@,
    {
        "content_enhancer"
    }

    fn description(&self) -> (r: &str)
        ensures
            r@ == "内容增强过滤器，提供高亮、链接识别等增强功能"@,
    {
        "内容增强过滤器，提供高亮、链接识别等增强功能"
    }

    fn priority(&self) -> (r: i32)
        ensures
            r == 80,
    {
        80
    }

    /// Whether some line holds a URL, an `@` or the level `ERROR`.
    fn should_process(&self, context: &PluginChainContext) -> (b: bool)
        ensures
            b == exists|i: int| 0 <= i < context@.current_lines.len() && enhancer_wants(#[trigger] context@.current_lines[i]),
    {
        let mut i: usize = 0;
        while i < context.current_lines.len()
            invariant
                i <= context.current_lines@.len(),
                context.wf(),
                forall|k: int| 0 <= k < i ==> !enhancer_wants(#[trigger] context@.current_lines[k]),
            decreases context.current_lines.len() - i,
        {
            let (_, b) = enhance_line(&context.current_lines[i]);
            if b {
                assert(enhancer_wants(context@.current_lines[i as int]));
                return true;
            }
            i = i + 1;
        }
        false
    }

    /// Marks each line (see `enhanced_line`) and records how many got a marker.
    fn process(&self, context: &mut PluginChainContext, _request: &crate::plugins::ParseRequest) -> (r: Result<(), String>)
        ensures
            r is Ok,
            final(context)@ == enhancer_result(old(context)@),
    {
        let ghost ls = old(context)@.current_lines;
        let mut out: Vec<LogLine> = Vec::new();
        let mut count: usize = 0;
        let mut i: usize = 0;
        while i < context.current_lines.len()
            invariant
                i <= context.current_lines@.len(),
                context.wf(),
                context@ == old(context)@,
                ls == context@.current_lines,
                lv(out@) == ls.take(i as int).map_values(|l: LineView| enhanced_line(l).0),
                count == count_true(ls.take(i as int).map_values(|l: LineView| enhanced_line(l).1)),
                count <= i,
                lines_wf(out@),
            decreases context.current_lines.len() - i,
        {
            let (nl, b) = enhance_line(&context.current_lines[i]);
            let ghost prev = out@;
            out.push(nl);
            assert(ls.take(i as int + 1) =~= ls.take(i as int).push(ls[i as int]));
            assert(lv(out@) =~= lv(prev).push(nl@));
            assert(lv(out@) =~= ls.take(i as int + 1).map_values(|l: LineView| enhanced_line(l).0));
            assert(ls.take(i as int + 1).map_values(|l: LineView| enhanced_line(l).1).drop_last()
                =~= ls.take(i as int).map_values(|l: LineView| enhanced_line(l).1));
            if b {
                count = count + 1;
            }
            i = i + 1;
        }
        assert(ls.take(ls.len() as int) =~= ls);
        context.current_lines = out;
        context.set_chain_metadata(own("content_enhanced"), decimal_string(count));
        assert(context@ =~= enhancer_result(old(context)@));
        Ok(())
    }

    fn can_handle(&self, _content: &str, _file_path: Option<&str>) -> (b: bool)
        ensures
            b,
    {
        true
    }
}

// ---------------------------------------------------------------------------
// JSON structure
// ---------------------------------------------------------------------------

/// Gives every line a display text: level, short time, a short prefix, and the body.
pub struct JsonStructureFilter;

/// `s` when it has at most `n` bytes, else its last `n` bytes.
pub open spec fn last_bytes(s: Seq<char>, n: nat) -> Seq<char> {
    if utf8_len(s) > n {
        byte_suffix(s, utf8_len(s) - n)
    } else {
        s
    }
}

/// The time of day shown for a timestamp: what follows the first `T` up to the next
/// `T` or `.`; else the second token up to a `.`; else a `[...]` form without its
/// brackets; else its last eight bytes.
pub open spec fn simplified_time(ts: Seq<char>) -> Seq<char> {
    match index_of(ts, 'T') {
        Some(i) => before_char(before_char(ts.skip(i + 1), 'T'), '.'),
        None => if ts.contains(':') && second_token(ts) is Some {
            before_char(second_token(ts)->0, '.')
        } else if !ts.contains(':') && ts.len() > 0 && ts[0] == '[' && ts.contains(']') {
            trim_brackets_seq(ts)
        } else {
            last_bytes(ts, 8)
        },
    }
}

/// `s` cut to `keep` bytes and `...` when it has more than `limit` bytes.
pub open spec fn ellipsized(s: Seq<char>, limit: nat, keep: int) -> Seq<char> {
    if utf8_len(s) > limit {
        byte_prefix(s, keep) + "..."@
    } else {
        s
    }
}

/// The marker of a MyBatis line kind.
pub open spec fn sql_icon(t: Seq<char>) -> Seq<char> {
    if t == "parameters"@ {
        "PARAM"@
    } else if t == "result"@ {
        "RESULT"@
    } else {
        "SQL"@
    }
}

fn sql_icon_exec(t: &Vec<char>) -> (r: &'static str)
    ensures
        r@ == sql_icon(t@),
{
    if eq_str(t, "parameters") {
        "PARAM"
    } else if eq_str(t, "result") {
        "RESULT"
    } else {
        "SQL"
    }
}

/// The short prefix: thread (unless `main` or longer than eight bytes), logger,
/// SQL kind and `GC`, joined by `|`, and cut to ten bytes.
pub open spec fn structure_prefix(m: Map<Seq<char>, Seq<char>>) -> Seq<char> {
    let p1: Seq<Seq<char>> = match meta_get(m, "thread"@) {
        Some(t) => if t != "main"@ && utf8_len(t) <= 8 {
            seq![t]
        } else {
            Seq::empty()
        },
        None => Seq::empty(),
    };
    let p2: Seq<Seq<char>> = match meta_get(m, "logger"@) {
        Some(lg) => seq![ellipsized(lg, 8, 5)],
        None => Seq::empty(),
    };
    let p3: Seq<Seq<char>> = match meta_get(m, "sql_type"@) {
        Some(t) => seq![sql_icon(t)],
        None => Seq::empty(),
    };
    let p4: Seq<Seq<char>> = match meta_get(m, "log_type"@) {
        Some(t) => if seq_contains(t, "gc"@) {
            seq!["GC"@]
        } else {
            Seq::empty()
        },
        None => Seq::empty(),
    };
    ellipsized(join(p1 + p2 + p3 + p4, "|"@), 10, 7)
}

/// SQL keywords in upper case, one `str::replace` after the other.
pub open spec fn sql_keywords_upper(s: Seq<char>) -> Seq<char> {
    let s1 = replace_all(s, "select"@, "SELECT"@);
    let s2 = replace_all(s1, "from"@, "FROM"@);
    let s3 = replace_all(s2, "where"@, "WHERE"@);
    let s4 = replace_all(s3, "insert"@, "INSERT"@);
    let s5 = replace_all(s4, "into"@, "INTO"@);
    let s6 = replace_all(s5, "values"@, "VALUES"@);
    let s7 = replace_all(s6, "update"@, "UPDATE"@);
    let s8 = replace_all(s7, "set"@, "SET"@);
    let s9 = replace_all(s8, "delete"@, "DELETE"@);
    let s10 = replace_all(s9, "join"@, "JOIN"@);
    let s11 = replace_all(s10, "on"@, "ON"@);
    let s12 = replace_all(s11, "order by"@, "ORDER BY"@);
    replace_all(s12, "group by"@, "GROUP BY"@)
}

/// What follows `marker` (found in the lower-cased `c`) and `skip` more bytes, trimmed.
#[verifier::opaque]
pub open spec fn after_marker(c: Seq<char>, marker: Seq<char>, skip: nat) -> Option<Seq<char>> {
    let lc = lowercase_of(c);
    after_found(c, lc, find_seq(lc, marker), skip)
}

/// What follows the found position of `lc` in `c` and `skip` more bytes, trimmed.
pub open spec fn after_found(c: Seq<char>, lc: Seq<char>, found: Option<int>, skip: nat) -> Option<Seq<char>> {
    match found {
        Some(s) => Some(trim_seq(byte_suffix(c, (prefix_bytes(lc, s) + skip) as int))),
        None => None,
    }
}

/// The body shown for a MyBatis line of the given kind.
pub open spec fn sql_body(content: Seq<char>, ty: Seq<char>) -> Seq<char> {
    let c = trim_seq(content);
    if ty == "preparing"@ {
        match after_marker(c, "preparing:"@, 11) {
            Some(sql) => "📝 SQL: "@ + ellipsized(sql_keywords_upper(sql), 100, 97),
            None => "📝 SQL: "@ + c,
        }
    } else if ty == "parameters"@ {
        match after_marker(c, "parameters:"@, 12) {
            Some(ps) => "🔧 PARAMS: "@ + ellipsized(ps, 50, 47),
            None => "🔧 PARAMS: "@ + c,
        }
    } else if ty == "result"@ {
        match after_marker(c, "==>"@, 3) {
            Some(r) => "✅ RESULT: "@ + r,
            None => "✅ RESULT: "@ + c,
        }
    } else {
        c
    }
}

/// Trimmed text that is enclosed in `{}` or `[]`.
pub open spec fn is_json_text(c: Seq<char>) -> bool {
    let t = trim_seq(c);
    t.len() > 0 && ((t[0] == '{' && t.last() == '}') || (t[0] == '[' && t.last() == ']'))
}

/// The line types whose content is shown unchanged.
pub open spec fn is_exception_type(t: Seq<char>) -> bool {
    t == "exception_formatted"@ || t == "exception_main"@ || t == "exception_business_header"@
        || t == "exception_business"@ || t == "exception_framework_header"@ || t == "exception_framework"@
}

/// The body shown for a line.
pub open spec fn structure_body(l: LineView) -> Seq<char> {
    let c = l.content;
    let m = l.metadata;
    if meta_get(m, "log_type"@) matches Some(t) && is_exception_type(t) {
        c
    } else {
        match meta_get(m, "sql_type"@) {
            Some(t) => sql_body(c, t),
            None => if is_json_text(c) {
                "📄 JSON: "@ + ellipsized(trim_seq(c), 80, 77)
            } else {
                c
            },
        }
    }
}

/// `LEVEL TIME PREFIX BODY`, the parts that are present joined by spaces.
pub open spec fn structured_text(l: LineView) -> Seq<char> {
    let p1: Seq<Seq<char>> = match l.level {
        Some(v) => seq![v],
        None => Seq::empty(),
    };
    let p2: Seq<Seq<char>> = match l.timestamp {
        Some(t) => seq![simplified_time(t)],
        None => Seq::empty(),
    };
    let pre = structure_prefix(l.metadata);
    let p3: Seq<Seq<char>> = if pre.len() > 0 {
        seq![pre]
    } else {
        Seq::empty()
    };
    join(p1 + p2 + p3 + seq![structure_body(l)], " "@)
}

/// The line with a display text where it had none, marked as structured.
pub open spec fn structured_line(l: LineView) -> LineView {
    LineView {
        formatted_content: if l.formatted_content is None {
            Some(structured_text(l))
        } else {
            l.formatted_content
        },
        processed_by: l.processed_by.push("json_structure_filter"@),
        ..l
    }
}

/// The context after the JSON structure filter.
pub open spec fn structure_result(c: ContextView) -> ContextView {
    with_lines(
        c,
        c.current_lines.map_values(|l: LineView| structured_line(l)),
        c.chain_metadata.insert("json_structured"@, decimal(c.current_lines.len())),
    )
}

fn last_bytes_exec(s: &Vec<char>, n: usize) -> (r: Vec<char>)
    ensures
        r@ == last_bytes(s@, n as nat),
{
    let total = utf8_len_wide(s);
    if total > n as u128 {
        skip_bytes_wide(s, total - n as u128)
    } else {
        s.clone()
    }
}

fn simplify_time_exec(ts: &Vec<char>) -> (r: Vec<char>)
    ensures
        r@ == simplified_time(ts@),
{
    proof {
        lemma_index_of(ts@, 'T');
    }
    match find_char(ts, 'T') {
        Some(i) => {
            let tl = ts.len();
            assert(i < tl);
            let after = slice_from(ts, i + 1);
            let piece = take_before_char(&after, 'T');
            take_before_char(&piece, '.')
        },
        None => {
            let colon = contains_char(ts, ':');
            let second = if colon {
                nth_token_1(ts)
            } else {
                None
            };
            match second {
                Some(tok) => take_before_char(&tok, '.'),
                None => {
                    if !colon && ts.len() > 0 && ts[0] == '[' && contains_char(ts, ']') {
                        trim_brackets(ts)
                    } else {
                        last_bytes_exec(ts, 8)
                    }
                },
            }
        },
    }
}

fn ellipsized_exec(s: &Vec<char>, limit: usize, keep: usize) -> (r: Vec<char>)
    requires
        limit < usize::MAX,
    ensures
        r@ == ellipsized(s@, limit as nat, keep as int),
{
    if utf8_len_capped(s, limit + 1) > limit {
        let mut r = take_bytes(s, keep);
        append_str(&mut r, "...");
        r
    } else {
        s.clone()
    }
}

fn meta_chars(m: &Metadata, key: &str) -> (r: Option<Vec<char>>)
    requires
        m.wf(),
    ensures
        match r {
            Some(v) => meta_get(m@, key@) == Some(v@),
            None => meta_get(m@, key@) is None,
        },
{
    match m.get(key) {
        Some(v) => Some(chars_of(v.as_str())),
        None => None,
    }
}

fn structure_prefix_exec(m: &Metadata) -> (r: Vec<char>)
    requires
        m.wf(),
    ensures
        r@ == structure_prefix(m@),
{
    let mut parts: Vec<Vec<char>> = Vec::new();
    if let Some(t) = meta_chars(m, "thread") {
        if !eq_str(&t, "main") && utf8_len_capped(&t, 9) <= 8 {
            push_part(&mut parts, t);
        }
    }
    let ghost a1 = parts@.map_values(|v: Vec<char>| v@);
    if let Some(lg) = meta_chars(m, "logger") {
        push_part(&mut parts, ellipsized_exec(&lg, 8, 5));
    }
    let ghost a2 = parts@.map_values(|v: Vec<char>| v@);
    if let Some(t) = meta_chars(m, "sql_type") {
        push_part(&mut parts, chars_of(sql_icon_exec(&t)));
    }
    let ghost a3 = parts@.map_values(|v: Vec<char>| v@);
    if let Some(t) = meta_chars(m, "log_type") {
        if contains_str(&t, "gc") {
            push_part(&mut parts, chars_of("GC"));
        }
    }
    let ghost a4 = parts@.map_values(|v: Vec<char>| v@);
    let combined = join_parts(&parts, "|");
    proof {
        let m0 = m@;
        let p1: Seq<Seq<char>> = match meta_get(m0, "thread"@) {
            Some(t) => if t != "main"@ && utf8_len(t) <= 8 {
                seq![t]
            } else {
                Seq::empty()
            },
            None => Seq::empty(),
        };
        assert(a1 =~= p1);
        let p2: Seq<Seq<char>> = match meta_get(m0, "logger"@) {
            Some(lg) => seq![ellipsized(lg, 8, 5)],
            None => Seq::empty(),
        };
        assert(a2 =~= p1 + p2);
        let p3: Seq<Seq<char>> = match meta_get(m0, "sql_type"@) {
            Some(t) => seq![sql_icon(t)],
            None => Seq::empty(),
        };
        assert(a3 =~= p1 + p2 + p3);
        let p4: Seq<Seq<char>> = match meta_get(m0, "log_type"@) {
            Some(t) => if seq_contains(t, "gc"@) {
                seq!["GC"@]
            } else {
                Seq::empty()
            },
            None => Seq::empty(),
        };
        assert(a4 =~= p1 + p2 + p3 + p4);
    }
    ellipsized_exec(&combined, 10, 7)
}

fn sql_keywords_upper_exec(s: &Vec<char>) -> (r: Vec<char>)
    ensures
        r@ == sql_keywords_upper(s@),
{
    let s1 = replace_str(s, "select", "SELECT");
    let s2 = replace_str(&s1, "from", "FROM");
    let s3 = replace_str(&s2, "where", "WHERE");
    let s4 = replace_str(&s3, "insert", "INSERT");
    let s5 = replace_str(&s4, "into", "INTO");
    let s6 = replace_str(&s5, "values", "VALUES");
    let s7 = replace_str(&s6, "update", "UPDATE");
    let s8 = replace_str(&s7, "set", "SET");
    let s9 = replace_str(&s8, "delete", "DELETE");
    let s10 = replace_str(&s9, "join", "JOIN");
    let s11 = replace_str(&s10, "on", "ON");
    let s12 = replace_str(&s11, "order by", "ORDER BY");
    replace_str(&s12, "group by", "GROUP BY")
}

fn after_marker_exec(c: &Vec<char>, marker: &str, skip: usize) -> (r: Option<Vec<char>>)
    ensures
        match r {
            Some(v) => after_marker(c@, marker@, skip as nat) == Some(v@),
            None => after_marker(c@, marker@, skip as nat) is None,
        },
{
    proof {
        reveal(after_marker);
    }
    let lc = lower(c);
    let mk = chars_of(marker);
    let found = find(&lc, &mk);
    after_found_exec(c, &lc, found, skip)
}

fn after_found_exec(c: &Vec<char>, lc: &Vec<char>, found: Option<usize>, skip: usize) -> (r: Option<Vec<char>>)
    requires
        found matches Some(p) ==> p <= lc@.len(),
    ensures
        match r {
            Some(v) => after_found(c@, lc@, match found { Some(p) => Some(p as int), None => None }, skip as nat) == Some(v@),
            None => found is None,
        },
{
    match found {
        Some(p) => {
            let rest = skip_after(c, lc, p, skip);
            Some(trim(&rest))
        },
        None => None,
    }
}

fn prefixed(head: &str, body: &Vec<char>) -> (r: Vec<char>)
    ensures
        r@ == head@ + body@,
{
    let mut r = chars_of(head);
    append(&mut r, body);
    r
}

fn sql_body_exec(content: &Vec<char>, ty: &Vec<char>) -> (r: Vec<char>)
    ensures
        r@ == sql_body(content@, ty@),
{
    let c = trim(content);
    if eq_str(ty, "preparing") {
        match after_marker_exec(&c, "preparing:", 11) {
            Some(sql) => {
                let up = sql_keywords_upper_exec(&sql);
                prefixed("📝 SQL: ", &ellipsized_exec(&up, 100, 97))
            },
            None => prefixed("📝 SQL: ", &c),
        }
    } else if eq_str(ty, "parameters") {
        match after_marker_exec(&c, "parameters:", 12) {
            Some(ps) => prefixed("🔧 PARAMS: ", &ellipsized_exec(&ps, 50, 47)),
            None => prefixed("🔧 PARAMS: ", &c),
        }
    } else if eq_str(ty, "result") {
        match after_marker_exec(&c, "==>", 3) {
            Some(r) => prefixed("✅ RESULT: ", &r),
            None => prefixed("✅ RESULT: ", &c),
        }
    } else {
        c
    }
}

fn is_json_exec(c: &Vec<char>) -> (b: bool)
    ensures
        b == is_json_text(c@),
{
    let t = trim(c);
    let n = t.len();
    n > 0 && ((t[0] == '{' && t[n - 1] == '}') || (t[0] == '[' && t[n - 1] == ']'))
}

fn structure_body_exec(l: &LogLine) -> (r: Vec<char>)
    requires
        l.wf(),
    ensures
        r@ == structure_body(l@),
{
    let c = chars_of(l.content.as_str());
    if let Some(t) = meta_chars(&l.metadata, "log_type") {
        if eq_str(&t, "exception_formatted") || eq_str(&t, "exception_main") || eq_str(&t, "exception_business_header")
            || eq_str(&t, "exception_business") || eq_str(&t, "exception_framework_header") || eq_str(
            &t,
            "exception_framework",
        ) {
            return c;
        }
    }
    match meta_chars(&l.metadata, "sql_type") {
        Some(t) => sql_body_exec(&c, &t),
        None => if is_json_exec(&c) {
            let t = trim(&c);
            prefixed("📄 JSON: ", &ellipsized_exec(&t, 80, 77))
        } else {
            c
        },
    }
}

fn structured_text_exec(l: &LogLine) -> (r: Vec<char>)
    requires
        l.wf(),
    ensures
        r@ == structured_text(l@),
{
    let mut parts: Vec<Vec<char>> = Vec::new();
    if let Some(v) = opt_chars(&l.level) {
        push_part(&mut parts, v);
    }
    let ghost a1 = parts@.map_values(|v: Vec<char>| v@);
    if let Some(t) = opt_chars(&l.timestamp) {
        push_part(&mut parts, simplify_time_exec(&t));
    }
    let ghost a2 = parts@.map_values(|v: Vec<char>| v@);
    let pre = structure_prefix_exec(&l.metadata);
    if pre.len() > 0 {
        push_part(&mut parts, pre);
    }
    let ghost a3 = parts@.map_values(|v: Vec<char>| v@);
    let body = structure_body_exec(l);
    let ghost bv = body@;
    push_part(&mut parts, body);
    proof {
        let lv0 = l@;
        let p1: Seq<Seq<char>> = match lv0.level {
            Some(v) => seq![v],
            None => Seq::empty(),
        };
        let p2: Seq<Seq<char>> = match lv0.timestamp {
            Some(t) => seq![simplified_time(t)],
            None => Seq::empty(),
        };
        assert(a1 =~= p1);
        assert(a2 =~= p1 + p2);
        let pre0 = structure_prefix(lv0.metadata);
        let p3: Seq<Seq<char>> = if pre0.len() > 0 {
            seq![pre0]
        } else {
            Seq::empty()
        };
        assert(a3 =~= p1 + p2 + p3);
        assert(parts@.map_values(|v: Vec<char>| v@) =~= p1 + p2 + p3 + seq![bv]);
    }
    join_parts(&parts, " ")
}

fn structure_line_exec(l: &LogLine) -> (r: LogLine)
    requires
        l.wf(),
    ensures
        r@ == structured_line(l@),
        r.wf(),
{
    let mut n = l.copy();
    if l.formatted_content.is_none() {
        let t = structured_text_exec(l);
        n.formatted_content = Some(crate::text::string_of(&t));
    }
    n.processed_by.push(own("json_structure_filter"));
    assert(n@ =~= structured_line(l@));
    n
}

impl PluginFilter for JsonStructureFilter {
    fn name(&self) -> (r: &str)
        ensures
            r@ == "json_structure"@,
    {
        "json_structure"
    }

    fn description(&self) -> (r: &str)
        ensures
            r@ == "JSON结构化过滤器，将日志行统一格式化为JSON结构"@,
    {
        "JSON结构化过滤器，将日志行统一格式化为JSON结构"
    }

    fn priority(&self) -> (r: i32)
        ensures
            r == 90,
    {
        90
    }

    fn should_process(&self, _context: &PluginChainContext) -> (b: bool)
        ensures
            b,
    {
        true
    }

    /// Gives each line a display text where it has none (see `structured_line`).
    fn process(&self, context: &mut PluginChainContext, _request: &crate::plugins::ParseRequest) -> (r: Result<(), String>)
        ensures
            r is Ok,
            final(context)@ == structure_result(old(context)@),
    {
        let ghost ls = old(context)@.current_lines;
        let mut out: Vec<LogLine> = Vec::new();
        let mut i: usize = 0;
        while i < context.current_lines.len()
            invariant
                i <= context.current_lines@.len(),
                context.wf(),
                context@ == old(context)@,
                ls == context@.current_lines,
                lv(out@) == ls.take(i as int).map_values(|l: LineView| structured_line(l)),
                lines_wf(out@),
            decreases context.current_lines.len() - i,
        {
            let nl = structure_line_exec(&context.current_lines[i]);
            let ghost prev = out@;
            out.push(nl);
            assert(ls.take(i as int + 1) =~= ls.take(i as int).push(ls[i as int]));
            assert(lv(out@) =~= lv(prev).push(nl@));
            assert(lv(out@) =~= ls.take(i as int + 1).map_values(|l: LineView| structured_line(l)));
            i = i + 1;
        }
        assert(ls.take(ls.len() as int) =~= ls);
        let n = out.len();
        context.current_lines = out;
        context.set_chain_metadata(own("json_structured"), decimal_string(n));
        assert(context@ =~= structure_result(old(context)@));
        Ok(())
    }

    fn can_handle(&self, _content: &str, _file_path: Option<&str>) -> (b: bool)
        ensures
            b,
    {
        true
    }
}

// ---------------------------------------------------------------------------
// MyBatis
// ---------------------------------------------------------------------------

/// Marks MyBatis SQL lines (`Preparing:`, `Parameters:`, `==>`) and extracts the
/// statement or the parameters.
pub struct MyBatisFilter;

/// The lower-cased text mentions `preparing:`, `parameters:` or `==>`.
pub open spec fn is_sql_text(c: Seq<char>) -> bool {
    let lc = lowercase_of(c);
    seq_contains(lc, "preparing:"@) || seq_contains(lc, "parameters:"@) || seq_contains(lc, "==>"@)
}

/// A MyBatis line with its kind, level and extracted text; other lines unchanged.
pub open spec fn mybatis_line(l: LineView) -> LineView {
    let lc = lowercase_of(l.content);
    if !is_sql_text(l.content) {
        l
    } else {
        let (m, level) = if seq_contains(lc, "preparing:"@) {
            let m0 = l.metadata.insert("sql_type"@, "preparing"@);
            (
                match after_marker(l.content, "preparing:"@, 11) {
                    Some(sql) => m0.insert("sql_statement"@, sql),
                    None => m0,
                },
                "DEBUG"@,
            )
        } else if seq_contains(lc, "parameters:"@) {
            let m0 = l.metadata.insert("sql_type"@, "parameters"@);
            (
                match after_marker(l.content, "parameters:"@, 12) {
                    Some(ps) => m0.insert("sql_parameters"@, ps),
                    None => m0,
                },
                "DEBUG"@,
            )
        } else {
            (l.metadata.insert("sql_type"@, "result"@), "INFO"@)
        };
        LineView {
            level: Some(level),
            metadata: m,
            processed_by: l.processed_by.push("mybatis_filter"@),
            ..l
        }
    }
}

/// The context after the MyBatis filter: every line passed through `mybatis_line`,
/// and the number of SQL lines recorded.
pub open spec fn mybatis_result(c: ContextView) -> ContextView {
    let ls = c.current_lines;
    with_lines(
        c,
        ls.map_values(|l: LineView| mybatis_line(l)),
        c.chain_metadata.insert(
            "mybatis_processed"@,
            decimal(count_true(ls.map_values(|l: LineView| is_sql_text(l.content)))),
        ),
    )
}

fn is_sql_exec(c: &Vec<char>) -> (b: bool)
    ensures
        b == is_sql_text(c@),
{
    let lc = lower(c);
    contains_str(&lc, "preparing:") || contains_str(&lc, "parameters:") || contains_str(&lc, "==>")
}

fn mybatis_line_exec(l: &LogLine) -> (r: (LogLine, bool))
    requires
        l.wf(),
    ensures
        r.0@ == mybatis_line(l@),
        r.1 == is_sql_text(l@.content),
        r.0.wf(),
{
    let c = chars_of(l.content.as_str());
    let mut n = l.copy();
    if !is_sql_exec(&c) {
        return (n, false);
    }
    let lc = lower(&c);
    if contains_str(&lc, "preparing:") {
        n.metadata.insert_str("sql_type", own("preparing"));
        n.level = Some(own("DEBUG"));
        if let Some(sql) = after_marker_exec(&c, "preparing:", 11) {
            n.metadata.insert_str("sql_statement", crate::text::string_of(&sql));
        }
    } else if contains_str(&lc, "parameters:") {
        n.metadata.insert_str("sql_type", own("parameters"));
        n.level = Some(own("DEBUG"));
        if let Some(ps) = after_marker_exec(&c, "parameters:", 12) {
            n.metadata.insert_str("sql_parameters", crate::text::string_of(&ps));
        }
    } else {
        n.metadata.insert_str("sql_type", own("result"));
        n.level = Some(own("INFO"));
    }
    n.processed_by.push(own("mybatis_filter"));
    assert(n@ =~= mybatis_line(l@));
    (n, true)
}

impl PluginFilter for MyBatisFilter {
    fn name(&self) -> (r: &str)
        ensures
            r@ == "mybatis"@,
    {
        "mybatis"
    }

    fn description(&self) -> (r: &str)
        ensures
            r@ == "MyBatis SQL日志过滤器，识别和格式化SQL语句及相关参数"@,
    {
        "MyBatis SQL日志过滤器，识别和格式化SQL语句及相关参数"
    }

    fn priority(&self) -> (r: i32)
        ensures
            r == 30,
    {
        30
    }

    /// Whether some line is a MyBatis SQL line.
    fn should_process(&self, context: &PluginChainContext) -> (b: bool)
        ensures
            b == exists|i: int| 0 <= i < context@.current_lines.len() && is_sql_text(#[trigger] context@.current_lines[i].content),
    {
        let mut i: usize = 0;
        while i < context.current_lines.len()
            invariant
                i <= context.current_lines@.len(),
                forall|k: int| 0 <= k < i ==> !is_sql_text(#[trigger] context@.current_lines[k].content),
            decreases context.current_lines.len() - i,
        {
            let c = chars_of(context.current_lines[i].content.as_str());
            if is_sql_exec(&c) {
                assert(is_sql_text(context@.current_lines[i as int].content));
                return true;
            }
            i = i + 1;
        }
        false
    }

    /// Passes every line through `mybatis_line`; the grouping of consecutive SQL
    /// lines keeps the order of the lines.
    fn process(&self, context: &mut PluginChainContext, _request: &crate::plugins::ParseRequest) -> (r: Result<(), String>)
        ensures
            r is Ok,
            final(context)@ == mybatis_result(old(context)@),
    {
        let ghost ls = old(context)@.current_lines;
        let mut out: Vec<LogLine> = Vec::new();
        let mut count: usize = 0;
        let mut i: usize = 0;
        while i < context.current_lines.len()
            invariant
                i <= context.current_lines@.len(),
                context.wf(),
                context@ == old(context)@,
                ls == context@.current_lines,
                lv(out@) == ls.take(i as int).map_values(|l: LineView| mybatis_line(l)),
                count == count_true(ls.take(i as int).map_values(|l: LineView| is_sql_text(l.content))),
                count <= i,
                lines_wf(out@),
            decreases context.current_lines.len() - i,
        {
            let (nl, b) = mybatis_line_exec(&context.current_lines[i]);
            let ghost prev = out@;
            out.push(nl);
            assert(ls.take(i as int + 1) =~= ls.take(i as int).push(ls[i as int]));
            assert(lv(out@) =~= lv(prev).push(nl@));
            assert(lv(out@) =~= ls.take(i as int + 1).map_values(|l: LineView| mybatis_line(l)));
            assert(ls.take(i as int + 1).map_values(|l: LineView| is_sql_text(l.content)).drop_last()
                =~= ls.take(i as int).map_values(|l: LineView| is_sql_text(l.content)));
            if b {
                count = count + 1;
            }
            i = i + 1;
        }
        assert(ls.take(ls.len() as int) =~= ls);
        context.current_lines = out;
        context.set_chain_metadata(own("mybatis_processed"), decimal_string(count));
        assert(context@ =~= mybatis_result(old(context)@));
        Ok(())
    }

    /// Whether the text mentions `preparing:`, `parameters:` or `==>` (ignoring case).
    fn can_handle(&self, content: &str, _file_path: Option<&str>) -> (b: bool)
        ensures
            b == is_sql_text(content@),
    {
        let c = chars_of(content);
        is_sql_exec(&c)
    }
}

// ---------------------------------------------------------------------------
// Java logs
// ---------------------------------------------------------------------------

/// Reads the level (and time) of JVM log lines such as `[0.000s][warning][gc] ...`.
pub struct JavaLogFilter;

/// The time part, level part and message of a line that starts with `[`, cut at
/// the byte offsets that the filter computes: the offset of the first `]` after the
/// opening bracket (counted from the second byte), of the next `[` in the rest, and
/// of the `]` after it (counted from the byte after that `[`).
pub open spec fn java_parts(c: Seq<char>) -> Option<(Seq<char>, Seq<char>, Seq<char>)> {
    let rest1 = c.skip(1);
    match index_of(rest1, ']') {
        None => None,
        Some(j) => {
            let e = prefix_bytes(rest1, j);
            let time_part = bslice(c, 0, e + 1);
            let remaining = byte_suffix(c, e + 1);
            match index_of(remaining, '[') {
                None => None,
                Some(a) => {
                    let ls = prefix_bytes(remaining, a);
                    let r2 = byte_suffix(remaining, ls + 1);
                    match index_of(r2, ']') {
                        None => None,
                        Some(b) => {
                            let le = prefix_bytes(r2, b);
                            Some(
                                (
                                    time_part,
                                    bslice(remaining, ls as int, le + 1),
                                    trim_start_char_seq(byte_suffix(remaining, le + 1), ' '),
                                ),
                            )
                        },
                    }
                },
            }
        },
    }
}

/// The level named by an upper-cased level part (`INFO` when none is named).
pub open spec fn java_level(u: Seq<char>) -> Seq<char> {
    if seq_contains(u, "WARNING"@) {
        "WARN"@
    } else if seq_contains(u, "ERROR"@) {
        "ERROR"@
    } else if seq_contains(u, "INFO"@) {
        "INFO"@
    } else if seq_contains(u, "DEBUG"@) {
        "DEBUG"@
    } else if seq_contains(u, "TRACE"@) {
        "TRACE"@
    } else {
        "INFO"@
    }
}

/// A GC line with the given level and type, on `stdout`.
pub open spec fn gc_line(l: LineView, level: Seq<char>, ty: Seq<char>) -> LineView {
    LineView {
        level: Some(level),
        metadata: l.metadata.insert("log_type"@, ty).insert("stream"@, "stdout"@),
        processed_by: l.processed_by.push("java_log_filter"@),
        ..l
    }
}

/// The line as the Java filter leaves it, and whether it recognised it.
pub open spec fn java_line(l: LineView) -> (LineView, bool) {
    let c = l.content;
    let lc = lowercase_of(c);
    let passed = LineView { processed_by: l.processed_by.push("java_log_filter"@), ..l };
    if seq_contains(lc, "[warning][gc]"@) {
        (gc_line(l, "WARN"@, "gc_warning"@), true)
    } else if seq_contains(lc, "[info][gc]"@) {
        (gc_line(l, "INFO"@, "gc_info"@), true)
    } else if seq_contains(lc, "[debug][gc]"@) {
        (gc_line(l, "DEBUG"@, "gc_debug"@), true)
    } else if c.len() > 0 && c[0] == '[' && seq_contains(c, "]["@) {
        match java_parts(c) {
            Some((tp, lp, msg)) => {
                let nl = java_level(uppercase_of(lp));
                (
                    LineView {
                        timestamp: if utf8_len(tp) > 2 {
                            Some(trim_brackets_seq(tp))
                        } else {
                            l.timestamp
                        },
                        level: Some(nl),
                        content: msg,
                        metadata: l.metadata.insert(
                            "stream"@,
                            if nl == "ERROR"@ {
                                "stderr"@
                            } else {
                                "stdout"@
                            },
                        ).insert("log_type"@, "java"@),
                        processed_by: l.processed_by.push("java_log_filter"@),
                        ..l
                    },
                    true,
                )
            },
            None => (passed, false),
        }
    } else {
        (passed, false)
    }
}

/// The context after the Java filter.
pub open spec fn java_result(c: ContextView) -> ContextView {
    let ls = c.current_lines;
    with_lines(
        c,
        ls.map_values(|l: LineView| java_line(l).0),
        c.chain_metadata.insert(
            "java_log_processed"@,
            decimal(count_true(ls.map_values(|l: LineView| java_line(l).1))),
        ),
    )
}

/// Whether a line looks like JVM output to the Java filter.
pub open spec fn java_wants(c: Seq<char>) -> bool {
    let lc = lowercase_of(c);
    seq_contains(lc, "[warning][gc]"@) || seq_contains(lc, "[info][gc]"@) || seq_contains(lc, "[debug][gc]"@)
        || seq_contains(lc, "gc,"@) || seq_contains(lc, "heap"@) || seq_contains(lc, "g1"@) || (c.len() > 0
        && c[0] == '[' && c.contains(']'))
}

/// Whether a text looks like JVM output (see `JavaLogFilter::can_handle`).
pub open spec fn java_handles(c: Seq<char>) -> bool {
    let lc = lowercase_of(c);
    ||| seq_contains(lc, "[warning][gc]"@)
    ||| seq_contains(lc, "[info][gc]"@)
    ||| seq_contains(lc, "[debug][gc]"@)
    ||| seq_contains(lc, "heap"@)
    ||| seq_contains(lc, "g1"@)
    ||| exists|i: int|
        0 <= i < lines_of(c).len() && bracket_line(#[trigger] lines_of(c)[i])
}

/// A line that starts with `[` and holds `][`.
pub open spec fn bracket_line(l: Seq<char>) -> bool {
    l.len() > 0 && l[0] == '[' && seq_contains(l, "]["@)
}

fn java_parts_exec(c: &Vec<char>) -> (r: Option<(Vec<char>, Vec<char>, Vec<char>)>)
    requires
        c@.len() > 0,
    ensures
        match r {
            Some((a, b, m)) => java_parts(c@) == Some((a@, b@, m@)),
            None => java_parts(c@) is None,
        },
{
    let rest1 = slice_from(c, 1);
    match find_char(&rest1, ']') {
        None => None,
        Some(j) => {
            proof {
                lemma_index_of(rest1@, ']');
            }
            let e = prefix_bytes_exec(&rest1, j);
            let whole = skip_bytes_wide(c, 0);
            let time_part = take_bytes_wide(&whole, e + 1);
            let remaining = skip_bytes_wide(c, e + 1);
            match find_char(&remaining, '[') {
                None => None,
                Some(a) => {
                    proof {
                        lemma_index_of(remaining@, '[');
                    }
                    let ls = prefix_bytes_exec(&remaining, a);
                    let r2 = skip_bytes_wide(&remaining, ls + 1);
                    match find_char(&r2, ']') {
                        None => None,
                        Some(b) => {
                            proof {
                                lemma_index_of(r2@, ']');
                            }
                            let le = prefix_bytes_exec(&r2, b);
                            let level_part = bslice_exec(&remaining, ls, le + 1);
                            let tail = skip_bytes_wide(&remaining, le + 1);
                            let message = trim_start_char(&tail, ' ');
                            Some((time_part, level_part, message))
                        },
                    }
                },
            }
        },
    }
}

fn java_level_exec(u: &Vec<char>) -> (r: &'static str)
    ensures
        r@ == java_level(u@),
{
    if contains_str(u, "WARNING") {
        "WARN"
    } else if contains_str(u, "ERROR") {
        "ERROR"
    } else if contains_str(u, "INFO") {
        "INFO"
    } else if contains_str(u, "DEBUG") {
        "DEBUG"
    } else if contains_str(u, "TRACE") {
        "TRACE"
    } else {
        "INFO"
    }
}

fn gc_line_exec(l: &LogLine, level: &str, ty: &str) -> (r: LogLine)
    requires
        l.wf(),
    ensures
        r@ == gc_line(l@, level@, ty@),
        r.wf(),
{
    let mut n = l.copy();
    n.level = Some(own(level));
    n.metadata.insert_str("log_type", own(ty));
    n.metadata.insert_str("stream", own("stdout"));
    n.processed_by.push(own("java_log_filter"));
    assert(n@ =~= gc_line(l@, level@, ty@));
    n
}

fn java_line_exec(l: &LogLine) -> (r: (LogLine, bool))
    requires
        l.wf(),
    ensures
        r.0@ == java_line(l@).0,
        r.1 == java_line(l@).1,
        r.0.wf(),
{
    let c = chars_of(l.content.as_str());
    let lc = lower(&c);
    if contains_str(&lc, "[warning][gc]") {
        return (gc_line_exec(l, "WARN", "gc_warning"), true);
    } else if contains_str(&lc, "[info][gc]") {
        return (gc_line_exec(l, "INFO", "gc_info"), true);
    } else if contains_str(&lc, "[debug][gc]") {
        return (gc_line_exec(l, "DEBUG", "gc_debug"), true);
    }
    let mut n = l.copy();
    if c.len() > 0 && c[0] == '[' && contains_str(&c, "][") {
        if let Some((tp, lp, msg)) = java_parts_exec(&c) {
            let u = crate::text::upper(&lp);
            let nl = java_level_exec(&u);
            if utf8_len_capped(&tp, 3) > 2 {
                let t = trim_brackets(&tp);
                n.timestamp = Some(crate::text::string_of(&t));
            }
            n.level = Some(own(nl));
            n.content = crate::text::string_of(&msg);
            let nlc = chars_of(nl);
            let stream = if eq_str(&nlc, "ERROR") {
                "stderr"
            } else {
                "stdout"
            };
            n.metadata.insert_str("stream", own(stream));
            n.metadata.insert_str("log_type", own("java"));
            n.processed_by.push(own("java_log_filter"));
            assert(n@ =~= java_line(l@).0);
            return (n, true);
        }
    }
    n.processed_by.push(own("java_log_filter"));
    assert(n@ =~= java_line(l@).0);
    (n, false)
}

fn java_wants_exec(content: &String) -> (b: bool)
    ensures
        b == java_wants(content@),
{
    let c = chars_of(content.as_str());
    let lc = lower(&c);
    contains_str(&lc, "[warning][gc]") || contains_str(&lc, "[info][gc]") || contains_str(&lc, "[debug][gc]")
        || contains_str(&lc, "gc,") || contains_str(&lc, "heap") || contains_str(&lc, "g1") || (c.len() > 0
        && c[0] == '[' && contains_char(&c, ']'))
}

impl PluginFilter for JavaLogFilter {
    fn name(&self) -> (r: &str)
        ensures
            r@ == "java_log"@,
    {
        "java_log"
    }

    fn description(&self) -> (r: &str)
        ensures
            r@ == "Java应用日志过滤器，处理GC日志、JVM日志等Java应用日志"@,
    {
        "Java应用日志过滤器，处理GC日志、JVM日志等Java应用日志"
    }

    fn priority(&self) -> (r: i32)
        ensures
            r == 25,
    {
        25
    }

    /// Whether some line looks like JVM output (see `java_wants`).
    fn should_process(&self, context: &PluginChainContext) -> (b: bool)
        ensures
            b == exists|i: int| 0 <= i < context@.current_lines.len() && java_wants(#[trigger] context@.current_lines[i].content),
    {
        let mut i: usize = 0;
        while i < context.current_lines.len()
            invariant
                i <= context.current_lines@.len(),
                forall|k: int| 0 <= k < i ==> !java_wants(#[trigger] context@.current_lines[k].content),
            decreases context.current_lines.len() - i,
        {
            if java_wants_exec(&context.current_lines[i].content) {
                assert(java_wants(context@.current_lines[i as int].content));
                return true;
            }
            i = i + 1;
        }
        false
    }

    /// Passes every line through `java_line` and records how many it recognised.
    fn process(&self, context: &mut PluginChainContext, _request: &crate::plugins::ParseRequest) -> (r: Result<(), String>)
        ensures
            r is Ok,
            final(context)@ == java_result(old(context)@),
    {
        let ghost ls = old(context)@.current_lines;
        let mut out: Vec<LogLine> = Vec::new();
        let mut count: usize = 0;
        let mut i: usize = 0;
        while i < context.current_lines.len()
            invariant
                i <= context.current_lines@.len(),
                context.wf(),
                context@ == old(context)@,
                ls == context@.current_lines,
                lv(out@) == ls.take(i as int).map_values(|l: LineView| java_line(l).0),
                count == count_true(ls.take(i as int).map_values(|l: LineView| java_line(l).1)),
                count <= i,
                lines_wf(out@),
            decreases context.current_lines.len() - i,
        {
            let (nl, b) = java_line_exec(&context.current_lines[i]);
            let ghost prev = out@;
            out.push(nl);
            assert(ls.take(i as int + 1) =~= ls.take(i as int).push(ls[i as int]));
            assert(lv(out@) =~= lv(prev).push(nl@));
            assert(lv(out@) =~= ls.take(i as int + 1).map_values(|l: LineView| java_line(l).0));
            assert(ls.take(i as int + 1).map_values(|l: LineView| java_line(l).1).drop_last()
                =~= ls.take(i as int).map_values(|l: LineView| java_line(l).1));
            if b {
                count = count + 1;
            }
            i = i + 1;
        }
        assert(ls.take(ls.len() as int) =~= ls);
        context.current_lines = out;
        context.set_chain_metadata(own("java_log_processed"), decimal_string(count));
        assert(context@ =~= java_result(old(context)@));
        Ok(())
    }

    /// GC markers, `heap` or `g1` (ignoring case), or a line that starts with `[`
    /// and holds `][`.
    fn can_handle(&self, content: &str, _file_path: Option<&str>) -> (b: bool)
        ensures
            b == java_handles(content@),
    {
        let c = chars_of(content);
        let lc = lower(&c);
        if contains_str(&lc, "[warning][gc]") || contains_str(&lc, "[info][gc]") || contains_str(&lc, "[debug][gc]")
            || contains_str(&lc, "heap") || contains_str(&lc, "g1") {
            return true;
        }
        let ls = split_lines(&c);
        let mut i: usize = 0;
        while i < ls.len()
            invariant
                i <= ls@.len(),
                ls@.len() == lines_of(c@).len(),
                forall|k: int| 0 <= k < ls@.len() ==> #[trigger] ls@[k]@ == lines_of(c@)[k],
                forall|k: int| 0 <= k < i ==> !bracket_line(#[trigger] lines_of(c@)[k]),
                c@ == content@,
                lc@ == lowercase_of(content@),
                !seq_contains(lc@, "[warning][gc]"@),
                !seq_contains(lc@, "[info][gc]"@),
                !seq_contains(lc@, "[debug][gc]"@),
                !seq_contains(lc@, "heap"@),
                !seq_contains(lc@, "g1"@),
            decreases ls.len() - i,
        {
            let line = &ls[i];
            if line.len() > 0 && line[0] == '[' && contains_str(line, "][") {
                assert(ls@[i as int]@ == lines_of(c@)[i as int]);
                assert(bracket_line(lines_of(c@)[i as int]));
                return true;
            }
            assert(ls@[i as int]@ == lines_of(c@)[i as int]);
            i = i + 1;
        }
        false
    }
}

// ---------------------------------------------------------------------------
// Docker JSON
// ---------------------------------------------------------------------------

/// Unpacks Docker's JSON lines: the `log` member becomes the content, `time` the
/// timestamp and `stream` a metadata entry; a JVM level prefix in the log gives
/// the level.
pub struct DockerJsonFilter;

/// The JVM unified-logging prefix `[uptime][level]`, capturing the level.
pub const GC_LEVEL_PATTERN: &'static str = r"^\[[^\]]+\]\[([^\]]+)\]";

/// The JVM unified-logging prefix with the spaces after it.
pub const GC_PREFIX_PATTERN: &'static str = r"^\[[^\]]+\]\[[^\]]+\]\s*";

/// The members read from a Docker JSON line, in this order.
pub open spec fn docker_keys() -> Seq<Seq<char>> {
    seq!["stream"@, "time"@, "log"@]
}

/// A line whose trimmed start is `{` and that mentions `"log"` or `"stream"`.
pub open spec fn is_docker_json_text(c: Seq<char>) -> bool {
    let t = trim_start_seq(c);
    t.len() > 0 && t[0] == '{' && (seq_contains(t, "\"log\""@) || seq_contains(t, "\"stream\""@))
}

/// A line whose trimmed start is `{` and whose text mentions `"log"` or `"stream"`.
pub open spec fn docker_wants(c: Seq<char>) -> bool {
    let t = trim_start_seq(c);
    t.len() > 0 && t[0] == '{' && (seq_contains(c, "\"log\""@) || seq_contains(c, "\"stream\""@))
}

/// The level named in a JVM log prefix.
pub open spec fn gc_level(x: Seq<char>) -> Seq<char> {
    if x == "warning"@ {
        "WARN"@
    } else if x == "info"@ {
        "INFO"@
    } else if x == "error"@ {
        "ERROR"@
    } else if x == "debug"@ || x == "trace"@ {
        "DEBUG"@
    } else {
        uppercase_of(x)
    }
}

/// The line with the members read from its JSON.
pub open spec fn docker_fields(l: LineView, ms: Seq<Option<Seq<char>>>) -> LineView {
    let m1 = match group(ms, 0) {
        Some(st) => l.metadata.insert("stream"@, st),
        None => l.metadata,
    };
    let ts = match group(ms, 1) {
        Some(t) => Some(t),
        None => l.timestamp,
    };
    let pushed = l.processed_by.push("docker_json_filter"@);
    match group(ms, 2) {
        Some(log) => {
            let clean = trim_end_char_seq(log, '\n');
            let level = match regex_captures_of(GC_LEVEL_PATTERN@, clean) {
                Some(g) => match group(g, 1) {
                    Some(x) => Some(gc_level(trim_seq(x))),
                    None => l.level,
                },
                None => l.level,
            };
            LineView {
                content: clean,
                level,
                timestamp: ts,
                formatted_content: Some(regex_replaced_of(GC_PREFIX_PATTERN@, clean, ""@)),
                metadata: m1,
                processed_by: pushed,
                ..l
            }
        },
        None => LineView { timestamp: ts, metadata: m1, processed_by: pushed, ..l },
    }
}

/// A line after the Docker filter, given what reading its content as JSON gave,
/// and whether the JSON was read.
pub open spec fn docker_line_from(l: LineView, members: Result<Seq<Option<Seq<char>>>, Seq<char>>) -> (LineView, bool) {
    match members {
        Err(e) => (LineView { metadata: l.metadata.insert("parse_error"@, "JSON解析失败: "@ + e), ..l }, false),
        Ok(ms) => (docker_fields(l, ms), true),
    }
}

/// The line after the Docker filter, and whether its JSON was read.
pub open spec fn docker_line(l: LineView) -> (LineView, bool) {
    if !is_docker_json_text(l.content) {
        (l, false)
    } else {
        docker_line_from(l, json_string_members_of(l.content, docker_keys()))
    }
}

/// The context after the Docker filter: the starting lines passed through
/// `docker_line`, and the number of lines whose JSON was read.
pub open spec fn docker_result(c: ContextView) -> ContextView {
    let ls = starting_lines(c);
    with_lines(
        c,
        ls.map_values(|l: LineView| docker_line(l).0),
        c.chain_metadata.insert(
            "docker_json_processed"@,
            decimal(count_true(ls.map_values(|l: LineView| docker_line(l).1))),
        ),
    )
}

/// Whether some line of a text is a Docker JSON line.
pub open spec fn docker_handles(c: Seq<char>) -> bool {
    exists|i: int| 0 <= i < lines_of(c).len() && is_docker_json_text(#[trigger] lines_of(c)[i])
}

fn docker_text_exec(c: &Vec<char>) -> (b: bool)
    ensures
        b == is_docker_json_text(c@),
{
    let t = trim_start(c);
    t.len() > 0 && t[0] == '{' && (contains_str(&t, "\"log\"") || contains_str(&t, "\"stream\""))
}

fn gc_level_exec(x: &Vec<char>) -> (r: Vec<char>)
    ensures
        r@ == gc_level(x@),
{
    if eq_str(x, "warning") {
        chars_of("WARN")
    } else if eq_str(x, "info") {
        chars_of("INFO")
    } else if eq_str(x, "error") {
        chars_of("ERROR")
    } else if eq_str(x, "debug") || eq_str(x, "trace") {
        chars_of("DEBUG")
    } else {
        crate::text::upper(x)
    }
}

fn docker_keys_exec() -> (r: Vec<String>)
    ensures
        r@.map_values(|k: String| k@) == docker_keys(),
{
    let mut r: Vec<String> = Vec::new();
    r.push(own("stream"));
    r.push(own("time"));
    r.push(own("log"));
    assert(r@.map_values(|k: String| k@) =~= docker_keys());
    r
}

fn docker_fields_exec(l: &LogLine, ms: &Vec<Option<String>>) -> (r: LogLine)
    requires
        l.wf(),
    ensures
        r@ == docker_fields(l@, ms@.map_values(|o: Option<String>| opt_view(o))),
        r.wf(),
{
    let ghost g = ms@.map_values(|o: Option<String>| opt_view(o));
    let mut n = l.copy();
    if let Some(st) = group_of(ms, 0) {
        n.metadata.insert_str("stream", crate::text::string_of(&st));
    }
    if let Some(t) = group_of(ms, 1) {
        n.timestamp = Some(crate::text::string_of(&t));
    }
    if let Some(log) = group_of(ms, 2) {
        let clean = trim_end_char(&log, '\n');
        let cs = crate::text::string_of(&clean);
        match regex_captures(GC_LEVEL_PATTERN, cs.as_str()) {
            Some(caps) => {
                if let Some(x) = group_of(&caps, 1) {
                    let tx = trim(&x);
                    let lv0 = gc_level_exec(&tx);
                    n.level = Some(crate::text::string_of(&lv0));
                }
            },
            None => {},
        }
        let f = regex_replace(GC_PREFIX_PATTERN, cs.as_str(), "");
        n.content = cs;
        n.formatted_content = Some(f);
    }
    n.processed_by.push(own("docker_json_filter"));
    assert(n@ =~= docker_fields(l@, g));
    n
}

fn docker_line_exec(l: &LogLine) -> (r: (LogLine, bool))
    requires
        l.wf(),
    ensures
        r.0@ == docker_line(l@).0,
        r.1 == docker_line(l@).1,
        r.0.wf(),
{
    let c = chars_of(l.content.as_str());
    if !docker_text_exec(&c) {
        return (l.copy(), false);
    }
    let keys = docker_keys_exec();
    let members = json_string_members(l.content.as_str(), &keys);
    assert(members_view(members) == json_string_members_of(l.content@, docker_keys()));
    DockerJsonFilter::line_from_members(l, &members)
}

impl DockerJsonFilter {
    /// A line after the Docker filter, given what reading its content as JSON gave:
    /// the `stream`, `time` and `log` members in that order, or the parse error,
    /// which is recorded under `parse_error`. The flag tells whether the JSON was read.
    pub fn line_from_members(l: &LogLine, members: &Result<Vec<Option<String>>, String>) -> (r: (LogLine, bool))
        requires
            l.wf(),
        ensures
            (r.0@, r.1) == docker_line_from(l@, members_view(*members)),
            r.0.wf(),
    {
        match members {
            Ok(ms) => (docker_fields_exec(l, ms), true),
            Err(e) => {
                let mut n = l.copy();
                let mut msg = chars_of("JSON解析失败: ");
                let ec = chars_of(e.as_str());
                append(&mut msg, &ec);
                n.metadata.insert_str("parse_error", crate::text::string_of(&msg));
                assert(n@ =~= docker_line_from(l@, members_view(*members)).0);
                (n, false)
            },
        }
    }
}

impl PluginFilter for DockerJsonFilter {
    fn name(&self) -> (r: &str)
        ensures
            r@ == "docker_json"@,
    {
        "docker_json"
    }

    fn description(&self) -> (r: &str)
        ensures
            r@ == "Docker JSON日志解析过滤器，解析容器JSON格式日志并提取内容"@,
    {
        "Docker JSON日志解析过滤器，解析容器JSON格式日志并提取内容"
    }

    fn priority(&self) -> (r: i32)
        ensures
            r == 10,
    {
        10
    }

    /// True when there are no lines yet, else whether some line is a Docker JSON line.
    fn should_process(&self, context: &PluginChainContext) -> (b: bool)
        ensures
            b == (context@.current_lines.len() == 0 || exists|i: int|
                0 <= i < context@.current_lines.len() && docker_wants(#[trigger] context@.current_lines[i].content)),
    {
        if context.current_lines.len() == 0 {
            return true;
        }
        let mut i: usize = 0;
        while i < context.current_lines.len()
            invariant
                i <= context.current_lines@.len(),
                forall|k: int| 0 <= k < i ==> !docker_wants(#[trigger] context@.current_lines[k].content),
            decreases context.current_lines.len() - i,
        {
            let c = chars_of(context.current_lines[i].content.as_str());
            let t = trim_start(&c);
            if t.len() > 0 && t[0] == '{' && (contains_str(&c, "\"log\"") || contains_str(&c, "\"stream\"")) {
                assert(docker_wants(context@.current_lines[i as int].content));
                return true;
            }
            i = i + 1;
        }
        false
    }

    /// Reads the JSON of each starting line (see `docker_line`).
    fn process(&self, context: &mut PluginChainContext, _request: &crate::plugins::ParseRequest) -> (r: Result<(), String>)
        ensures
            r is Ok,
            final(context)@ == docker_result(old(context)@),
    {
        let start = starting_log_lines(context);
        let ghost ls = lv(start@);
        let mut out: Vec<LogLine> = Vec::new();
        let mut count: usize = 0;
        let mut i: usize = 0;
        while i < start.len()
            invariant
                i <= start@.len(),
                lines_wf(start@),
                ls == lv(start@),
                lv(out@) == ls.take(i as int).map_values(|l: LineView| docker_line(l).0),
                count == count_true(ls.take(i as int).map_values(|l: LineView| docker_line(l).1)),
                count <= i,
                lines_wf(out@),
            decreases start.len() - i,
        {
            let (nl, b) = docker_line_exec(&start[i]);
            let ghost prev = out@;
            out.push(nl);
            assert(ls.take(i as int + 1) =~= ls.take(i as int).push(ls[i as int]));
            assert(lv(out@) =~= lv(prev).push(nl@));
            assert(lv(out@) =~= ls.take(i as int + 1).map_values(|l: LineView| docker_line(l).0));
            assert(ls.take(i as int + 1).map_values(|l: LineView| docker_line(l).1).drop_last()
                =~= ls.take(i as int).map_values(|l: LineView| docker_line(l).1));
            if b {
                count = count + 1;
            }
            i = i + 1;
        }
        assert(ls.take(ls.len() as int) =~= ls);
        context.current_lines = out;
        context.set_chain_metadata(own("docker_json_processed"), decimal_string(count));
        assert(context@ =~= docker_result(old(context)@));
        Ok(())
    }

    /// Whether some line of the text is a Docker JSON line.
    fn can_handle(&self, content: &str, _file_path: Option<&str>) -> (b: bool)
        ensures
            b == docker_handles(content@),
    {
        let c = chars_of(content);
        let ls = split_lines(&c);
        let mut i: usize = 0;
        while i < ls.len()
            invariant
                i <= ls@.len(),
                ls@.len() == lines_of(c@).len(),
                forall|k: int| 0 <= k < ls@.len() ==> #[trigger] ls@[k]@ == lines_of(c@)[k],
                forall|k: int| 0 <= k < i ==> !is_docker_json_text(#[trigger] lines_of(c@)[k]),
                c@ == content@,
            decreases ls.len() - i,
        {
            assert(ls@[i as int]@ == lines_of(c@)[i as int]);
            if docker_text_exec(&ls[i]) {
                return true;
            }
            i = i + 1;
        }
        false
    }
}

// ---------------------------------------------------------------------------
// Spring Boot
// ---------------------------------------------------------------------------

/// Reads timestamp, level, thread, logger and message of Spring Boot lines;
/// guesses a level for the other lines.
pub struct SpringBootFilter;

/// Spring Boot lines in the classic layout (`2024-01-15 14:30:25.123 [main] INFO ...`)
/// and in the layout of Spring Boot 3 (`2025-10-15T07:40:55.169Z  INFO 1 --- [thread] logger : message`).
pub const SPRINGBOOT_FILTER_PATTERN: &'static str = r"^(\d{4}-\d{2}-\d{2}[T\s]\d{2}:\d{2}:\d{2}[.,]\d{3}(?:Z)?)\s+([A-Z]+)\s+(?:\d+\s+---\s+)?\[\s*([^\]]+)\s*\](?:\s+([^\s:]+)\s*:\s*)?(.*)$";

/// The timestamp cut before its fraction, with spaces turned into `T`.
pub open spec fn filter_timestamp(ts: Seq<char>) -> Seq<char> {
    let t = trim_seq(ts);
    if t.contains('.') {
        replace_char_seq(before_char(t, '.'), ' ', 'T')
    } else if t.contains(',') {
        replace_char_seq(before_char(t, ','), ' ', 'T')
    } else {
        replace_char_seq(t, ' ', 'T')
    }
}

/// The message of a matched line: group 5, or the content when it is absent.
pub open spec fn group_or(g: Seq<Option<Seq<char>>>, k: int, dflt: Seq<char>) -> Seq<char> {
    match group(g, k) {
        Some(x) => x,
        None => dflt,
    }
}

/// A line that the Spring Boot pattern matched, with the groups `g`.
pub open spec fn spring_matched(l: LineView, g: Seq<Option<Seq<char>>>) -> LineView {
    let ts = match group(g, 1) {
        Some(t) => Some(filter_timestamp(t)),
        None => l.timestamp,
    };
    let (level, m1) = match group(g, 2) {
        Some(lvl) => {
            let n = level_family(uppercase_of(lvl));
            (Some(n), l.metadata.insert("stream"@, stream_of(Some(n))))
        },
        None => (l.level, l.metadata),
    };
    let m2 = match group(g, 3) {
        Some(t) => m1.insert("thread"@, t),
        None => m1,
    };
    let (content, m3) = match group(g, 4) {
        Some(lg) => {
            let lt = trim_seq(lg);
            if lt.contains(' ') {
                (lt, m2)
            } else {
                (group_or(g, 5, l.content), m2.insert("logger"@, lt))
            }
        },
        None => (group_or(g, 5, l.content), m2),
    };
    LineView {
        line_number: l.line_number,
        content,
        level,
        timestamp: ts,
        formatted_content: Some(content),
        metadata: m3,
        processed_by: l.processed_by.push("springboot_filter"@),
    }
}

/// The level guessed for a line the pattern did not match, and its stream.
pub open spec fn guessed_level(c: Seq<char>) -> (Seq<char>, Seq<char>) {
    let lc = lowercase_of(c);
    if seq_contains(lc, "error"@) || seq_contains(lc, "exception"@) {
        ("ERROR"@, "stderr"@)
    } else if seq_contains(lc, "warn"@) {
        ("WARN"@, "stdout"@)
    } else if seq_contains(lc, "info"@) {
        ("INFO"@, "stdout"@)
    } else {
        ("DEBUG"@, "stdout"@)
    }
}

/// A line the pattern did not match: a guessed level, marked `unparsed`.
pub open spec fn spring_unmatched(l: LineView) -> LineView {
    let (lvl, stream) = guessed_level(l.content);
    LineView {
        level: Some(lvl),
        metadata: l.metadata.insert("stream"@, stream).insert("type"@, "unparsed"@),
        ..l
    }
}

/// The line after the Spring Boot filter and whether the pattern matched it;
/// `None` for a blank line, which the filter drops.
pub open spec fn spring_line(l: LineView) -> Option<(LineView, bool)> {
    if trim_seq(l.content).len() == 0 {
        None
    } else {
        match regex_captures_of(SPRINGBOOT_FILTER_PATTERN@, l.content) {
            Some(g) => Some((spring_matched(l, g), true)),
            None => Some((spring_unmatched(l), false)),
        }
    }
}

/// The lines the filter keeps, in order.
pub open spec fn spring_lines(ls: Seq<LineView>) -> Seq<LineView>
    decreases ls.len(),
{
    if ls.len() == 0 {
        Seq::empty()
    } else {
        match spring_line(ls.last()) {
            Some((x, _)) => spring_lines(ls.drop_last()).push(x),
            None => spring_lines(ls.drop_last()),
        }
    }
}

/// The number of lines the pattern matched.
pub open spec fn spring_count(ls: Seq<LineView>) -> nat
    decreases ls.len(),
{
    if ls.len() == 0 {
        0
    } else {
        spring_count(ls.drop_last()) + match spring_line(ls.last()) {
            Some((_, true)) => 1nat,
            _ => 0nat,
        }
    }
}

/// The outcome of the Spring Boot filter: an error when its pattern does not
/// compile, else the context with the kept lines and the number of matched lines.
pub open spec fn spring_result(c: ContextView) -> Result<ContextView, Seq<char>> {
    match regex_error_of(SPRINGBOOT_FILTER_PATTERN@) {
        Some(e) => Err("SpringBoot正则表达式编译失败: "@ + e),
        None => {
            let ls = starting_lines(c);
            Ok(
                with_lines(
                    c,
                    spring_lines(ls),
                    c.chain_metadata.insert("springboot_processed"@, decimal(spring_count(ls))),
                ),
            )
        },
    }
}

/// Whether a line looks like a Spring Boot line to the filter: a timestamp-like
/// start, Spring keywords, or a level word (ignoring case).
pub open spec fn spring_wants(c: Seq<char>) -> bool {
    let lc = lowercase_of(c);
    let digit = c.len() > 0 && is_ascii_digit(c[0]);
    let has_new = digit && utf8_len(c) >= 20 && seq_contains(c, "---"@) && c.contains('[');
    let has_traditional = digit && utf8_len(c) >= 10 && (c.contains('[') || seq_contains(c, " INFO "@)
        || seq_contains(c, " ERROR "@));
    let kw = seq_contains(lc, "spring"@) || seq_contains(lc, "application.start"@) || seq_contains(
        lc,
        "springframework"@,
    );
    let lvl = seq_contains(lc, "info"@) || seq_contains(lc, "error"@) || seq_contains(lc, "warn"@)
        || seq_contains(lc, "debug"@);
    has_new || has_traditional || kw || lvl
}

/// Whether a text looks like Spring Boot output (see `SpringBootFilter::can_handle`).
pub open spec fn spring_handles(c: Seq<char>) -> bool {
    let lc = lowercase_of(c);
    if seq_contains(lc, "{"@) && seq_contains(lc, "\"log\""@) && seq_contains(lc, "\"stream\""@) {
        false
    } else {
        ||| seq_contains(lc, "spring"@)
        ||| seq_contains(lc, "application.start"@)
        ||| seq_contains(lc, "springframework"@)
        ||| seq_contains(lc, "com.example."@)
        ||| seq_contains(lc, "http-nio-"@)
        ||| exists|i: int| 0 <= i < lines_of(c).len() && looks_like_log_line(#[trigger] lines_of(c)[i])
    }
}

fn filter_timestamp_exec(ts: &Vec<char>) -> (r: Vec<char>)
    ensures
        r@ == filter_timestamp(ts@),
{
    let t = trim(ts);
    if contains_char(&t, '.') {
        replace_char(&take_before_char(&t, '.'), ' ', 'T')
    } else if contains_char(&t, ',') {
        replace_char(&take_before_char(&t, ','), ' ', 'T')
    } else {
        replace_char(&t, ' ', 'T')
    }
}

pub(crate) fn level_family_exec(u: &Vec<char>) -> (r: Vec<char>)
    ensures
        r@ == level_family(u@),
{
    if eq_str(u, "ERROR") || eq_str(u, "ERR") || eq_str(u, "FATAL") || eq_str(u, "SEVERE") {
        chars_of("ERROR")
    } else if eq_str(u, "WARN") || eq_str(u, "WARNING") || eq_str(u, "ALERT") {
        chars_of("WARN")
    } else if eq_str(u, "INFO") || eq_str(u, "INFORMATION") || eq_str(u, "NOTE") {
        chars_of("INFO")
    } else if eq_str(u, "DEBUG") || eq_str(u, "TRACE") || eq_str(u, "VERBOSE") {
        chars_of("DEBUG")
    } else {
        u.clone()
    }
}

fn spring_unmatched_exec(l: &LogLine) -> (r: LogLine)
    requires
        l.wf(),
    ensures
        r@ == spring_unmatched(l@),
        r.wf(),
{
    let c = chars_of(l.content.as_str());
    let lc = lower(&c);
    let (lvl, stream) = if contains_str(&lc, "error") || contains_str(&lc, "exception") {
        ("ERROR", "stderr")
    } else if contains_str(&lc, "warn") {
        ("WARN", "stdout")
    } else if contains_str(&lc, "info") {
        ("INFO", "stdout")
    } else {
        ("DEBUG", "stdout")
    };
    let mut n = l.copy();
    n.level = Some(own(lvl));
    n.metadata.insert_str("stream", own(stream));
    n.metadata.insert_str("type", own("unparsed"));
    assert(n@ =~= spring_unmatched(l@));
    n
}

fn spring_line_exec(l: &LogLine) -> (r: Option<(LogLine, bool)>)
    requires
        l.wf(),
    ensures
        match r {
            Some((x, b)) => spring_line(l@) == Some((x@, b)) && x.wf(),
            None => spring_line(l@) is None,
        },
{
    let c = chars_of(l.content.as_str());
    let t = trim(&c);
    if t.len() == 0 {
        return None;
    }
    match regex_captures(SPRINGBOOT_FILTER_PATTERN, l.content.as_str()) {
        Some(caps) => Some((SpringBootFilter::line_from_groups(l, &caps), true)),
        None => Some((spring_unmatched_exec(l), false)),
    }
}

impl SpringBootFilter {
    /// A line after the Spring Boot filter, given the groups of the pattern's match
    /// in its content (group 0 the whole match): timestamp, level, thread, logger and
    /// message.
    pub fn line_from_groups(l: &LogLine, groups: &Vec<Option<String>>) -> (r: LogLine)
        requires
            l.wf(),
        ensures
            r@ == spring_matched(l@, groups_view(groups@)),
            r.wf(),
    {
        let ghost g = groups@.map_values(|o: Option<String>| opt_view(o));
        let mut n = l.copy();
        if let Some(t) = group_of(groups, 1) {
            let nt = filter_timestamp_exec(&t);
            n.timestamp = Some(crate::text::string_of(&nt));
        }
        if let Some(lvl) = group_of(groups, 2) {
            let u = crate::text::upper(&lvl);
            let fam = level_family_exec(&u);
            let ofam = Some(fam.clone());
            let stream = stream_of_exec(&ofam);
            n.level = Some(crate::text::string_of(&fam));
            n.metadata.insert_str("stream", own(stream));
        }
        if let Some(t) = group_of(groups, 3) {
            n.metadata.insert_str("thread", crate::text::string_of(&t));
        }
        let msg = group_of(groups, 5);
        match group_of(groups, 4) {
            Some(lg) => {
                let lt = trim(&lg);
                if contains_char(&lt, ' ') {
                    n.content = crate::text::string_of(&lt);
                } else {
                    n.metadata.insert_str("logger", crate::text::string_of(&lt));
                    if let Some(m) = msg {
                        n.content = crate::text::string_of(&m);
                    }
                }
            },
            None => {
                if let Some(m) = msg {
                    n.content = crate::text::string_of(&m);
                }
            },
        }
        n.processed_by.push(own("springboot_filter"));
        n.formatted_content = Some(n.content.clone());
        assert(n@ =~= spring_matched(l@, g));
        n
    }
}

fn spring_wants_exec(content: &String) -> (b: bool)
    ensures
        b == spring_wants(content@),
{
    let c = chars_of(content.as_str());
    let lc = lower(&c);
    let digit = c.len() > 0 && '0' <= c[0] && c[0] <= '9';
    let has_new = digit && utf8_len_capped(&c, 20) >= 20 && contains_str(&c, "---") && contains_char(&c, '[');
    let has_traditional = digit && utf8_len_capped(&c, 10) >= 10 && (contains_char(&c, '[') || contains_str(
        &c,
        " INFO ",
    ) || contains_str(&c, " ERROR "));
    let kw = contains_str(&lc, "spring") || contains_str(&lc, "application.start") || contains_str(
        &lc,
        "springframework",
    );
    let lvl = contains_str(&lc, "info") || contains_str(&lc, "error") || contains_str(&lc, "warn")
        || contains_str(&lc, "debug");
    has_new || has_traditional || kw || lvl
}

impl PluginFilter for SpringBootFilter {
    fn name(&self) -> (r: &str)
        ensures
            r@ == "springboot"@,
    {
        "springboot"
    }

    fn description(&self) -> (r: &str)
        ensures
            r@ == "SpringBoot应用日志解析过滤器，提取时间戳、级别、线程等结构化信息"@,
    {
        "SpringBoot应用日志解析过滤器，提取时间戳、级别、线程等结构化信息"
    }

    fn priority(&self) -> (r: i32)
        ensures
            r == 20,
    {
        20
    }

    /// True when there are no lines yet, else whether some line looks like Spring
    /// Boot output (see `spring_wants`).
    fn should_process(&self, context: &PluginChainContext) -> (b: bool)
        ensures
            b == (context@.current_lines.len() == 0 || exists|i: int|
                0 <= i < context@.current_lines.len() && spring_wants(#[trigger] context@.current_lines[i].content)),
    {
        if context.current_lines.len() == 0 {
            return true;
        }
        let mut i: usize = 0;
        while i < context.current_lines.len()
            invariant
                i <= context.current_lines@.len(),
                forall|k: int| 0 <= k < i ==> !spring_wants(#[trigger] context@.current_lines[k].content),
            decreases context.current_lines.len() - i,
        {
            if spring_wants_exec(&context.current_lines[i].content) {
                assert(spring_wants(context@.current_lines[i as int].content));
                return true;
            }
            i = i + 1;
        }
        false
    }

    /// Fails only when its pattern does not compile; else keeps the non-blank
    /// starting lines, each passed through `spring_line`.
    fn process(&self, context: &mut PluginChainContext, _request: &crate::plugins::ParseRequest) -> (r: Result<(), String>)
        ensures
            match spring_result(old(context)@) {
                Ok(c) => r is Ok && final(context)@ == c,
                Err(e) => r matches Err(m) && m@ == e && final(context)@ == old(context)@,
            },
    {
        if let Some(e) = regex_compile_error(SPRINGBOOT_FILTER_PATTERN) {
            let mut msg = chars_of("SpringBoot正则表达式编译失败: ");
            let ec = chars_of(e.as_str());
            append(&mut msg, &ec);
            return Err(crate::text::string_of(&msg));
        }
        let start = starting_log_lines(context);
        let ghost ls = lv(start@);
        let mut out: Vec<LogLine> = Vec::new();
        let mut count: usize = 0;
        let mut i: usize = 0;
        assert(ls.take(0) =~= Seq::<LineView>::empty());
        while i < start.len()
            invariant
                i <= start@.len(),
                lines_wf(start@),
                ls == lv(start@),
                lv(out@) == spring_lines(ls.take(i as int)),
                count == spring_count(ls.take(i as int)),
                count <= i,
                lines_wf(out@),
            decreases start.len() - i,
        {
            let ghost prev = out@;
            assert(ls.take(i as int + 1).drop_last() =~= ls.take(i as int));
            assert(ls.take(i as int + 1).last() == ls[i as int]);
            match spring_line_exec(&start[i]) {
                Some((nl, b)) => {
                    out.push(nl);
                    assert(lv(out@) =~= lv(prev).push(nl@));
                    if b {
                        count = count + 1;
                    }
                },
                None => {},
            }
            i = i + 1;
        }
        assert(ls.take(ls.len() as int) =~= ls);
        context.current_lines = out;
        context.set_chain_metadata(own("springboot_processed"), decimal_string(count));
        assert(context@ =~= spring_result(old(context)@)->Ok_0);
        Ok(())
    }

    /// Not for Docker JSON text; else Spring keywords, `com.example.`, `http-nio-`,
    /// or a line that starts like a timestamped log line.
    fn can_handle(&self, content: &str, _file_path: Option<&str>) -> (b: bool)
        ensures
            b == spring_handles(content@),
    {
        let c = chars_of(content);
        let lc = lower(&c);
        if contains_str(&lc, "{") && contains_str(&lc, "\"log\"") && contains_str(&lc, "\"stream\"") {
            return false;
        }
        if contains_str(&lc, "spring") || contains_str(&lc, "application.start") || contains_str(&lc, "springframework")
            || contains_str(&lc, "com.example.") || contains_str(&lc, "http-nio-") {
            return true;
        }
        let ls = split_lines(&c);
        let mut i: usize = 0;
        while i < ls.len()
            invariant
                i <= ls@.len(),
                ls@.len() == lines_of(c@).len(),
                forall|k: int| 0 <= k < ls@.len() ==> #[trigger] ls@[k]@ == lines_of(c@)[k],
                forall|k: int| 0 <= k < i ==> !looks_like_log_line(#[trigger] lines_of(c@)[k]),
                c@ == content@,
                lc@ == lowercase_of(content@),
                !(seq_contains(lc@, "{"@) && seq_contains(lc@, "\"log\""@) && seq_contains(lc@, "\"stream\""@)),
            decreases ls.len() - i,
        {
            let line = &ls[i];
            assert(ls@[i as int]@ == lines_of(c@)[i as int]);
            if line.len() > 0 && '0' <= line[0] && line[0] <= '9' && utf8_len_capped(line, 10) >= 10 && (
            contains_char(line, '[') || contains_str(line, " INFO ") || contains_str(line, " ERROR ")) {
                assert(looks_like_log_line(lines_of(c@)[i as int]));
                return true;
            }
            i = i + 1;
        }
        false
    }
}

// ---------------------------------------------------------------------------
// The filters by kind
// ---------------------------------------------------------------------------

/// The filters a chain can hold.
#[derive(Clone, Copy, Debug, PartialEq, Eq, Structural)]
pub enum FilterKind {
    DockerJson,
    SpringBoot,
    MyBatis,
    JsonStructure,
    JavaLog,
    ContentEnhancer,
}

pub open spec fn filter_name(k: FilterKind) -> Seq<char> {
    match k {
        FilterKind::DockerJson => "docker_json"@,
        FilterKind::SpringBoot => "springboot"@,
        FilterKind::MyBatis => "mybatis"@,
        FilterKind::JsonStructure => "json_structure"@,
        FilterKind::JavaLog => "java_log"@,
        FilterKind::ContentEnhancer => "content_enhancer"@,
    }
}

pub open spec fn filter_priority(k: FilterKind) -> int {
    match k {
        FilterKind::DockerJson => 10,
        FilterKind::SpringBoot => 20,
        FilterKind::JavaLog => 25,
        FilterKind::MyBatis => 30,
        FilterKind::ContentEnhancer => 80,
        FilterKind::JsonStructure => 90,
    }
}

/// Whether the filter has anything to do in the context.
pub open spec fn filter_wants(k: FilterKind, c: ContextView) -> bool {
    let ls = c.current_lines;
    match k {
        FilterKind::DockerJson => ls.len() == 0 || exists|i: int| 0 <= i < ls.len() && docker_wants(#[trigger] ls[i].content),
        FilterKind::SpringBoot => ls.len() == 0 || exists|i: int| 0 <= i < ls.len() && spring_wants(#[trigger] ls[i].content),
        FilterKind::MyBatis => exists|i: int| 0 <= i < ls.len() && is_sql_text(#[trigger] ls[i].content),
        FilterKind::JsonStructure => true,
        FilterKind::JavaLog => exists|i: int| 0 <= i < ls.len() && java_wants(#[trigger] ls[i].content),
        FilterKind::ContentEnhancer => exists|i: int| 0 <= i < ls.len() && enhancer_wants(#[trigger] ls[i]),
    }
}

/// What the filter does to the context: the new context, or its error message.
pub open spec fn filter_outcome(k: FilterKind, c: ContextView) -> Result<ContextView, Seq<char>> {
    match k {
        FilterKind::DockerJson => Ok(docker_result(c)),
        FilterKind::SpringBoot => spring_result(c),
        FilterKind::MyBatis => Ok(mybatis_result(c)),
        FilterKind::JsonStructure => Ok(structure_result(c)),
        FilterKind::JavaLog => Ok(java_result(c)),
        FilterKind::ContentEnhancer => Ok(enhancer_result(c)),
    }
}

/// Whether the filter can contribute to a text.
pub open spec fn filter_handles(k: FilterKind, content: Seq<char>) -> bool {
    match k {
        FilterKind::DockerJson => docker_handles(content),
        FilterKind::SpringBoot => spring_handles(content),
        FilterKind::MyBatis => is_sql_text(content),
        FilterKind::JsonStructure => true,
        FilterKind::JavaLog => java_handles(content),
        FilterKind::ContentEnhancer => true,
    }
}

impl FilterKind {
    pub fn name(&self) -> (r: &'static str)
        ensures
            r@ == filter_name(*self),
    {
        match self {
            FilterKind::DockerJson => "docker_json",
            FilterKind::SpringBoot => "springboot",
            FilterKind::MyBatis => "mybatis",
            FilterKind::JsonStructure => "json_structure",
            FilterKind::JavaLog => "java_log",
            FilterKind::ContentEnhancer => "content_enhancer",
        }
    }

    pub fn priority(&self) -> (r: i32)
        ensures
            r == filter_priority(*self),
    {
        match self {
            FilterKind::DockerJson => 10,
            FilterKind::SpringBoot => 20,
            FilterKind::JavaLog => 25,
            FilterKind::MyBatis => 30,
            FilterKind::ContentEnhancer => 80,
            FilterKind::JsonStructure => 90,
        }
    }

    pub fn should_process(&self, context: &PluginChainContext) -> (b: bool)
        requires
            context.wf(),
        ensures
            b == filter_wants(*self, context@),
    {
        match self {
            FilterKind::DockerJson => DockerJsonFilter.should_process(context),
            FilterKind::SpringBoot => SpringBootFilter.should_process(context),
            FilterKind::MyBatis => MyBatisFilter.should_process(context),
            FilterKind::JsonStructure => JsonStructureFilter.should_process(context),
            FilterKind::JavaLog => JavaLogFilter.should_process(context),
            FilterKind::ContentEnhancer => ContentEnhancerFilter.should_process(context),
        }
    }

    pub fn process(&self, context: &mut PluginChainContext, request: &crate::plugins::ParseRequest) -> (r: Result<(), String>)
        requires
            old(context).wf(),
        ensures
            final(context).wf(),
            match filter_outcome(*self, old(context)@) {
                Ok(c) => r is Ok && final(context)@ == c,
                Err(e) => r matches Err(m) && m@ == e && final(context)@ == old(context)@,
            },
    {
        match self {
            FilterKind::DockerJson => DockerJsonFilter.process(context, request),
            FilterKind::SpringBoot => SpringBootFilter.process(context, request),
            FilterKind::MyBatis => MyBatisFilter.process(context, request),
            FilterKind::JsonStructure => JsonStructureFilter.process(context, request),
            FilterKind::JavaLog => JavaLogFilter.process(context, request),
            FilterKind::ContentEnhancer => ContentEnhancerFilter.process(context, request),
        }
    }

    pub fn can_handle(&self, content: &str, file_path: Option<&str>) -> (b: bool)
        ensures
            b == filter_handles(*self, content@),
    {
        match self {
            FilterKind::DockerJson => DockerJsonFilter.can_handle(content, file_path),
            FilterKind::SpringBoot => SpringBootFilter.can_handle(content, file_path),
            FilterKind::MyBatis => MyBatisFilter.can_handle(content, file_path),
            FilterKind::JsonStructure => JsonStructureFilter.can_handle(content, file_path),
            FilterKind::JavaLog => JavaLogFilter.can_handle(content, file_path),
            FilterKind::ContentEnhancer => ContentEnhancerFilter.can_handle(content, file_path),
        }
    }
}

} // verus!

verus! {

/// No filter touches the original text, the record of filters run, the errors or
/// the stop flag; the filters that do not parse keep the lines and their numbers,
/// and the Spring Boot filter never adds a line.
pub proof fn lemma_filters_keep_context(k: FilterKind, c: ContextView)
    ensures
        match filter_outcome(k, c) {
            Ok(c2) => {
                &&& c2.original_content == c.original_content
                &&& c2.processing_chain == c.processing_chain
                &&& c2.errors == c.errors
                &&& c2.should_continue == c.should_continue
                &&& (k != FilterKind::DockerJson && k != FilterKind::SpringBoot) ==> {
                    &&& c2.current_lines.len() == c.current_lines.len()
                    &&& forall|i: int| 0 <= i < c.current_lines.len() ==> (#[trigger] c2.current_lines[i]).line_number == c.current_lines[i].line_number
                }
                &&& k == FilterKind::DockerJson ==> c2.current_lines.len() == starting_lines(c).len()
                &&& k == FilterKind::SpringBoot ==> c2.current_lines.len() <= starting_lines(c).len()
            },
            Err(_) => k == FilterKind::SpringBoot,
        },
{
    if k == FilterKind::SpringBoot {
        lemma_spring_lines_len(starting_lines(c));
    }
}

proof fn lemma_spring_lines_len(ls: Seq<LineView>)
    ensures
        spring_lines(ls).len() <= ls.len(),
    decreases ls.len(),
{
    if ls.len() > 0 {
        lemma_spring_lines_len(ls.drop_last());
    }
}

/// How many of the first `n` lines are not blank.
pub open spec fn nonblank_count(ls: Seq<Seq<char>>, n: nat) -> nat
    decreases n,
{
    if n == 0 {
        0
    } else {
        nonblank_count(ls, (n - 1) as nat) + if trim_seq(ls[n - 1]).len() == 0 {
            0nat
        } else {
            1nat
        }
    }
}

/// How many lines record that the Spring Boot filter parsed them.
pub open spec fn marked_count(ls: Seq<LineView>) -> nat
    decreases ls.len(),
{
    if ls.len() == 0 {
        0
    } else {
        marked_count(ls.drop_last()) + if ls.last().processed_by.contains("springboot_filter"@) {
            1nat
        } else {
            0nat
        }
    }
}

/// What the Spring Boot filter promises of the level and stream of a line: with a
/// level, the stream is `stderr` exactly for `ERROR`; without one, the pattern
/// matched the line but gave no level.
pub open spec fn spring_level_promise(x: LineView, source: LineView) -> bool {
    &&& x.level is Some ==> (x.metadata.contains_key("stream"@) && (x.metadata["stream"@] == "stderr"@ <==> x.level
        == Some("ERROR"@)))
    &&& x.level is None ==> (regex_captures_of(SPRINGBOOT_FILTER_PATTERN@, source.content) matches Some(g) && group(
        g,
        2,
    ) is None)
}

/// The non-blank lines of a text, as the filters start from them: numbered by their
/// position, in order, each non-blank, as many as there are non-blank lines.
proof fn lemma_nonblank_lines_shape(ls: Seq<Seq<char>>, n: nat)
    requires
        n <= ls.len(),
    ensures
        nonblank_lines(ls, n).len() == nonblank_count(ls, n),
        forall|i: int| 0 <= i < nonblank_lines(ls, n).len() ==> {
            let l = #[trigger] nonblank_lines(ls, n)[i];
            &&& 1 <= l.line_number <= n
            &&& l == fresh_line(l.line_number, ls[l.line_number - 1])
            &&& trim_seq(ls[l.line_number - 1]).len() > 0
        },
        forall|i: int, j: int|
            0 <= i < j < nonblank_lines(ls, n).len() ==> (#[trigger] nonblank_lines(ls, n)[i]).line_number
                < (#[trigger] nonblank_lines(ls, n)[j]).line_number,
    decreases n,
{
    if n > 0 {
        lemma_nonblank_lines_shape(ls, (n - 1) as nat);
        let prev = nonblank_lines(ls, (n - 1) as nat);
        let cur = nonblank_lines(ls, n);
        if trim_seq(ls[n - 1]).len() != 0 {
            assert forall|i: int| 0 <= i < cur.len() implies {
                let l = #[trigger] cur[i];
                &&& 1 <= l.line_number <= n
                &&& l == fresh_line(l.line_number, ls[l.line_number - 1])
                &&& trim_seq(ls[l.line_number - 1]).len() > 0
            } by {
                if i < prev.len() {
                    assert(cur[i] == prev[i]);
                }
            }
            assert forall|i: int, j: int| 0 <= i < j < cur.len() implies (#[trigger] cur[i]).line_number
                < (#[trigger] cur[j]).line_number by {
                assert(cur[i] == prev[i]);
                if j < prev.len() {
                    assert(cur[j] == prev[j]);
                }
            }
        }
    }
}

/// One fresh, non-blank line through the Spring Boot filter.
proof fn lemma_spring_fresh_line(l: LineView)
    requires
        trim_seq(l.content).len() > 0,
        l.level is None,
        l.processed_by == Seq::<Seq<char>>::empty(),
        l.metadata == Map::<Seq<char>, Seq<char>>::empty(),
    ensures
        spring_line(l) is Some,
        spring_line(l)->Some_0.0.line_number == l.line_number,
        spring_line(l)->Some_0.0.processed_by.contains("springboot_filter"@) == spring_line(l)->Some_0.1,
        spring_level_promise(spring_line(l)->Some_0.0, l),
{
    reveal_strlit("stream");
    reveal_strlit("thread");
    reveal_strlit("logger");
    reveal_strlit("type");
    reveal_strlit("stderr");
    reveal_strlit("stdout");
    reveal_strlit("ERROR");
    reveal_strlit("WARN");
    reveal_strlit("INFO");
    reveal_strlit("DEBUG");
    assert("stdout"@ != "stderr"@) by {
        assert("stdout"@[3] != "stderr"@[3]);
    }
    assert("thread"@ != "stream"@) by {
        assert("thread"@[1] != "stream"@[1]);
    }
    assert("logger"@ != "stream"@) by {
        assert("logger"@[0] != "stream"@[0]);
    }
    assert("type"@ != "stream"@) by {
        assert("type"@.len() != "stream"@.len());
    }
    let (x, matched) = spring_line(l)->Some_0;
    match regex_captures_of(SPRINGBOOT_FILTER_PATTERN@, l.content) {
        Some(g) => {
            assert(x.processed_by == seq!["springboot_filter"@]);
            assert(x.processed_by[0] == "springboot_filter"@);
            match group(g, 2) {
                Some(lvl) => {
                    crate::plugins::springboot::lemma_family_stream(uppercase_of(lvl));
                },
                None => {},
            }
        },
        None => {
            assert(x.processed_by =~= Seq::<Seq<char>>::empty());
            assert(!x.processed_by.contains("springboot_filter"@));
            let (lvl, st) = guessed_level(l.content);
            assert(lvl == "ERROR"@ <==> st == "stderr"@) by {
                if lvl == "WARN"@ || lvl == "INFO"@ || lvl == "DEBUG"@ {
                    assert(lvl.len() == 4 || lvl.len() == 5);
                    assert(lvl != "ERROR"@) by {
                        if lvl.len() == 5 {
                            assert(lvl[0] != 'E');
                        }
                    }
                }
            }
        },
    }
}

proof fn lemma_spring_fresh_lines(ls: Seq<LineView>)
    requires
        forall|i: int| 0 <= i < ls.len() ==> {
            let l = #[trigger] ls[i];
            &&& trim_seq(l.content).len() > 0
            &&& l.level is None
            &&& l.processed_by == Seq::<Seq<char>>::empty()
            &&& l.metadata == Map::<Seq<char>, Seq<char>>::empty()
        },
    ensures
        spring_lines(ls).len() == ls.len(),
        forall|i: int| 0 <= i < ls.len() ==> (#[trigger] spring_lines(ls)[i]).line_number == ls[i].line_number,
        forall|i: int| 0 <= i < ls.len() ==> spring_level_promise(#[trigger] spring_lines(ls)[i], ls[i]),
        marked_count(spring_lines(ls)) == spring_count(ls),
    decreases ls.len(),
{
    if ls.len() > 0 {
        let p = ls.drop_last();
        assert forall|i: int| 0 <= i < p.len() implies {
            let l = #[trigger] p[i];
            &&& trim_seq(l.content).len() > 0
            &&& l.level is None
            &&& l.processed_by == Seq::<Seq<char>>::empty()
            &&& l.metadata == Map::<Seq<char>, Seq<char>>::empty()
        } by {
            assert(p[i] == ls[i]);
        }
        lemma_spring_fresh_lines(p);
        let last = ls[ls.len() - 1];
        lemma_spring_fresh_line(last);
        let r = spring_lines(ls);
        assert(r == spring_lines(p).push(spring_line(last)->Some_0.0));
        assert(r.drop_last() =~= spring_lines(p));
        assert forall|i: int| 0 <= i < ls.len() implies (#[trigger] spring_lines(ls)[i]).line_number
            == ls[i].line_number && spring_level_promise(spring_lines(ls)[i], ls[i]) by {
            if i < p.len() {
                assert(r[i] == spring_lines(p)[i]);
                assert(ls[i] == p[i]);
            }
        }
        assert forall|i: int| 0 <= i < ls.len() implies spring_level_promise(#[trigger] spring_lines(ls)[i], ls[i]) by {
            if i < p.len() {
                assert(r[i] == spring_lines(p)[i]);
                assert(ls[i] == p[i]);
            }
        }
    }
}

/// On a context without current lines, the Spring Boot filter (whose pattern
/// compiles) keeps one line per non-blank line of the original text, in order and
/// numbered by its position there; it counts as processed exactly the lines it
/// marked as parsed; and each kept line with a level goes to `stderr` exactly for
/// `ERROR`, while a line without a level is one the pattern matched without a level.
pub proof fn lemma_springboot_filter_lines(c: ContextView)
    requires
        c.current_lines.len() == 0,
        regex_error_of(SPRINGBOOT_FILTER_PATTERN@) is None,
    ensures
        spring_result(c) is Ok,
        ({
            let ls = lines_of(c.original_content);
            let start = nonblank_lines(ls, ls.len());
            let r = spring_result(c)->Ok_0;
            &&& r.current_lines.len() == nonblank_count(ls, ls.len())
            &&& forall|i: int| 0 <= i < r.current_lines.len() ==> {
                let l = #[trigger] r.current_lines[i];
                &&& 1 <= l.line_number <= ls.len()
                &&& trim_seq(ls[l.line_number - 1]).len() > 0
                &&& spring_level_promise(l, start[i])
                &&& start[i].content == ls[l.line_number - 1]
            }
            &&& forall|i: int, j: int|
                0 <= i < j < r.current_lines.len() ==> (#[trigger] r.current_lines[i]).line_number
                    < (#[trigger] r.current_lines[j]).line_number
            &&& r.chain_metadata["springboot_processed"@] == decimal(marked_count(r.current_lines))
        }),
{
    let ls = lines_of(c.original_content);
    let start = nonblank_lines(ls, ls.len());
    lemma_nonblank_lines_shape(ls, ls.len());
    assert forall|i: int| 0 <= i < start.len() implies {
        let l = #[trigger] start[i];
        &&& trim_seq(l.content).len() > 0
        &&& l.level is None
        &&& l.processed_by == Seq::<Seq<char>>::empty()
        &&& l.metadata == Map::<Seq<char>, Seq<char>>::empty()
    } by {
        let l = start[i];
        assert(l == fresh_line(l.line_number, ls[l.line_number - 1]));
    }
    lemma_spring_fresh_lines(start);
    let r = spring_result(c)->Ok_0;
    assert(r.current_lines == spring_lines(start));
    assert forall|i: int, j: int| 0 <= i < j < r.current_lines.len() implies (#[trigger] r.current_lines[i]).line_number
        < (#[trigger] r.current_lines[j]).line_number by {
        assert(r.current_lines[i].line_number == start[i].line_number);
        assert(r.current_lines[j].line_number == start[j].line_number);
        assert(start[i].line_number < start[j].line_number);
    }
    assert forall|i: int| 0 <= i < r.current_lines.len() implies {
        let l = #[trigger] r.current_lines[i];
        &&& 1 <= l.line_number <= ls.len()
        &&& trim_seq(ls[l.line_number - 1]).len() > 0
        &&& spring_level_promise(l, start[i])
        &&& start[i].content == ls[l.line_number - 1]
    } by {
        assert(r.current_lines[i].line_number == start[i].line_number);
        let s = start[i];
        assert(s == fresh_line(s.line_number, ls[s.line_number - 1]));
    }
}

/// The level of a bracketed JVM line follows its level part: `WARNING` gives `WARN`;
/// otherwise `ERROR`, `INFO`, `DEBUG` and `TRACE` give themselves, checked in that
/// order; a part that names none of them gives `INFO`.
pub proof fn lemma_java_level_names(u: Seq<char>)
    ensures
        seq_contains(u, "WARNING"@) ==> java_level(u) == "WARN"@,
        !seq_contains(u, "WARNING"@) && seq_contains(u, "ERROR"@) ==> java_level(u) == "ERROR"@,
        !seq_contains(u, "WARNING"@) && !seq_contains(u, "ERROR"@) && seq_contains(u, "INFO"@) ==> java_level(u)
            == "INFO"@,
        !seq_contains(u, "WARNING"@) && !seq_contains(u, "ERROR"@) && !seq_contains(u, "INFO"@) && seq_contains(
            u,
            "DEBUG"@,
        ) ==> java_level(u) == "DEBUG"@,
        !seq_contains(u, "WARNING"@) && !seq_contains(u, "ERROR"@) && !seq_contains(u, "INFO"@) && !seq_contains(
            u,
            "DEBUG"@,
        ) && seq_contains(u, "TRACE"@) ==> java_level(u) == "TRACE"@,
        !seq_contains(u, "WARNING"@) && !seq_contains(u, "ERROR"@) && !seq_contains(u, "INFO"@) && !seq_contains(
            u,
            "DEBUG"@,
        ) && !seq_contains(u, "TRACE"@) ==> java_level(u) == "INFO"@,
{
}

/// Every line that the Java filter recognises goes to `stderr` exactly when its
/// level is `ERROR`.
pub proof fn lemma_java_stream_follows_level(l: LineView)
    ensures
        java_line(l).1 ==> {
            let x = java_line(l).0;
            &&& x.metadata.contains_key("stream"@)
            &&& (x.metadata["stream"@] == "stderr"@ <==> x.level == Some("ERROR"@))
        },
{
    reveal_strlit("stream");
    reveal_strlit("log_type");
    reveal_strlit("stderr");
    reveal_strlit("stdout");
    reveal_strlit("ERROR");
    reveal_strlit("WARN");
    reveal_strlit("INFO");
    reveal_strlit("DEBUG");
    assert("log_type"@ != "stream"@) by {
        assert("log_type"@.len() != "stream"@.len());
    }
    assert("stdout"@ != "stderr"@) by {
        assert("stdout"@[3] != "stderr"@[3]);
    }
    assert("WARN"@ != "ERROR"@ && "INFO"@ != "ERROR"@ && "DEBUG"@ != "ERROR"@) by {
        assert("WARN"@.len() != "ERROR"@.len());
        assert("INFO"@.len() != "ERROR"@.len());
        assert("DEBUG"@[0] != "ERROR"@[0]);
    }
}

/// A bracketed JVM line (`[time][level][tags] message`, not one of the marked GC
/// warning, info or debug lines) whose level part, upper-cased, names `ERROR` and
/// not `WARNING` gets level `ERROR` and goes to `stderr`.
pub proof fn lemma_java_error_line(l: LineView, tp: Seq<char>, lp: Seq<char>, msg: Seq<char>)
    requires
        l.content.len() > 0,
        l.content[0] == '[',
        seq_contains(l.content, "]["@),
        !seq_contains(lowercase_of(l.content), "[warning][gc]"@),
        !seq_contains(lowercase_of(l.content), "[info][gc]"@),
        !seq_contains(lowercase_of(l.content), "[debug][gc]"@),
        java_parts(l.content) == Some((tp, lp, msg)),
        seq_contains(uppercase_of(lp), "ERROR"@),
        !seq_contains(uppercase_of(lp), "WARNING"@),
    ensures
        java_line(l).1,
        java_line(l).0.level == Some("ERROR"@),
        java_line(l).0.metadata["stream"@] == "stderr"@,
{
    lemma_java_level_names(uppercase_of(lp));
    lemma_java_stream_follows_level(l);
}

/// The Java filter gives each current line that such a bracketed JVM line with an
/// `ERROR` level part level `ERROR` and stream `stderr`.
pub proof fn lemma_java_filter_error_line(c: ContextView, i: int, tp: Seq<char>, lp: Seq<char>, msg: Seq<char>)
    requires
        0 <= i < c.current_lines.len(),
        c.current_lines[i].content.len() > 0,
        c.current_lines[i].content[0] == '[',
        seq_contains(c.current_lines[i].content, "]["@),
        !seq_contains(lowercase_of(c.current_lines[i].content), "[warning][gc]"@),
        !seq_contains(lowercase_of(c.current_lines[i].content), "[info][gc]"@),
        !seq_contains(lowercase_of(c.current_lines[i].content), "[debug][gc]"@),
        java_parts(c.current_lines[i].content) == Some((tp, lp, msg)),
        seq_contains(uppercase_of(lp), "ERROR"@),
        !seq_contains(uppercase_of(lp), "WARNING"@),
    ensures
        java_result(c).current_lines[i].level == Some("ERROR"@),
        java_result(c).current_lines[i].metadata["stream"@] == "stderr"@,
{
    lemma_java_error_line(c.current_lines[i], tp, lp, msg);
    assert(java_result(c).current_lines[i] == java_line(c.current_lines[i]).0);
}

} // verus!
