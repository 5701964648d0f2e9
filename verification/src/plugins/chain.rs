//! Filter chains: a context that the filters of a chain pass along, the chains
//! themselves, the conditions under which a chain applies, and a manager that picks
//! the chain that suits a text best.
use vstd::prelude::*;
use crate::metadata::Metadata;
use crate::plugins::{LineView, LogLine, ParseRequest, ParseResult, count_true, lines_wf, lv, ov, sv};
use crate::plugins::filters::{FilterKind, filter_handles, filter_name, filter_outcome, filter_priority, filter_wants};
use crate::plugins::springboot::osview;
use crate::foreign::{lowercase_of, to_lowercase};
use crate::text::{append, append_str, chars_of, contains, lines_of, own, seq_contains, split_lines, string_of};

verus! {

/// The state that the filters of a chain share and transform in turn.
#[derive(Debug)]
pub struct PluginChainContext {
    /// The text the chain was started on.
    pub original_content: String,
    /// The lines as the filters have left them so far.
    pub current_lines: Vec<LogLine>,
    /// Names of the filters that ran successfully, in order.
    pub processing_chain: Vec<String>,
    /// Key/value facts that filters record about the whole run.
    pub chain_metadata: Metadata,
    /// Cleared to stop the filters that follow.
    pub should_continue: bool,
    /// Messages of the filters that failed.
    pub errors: Vec<String>,
}

/// The mathematical content of a `PluginChainContext`.
#[verifier::ext_equal]
pub struct ContextView {
    pub original_content: Seq<char>,
    pub current_lines: Seq<LineView>,
    pub processing_chain: Seq<Seq<char>>,
    pub chain_metadata: Map<Seq<char>, Seq<char>>,
    pub should_continue: bool,
    pub errors: Seq<Seq<char>>,
}

impl View for PluginChainContext {
    type V = ContextView;

    open spec fn view(&self) -> ContextView {
        ContextView {
            original_content: self.original_content@,
            current_lines: lv(self.current_lines@),
            processing_chain: sv(self.processing_chain@),
            chain_metadata: self.chain_metadata@,
            should_continue: self.should_continue,
            errors: sv(self.errors@),
        }
    }
}

/// The context `c` with other lines and chain metadata.
pub open spec fn with_lines(c: ContextView, lines: Seq<LineView>, meta: Map<Seq<char>, Seq<char>>) -> ContextView {
    ContextView {
        original_content: c.original_content,
        current_lines: lines,
        processing_chain: c.processing_chain,
        chain_metadata: meta,
        should_continue: c.should_continue,
        errors: c.errors,
    }
}

/// The context in which a chain starts on `content`.
pub open spec fn initial_context(content: Seq<char>) -> ContextView {
    ContextView {
        original_content: content,
        current_lines: Seq::empty(),
        processing_chain: Seq::empty(),
        chain_metadata: Map::empty(),
        should_continue: true,
        errors: Seq::empty(),
    }
}

impl PluginChainContext {
    pub open spec fn wf(&self) -> bool {
        self.chain_metadata.wf() && lines_wf(self.current_lines@)
    }

    /// A fresh context for `content`: no lines yet, nothing run, no errors.
    pub fn new(content: String) -> (r: PluginChainContext)
        ensures
            r@ == initial_context(content@),
            r.wf(),
    {
        let r = PluginChainContext {
            original_content: content,
            current_lines: Vec::new(),
            processing_chain: Vec::new(),
            chain_metadata: Metadata::new(),
            should_continue: true,
            errors: Vec::new(),
        };
        assert(r@ =~= initial_context(r.original_content@));
        r
    }

    /// Records the message of a failed filter.
    pub fn add_error(&mut self, error: String)
        ensures
            final(self)@ == (ContextView { errors: old(self)@.errors.push(error@), ..old(self)@ }),
            final(self).chain_metadata == old(self).chain_metadata,
            final(self).current_lines == old(self).current_lines,
    {
        let ghost e = error@;
        self.errors.push(error);
        assert(sv(self.errors@) =~= sv(old(self).errors@).push(e));
    }

    /// Records a fact about the run, replacing an earlier value of `key`.
    pub fn set_chain_metadata(&mut self, key: String, value: String)
        requires
            old(self).wf(),
        ensures
            final(self)@ == (ContextView {
                chain_metadata: old(self)@.chain_metadata.insert(key@, value@),
                ..old(self)@
            }),
            final(self).wf(),
    {
        self.chain_metadata.insert(key, value);
    }

    /// The value recorded under `key`, if any.
    pub fn get_chain_metadata(&self, key: &str) -> (r: Option<&String>)
        requires
            self.wf(),
        ensures
            match r {
                Some(v) => self@.chain_metadata.contains_key(key@) && self@.chain_metadata[key@] == v@,
                None => !self@.chain_metadata.contains_key(key@),
            },
    {
        self.chain_metadata.get(key)
    }

    /// Stops the filters that have not run yet.
    pub fn stop_chain(&mut self)
        ensures
            final(self)@ == (ContextView { should_continue: false, ..old(self)@ }),
            final(self).chain_metadata == old(self).chain_metadata,
            final(self).current_lines == old(self).current_lines,
    {
        self.should_continue = false;
    }
}

/// A step of a chain. Each filter states in its own `process` what it does to
/// the context.
pub trait PluginFilter {
    /// Unique name of the filter.
    fn name(&self) -> &str;

    /// What the filter is for.
    fn description(&self) -> &str;

    /// Position in a chain: filters run in increasing priority.
    fn priority(&self) -> i32;

    /// Whether the filter has anything to do in this context.
    fn should_process(&self, context: &PluginChainContext) -> bool
        requires
            context.wf(),
    ;

    /// Transforms the context.
    fn process(&self, context: &mut PluginChainContext, request: &ParseRequest) -> (r: Result<(), String>)
        requires
            old(context).wf(),
        ensures
            final(context).wf(),
    ;

    /// Whether the filter can contribute to a text.
    fn can_handle(&self, content: &str, file_path: Option<&str>) -> bool;
}

// ---------------------------------------------------------------------------
// Conditions
// ---------------------------------------------------------------------------

/// When a chain applies: some file pattern occurs in the path, and some content
/// pattern occurs in the text (both ignoring case; an empty list asks nothing).
#[derive(Debug, Clone)]
pub struct ChainConditions {
    pub file_patterns: Vec<String>,
    pub content_patterns: Vec<String>,
    /// Confidence, in percent, that the chain asks for.
    pub min_confidence: u32,
}

pub struct ConditionsView {
    pub file_patterns: Seq<Seq<char>>,
    pub content_patterns: Seq<Seq<char>>,
    pub min_confidence: nat,
}

impl View for ChainConditions {
    type V = ConditionsView;

    open spec fn view(&self) -> ConditionsView {
        ConditionsView {
            file_patterns: sv(self.file_patterns@),
            content_patterns: sv(self.content_patterns@),
            min_confidence: self.min_confidence as nat,
        }
    }
}

/// Some pattern, lower-cased, occurs in the lower-cased text.
pub open spec fn some_pattern_in(lower_text: Seq<char>, pats: Seq<Seq<char>>) -> bool {
    exists|i: int| 0 <= i < pats.len() && seq_contains(lower_text, #[trigger] lowercase_of(pats[i]))
}

/// Whether the conditions hold for a text and an optional path.
pub open spec fn conditions_match(c: ConditionsView, content: Seq<char>, path: Option<Seq<char>>) -> bool {
    &&& match path {
        Some(p) => c.file_patterns.len() == 0 || some_pattern_in(lowercase_of(p), c.file_patterns),
        None => true,
    }
    &&& c.content_patterns.len() == 0 || some_pattern_in(lowercase_of(content), c.content_patterns)
}

fn some_pattern_exec(lower_text: &Vec<char>, pats: &Vec<String>) -> (b: bool)
    ensures
        b == some_pattern_in(lower_text@, sv(pats@)),
{
    let mut i: usize = 0;
    while i < pats.len()
        invariant
            i <= pats@.len(),
            forall|k: int| 0 <= k < i ==> !seq_contains(lower_text@, #[trigger] lowercase_of(sv(pats@)[k])),
        decreases pats.len() - i,
    {
        let pl = to_lowercase(pats[i].as_str());
        let pc = chars_of(pl.as_str());
        assert(sv(pats@)[i as int] == pats@[i as int]@);
        if contains(lower_text, &pc) {
            return true;
        }
        i = i + 1;
    }
    false
}

impl ChainConditions {
    /// No patterns, and a confidence of 50 percent.
    pub fn new() -> (r: ChainConditions)
        ensures
            r@.file_patterns.len() == 0,
            r@.content_patterns.len() == 0,
            r@.min_confidence == 50,
    {
        ChainConditions { file_patterns: Vec::new(), content_patterns: Vec::new(), min_confidence: 50 }
    }

    /// Whether the conditions hold (see `conditions_match`).
    pub fn matches(&self, content: &str, file_path: Option<&str>) -> (b: bool)
        ensures
            b == conditions_match(self@, content@, osview(file_path)),
    {
        if let Some(path) = file_path {
            if self.file_patterns.len() > 0 {
                let pl = to_lowercase(path);
                let pc = chars_of(pl.as_str());
                if !some_pattern_exec(&pc, &self.file_patterns) {
                    return false;
                }
            }
        }
        if self.content_patterns.len() > 0 {
            let cl = to_lowercase(content);
            let cc = chars_of(cl.as_str());
            if !some_pattern_exec(&cc, &self.content_patterns) {
                return false;
            }
        }
        true
    }
}

impl Default for ChainConditions {
    fn default() -> (r: ChainConditions)
        ensures
            r@.file_patterns.len() == 0,
            r@.content_patterns.len() == 0,
            r@.min_confidence == 50,
    {
        ChainConditions::new()
    }
}

// ---------------------------------------------------------------------------
// Chains
// ---------------------------------------------------------------------------

/// Filters run one after the other on a shared context, in increasing priority.
#[derive(Debug, Clone)]
pub struct PluginChain {
    pub name: String,
    pub description: String,
    pub filters: Vec<FilterKind>,
    pub enabled: bool,
    /// When set, the chain only runs where the conditions hold.
    pub conditions: Option<ChainConditions>,
}

pub struct ChainView {
    pub name: Seq<char>,
    pub description: Seq<char>,
    pub filters: Seq<FilterKind>,
    pub enabled: bool,
    pub conditions: Option<ConditionsView>,
}

impl View for PluginChain {
    type V = ChainView;

    open spec fn view(&self) -> ChainView {
        ChainView {
            name: self.name@,
            description: self.description@,
            filters: self.filters@,
            enabled: self.enabled,
            conditions: match self.conditions {
                Some(c) => Some(c@),
                None => None,
            },
        }
    }
}

/// How many filters of `fs` have a priority of at most `p`.
pub open spec fn count_at_most(fs: Seq<FilterKind>, p: int) -> nat
    decreases fs.len(),
{
    if fs.len() == 0 {
        0
    } else {
        count_at_most(fs.drop_last(), p) + if filter_priority(fs.last()) <= p {
            1nat
        } else {
            0nat
        }
    }
}

/// `f` placed after every filter of `fs` whose priority is at most its own.
pub open spec fn insert_by_priority(fs: Seq<FilterKind>, f: FilterKind) -> Seq<FilterKind> {
    let k = count_at_most(fs, filter_priority(f)) as int;
    fs.take(k).push(f) + fs.skip(k)
}

/// `fs` sorted by priority, keeping the order of filters of equal priority (the
/// order a stable sort gives).
pub open spec fn by_priority(fs: Seq<FilterKind>) -> Seq<FilterKind>
    decreases fs.len(),
{
    if fs.len() == 0 {
        Seq::empty()
    } else {
        insert_by_priority(by_priority(fs.drop_last()), fs.last())
    }
}

fn insert_filter(fs: &Vec<FilterKind>, f: FilterKind) -> (r: Vec<FilterKind>)
    ensures
        r@ == insert_by_priority(fs@, f),
{
    let p = f.priority();
    let mut k: usize = 0;
    let mut i: usize = 0;
    while i < fs.len()
        invariant
            i <= fs@.len(),
            k <= i,
            k == count_at_most(fs@.take(i as int), p as int),
            p == filter_priority(f),
        decreases fs.len() - i,
    {
        assert(fs@.take(i as int + 1).drop_last() =~= fs@.take(i as int));
        if fs[i].priority() <= p {
            k = k + 1;
        }
        i = i + 1;
    }
    assert(fs@.take(fs@.len() as int) =~= fs@);
    let mut r: Vec<FilterKind> = Vec::new();
    let mut j: usize = 0;
    while j < k
        invariant
            j <= k <= fs@.len(),
            r@ == fs@.take(j as int),
        decreases k - j,
    {
        r.push(fs[j]);
        assert(fs@.take(j as int + 1) =~= fs@.take(j as int).push(fs@[j as int]));
        j = j + 1;
    }
    r.push(f);
    let ghost head = r@;
    while j < fs.len()
        invariant
            k <= j <= fs@.len(),
            head == fs@.take(k as int).push(f),
            r@ == head + fs@.subrange(k as int, j as int),
        decreases fs.len() - j,
    {
        r.push(fs[j]);
        assert(fs@.subrange(k as int, j as int + 1) =~= fs@.subrange(k as int, j as int).push(fs@[j as int]));
        j = j + 1;
    }
    assert(fs@.subrange(k as int, fs@.len() as int) =~= fs@.skip(k as int));
    r
}

/// The outcome of running the filters `fs` in order on `c`: a filter runs while
/// the chain has not been stopped and it wants to; a failing filter leaves the
/// context as it was and adds its message to the errors.
pub open spec fn run_filters(fs: Seq<FilterKind>, c: ContextView) -> ContextView
    decreases fs.len(),
{
    if fs.len() == 0 {
        c
    } else {
        let c1 = run_filters(fs.drop_last(), c);
        let f = fs.last();
        if !c1.should_continue || !filter_wants(f, c1) {
            c1
        } else {
            match filter_outcome(f, c1) {
                Ok(c2) => ContextView { processing_chain: c2.processing_chain.push(filter_name(f)), ..c2 },
                Err(e) => ContextView {
                    errors: c1.errors.push("过滤器 '"@ + filter_name(f) + "' 失败: "@ + e),
                    ..c1
                },
            }
        }
    }
}

/// The outcome of a chain on a text: an error when it is disabled or its
/// conditions do not hold, else the context its filters leave.
pub open spec fn chain_outcome(ch: ChainView, content: Seq<char>, path: Option<Seq<char>>) -> Result<ContextView, Seq<char>> {
    if !ch.enabled {
        Err("插件链 '"@ + ch.name + "' 已禁用"@)
    } else if ch.conditions matches Some(c) && !conditions_match(c, content, path) {
        Err("插件链 '"@ + ch.name + "' 执行条件不匹配"@)
    } else {
        Ok(run_filters(ch.filters, initial_context(content)))
    }
}

/// `'` + a name + `'` between two texts.
fn quoted_message(a: &str, name: &String, b: &str) -> (r: String)
    ensures
        r@ == a@ + name@ + b@,
{
    let mut v = chars_of(a);
    append_str(&mut v, name.as_str());
    append_str(&mut v, b);
    string_of(&v)
}

impl PluginChain {
    /// An enabled chain without filters or conditions.
    pub fn new(name: String, description: String) -> (r: PluginChain)
        ensures
            r@.name == name@,
            r@.description == description@,
            r@.filters.len() == 0,
            r@.enabled,
            r@.conditions is None,
    {
        PluginChain { name, description, filters: Vec::new(), enabled: true, conditions: None }
    }

    /// Adds a filter and puts the filters in priority order.
    pub fn add_filter(&mut self, filter: FilterKind)
        ensures
            final(self)@ == (ChainView { filters: by_priority(old(self)@.filters.push(filter)), ..old(self)@ }),
    {
        let mut all = self.filters.clone();
        all.push(filter);
        let mut sorted: Vec<FilterKind> = Vec::new();
        let mut i: usize = 0;
        while i < all.len()
            invariant
                i <= all@.len(),
                sorted@ == by_priority(all@.take(i as int)),
            decreases all.len() - i,
        {
            assert(all@.take(i as int + 1).drop_last() =~= all@.take(i as int));
            sorted = insert_filter(&sorted, all[i]);
            i = i + 1;
        }
        assert(all@.take(all@.len() as int) =~= all@);
        self.filters = sorted;
    }

    /// Runs the chain on `content` (see `chain_outcome`): the lines and errors of
    /// the final context, the number of lines of the text, and the chain's name
    /// as the detected format.
    pub fn process(&self, content: &str, request: &ParseRequest) -> (r: Result<ParseResult, String>)
        ensures
            match chain_outcome(self@, content@, ov(request.file_path)) {
                Ok(c) => r matches Ok(res) && lv(res.lines@) == c.current_lines && lines_wf(res.lines@)
                    && res.total_lines == lines_of(content@).len() && ov(res.detected_format) == Some(self@.name)
                    && sv(res.parsing_errors@) == c.errors,
                Err(e) => r matches Err(m) && m@ == e,
            },
    {
        if !self.enabled {
            return Err(quoted_message("插件链 '", &self.name, "' 已禁用"));
        }
        let path: Option<&str> = match &request.file_path {
            Some(p) => Some(p.as_str()),
            None => None,
        };
        assert(osview(path) == ov(request.file_path));
        if let Some(conditions) = &self.conditions {
            if !conditions.matches(content, path) {
                return Err(quoted_message("插件链 '", &self.name, "' 执行条件不匹配"));
            }
        }
        let mut context = PluginChainContext::new(own(content));
        let ghost c0 = context@;
        let mut i: usize = 0;
        while i < self.filters.len()
            invariant
                i <= self.filters@.len(),
                context.wf(),
                context@ == run_filters(self.filters@.take(i as int), c0),
            decreases self.filters.len() - i,
        {
            let f = self.filters[i];
            assert(self.filters@.take(i as int + 1).drop_last() =~= self.filters@.take(i as int));
            assert(self.filters@.take(i as int + 1).last() == f);
            if context.should_continue && f.should_process(&context) {
                let ghost before = context@;
                match f.process(&mut context, request) {
                    Ok(()) => {
                        let ghost mid = context@;
                        context.processing_chain.push(own(f.name()));
                        assert(sv(context.processing_chain@) =~= mid.processing_chain.push(filter_name(f)));
                        assert(context@ =~= (ContextView { processing_chain: mid.processing_chain.push(filter_name(f)), ..mid }));
                    },
                    Err(e) => {
                        let mut m = chars_of("过滤器 '");
                        append_str(&mut m, f.name());
                        append_str(&mut m, "' 失败: ");
                        append_str(&mut m, e.as_str());
                        context.add_error(string_of(&m));
                    },
                }
            }
            i = i + 1;
        }
        assert(self.filters@.take(self.filters@.len() as int) =~= self.filters@);
        let cs = chars_of(content);
        let total = split_lines(&cs).len();
        Ok(ParseResult {
            lines: context.current_lines,
            total_lines: total,
            detected_format: Some(self.name.clone()),
            parsing_errors: context.errors,
        })
    }
}

// ---------------------------------------------------------------------------
// Choosing a chain
// ---------------------------------------------------------------------------

/// The registered chains, a default, and whether to choose by score.
pub struct PluginChainManager {
    chains: Vec<PluginChain>,
    default_chain: Option<String>,
    smart_selection: bool,
}

pub struct ManagerView {
    pub chains: Seq<ChainView>,
    pub default_chain: Option<Seq<char>>,
    pub smart_selection: bool,
}

impl View for PluginChainManager {
    type V = ManagerView;

    closed spec fn view(&self) -> ManagerView {
        ManagerView {
            chains: self.chains@.map_values(|c: PluginChain| c@),
            default_chain: ov(self.default_chain),
            smart_selection: self.smart_selection,
        }
    }
}

/// The index of the chain named `name`.
pub open spec fn chain_index(cs: Seq<ChainView>, name: Seq<char>) -> Option<int>
    decreases cs.len(),
{
    if cs.len() == 0 {
        None
    } else {
        match chain_index(cs.drop_last(), name) {
            Some(i) => Some(i),
            None => if cs.last().name == name {
                Some(cs.len() - 1)
            } else {
                None
            },
        }
    }
}

/// The chains after registering `c`: it replaces the chain of the same name, or
/// comes last.
pub open spec fn registered(cs: Seq<ChainView>, c: ChainView) -> Seq<ChainView> {
    match chain_index(cs, c.name) {
        Some(i) => cs.update(i, c),
        None => cs.push(c),
    }
}

/// No two chains share a name.
pub open spec fn names_distinct(cs: Seq<ChainView>) -> bool {
    forall|i: int, j: int| 0 <= i < j < cs.len() ==> cs[i].name != cs[j].name
}

/// Number of filters of a chain that can handle the text.
pub open spec fn handling_count(fs: Seq<FilterKind>, content: Seq<char>) -> nat {
    count_true(fs.map_values(|f: FilterKind| filter_handles(f, content)))
}

/// A chain's score on a text, as a fraction `(n, d)` of 1000: the share of its
/// filters that can handle the text; plus 400 when its conditions hold, times
/// 3/10 when they do not, times 9/10 without conditions; plus 100 with a path
/// when some filter can handle the text; at most 1000.
pub open spec fn chain_score(ch: ChainView, content: Seq<char>, path: Option<Seq<char>>) -> (int, int) {
    let t = ch.filters.len() as int;
    let can = handling_count(ch.filters, content) as int;
    if t == 0 {
        (0, 1)
    } else {
        let base = match ch.conditions {
            Some(c) => if conditions_match(c, content, path) {
                1000 * can + 400 * t
            } else {
                300 * can
            },
            None => 900 * can,
        };
        let bonus = if path is Some && can > 0 {
            100 * t
        } else {
            0
        };
        let n = base + bonus;
        (if n > 1000 * t {
            1000 * t
        } else {
            n
        }, t)
    }
}

/// The best enabled chain among the first `n`, with its score: a chain replaces
/// the best so far only with a strictly greater score; none before any positive score.
pub open spec fn best_chain(cs: Seq<ChainView>, content: Seq<char>, path: Option<Seq<char>>, n: nat) -> (Option<int>, int, int)
    decreases n,
{
    if n == 0 {
        (None, 0, 1)
    } else {
        let (bi, bn, bd) = best_chain(cs, content, path, (n - 1) as nat);
        let ch = cs[n - 1];
        let (sn, sd) = chain_score(ch, content, path);
        if ch.enabled && sn * bd > bn * sd {
            (Some(n - 1), sn, sd)
        } else {
            (bi, bn, bd)
        }
    }
}

/// Whether a text looks like Docker JSON to the manager.
pub open spec fn looks_like_docker(content: Seq<char>) -> bool {
    let lc = lowercase_of(content);
    seq_contains(lc, "{"@) && seq_contains(lc, "\"log\""@) && seq_contains(lc, "\"stream\""@)
}

/// The index of the chain chosen for a text: the default without smart selection;
/// the `docker` chain for Docker JSON; else the best scored chain, or the default
/// when the best score is below 3/10 and there is a default.
pub open spec fn selected_chain(m: ManagerView, content: Seq<char>, path: Option<Seq<char>>) -> Option<int> {
    if !m.smart_selection {
        match m.default_chain {
            Some(d) => chain_index(m.chains, d),
            None => None,
        }
    } else if looks_like_docker(content) {
        chain_index(m.chains, "docker"@)
    } else {
        let (bi, bn, bd) = best_chain(m.chains, content, path, m.chains.len());
        if 10 * bn < 3 * 1000 * bd && m.default_chain is Some {
            chain_index(m.chains, m.default_chain->0)
        } else {
            bi
        }
    }
}

proof fn lemma_fraction_order(n1: int, t1: int, n2: int, t2: int)
    requires
        t1 > 0,
        t2 > 0,
        n1 >= 0,
        n2 >= 0,
    ensures
        (n1 * t2 > n2 * t1) == (n1 / t1 > n2 / t2 || (n1 / t1 == n2 / t2 && (n1 % t1) * t2 > (n2 % t2) * t1)),
{
    let q1 = n1 / t1;
    let r1 = n1 % t1;
    let q2 = n2 / t2;
    let r2 = n2 % t2;
    assert(n1 == q1 * t1 + r1 && 0 <= r1 < t1) by (nonlinear_arith)
        requires
            t1 > 0,
            q1 == n1 / t1,
            r1 == n1 % t1,
    ;
    assert(n2 == q2 * t2 + r2 && 0 <= r2 < t2) by (nonlinear_arith)
        requires
            t2 > 0,
            q2 == n2 / t2,
            r2 == n2 % t2,
    ;
    assert(n1 * t2 == q1 * t1 * t2 + r1 * t2) by (nonlinear_arith)
        requires
            n1 == q1 * t1 + r1,
    ;
    assert(n2 * t1 == q2 * t1 * t2 + r2 * t1) by (nonlinear_arith)
        requires
            n2 == q2 * t2 + r2,
    ;
    assert(0 <= r1 * t2 < t1 * t2) by (nonlinear_arith)
        requires
            0 <= r1 < t1,
            t2 > 0,
    ;
    assert(0 <= r2 * t1 < t1 * t2) by (nonlinear_arith)
        requires
            0 <= r2 < t2,
            t1 > 0,
    ;
    if q1 > q2 {
        assert(q1 * t1 * t2 >= q2 * t1 * t2 + t1 * t2) by (nonlinear_arith)
            requires
                q1 >= q2 + 1,
                t1 > 0,
                t2 > 0,
        ;
    } else if q1 < q2 {
        assert(q2 * t1 * t2 >= q1 * t1 * t2 + t1 * t2) by (nonlinear_arith)
            requires
                q2 >= q1 + 1,
                t1 > 0,
                t2 > 0,
        ;
    }
}

/// Whether `n1/t1 > n2/t2`, for denominators below 2^64.
fn fraction_greater(n1: u128, t1: u128, n2: u128, t2: u128) -> (b: bool)
    requires
        0 < t1 <= u64::MAX,
        0 < t2 <= u64::MAX,
    ensures
        b == (n1 * t2 > n2 * t1),
{
    proof {
        lemma_fraction_order(n1 as int, t1 as int, n2 as int, t2 as int);
    }
    let q1 = n1 / t1;
    let q2 = n2 / t2;
    if q1 != q2 {
        return q1 > q2;
    }
    let r1 = n1 % t1;
    let r2 = n2 % t2;
    assert(r1 * t2 <= u64::MAX * u64::MAX) by (nonlinear_arith)
        requires
            r1 < t1 <= u64::MAX,
            0 < t2 <= u64::MAX,
    ;
    assert(r2 * t1 <= u64::MAX * u64::MAX) by (nonlinear_arith)
        requires
            r2 < t2 <= u64::MAX,
            0 < t1 <= u64::MAX,
    ;
    r1 * t2 > r2 * t1
}

impl PluginChainManager {
    pub closed spec fn wf(&self) -> bool {
        names_distinct(self@.chains)
    }

    /// No chains, no default, smart selection on.
    pub fn new() -> (r: PluginChainManager)
        ensures
            r@.chains.len() == 0,
            r@.default_chain is None,
            r@.smart_selection,
            r.wf(),
    {
        let r = PluginChainManager { chains: Vec::new(), default_chain: None, smart_selection: true };
        assert(r@.chains =~= Seq::<ChainView>::empty());
        r
    }

    fn position(&self, name: &String) -> (r: Option<usize>)
        ensures
            match r {
                Some(i) => chain_index(self@.chains, name@) == Some(i as int),
                None => chain_index(self@.chains, name@) is None,
            },
    {
        let ghost cs = self@.chains;
        let mut i: usize = 0;
        while i < self.chains.len()
            invariant
                i <= self.chains@.len(),
                cs == self@.chains,
                cs.len() == self.chains@.len(),
                chain_index(cs.take(i as int), name@) is None,
            decreases self.chains.len() - i,
        {
            assert(cs.take(i as int + 1).drop_last() =~= cs.take(i as int));
            assert(cs[i as int] == self.chains@[i as int]@);
            if self.chains[i].name == *name {
                assert(chain_index(cs.take(i as int + 1), name@) == Some(i as int));
                proof {
                    lemma_chain_index_prefix(cs, name@, i as int + 1);
                }
                return Some(i);
            }
            i = i + 1;
        }
        assert(cs.take(cs.len() as int) =~= cs);
        None
    }

    /// Registers a chain, replacing the chain of the same name.
    pub fn register_chain(&mut self, chain: PluginChain)
        requires
            old(self).wf(),
        ensures
            final(self).wf(),
            final(self)@.chains == registered(old(self)@.chains, chain@),
            final(self)@.default_chain == old(self)@.default_chain,
            final(self)@.smart_selection == old(self)@.smart_selection,
    {
        let ghost cv = chain@;
        let ghost cs = self@.chains;
        proof {
            lemma_chain_index_spec(cs, cv.name);
        }
        match self.position(&chain.name) {
            Some(i) => {
                self.chains.set(i, chain);
                assert(self@.chains =~= cs.update(i as int, cv));
            },
            None => {
                self.chains.push(chain);
                assert(self@.chains =~= cs.push(cv));
            },
        }
    }

    /// Names the default chain.
    pub fn set_default_chain(&mut self, chain_name: String)
        ensures
            final(self)@.chains == old(self)@.chains,
            final(self)@.default_chain == Some(chain_name@),
            final(self)@.smart_selection == old(self)@.smart_selection,
            final(self).wf() == old(self).wf(),
    {
        self.default_chain = Some(chain_name);
    }

    /// Turns choosing by score on or off.
    pub fn set_smart_selection(&mut self, enabled: bool)
        ensures
            final(self)@.chains == old(self)@.chains,
            final(self)@.default_chain == old(self)@.default_chain,
            final(self)@.smart_selection == enabled,
            final(self).wf() == old(self).wf(),
    {
        self.smart_selection = enabled;
    }

    /// The chain named `name`.
    pub fn get_chain(&self, name: &str) -> (r: Option<&PluginChain>)
        ensures
            match chain_index(self@.chains, name@) {
                Some(i) => r matches Some(c) && c@ == self@.chains[i],
                None => r is None,
            },
    {
        let n = own(name);
        match self.position(&n) {
            Some(i) => {
                proof {
                    lemma_chain_index_spec(self@.chains, name@);
                }
                Some(&self.chains[i])
            },
            None => None,
        }
    }

    /// The names of the registered chains, in the order they were first registered.
    pub fn get_available_chains(&self) -> (r: Vec<String>)
        ensures
            sv(r@) == self@.chains.map_values(|c: ChainView| c.name),
    {
        let mut r: Vec<String> = Vec::new();
        let mut i: usize = 0;
        while i < self.chains.len()
            invariant
                i <= self.chains@.len(),
                sv(r@) == self@.chains.take(i as int).map_values(|c: ChainView| c.name),
            decreases self.chains.len() - i,
        {
            let ghost prev = r@;
            let nm = self.chains[i].name.clone();
            r.push(nm);
            assert(sv(r@) =~= sv(prev).push(self.chains@[i as int].name@));
            assert(self@.chains.take(i as int + 1) =~= self@.chains.take(i as int).push(self@.chains[i as int]));
            assert(sv(r@) =~= self@.chains.take(i as int + 1).map_values(|c: ChainView| c.name));
            i = i + 1;
        }
        assert(self@.chains.take(self@.chains.len() as int) =~= self@.chains);
        r
    }

    fn score(&self, ch: &PluginChain, content: &str, file_path: Option<&str>) -> (r: (u128, u128))
        ensures
            r.0 == chain_score(ch@, content@, osview(file_path)).0,
            r.1 == chain_score(ch@, content@, osview(file_path)).1,
            0 < r.1 <= u64::MAX,
            r.0 <= 1000 * r.1,
    {
        let tl = ch.filters.len();
        if tl == 0 {
            return (0, 1);
        }
        let t = tl as u128;
        let mut can: u128 = 0;
        let mut i: usize = 0;
        let ghost hs = ch@.filters.map_values(|f: FilterKind| filter_handles(f, content@));
        while i < ch.filters.len()
            invariant
                i <= ch.filters@.len(),
                hs == ch@.filters.map_values(|f: FilterKind| filter_handles(f, content@)),
                can == count_true(hs.take(i as int)),
                can <= i,
            decreases ch.filters.len() - i,
        {
            assert(hs.take(i as int + 1).drop_last() =~= hs.take(i as int));
            if ch.filters[i].can_handle(content, file_path) {
                can = can + 1;
            }
            i = i + 1;
        }
        assert(hs.take(hs.len() as int) =~= hs);
        let base: u128 = match &ch.conditions {
            Some(c) => if c.matches(content, file_path) {
                1000 * can + 400 * t
            } else {
                300 * can
            },
            None => 900 * can,
        };
        let bonus: u128 = if file_path.is_some() && can > 0 {
            100 * t
        } else {
            0
        };
        let n = base + bonus;
        (if n > 1000 * t {
            1000 * t
        } else {
            n
        }, t)
    }

    /// The chain chosen for a text (see `selected_chain`).
    pub fn select_best_chain(&self, content: &str, file_path: Option<&str>) -> (r: Option<&PluginChain>)
        ensures
            match selected_chain(self@, content@, osview(file_path)) {
                Some(i) => r matches Some(c) && 0 <= i < self@.chains.len() && c@ == self@.chains[i],
                None => r is None,
            },
    {
        proof {
            lemma_chain_index_spec(self@.chains, "docker"@);
            match self@.default_chain {
                Some(d) => lemma_chain_index_spec(self@.chains, d),
                None => {},
            }
        }
        if !self.smart_selection {
            return match &self.default_chain {
                Some(d) => self.get_chain(d.as_str()),
                None => None,
            };
        }
        let cc = chars_of(content);
        let lc = crate::text::lower(&cc);
        if crate::text::contains_str(&lc, "{") && crate::text::contains_str(&lc, "\"log\"") && crate::text::contains_str(
            &lc,
            "\"stream\"",
        ) {
            return self.get_chain("docker");
        }
        let ghost cs = self@.chains;
        let mut best: Option<usize> = None;
        let mut bn: u128 = 0;
        let mut bd: u128 = 1;
        let mut i: usize = 0;
        while i < self.chains.len()
            invariant
                i <= self.chains@.len(),
                cs == self@.chains,
                cs.len() == self.chains@.len(),
                0 < bd <= u64::MAX,
                bn <= 1000 * bd,
                best_chain(cs, content@, osview(file_path), i as nat) == (
                match best {
                    Some(b) => Some(b as int),
                    None => None,
                },
                bn as int,
                bd as int,
                ),
                best matches Some(b) ==> b < i,
            decreases self.chains.len() - i,
        {
            let ch = &self.chains[i];
            assert(cs[i as int] == ch@);
            let (sn, sd) = self.score(ch, content, file_path);
            if ch.enabled && fraction_greater(sn, sd, bn, bd) {
                best = Some(i);
                bn = sn;
                bd = sd;
            }
            i = i + 1;
        }
        if bn * 10 < 3000 * bd && self.default_chain.is_some() {
            match &self.default_chain {
                Some(d) => self.get_chain(d.as_str()),
                None => None,
            }
        } else {
            match best {
                Some(b) => Some(&self.chains[b]),
                None => None,
            }
        }
    }

    /// Runs the chosen chain, or fails when no chain is chosen.
    pub fn process(&self, content: &str, request: &ParseRequest) -> (r: Result<ParseResult, String>)
        ensures
            match selected_chain(self@, content@, ov(request.file_path)) {
                Some(i) => match chain_outcome(self@.chains[i], content@, ov(request.file_path)) {
                    Ok(c) => r matches Ok(res) && lv(res.lines@) == c.current_lines && lines_wf(res.lines@)
                        && res.total_lines == lines_of(content@).len() && ov(res.detected_format) == Some(
                        self@.chains[i].name,
                    ) && sv(res.parsing_errors@) == c.errors,
                    Err(e) => r matches Err(m) && m@ == e,
                },
                None => r matches Err(m) && m@ == "没有找到合适的处理链"@,
            },
    {
        let path: Option<&str> = match &request.file_path {
            Some(p) => Some(p.as_str()),
            None => None,
        };
        assert(osview(path) == ov(request.file_path));
        match self.select_best_chain(content, path) {
            Some(chain) => chain.process(content, request),
            None => Err(own("没有找到合适的处理链")),
        }
    }
}

impl Default for PluginChainManager {
    fn default() -> (r: PluginChainManager)
        ensures
            r@.chains.len() == 0,
            r@.default_chain is None,
            r@.smart_selection,
            r.wf(),
    {
        PluginChainManager::new()
    }
}

pub proof fn lemma_chain_index_spec(cs: Seq<ChainView>, name: Seq<char>)
    ensures
        match chain_index(cs, name) {
            Some(i) => 0 <= i < cs.len() && cs[i].name == name && forall|j: int| 0 <= j < i ==> cs[j].name != name,
            None => forall|j: int| 0 <= j < cs.len() ==> cs[j].name != name,
        },
    decreases cs.len(),
{
    if cs.len() > 0 {
        lemma_chain_index_spec(cs.drop_last(), name);
        assert(forall|j: int| 0 <= j < cs.len() - 1 ==> cs.drop_last()[j] == cs[j]);
    }
}

proof fn lemma_chain_index_prefix(cs: Seq<ChainView>, name: Seq<char>, n: int)
    requires
        0 <= n <= cs.len(),
        chain_index(cs.take(n), name) is Some,
    ensures
        chain_index(cs, name) == chain_index(cs.take(n), name),
    decreases cs.len() - n,
{
    if n < cs.len() {
        assert(cs.take(n + 1).drop_last() =~= cs.take(n));
        lemma_chain_index_prefix(cs, name, n + 1);
    } else {
        assert(cs.take(n) =~= cs);
    }
}

} // verus!

verus! {

/// Registering a chain keeps the names distinct, and the chain is then found
/// under its name; every other chain stays where it was.
pub proof fn lemma_register_then_find(cs: Seq<ChainView>, c: ChainView)
    requires
        names_distinct(cs),
    ensures
        names_distinct(registered(cs, c)),
        chain_index(registered(cs, c), c.name) matches Some(i) && registered(cs, c)[i] == c,
        forall|j: int| 0 <= j < cs.len() && cs[j].name != c.name ==> #[trigger] registered(cs, c)[j] == cs[j],
        registered(cs, c).len() == if chain_index(cs, c.name) is Some {
            cs.len()
        } else {
            cs.len() + 1
        },
{
    lemma_chain_index_spec(cs, c.name);
    let r = registered(cs, c);
    match chain_index(cs, c.name) {
        Some(i) => {
            assert forall|a: int, b: int| 0 <= a < b < r.len() implies r[a].name != r[b].name by {
                if a != i && b != i {
                    assert(r[a] == cs[a] && r[b] == cs[b]);
                }
            }
            lemma_chain_index_spec(r, c.name);
            match chain_index(r, c.name) {
                Some(k) => {
                    if k != i {
                        assert(r[k] == cs[k]);
                    }
                },
                None => {
                    assert(r[i].name == c.name);
                },
            }
        },
        None => {
            assert forall|a: int, b: int| 0 <= a < b < r.len() implies r[a].name != r[b].name by {
                if b < cs.len() {
                    assert(r[a] == cs[a] && r[b] == cs[b]);
                } else {
                    assert(r[a] == cs[a]);
                }
            }
            lemma_chain_index_spec(r, c.name);
            match chain_index(r, c.name) {
                Some(k) => {
                    if k < cs.len() {
                        assert(r[k] == cs[k]);
                    }
                },
                None => {
                    assert(r[cs.len() as int].name == c.name);
                },
            }
        },
    }
}

/// The best scored chain is an enabled chain among those considered.
pub proof fn lemma_best_chain_enabled(cs: Seq<ChainView>, content: Seq<char>, path: Option<Seq<char>>, n: nat)
    requires
        n <= cs.len(),
    ensures
        best_chain(cs, content, path, n).0 matches Some(i) ==> 0 <= i < n && cs[i].enabled,
        best_chain(cs, content, path, n).2 > 0,
    decreases n,
{
    if n > 0 {
        lemma_best_chain_enabled(cs, content, path, (n - 1) as nat);
    }
}

/// A stopped chain runs no more filters.
pub proof fn lemma_stopped_chain_unchanged(fs: Seq<FilterKind>, c: ContextView)
    requires
        !c.should_continue,
    ensures
        run_filters(fs, c) == c,
    decreases fs.len(),
{
    if fs.len() > 0 {
        lemma_stopped_chain_unchanged(fs.drop_last(), c);
    }
}

} // verus!
