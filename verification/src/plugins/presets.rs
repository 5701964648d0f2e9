//! The predefined chains, a builder for new chains, and the recommendation of a
//! chain for a text.
use vstd::prelude::*;
use crate::foreign::lowercase_of;
use crate::plugins::chain::{
    ChainConditions, ChainView, ConditionsView, PluginChain, PluginChainManager, by_priority, count_at_most,
    insert_by_priority, registered,
};
use crate::plugins::filters::{FilterKind, filter_priority};
use crate::plugins::springboot::looks_like_log_line;
use crate::plugins::sv;
use crate::text::{chars_of, contains_char, contains_str, lines_of, lower, own, seq_contains, split_lines, utf8_len_capped};

verus! {

// ---------------------------------------------------------------------------
// Priority order
// ---------------------------------------------------------------------------

/// Filters in non-decreasing priority.
pub open spec fn priority_sorted(fs: Seq<FilterKind>) -> bool {
    forall|i: int, j: int| 0 <= i < j < fs.len() ==> filter_priority(fs[i]) <= filter_priority(fs[j])
}

proof fn lemma_count_split(t: Seq<FilterKind>, p: int)
    requires
        priority_sorted(t),
    ensures
        count_at_most(t, p) <= t.len(),
        forall|i: int| 0 <= i < count_at_most(t, p) ==> filter_priority(#[trigger] t[i]) <= p,
        forall|i: int| count_at_most(t, p) <= i < t.len() ==> filter_priority(#[trigger] t[i]) > p,
    decreases t.len(),
{
    if t.len() > 0 {
        let t1 = t.drop_last();
        assert(priority_sorted(t1)) by {
            assert forall|i: int, j: int| 0 <= i < j < t1.len() implies filter_priority(t1[i]) <= filter_priority(
                t1[j],
            ) by {
                assert(t1[i] == t[i] && t1[j] == t[j]);
            }
        }
        lemma_count_split(t1, p);
        let k1 = count_at_most(t1, p);
        if filter_priority(t.last()) <= p {
            assert forall|i: int| 0 <= i < t1.len() implies filter_priority(t1[i]) <= p by {
                assert(t1[i] == t[i]);
                assert(filter_priority(t[i]) <= filter_priority(t[t.len() - 1]));
            }
            if k1 < t1.len() {
                assert(filter_priority(t1[k1 as int]) > p);
                assert(filter_priority(t1[k1 as int]) <= p);
            }
            assert forall|i: int| 0 <= i < count_at_most(t, p) implies filter_priority(#[trigger] t[i]) <= p by {
                if i < t1.len() {
                    assert(t1[i] == t[i]);
                }
            }
        } else {
            assert forall|i: int| 0 <= i < count_at_most(t, p) implies filter_priority(#[trigger] t[i]) <= p by {
                assert(t1[i] == t[i]);
            }
            assert forall|i: int| count_at_most(t, p) <= i < t.len() implies filter_priority(#[trigger] t[i]) > p by {
                if i < t1.len() {
                    assert(t1[i] == t[i]);
                }
            }
        }
    }
}

proof fn lemma_insert_sorted(t: Seq<FilterKind>, f: FilterKind)
    requires
        priority_sorted(t),
    ensures
        priority_sorted(insert_by_priority(t, f)),
        insert_by_priority(t, f).len() == t.len() + 1,
{
    let p = filter_priority(f);
    lemma_count_split(t, p);
    let k = count_at_most(t, p) as int;
    let r = insert_by_priority(t, f);
    assert(r.len() == t.len() + 1);
    assert forall|i: int| 0 <= i < r.len() implies #[trigger] r[i] == (if i < k {
        t[i]
    } else if i == k {
        f
    } else {
        t[i - 1]
    }) by {}
    assert forall|i: int, j: int| 0 <= i < j < r.len() implies filter_priority(r[i]) <= filter_priority(r[j]) by {
        if i < k && j < k {
        } else if i < k && j == k {
        } else if i < k {
            assert(filter_priority(t[i]) <= filter_priority(t[j - 1]));
        } else if i == k {
            assert(filter_priority(t[j - 1]) > p);
        } else {
            assert(filter_priority(t[i - 1]) <= filter_priority(t[j - 1]));
        }
    }
}

/// Sorting by priority yields filters in priority order, as many as given.
pub proof fn lemma_by_priority_sorted(fs: Seq<FilterKind>)
    ensures
        priority_sorted(by_priority(fs)),
        by_priority(fs).len() == fs.len(),
    decreases fs.len(),
{
    if fs.len() > 0 {
        lemma_by_priority_sorted(fs.drop_last());
        lemma_insert_sorted(by_priority(fs.drop_last()), fs.last());
    }
}

proof fn lemma_sorted_fixed(t: Seq<FilterKind>)
    requires
        priority_sorted(t),
    ensures
        by_priority(t) == t,
    decreases t.len(),
{
    if t.len() > 0 {
        let t1 = t.drop_last();
        assert(priority_sorted(t1)) by {
            assert forall|i: int, j: int| 0 <= i < j < t1.len() implies filter_priority(t1[i]) <= filter_priority(
                t1[j],
            ) by {
                assert(t1[i] == t[i] && t1[j] == t[j]);
            }
        }
        lemma_sorted_fixed(t1);
        let p = filter_priority(t.last());
        lemma_count_split(t1, p);
        let k = count_at_most(t1, p) as int;
        if k < t1.len() {
            assert(filter_priority(t1[k]) > p);
            assert(t1[k] == t[k]);
            assert(filter_priority(t[k]) <= filter_priority(t[t.len() - 1]));
        }
        assert(insert_by_priority(t1, t.last()) =~= t);
    }
}

/// Adding filters one at a time keeps them sorted as if they had been sorted at once.
pub proof fn lemma_add_in_order(fs: Seq<FilterKind>, f: FilterKind)
    ensures
        by_priority(by_priority(fs).push(f)) == by_priority(fs.push(f)),
{
    lemma_by_priority_sorted(fs);
    lemma_sorted_fixed(by_priority(fs));
    assert(by_priority(fs).push(f).drop_last() =~= by_priority(fs));
    assert(fs.push(f).drop_last() =~= fs);
}

/// The filters of priority `p`, in their order in `fs`.
pub open spec fn of_priority(fs: Seq<FilterKind>, p: int) -> Seq<FilterKind>
    decreases fs.len(),
{
    if fs.len() == 0 {
        Seq::empty()
    } else {
        of_priority(fs.drop_last(), p) + if filter_priority(fs.last()) == p {
            seq![fs.last()]
        } else {
            Seq::empty()
        }
    }
}

proof fn lemma_of_priority_concat(a: Seq<FilterKind>, b: Seq<FilterKind>, p: int)
    ensures
        of_priority(a + b, p) == of_priority(a, p) + of_priority(b, p),
    decreases b.len(),
{
    if b.len() == 0 {
        assert(a + b =~= a);
        assert(of_priority(a, p) + of_priority(b, p) =~= of_priority(a, p));
    } else {
        assert((a + b).drop_last() =~= a + b.drop_last());
        assert((a + b).last() == b.last());
        lemma_of_priority_concat(a, b.drop_last(), p);
        assert(of_priority(a + b, p) =~= of_priority(a, p) + of_priority(b, p));
    }
}

proof fn lemma_of_priority_above(b: Seq<FilterKind>, p: int)
    requires
        forall|i: int| 0 <= i < b.len() ==> filter_priority(#[trigger] b[i]) > p,
    ensures
        of_priority(b, p) == Seq::<FilterKind>::empty(),
    decreases b.len(),
{
    if b.len() > 0 {
        assert forall|i: int| 0 <= i < b.drop_last().len() implies filter_priority(#[trigger] b.drop_last()[i]) > p by {
            assert(b.drop_last()[i] == b[i]);
        }
        lemma_of_priority_above(b.drop_last(), p);
        assert(filter_priority(b[b.len() - 1]) > p);
    }
}

proof fn lemma_insert_stable(t: Seq<FilterKind>, f: FilterKind, p: int)
    requires
        priority_sorted(t),
    ensures
        of_priority(insert_by_priority(t, f), p) == of_priority(t, p) + if filter_priority(f) == p {
            seq![f]
        } else {
            Seq::empty()
        },
{
    let q = filter_priority(f);
    lemma_count_split(t, q);
    let k = count_at_most(t, q) as int;
    let a = t.take(k);
    let b = t.skip(k);
    assert(insert_by_priority(t, f) =~= (a + seq![f]) + b);
    assert(t =~= a + b);
    lemma_of_priority_concat(a + seq![f], b, p);
    lemma_of_priority_concat(a, seq![f], p);
    lemma_of_priority_concat(a, b, p);
    assert(seq![f].drop_last() =~= Seq::<FilterKind>::empty());
    assert(seq![f].last() == f);
    assert(of_priority(Seq::<FilterKind>::empty(), p) =~= Seq::<FilterKind>::empty());
    assert(of_priority(seq![f].drop_last(), p) =~= Seq::<FilterKind>::empty());
    assert(of_priority(seq![f], p) =~= (if q == p {
        seq![f]
    } else {
        Seq::empty()
    }));
    if q == p {
        assert forall|i: int| 0 <= i < b.len() implies filter_priority(#[trigger] b[i]) > p by {
            assert(b[i] == t[k + i]);
        }
        lemma_of_priority_above(b, p);
        assert(of_priority(t, p) =~= of_priority(a, p));
    }
    assert(of_priority(insert_by_priority(t, f), p) =~= of_priority(t, p) + if q == p {
        seq![f]
    } else {
        Seq::empty()
    });
}

proof fn lemma_by_priority_stable(fs: Seq<FilterKind>, p: int)
    ensures
        of_priority(by_priority(fs), p) == of_priority(fs, p),
        by_priority(fs).to_multiset() == fs.to_multiset(),
    decreases fs.len(),
{
    broadcast use vstd::seq_lib::group_to_multiset_ensures;

    if fs.len() == 0 {
        assert(by_priority(fs) =~= fs);
    } else {
        let t = by_priority(fs.drop_last());
        lemma_by_priority_stable(fs.drop_last(), p);
        lemma_by_priority_sorted(fs.drop_last());
        lemma_insert_stable(t, fs.last(), p);
        lemma_count_split(t, filter_priority(fs.last()));
        let k = count_at_most(t, filter_priority(fs.last())) as int;
        assert(insert_by_priority(t, fs.last()) =~= t.insert(k, fs.last()));
        vstd::seq_lib::to_multiset_insert(t, k, fs.last());
        assert(fs =~= fs.drop_last().push(fs.last()));
        vstd::seq_lib::to_multiset_build(fs.drop_last(), fs.last());
    }
}

/// What `PluginChain::add_filter` leaves, the old filters with the new one sorted
/// by priority, holds exactly the same filters, in priority order, and filters of
/// equal priority keep the order they were added in.
pub proof fn lemma_add_filter_order(fs: Seq<FilterKind>, f: FilterKind)
    ensures
        by_priority(fs.push(f)).to_multiset() == fs.push(f).to_multiset(),
        priority_sorted(by_priority(fs.push(f))),
        forall|p: int| #[trigger] of_priority(by_priority(fs.push(f)), p) == of_priority(fs.push(f), p),
{
    lemma_by_priority_sorted(fs.push(f));
    lemma_by_priority_stable(fs.push(f), 0);
    assert forall|p: int| #[trigger] of_priority(by_priority(fs.push(f)), p) == of_priority(fs.push(f), p) by {
        lemma_by_priority_stable(fs.push(f), p);
    }
}

// ---------------------------------------------------------------------------
// Predefined chains
// ---------------------------------------------------------------------------

pub open spec fn conditions_view(files: Seq<Seq<char>>, contents: Seq<Seq<char>>, confidence: nat) -> ConditionsView {
    ConditionsView { file_patterns: files, content_patterns: contents, min_confidence: confidence }
}

/// Docker containers: JSON lines, then Spring Boot, JVM, SQL, markers, display.
pub open spec fn docker_chain() -> ChainView {
    ChainView {
        name: "docker"@,
        description: "Docker容器日志处理链，支持JSON格式解析和多层日志处理"@,
        filters: by_priority(
            seq![
                FilterKind::DockerJson,
                FilterKind::SpringBoot,
                FilterKind::JavaLog,
                FilterKind::MyBatis,
                FilterKind::ContentEnhancer,
                FilterKind::JsonStructure,
            ],
        ),
        enabled: true,
        conditions: Some(
            conditions_view(seq!["docker"@, "container"@], seq!["\"log\""@, "\"stream\""@, "\"time\""@], 70),
        ),
    }
}

/// Spring Boot applications.
pub open spec fn springboot_chain() -> ChainView {
    ChainView {
        name: "springboot"@,
        description: "SpringBoot应用日志处理链，专门处理SpringBoot标准日志格式"@,
        filters: by_priority(
            seq![
                FilterKind::SpringBoot,
                FilterKind::JavaLog,
                FilterKind::MyBatis,
                FilterKind::ContentEnhancer,
                FilterKind::JsonStructure,
            ],
        ),
        enabled: true,
        conditions: Some(
            conditions_view(Seq::empty(), seq!["spring"@, "application.start"@, "INFO"@, "ERROR"@], 50),
        ),
    }
}

/// Any text.
pub open spec fn generic_chain() -> ChainView {
    ChainView {
        name: "generic"@,
        description: "通用文本日志处理链，提供基础的日志解析和格式化功能"@,
        filters: by_priority(seq![FilterKind::JavaLog, FilterKind::ContentEnhancer, FilterKind::JsonStructure]),
        enabled: true,
        conditions: None,
    }
}

/// Services with distributed tracing.
pub open spec fn microservice_chain() -> ChainView {
    ChainView {
        name: "microservice"@,
        description: "微服务架构日志处理链，支持分布式追踪和多服务日志处理"@,
        filters: by_priority(
            seq![
                FilterKind::SpringBoot,
                FilterKind::JavaLog,
                FilterKind::MyBatis,
                FilterKind::ContentEnhancer,
                FilterKind::JsonStructure,
            ],
        ),
        enabled: true,
        conditions: Some(
            conditions_view(Seq::empty(), seq!["trace"@, "span"@, "request"@, "service"@], 40),
        ),
    }
}

/// SQL logs of MyBatis and similar frameworks.
pub open spec fn database_chain() -> ChainView {
    ChainView {
        name: "database"@,
        description: "数据库SQL日志处理链，专门处理MyBatis等ORM框架的SQL日志"@,
        filters: by_priority(
            seq![
                FilterKind::MyBatis,
                FilterKind::SpringBoot,
                FilterKind::JavaLog,
                FilterKind::ContentEnhancer,
                FilterKind::JsonStructure,
            ],
        ),
        enabled: true,
        conditions: Some(
            conditions_view(Seq::empty(), seq!["preparing"@, "parameters"@, "==>"@, "sql"@], 70),
        ),
    }
}

fn strings(a: &str, b: &str) -> (r: Vec<String>)
    ensures
        sv(r@) == seq![a@, b@],
{
    let mut r: Vec<String> = Vec::new();
    r.push(own(a));
    r.push(own(b));
    assert(sv(r@) =~= seq![a@, b@]);
    r
}

fn with_all(chain: &mut PluginChain, fs: &Vec<FilterKind>)
    requires
        old(chain)@.filters.len() == 0,
    ensures
        final(chain)@ == (ChainView { filters: by_priority(fs@), ..old(chain)@ }),
{
    let mut i: usize = 0;
    assert(fs@.take(0) =~= Seq::<FilterKind>::empty());
    assert(chain@.filters =~= by_priority(fs@.take(0)));
    while i < fs.len()
        invariant
            i <= fs@.len(),
            chain@ == (ChainView { filters: chain@.filters, ..old(chain)@ }),
            chain@.filters == by_priority(fs@.take(i as int)),
        decreases fs.len() - i,
    {
        proof {
            lemma_add_in_order(fs@.take(i as int), fs@[i as int]);
            assert(fs@.take(i as int).push(fs@[i as int]) =~= fs@.take(i as int + 1));
        }
        chain.add_filter(fs[i]);
        i = i + 1;
    }
    assert(fs@.take(fs@.len() as int) =~= fs@);
}

fn docker_chain_exec() -> (r: PluginChain)
    ensures
        r@ == docker_chain(),
{
    let mut chain = PluginChain::new(own("docker"), own("Docker容器日志处理链，支持JSON格式解析和多层日志处理"));
    let mut conditions = ChainConditions::new();
    conditions.file_patterns = strings("docker", "container");
    conditions.content_patterns = three_patterns("\"log\"", "\"stream\"", "\"time\"");
    conditions.min_confidence = 70;
    chain.conditions = Some(conditions);
    let fs = vec![
        FilterKind::DockerJson,
        FilterKind::SpringBoot,
        FilterKind::JavaLog,
        FilterKind::MyBatis,
        FilterKind::ContentEnhancer,
        FilterKind::JsonStructure,
    ];
    with_all(&mut chain, &fs);
    assert(chain@ =~= docker_chain());
    chain
}

fn three_patterns(a: &str, b: &str, c: &str) -> (r: Vec<String>)
    ensures
        sv(r@) == seq![a@, b@, c@],
{
    let mut r = strings(a, b);
    let ghost p0 = r@;
    let x = own(c);
    r.push(x);
    assert(r@ =~= p0.push(x));
    assert(sv(r@) =~= sv(p0).push(x@));
    assert(sv(r@) =~= seq![a@, b@, c@]);
    r
}

fn four_patterns(a: &str, b: &str, c: &str, d: &str) -> (r: Vec<String>)
    ensures
        sv(r@) == seq![a@, b@, c@, d@],
{
    let mut r = three_patterns(a, b, c);
    let ghost p0 = r@;
    let x = own(d);
    r.push(x);
    assert(r@ =~= p0.push(x));
    assert(sv(r@) =~= sv(p0).push(x@));
    assert(sv(r@) =~= seq![a@, b@, c@, d@]);
    r
}

fn content_chain(
    name: &str,
    description: &str,
    patterns: Vec<String>,
    confidence: u32,
    fs: &Vec<FilterKind>,
) -> (r: PluginChain)
    ensures
        r@ == (ChainView {
            name: name@,
            description: description@,
            filters: by_priority(fs@),
            enabled: true,
            conditions: Some(conditions_view(Seq::empty(), sv(patterns@), confidence as nat)),
        }),
{
    let ghost pv = sv(patterns@);
    let mut chain = PluginChain::new(own(name), own(description));
    let mut conditions = ChainConditions::new();
    conditions.content_patterns = patterns;
    conditions.min_confidence = confidence;
    assert(conditions@.file_patterns =~= Seq::<Seq<char>>::empty());
    assert(conditions@ == conditions_view(Seq::empty(), pv, confidence as nat));
    chain.conditions = Some(conditions);
    with_all(&mut chain, fs);
    chain
}

/// Registers the five predefined chains (`docker`, `springboot`, `generic`,
/// `microservice`, `database`) and makes `generic` the default.
pub fn register_preset_chains(manager: &mut PluginChainManager)
    requires
        old(manager).wf(),
    ensures
        final(manager).wf(),
        final(manager)@.chains == registered(
            registered(
                registered(
                    registered(registered(old(manager)@.chains, docker_chain()), springboot_chain()),
                    generic_chain(),
                ),
                microservice_chain(),
            ),
            database_chain(),
        ),
        final(manager)@.default_chain == Some("generic"@),
        final(manager)@.smart_selection == old(manager)@.smart_selection,
{
    manager.register_chain(docker_chain_exec());
    let sb = vec![
        FilterKind::SpringBoot,
        FilterKind::JavaLog,
        FilterKind::MyBatis,
        FilterKind::ContentEnhancer,
        FilterKind::JsonStructure,
    ];
    manager.register_chain(
        content_chain(
            "springboot",
            "SpringBoot应用日志处理链，专门处理SpringBoot标准日志格式",
            four_patterns("spring", "application.start", "INFO", "ERROR"),
            50,
            &sb,
        ),
    );
    let mut generic = PluginChain::new(own("generic"), own("通用文本日志处理链，提供基础的日志解析和格式化功能"));
    let gf = vec![FilterKind::JavaLog, FilterKind::ContentEnhancer, FilterKind::JsonStructure];
    with_all(&mut generic, &gf);
    assert(generic@ =~= generic_chain());
    manager.register_chain(generic);
    manager.register_chain(
        content_chain(
            "microservice",
            "微服务架构日志处理链，支持分布式追踪和多服务日志处理",
            four_patterns("trace", "span", "request", "service"),
            40,
            &sb,
        ),
    );
    let db = vec![
        FilterKind::MyBatis,
        FilterKind::SpringBoot,
        FilterKind::JavaLog,
        FilterKind::ContentEnhancer,
        FilterKind::JsonStructure,
    ];
    manager.register_chain(
        content_chain(
            "database",
            "数据库SQL日志处理链，专门处理MyBatis等ORM框架的SQL日志",
            four_patterns("preparing", "parameters", "==>", "sql"),
            70,
            &db,
        ),
    );
    manager.set_default_chain(own("generic"));
}

// ---------------------------------------------------------------------------
// Building chains
// ---------------------------------------------------------------------------

/// Builds a chain filter by filter.
pub struct ChainBuilder {
    chain: PluginChain,
}

impl View for ChainBuilder {
    type V = ChainView;

    closed spec fn view(&self) -> ChainView {
        self.chain@
    }
}

impl ChainBuilder {
    /// An enabled chain without filters or conditions.
    pub fn new(name: String, description: String) -> (r: ChainBuilder)
        ensures
            r@.name == name@,
            r@.description == description@,
            r@.filters.len() == 0,
            r@.enabled,
            r@.conditions is None,
    {
        ChainBuilder { chain: PluginChain::new(name, description) }
    }

    fn with(self, f: FilterKind) -> (r: ChainBuilder)
        ensures
            r@ == (ChainView { filters: by_priority(self@.filters.push(f)), ..self@ }),
    {
        let mut s = self;
        s.chain.add_filter(f);
        s
    }

    pub fn with_docker_json(self) -> (r: ChainBuilder)
        ensures
            r@ == (ChainView { filters: by_priority(self@.filters.push(FilterKind::DockerJson)), ..self@ }),
    {
        self.with(FilterKind::DockerJson)
    }

    pub fn with_springboot(self) -> (r: ChainBuilder)
        ensures
            r@ == (ChainView { filters: by_priority(self@.filters.push(FilterKind::SpringBoot)), ..self@ }),
    {
        self.with(FilterKind::SpringBoot)
    }

    pub fn with_mybatis(self) -> (r: ChainBuilder)
        ensures
            r@ == (ChainView { filters: by_priority(self@.filters.push(FilterKind::MyBatis)), ..self@ }),
    {
        self.with(FilterKind::MyBatis)
    }

    pub fn with_java_log(self) -> (r: ChainBuilder)
        ensures
            r@ == (ChainView { filters: by_priority(self@.filters.push(FilterKind::JavaLog)), ..self@ }),
    {
        self.with(FilterKind::JavaLog)
    }

    pub fn with_content_enhancer(self) -> (r: ChainBuilder)
        ensures
            r@ == (ChainView { filters: by_priority(self@.filters.push(FilterKind::ContentEnhancer)), ..self@ }),
    {
        self.with(FilterKind::ContentEnhancer)
    }

    pub fn with_json_structure(self) -> (r: ChainBuilder)
        ensures
            r@ == (ChainView { filters: by_priority(self@.filters.push(FilterKind::JsonStructure)), ..self@ }),
    {
        self.with(FilterKind::JsonStructure)
    }

    pub fn with_conditions(self, conditions: ChainConditions) -> (r: ChainBuilder)
        ensures
            r@ == (ChainView { conditions: Some(conditions@), ..self@ }),
    {
        let mut s = self;
        s.chain.conditions = Some(conditions);
        s
    }

    pub fn with_enabled(self, enabled: bool) -> (r: ChainBuilder)
        ensures
            r@ == (ChainView { enabled, ..self@ }),
    {
        let mut s = self;
        s.chain.enabled = enabled;
        s
    }

    /// The chain built.
    pub fn build(self) -> (r: PluginChain)
        ensures
            r@ == self@,
    {
        self.chain
    }
}

// ---------------------------------------------------------------------------
// Recommendation
// ---------------------------------------------------------------------------

/// The chain recommended for a text: `docker` for Docker JSON, `database` for
/// MyBatis SQL markers, `springboot` for Spring keywords or a line that starts like
/// a timestamped log line, `microservice` for tracing words, else `generic`
/// (keywords compared in lower case).
pub open spec fn recommended(content: Seq<char>) -> Seq<char> {
    let lc = lowercase_of(content);
    if seq_contains(lc, "{"@) && seq_contains(lc, "\"log\""@) && seq_contains(lc, "\"stream\""@) {
        "docker"@
    } else if seq_contains(lc, "preparing:"@) || seq_contains(lc, "parameters:"@) || seq_contains(lc, "==>"@) {
        "database"@
    } else if seq_contains(lc, "spring"@) || seq_contains(lc, "application.start"@) || seq_contains(
        lc,
        "springframework"@,
    ) || exists|i: int| 0 <= i < lines_of(content).len() && looks_like_log_line(#[trigger] lines_of(content)[i]) {
        "springboot"@
    } else if seq_contains(lc, "trace"@) || seq_contains(lc, "span"@) || seq_contains(lc, "request"@)
        || seq_contains(lc, "service"@) {
        "microservice"@
    } else {
        "generic"@
    }
}

fn some_log_line(c: &Vec<char>) -> (b: bool)
    ensures
        b == exists|i: int| 0 <= i < lines_of(c@).len() && looks_like_log_line(#[trigger] lines_of(c@)[i]),
{
    let ls = split_lines(c);
    let mut i: usize = 0;
    while i < ls.len()
        invariant
            i <= ls@.len(),
            ls@.len() == lines_of(c@).len(),
            forall|k: int| 0 <= k < ls@.len() ==> #[trigger] ls@[k]@ == lines_of(c@)[k],
            forall|k: int| 0 <= k < i ==> !looks_like_log_line(#[trigger] lines_of(c@)[k]),
        decreases ls.len() - i,
    {
        let line = &ls[i];
        assert(ls@[i as int]@ == lines_of(c@)[i as int]);
        if line.len() > 0 && '0' <= line[0] && line[0] <= '9' && utf8_len_capped(line, 10) >= 10 && (contains_char(
            line,
            '[',
        ) || contains_str(line, " INFO ") || contains_str(line, " ERROR ")) {
            assert(looks_like_log_line(lines_of(c@)[i as int]));
            return true;
        }
        i = i + 1;
    }
    false
}

/// The name of the chain recommended for a text (see `recommended`).
pub fn recommend_chain(content: &str, _file_path: Option<&str>) -> (r: String)
    ensures
        r@ == recommended(content@),
{
    let c = chars_of(content);
    let lc = lower(&c);
    if contains_str(&lc, "{") && contains_str(&lc, "\"log\"") && contains_str(&lc, "\"stream\"") {
        return own("docker");
    }
    if contains_str(&lc, "preparing:") || contains_str(&lc, "parameters:") || contains_str(&lc, "==>") {
        return own("database");
    }
    if contains_str(&lc, "spring") || contains_str(&lc, "application.start") || contains_str(&lc, "springframework")
        || some_log_line(&c) {
        return own("springboot");
    }
    if contains_str(&lc, "trace") || contains_str(&lc, "span") || contains_str(&lc, "request") || contains_str(
        &lc,
        "service",
    ) {
        return own("microservice");
    }
    own("generic")
}

/// The recommendation is always one of the five predefined chains.
pub proof fn lemma_recommendation_is_preset(content: Seq<char>)
    ensures
        ({
            let r = recommended(content);
            r == docker_chain().name || r == database_chain().name || r == springboot_chain().name
                || r == microservice_chain().name || r == generic_chain().name
        }),
{
}

} // verus!
