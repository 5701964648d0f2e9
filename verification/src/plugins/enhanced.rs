//! The plugin manager the application uses: the filter chains first, the single
//! parsers as the fallback.
use vstd::prelude::*;
use crate::plugins::{LogEntry, ParseRequest, ParseResult, PluginInfo, lines_wf, lv, ov, sv};
use crate::plugins::chain::{ChainView, PluginChainManager, chain_outcome, registered, selected_chain};
use crate::plugins::manager::{PluginManager, detection_result, parser_index, parser_name, parser_result};
use crate::plugins::presets::{
    database_chain, docker_chain, generic_chain, microservice_chain, recommend_chain, recommended,
    register_preset_chains, springboot_chain,
};
use crate::text::{append_str, chars_of, eq_chars, join, lines_of, own, string_of};

verus! {

/// Parsers and chains together; chains can be switched off.
pub struct EnhancedPluginManager {
    inner: PluginManager,
    chain_manager: PluginChainManager,
    chain_enabled: bool,
}

/// The names of the predefined chains.
pub open spec fn is_preset_name(n: Seq<char>) -> bool {
    n == "docker"@ || n == "springboot"@ || n == "generic"@ || n == "microservice"@ || n == "database"@
}

/// `[` + the names in double quotes, separated by `, `, + `]`: how `{:?}` shows a
/// list of names that hold no character it escapes.
pub open spec fn listed_names(ns: Seq<Seq<char>>) -> Seq<char> {
    "["@ + join(ns.map_values(|n: Seq<char>| "\""@ + n + "\""@), ", "@) + "]"@
}

/// The result of the parsing that `auto_detect_and_parse` does: the chosen chain's
/// result when chains are on and it succeeds, else automatic detection.
pub open spec fn enhanced_result(
    enabled: bool,
    chains: crate::plugins::chain::ManagerView,
    parsers: Seq<crate::plugins::manager::ParserKind>,
    content: Seq<char>,
    path: Option<Seq<char>>,
) -> Option<crate::plugins::ResultView> {
    let by_chain = if enabled {
        match selected_chain(chains, content, path) {
            Some(i) => match chain_outcome(chains.chains[i], content, path) {
                Ok(c) => Some(
                    crate::plugins::ResultView {
                        lines: c.current_lines,
                        total_lines: lines_of(content).len(),
                        detected_format: Some(chains.chains[i].name),
                        parsing_errors: c.errors,
                    },
                ),
                Err(_) => None,
            },
            None => None,
        }
    } else {
        None
    };
    match by_chain {
        Some(r) => Some(r),
        None => detection_result(parsers, content),
    }
}

proof fn lemma_registered_presets(cs: Seq<ChainView>, c: ChainView)
    requires
        forall|i: int| 0 <= i < cs.len() ==> is_preset_name(#[trigger] cs[i].name),
        is_preset_name(c.name),
    ensures
        forall|i: int| 0 <= i < registered(cs, c).len() ==> is_preset_name(#[trigger] registered(cs, c)[i].name),
{
    crate::plugins::chain::lemma_chain_index_spec(cs, c.name);
}

impl EnhancedPluginManager {
    pub closed spec fn parsers(&self) -> Seq<crate::plugins::manager::ParserKind> {
        self.inner@
    }

    pub closed spec fn chains(&self) -> crate::plugins::chain::ManagerView {
        self.chain_manager@
    }

    pub closed spec fn enabled(&self) -> bool {
        self.chain_enabled
    }

    pub closed spec fn wf(&self) -> bool {
        &&& self.chain_manager.wf()
        &&& forall|i: int| 0 <= i < self.chain_manager@.chains.len() ==> is_preset_name(#[trigger] self.chain_manager@.chains[i].name)
    }

    /// The five parsers, no chains yet, chains on.
    pub fn new() -> (r: EnhancedPluginManager)
        ensures
            r.wf(),
            r.parsers() == PluginManager::new_spec(),
            r.chains().chains.len() == 0,
            r.enabled(),
    {
        EnhancedPluginManager { inner: PluginManager::new(), chain_manager: PluginChainManager::new(), chain_enabled: true }
    }

    /// Registers the predefined chains when chains are on.
    pub fn initialize(&mut self) -> (r: Result<(), String>)
        requires
            old(self).wf(),
        ensures
            r is Ok,
            final(self).wf(),
            final(self).parsers() == old(self).parsers(),
            final(self).enabled() == old(self).enabled(),
            old(self).enabled() ==> final(self).chains().chains == registered(
                registered(
                    registered(
                        registered(registered(old(self).chains().chains, docker_chain()), springboot_chain()),
                        generic_chain(),
                    ),
                    microservice_chain(),
                ),
                database_chain(),
            ) && final(self).chains().default_chain == Some("generic"@),
            !old(self).enabled() ==> final(self).chains() == old(self).chains(),
    {
        if self.chain_enabled {
            proof {
                let c0 = self.chain_manager@.chains;
                lemma_registered_presets(c0, docker_chain());
                let c1 = registered(c0, docker_chain());
                lemma_registered_presets(c1, springboot_chain());
                let c2 = registered(c1, springboot_chain());
                lemma_registered_presets(c2, generic_chain());
                let c3 = registered(c2, generic_chain());
                lemma_registered_presets(c3, microservice_chain());
                let c4 = registered(c3, microservice_chain());
                lemma_registered_presets(c4, database_chain());
            }
            register_preset_chains(&mut self.chain_manager);
        }
        Ok(())
    }

    /// What each parser tells about itself.
    pub fn get_available_plugins(&self) -> (r: Vec<PluginInfo>)
        ensures
            r@.len() == self.parsers().len(),
            forall|i: int| 0 <= i < r@.len() ==> (#[trigger] r@[i]).name@ == parser_name(self.parsers()[i]),
    {
        self.inner.get_available_plugins()
    }

    /// Parses with the named parser (see `PluginManager::parse_with_plugin`).
    pub fn parse_with_plugin(&self, plugin_name: &str, request: &ParseRequest) -> (r: Result<ParseResult, String>)
        ensures
            match parser_index(self.parsers(), plugin_name@) {
                Some(i) => r matches Ok(res) && res@ == parser_result(self.parsers()[i], request.content@),
                None => r matches Err(m) && m@ == "Plugin '"@ + plugin_name@ + "' not found"@,
            },
    {
        self.inner.parse_with_plugin(plugin_name, request)
    }

    /// The chosen chain's result when chains are on and it succeeds, else
    /// automatic detection (see `enhanced_result`).
    pub fn auto_detect_and_parse(&self, request: &ParseRequest) -> (r: Result<ParseResult, String>)
        ensures
            match enhanced_result(self.enabled(), self.chains(), self.parsers(), request.content@, ov(request.file_path)) {
                Some(v) => r matches Ok(res) && res@ == v && lines_wf(res.lines@),
                None => r matches Err(m) && m@ == "No suitable parser found"@,
            },
    {
        if self.chain_enabled {
            match self.chain_manager.process(request.content.as_str(), request) {
                Ok(result) => {
                    let ghost chains = self.chain_manager@;
                    let ghost i = selected_chain(chains, request.content@, ov(request.file_path))->0;
                    assert(result@ =~= enhanced_result(
                        self.enabled(),
                        self.chains(),
                        self.parsers(),
                        request.content@,
                        ov(request.file_path),
                    )->0);
                    return Ok(result);
                },
                Err(_) => {},
            }
        }
        self.inner.auto_detect_and_parse(request)
    }

    /// Hands the entries back unchanged.
    pub fn process_log_entries(&self, entries: Vec<LogEntry>) -> (r: Result<Vec<LogEntry>, String>)
        ensures
            r == Ok::<Vec<LogEntry>, String>(entries),
    {
        Ok(entries)
    }

    /// Fails when chains are off or the named chain is not registered; else
    /// parses as `auto_detect_and_parse` does.
    pub fn process_with_chain(&self, chain_name: &str, request: &ParseRequest) -> (r: Result<ParseResult, String>)
        requires
            self.wf(),
        ensures
            !self.enabled() ==> (r matches Err(m) && m@ == "插件链系统已禁用"@),
            self.enabled() && !self.chains().chains.map_values(|c: ChainView| c.name).contains(chain_name@) ==> (
            r matches Err(m) && m@ == "插件链 '"@ + chain_name@ + "' 不存在，可用链: "@ + listed_names(
                self.chains().chains.map_values(|c: ChainView| c.name),
            )),
            self.enabled() && self.chains().chains.map_values(|c: ChainView| c.name).contains(chain_name@) ==> match enhanced_result(
                self.enabled(),
                self.chains(),
                self.parsers(),
                request.content@,
                ov(request.file_path),
            ) {
                Some(v) => r matches Ok(res) && res@ == v,
                None => r matches Err(m) && m@ == "No suitable parser found"@,
            },
    {
        if !self.chain_enabled {
            return Err(own("插件链系统已禁用"));
        }
        let names = self.chain_manager.get_available_chains();
        let ghost ns = self.chains().chains.map_values(|c: ChainView| c.name);
        let wanted = chars_of(chain_name);
        let mut found = false;
        let mut i: usize = 0;
        while i < names.len()
            invariant
                i <= names@.len(),
                sv(names@) == ns,
                wanted@ == chain_name@,
                found == exists|k: int| 0 <= k < i && ns[k] == chain_name@,
            decreases names.len() - i,
        {
            let n = chars_of(names[i].as_str());
            assert(ns[i as int] == names@[i as int]@);
            if eq_chars(&n, &wanted) {
                found = true;
            }
            i = i + 1;
        }
        if !found {
            assert(!ns.contains(chain_name@));
            let mut m = chars_of("插件链 '");
            append_str(&mut m, chain_name);
            append_str(&mut m, "' 不存在，可用链: ");
            let listed = list_names(&names);
            crate::text::append(&mut m, &listed);
            return Err(string_of(&m));
        }
        assert(ns.contains(chain_name@));
        self.auto_detect_and_parse(request)
    }

    /// The registered chains, none when chains are off.
    pub fn get_available_chains(&self) -> (r: Vec<String>)
        ensures
            self.enabled() ==> sv(r@) == self.chains().chains.map_values(|c: ChainView| c.name),
            !self.enabled() ==> r@.len() == 0,
    {
        if !self.chain_enabled {
            return Vec::new();
        }
        self.chain_manager.get_available_chains()
    }

    pub fn set_chain_enabled(&mut self, enabled: bool)
        ensures
            final(self).enabled() == enabled,
            final(self).chains() == old(self).chains(),
            final(self).parsers() == old(self).parsers(),
            final(self).wf() == old(self).wf(),
    {
        self.chain_enabled = enabled;
    }

    pub fn is_chain_enabled(&self) -> (b: bool)
        ensures
            b == self.enabled(),
    {
        self.chain_enabled
    }

    /// The recommended chain (see `recommended`) when chains are on and it is registered.
    pub fn recommend_chain(&self, content: &str, file_path: Option<&str>) -> (r: Option<String>)
        ensures
            !self.enabled() ==> r is None,
            self.enabled() ==> (if self.chains().chains.map_values(|c: ChainView| c.name).contains(recommended(content@)) {
                ov(r) == Some(recommended(content@))
            } else {
                r is None
            }),
    {
        if !self.chain_enabled {
            return None;
        }
        let rec = recommend_chain(content, file_path);
        let names = self.get_available_chains();
        let ghost ns = self.chains().chains.map_values(|c: ChainView| c.name);
        let rc = chars_of(rec.as_str());
        let mut i: usize = 0;
        while i < names.len()
            invariant
                i <= names@.len(),
                sv(names@) == ns,
                rc@ == recommended(content@),
                rec@ == recommended(content@),
                self.chain_enabled,
                ns == self.chains().chains.map_values(|c: ChainView| c.name),
                forall|k: int| 0 <= k < i ==> ns[k] != recommended(content@),
            decreases names.len() - i,
        {
            let n = chars_of(names[i].as_str());
            assert(ns[i as int] == names@[i as int]@);
            if eq_chars(&n, &rc) {
                assert(ns.contains(recommended(content@)));
                return Some(rec);
            }
            i = i + 1;
        }
        assert(!ns.contains(recommended(content@)));
        None
    }
}

/// The names as `{:?}` shows a list of them (see `listed_names`).
fn list_names(names: &Vec<String>) -> (r: Vec<char>)
    ensures
        r@ == listed_names(sv(names@)),
{
    let mut parts: Vec<Vec<char>> = Vec::new();
    let mut i: usize = 0;
    while i < names.len()
        invariant
            i <= names@.len(),
            parts@.map_values(|p: Vec<char>| p@) == sv(names@).take(i as int).map_values(|n: Seq<char>| "\""@ + n + "\""@),
        decreases names.len() - i,
    {
        let mut q = chars_of("\"");
        append_str(&mut q, names[i].as_str());
        append_str(&mut q, "\"");
        let ghost prev = parts@.map_values(|p: Vec<char>| p@);
        let ghost qv = q@;
        parts.push(q);
        assert(parts@.map_values(|p: Vec<char>| p@) =~= prev.push(qv));
        assert(sv(names@).take(i as int + 1) =~= sv(names@).take(i as int).push(names@[i as int]@));
        assert(parts@.map_values(|p: Vec<char>| p@) =~= sv(names@).take(i as int + 1).map_values(
            |n: Seq<char>| "\""@ + n + "\""@,
        ));
        i = i + 1;
    }
    assert(sv(names@).take(names@.len() as int) =~= sv(names@));
    let joined = crate::text::join_parts(&parts, ", ");
    let mut r = chars_of("[");
    crate::text::append(&mut r, &joined);
    append_str(&mut r, "]");
    r
}

impl Default for EnhancedPluginManager {
    fn default() -> (r: EnhancedPluginManager)
        ensures
            r.wf(),
            r.parsers() == PluginManager::new_spec(),
            r.chains().chains.len() == 0,
            r.enabled(),
    {
        EnhancedPluginManager::new()
    }
}

} // verus!
