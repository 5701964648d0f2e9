//! The parsers by name, and the choice of a parser for a text.
use vstd::prelude::*;
use crate::foreign::lowercase_of;
use crate::plugins::{LogParser, ParseRequest, ParseResult, PluginInfo, ResultView, lines_wf, sv};
use crate::plugins::auto::{AutoParser, auto_result};
use crate::plugins::docker_json::{DockerJsonParser, docker_parse_result};
use crate::plugins::filters::docker_wants;
use crate::plugins::mybatis::{MyBatisParser, mybatis_parse_result};
use crate::plugins::raw::{RawParser, raw_result};
use crate::plugins::springboot::{SpringBootParser, springboot_detected, springboot_lines};
use crate::text::{append_str, chars_of, eq_str, lines_of, own, seq_contains, string_of};

verus! {

/// The parsers a manager holds.
#[derive(Clone, Copy, Debug, PartialEq, Eq, Structural)]
pub enum ParserKind {
    Auto,
    MyBatis,
    DockerJson,
    SpringBoot,
    Raw,
}

pub open spec fn parser_name(k: ParserKind) -> Seq<char> {
    match k {
        ParserKind::Auto => "auto"@,
        ParserKind::MyBatis => "mybatis"@,
        ParserKind::DockerJson => "docker_json"@,
        ParserKind::SpringBoot => "springboot"@,
        ParserKind::Raw => "raw"@,
    }
}

/// What the Spring Boot parser makes of a text.
pub open spec fn springboot_result(content: Seq<char>) -> ResultView {
    ResultView {
        lines: springboot_lines(content),
        total_lines: lines_of(content).len(),
        detected_format: Some("springboot"@),
        parsing_errors: Seq::empty(),
    }
}

/// What a parser says it is for.
pub open spec fn parser_description(k: ParserKind) -> Seq<char> {
    match k {
        ParserKind::Auto => "自动检测日志格式"@,
        ParserKind::MyBatis => "MyBatis SQL 日志解析器"@,
        ParserKind::DockerJson => "Docker JSON 日志解析器"@,
        ParserKind::SpringBoot => "Spring Boot 应用日志解析器"@,
        ParserKind::Raw => "原始文本日志解析器"@,
    }
}

/// The file extensions a parser is meant for.
pub open spec fn parser_extensions(k: ParserKind) -> Seq<Seq<char>> {
    match k {
        ParserKind::Auto => seq!["*"@],
        ParserKind::MyBatis => seq!["log"@, "txt"@],
        ParserKind::DockerJson => seq!["json"@, "log"@],
        ParserKind::SpringBoot => seq!["log"@, "txt"@, "out"@],
        ParserKind::Raw => seq!["log"@, "txt"@, "out"@],
    }
}

/// What a parser makes of a text.
pub open spec fn parser_result(k: ParserKind, content: Seq<char>) -> ResultView {
    match k {
        ParserKind::Auto => auto_result(content),
        ParserKind::MyBatis => mybatis_parse_result(content),
        ParserKind::DockerJson => docker_parse_result(content),
        ParserKind::SpringBoot => springboot_result(content),
        ParserKind::Raw => raw_result(content),
    }
}

/// Whether a parser takes a text as its own format.
pub open spec fn parser_accepts(k: ParserKind, content: Seq<char>) -> bool {
    match k {
        ParserKind::MyBatis => {
            let lc = lowercase_of(content);
            seq_contains(lc, "mybatis"@) || seq_contains(lc, "preparing:"@) || seq_contains(lc, "parameters:"@)
        },
        ParserKind::DockerJson => lines_of(content).len() > 0 && docker_wants(lines_of(content)[0]),
        ParserKind::SpringBoot => springboot_detected(content),
        _ => true,
    }
}

/// A result with another detected format.
pub open spec fn detected_as(r: ResultView, name: Seq<char>) -> ResultView {
    ResultView { detected_format: Some(name), ..r }
}

/// The index of the parser named `name`.
pub open spec fn parser_index(ks: Seq<ParserKind>, name: Seq<char>) -> Option<int>
    decreases ks.len(),
{
    if ks.len() == 0 {
        None
    } else {
        match parser_index(ks.drop_last(), name) {
            Some(i) => Some(i),
            None => if parser_name(ks.last()) == name {
                Some(ks.len() - 1)
            } else {
                None
            },
        }
    }
}

/// The first parser from index `i` on, other than `auto` and `raw`, that takes the text.
pub open spec fn first_accepting(ks: Seq<ParserKind>, content: Seq<char>, i: int) -> Option<int>
    decreases ks.len() - i,
{
    if i < 0 || i >= ks.len() {
        None
    } else if ks[i] != ParserKind::Auto && ks[i] != ParserKind::Raw && parser_accepts(ks[i], content) {
        Some(i)
    } else {
        first_accepting(ks, content, i + 1)
    }
}

/// What automatic detection yields: the first parser that takes the text, else
/// `auto`, else `raw`, the result naming the parser that made it.
pub open spec fn detection_result(ks: Seq<ParserKind>, content: Seq<char>) -> Option<ResultView> {
    match first_accepting(ks, content, 0) {
        Some(i) => Some(detected_as(parser_result(ks[i], content), parser_name(ks[i]))),
        None => match parser_index(ks, "auto"@) {
            Some(_) => Some(detected_as(auto_result(content), "auto"@)),
            None => match parser_index(ks, "raw"@) {
                Some(_) => Some(detected_as(raw_result(content), "raw"@)),
                None => None,
            },
        },
    }
}

/// The parsers, each under its name.
pub struct PluginManager {
    parsers: Vec<ParserKind>,
}

impl View for PluginManager {
    type V = Seq<ParserKind>;

    closed spec fn view(&self) -> Seq<ParserKind> {
        self.parsers@
    }
}

impl ParserKind {
    pub fn name(&self) -> (r: &'static str)
        ensures
            r@ == parser_name(*self),
    {
        match self {
            ParserKind::Auto => "auto",
            ParserKind::MyBatis => "mybatis",
            ParserKind::DockerJson => "docker_json",
            ParserKind::SpringBoot => "springboot",
            ParserKind::Raw => "raw",
        }
    }

    /// What the parser tells about itself.
    pub fn info(&self) -> (r: PluginInfo)
        ensures
            r.name@ == parser_name(*self),
            r.description@ == parser_description(*self),
            sv(r.supported_extensions@) == parser_extensions(*self),
            r.auto_detectable,
    {
        let (d, e) = match self {
            ParserKind::Auto => (AutoParser.description(), AutoParser.supported_extensions()),
            ParserKind::MyBatis => (MyBatisParser.description(), MyBatisParser.supported_extensions()),
            ParserKind::DockerJson => (DockerJsonParser.description(), DockerJsonParser.supported_extensions()),
            ParserKind::SpringBoot => (SpringBootParser.description(), SpringBootParser.supported_extensions()),
            ParserKind::Raw => (RawParser.description(), RawParser.supported_extensions()),
        };
        PluginInfo { name: own(self.name()), description: own(d), supported_extensions: e, auto_detectable: true }
    }

    pub fn can_parse(&self, content: &str, file_path: Option<&str>) -> (b: bool)
        ensures
            b == parser_accepts(*self, content@),
    {
        match self {
            ParserKind::Auto => AutoParser.can_parse(content, file_path),
            ParserKind::MyBatis => MyBatisParser.can_parse(content, file_path),
            ParserKind::DockerJson => DockerJsonParser.can_parse(content, file_path),
            ParserKind::SpringBoot => SpringBootParser.can_parse(content, file_path),
            ParserKind::Raw => RawParser.can_parse(content, file_path),
        }
    }

    /// Parses a text; the parsers never fail.
    pub fn parse(&self, content: &str, request: &ParseRequest) -> (r: Result<ParseResult, String>)
        ensures
            r matches Ok(res) && res@ == parser_result(*self, content@) && lines_wf(res.lines@),
    {
        match self {
            ParserKind::Auto => AutoParser.parse(content, request),
            ParserKind::MyBatis => MyBatisParser.parse(content, request),
            ParserKind::DockerJson => DockerJsonParser.parse(content, request),
            ParserKind::SpringBoot => {
                let r = SpringBootParser.parse(content, request);
                match r {
                    Ok(res) => {
                        assert(res@ =~= springboot_result(content@));
                        Ok(res)
                    },
                    Err(e) => Err(e),
                }
            },
            ParserKind::Raw => RawParser.parse(content, request),
        }
    }
}

impl PluginManager {
    /// The parsers a new manager holds.
    pub open spec fn new_spec() -> Seq<ParserKind> {
        seq![ParserKind::Auto, ParserKind::MyBatis, ParserKind::DockerJson, ParserKind::SpringBoot, ParserKind::Raw]
    }

    /// The parsers `auto`, `mybatis`, `docker_json`, `springboot` and `raw`, in this order.
    pub fn new() -> (r: PluginManager)
        ensures
            r@ == Self::new_spec(),
    {
        let parsers = vec![
            ParserKind::Auto,
            ParserKind::MyBatis,
            ParserKind::DockerJson,
            ParserKind::SpringBoot,
            ParserKind::Raw,
        ];
        PluginManager { parsers }
    }

    /// What each parser tells about itself, in the order of the parsers.
    pub fn get_available_plugins(&self) -> (r: Vec<PluginInfo>)
        ensures
            r@.len() == self@.len(),
            forall|i: int| 0 <= i < r@.len() ==> {
                &&& (#[trigger] r@[i]).name@ == parser_name(self@[i])
                &&& r@[i].description@ == parser_description(self@[i])
                &&& sv(r@[i].supported_extensions@) == parser_extensions(self@[i])
                &&& r@[i].auto_detectable
            },
    {
        let mut r: Vec<PluginInfo> = Vec::new();
        let mut i: usize = 0;
        while i < self.parsers.len()
            invariant
                i <= self.parsers@.len(),
                r@.len() == i,
                forall|k: int| 0 <= k < i ==> {
                    &&& (#[trigger] r@[k]).name@ == parser_name(self@[k])
                    &&& r@[k].description@ == parser_description(self@[k])
                    &&& sv(r@[k].supported_extensions@) == parser_extensions(self@[k])
                    &&& r@[k].auto_detectable
                },
            decreases self.parsers.len() - i,
        {
            r.push(self.parsers[i].info());
            i = i + 1;
        }
        r
    }

    fn position(&self, name: &str) -> (r: Option<usize>)
        ensures
            match r {
                Some(i) => parser_index(self@, name@) == Some(i as int) && i < self@.len(),
                None => parser_index(self@, name@) is None,
            },
    {
        let ghost ks = self@;
        let nc = chars_of(name);
        let mut i: usize = 0;
        while i < self.parsers.len()
            invariant
                i <= self.parsers@.len(),
                ks == self@,
                ks == self.parsers@,
                nc@ == name@,
                parser_index(ks.take(i as int), name@) is None,
            decreases self.parsers.len() - i,
        {
            assert(ks.take(i as int + 1).drop_last() =~= ks.take(i as int));
            let pn = chars_of(self.parsers[i].name());
            if eq_str(&pn, name) {
                assert(parser_index(ks.take(i as int + 1), name@) == Some(i as int));
                proof {
                    lemma_parser_index_prefix(ks, name@, i as int + 1);
                }
                return Some(i);
            }
            i = i + 1;
        }
        assert(ks.take(ks.len() as int) =~= ks);
        None
    }

    /// Parses with the parser named `plugin_name`, or fails when there is none.
    pub fn parse_with_plugin(&self, plugin_name: &str, request: &ParseRequest) -> (r: Result<ParseResult, String>)
        ensures
            match parser_index(self@, plugin_name@) {
                Some(i) => r matches Ok(res) && res@ == parser_result(self@[i], request.content@) && lines_wf(res.lines@),
                None => r matches Err(m) && m@ == "Plugin '"@ + plugin_name@ + "' not found"@,
            },
    {
        match self.position(plugin_name) {
            Some(i) => self.parsers[i].parse(request.content.as_str(), request),
            None => {
                let mut m = chars_of("Plugin '");
                append_str(&mut m, plugin_name);
                append_str(&mut m, "' not found");
                Err(string_of(&m))
            },
        }
    }

    /// Parses with the first specialised parser that takes the text, else with
    /// `auto`, else with `raw` (see `detection_result`).
    pub fn auto_detect_and_parse(&self, request: &ParseRequest) -> (r: Result<ParseResult, String>)
        ensures
            match detection_result(self@, request.content@) {
                Some(v) => r matches Ok(res) && res@ == v && lines_wf(res.lines@),
                None => r matches Err(m) && m@ == "No suitable parser found"@,
            },
    {
        let content = request.content.as_str();
        let path: Option<&str> = match &request.file_path {
            Some(p) => Some(p.as_str()),
            None => None,
        };
        let ghost ks = self@;
        let mut i: usize = 0;
        while i < self.parsers.len()
            invariant
                i <= self.parsers@.len(),
                ks == self@,
                ks == self.parsers@,
                content@ == request.content@,
                first_accepting(ks, content@, 0) == first_accepting(ks, content@, i as int),
            decreases self.parsers.len() - i,
        {
            let k = self.parsers[i];
            if k != ParserKind::Auto && k != ParserKind::Raw && k.can_parse(content, path) {
                let r = k.parse(content, request);
                match r {
                    Ok(mut res) => {
                        res.detected_format = Some(own(k.name()));
                        assert(res@ =~= detected_as(parser_result(k, content@), parser_name(k)));
                        return Ok(res);
                    },
                    Err(e) => {
                        return Err(e);
                    },
                }
            }
            i = i + 1;
        }
        match self.position("auto") {
            Some(_) => {
                let r = AutoParser.parse(content, request);
                match r {
                    Ok(mut res) => {
                        res.detected_format = Some(own("auto"));
                        assert(res@ =~= detected_as(auto_result(content@), "auto"@));
                        return Ok(res);
                    },
                    Err(e) => {
                        return Err(e);
                    },
                }
            },
            None => {},
        }
        match self.position("raw") {
            Some(_) => {
                let r = RawParser.parse(content, request);
                match r {
                    Ok(mut res) => {
                        res.detected_format = Some(own("raw"));
                        assert(res@ =~= detected_as(raw_result(content@), "raw"@));
                        Ok(res)
                    },
                    Err(e) => Err(e),
                }
            },
            None => Err(own("No suitable parser found")),
        }
    }
}

impl Default for PluginManager {
    fn default() -> (r: PluginManager)
        ensures
            r@ == seq![ParserKind::Auto, ParserKind::MyBatis, ParserKind::DockerJson, ParserKind::SpringBoot, ParserKind::Raw],
    {
        PluginManager::new()
    }
}

proof fn lemma_parser_index_prefix(ks: Seq<ParserKind>, name: Seq<char>, n: int)
    requires
        0 <= n <= ks.len(),
        parser_index(ks.take(n), name) is Some,
    ensures
        parser_index(ks, name) == parser_index(ks.take(n), name),
    decreases ks.len() - n,
{
    if n < ks.len() {
        assert(ks.take(n + 1).drop_last() =~= ks.take(n));
        lemma_parser_index_prefix(ks, name, n + 1);
    } else {
        assert(ks.take(n) =~= ks);
    }
}

} // verus!

verus! {

/// Every parser gives one line per line of the text, numbered from 1, and
/// counts the lines of the text.
pub proof fn lemma_parsers_keep_every_line(k: ParserKind, content: Seq<char>)
    ensures
        parser_result(k, content).lines.len() == lines_of(content).len(),
        parser_result(k, content).total_lines == lines_of(content).len(),
        forall|i: int| 0 <= i < lines_of(content).len() ==> (#[trigger] parser_result(k, content).lines[i]).line_number == i + 1,
{
}

/// Every parser names its own format as the detected one, and automatic
/// detection names the parser it used.
pub proof fn lemma_detection_names_parser(ks: Seq<ParserKind>, content: Seq<char>)
    ensures
        forall|k: ParserKind| #[trigger] parser_result(k, content).detected_format == Some(parser_name(k)),
        match first_accepting(ks, content, 0) {
            Some(i) => detection_result(ks, content) == Some(detected_as(parser_result(ks[i], content), parser_name(ks[i]))),
            None => true,
        },
{
}

/// With the parsers of a new manager, detection always succeeds: MyBatis text goes
/// to the MyBatis parser, else a Docker JSON first line to the Docker parser, else
/// Spring Boot text to the Spring Boot parser, and anything else to `auto`; the
/// result names the parser that made it.
pub proof fn lemma_default_detection(content: Seq<char>)
    ensures
        detection_result(PluginManager::new_spec(), content) == Some(
            if parser_accepts(ParserKind::MyBatis, content) {
                mybatis_parse_result(content)
            } else if parser_accepts(ParserKind::DockerJson, content) {
                docker_parse_result(content)
            } else if parser_accepts(ParserKind::SpringBoot, content) {
                springboot_result(content)
            } else {
                auto_result(content)
            },
        ),
{
    let ks = PluginManager::new_spec();
    reveal_with_fuel(first_accepting, 6);
    reveal_with_fuel(parser_index, 6);
    assert(ks[0] == ParserKind::Auto);
    assert(ks[1] == ParserKind::MyBatis);
    assert(ks[2] == ParserKind::DockerJson);
    assert(ks[3] == ParserKind::SpringBoot);
    assert(ks[4] == ParserKind::Raw);
    assert(ks.drop_last().drop_last().drop_last().drop_last() =~= seq![ParserKind::Auto]);
    assert(seq![ParserKind::Auto].drop_last() =~= Seq::<ParserKind>::empty());
    assert(parser_index(seq![ParserKind::Auto], "auto"@) == Some(0int));
    assert(parser_index(ks, "auto"@) is Some);
    let r = detection_result(ks, content);
    if parser_accepts(ParserKind::MyBatis, content) {
        assert(first_accepting(ks, content, 0) == Some(1int));
        assert(detected_as(mybatis_parse_result(content), "mybatis"@) =~= mybatis_parse_result(content));
    } else if parser_accepts(ParserKind::DockerJson, content) {
        assert(first_accepting(ks, content, 0) == Some(2int));
        assert(detected_as(docker_parse_result(content), "docker_json"@) =~= docker_parse_result(content));
    } else if parser_accepts(ParserKind::SpringBoot, content) {
        assert(first_accepting(ks, content, 0) == Some(3int));
        assert(detected_as(springboot_result(content), "springboot"@) =~= springboot_result(content));
    } else {
        assert(first_accepting(ks, content, 0) is None);
        assert(detected_as(auto_result(content), "auto"@) =~= auto_result(content));
    }
}

} // verus!
