//! The kinds, priorities and states of plugins, and what a plugin tells about itself.
use vstd::prelude::*;
use crate::models::RenderedBlock;
use crate::plugins::LogEntry;
use crate::text::own;

verus! {

/// Counts of a filtering run.
#[derive(Debug, Clone)]
pub struct FilterStats {
    pub original_count: usize,
    pub filtered_count: usize,
    pub removed_count: usize,
    pub filter_rules: Vec<String>,
}

/// `serde_json::Value`, the configuration a renderer may take.
#[verifier::external_type_specification]
#[verifier::external_body]
pub struct ExJsonValue(serde_json::Value);

/// A plugin that turns a log line into rendered blocks.
pub trait LogRenderer {
    /// Whether the renderer has something to show for the line.
    fn can_handle(&self, entry: &LogEntry) -> bool;

    /// The blocks shown for the line.
    fn render(&self, entry: &LogEntry) -> Vec<RenderedBlock>;

    fn name(&self) -> &str;

    fn description(&self) -> &str;

    /// Renderers with a lower number are tried first.
    fn priority(&self) -> u32;

    fn version(&self) -> (r: &str)
        default_ensures
            r@ == "1.0.0"@,
    {
        "1.0.0"
    }

    fn is_enabled(&self) -> (b: bool)
        default_ensures
            b,
    {
        true
    }

    fn set_enabled(&mut self, enabled: bool) {
    }

    /// The renderer's configuration; none unless a renderer has one.
    fn get_config(&self) -> (r: Option<serde_json::Value>)
        default_ensures
            r is None,
    {
        None
    }

    /// Takes a configuration; accepted and ignored unless a renderer has one.
    fn set_config(&mut self, config: serde_json::Value) -> (r: Result<(), String>)
        default_ensures
            r is Ok,
    {
        Ok(())
    }
}

/// Set-up and tear-down of a plugin; each step succeeds unless a plugin says otherwise.
pub trait PluginLifecycle {
    fn initialize(&mut self) -> (r: Result<(), String>)
        default_ensures
            r is Ok,
    {
        Ok(())
    }

    fn cleanup(&mut self) -> (r: Result<(), String>)
        default_ensures
            r is Ok,
    {
        Ok(())
    }

    fn reset(&mut self) -> (r: Result<(), String>)
        default_ensures
            r is Ok,
    {
        Ok(())
    }
}

/// What a plugin can take and what it costs; any file type, no size limit and
/// medium costs unless a plugin says otherwise.
pub trait PluginCapabilities {
    fn supported_file_types(&self) -> (r: Vec<String>)
        default_ensures
            r@.len() == 1 && r@[0]@ == "*"@,
    {
        let mut v: Vec<String> = Vec::new();
        v.push(own("*"));
        v
    }

    fn max_file_size(&self) -> (r: Option<usize>)
        default_ensures
            r is None,
    {
        None
    }

    fn performance_rating(&self) -> (r: PerformanceRating)
        default_ensures
            r == PerformanceRating::Medium,
    {
        PerformanceRating::Medium
    }

    fn memory_usage_rating(&self) -> (r: MemoryUsageRating)
        default_ensures
            r == MemoryUsageRating::Medium,
    {
        MemoryUsageRating::Medium
    }
}

/// What a plugin does.
#[derive(Debug, Clone, Copy, PartialEq, Eq, Structural)]
pub enum PluginType {
    Renderer,
    Analyzer,
    Correlator,
    Navigator,
    Filter,
}

pub open spec fn plugin_type_range(t: PluginType) -> (u32, u32) {
    match t {
        PluginType::Renderer => (1, 100),
        PluginType::Analyzer => (101, 200),
        PluginType::Correlator => (201, 300),
        PluginType::Navigator => (301, 400),
        PluginType::Filter => (401, 500),
    }
}

impl PluginType {
    pub fn description(&self) -> (r: &'static str)
        ensures
            r@ == match *self {
                PluginType::Renderer => "日志内容渲染和显示"@,
                PluginType::Analyzer => "日志数据分析和挖掘"@,
                PluginType::Correlator => "日志关联和聚合分析"@,
                PluginType::Navigator => "日志导航和索引"@,
                PluginType::Filter => "日志过滤和筛选"@,
            },
    {
        match self {
            PluginType::Renderer => "日志内容渲染和显示",
            PluginType::Analyzer => "日志数据分析和挖掘",
            PluginType::Correlator => "日志关联和聚合分析",
            PluginType::Navigator => "日志导航和索引",
            PluginType::Filter => "日志过滤和筛选",
        }
    }

    /// The priorities a plugin of this type takes by default: consecutive blocks of
    /// one hundred, renderers first.
    pub fn default_priority_range(&self) -> (r: (u32, u32))
        ensures
            r == plugin_type_range(*self),
    {
        match self {
            PluginType::Renderer => (1, 100),
            PluginType::Analyzer => (101, 200),
            PluginType::Correlator => (201, 300),
            PluginType::Navigator => (301, 400),
            PluginType::Filter => (401, 500),
        }
    }
}

/// Execution priority, from 1 (low) to 4 (very high).
#[derive(Debug, Clone, Copy, PartialEq, Eq, Structural, PartialOrd, Ord)]
pub enum Priority {
    Low,
    Medium,
    High,
    VeryHigh,
}

pub open spec fn priority_value(p: Priority) -> u32 {
    match p {
        Priority::Low => 1,
        Priority::Medium => 2,
        Priority::High => 3,
        Priority::VeryHigh => 4,
    }
}

impl Priority {
    pub fn as_u32(&self) -> (r: u32)
        ensures
            r == priority_value(*self),
    {
        match self {
            Priority::Low => 1,
            Priority::Medium => 2,
            Priority::High => 3,
            Priority::VeryHigh => 4,
        }
    }

    /// The priority with this value; every value above 3 or equal to 0 is `VeryHigh`.
    pub fn from_u32(value: u32) -> (r: Priority)
        ensures
            r == (if value == 1 {
                Priority::Low
            } else if value == 2 {
                Priority::Medium
            } else if value == 3 {
                Priority::High
            } else {
                Priority::VeryHigh
            }),
    {
        match value {
            1 => Priority::Low,
            2 => Priority::Medium,
            3 => Priority::High,
            _ => Priority::VeryHigh,
        }
    }
}

/// A priority read back from its value is the same priority.
pub proof fn lemma_priority_round_trip(p: Priority)
    ensures
        1 <= priority_value(p) <= 4,
        (if priority_value(p) == 1 {
            Priority::Low
        } else if priority_value(p) == 2 {
            Priority::Medium
        } else if priority_value(p) == 3 {
            Priority::High
        } else {
            Priority::VeryHigh
        }) == p,
{
}

#[derive(Debug, Clone, Copy, PartialEq, Eq, Structural)]
pub enum PerformanceRating {
    Low,
    Medium,
    High,
    VeryHigh,
}

#[derive(Debug, Clone, Copy, PartialEq, Eq, Structural)]
pub enum MemoryUsageRating {
    Low,
    Medium,
    High,
    VeryHigh,
}

/// The state of a plugin.
#[derive(Debug, Clone)]
pub enum PluginStatus {
    Uninitialized,
    Initialized,
    Running,
    Stopped,
    Error(String),
}

/// What a plugin tells about itself.
#[derive(Debug, Clone)]
pub struct PluginInfo {
    pub name: String,
    pub description: String,
    pub version: String,
    pub author: String,
    pub status: PluginStatus,
    pub priority: u32,
    pub enabled: bool,
    pub plugin_type: PluginType,
}

impl PluginInfo {
    /// An enabled, uninitialised plugin at the lowest default priority of its type.
    pub fn new(name: String, description: String, version: String, author: String, plugin_type: PluginType) -> (r: PluginInfo)
        ensures
            r.name@ == name@,
            r.description@ == description@,
            r.version@ == version@,
            r.author@ == author@,
            r.status is Uninitialized,
            r.priority == plugin_type_range(plugin_type).0,
            r.enabled,
            r.plugin_type == plugin_type,
    {
        let priority = plugin_type.default_priority_range().0;
        PluginInfo {
            name,
            description,
            version,
            author,
            status: PluginStatus::Uninitialized,
            priority,
            enabled: true,
            plugin_type,
        }
    }

    /// A renderer (see `new`).
    pub fn new_renderer(name: String, description: String, version: String, author: String) -> (r: PluginInfo)
        ensures
            r.name@ == name@,
            r.description@ == description@,
            r.version@ == version@,
            r.author@ == author@,
            r.status is Uninitialized,
            r.priority == 1,
            r.enabled,
            r.plugin_type == PluginType::Renderer,
    {
        Self::new(name, description, version, author, PluginType::Renderer)
    }

    pub fn with_priority(self, priority: u32) -> (r: PluginInfo)
        ensures
            r == (PluginInfo { priority, ..self }),
    {
        let mut s = self;
        s.priority = priority;
        s
    }

    pub fn with_enabled(self, enabled: bool) -> (r: PluginInfo)
        ensures
            r == (PluginInfo { enabled, ..self }),
    {
        let mut s = self;
        s.enabled = enabled;
        s
    }

    pub fn update_status(&mut self, status: PluginStatus)
        ensures
            *final(self) == (PluginInfo { status, ..*old(self) }),
    {
        self.status = status;
    }

    /// Enabled and not in the error state with an empty message.
    pub fn is_available(&self) -> (b: bool)
        ensures
            b == (self.enabled && !(self.status matches PluginStatus::Error(m) && m@.len() == 0)),
    {
        let empty_error = match &self.status {
            PluginStatus::Error(m) => crate::text::chars_of(m.as_str()).len() == 0,
            _ => false,
        };
        self.enabled && !empty_error
    }
}


/// What a renderer produced for a line, or why it produced nothing. The confidence
/// is given in percent.
#[derive(Debug, Clone)]
pub struct PluginResult {
    pub success: bool,
    pub blocks: Vec<RenderedBlock>,
    pub process_time_ms: u64,
    pub error: Option<String>,
    pub confidence_percent: u32,
}

impl PluginResult {
    /// A successful result with its blocks.
    pub fn success(blocks: Vec<RenderedBlock>, process_time_ms: u64, confidence_percent: u32) -> (r: PluginResult)
        ensures
            r.success,
            r.blocks@ == blocks@,
            r.process_time_ms == process_time_ms,
            r.error is None,
            r.confidence_percent == confidence_percent,
    {
        PluginResult { success: true, blocks, process_time_ms, error: None, confidence_percent }
    }

    /// A failed result: no blocks, the error, confidence 0.
    pub fn error(error: String, process_time_ms: u64) -> (r: PluginResult)
        ensures
            !r.success,
            r.blocks@.len() == 0,
            r.process_time_ms == process_time_ms,
            r.error == Some(error),
            r.confidence_percent == 0,
    {
        PluginResult { success: false, blocks: Vec::new(), process_time_ms, error: Some(error), confidence_percent: 0 }
    }

    pub fn has_blocks(&self) -> (b: bool)
        ensures
            b == (self.blocks@.len() > 0),
    {
        self.blocks.len() > 0
    }

    pub fn block_count(&self) -> (n: usize)
        ensures
            n == self.blocks@.len(),
    {
        self.blocks.len()
    }
}

} // verus!
