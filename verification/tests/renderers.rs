use log_whisper::metadata::Metadata;
use log_whisper::models::{BlockContent, BlockMetadata};
use log_whisper::plugins::error_highlighter::ErrorHighlighterRenderer;
use log_whisper::plugins::json_repair::JsonRepairRenderer;
use log_whisper::plugins::trait_def::{
    LogRenderer, MemoryUsageRating, PerformanceRating, PluginCapabilities, PluginLifecycle, PluginResult,
};
use log_whisper::plugins::LogLine;

fn entry(n: usize, content: &str) -> LogLine {
    LogLine {
        line_number: n,
        content: content.to_string(),
        level: None,
        timestamp: None,
        formatted_content: None,
        metadata: Metadata::new(),
        processed_by: vec![],
    }
}

fn meta(n: usize, len: usize, confidence_percent: u32) -> Option<BlockMetadata> {
    Some(BlockMetadata { line_start: n, line_end: n, char_start: 0, char_end: len, confidence_percent })
}

#[test]
fn highlighter_marks_first_error_word() {
    let h = ErrorHighlighterRenderer::new();
    let e = entry(3, "Request failed with ERROR code");
    assert!(h.can_handle(&e));
    let blocks = h.render(&e);
    assert_eq!(blocks.len(), 1);
    assert_eq!(blocks[0].id, "error_3");
    match &blocks[0].content {
        BlockContent::Error { message } => assert_eq!(message, "错误: failed"),
        _ => panic!("expected an error block"),
    }
    assert_eq!(blocks[0].metadata, meta(3, 30, 90));
}

#[test]
fn highlighter_marks_warnings_when_no_error() {
    let h = ErrorHighlighterRenderer::new();
    let e = entry(8, "Deprecated API used");
    let blocks = h.render(&e);
    assert_eq!(blocks.len(), 1);
    assert_eq!(blocks[0].id, "warning_8");
    match &blocks[0].content {
        BlockContent::Warning { message } => assert_eq!(message, "警告: Deprecated"),
        _ => panic!("expected a warning block"),
    }
    assert_eq!(blocks[0].metadata, meta(8, 19, 80));
}

#[test]
fn highlighter_ignores_quiet_lines_and_can_be_switched_off() {
    let mut h = ErrorHighlighterRenderer::new();
    let quiet = entry(1, "all good");
    assert!(!h.can_handle(&quiet));
    assert!(h.render(&quiet).is_empty());
    let loud = entry(2, "fatal crash");
    assert!(h.can_handle(&loud));
    h.set_enabled(false);
    assert!(!h.is_enabled());
    assert!(!h.can_handle(&loud));
    assert_eq!(h.render(&loud).len(), 1);
    assert!(h.initialize().is_ok());
    assert!(h.cleanup().is_ok());
    assert_eq!(h.priority(), 5);
    assert_eq!(h.name(), "Error Highlighter");
    assert_eq!(h.supported_file_types(), vec!["*".to_string()]);
    assert_eq!(h.max_file_size(), None);
    assert_eq!(h.performance_rating(), PerformanceRating::VeryHigh);
    assert_eq!(h.memory_usage_rating(), MemoryUsageRating::Low);
}

#[test]
fn json_repair_formats_valid_json() {
    let r = JsonRepairRenderer::new();
    let e = entry(1, "data {\"a\":1}");
    assert!(r.can_handle(&e));
    let blocks = r.render(&e);
    assert_eq!(blocks.len(), 1);
    assert_eq!(blocks[0].id, "json_1");
    match &blocks[0].content {
        BlockContent::Json { original, formatted } => {
            assert_eq!(original, "{\"a\":1}");
            assert_eq!(formatted, "{\n  \"a\": 1\n}");
        },
        _ => panic!("expected a JSON block"),
    }
    assert_eq!(blocks[0].metadata, meta(1, 12, 100));
}

#[test]
fn json_repair_quotes_bare_keys() {
    let r = JsonRepairRenderer::new();
    let blocks = r.render(&entry(4, "payload {a:1}"));
    assert_eq!(blocks.len(), 1);
    assert_eq!(blocks[0].id, "json_repaired_4");
    match &blocks[0].content {
        BlockContent::Json { original, formatted } => {
            assert_eq!(original, "{a:1}");
            assert_eq!(formatted, "{\n  \"a\": 1\n}");
        },
        _ => panic!("expected a JSON block"),
    }
    assert_eq!(blocks[0].metadata, meta(4, 13, 80));
}

#[test]
fn json_repair_reports_what_it_cannot_repair() {
    let r = JsonRepairRenderer::new();
    let blocks = r.render(&entry(2, "x {\"a\": }"));
    assert_eq!(blocks.len(), 1);
    assert_eq!(blocks[0].id, "json_error_2");
    match &blocks[0].content {
        BlockContent::Error { message } => assert_eq!(message, "JSON解析失败: {\"a\": }"),
        _ => panic!("expected an error block"),
    }
    assert_eq!(blocks[0].metadata, meta(2, 9, 0));
}

#[test]
fn json_repair_without_json() {
    let mut r = JsonRepairRenderer::new();
    let e = entry(1, "plain text");
    assert!(!r.can_handle(&e));
    assert!(r.render(&e).is_empty());
    r.set_enabled(false);
    assert!(!r.can_handle(&entry(1, "{}")));
    assert!(r.initialize().is_ok());
    assert_eq!(r.priority(), 20);
    assert_eq!(r.version(), "1.0.0");
    assert_eq!(r.max_file_size(), Some(100 * 1024 * 1024));
    assert_eq!(r.supported_file_types(), vec!["log".to_string(), "txt".to_string(), "json".to_string()]);
    assert_eq!(r.performance_rating(), PerformanceRating::High);
    assert_eq!(r.memory_usage_rating(), MemoryUsageRating::Medium);
}

#[test]
fn plugin_results() {

    let blocks = ErrorHighlighterRenderer::new().render(&entry(1, "fatal"));
    let ok = PluginResult::success(blocks, 3, 80);
    assert!(ok.success && ok.has_blocks());
    assert_eq!(ok.block_count(), 1);
    assert_eq!(ok.confidence_percent, 80);
    let failed = PluginResult::error("No plugin available".to_string(), 2);
    assert!(!failed.success && !failed.has_blocks());
    assert_eq!(failed.error, Some("No plugin available".to_string()));
    assert_eq!(failed.confidence_percent, 0);
}

#[test]
fn unclosed_brackets_are_closed() {
    let r = JsonRepairRenderer::new();
    assert_eq!(r.fix_unclosed_brackets("{\"a\":[1,{\"b\":2"), "{\"a\":[1,{\"b\":2}}]");
    assert_eq!(r.fix_unclosed_brackets("{}}"), "{}}");
    assert_eq!(r.fix_unclosed_brackets("[[["), "[[[]]]");
    let closed = r.fix_unclosed_brackets("{{[");
    let count = |c: char| closed.chars().filter(|&x| x == c).count();
    assert!(count('{') <= count('}') && count('[') <= count(']'));
}
