use log_whisper::plugins::chain::{PluginChainContext, PluginFilter};
use log_whisper::plugins::filters::{
    ContentEnhancerFilter, DockerJsonFilter, JavaLogFilter, JsonStructureFilter, MyBatisFilter, SpringBootFilter,
};
use log_whisper::plugins::{LogLine, ParseRequest};
use log_whisper::metadata::Metadata;

fn line(n: usize, content: &str) -> LogLine {
    LogLine {
        line_number: n,
        content: content.to_string(),
        level: None,
        timestamp: None,
        formatted_content: None,
        metadata: Metadata::new(),
        processed_by: vec![],
    }
}

#[test]
fn test_application_log_format() {
    let filter = SpringBootFilter;
    let log_content = r#"2025-10-15T07:40:55.169Z  INFO 1 --- [  EventHandler1] s.i.ProjectAttributeTemplateEventSpiImpl : ProjectAttributeTemplateEventSpiImpl 收到事件，objectName:Document number:136"#;
    let mut context = PluginChainContext::new(log_content.to_string());
    let mut request = ParseRequest::new();
    request.content = log_content.to_string();

    assert!(filter.should_process(&context));
    let result = filter.process(&mut context, &request);
    assert!(result.is_ok());
    assert_eq!(context.current_lines.len(), 1);
    let line = &context.current_lines[0];
    assert!(line.timestamp.is_some());
    assert!(line.level.is_some());
    assert!(line.metadata.contains_key("thread"));
    assert!(line.metadata.contains_key("logger"));
}

#[test]
fn filters_test_regex_pattern_directly() {
    let pattern = r"^(\d{4}-\d{2}-\d{2}[T\s]\d{2}:\d{2}:\d{2}[.,]\d{3}(?:Z)?)\s+([A-Z]+)\s+(?:\d+\s+---\s+)?\[\s*([^\]]+)\s*\]\s+([^\s:]+)\s*:\s*(.*)$";
    let regex = regex::Regex::new(pattern).unwrap();
    let test_line = "2025-10-15T07:40:55.169Z  INFO 1 --- [  EventHandler1] s.i.ProjectAttributeTemplateEventSpiImpl : ProjectAttributeTemplateEventSpiImpl 收到事件，objectName:Document number:136";
    if let Some(captures) = regex.captures(test_line) {
        assert_eq!(captures.len(), 6);
        assert_eq!(captures.get(1).unwrap().as_str(), "2025-10-15T07:40:55.169Z");
        assert_eq!(captures.get(2).unwrap().as_str(), "INFO");
        assert_eq!(captures.get(3).unwrap().as_str(), "EventHandler1");
        assert_eq!(captures.get(4).unwrap().as_str(), "s.i.ProjectAttributeTemplateEventSpiImpl");
        assert_eq!(
            captures.get(5).unwrap().as_str(),
            "ProjectAttributeTemplateEventSpiImpl 收到事件，objectName:Document number:136"
        );
    } else {
        panic!("❌ Regex匹配失败");
    }
}

#[test]
fn springboot_test_test_regex_pattern_directly() {
    let pattern = r"^(\d{4}-\d{2}-\d{2}[T\s]\d{2}:\d{2}:\d{2}[.,]\d{3}(?:Z)?)\s+([A-Z]+)\s+(?:\d+\s+---\s+)?\[\s*([^\]]+)\s*\]\s+([^\s:]+)\s*:\s*(.*)$";
    let regex = regex::Regex::new(pattern).unwrap();
    let test_line = "2025-10-15T07:40:55.169Z  INFO 1 --- [  EventHandler1] s.i.ProjectAttributeTemplateEventSpiImpl : ProjectAttributeTemplateEventSpiImpl 收到事件，objectName:Document number:136";
    if let Some(captures) = regex.captures(test_line) {
        assert_eq!(captures.len(), 6);
        assert_eq!(captures.get(1).unwrap().as_str(), "2025-10-15T07:40:55.169Z");
        assert_eq!(captures.get(2).unwrap().as_str(), "INFO");
        assert_eq!(captures.get(3).unwrap().as_str(), "EventHandler1");
        assert_eq!(captures.get(4).unwrap().as_str(), "s.i.ProjectAttributeTemplateEventSpiImpl");
        assert_eq!(
            captures.get(5).unwrap().as_str(),
            "ProjectAttributeTemplateEventSpiImpl 收到事件，objectName:Document number:136"
        );
    } else {
        panic!("❌ Regex匹配失败");
    }
}

#[test]
fn springboot_filter_extracts_fields_exactly() {
    let filter = SpringBootFilter;
    let content = "2024-01-15 14:30:25.123 ERROR [main] com.example.App : boom\n\nplain warning text";
    let mut context = PluginChainContext::new(content.to_string());
    filter.process(&mut context, &ParseRequest::new()).unwrap();
    assert_eq!(context.current_lines.len(), 2);
    let l = &context.current_lines[0];
    assert_eq!(l.line_number, 1);
    assert_eq!(l.timestamp, Some("2024-01-15T14:30:25".to_string()));
    assert_eq!(l.level, Some("ERROR".to_string()));
    assert_eq!(l.content, "boom");
    assert_eq!(l.formatted_content, Some("boom".to_string()));
    assert_eq!(l.metadata.get("stream"), Some(&"stderr".to_string()));
    assert_eq!(l.metadata.get("logger"), Some(&"com.example.App".to_string()));
    let u = &context.current_lines[1];
    assert_eq!(u.line_number, 3);
    assert_eq!(u.level, Some("WARN".to_string()));
    assert_eq!(u.metadata.get("type"), Some(&"unparsed".to_string()));
    assert_eq!(context.get_chain_metadata("springboot_processed"), Some(&"1".to_string()));
}

#[test]
fn docker_filter_reads_json_and_gc_level() {
    let filter = DockerJsonFilter;
    let content = "{\"log\":\"[0.000s][warning][gc] -XX:+PrintGCDetails is deprecated\\n\",\"stream\":\"stderr\",\"time\":\"T1\"}\n{\"log\": broken\nplain";
    let mut context = PluginChainContext::new(content.to_string());
    assert!(filter.should_process(&context));
    assert!(filter.can_handle(content, Some("container.log")));
    filter.process(&mut context, &ParseRequest::new()).unwrap();
    assert_eq!(context.current_lines.len(), 3);
    let l = &context.current_lines[0];
    assert_eq!(l.content, "[0.000s][warning][gc] -XX:+PrintGCDetails is deprecated");
    assert_eq!(l.level, Some("WARN".to_string()));
    assert_eq!(l.timestamp, Some("T1".to_string()));
    assert_eq!(l.formatted_content, Some("[gc] -XX:+PrintGCDetails is deprecated".to_string()));
    assert_eq!(l.metadata.get("stream"), Some(&"stderr".to_string()));
    assert!(context.current_lines[1].metadata.get("parse_error").unwrap().starts_with("JSON解析失败: "));
    assert_eq!(context.current_lines[2].content, "plain");
    assert_eq!(context.get_chain_metadata("docker_json_processed"), Some(&"1".to_string()));
}

#[test]
fn java_filter_reads_gc_lines() {
    let filter = JavaLogFilter;
    let mut context = PluginChainContext::new(String::new());
    context.current_lines = vec![
        line(1, "[0.000s][warning][gc] -XX:+PrintGCDetails is deprecated."),
        line(2, "[0.002s][info ][gc,init] CardTable entry size: 512"),
        line(3, "nothing here"),
    ];
    assert!(filter.should_process(&context));
    filter.process(&mut context, &ParseRequest::new()).unwrap();
    assert_eq!(context.current_lines[0].level, Some("WARN".to_string()));
    assert_eq!(context.current_lines[0].metadata.get("log_type"), Some(&"gc_warning".to_string()));
    assert_eq!(context.current_lines[1].level, Some("INFO".to_string()));
    assert_eq!(context.current_lines[1].timestamp, Some("0.002s".to_string()));
    assert_eq!(context.current_lines[1].metadata.get("log_type"), Some(&"java".to_string()));
    assert_eq!(context.current_lines[2].level, None);
    assert_eq!(context.current_lines[2].processed_by, vec!["java_log_filter".to_string()]);
    assert_eq!(context.get_chain_metadata("java_log_processed"), Some(&"2".to_string()));
}

#[test]
fn mybatis_filter_marks_sql_lines() {
    let filter = MyBatisFilter;
    let mut context = PluginChainContext::new(String::new());
    context.current_lines = vec![
        line(1, "==>  Preparing: SELECT * FROM users WHERE id = ?"),
        line(2, "==> Parameters: 123(String)"),
        line(3, "<==      Total: 1"),
    ];
    filter.process(&mut context, &ParseRequest::new()).unwrap();
    let l = &context.current_lines[0];
    assert_eq!(l.metadata.get("sql_type"), Some(&"preparing".to_string()));
    assert_eq!(l.metadata.get("sql_statement"), Some(&"SELECT * FROM users WHERE id = ?".to_string()));
    assert_eq!(l.level, Some("DEBUG".to_string()));
    assert_eq!(context.current_lines[1].metadata.get("sql_parameters"), Some(&"123(String)".to_string()));
    assert_eq!(context.current_lines[2].metadata.get("sql_type"), None);
    assert_eq!(context.get_chain_metadata("mybatis_processed"), Some(&"2".to_string()));
}

#[test]
fn structure_filter_builds_display_text() {
    let filter = JsonStructureFilter;
    let mut context = PluginChainContext::new(String::new());
    let mut l = line(1, "{\"a\": 1}");
    l.level = Some("INFO".to_string());
    l.timestamp = Some("2025-01-15T10:30:25.123Z".to_string());
    l.metadata.insert("thread".to_string(), "worker".to_string());
    let mut kept = line(2, "x");
    kept.formatted_content = Some("already".to_string());
    context.current_lines = vec![l, kept];
    filter.process(&mut context, &ParseRequest::new()).unwrap();
    assert_eq!(
        context.current_lines[0].formatted_content,
        Some("INFO 10:30:25 worker 📄 JSON: {\"a\": 1}".to_string())
    );
    assert_eq!(context.current_lines[1].formatted_content, Some("already".to_string()));
    assert_eq!(context.get_chain_metadata("json_structured"), Some(&"2".to_string()));
}

#[test]
fn enhancer_filter_marks_urls_and_errors() {
    let filter = ContentEnhancerFilter;
    let mut context = PluginChainContext::new(String::new());
    let mut e = line(2, "failure");
    e.level = Some("ERROR".to_string());
    context.current_lines = vec![line(1, "see https://example.com"), e, line(3, "quiet")];
    assert!(filter.should_process(&context));
    filter.process(&mut context, &ParseRequest::new()).unwrap();
    assert_eq!(context.current_lines[0].metadata.get("has_url"), Some(&"true".to_string()));
    assert_eq!(context.current_lines[1].metadata.get("is_error"), Some(&"true".to_string()));
    assert!(context.current_lines[2].processed_by.is_empty());
    assert_eq!(context.get_chain_metadata("content_enhanced"), Some(&"2".to_string()));
}

#[test]
fn context_operations() {
    let mut c = PluginChainContext::new("text".to_string());
    assert!(c.should_continue);
    c.add_error("e".to_string());
    c.set_chain_metadata("k".to_string(), "v".to_string());
    c.set_chain_metadata("k".to_string(), "w".to_string());
    c.stop_chain();
    assert_eq!(c.errors, vec!["e".to_string()]);
    assert_eq!(c.get_chain_metadata("k"), Some(&"w".to_string()));
    assert_eq!(c.get_chain_metadata("missing"), None);
    assert!(!c.should_continue);
}

#[test]
fn springboot_filter_applies_given_groups() {
    let s = |x: &str| Some(x.to_string());
    let groups = vec![s("whole"), s("2024-01-01 10:00:00.123"), s("warn"), s("main"), s("c.e.Service"), s("started")];
    let r = SpringBootFilter::line_from_groups(&line(4, "whole"), &groups);
    assert_eq!(r.timestamp, Some("2024-01-01T10:00:00".to_string()));
    assert_eq!(r.level, Some("WARN".to_string()));
    assert_eq!(r.metadata.get("stream"), Some(&"stdout".to_string()));
    assert_eq!(r.metadata.get("thread"), Some(&"main".to_string()));
    assert_eq!(r.metadata.get("logger"), Some(&"c.e.Service".to_string()));
    assert_eq!(r.content, "started");
    assert_eq!(r.formatted_content, Some("started".to_string()));
    assert_eq!(r.processed_by, vec!["springboot_filter".to_string()]);
    assert_eq!(r.line_number, 4);
}

#[test]
fn springboot_filter_logger_with_space_becomes_content() {
    let s = |x: &str| Some(x.to_string());
    let groups = vec![s("whole"), None, None, None, s(" not a logger "), s("ignored")];
    let r = SpringBootFilter::line_from_groups(&line(1, "whole"), &groups);
    assert_eq!(r.content, "not a logger");
    assert_eq!(r.level, None);
    assert_eq!(r.metadata.get("logger"), None);
}

#[test]
fn docker_filter_records_parse_error() {
    let r = DockerJsonFilter::line_from_members(&line(1, "{bad"), &Err("expected value".to_string()));
    assert!(!r.1);
    assert_eq!(r.0.metadata.get("parse_error"), Some(&"JSON解析失败: expected value".to_string()));
    assert_eq!(r.0.content, "{bad");
}

#[test]
fn docker_filter_reads_given_members() {
    let s = |x: &str| Some(x.to_string());
    let members = Ok(vec![s("stderr"), s("2024-01-01T00:00:00Z"), s("[0.1s][error][gc] Full GC\n")]);
    let (r, read) = DockerJsonFilter::line_from_members(&line(1, "{}"), &members);
    assert!(read);
    assert_eq!(r.metadata.get("stream"), Some(&"stderr".to_string()));
    assert_eq!(r.timestamp, Some("2024-01-01T00:00:00Z".to_string()));
    assert_eq!(r.content, "[0.1s][error][gc] Full GC");
    assert_eq!(r.processed_by, vec!["docker_json_filter".to_string()]);
}

#[test]
fn springboot_filter_keeps_nonblank_lines_in_order() {
    let content = "2025-10-15T07:40:55.169Z  INFO 1 --- [main] c.e.App : started\n\n   \nsomething ERROR happened\n";
    let mut context = PluginChainContext::new(content.to_string());
    let request = ParseRequest::new();
    assert!(SpringBootFilter.process(&mut context, &request).is_ok());
    assert_eq!(context.current_lines.len(), 2);
    assert_eq!(context.current_lines[0].line_number, 1);
    assert_eq!(context.current_lines[1].line_number, 4);
    assert_eq!(context.get_chain_metadata("springboot_processed"), Some(&"1".to_string()));
    assert_eq!(context.current_lines[0].level, Some("INFO".to_string()));
    assert_eq!(context.current_lines[0].metadata.get("stream"), Some(&"stdout".to_string()));
    assert_eq!(context.current_lines[1].level, Some("ERROR".to_string()));
    assert_eq!(context.current_lines[1].metadata.get("stream"), Some(&"stderr".to_string()));
}
