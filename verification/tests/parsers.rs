use log_whisper::plugins::analysis::{extract_duration, extract_trace_id};
use log_whisper::plugins::auto::{extract_level_and_timestamp, AutoParser};
use log_whisper::plugins::docker_json::{extract_level_from_log, DockerJsonParser};
use log_whisper::plugins::manager::PluginManager;
use log_whisper::plugins::mybatis::MyBatisParser;
use log_whisper::plugins::raw::RawParser;
use log_whisper::plugins::{LogParser, ParseRequest};

fn request(content: &str) -> ParseRequest {
    let mut r = ParseRequest::new();
    r.content = content.to_string();
    r
}

#[test]
fn raw_parser_keeps_lines() {
    let r = RawParser.parse("first\nsecond", &ParseRequest::new()).unwrap();
    assert_eq!(r.lines.len(), 2);
    assert_eq!(r.total_lines, 2);
    assert_eq!(r.lines[1].content, "second");
    assert_eq!(r.lines[1].line_number, 2);
    assert_eq!(r.lines[0].formatted_content, Some("first".to_string()));
    assert_eq!(r.lines[0].processed_by, vec!["raw_parser".to_string()]);
    assert_eq!(r.detected_format, Some("raw".to_string()));
}

#[test]
fn mybatis_parser_marks_kinds() {
    let p = MyBatisParser;
    assert!(p.can_parse("==> Preparing: SELECT 1", None));
    assert!(!p.can_parse("nothing", None));
    let r = p.parse("DEBUG ==> Preparing: SELECT 1\nupdates: 1", &ParseRequest::new()).unwrap();
    assert_eq!(r.lines[0].metadata.get("type"), Some(&"sql_prepare".to_string()));
    assert_eq!(r.lines[0].level, Some("DEBUG".to_string()));
    assert_eq!(r.lines[1].metadata.get("type"), Some(&"sql_updates".to_string()));
    assert_eq!(r.lines[1].level, None);
}

#[test]
fn docker_parser_reads_json_lines() {
    let p = DockerJsonParser;
    let content = "{\"log\":\"ERROR boom\\n\",\"stream\":\"stderr\",\"time\":\"2024-01-01T00:00:00Z\"}\nnot json";
    assert!(p.can_parse(content, None));
    let r = p.parse(content, &ParseRequest::new()).unwrap();
    assert_eq!(r.lines.len(), 2);
    assert_eq!(r.lines[0].content, "ERROR boom");
    assert_eq!(r.lines[0].level, Some("ERROR".to_string()));
    assert_eq!(r.lines[0].timestamp, Some("2024-01-01T00:00:00Z".to_string()));
    assert_eq!(r.lines[0].metadata.get("stream"), Some(&"stderr".to_string()));
    assert_eq!(r.parsing_errors.len(), 1);
    assert!(r.parsing_errors[0].starts_with("Line 2: Failed to parse JSON: "));
    assert_eq!(r.lines[1].content, "not json");
}

#[test]
fn levels_named_in_messages() {
    assert_eq!(extract_level_from_log("an ERR here"), Some("ERROR".to_string()));
    assert_eq!(extract_level_from_log("Warning"), Some("WARN".to_string()));
    assert_eq!(extract_level_from_log("trace only"), None);
    let (l, t) = extract_level_and_timestamp("2024-01-01 10:00:00.000 TRACE something");
    assert_eq!(l, Some("TRACE".to_string()));
    assert_eq!(t, Some("2024-01-01 10:00:00.000".to_string()));
    let (l, t) = extract_level_and_timestamp("short");
    assert_eq!(l, None);
    assert_eq!(t, None);
}

#[test]
fn auto_parser_guesses() {
    let r = AutoParser.parse("  info: started  ", &ParseRequest::new()).unwrap();
    assert_eq!(r.lines[0].level, Some("INFO".to_string()));
    assert_eq!(r.lines[0].formatted_content, Some("info: started".to_string()));
    assert_eq!(r.lines[0].metadata.get("level"), Some(&"INFO".to_string()));
    assert_eq!(r.detected_format, Some("auto".to_string()));
}

#[test]
fn manager_lists_and_finds_parsers() {
    let m = PluginManager::new();
    let names: Vec<String> = m.get_available_plugins().into_iter().map(|p| p.name).collect();
    assert_eq!(names, vec!["auto", "mybatis", "docker_json", "springboot", "raw"]);
    let r = m.parse_with_plugin("raw", &request("x")).unwrap();
    assert_eq!(r.detected_format, Some("raw".to_string()));
    let e = m.parse_with_plugin("nope", &request("x")).err();
    assert_eq!(e, Some("Plugin 'nope' not found".to_string()));
}

#[test]
fn manager_detects_formats() {
    let m = PluginManager::new();
    let r = m.auto_detect_and_parse(&request("==> Preparing: SELECT 1")).unwrap();
    assert_eq!(r.detected_format, Some("mybatis".to_string()));
    let r = m.auto_detect_and_parse(&request("{\"log\":\"hi\",\"stream\":\"stdout\"}")).unwrap();
    assert_eq!(r.detected_format, Some("docker_json".to_string()));
    let r = m.auto_detect_and_parse(&request("2024-01-01 10:00:00.000 [main] INFO a.B - hi")).unwrap();
    assert_eq!(r.detected_format, Some("springboot".to_string()));
    let r = m.auto_detect_and_parse(&request("just words")).unwrap();
    assert_eq!(r.detected_format, Some("auto".to_string()));
}

#[test]
fn docker_parser_line_from_given_members() {
    let s = |x: &str| Some(x.to_string());
    let (l, e) = DockerJsonParser::line_from_members(7, "{...}", &Ok(vec![s("stdout"), None, s("warning: low disk\n")]));
    assert_eq!(e, None);
    assert_eq!(l.line_number, 7);
    assert_eq!(l.content, "warning: low disk");
    assert_eq!(l.level, Some("WARN".to_string()));
    assert_eq!(l.timestamp, None);
    assert_eq!(l.metadata.get("stream"), Some(&"stdout".to_string()));
    let (l2, e2) = DockerJsonParser::line_from_members(3, "oops", &Err("EOF while parsing".to_string()));
    assert_eq!(e2, Some("Line 3: Failed to parse JSON: EOF while parsing".to_string()));
    assert_eq!(l2.content, "oops");
    assert_eq!(l2.level, None);
}

#[test]
fn trace_id_and_duration_found() {
    assert_eq!(
        extract_trace_id("handled traceId=0123456789abcdef0123 ok"),
        Some("0123456789abcdef0123".to_string())
    );
    assert_eq!(extract_trace_id("trace id: short"), None);
    assert_eq!(extract_duration("request taken 12.5ms"), Some(("12.5".to_string(), "ms".to_string())));
    assert_eq!(extract_duration("cost=3 S"), Some(("3".to_string(), "S".to_string())));
    assert_eq!(extract_duration("no timing here"), None);
}

#[test]
fn timestamps_lead_the_line() {
    assert_eq!(
        extract_level_and_timestamp("ERROR: Database failed"),
        (Some("ERROR".to_string()), Some("ERROR: Database failed".to_string()))
    );
    assert_eq!(
        extract_level_and_timestamp("2024-01-15 10:30:45 INFO Server started"),
        (Some("INFO".to_string()), Some("2024-01-15 10:30:45".to_string()))
    );
    assert_eq!(extract_level_and_timestamp("Hello world"), (None, None));
    assert_eq!(
        extract_level_and_timestamp("2024-01-15 10:30:45.123 ERROR Something went wrong"),
        (Some("ERROR".to_string()), Some("2024-01-15 10:30:45.123".to_string()))
    );
    assert_eq!(extract_level_and_timestamp("日志日志日志日志"), (None, None));
    assert_eq!(
        extract_level_and_timestamp("2024-01-15T10:30:45,5 x y z"),
        (None, Some("2024-01-15T10:30:45,5".to_string()))
    );
}

#[test]
fn docker_errors_one_per_non_json_line() {
    let content = "{\"log\":\"a\\n\"}\nplain\n{broken\n{\"log\":\"b\"}";
    let r = DockerJsonParser.parse(content, &ParseRequest::new()).unwrap();
    assert_eq!(r.lines.len(), 4);
    assert_eq!(r.parsing_errors.len(), 2);
    assert_eq!(r.lines[1].content, "plain");
    assert_eq!(r.lines[2].content, "{broken");
    assert_eq!(r.lines[0].content, "a");
    assert_eq!(r.lines[3].line_number, 4);
}

#[test]
fn default_detection_order() {
    let m = PluginManager::new();
    let r = m.auto_detect_and_parse(&request("==> Preparing: SELECT 1")).unwrap();
    assert_eq!(r.detected_format, Some("mybatis".to_string()));
    let r = m.auto_detect_and_parse(&request("{\"log\":\"x\"}")).unwrap();
    assert_eq!(r.detected_format, Some("docker_json".to_string()));
    let r = m.auto_detect_and_parse(&request("plain words")).unwrap();
    assert_eq!(r.detected_format, Some("auto".to_string()));
}
