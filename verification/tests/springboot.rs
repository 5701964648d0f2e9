use log_whisper::plugins::springboot::{
    build_compact_prefix, build_formatted_content_fast, compact_class_name, compact_thread_name,
    determine_stream_type, normalize_level_fast, normalize_timestamp_fast, should_use_compact_format,
    SpringBootParser,
};
use log_whisper::plugins::{LogParser, ParseRequest};

const EIGHT_LINES: &str = r#"2024-09-30 08:00:03.456 [main] WARN com.example.DeprecatedApi - Deprecated API endpoint /old-api detected
2024-09-30 08:00:04.789 [worker-thread-1] INFO com.example.Server - Server listening on port 8080
2024-09-30 08:00:05.123 [main] INFO com.example.Application - OK
2024-09-30 08:00:06.456 [http-nio-8080-exec-1] INFO com.example.Controller - POST /api/login - 201 Created
2024-09-30 08:00:07.789 [redis-thread-1] ERROR com.example.RedisService - Failed to connect to Redis Connection timeout after 30 seconds Retrying in 5 seconds...
    at com.example.RedisService.connect(RedisService.java:156)
    at com.example.RedisService.<init>(RedisService.java:89)
2024-09-30 08:00:13.456 [redis-thread-1] INFO com.example.RedisService - Redis connection re-established"#;

#[test]
fn springboot_test_springboot_dockerjson_format_consistency() {
    let parser = SpringBootParser;
    let request = ParseRequest::default();
    let result = parser.parse(EIGHT_LINES, &request).unwrap();
    for (i, line) in result.lines.iter().take(8).enumerate() {
        println!("{}. {}", i + 1, line.formatted_content.as_ref().unwrap_or(&line.content));
    }
    assert!(result.lines.len() >= 8);

    let first_line = &result.lines[0];
    assert!(first_line.formatted_content.as_ref().unwrap().contains("2024-09-30T08:00:03"));
    assert!(first_line.formatted_content.as_ref().unwrap().contains("[WARN]"));
    assert!(first_line.formatted_content.as_ref().unwrap().contains("[STDOUT]"));
    assert_eq!(first_line.metadata.get("stream").unwrap(), "stdout");

    let fifth_line = &result.lines[4];
    assert!(fifth_line.formatted_content.as_ref().unwrap().contains("2024-09-30T08:00:07"));
    assert!(fifth_line.formatted_content.as_ref().unwrap().contains("[ERROR]"));
    assert!(fifth_line.formatted_content.as_ref().unwrap().contains("[STDERR]"));
    assert_eq!(fifth_line.metadata.get("stream").unwrap(), "stderr");

    if result.lines.len() > 5 {
        let stacktrace_line = &result.lines[5];
        assert!(stacktrace_line.formatted_content.as_ref().unwrap().contains("[ERROR]"));
        assert!(stacktrace_line.formatted_content.as_ref().unwrap().contains("[STDERR]"));
        assert_eq!(stacktrace_line.level.as_ref().unwrap(), "ERROR");
        assert_eq!(stacktrace_line.metadata.get("stream").unwrap(), "stderr");
        assert_eq!(stacktrace_line.metadata.get("type").unwrap(), "stacktrace");
    }
}

#[test]
fn springboot_test_test_iso_timestamp_conversion() {
    let parser = SpringBootParser;
    let request = ParseRequest::default();
    let result = parser.parse("2024-01-15 14:30:25.123 [main] INFO TestLogger - Test message", &request).unwrap();
    let line = &result.lines[0];
    assert_eq!(line.timestamp.as_ref().unwrap(), "2024-01-15T14:30:25");
    assert!(line.formatted_content.as_ref().unwrap().contains("2024-01-15T14:30:25"));
}

#[test]
fn springboot_test_test_stream_determination() {
    let parser = SpringBootParser;
    let request = ParseRequest::default();
    let test_content = r#"2024-01-15 14:30:25.123 [main] ERROR TestLogger - Error message
2024-01-15 14:30:26.456 [main] WARN TestLogger - Warning message
2024-01-15 14:30:27.789 [main] INFO TestLogger - Info message
2024-01-15 14:30:28.012 [main] DEBUG TestLogger - Debug message"#;
    let result = parser.parse(test_content, &request).unwrap();
    assert_eq!(result.lines[0].metadata.get("stream").unwrap(), "stderr");
    assert!(result.lines[0].formatted_content.as_ref().unwrap().contains("[STDERR]"));
    assert_eq!(result.lines[1].metadata.get("stream").unwrap(), "stdout");
    assert!(result.lines[1].formatted_content.as_ref().unwrap().contains("[STDOUT]"));
    assert_eq!(result.lines[2].metadata.get("stream").unwrap(), "stdout");
    assert!(result.lines[2].formatted_content.as_ref().unwrap().contains("[STDOUT]"));
    assert_eq!(result.lines[3].metadata.get("stream").unwrap(), "stdout");
    assert!(result.lines[3].formatted_content.as_ref().unwrap().contains("[STDOUT]"));
}

#[test]
fn test_compact_format_display() {
    let parser = SpringBootParser;
    let request = ParseRequest::default();
    let test_content = r#"2025-09-29 06:18:55.621 [nio-8080-exec-1] INFO s.i.HolidayAnalyzeAttachmentsServiceImpl - springBoot日志会有很多这种重复的前置输出内容，这个会干扰阅读正常的内容
2025-09-29 06:18:56.123 [worker-thread-5] WARN com.example.service.LongRunningTaskService - 任务执行完成，耗时 1250ms
2025-09-29 06:18:57.456 [redis-thread-2] ERROR org.springframework.data.redis.connection.RedisConnectionFailureException - Redis连接失败
2025-09-29 06:18:58.789 [main] INFO com.example.Application - 应用启动完成
2025-09-29 06:18:59.012 [scheduling-1] DEBUG com.example.scheduler.CleanupJob - 清理任务开始执行"#;
    let result = parser.parse(test_content, &request).unwrap();
    for (i, line) in result.lines.iter().enumerate() {
        println!("{}. {}", i + 1, line.formatted_content.as_ref().unwrap_or(&line.content));
    }
    let first_line = &result.lines[0];
    assert!(first_line.formatted_content.as_ref().unwrap().contains("H8080-"));
    assert!(first_line.formatted_content.as_ref().unwrap().contains("s.i.HolidayAnalyzeAttachmentsServiceImpl"));
    let fourth_line = &result.lines[3];
    assert!(!fourth_line.formatted_content.as_ref().unwrap().contains("[main]"));
    let second_line = &result.lines[1];
    assert!(second_line.formatted_content.as_ref().unwrap().contains("W5"));
}

#[test]
fn springboot_format_test_test_iso_timestamp_conversion() {
    let parser = SpringBootParser;
    let request = ParseRequest::default();
    let result = parser.parse("2024-01-15 14:30:25.123 [main] INFO Test message", &request).unwrap();
    let line = &result.lines[0];
    assert!(line.timestamp.as_ref().unwrap() == "2024-01-15T14:30:25");
    assert!(line.formatted_content.as_ref().unwrap().contains("2024-01-15T14:30:25"));
}

#[test]
fn springboot_format_test_test_stream_determination() {
    let parser = SpringBootParser;
    let request = ParseRequest::default();
    let test_content = r#"2024-01-15 14:30:25.123 [main] ERROR Error message
2024-01-15 14:30:26.456 [main] WARN Warning message
2024-01-15 14:30:27.789 [main] INFO Info message
2024-01-15 14:30:28.012 [main] DEBUG Debug message"#;
    let result = parser.parse(test_content, &request).unwrap();
    assert_eq!(result.lines[0].metadata.get("stream").unwrap(), "stderr");
    assert!(result.lines[0].formatted_content.as_ref().unwrap().contains("[STDERR]"));
    assert_eq!(result.lines[1].metadata.get("stream").unwrap(), "stdout");
    assert!(result.lines[1].formatted_content.as_ref().unwrap().contains("[STDOUT]"));
    assert_eq!(result.lines[2].metadata.get("stream").unwrap(), "stdout");
    assert!(result.lines[2].formatted_content.as_ref().unwrap().contains("[STDOUT]"));
    assert_eq!(result.lines[3].metadata.get("stream").unwrap(), "stdout");
    assert!(result.lines[3].formatted_content.as_ref().unwrap().contains("[STDOUT]"));
}

#[test]
fn every_line_is_parsed_and_counted() {
    let parser = SpringBootParser;
    let result = parser.parse(EIGHT_LINES, &ParseRequest::default()).unwrap();
    assert_eq!(result.lines.len(), 8);
    assert_eq!(result.total_lines, 8);
    assert_eq!(result.detected_format, Some("springboot".to_string()));
    for (i, line) in result.lines.iter().enumerate() {
        assert_eq!(line.line_number, i + 1);
    }
    assert_eq!(result.lines[5].content, "at com.example.RedisService.connect(RedisService.java:156)");
}

#[test]
fn timestamp_and_level_normalisation() {
    assert_eq!(normalize_timestamp_fast(Some("2024-09-30 08:00:07.123")), Some("2024-09-30T08:00:07".to_string()));
    assert_eq!(normalize_timestamp_fast(None), None);
    assert_eq!(normalize_level_fast(Some("warning")), Some("WARN".to_string()));
    assert_eq!(normalize_level_fast(Some("FATAL")), Some("ERROR".to_string()));
}

#[test]
fn stream_types() {
    assert_eq!(determine_stream_type(Some("ERROR")), "stderr");
    assert_eq!(determine_stream_type(Some("SEVERE")), "stderr");
    assert_eq!(determine_stream_type(Some("WARN")), "stdout");
    assert_eq!(determine_stream_type(None), "stdout");
}

#[test]
fn compact_names() {
    assert_eq!(compact_thread_name("main"), "");
    assert_eq!(compact_thread_name("http-nio-8080-exec-1"), "H8080-");
    assert_eq!(compact_thread_name("worker-thread-5"), "W5");
    assert_eq!(compact_thread_name("redis-thread-2"), "R2");
    assert_eq!(compact_thread_name("scheduling-1"), "S1");
    assert_eq!(compact_thread_name("a-very-long-thread-name"), "a-very-long-...");
    assert_eq!(compact_class_name("com.example.service.impl.UserServiceImpl"), "c.e.s.i.UserSe..");
    assert_eq!(compact_class_name("com.example.App"), "com.example.App");
    assert_eq!(build_compact_prefix(Some("worker-thread-5"), Some("com.example.service.impl.UserServiceImpl")), "W5 · c.e.s.i.UserSe..");
}

#[test]
fn formatted_content_layout() {
    assert_eq!(
        build_formatted_content_fast(Some("2024-01-01T00:00:00"), Some("ERROR"), None, "boom"),
        "2024-01-01T00:00:00 [ERROR] [STDERR] boom"
    );
    assert!(!should_use_compact_format(Some("main"), None, "short"));
}

#[test]
fn can_parse_detects_spring_text() {
    let parser = SpringBootParser;
    assert!(parser.can_parse("Started Application with SpringFramework", None));
    assert!(parser.can_parse("2024-01-01 10:00:00 [main] x", None));
    assert!(!parser.can_parse("hello world", None));
}

#[test]
fn springboot_parser_line_from_given_fields() {
    let s = |x: &str| Some(x.to_string());
    let l = SpringBootParser::parse_fields(
        2,
        "raw text",
        Some((s("2024-09-30 08:00:07.123"), s("main"), s("info"), s("c.e.App"), s("  Started  "))),
    );
    assert_eq!(l.line_number, 2);
    assert_eq!(l.content, "Started");
    assert_eq!(l.level, Some("INFO".to_string()));
    assert_eq!(l.timestamp, Some("2024-09-30T08:00:07".to_string()));
    assert_eq!(l.metadata.get("thread"), Some(&"main".to_string()));
    assert_eq!(l.metadata.get("logger"), Some(&"c.e.App".to_string()));
    assert_eq!(l.metadata.get("stream"), Some(&"stdout".to_string()));
    assert_eq!(l.processed_by, vec!["springboot_parser".to_string()]);

    let t = SpringBootParser::parse_fields(5, "\tat com.example.Foo.bar(Foo.java:10)", None);
    assert_eq!(t.content, "at com.example.Foo.bar(Foo.java:10)");
    assert_eq!(t.level, Some("ERROR".to_string()));
    assert_eq!(t.metadata.get("type"), Some(&"stacktrace".to_string()));
    assert_eq!(t.metadata.get("stream"), Some(&"stderr".to_string()));
}

#[test]
fn springboot_test_iso_timestamp_conversion() {
    let parser = SpringBootParser;
    let request = ParseRequest::default();
    let test_content = r#"2024-01-15 14:30:25.123 [main] INFO TestLogger - Test message"#;
    let result = parser.parse(test_content, &request).unwrap();
    let line = &result.lines[0];
    assert_eq!(line.timestamp.as_ref().unwrap(), "2024-01-15T14:30:25");
    assert!(line.formatted_content.as_ref().unwrap().contains("2024-01-15T14:30:25"));
}

#[test]
fn springboot_test_stream_determination() {
    let parser = SpringBootParser;
    let request = ParseRequest::default();
    let test_content = r#"2024-01-15 14:30:25.123 [main] ERROR TestLogger - Error message
2024-01-15 14:30:26.456 [main] WARN TestLogger - Warning message
2024-01-15 14:30:27.789 [main] INFO TestLogger - Info message
2024-01-15 14:30:28.012 [main] DEBUG TestLogger - Debug message"#;
    let result = parser.parse(test_content, &request).unwrap();
    assert_eq!(result.lines[0].metadata.get("stream").unwrap(), "stderr");
    assert!(result.lines[0].formatted_content.as_ref().unwrap().contains("[STDERR]"));
    assert_eq!(result.lines[1].metadata.get("stream").unwrap(), "stdout");
    assert!(result.lines[1].formatted_content.as_ref().unwrap().contains("[STDOUT]"));
    assert_eq!(result.lines[2].metadata.get("stream").unwrap(), "stdout");
    assert!(result.lines[2].formatted_content.as_ref().unwrap().contains("[STDOUT]"));
    assert_eq!(result.lines[3].metadata.get("stream").unwrap(), "stdout");
    assert!(result.lines[3].formatted_content.as_ref().unwrap().contains("[STDOUT]"));
}

#[test]
fn levels_in_any_case() {
    assert_eq!(normalize_level_fast(Some("error")), Some("ERROR".to_string()));
    assert_eq!(normalize_level_fast(Some("WARN")), Some("WARN".to_string()));
    assert_eq!(normalize_level_fast(Some("trace")), Some("DEBUG".to_string()));
    assert_eq!(normalize_level_fast(Some("custom")), Some("CUSTOM".to_string()));
    assert_eq!(normalize_level_fast(Some("Trace")), Some("DEBUG".to_string()));
    assert_eq!(normalize_level_fast(Some("Warning")), Some("WARN".to_string()));
    assert_eq!(normalize_level_fast(Some("Error")), Some("ERROR".to_string()));
    assert_eq!(normalize_level_fast(None), None);
}
