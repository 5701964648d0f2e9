use log_whisper::plugins::chain::{PluginChainManager, PluginFilter};
use log_whisper::plugins::filters::{DockerJsonFilter, JavaLogFilter, MyBatisFilter, SpringBootFilter};
use log_whisper::plugins::presets::register_preset_chains;
use log_whisper::plugins::enhanced::EnhancedPluginManager;
use log_whisper::plugins::ParseRequest;
use log_whisper::tail::TailCursor;

fn request(content: &str, path: Option<&str>) -> ParseRequest {
    let mut r = ParseRequest::new();
    r.content = content.to_string();
    r.file_path = path.map(|p| p.to_string());
    r
}

#[test]
fn enhanced_manager_uses_chains_after_initialize() {
    let mut m = EnhancedPluginManager::new();
    assert!(m.get_available_chains().is_empty());
    m.initialize().unwrap();
    assert_eq!(m.get_available_chains().len(), 5);
    let content = "{\"log\":\"[0.000s][warning][gc] -XX:+PrintGCDetails is deprecated.\\n\",\"stream\":\"stdout\",\"time\":\"2024-01-01T00:00:00Z\"}";
    let r = m.auto_detect_and_parse(&request(content, Some("container.log"))).unwrap();
    assert_eq!(r.detected_format, Some("docker".to_string()));
    assert_eq!(r.lines[0].level, Some("WARN".to_string()));
    assert_eq!(m.recommend_chain(content, Some("container.log")), Some("docker".to_string()));
}

#[test]
fn enhanced_manager_falls_back_to_parsers() {
    let mut m = EnhancedPluginManager::new();
    let r = m.auto_detect_and_parse(&request("==> Preparing: SELECT 1", None)).unwrap();
    assert_eq!(r.detected_format, Some("mybatis".to_string()));
    m.set_chain_enabled(false);
    assert!(!m.is_chain_enabled());
    assert_eq!(m.recommend_chain("x", None), None);
    assert_eq!(
        m.process_with_chain("docker", &request("x", None)).err(),
        Some("插件链系统已禁用".to_string())
    );
}

#[test]
fn enhanced_manager_names_missing_chains() {
    let mut m = EnhancedPluginManager::new();
    m.initialize().unwrap();
    let e = m.process_with_chain("nope", &request("x", None)).err().unwrap();
    assert_eq!(
        e,
        "插件链 'nope' 不存在，可用链: [\"docker\", \"springboot\", \"generic\", \"microservice\", \"database\"]"
    );
    let r = m.process_with_chain("generic", &request("plain text", None)).unwrap();
    assert_eq!(r.total_lines, 1);
}

#[test]
fn enhanced_manager_passes_entries_through() {
    let m = EnhancedPluginManager::new();
    let r = m.process_log_entries(vec![]).unwrap();
    assert!(r.is_empty());
    assert_eq!(m.get_available_plugins().len(), 5);
    assert!(m.parse_with_plugin("auto", &request("a", None)).is_ok());
}

#[test]
fn tail_cursor_follows_growth_and_truncation() {
    let mut c = TailCursor::new(10);
    assert_eq!(c.on_change(10), None);
    assert_eq!(c.on_change(15), Some(10));
    let lines = c.on_lines(&vec!["abcd".to_string()]);
    assert_eq!(c.pos, 15);
    assert_eq!(lines[0].content, "abcd");
    assert_eq!(lines[0].processed_by, vec!["tail".to_string()]);
    assert_eq!(lines[0].line_number, 0);
    assert_eq!(c.on_change(3), Some(0));
    assert_eq!(c.pos, 0);
    c.on_lines(&vec!["é".to_string()]);
    assert_eq!(c.pos, 3);
}

#[test]
fn test_docker_chain_gc_log_processing() {
    let docker_logs = vec![
        r#"{"log":"[0.000s][warning][gc] -XX:+PrintGCDetails is deprecated. Will use -Xlog:gc* instead.\n","stream":"stdout","time":"2025-09-16T08:17:32.172897326Z"}"#,
        r#"{"log":"[0.002s][info ][gc,init] CardTable entry size: 512\n","stream":"stdout","time":"2025-09-16T08:17:32.174908043Z"}"#,
        r#"{"log":"[0.002s][info ][gc ] Using G1\n","stream":"stdout","time":"2025-09-16T08:17:32.174994988Z"}"#,
        r#"{"log":"[0.008s][info ][gc,init] Version: 21.0.7+9-LTS (release)\n","stream":"stdout","time":"2025-09-16T08:17:32.175102Z"}"#,
        r#"{"log":"2025-01-15 10:30:25.123 [main] INFO com.example.Application - Application started successfully\n","stream":"stdout","time":"2025-01-15T10:30:25.123Z"}"#,
    ];
    let combined_content = docker_logs.join("\n");

    let mut enhanced_manager = EnhancedPluginManager::new();
    enhanced_manager.initialize().expect("Failed to initialize enhanced plugin manager");
    let request = ParseRequest {
        content: combined_content.clone(),
        plugin: None,
        file_path: Some("container.log".to_string()),
        chunk_size: None,
    };
    let result = enhanced_manager.auto_detect_and_parse(&request);
    assert!(result.is_ok(), "Auto-detection should succeed: {:?}", result.as_ref().err());
    let parse_result = result.unwrap();
    assert!(!parse_result.lines.is_empty(), "Should have parsed log lines");

    let mut chain_manager = PluginChainManager::new();
    register_preset_chains(&mut chain_manager);
    let request = ParseRequest {
        content: combined_content.clone(),
        plugin: None,
        file_path: Some("docker-container.log".to_string()),
        chunk_size: None,
    };
    let chain_result = chain_manager.process(&combined_content, &request);
    assert!(chain_result.is_ok(), "Docker chain processing should succeed: {:?}", chain_result.as_ref().err());
    let chain_parse_result = chain_result.unwrap();
    let mut gc_logs_processed = 0;
    for line in chain_parse_result.lines.iter() {
        if let Some(level) = &line.level {
            if line.content.contains("[gc]") || line.content.contains("[warning][gc]") {
                gc_logs_processed += 1;
                assert!(!level.is_empty(), "GC log should have a log level");
            }
        }
    }
    assert!(gc_logs_processed > 0, "GC logs should be processed by JavaLogFilter");

    let docker_filter = DockerJsonFilter;
    let docker_content = r#"{"log":"[0.000s][warning][gc] Test message\n","stream":"stdout","time":"2025-09-16T08:17:32.172897326Z"}"#;
    assert!(docker_filter.can_handle(docker_content, None), "DockerJsonFilter should handle Docker JSON content");
    let java_filter = JavaLogFilter;
    let gc_content = "[0.000s][warning][gc] -XX:+PrintGCDetails is deprecated. Will use -Xlog:gc* instead.";
    assert!(java_filter.can_handle(gc_content, None), "JavaLogFilter should handle GC logs");
    let java_info_content = "[0.002s][info ][gc,init] CardTable entry size: 512";
    assert!(java_filter.can_handle(java_info_content, None), "JavaLogFilter should handle Java info logs");
    let springboot_filter = SpringBootFilter;
    let springboot_content = "2025-01-15 10:30:25.123 [main] INFO com.example.Application - Application started";
    assert!(springboot_filter.can_handle(springboot_content, None), "SpringBootFilter should handle SpringBoot logs");
    let mybatis_filter = MyBatisFilter;
    let mybatis_content = "DEBUG - ==>  Preparing: SELECT * FROM users WHERE id = ?";
    assert!(mybatis_filter.can_handle(mybatis_content, None), "MyBatisFilter should handle MyBatis logs");
}

#[test]
fn test_chain_recommendation_for_docker_logs() {
    let mut enhanced_manager = EnhancedPluginManager::new();
    enhanced_manager.initialize().unwrap();
    let docker_content = r#"{"log":"[0.000s][warning][gc] Test message\n","stream":"stdout","time":"2025-09-16T08:17:32.172897326Z"}"#;
    let recommended = enhanced_manager.recommend_chain(docker_content, Some("container.log"));
    assert!(recommended.is_some(), "Should recommend a chain for Docker logs");
    assert_eq!(recommended.unwrap(), "docker", "Should recommend docker chain for Docker JSON logs");
}

#[test]
fn test_gc_log_level_detection() {
    let mut enhanced_manager = EnhancedPluginManager::new();
    enhanced_manager.initialize().unwrap();
    let request = ParseRequest {
        content: "[0.000s][warning][gc] -XX:+PrintGCDetails is deprecated.".to_string(),
        plugin: None,
        file_path: Some("gc.log".to_string()),
        chunk_size: None,
    };
    let result = enhanced_manager.auto_detect_and_parse(&request);
    assert!(result.is_ok(), "Should process GC warning log");
    let parse_result = result.unwrap();
    if let Some(first_line) = parse_result.lines.first() {
        if let Some(level) = &first_line.level {
            assert!(level.contains("WARN") || level.contains("WARNING"), "GC warning should be detected as WARN level, got: {}", level);
        }
    }
    let request = ParseRequest {
        content: "[0.002s][info ][gc,init] CardTable entry size: 512".to_string(),
        plugin: None,
        file_path: Some("gc.log".to_string()),
        chunk_size: None,
    };
    let result = enhanced_manager.auto_detect_and_parse(&request);
    assert!(result.is_ok(), "Should process GC info log");
    let parse_result = result.unwrap();
    if let Some(first_line) = parse_result.lines.first() {
        if let Some(level) = &first_line.level {
            assert!(level.contains("INFO"), "GC info should be detected as INFO level, got: {}", level);
        }
    }
}
