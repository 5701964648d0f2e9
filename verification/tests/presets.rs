use log_whisper::plugins::chain::{ChainConditions, PluginChain, PluginChainManager};
use log_whisper::plugins::filters::FilterKind;
use log_whisper::plugins::presets::{recommend_chain, register_preset_chains, ChainBuilder};
use log_whisper::plugins::ParseRequest;

#[test]
fn test_recommend_docker_chain() {
    let content = r#"{"log": "2024-01-15 10:30:25.123 [main] INFO Application started", "stream": "stdout", "time": "2024-01-15T10:30:25.123Z"}"#;
    assert_eq!(recommend_chain(content, None), "docker");
}

#[test]
fn test_recommend_springboot_chain() {
    let content = r#"2024-01-15 10:30:25.123 [main] INFO com.example.Application - Application started"#;
    assert_eq!(recommend_chain(content, Some("application.log")), "springboot");
}

#[test]
fn test_recommend_database_chain() {
    let content = r#"DEBUG - ==>  Preparing: SELECT * FROM users WHERE id = ?
DEBUG - ==> Parameters: 123(String)"#;
    assert_eq!(recommend_chain(content, None), "database");
}

#[test]
fn test_recommend_generic_chain() {
    let content = r#"This is a simple log message
Another log line here"#;
    assert_eq!(recommend_chain(content, None), "generic");
}

#[test]
fn test_chain_builder() {
    let chain = ChainBuilder::new("test".to_string(), "Test chain".to_string())
        .with_docker_json()
        .with_springboot()
        .with_json_structure()
        .with_enabled(true)
        .build();
    assert_eq!(chain.name, "test");
    assert_eq!(chain.filters.len(), 3);
    assert!(chain.enabled);
}

#[test]
fn recommend_microservice_chain() {
    assert_eq!(recommend_chain("handling request for service A", None), "microservice");
}

#[test]
fn builder_sorts_filters_by_priority() {
    let chain = ChainBuilder::new("t".to_string(), "d".to_string())
        .with_json_structure()
        .with_mybatis()
        .with_docker_json()
        .with_content_enhancer()
        .with_java_log()
        .with_springboot()
        .build();
    assert_eq!(
        chain.filters,
        vec![
            FilterKind::DockerJson,
            FilterKind::SpringBoot,
            FilterKind::JavaLog,
            FilterKind::MyBatis,
            FilterKind::ContentEnhancer,
            FilterKind::JsonStructure
        ]
    );
}

#[test]
fn preset_chains_are_registered() {
    let mut manager = PluginChainManager::new();
    register_preset_chains(&mut manager);
    assert_eq!(
        manager.get_available_chains(),
        vec!["docker", "springboot", "generic", "microservice", "database"]
    );
    let docker = manager.get_chain("docker").unwrap();
    assert_eq!(docker.filters.len(), 6);
    assert_eq!(docker.filters[0], FilterKind::DockerJson);
    assert_eq!(docker.filters[5], FilterKind::JsonStructure);
    let generic = manager.get_chain("generic").unwrap();
    assert!(generic.conditions.is_none());
}

#[test]
fn manager_selects_docker_chain_for_docker_json() {
    let mut manager = PluginChainManager::new();
    register_preset_chains(&mut manager);
    let content = r#"{"log":"[0.000s][warning][gc] -XX:+PrintGCDetails is deprecated\n","stream":"stdout","time":"2024-01-01T00:00:00Z"}"#;
    let chain = manager.select_best_chain(content, Some("container.log")).unwrap();
    assert_eq!(chain.name, "docker");
}

#[test]
fn manager_falls_back_to_default_chain() {
    let mut manager = PluginChainManager::new();
    register_preset_chains(&mut manager);
    manager.set_smart_selection(false);
    let chain = manager.select_best_chain("anything", None).unwrap();
    assert_eq!(chain.name, "generic");
}

#[test]
fn manager_without_chains_fails() {
    let manager = PluginChainManager::new();
    let request = ParseRequest::new();
    let r = manager.process("text", &request);
    assert_eq!(r.err(), Some("没有找到合适的处理链".to_string()));
}

#[test]
fn chain_conditions_match_ignoring_case() {
    let mut c = ChainConditions::new();
    c.file_patterns.push("Docker".to_string());
    c.content_patterns.push("STREAM".to_string());
    assert!(c.matches("{\"stream\":1}", Some("/var/docker.log")));
    assert!(!c.matches("{\"stream\":1}", Some("/var/app.log")));
    assert!(c.matches("{\"stream\":1}", None));
    assert!(!c.matches("nothing", None));
    assert_eq!(c.min_confidence, 50);
}

#[test]
fn disabled_chain_refuses_to_run() {
    let mut chain = PluginChain::new("x".to_string(), "d".to_string());
    chain.enabled = false;
    let request = ParseRequest::new();
    assert_eq!(chain.process("a", &request).err(), Some("插件链 'x' 已禁用".to_string()));
}

#[test]
fn chain_with_unmet_conditions_refuses_to_run() {
    let mut chain = PluginChain::new("x".to_string(), "d".to_string());
    let mut c = ChainConditions::new();
    c.content_patterns.push("needle".to_string());
    chain.conditions = Some(c);
    let request = ParseRequest::new();
    assert_eq!(chain.process("haystack", &request).err(), Some("插件链 'x' 执行条件不匹配".to_string()));
}

#[test]
fn docker_chain_processes_gc_lines() {
    let mut manager = PluginChainManager::new();
    register_preset_chains(&mut manager);
    let content = "{\"log\":\"[0.000s][warning][gc] -XX:+PrintGCDetails is deprecated\\n\",\"stream\":\"stdout\",\"time\":\"2024-01-01T00:00:00Z\"}\n{\"log\":\"[0.002s][info   ][gc,init] CardTable entry size: 512\\n\",\"stream\":\"stdout\",\"time\":\"2024-01-01T00:00:01Z\"}";
    let mut request = ParseRequest::new();
    request.file_path = Some("container.log".to_string());
    let result = manager.process(content, &request).unwrap();
    assert_eq!(result.detected_format, Some("docker".to_string()));
    assert_eq!(result.total_lines, 2);
    assert_eq!(result.lines.len(), 2);
    assert_eq!(result.lines[0].level, Some("WARN".to_string()));
    assert_eq!(result.lines[1].level, Some("INFO".to_string()));
    assert_eq!(result.lines[0].timestamp, Some("2024-01-01T00:00:00Z".to_string()));
    assert!(result.lines[0].processed_by.contains(&"docker_json_filter".to_string()));
    assert!(result.lines[0].processed_by.contains(&"json_structure_filter".to_string()));
}

#[test]
fn add_filter_sorts_stably() {
    let mut chain = PluginChain::new("c".to_string(), "d".to_string());
    chain.add_filter(FilterKind::JsonStructure);
    chain.add_filter(FilterKind::MyBatis);
    chain.add_filter(FilterKind::DockerJson);
    chain.add_filter(FilterKind::MyBatis);
    chain.add_filter(FilterKind::SpringBoot);
    assert_eq!(
        chain.filters,
        vec![
            FilterKind::DockerJson,
            FilterKind::SpringBoot,
            FilterKind::MyBatis,
            FilterKind::MyBatis,
            FilterKind::JsonStructure
        ]
    );
}
