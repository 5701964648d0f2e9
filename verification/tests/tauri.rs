use log_whisper::plugins::correlation_tracker::KeywordType;
use log_whisper::plugins::trait_def::{PluginInfo, PluginStatus, PluginType, Priority};
use log_whisper::tauri::commands::{
    available_plugins, file_validation, get_plugin_description, supported_formats,
};
use log_whisper::tauri::events::{ErrorEvent, ErrorEventType};
use log_whisper::tauri::handlers::{FileDropHandler, PluginChangeHandler};
use log_whisper::tauri::state::AppState;

#[test]
fn plugin_descriptions() {
    assert_eq!(get_plugin_description("Auto"), "自动选择最佳插件");
    assert_eq!(get_plugin_description("JSON"), "JSON 修复和格式化");
    assert_eq!(get_plugin_description("other"), "未知插件");
    let r = available_plugins(vec!["Raw".to_string()]);
    assert_eq!(r.plugins.len(), 1);
    assert_eq!(r.plugins[0].description, "原始文本显示");
    assert!(r.plugins[0].enabled);
    assert_eq!(supported_formats().formats, vec![".log".to_string(), ".txt".to_string()]);
}

#[test]
fn file_validation_answers() {
    let r = file_validation("a.log", false, Ok(3));
    assert!(!r.valid);
    assert_eq!(r.error, Some("文件不存在".to_string()));
    let r = file_validation("a.LOG", true, Ok(3));
    assert!(r.valid);
    assert_eq!(r.file_size, Some(3));
    assert_eq!(r.file_type, Some("log".to_string()));
    let r = file_validation("a.csv", true, Ok(3));
    assert!(!r.valid);
    assert_eq!(r.file_type, Some("csv".to_string()));
    assert_eq!(r.error, Some("不支持的文件类型，仅支持 .log 和 .txt 文件".to_string()));
    let r = file_validation("a.log", true, Err("denied".to_string()));
    assert_eq!(r.error, Some("获取文件信息失败: denied".to_string()));
}

#[test]
fn handler_checks() {
    assert!(FileDropHandler::is_valid_file("x/y.TXT"));
    assert!(!FileDropHandler::is_valid_file("x/y.json"));
    assert_eq!(FileDropHandler::check_file_drop("a.json").err(), Some("不支持的文件格式".to_string()));
    assert!(PluginChangeHandler::is_valid_plugin("MyBatis"));
    assert_eq!(PluginChangeHandler::check_plugin_change("Foo").err(), Some("无效的插件名称: Foo".to_string()));
}

#[test]
fn app_state_changes() {
    let mut s = AppState::new();
    assert_eq!(s.current_plugin, "Auto");
    s.set_current_file("a.log".to_string());
    assert_eq!(s.current_file, Some("a.log".to_string()));
    s.clear_current_file();
    assert_eq!(s.current_file, None);
    s.set_cache_enabled(false);
    assert!(!s.cache_enabled);
}

#[test]
fn events_and_plugin_info() {
    let e = ErrorEvent::file_error("m".to_string(), None);
    assert_eq!(e.event_type, ErrorEventType::FileError);
    assert_eq!(e.message, "m");
    let info = PluginInfo::new("n".to_string(), "d".to_string(), "1".to_string(), "a".to_string(), PluginType::Analyzer);
    assert_eq!(info.priority, 101);
    assert!(info.is_available());
    let mut info = info.with_priority(7).with_enabled(true);
    assert_eq!(info.priority, 7);
    info.update_status(PluginStatus::Error(String::new()));
    assert!(!info.is_available());
    info.update_status(PluginStatus::Error("x".to_string()));
    assert!(info.is_available());
    assert_eq!(Priority::from_u32(2), Priority::Medium);
    assert_eq!(Priority::from_u32(0), Priority::VeryHigh);
    assert_eq!(Priority::High.as_u32(), 3);
    assert_eq!(PluginType::Filter.default_priority_range(), (401, 500));
    assert_eq!(KeywordType::Custom("order".to_string()).type_label(), "order");
    assert_eq!(KeywordType::UserId.type_label(), "user_id");
}

#[test]
fn daily_log_file_name() {
    assert_eq!(log_whisper::tauri::commands::log_file_name("2024-05-01"), "logwhisper_2024-05-01.log");
}

#[test]
fn tail_sessions_replace_and_stop() {
    let mut m = log_whisper::session::TailSessionManager::new();
    assert_eq!(m.add_session("a".to_string(), 1), None);
    assert_eq!(m.add_session("b".to_string(), 2), None);
    assert_eq!(m.add_session("a".to_string(), 3), Some(1));
    assert_eq!(m.stop_session("b"), Some(2));
    assert_eq!(m.stop_session("x"), None);
    assert_eq!(m.add_session("c".to_string(), 4), None);
    assert_eq!(m.stop_all(), vec![3, 4]);
    assert_eq!(m.stop_all(), Vec::<i32>::new());
}
