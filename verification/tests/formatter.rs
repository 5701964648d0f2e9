use log_whisper::metadata::Metadata;
use log_whisper::plugins::formatter::{UnifiedFormatter, UnifiedLogFormat};

#[test]
fn test_normalize_timestamp() {
    assert_eq!(
        UnifiedFormatter::normalize_timestamp(Some("2024-09-30T08:00:07.890Z".to_string())),
        Some("2024-09-30T08:00:07".to_string())
    );
    assert_eq!(
        UnifiedFormatter::normalize_timestamp(Some("2024-09-30 08:00:07,890".to_string())),
        Some("2024-09-30 08:00:07".to_string())
    );
}

#[test]
fn test_normalize_level() {
    assert_eq!(UnifiedFormatter::normalize_level(Some("error".to_string())), Some("ERROR".to_string()));
    assert_eq!(UnifiedFormatter::normalize_level(Some("warning".to_string())), Some("WARN".to_string()));
}

#[test]
fn test_format_display_string() {
    let mut metadata = Metadata::new();
    metadata.insert("stream".to_string(), "stderr".to_string());

    let format = UnifiedLogFormat {
        timestamp: Some("2024-09-30T08:00:07".to_string()),
        level: Some("ERROR".to_string()),
        thread: None,
        source: None,
        message: "Database connection failed".to_string(),
        metadata,
        raw_content: "Error: Database connection failed".to_string(),
    };

    let result = UnifiedFormatter::format_display_string(&format);
    assert!(result.contains("2024-09-30T08:00:07"));
    assert!(result.contains("[ERROR]"));
    assert!(result.contains("[STDERR]"));
    assert!(result.contains("Database connection failed"));
}

#[test]
fn test_extract_message_with_error_prefix() {
    let metadata = Metadata::new();
    let result = UnifiedFormatter::extract_message("Error: Failed to connect to Redis Connection timeout", &metadata);
    assert_eq!(result, "Failed to connect to Redis Connection timeout");
    let result = UnifiedFormatter::extract_message("ERROR: Database connection lost", &metadata);
    assert_eq!(result, "Database connection lost");
}

#[test]
fn test_normalize_timestamp_various_formats() {
    assert_eq!(
        UnifiedFormatter::normalize_timestamp(Some("2024-09-30T08:00:07.123456789Z".to_string())),
        Some("2024-09-30T08:00:07".to_string())
    );
    assert_eq!(
        UnifiedFormatter::normalize_timestamp(Some("2024-09-30 08:00:07,890".to_string())),
        Some("2024-09-30 08:00:07".to_string())
    );
    assert_eq!(
        UnifiedFormatter::normalize_timestamp(Some("09/30/2024 08:00:07.123".to_string())),
        Some("09/30/2024 08:00:07.123".to_string())
    );
}

#[test]
fn test_remove_leading_timestamp() {
    let content = "2024-09-30 08:00:07 ERROR Failed to connect to Redis";
    let result = UnifiedFormatter::remove_leading_timestamp(content);
    assert_eq!(result, "Failed to connect to Redis");
    let content = "Simple log message without timestamp";
    let result = UnifiedFormatter::remove_leading_timestamp(content);
    assert_eq!(result, "Simple log message without timestamp");
}

#[test]
fn display_string_exact_value() {
    let mut metadata = Metadata::new();
    metadata.insert("stream".to_string(), "stdout".to_string());
    metadata.insert("type".to_string(), "sql_prepare".to_string());
    let format = UnifiedLogFormat {
        timestamp: Some("2024-09-30T08:00:07".to_string()),
        level: Some("DEBUG".to_string()),
        thread: Some("main".to_string()),
        source: None,
        message: "SELECT 1".to_string(),
        metadata,
        raw_content: "SELECT 1".to_string(),
    };
    assert_eq!(
        UnifiedFormatter::format_display_string(&format),
        "2024-09-30T08:00:07 [DEBUG] (main) [STDOUT] [SQL] SELECT 1"
    );
}

#[test]
fn format_log_line_fills_metadata() {
    let mut metadata = Metadata::new();
    metadata.insert("thread".to_string(), "worker-1".to_string());
    let f = UnifiedFormatter::format_log_line(
        7,
        "WARN: disk almost full",
        Some("warning".to_string()),
        Some("2024-01-02 03:04:05.678".to_string()),
        &metadata,
        "raw",
    );
    assert_eq!(f.level, Some("WARN".to_string()));
    assert_eq!(f.timestamp, Some("2024-01-02 03:04:05".to_string()));
    assert_eq!(f.thread, Some("worker-1".to_string()));
    assert_eq!(f.message, "disk almost full");
    assert_eq!(f.metadata.get("line_number"), Some(&"7".to_string()));
    assert_eq!(f.metadata.get("processed_by"), Some(&"raw".to_string()));
}

#[test]
fn normalize_level_keeps_unknown_levels_in_upper_case() {
    assert_eq!(UnifiedFormatter::normalize_level(Some("notice".to_string())), Some("NOTICE".to_string()));
    assert_eq!(UnifiedFormatter::normalize_level(Some("Fatal".to_string())), Some("ERROR".to_string()));
    assert_eq!(UnifiedFormatter::normalize_level(None), None);
}

#[test]
fn color_codes() {
    assert_eq!(UnifiedFormatter::get_color_code(&Some("ERROR".to_string())), "\x1b[31m");
    assert_eq!(UnifiedFormatter::get_color_code(&Some("WARN".to_string())), "\x1b[33m");
    assert_eq!(UnifiedFormatter::reset_color(), "\x1b[0m");
}
