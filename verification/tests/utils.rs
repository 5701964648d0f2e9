use log_whisper::utils::performance::OperationTotals;
use log_whisper::utils::time_utils::TimeUtils;
use log_whisper::utils::encoding_detector::{EncodingDetector, TextEncoding};
use log_whisper::utils::file_utils::FileUtils;
use log_whisper::utils::performance::MemoryTracker;
use log_whisper::utils::string_utils::StringUtils;

#[test]
fn string_helpers() {
    assert_eq!(StringUtils::clean_string("  a b  "), "a b");
    assert_eq!(StringUtils::remove_extra_whitespace("  a \t\n b  "), "a b");
    assert_eq!(StringUtils::escape_html("<a href=\"x\">&'</a>"), "&lt;a href=&quot;x&quot;&gt;&amp;&#x27;&lt;/a&gt;");
    assert_eq!(StringUtils::truncate_string("hello world", 8), "hello...");
    assert_eq!(StringUtils::truncate_string("hello", 8), "hello");
    assert_eq!(StringUtils::truncate_string("hello", 2), "...");
    assert_eq!(
        StringUtils::highlight_keywords("an error and errors", &["error".to_string()]),
        "an <mark>error</mark> and errors"
    );
    assert_eq!(StringUtils::extract_json_strings("a {\"x\": 1} b {}"), vec!["{\"x\": 1}".to_string(), "{}".to_string()]);
    assert_eq!(StringUtils::extract_sql_statements("run select 1").len(), 1);
}

#[test]
fn file_helpers() {
    assert_eq!(FileUtils::get_file_extension("/var/log/App.LOG"), Some("log".to_string()));
    assert_eq!(FileUtils::get_file_extension("/var/log/noext"), None);
    assert!(FileUtils::validate_file_type("a.txt").is_ok());
    assert_eq!(FileUtils::validate_file_type("a.csv").err(), Some("不支持的文件类型: csv".to_string()));
    assert_eq!(FileUtils::validate_file_type("README").err(), Some("文件没有扩展名".to_string()));
    assert_eq!(FileUtils::preview_lines("a\nb\nc", 2), vec!["a".to_string(), "b".to_string()]);
    assert_eq!(FileUtils::preview_lines("a", 5), vec!["a".to_string()]);
}

#[test]
fn encoding_sample_and_bom() {
    let d = EncodingDetector::new();
    assert_eq!(d.sample_size(), 8192);
    let d = d.with_sample_size(4);
    assert_eq!(d.sample_len(10), 4);
    assert_eq!(d.sample_len(3), 3);
    let bom = |b: &[u8]| d.check_bom(b).map(|r| (r.encoding, r.confidence_tenths, r.encoding_name));
    assert_eq!(bom(&[0xEF, 0xBB, 0xBF, 0x41]), Some((TextEncoding::Utf8, 10, "UTF-8".to_string())));
    assert_eq!(bom(&[0xFF, 0xFE]), Some((TextEncoding::Utf16Le, 10, "UTF-16LE".to_string())));
    assert_eq!(bom(&[0xFE, 0xFF]), Some((TextEncoding::Utf16Be, 10, "UTF-16BE".to_string())));
    assert_eq!(bom(&[0x41]), None);
}

#[test]
fn test_utf8_detection() {
    let detector = EncodingDetector::new();
    let utf8_text = "Hello, 世界! This is a UTF-8 test.";
    let result = detector.detect_encoding(utf8_text.as_bytes()).unwrap();
    assert_eq!(result.encoding, TextEncoding::Utf8);
    assert!(result.confidence_tenths > 5);
}

#[test]
fn test_empty_bytes() {
    let detector = EncodingDetector::new();
    let result = detector.detect_encoding(&[]).unwrap();
    assert_eq!(result.encoding, TextEncoding::Utf8);
    assert_eq!(result.confidence_tenths, 10);
}

#[test]
fn test_bom_detection() {
    let detector = EncodingDetector::new();
    let utf8_bom = [0xEF, 0xBB, 0xBF, b'H', b'e', b'l', b'l', b'o'];
    let result = detector.detect_encoding(&utf8_bom).unwrap();
    assert_eq!(result.encoding, TextEncoding::Utf8);
    assert_eq!(result.confidence_tenths, 10);
}

#[test]
fn test_log_keywords_bonus() {
    let detector = EncodingDetector::new();
    let log_text = "2024-01-01 10:00:00 INFO Starting application...";
    let result = detector.detect_encoding(log_text.as_bytes()).unwrap();
    assert_eq!(result.encoding, TextEncoding::Utf8);
    assert!(result.confidence_tenths > 6);
}

#[test]
fn encoding_confidences_in_tenths() {
    let d = EncodingDetector::new();
    assert_eq!(d.analyze_text_characteristics("日志 ERROR", TextEncoding::Gbk), 4);
    assert_eq!(d.analyze_text_characteristics("plain ascii", TextEncoding::Utf8), 2);
    assert_eq!(d.analyze_text_characteristics("日志日志日志 a", TextEncoding::Utf8), 4);
    assert_eq!(d.analyze_text_characteristics("日志", TextEncoding::Utf16Le), 1);
    assert_eq!(d.calculate_encoding_confidence(&[0xFF, 0xFF, 0xFF], TextEncoding::Utf8), 0);
    assert_eq!(d.calculate_encoding_confidence(b"INFO ok", TextEncoding::Utf8), 9);
    // GBK bytes of the two characters of "日志" that are not valid UTF-8
    let gbk = [0xC8, 0xD5, 0xD6, 0xBE];
    let r = d.detect_encoding(&gbk).unwrap();
    assert_eq!(r.encoding, TextEncoding::Gbk);
    assert_eq!(r.confidence_tenths, 10);
    assert_eq!(r.encoding_name, "GBK");
    let r = d.with_sample_size(2).detect_encoding(&[0xFE, 0xFF, 0x00, 0x41]).unwrap();
    assert_eq!(r.encoding, TextEncoding::Utf16Be);
}

#[test]
fn memory_peak_is_highest_report() {
    let mut t = MemoryTracker::new();
    t.record_memory_usage(10);
    t.record_memory_usage(30);
    t.record_memory_usage(20);
    let s = t.get_memory_stats();
    assert_eq!(s.current_memory_bytes, 20);
    assert_eq!(s.peak_memory_bytes, 30);
}

#[test]
fn timestamps_read_and_shown() {
    assert_eq!(TimeUtils::parse_timestamp("2024-01-01 10:00:00 +0000"), Some(1704103200000));
    assert_eq!(TimeUtils::parse_timestamp("2024-01-01 10:00:00.250 +0100"), Some(1704099600250));
    assert_eq!(TimeUtils::parse_timestamp("2024-01-01 10:00:00"), None);
    assert_eq!(TimeUtils::parse_timestamp("yesterday"), None);
    assert_eq!(TimeUtils::format_timestamp(1704103200123), Some("2024-01-01 10:00:00.123".to_string()));
    assert_eq!(TimeUtils::time_diff_ms(5, 3), -2);
    let now = TimeUtils::current_timestamp().unwrap();
    assert!(now > 1704103200000);
    assert!(TimeUtils::format_relative_time(now).unwrap().ends_with("秒前"));
}

#[test]
fn relative_times() {
    assert_eq!(TimeUtils::relative_time_at(0, 59_999), Some("59秒前".to_string()));
    assert_eq!(TimeUtils::relative_time_at(0, 90_000), Some("1分钟前".to_string()));
    assert_eq!(TimeUtils::relative_time_at(0, 7_200_000), Some("2小时前".to_string()));
    assert_eq!(TimeUtils::relative_time_at(0, 3 * 86_400_000), Some("3天前".to_string()));
    assert_eq!(TimeUtils::relative_time_at(0, 40 * 86_400_000), Some("1970-01-01".to_string()));
    assert_eq!(TimeUtils::relative_time_at(2_500, 0), Some("-2秒前".to_string()));
}

#[test]
fn operation_totals_add_up_and_wrap() {

    let mut t = OperationTotals::new();
    t.record(5);
    t.record(7);
    assert_eq!((t.operation_count, t.total_duration_ms), (2, 12));
    t.total_duration_ms = u64::MAX;
    t.record(3);
    assert_eq!((t.operation_count, t.total_duration_ms), (3, 2));
}

#[test]
fn text_read_in_its_detected_encoding() {
    let d = EncodingDetector::new();
    let (t, r) = d.read_text_with_encoding("INFO 日志 ok".as_bytes()).unwrap();
    assert_eq!(t, "INFO 日志 ok");
    assert_eq!(r.encoding, TextEncoding::Utf8);
    let (t, r) = d.read_text_with_encoding(&[0xC8, 0xD5, 0xD6, 0xBE]).unwrap();
    assert_eq!(r.encoding, TextEncoding::Gbk);
    assert_eq!(t, "日志");
    let (t, r) = d.read_text_with_encoding(&[0xEF, 0xBB, 0xBF, b'a', 0xFF]).unwrap();
    assert_eq!(r.encoding, TextEncoding::Utf8);
    assert_eq!(t, "\u{FEFF}a\u{FFFD}");
}

#[test]
fn keywords_with_meta_characters_match_literally() {
    let r = StringUtils::highlight_keywords("a.b and axb", &["a.b".to_string()]);
    assert_eq!(r, "<mark>a.b</mark> and axb");
}
