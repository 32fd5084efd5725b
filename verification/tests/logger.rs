use dzahui::logger::{
    enabled, format_registry, latest_log_number, level_label, log_file_name, trace_name, LogFiles,
    LogLevel, TraceName,
};
use dzahui::numbers::IntErrorKind;

#[test]
fn trace_names() {
    assert_eq!(trace_name("trace-12.log"), TraceName::Number(12));
    assert_eq!(trace_name("trace-0.log"), TraceName::Number(0));
    assert_eq!(trace_name("trace-007.log"), TraceName::Number(7));
    assert_eq!(trace_name("trace-.log"), TraceName::NoMatch);
    assert_eq!(trace_name("trace-1.log.bak"), TraceName::NoMatch);
    assert_eq!(trace_name("old-trace-1.log"), TraceName::NoMatch);
    assert_eq!(trace_name("trace-1xlog"), TraceName::NoMatch);
    assert_eq!(trace_name("trace-x.log"), TraceName::NoMatch);
    assert_eq!(
        trace_name("trace-99999999999999999999.log"),
        TraceName::Unreadable(IntErrorKind::PosOverflow)
    );
    assert_eq!(trace_name("trace-9223372036854775807.log"), TraceName::Number(i64::MAX));
}

#[test]
fn latest_log_file() {
    let names: Vec<String> = vec!["trace-2.log".into(), "notes.txt".into(), "trace-10.log".into(), "trace-9.log".into()];
    assert_eq!(latest_log_number(&names), Some(10));
    assert_eq!(latest_log_number(&vec![]), Some(-1));
    assert_eq!(latest_log_number(&vec!["readme".to_string()]), Some(-1));
    let bad: Vec<String> = vec!["trace-1.log".into(), "trace-99999999999999999999.log".into()];
    assert_eq!(latest_log_number(&bad), None);
}

#[test]
fn log_file_names() {
    assert_eq!(log_file_name(0), "trace-0.log");
    assert_eq!(log_file_name(42), "trace-42.log");
    assert_eq!(log_file_name(-1), "trace--1.log");
}

#[test]
fn resuming_the_log() {
    let fresh = LogFiles::resume(-1, 0, 3);
    assert_eq!(fresh.current_number(), 0);
    assert_eq!(fresh.line_count(), 0);
    let cont = LogFiles::resume(4, 2, 3);
    assert_eq!(cont.current_number(), 4);
    assert_eq!(cont.line_count(), 2);
    assert_eq!(cont.current_file_name(), "trace-4.log");
    let full = LogFiles::resume(4, 3, 3);
    assert_eq!(full.current_number(), 5);
    assert_eq!(full.line_count(), 0);
}

#[test]
fn files_rotate_at_the_maximum() {
    let mut files = LogFiles::resume(-1, 0, 3);
    assert!(!files.record_written());
    assert!(!files.record_written());
    assert_eq!(files.line_count(), 2);
    assert!(files.record_written());
    assert_eq!(files.current_number(), 1);
    assert_eq!(files.line_count(), 0);
    assert_eq!(files.current_file_name(), "trace-1.log");
    // A file of one line rotates on every record.
    let mut single = LogFiles::resume(7, 0, 1);
    assert!(single.record_written());
    assert!(single.record_written());
    assert_eq!(single.current_number(), 9);
}

#[test]
fn level_labels() {
    assert_eq!(level_label(LogLevel::Error), "\u{1b}[0;31mERROR\u{1b}[0m");
    assert_eq!(level_label(LogLevel::Warn), "\u{1b}[0;33mWARN\u{1b}[0m");
    assert_eq!(level_label(LogLevel::Info), "\u{1b}[0;36mINFO\u{1b}[0m");
    assert_eq!(level_label(LogLevel::Debug), "\u{1b}[0;35mDEBUG\u{1b}[0m");
    assert_eq!(level_label(LogLevel::Trace), "TRACE");
    assert!(enabled(LogLevel::Trace));
}

#[test]
fn records() {
    assert_eq!(
        format_registry("2024-01-01 10:00:00,000", "dzahui", LogLevel::Trace, "hi"),
        "2024-01-01 10:00:00,000 dzahui[           TRACE]: hi"
    );
    assert_eq!(
        format_registry("t", "id", LogLevel::Error, "boom"),
        "t id[\u{1b}[0;31mERROR\u{1b}[0m]: boom"
    );
    assert_eq!(
        format_registry("t", "id", LogLevel::Warn, "w"),
        format!("t id[{:>16}]: w", "\u{1b}[0;33mWARN\u{1b}[0m")
    );
}

#[test]
fn log_file_names_read_back() {
    for n in [0i64, 7, 10, 123456, i64::MAX] {
        assert_eq!(trace_name(&log_file_name(n)), TraceName::Number(n));
    }
}
