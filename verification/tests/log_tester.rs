use log_tester::CapturedLog;
use log_tester::Level;
use log_tester::LogTester;

fn emit(t: &mut LogTester, level: Level, body: &str) {
    t.log(CapturedLog::new(level, String::from(body), String::from("log_tester")));
}

fn emit_one_per_level(t: &mut LogTester) {
    emit(t, Level::Trace, "trace");
    emit(t, Level::Debug, "debug");
    emit(t, Level::Info, "info");
    emit(t, Level::Warn, "warn");
    emit(t, Level::Error, "error");
}

#[test]
fn test_log() {
    let mut t = LogTester::new();
    t.start();
    assert_eq!(t.len(), 0);
    emit_one_per_level(&mut t);
    assert!(t.contains(Level::Trace, "trace"));
    assert!(t.contains(Level::Debug, "debug"));
    assert!(t.contains(Level::Info, "info"));
    assert!(t.contains(Level::Warn, "warn"));
    assert!(t.contains(Level::Error, "error"));
    assert!(!t.contains(Level::Info, "nothing"));
    assert_eq!(t.len(), 5);
}

#[test]
fn test_max_level() {
    let mut t = LogTester::new();
    t.start();
    assert!(t.enabled(Level::Trace));
    assert!(t.enabled(Level::Debug));
    assert!(t.enabled(Level::Info));
    assert!(t.enabled(Level::Warn));
    assert!(t.enabled(Level::Error));
}

#[test]
fn test_flush() {
    let mut t = LogTester::new();
    t.start();
    t.flush();
}

#[test]
fn test_clear() {
    let mut t = LogTester::new();
    t.start();
    emit_one_per_level(&mut t);
    assert_eq!(t.len(), 5);
    t.clear();
    assert_eq!(t.len(), 0);
}

#[test]
fn test_display() {
    let mut t = LogTester::new();
    t.start();
    emit_one_per_level(&mut t);
    assert!(t.render().contains("trace"));
    assert!(t.render().contains("debug"));
    assert!(t.render().contains("info"));
    assert!(t.render().contains("warn"));
    assert!(t.render().contains("error"));
}

#[test]
fn test_debug() {
    let mut t = LogTester::new();
    t.start();
    emit_one_per_level(&mut t);
    assert!(format!("{:?}", t).contains("trace"));
    assert!(format!("{:?}", t).contains("debug"));
    assert!(format!("{:?}", t).contains("info"));
    assert!(format!("{:?}", t).contains("warn"));
    assert!(format!("{:?}", t).contains("error"));
}

#[test]
fn start_twice_is_noop() {
    let mut t = LogTester::new();
    t.start();
    emit(&mut t, Level::Info, "once");
    t.start();
    assert_eq!(t.len(), 1);
    assert!(t.contains(Level::Info, "once"));
}

#[test]
fn render_joins_bodies_in_order() {
    let mut t = LogTester::new();
    t.start();
    assert_eq!(t.render(), "");
    emit(&mut t, Level::Info, "first");
    emit(&mut t, Level::Warn, "second");
    assert_eq!(t.len(), 2);
    assert_eq!(t.render(), "first\nsecond\n");
}

#[test]
fn contains_matches_inner_substring() {
    let mut t = LogTester::new();
    t.start();
    emit(&mut t, Level::Info, "hello world");
    assert!(t.contains(Level::Info, "lo wor"));
    assert!(t.contains(Level::Info, ""));
    assert!(!t.contains(Level::Info, "worlds"));
    assert!(!t.contains(Level::Warn, "hello"));
}

#[test]
fn empty_store_queries_are_total() {
    let t = LogTester::new();
    assert_eq!(t.len(), 0);
    assert!(!t.contains(Level::Error, ""));
    assert_eq!(t.render(), "");
}

#[test]
fn clear_falsifies_previous_queries() {
    let mut t = LogTester::new();
    t.start();
    emit_one_per_level(&mut t);
    assert!(t.contains(Level::Trace, "trace"));
    t.clear();
    assert_eq!(t.len(), 0);
    assert!(!t.contains(Level::Trace, "trace"));
    assert!(!t.contains(Level::Debug, "debug"));
    assert!(!t.contains(Level::Info, "info"));
    assert!(!t.contains(Level::Warn, "warn"));
    assert!(!t.contains(Level::Error, "error"));
    assert_eq!(t.render(), "");
}

#[test]
fn captured_log_renders_its_body() {
    let entry = CapturedLog::new(Level::Debug, String::from("a message"), String::from("core"));
    assert_eq!(entry.render(), "a message");
    assert_eq!(entry.body, "a message");
    assert_eq!(entry.level, Level::Debug);
    assert_eq!(entry.target, "core");
}
