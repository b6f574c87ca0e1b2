use service_manager::parse::{parse_native_listing, parse_package_listing};
use service_manager::record::Backend;
use service_manager::text::{split_fields, split_lines};

#[test]
fn native_example_listing() {
    let text = "PID\tStatus\tLabel\n1234  0  com.apple.Foo\n-  0  com.apple.Bar\n";
    let records = parse_native_listing(text, false);
    assert_eq!(records.len(), 2);
    assert_eq!(records[0].name, "com.apple.Foo");
    assert_eq!(records[0].status, "running");
    assert_eq!(records[0].pid.as_deref(), Some("1234"));
    assert!(records[0].backend == Backend::Native);
    assert_eq!(records[1].name, "com.apple.Bar");
    assert_eq!(records[1].status, "stopped");
    assert_eq!(records[1].pid, None);
    assert!(records[1].backend == Backend::Native);
}

#[test]
fn native_short_lines_yield_no_record() {
    let text = "PID Status Label\n77 0\n\n  \nonly\n512 0 com.apple.Ok\n";
    let records = parse_native_listing(text, false);
    assert_eq!(records.len(), 1);
    assert_eq!(records[0].name, "com.apple.Ok");
    assert_eq!(records[0].status, "running");
    assert_eq!(records[0].pid.as_deref(), Some("512"));
}

#[test]
fn native_running_filter() {
    let text = "PID Status Label\n1 0 com.a\n- 0 com.b\n2 0 com.c\n";
    let records = parse_native_listing(text, true);
    assert_eq!(records.len(), 2);
    assert_eq!(records[0].name, "com.a");
    assert_eq!(records[1].name, "com.c");
}

#[test]
fn native_header_only_or_empty() {
    assert_eq!(parse_native_listing("", false).len(), 0);
    assert_eq!(parse_native_listing("PID Status Label\n", false).len(), 0);
}

#[test]
fn package_example_line_filter_off() {
    let text = "Name Status\nredis started\n";
    let records = parse_package_listing(text, false);
    assert_eq!(records.len(), 1);
    assert_eq!(records[0].name, "redis");
    assert_eq!(records[0].status, "started");
    assert_eq!(records[0].pid, None);
    assert!(records[0].backend == Backend::PackageManager);
}

#[test]
fn package_filter_keeps_exact_started_only() {
    let text = "Name Status\nredis started\nmysql stopped\n";
    let filtered = parse_package_listing(text, true);
    assert_eq!(filtered.len(), 1);
    assert_eq!(filtered[0].name, "redis");
    let unfiltered = parse_package_listing(text, false);
    assert_eq!(unfiltered.len(), 2);
}

#[test]
fn package_filter_is_case_and_token_exact() {
    let text = "Name Status\na Started\nb starting\nc started\n";
    let filtered = parse_package_listing(text, true);
    assert_eq!(filtered.len(), 1);
    assert_eq!(filtered[0].name, "c");
}

#[test]
fn package_short_lines_yield_no_record() {
    let text = "Name Status\nlonely\n\nmysql stopped extra\n";
    let records = parse_package_listing(text, false);
    assert_eq!(records.len(), 1);
    assert_eq!(records[0].name, "mysql");
    assert_eq!(records[0].status, "stopped");
}

#[test]
fn package_status_passed_through_unmodified() {
    let text = "Name Status\nfoo weird_token\n";
    let records = parse_package_listing(text, false);
    assert_eq!(records[0].status, "weird_token");
}

#[test]
fn fields_split_on_runs_of_whitespace() {
    let fields = split_fields("  a \t bb\u{a0}ccc  ");
    assert_eq!(fields, vec!["a", "bb", "ccc"]);
    assert!(split_fields("").is_empty());
    assert!(split_fields(" \t ").is_empty());
}

#[test]
fn splitting_matches_std() {
    for text in ["a\rb\nc", "one\ntwo\r\nthree\r", "x\n\ny", "", "\n", "\r\n", "a\n\r\nb"] {
        let got = split_lines(text);
        let want: Vec<&str> = text.lines().collect();
        assert_eq!(got, want, "lines of {text:?}");
    }
    for line in ["  a b ", "", "\t", "a\u{a0}b\u{3000}c", "w\u{2003}x", "-  0  com.apple.Bar"] {
        let got = split_fields(line);
        let want: Vec<&str> = line.split_whitespace().collect();
        assert_eq!(got, want, "fields of {line:?}");
    }
}

#[test]
fn lines_split_like_std_lines() {
    let lines = split_lines("one\ntwo\r\nthree");
    assert_eq!(lines, vec!["one", "two", "three"]);
    let lines = split_lines("tail\n");
    assert_eq!(lines, vec!["tail"]);
    assert!(split_lines("").is_empty());
}
