use service_manager::aggregate::aggregate_services;
use service_manager::control::{check_capability, control_invocation, ControlError, ServiceAction};
use service_manager::record::{status_class, Backend, ServiceRecord, StatusClass};
use service_manager::select::{
    find_service, record_is_start_candidate, record_is_stop_candidate, start_label, start_menu,
    stop_label, stop_menu,
};

fn record(name: &str, status: &str, pid: Option<&str>, backend: Backend) -> ServiceRecord {
    ServiceRecord {
        name: name.to_string(),
        status: status.to_string(),
        pid: pid.map(|p| p.to_string()),
        backend,
    }
}

#[test]
fn aggregation_is_ordered_and_not_deduplicated() {
    let native = vec![
        record("a", "running", Some("1"), Backend::Native),
        record("b", "stopped", None, Backend::Native),
    ];
    let package = vec![record("c", "started", None, Backend::PackageManager)];
    let combined = aggregate_services(native, package, true, true);
    let names: Vec<&str> = combined.iter().map(|r| r.name.as_str()).collect();
    assert_eq!(names, vec!["a", "b", "c"]);

    let native = vec![
        record("x", "running", Some("1"), Backend::Native),
        record("x", "started", None, Backend::Native),
    ];
    let package = vec![record("x", "started", None, Backend::PackageManager)];
    let combined = aggregate_services(native, package, true, true);
    assert_eq!(combined.len(), 3);
}

#[test]
fn aggregation_skips_package_records_unless_opted_in_and_available() {
    let native = vec![record("a", "running", Some("1"), Backend::Native)];
    let package = vec![record("c", "started", None, Backend::PackageManager)];
    assert_eq!(aggregate_services(native.clone(), package.clone(), false, true).len(), 1);
    assert_eq!(aggregate_services(native.clone(), package.clone(), true, false).len(), 1);
    assert_eq!(aggregate_services(native, package, true, true).len(), 2);
}

#[test]
fn start_candidates_cover_the_broader_package_condition() {
    let starting = record("r", "starting", None, Backend::PackageManager);
    let started = record("r", "started", None, Backend::PackageManager);
    let stopped_native = record("n", "stopped", None, Backend::Native);
    let running_native = record("n", "running", Some("9"), Backend::Native);
    let odd_native = record("n", "weird", None, Backend::Native);
    assert!(record_is_start_candidate(&starting));
    assert!(!record_is_start_candidate(&started));
    assert!(record_is_start_candidate(&stopped_native));
    assert!(!record_is_start_candidate(&running_native));
    assert!(!record_is_start_candidate(&odd_native));
}

#[test]
fn stop_candidates_are_exactly_running_or_started() {
    assert!(record_is_stop_candidate(&record("a", "running", Some("1"), Backend::Native)));
    assert!(record_is_stop_candidate(&record("b", "started", None, Backend::PackageManager)));
    assert!(!record_is_stop_candidate(&record("c", "starting", None, Backend::PackageManager)));
    assert!(!record_is_stop_candidate(&record("d", "stopped", None, Backend::Native)));
}

#[test]
fn start_menu_lists_candidates_with_labels() {
    let records = vec![
        record("com.apple.Foo", "running", Some("1234"), Backend::Native),
        record("com.apple.Bar", "stopped", None, Backend::Native),
        record("redis", "none", None, Backend::PackageManager),
    ];
    let (positions, labels) = start_menu(&records);
    assert_eq!(positions, vec![1, 2]);
    assert_eq!(labels, vec!["com.apple.Bar [LAUNCHD]", "redis [BREW]"]);
}

#[test]
fn start_menu_empty_when_all_running() {
    let records = vec![
        record("a", "running", Some("1"), Backend::Native),
        record("b", "started", None, Backend::PackageManager),
    ];
    let (positions, labels) = start_menu(&records);
    assert!(positions.is_empty());
    assert!(labels.is_empty());
}

#[test]
fn stop_menu_appends_pid_to_labels() {
    let records = vec![
        record("com.apple.Foo", "running", Some("1234"), Backend::Native),
        record("redis", "started", None, Backend::PackageManager),
        record("com.apple.Bar", "stopped", None, Backend::Native),
    ];
    let (positions, labels) = stop_menu(&records);
    assert_eq!(positions, vec![0, 1]);
    assert_eq!(labels, vec!["com.apple.Foo [LAUNCHD] (PID: 1234)", "redis [BREW]"]);
}

#[test]
fn stop_menu_empty_when_nothing_running() {
    let records = vec![record("a", "stopped", None, Backend::Native)];
    let (positions, labels) = stop_menu(&records);
    assert!(positions.is_empty());
    assert!(labels.is_empty());
}

#[test]
fn labels_have_exact_format() {
    let native = record("com.apple.Foo", "running", Some("42"), Backend::Native);
    assert_eq!(start_label(&native), "com.apple.Foo [LAUNCHD]");
    assert_eq!(stop_label(&native), "com.apple.Foo [LAUNCHD] (PID: 42)");
    let pkg = record("redis", "started", None, Backend::PackageManager);
    assert_eq!(start_label(&pkg), "redis [BREW]");
    assert_eq!(stop_label(&pkg), "redis [BREW]");
}

#[test]
fn lookup_finds_first_match_or_none() {
    let records = vec![
        record("a", "running", Some("1"), Backend::Native),
        record("b", "stopped", None, Backend::Native),
        record("b", "running", Some("2"), Backend::Native),
    ];
    assert_eq!(find_service(&records, "b"), Some(1));
    assert_eq!(find_service(&records, "a"), Some(0));
    assert_eq!(find_service(&records, "absent"), None);
    assert_eq!(find_service(&Vec::new(), "x"), None);
}

#[test]
fn control_commands_match_each_backend() {
    let inv = control_invocation("com.apple.Foo", Backend::Native, ServiceAction::Start, false)
        .unwrap();
    assert_eq!(inv.program, "launchctl");
    assert_eq!(inv.args, vec!["load", "-w", "com.apple.Foo"]);

    let inv = control_invocation("com.apple.Foo", Backend::Native, ServiceAction::Stop, false)
        .unwrap();
    assert_eq!(inv.program, "launchctl");
    assert_eq!(inv.args, vec!["unload", "-w", "com.apple.Foo"]);

    let inv = control_invocation("redis", Backend::PackageManager, ServiceAction::Start, true)
        .unwrap();
    assert_eq!(inv.program, "brew");
    assert_eq!(inv.args, vec!["services", "start", "redis"]);

    let inv = control_invocation("redis", Backend::PackageManager, ServiceAction::Stop, true)
        .unwrap();
    assert_eq!(inv.program, "brew");
    assert_eq!(inv.args, vec!["services", "stop", "redis"]);
}

#[test]
fn package_control_refused_without_capability() {
    let err = control_invocation("redis", Backend::PackageManager, ServiceAction::Start, false);
    assert!(matches!(err, Err(ControlError::PackageManagerUnavailable)));
    assert!(check_capability(true, false).is_err());
    assert!(check_capability(true, true).is_ok());
    assert!(check_capability(false, false).is_ok());
}

#[test]
fn status_tokens_classify_three_ways() {
    assert!(status_class("running") == StatusClass::Positive);
    assert!(status_class("started") == StatusClass::Positive);
    assert!(status_class("stopped") == StatusClass::Negative);
    assert!(status_class("starting") == StatusClass::Neutral);
    assert!(status_class("") == StatusClass::Neutral);
}
