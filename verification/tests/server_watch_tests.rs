// Server lifecycle decisions and watch decision rules.

use rustocr::pdf::{get_page_count, has_extractable_text};
use rustocr::server::{choose_bridge_location, choose_server_location, get_pid_file_path,
    parse_pid, running_status, server_args, stop_decision, ScriptLocation, StopAction};
use rustocr::watch::{archive_target, plan_event, should_process, WatchConfig, WatchEvent,
    WatchEventKind};

#[test]
fn test_pid_file_path_value() {
    assert_eq!(get_pid_file_path(), "/tmp/rustocr_server.pid");
}

#[test]
fn test_parse_pid() {
    assert_eq!(parse_pid("12345"), Some(12345));
    assert_eq!(parse_pid(" 42\n"), Some(42));
    assert_eq!(parse_pid("+7"), Some(7));
    assert_eq!(parse_pid("007"), Some(7));
    assert_eq!(parse_pid(""), None);
    assert_eq!(parse_pid("  \n"), None);
    assert_eq!(parse_pid("12a"), None);
    assert_eq!(parse_pid("-3"), None);
    assert_eq!(parse_pid("99999999999"), None);
    assert_eq!(parse_pid("4294967295"), Some(4294967295));
    assert_eq!(parse_pid("4294967296"), None);
}

#[test]
fn test_script_resolution_order() {
    assert_eq!(choose_bridge_location(true, true, true), ScriptLocation::Primary);
    assert_eq!(choose_bridge_location(false, true, true), ScriptLocation::CurrentDir);
    assert_eq!(choose_bridge_location(false, false, true), ScriptLocation::CurrentDirRelative);
    assert_eq!(choose_bridge_location(false, false, false), ScriptLocation::Primary);
    assert_eq!(choose_server_location(false, true), ScriptLocation::CurrentDir);
    assert_eq!(choose_server_location(true, false), ScriptLocation::Primary);
    assert_eq!(choose_server_location(false, false), ScriptLocation::Primary);
}

#[test]
fn test_server_args_shape() {
    let args = server_args(&"0.0.0.0".to_string(), 8123);
    assert_eq!(args, vec!["--host", "0.0.0.0", "--port", "8123"]);
}

#[test]
fn test_stop_and_status_decisions() {
    assert_eq!(stop_decision(Some(77)), StopAction::Terminate(77));
    assert_eq!(stop_decision(None), StopAction::NotRunning);
    assert!(running_status(Some(1), true));
    assert!(!running_status(Some(1), false));
    assert!(!running_status(None, true));
}

#[test]
fn test_should_process_extensions() {
    let config = WatchConfig::default();
    assert!(should_process(&"a/b/photo.jpg".to_string(), true, &config));
    // case-insensitive
    assert!(should_process(&"SCAN.JPG".to_string(), true, &config));
    assert!(should_process(&"page.TIFF".to_string(), true, &config));
    // a disallowed extension never passes
    assert!(!should_process(&"notes.txt".to_string(), true, &config));
    // no extension, hidden file, or not a regular file
    assert!(!should_process(&"Makefile".to_string(), true, &config));
    assert!(!should_process(&".hidden".to_string(), true, &config));
    assert!(!should_process(&"photo.jpg".to_string(), false, &config));
}

#[test]
fn test_plan_event_filters() {
    let config = WatchConfig::default();
    let event = WatchEvent {
        kind: WatchEventKind::Create,
        paths: vec!["a.txt".to_string(), "b.jpg".to_string(), "c.PNG".to_string()],
    };
    let flags = vec![true, true, true];
    let plan = plan_event(&event, &flags, &config);
    assert_eq!(plan, vec!["b.jpg".to_string(), "c.PNG".to_string()]);

    // an irrelevant event kind plans nothing
    let other = WatchEvent { kind: WatchEventKind::Other, paths: vec!["b.jpg".to_string()] };
    assert!(plan_event(&other, &vec![true], &config).is_empty());

    // a directory (not a regular file) is never planned
    let dir_event = WatchEvent { kind: WatchEventKind::Modify, paths: vec!["d.jpg".to_string()] };
    assert!(plan_event(&dir_event, &vec![false], &config).is_empty());
}

#[test]
fn test_archive_target_paths() {
    assert_eq!(
        archive_target(&"in/scan.jpg".to_string(), &"done".to_string()),
        Some("done/scan.jpg".to_string())
    );
    assert_eq!(
        archive_target(&"scan.jpg".to_string(), &"done/".to_string()),
        Some("done/scan.jpg".to_string())
    );
    assert_eq!(archive_target(&"in/".to_string(), &"done".to_string()), None);
    assert_eq!(archive_target(&"in/..".to_string(), &"done".to_string()), None);
}

#[test]
fn test_pdf_placeholders() {
    assert_eq!(get_page_count(&"whatever.pdf".to_string()).unwrap(), 1);
    // a missing file has no extractable text
    assert!(!has_extractable_text(&"no-such-file-anywhere.pdf".to_string()));
}
