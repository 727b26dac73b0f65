use lynx_mcp::browser::instance::{
    auth_login_report, click_needs_retry, click_report, compact_text, dismissed_report, eval_gate,
    finish_compact, intervention_done_report, intervention_timeout_report, is_interactive_filter,
    key_codes, launch_plan, locate_outcome, missing_file_error, navigate_report, no_file_input_error,
    press_outcome, stable_report, stable_timeout_report, stale_lock_files, truncate_page_text,
    type_text_outcome, upload_report, upload_selector_for, viewport_for_screen, screen_viewport,
    BrowserInstance, DiffSummary, RefMap, StabilityTracker, file_name, known_ref, upload_file_names,
};
use lynx_mcp::error::LynxError;
use lynx_mcp::types::SnapshotNode;

fn node(ref_id: &str, role: &str, name: &str) -> SnapshotNode {
    SnapshotNode {
        ref_id: ref_id.to_string(),
        role: role.to_string(),
        name: name.to_string(),
        description: None,
        value: None,
        interactive: false,
        children: Vec::new(),
    }
}

#[test]
fn ref_map_resolves_last_insert() {
    let mut m = RefMap::new();
    assert!(m.resolve("e0").is_none());
    m.insert("e0".to_string(), 5);
    m.insert("e1".to_string(), 6);
    m.insert("e0".to_string(), 9);
    assert_eq!(m.resolve("e0"), Some(&9));
    assert_eq!(m.resolve("e1"), Some(&6));
    assert!(m.resolve("e2").is_none());
}

#[test]
fn instance_info_and_liveness() {
    let inst = BrowserInstance::new("id1".to_string(), "p".to_string(), (), "t".to_string(), false, true);
    let info = inst.info(true, "https://example.com/");
    assert_eq!(info.status, "alive");
    assert_eq!(info.url, "https://example.com/");
    assert_eq!(info.id, "id1");
    assert_eq!(info.profile, "p");
    assert_eq!(inst.info(false, "").status, "dead");
    assert!(inst.check_alive(true).is_ok());
    match inst.check_alive(false) {
        Err(LynxError::Browser(m)) => assert_eq!(m, "Instance 'id1' is dead (Chrome process exited). Destroy and recreate it."),
        _ => panic!("expected a Browser error"),
    }
}

#[test]
fn record_snapshot_reports_diff() {
    let mut inst = BrowserInstance::new("i".to_string(), "p".to_string(), (), "t".to_string(), true, false);
    let first = inst.record_snapshot(vec![node("e0", "button", "OK")], RefMap::new(), 1, true);
    assert!(matches!(first, Some(DiffSummary::First(ref m)) if m == "First snapshot — no diff available"));
    let second = inst.record_snapshot(vec![node("e0", "button", "OK"), node("e1", "link", "x")], RefMap::new(), 2, true);
    assert!(matches!(second, Some(DiffSummary::Changes(ref c)) if c == "Added: e1"));
    assert_eq!(inst.snapshot_version, 2);
    let third = inst.record_snapshot(vec![], RefMap::new(), 3, false);
    assert!(third.is_none());
    assert_eq!(inst.last_snapshot.as_ref().unwrap().len(), 0);
}

#[test]
fn compact_output_truncates_and_prefixes_diff() {
    let nodes = vec![node("e0", "button", "OK"), node("e1", "link", "Help")];
    let text = compact_text(&nodes);
    assert_eq!(text, "e0 [button] \"OK\"\ne1 [link] \"Help\"");
    assert_eq!(finish_compact(&text, None, &None), text);
    assert_eq!(finish_compact(&text, Some(2), &None), "e0 [butt\n... (truncated)");
    let changes = Some(DiffSummary::Changes("Added: e1".to_string()));
    assert_eq!(finish_compact(&text, Some(100), &changes), "Added: e1");
    assert_eq!(finish_compact(&text, Some(2), &changes), "Added: e1");
    let first = Some(DiffSummary::First("First snapshot — no diff available".to_string()));
    assert_eq!(
        finish_compact(&text, None, &first),
        format!("First snapshot — no diff available\n---\n{text}")
    );
    assert_eq!(DiffSummary::Changes("x".to_string()).into_text(), "x");
}

#[test]
fn page_text_truncation() {
    assert_eq!(truncate_page_text("hello world", 1), "hell... (truncated)");
    assert_eq!(truncate_page_text("hello", 2), "hello");
    assert_eq!(truncate_page_text("ééé", 1), "éé... (truncated)");
}

#[test]
fn filter_and_keys() {
    assert!(is_interactive_filter(Some("interactive")));
    assert!(!is_interactive_filter(Some("all")));
    assert!(!is_interactive_filter(None));
    assert_eq!(key_codes("Enter"), ("Enter".to_string(), "Enter".to_string()));
    assert_eq!(key_codes("Space"), (" ".to_string(), "Space".to_string()));
    assert_eq!(key_codes(" "), (" ".to_string(), "Space".to_string()));
    assert_eq!(key_codes("F5"), ("F5".to_string(), "F5".to_string()));
}

#[test]
fn press_and_type_outcomes() {
    assert_eq!(press_outcome("e3", "Tab", "pressed").unwrap(), "Pressed Tab on e3");
    match press_outcome("e3", "Tab", "not_found") {
        Err(LynxError::ElementNotFound(m)) => assert_eq!(m, "e3 not found in DOM walk"),
        _ => panic!("expected ElementNotFound"),
    }
    assert_eq!(type_text_outcome("e1", "hi", "typed:execCommand").unwrap(), "Typed into e1 via execCommand: hi");
    assert_eq!(type_text_outcome("e1", "hi", "weird").unwrap(), "Typed into e1 via unknown: hi");
    assert!(matches!(type_text_outcome("e1", "hi", "not_found"), Err(LynxError::ElementNotFound(_))));
}

#[test]
fn click_helpers() {
    assert!(click_needs_retry(&Err(LynxError::ElementNotFound("e1".to_string()))));
    assert!(!click_needs_retry(&Err(LynxError::Browser("x".to_string()))));
    assert!(!click_needs_retry(&Ok("ok".to_string())));
    match locate_outcome("e2", "not_found") {
        Err(LynxError::ElementNotFound(m)) => assert_eq!(m, "e2 not found in DOM"),
        _ => panic!("expected ElementNotFound"),
    }
    assert!(locate_outcome("e2", "{\"x\":1}").is_ok());
    assert_eq!(click_report("e2", "BUTTON", "Go"), "Clicked e2 (BUTTON:Go)");
}

#[test]
fn reports() {
    assert_eq!(navigate_report("https://a.b/", "A", None), "Navigated to: https://a.b/\nTitle: A");
    assert_eq!(
        navigate_report("u", "t", Some("Login form detected")),
        "Navigated to: u\nTitle: t\n⚠️ Intervention required: Login form detected"
    );
    assert_eq!(dismissed_report(3), "Dismissed 3 overlay(s)");
    assert_eq!(dismissed_report(-12), "Dismissed -12 overlay(s)");
    assert_eq!(dismissed_report(i64::MIN), "Dismissed -9223372036854775808 overlay(s)");
    assert_eq!(stable_report(1500), "Page stable after 1500ms");
    assert_eq!(stable_timeout_report(10000), "Timeout after 10000ms (may still be loading)");
    assert_eq!(intervention_done_report(0), "User completed intervention after 0ms");
    assert_eq!(intervention_timeout_report(30000), "Intervention timed out after 30000ms (user did not click Done)");
    assert_eq!(auth_login_report("github", "alice", "https://x", "log"), "Auth login for 'github' (user: alice)\nURL: https://x\nlog");
    assert!(eval_gate(true).is_ok());
    match eval_gate(false) {
        Err(e) => assert_eq!(e.message(), "JavaScript evaluation error: JavaScript evaluation is disabled (LYNX_EVAL_ENABLED=false)"),
        Ok(()) => panic!("expected an error"),
    }
}

#[test]
fn stability_needs_three_repeats() {
    let mut t = StabilityTracker::new();
    assert!(!t.observe("".to_string()));
    assert!(!t.observe("".to_string()));
    assert!(!t.observe("a".to_string()));
    assert!(!t.observe("a".to_string()));
    assert!(!t.observe("b".to_string()));
    assert!(!t.observe("b".to_string()));
    assert!(!t.observe("b".to_string()));
    assert!(t.observe("b".to_string()));
}

#[test]
fn upload_helpers() {
    let mut m = RefMap::new();
    m.insert("e4".to_string(), 0);
    assert_eq!(upload_selector_for(&m, Some("e4")).unwrap(), "[data-lynx-ref=\"e4\"]");
    assert_eq!(upload_selector_for(&m, None).unwrap(), "input[type=file]");
    match upload_selector_for(&m, Some("e9")) {
        Err(LynxError::ElementNotFound(r)) => assert_eq!(r, "e9"),
        _ => panic!("expected ElementNotFound"),
    }
    assert_eq!(upload_report(2, &vec!["a.txt".to_string(), "b.pdf".to_string()]), "Uploaded 2 file(s): a.txt, b.pdf");
    assert_eq!(missing_file_error("/x").message(), "Browser error: File not found: /x");
    assert_eq!(no_file_input_error().message(), "Element not found: ref=No file input element found on page");
}

#[test]
fn launch_helpers() {
    let p = launch_plan(true, true);
    assert_eq!(p.args, vec![
        "--no-first-run", "--no-default-browser-check", "--disable-blink-features=AutomationControlled",
        "--force-renderer-accessibility", "--headless=new", "--blink-settings=imagesEnabled=false",
    ]);
    assert!(!p.with_head);
    assert_eq!(p.window, (1920, 1080));
    let q = launch_plan(false, false);
    assert_eq!(q.args.len(), 4);
    assert!(q.with_head);
    assert_eq!(q.window, (3840, 2160));
    assert_eq!(viewport_for_screen(None, None), (1920, 1000));
    assert_eq!(viewport_for_screen(Some(1440), Some(900)), (1440, 820));
    assert_eq!(stale_lock_files(), vec!["SingletonLock", "SingletonCookie", "SingletonSocket"]);
}

#[test]
fn screen_report_gives_viewport() {
    assert_eq!(screen_viewport("{\"w\":1440,\"h\":900}"), Some((1440, 820)));
    assert_eq!(screen_viewport("{\"w\":1280}"), Some((1280, 1000)));
    assert_eq!(screen_viewport("garbage"), Some((1920, 1000)));
    assert_eq!(screen_viewport("{\"w\":1,\"h\":-9223372036854775800}"), None);
}

#[test]
fn known_ref_checks_the_latest_snapshot() {
    let mut m = RefMap::new();
    m.insert("e3".to_string(), 12);
    assert!(known_ref(&m, "e3").is_ok());
    match known_ref(&m, "e4") {
        Err(LynxError::ElementNotFound(r)) => assert_eq!(r, "e4"),
        _ => panic!("expected ElementNotFound"),
    }
}

#[test]
fn file_names_of_uploads() {
    assert_eq!(file_name("/tmp/a.txt").as_deref(), Some("a.txt"));
    assert_eq!(file_name("b.png").as_deref(), Some("b.png"));
    assert_eq!(file_name("/tmp/dir/").as_deref(), Some("dir"));
    assert_eq!(file_name("x/./").as_deref(), Some("x"));
    assert_eq!(file_name("/tmp/.."), None);
    assert_eq!(file_name("/"), None);
    assert_eq!(file_name(""), None);
    assert_eq!(file_name("."), None);
    for p in ["/tmp/a.txt", "b.png", "/tmp/dir/", "x/./", "/tmp/..", "/", "", ".", "a//b", "...", "./c"] {
        let expected = std::path::Path::new(p).file_name().and_then(|n| n.to_str()).map(|n| n.to_string());
        assert_eq!(file_name(p), expected);
    }
    let paths = vec!["/tmp/a.txt".to_string(), "/".to_string(), "/home/u/b.pdf".to_string()];
    assert_eq!(upload_file_names(&paths), vec!["a.txt", "b.pdf"]);
}
