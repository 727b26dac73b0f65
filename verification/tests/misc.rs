use lynx_mcp::auth::op_cli::{
    credential_args, credentials_from_fields, credentials_from_output, op_failure, op_fields_from_output, totp_args,
    totp_from_output, OpField,
};
use lynx_mcp::browser::config::{chrome_candidates, detect_chrome, flag_setting, LynxConfig, Platform};
use lynx_mcp::browser::scripts::{banner_for, key_press_script, notification_for, typing_script};
use lynx_mcp::encoding::capture_base64;
use lynx_mcp::error::LynxError;
use lynx_mcp::server::{
    error_reply, instance_created_reply, instance_destroyed_reply, no_instances_reply, pdf_reply, reply,
    screenshot_reply, split_file_paths,
};
use lynx_mcp::types::{is_false, SnapshotNode, SnapshotResult};

#[test]
fn flags_and_config() {
    assert!(flag_setting(None));
    assert!(flag_setting(Some("true")));
    assert!(flag_setting(Some("no")));
    assert!(!flag_setting(Some("false")));
    assert!(!flag_setting(Some("0")));
    let c = LynxConfig::from_settings(None, Some("/p".to_string()), Some("0"), "/usr/bin/chromium".to_string(), "/home/u/.lynx4ai/profiles".to_string());
    assert_eq!(c.chrome_path, "/usr/bin/chromium");
    assert_eq!(c.profile_dir, "/p");
    assert!(!c.headless);
    let d = LynxConfig::from_settings(Some("/c".to_string()), None, None, "x".to_string(), "/d".to_string());
    assert_eq!(d.chrome_path, "/c");
    assert_eq!(d.profile_dir, "/d");
    assert!(d.headless);
}

#[test]
fn chrome_detection() {
    assert_eq!(chrome_candidates(Platform::Linux).len(), 5);
    assert_eq!(detect_chrome(Platform::Linux, &vec![false, false, true, true, false]), "/usr/bin/chromium");
    assert_eq!(detect_chrome(Platform::MacOs, &vec![false, false]), "google-chrome");
    assert_eq!(detect_chrome(Platform::Other, &vec![false, true]), r"C:\Program Files (x86)\Google\Chrome\Application\chrome.exe");
}

#[test]
fn op_arguments() {
    assert_eq!(credential_args("github", None), vec!["item", "get", "github", "--fields", "label=username,label=password", "--format", "json"]);
    assert_eq!(totp_args("github", Some("Work")), vec!["item", "get", "github", "--otp", "--vault", "Work"]);
}

#[test]
fn op_fields_become_credentials() {
    let fields = vec![
        OpField { label: Some("USERNAME".to_string()), value: Some("alice".to_string()) },
        OpField { label: Some("password".to_string()), value: None },
        OpField { label: None, value: Some("ignored".to_string()) },
        OpField { label: Some("Password".to_string()), value: Some("s3cret".to_string()) },
    ];
    let c = credentials_from_fields(&fields, Some("123456".to_string()));
    assert_eq!(c.username, "alice");
    assert_eq!(c.password, "s3cret");
    assert_eq!(c.totp.as_deref(), Some("123456"));
    let e = credentials_from_fields(&[], None);
    assert_eq!(e.username, "");
    assert_eq!(e.password, "");
}

#[test]
fn op_answers() {
    assert_eq!(totp_from_output(true, "  123456\n").unwrap(), "123456");
    match totp_from_output(false, "whatever") {
        Err(LynxError::AuthProvider(m)) => assert_eq!(m, "No TOTP configured"),
        _ => panic!("expected AuthProvider"),
    }
    assert_eq!(op_failure("not signed in").message(), "Auth provider error: op error: not signed in");
}

#[test]
fn error_messages() {
    let e = LynxError::Navigation { url: "https://x".to_string(), reason: "timeout".to_string() };
    assert_eq!(e.message(), "Navigation failed: https://x: timeout");
    assert_eq!(LynxError::ChromeNotFound("/c".to_string()).message(), "Chrome not found at /c");
    assert_eq!(LynxError::Pdf("boom".to_string()).message(), "PDF export failed: boom");
    let io = LynxError::Io(std::io::Error::new(std::io::ErrorKind::Other, "disk"));
    assert_eq!(io.message(), "IO error: disk");
    let json = LynxError::Json(serde_json::from_str::<serde_json::Value>("{").unwrap_err());
    assert!(json.message().starts_with("JSON error: "));
}

#[test]
fn base64_of_captures() {
    assert_eq!(capture_base64(b""), "");
    assert_eq!(capture_base64(b"hello"), "aGVsbG8=");
    assert_eq!(capture_base64(b"hell"), "aGVsbA==");
    assert_eq!(capture_base64(&[0xff, 0xfe, 0x00]), "//4A");
}

#[test]
fn server_replies() {
    assert_eq!(reply(Ok("done".to_string())), "done");
    assert_eq!(reply(Err(LynxError::NoInstance("no instances running".to_string()))), "Error: No active instance: no instances running");
    assert_eq!(error_reply(&LynxError::Auth("bad".to_string())), "Error: Auth failed: bad");
    assert_eq!(instance_created_reply("abc", "default", true), "Instance created: abc\nProfile: default\nHeadless: true");
    assert_eq!(instance_destroyed_reply("abc"), "Instance abc destroyed");
    assert_eq!(no_instances_reply(), "No running instances");
    assert_eq!(screenshot_reply(Ok("QUJD".to_string())), "data:image/png;base64,QUJD");
    assert_eq!(pdf_reply(Ok("QUJD".to_string())), "data:application/pdf;base64,QUJD");
    assert_eq!(screenshot_reply(Err(LynxError::Screenshot("x".to_string()))), "Error: Screenshot failed: x");
    assert_eq!(split_file_paths(" /a.txt, /b c.pdf ,"), vec!["/a.txt", "/b c.pdf", ""]);
}

#[test]
fn scripts_carry_their_arguments() {
    let n = notification_for("say \"hi\"");
    assert!(n.starts_with("display notification \"say \\\"hi\\\"\" with title"));
    let b = banner_for("it's");
    assert!(b.contains("it\\'s"));
    let t = typing_script("e3", "a'b\nc", true);
    assert!(t.contains("[data-lynx-ref=\"e3\"]"));
    assert!(t.contains("if (true)"));
    assert!(t.contains("'a\\'b\\nc'"));
    let p = key_press_script("e1", "Space");
    assert!(p.contains("key: ' ', code: 'Space'"));
}

#[test]
fn snapshot_result_counts() {
    let mk = |r: &str, i: bool| SnapshotNode {
        ref_id: r.to_string(), role: "button".to_string(), name: String::new(),
        description: None, value: None, interactive: i, children: Vec::new(),
    };
    let r = SnapshotResult::new("u".to_string(), "t".to_string(), vec![mk("e0", true), mk("e1", false), mk("e2", true)], None);
    assert_eq!(r.total_refs, 3);
    assert_eq!(r.interactive_refs, 2);
    assert!(is_false(&false));
    assert!(!is_false(&true));
}

#[test]
fn base64_length_is_four_per_started_triple() {
    for n in 0..10usize {
        let bytes = vec![7u8; n];
        assert_eq!(capture_base64(&bytes).len(), (n + 2) / 3 * 4);
    }
}

#[test]
fn op_output_becomes_credentials() {
    let out = br#"[{"label":"USERNAME","value":"alice"},{"label":"password","value":"pw"}]"#;
    let c = credentials_from_output(true, out, "", Some("654321".to_string())).unwrap();
    assert_eq!(c.username, "alice");
    assert_eq!(c.password, "pw");
    assert_eq!(c.totp.as_deref(), Some("654321"));
    match credentials_from_output(false, out, "not signed in", None) {
        Err(LynxError::AuthProvider(m)) => assert_eq!(m, "op error: not signed in"),
        _ => panic!("expected the op failure"),
    }
    match credentials_from_output(true, b"not json", "", None) {
        Err(LynxError::AuthProvider(m)) => assert!(m.starts_with("op JSON parse error: ")),
        _ => panic!("expected a parse error"),
    }
    let fields = op_fields_from_output(true, br#"[{"label":"x"}]"#, "").unwrap();
    assert_eq!(fields.len(), 1);
    assert_eq!(fields[0].label.as_deref(), Some("x"));
    assert!(fields[0].value.is_none());
    assert!(op_fields_from_output(true, b"{}", "").is_err());
}

#[test]
fn cloned_node_copies_the_whole_tree() {
    let leaf = SnapshotNode {
        ref_id: "e2".to_string(),
        role: "link".to_string(),
        name: "Help".to_string(),
        description: Some("d".to_string()),
        value: None,
        interactive: true,
        children: Vec::new(),
    };
    let root = SnapshotNode {
        ref_id: "e1".to_string(),
        role: "list".to_string(),
        name: "Menu".to_string(),
        description: None,
        value: Some("v".to_string()),
        interactive: false,
        children: vec![leaf],
    };
    let copy = root.clone();
    assert_eq!(copy.ref_id, "e1");
    assert_eq!(copy.value.as_deref(), Some("v"));
    assert_eq!(copy.children.len(), 1);
    assert_eq!(copy.children[0].name, "Help");
    assert_eq!(copy.children[0].description.as_deref(), Some("d"));
    assert!(copy.children[0].interactive);
}

#[test]
fn error_reply_keeps_io_and_json_prefixes() {
    let io = LynxError::Io(std::io::Error::new(std::io::ErrorKind::Other, "disk"));
    assert_eq!(error_reply(&io), "Error: IO error: disk");
    let json = LynxError::Json(serde_json::from_str::<serde_json::Value>("{").unwrap_err());
    assert!(error_reply(&json).starts_with("Error: JSON error: "));
    assert_eq!(error_reply(&LynxError::Auth("no".to_string())), "Error: Auth failed: no");
}
