use lynx_mcp::auth::form_fill::{
    find_field, find_submit_button, name_matches_any, plan_login_round, LoginAction,
    PASSWORD_PATTERNS, SUBMIT_PATTERNS, TOTP_PATTERNS, USERNAME_PATTERNS,
};
use lynx_mcp::auth::Credentials;
use lynx_mcp::types::SnapshotNode;

fn make_textbox(ref_id: &str, name: &str) -> SnapshotNode {
    SnapshotNode {
        ref_id: ref_id.to_string(),
        role: "textbox".to_string(),
        name: name.to_string(),
        description: None,
        value: None,
        interactive: true,
        children: Vec::new(),
    }
}

fn make_button(ref_id: &str, name: &str) -> SnapshotNode {
    SnapshotNode {
        ref_id: ref_id.to_string(),
        role: "button".to_string(),
        name: name.to_string(),
        description: None,
        value: None,
        interactive: true,
        children: Vec::new(),
    }
}

fn creds(totp: Option<&str>) -> Credentials {
    Credentials {
        username: "alice".to_string(),
        password: "hunter2".to_string(),
        totp: totp.map(|t| t.to_string()),
    }
}

#[test]
fn find_username_by_user() {
    let nodes = vec![
        make_textbox("e0", "Username"),
        make_textbox("e1", "Password"),
    ];
    let found = find_field(&nodes, USERNAME_PATTERNS);
    assert_eq!(found.unwrap().ref_id, "e0");
}

#[test]
fn find_username_by_email() {
    let nodes = vec![
        make_textbox("e0", "Email address"),
        make_textbox("e1", "Password"),
    ];
    let found = find_field(&nodes, USERNAME_PATTERNS);
    assert_eq!(found.unwrap().ref_id, "e0");
}

#[test]
fn find_password_field() {
    let nodes = vec![
        make_textbox("e0", "Username"),
        make_textbox("e1", "Password"),
    ];
    let found = find_field(&nodes, PASSWORD_PATTERNS);
    assert_eq!(found.unwrap().ref_id, "e1");
}

#[test]
fn find_totp_field() {
    let nodes = vec![make_textbox("e0", "Enter verification code")];
    let found = find_field(&nodes, TOTP_PATTERNS);
    assert!(found.is_some());
}

#[test]
fn find_submit_by_name() {
    let nodes = vec![make_button("e0", "Cancel"), make_button("e1", "Sign In")];
    let found = find_submit_button(&nodes);
    assert_eq!(found.unwrap().ref_id, "e1");
}

#[test]
fn find_submit_fallback_to_any_button() {
    let nodes = vec![make_button("e0", "Go")];
    let found = find_submit_button(&nodes);
    assert_eq!(found.unwrap().ref_id, "e0");
}

#[test]
fn no_match_returns_none() {
    let nodes = vec![make_textbox("e0", "Search")];
    assert!(find_field(&nodes, PASSWORD_PATTERNS).is_none());
}

#[test]
fn non_interactive_textbox_is_skipped() {
    let mut hidden = make_textbox("e0", "Username");
    hidden.interactive = false;
    let mut search = make_textbox("e1", "User search");
    search.role = "searchbox".to_string();
    let nodes = vec![hidden, search];
    assert_eq!(find_field(&nodes, USERNAME_PATTERNS).unwrap().ref_id, "e1");
}

#[test]
fn name_matching_is_substring_of_lowered_name() {
    assert!(name_matches_any("your email", USERNAME_PATTERNS));
    assert!(!name_matches_any("Email", USERNAME_PATTERNS));
    assert!(name_matches_any("continue", SUBMIT_PATTERNS));
    assert!(!name_matches_any("", &[]));
    assert!(name_matches_any("anything", &[""]));
}

#[test]
fn non_interactive_button_only_matches_by_name() {
    let mut b = make_button("e0", "Go");
    b.interactive = false;
    assert!(find_submit_button(&[b]).is_none());
    let mut c = make_button("e1", "Submit");
    c.interactive = false;
    assert_eq!(find_submit_button(&[c]).unwrap().ref_id, "e1");
}

#[test]
fn round_fills_and_clicks_submit() {
    let snap = Some(vec![
        make_textbox("e0", "Username"),
        make_textbox("e1", "Password"),
        make_button("e2", "Log in"),
    ]);
    let round = plan_login_round(0, &snap, &creds(None));
    assert!(!round.finished);
    assert_eq!(round.log, vec![
        "iter 0: typed username into e0".to_string(),
        "iter 0: typed password into e1".to_string(),
        "iter 0: clicked submit e2".to_string(),
    ]);
    assert_eq!(round.actions.len(), 3);
    match &round.actions[1] {
        LoginAction::TypeText { ref_id, text } => {
            assert_eq!(ref_id, "e1");
            assert_eq!(text, "hunter2");
        }
        other => panic!("unexpected action {other:?}"),
    }
    match &round.actions[2] {
        LoginAction::Click { ref_id } => assert_eq!(ref_id, "e2"),
        other => panic!("unexpected action {other:?}"),
    }
}

#[test]
fn round_presses_enter_without_button() {
    let snap = Some(vec![make_textbox("e4", "One-time code")]);
    let round = plan_login_round(12, &snap, &creds(Some("123456")));
    assert!(!round.finished);
    assert_eq!(round.log, vec![
        "iter 12: typed TOTP into e4".to_string(),
        "iter 12: pressed Enter on e4".to_string(),
    ]);
    match &round.actions[1] {
        LoginAction::Press { ref_id, key } => {
            assert_eq!(ref_id, "e4");
            assert_eq!(key, "Enter");
        }
        other => panic!("unexpected action {other:?}"),
    }
}

#[test]
fn round_without_fields_finishes() {
    let snap = Some(vec![make_textbox("e0", "Enter verification code")]);
    let round = plan_login_round(3, &snap, &creds(None));
    assert!(round.finished);
    assert!(round.actions.is_empty());
    assert_eq!(round.log, vec!["iter 3: no fillable fields found — login may be complete".to_string()]);
}

#[test]
fn round_without_snapshot_finishes() {
    let round = plan_login_round(1, &None, &creds(None));
    assert!(round.finished);
    assert_eq!(round.log, vec!["iter 1: no snapshot available".to_string()]);
}
