use lynx_mcp::snapshot::tree::{collect_snapshot, snapshot_script, JsNode, JsSnapshotResult, JS_SNAPSHOT_TEMPLATE};

fn js(role: &str, name: &str, interactive: bool, idx: usize) -> JsNode {
    JsNode {
        role: role.to_string(),
        name: name.to_string(),
        interactive,
        value: None,
        desc: None,
        tag: Some("DIV".to_string()),
        ref_idx: idx,
    }
}

#[test]
fn interactive_only_keeps_stamped_refs() {
    let result = JsSnapshotResult {
        nodes: vec![js("button", "OK", true, 0), js("heading", "T", false, 1), js("link", "L", true, 7)],
        next_ref: 8,
    };
    let (nodes, refs, next) = collect_snapshot(&result, true);
    assert_eq!(next, 8);
    assert_eq!(nodes.len(), 2);
    assert_eq!(nodes[0].ref_id, "e0");
    assert_eq!(nodes[1].ref_id, "e7");
    assert!(refs.resolve("e7").is_some());
    assert!(refs.resolve("e1").is_none());
    let (all, refs_all, _) = collect_snapshot(&result, false);
    assert_eq!(all.len(), 3);
    assert_eq!(all[1].ref_id, "e1");
    assert_eq!(all[1].role, "heading");
    assert!(!all[1].interactive);
    assert!(refs_all.resolve("e1").is_some());
}

#[test]
fn description_and_value_carry_over() {
    let mut n = js("textbox", "Email", true, 42);
    n.value = Some("a@b".to_string());
    n.desc = Some("your email".to_string());
    let (nodes, _, _) = collect_snapshot(&JsSnapshotResult { nodes: vec![n], next_ref: 43 }, false);
    assert_eq!(nodes[0].ref_id, "e42");
    assert_eq!(nodes[0].value.as_deref(), Some("a@b"));
    assert_eq!(nodes[0].description.as_deref(), Some("your email"));
    assert!(nodes[0].children.is_empty());
}

#[test]
fn script_placeholder_replaced() {
    let whole = snapshot_script(None);
    assert_eq!(whole, JS_SNAPSHOT_TEMPLATE.replace("__LYNX_SELECTOR__", "null"));
    assert!(whole.ends_with("})(null)\n"));
    let scoped = snapshot_script(Some("div[data-x='a\\b']"));
    assert_eq!(scoped, JS_SNAPSHOT_TEMPLATE.replace("__LYNX_SELECTOR__", "'div[data-x=\\'a\\\\b\\']'"));
}
