use lynx_mcp::snapshot::compact::render_compact;
use lynx_mcp::types::SnapshotNode;

fn node(ref_id: &str, role: &str, name: &str, interactive: bool) -> SnapshotNode {
    SnapshotNode {
        ref_id: ref_id.to_string(),
        role: role.to_string(),
        name: name.to_string(),
        description: None,
        value: None,
        interactive,
        children: Vec::new(),
    }
}

#[test]
fn basic_render() {
    let nodes = vec![
        node("e0", "button", "Submit", true),
        node("e1", "heading", "Welcome", false),
    ];
    let mut lines = Vec::new();
    render_compact(&nodes, &mut lines);
    assert_eq!(lines.len(), 2);
    assert_eq!(lines[0], r#"e0 [button] "Submit" interactive"#);
    assert_eq!(lines[1], r#"e1 [heading] "Welcome""#);
}

#[test]
fn with_value() {
    let mut n = node("e0", "textbox", "Email", true);
    n.value = Some("test@example.com".to_string());
    let mut lines = Vec::new();
    render_compact(&[n], &mut lines);
    assert!(lines[0].contains(r#"val="test@example.com""#));
}

#[test]
fn empty_name_omitted() {
    let n = node("e0", "generic", "", false);
    let mut lines = Vec::new();
    render_compact(&[n], &mut lines);
    assert_eq!(lines[0], "e0 [generic]");
}

#[test]
fn children_rendered() {
    let mut parent = node("e0", "list", "Nav", false);
    parent.children = vec![
        node("e1", "listitem", "Home", false),
        node("e2", "listitem", "About", false),
    ];
    let mut lines = Vec::new();
    render_compact(&[parent], &mut lines);
    assert_eq!(lines.len(), 3);
    assert!(lines[1].starts_with("e1"));
    assert!(lines[2].starts_with("e2"));
}

#[test]
fn empty_nodes() {
    let mut lines = Vec::new();
    render_compact(&[], &mut lines);
    assert!(lines.is_empty());
}

#[test]
fn full_line_with_every_part() {
    let mut n = node("e9", "textbox", "Email", true);
    n.value = Some("a@b.c".to_string());
    let mut lines = vec!["kept".to_string()];
    render_compact(&[n], &mut lines);
    assert_eq!(lines, vec!["kept".to_string(), r#"e9 [textbox] "Email" val="a@b.c" interactive"#.to_string()]);
}

#[test]
fn grandchildren_come_before_next_sibling() {
    let mut child = node("e1", "list", "", false);
    child.children = vec![node("e2", "listitem", "Deep", false)];
    let mut parent = node("e0", "nav", "", false);
    parent.children = vec![child];
    let sibling = node("e3", "link", "Next", true);
    let mut lines = Vec::new();
    render_compact(&[parent, sibling], &mut lines);
    assert_eq!(lines, vec![
        "e0 [nav]".to_string(),
        "e1 [list]".to_string(),
        r#"e2 [listitem] "Deep""#.to_string(),
        r#"e3 [link] "Next" interactive"#.to_string(),
    ]);
}
