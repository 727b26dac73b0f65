use lynx_mcp::snapshot::diff::compute_diff;
use lynx_mcp::types::SnapshotNode;

fn node(ref_id: &str, role: &str, name: &str) -> SnapshotNode {
    SnapshotNode {
        ref_id: ref_id.to_string(),
        role: role.to_string(),
        name: name.to_string(),
        description: None,
        value: None,
        interactive: false,
        children: Vec::new(),
    }
}

#[test]
fn no_changes() {
    let a = vec![node("e0", "button", "OK")];
    let b = vec![node("e0", "button", "OK")];
    assert_eq!(compute_diff(&a, &b), "No changes detected");
}

#[test]
fn added_node() {
    let a = vec![node("e0", "button", "OK")];
    let b = vec![node("e0", "button", "OK"), node("e5", "link", "Help")];
    let diff = compute_diff(&a, &b);
    assert!(diff.contains("Added: e5"));
    assert!(!diff.contains("Removed"));
    assert!(!diff.contains("Changed"));
}

#[test]
fn removed_node() {
    let a = vec![node("e0", "button", "OK"), node("e3", "link", "Help")];
    let b = vec![node("e0", "button", "OK")];
    let diff = compute_diff(&a, &b);
    assert!(diff.contains("Removed: e3"));
}

#[test]
fn changed_name() {
    let a = vec![node("e0", "button", "Submit")];
    let b = vec![node("e0", "button", "Loading...")];
    let diff = compute_diff(&a, &b);
    assert!(diff.contains("Changed: e0"));
}

#[test]
fn changed_role() {
    let a = vec![node("e0", "button", "X")];
    let b = vec![node("e0", "link", "X")];
    let diff = compute_diff(&a, &b);
    assert!(diff.contains("Changed: e0"));
}

#[test]
fn changed_value() {
    let mut a = node("e0", "textbox", "Email");
    a.value = Some("old@test.com".to_string());
    let mut b = node("e0", "textbox", "Email");
    b.value = Some("new@test.com".to_string());
    let diff = compute_diff(&[a], &[b]);
    assert!(diff.contains("Changed: e0"));
}

#[test]
fn sparse_refs_stable() {
    // Simulates persistent refs: e0 stays, e3 stays, e7 is new
    let a = vec![node("e0", "button", "OK"), node("e3", "link", "Home")];
    let b = vec![
        node("e0", "button", "OK"),
        node("e3", "link", "Home"),
        node("e7", "textbox", "Search"),
    ];
    let diff = compute_diff(&a, &b);
    assert!(diff.contains("Added: e7"));
    assert!(!diff.contains("Changed"));
    assert!(!diff.contains("Removed"));
}

#[test]
fn both_empty() {
    assert_eq!(compute_diff(&[], &[]), "No changes detected");
}

#[test]
fn all_three_sections_in_order() {
    let a = vec![node("e0", "button", "OK"), node("e1", "link", "Old"), node("e2", "link", "Gone")];
    let b = vec![node("e0", "button", "OK"), node("e1", "link", "New"), node("e4", "link", "A"), node("e5", "link", "B")];
    assert_eq!(compute_diff(&a, &b), "Added: e4, e5\nRemoved: e2\nChanged: e1");
}

#[test]
fn later_duplicate_ref_is_the_one_compared() {
    let a = vec![node("e0", "button", "First"), node("e0", "button", "Second")];
    let b = vec![node("e0", "button", "Second")];
    assert_eq!(compute_diff(&a, &b), "No changes detected");
    let c = vec![node("e0", "button", "First")];
    assert_eq!(compute_diff(&a, &c), "Changed: e0");
}

#[test]
fn value_appearing_counts_as_change() {
    let a = vec![node("e0", "textbox", "Email")];
    let mut n = node("e0", "textbox", "Email");
    n.value = Some("x".to_string());
    assert_eq!(compute_diff(&a, &[n]), "Changed: e0");
}

#[test]
fn swapping_snapshots_swaps_added_and_removed() {
    let a = vec![node("e0", "button", "OK"), node("e1", "link", "Gone")];
    let b = vec![node("e0", "button", "OK"), node("e2", "link", "New")];
    assert_eq!(compute_diff(&a, &b), "Added: e2\nRemoved: e1");
    assert_eq!(compute_diff(&b, &a), "Added: e1\nRemoved: e2");
}

#[test]
fn swapped_snapshots_report_the_same_changes() {
    let a = vec![node("e0", "button", "OK"), node("e1", "link", "Old"), node("e3", "link", "x")];
    let b = vec![node("e3", "link", "y"), node("e1", "link", "New"), node("e0", "button", "OK")];
    assert_eq!(compute_diff(&a, &b), "Changed: e3, e1");
    assert_eq!(compute_diff(&b, &a), "Changed: e1, e3");
    let c = vec![node("e1", "link", "Old"), node("e0", "button", "OK"), node("e3", "link", "x")];
    assert_eq!(compute_diff(&a, &c), "No changes detected");
    assert_eq!(compute_diff(&c, &a), "No changes detected");
}
