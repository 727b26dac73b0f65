//! The values that the snapshot and browser modules hand around.
use vstd::prelude::*;

verus! {

/// Unique identifier for a browser instance
pub type InstanceId = String;

/// A node in the compacted accessibility tree
#[derive(Debug)]
pub struct SnapshotNode {
    /// Stable element reference (e.g., "e0", "e5", "e42")
    pub ref_id: String,
    /// Accessibility role (button, textbox, link, heading, etc.)
    pub role: String,
    /// Accessible name
    pub name: String,
    /// Accessible description
    pub description: Option<String>,
    /// Current value (for inputs, selects, etc.)
    pub value: Option<String>,
    /// Whether this element is interactive (clickable, typeable)
    pub interactive: bool,
    /// Child nodes
    pub children: Vec<SnapshotNode>,
}

/// Whether two trees hold the same nodes: equal fields, and children alike one for one.
pub open spec fn same_tree(a: SnapshotNode, b: SnapshotNode) -> bool
    decreases a, 1int,
{
    &&& a.ref_id == b.ref_id
    &&& a.role == b.role
    &&& a.name == b.name
    &&& a.description == b.description
    &&& a.value == b.value
    &&& a.interactive == b.interactive
    &&& same_forest(a.children@, b.children@)
}

/// Whether two lists of trees are alike tree for tree.
pub open spec fn same_forest(xs: Seq<SnapshotNode>, ys: Seq<SnapshotNode>) -> bool
    decreases xs, 0int,
{
    &&& xs.len() == ys.len()
    &&& xs.len() > 0 ==> same_forest(xs.drop_last(), ys.drop_last()) && same_tree(xs.last(), ys.last())
}

fn copy_opt(o: &Option<String>) -> (c: Option<String>)
    ensures
        c == *o,
{
    match o {
        Some(s) => Some(s.clone()),
        None => None,
    }
}

/// A copy of a node and of the whole tree below it.
fn copy_node(n: &SnapshotNode) -> (c: SnapshotNode)
    ensures
        same_tree(c, *n),
    decreases n,
{
    let mut children: Vec<SnapshotNode> = Vec::new();
    let mut i: usize = 0;
    assert(n.children@.take(0) =~= Seq::<SnapshotNode>::empty());
    while i < n.children.len()
        invariant
            i <= n.children@.len(),
            same_forest(children@, n.children@.take(i as int)),
        decreases n.children.len() - i,
    {
        assert(decreases_to!(*n => n.children@[i as int]));
        let child = copy_node(&n.children[i]);
        let ghost before = children@;
        children.push(child);
        let ghost t = n.children@.take(i + 1);
        assert(t.drop_last() =~= n.children@.take(i as int));
        assert(children@.drop_last() =~= before);
        assert(t.last() == n.children@[i as int]);
        i = i + 1;
    }
    assert(n.children@.take(n.children@.len() as int) =~= n.children@);
    SnapshotNode {
        ref_id: n.ref_id.clone(),
        role: n.role.clone(),
        name: n.name.clone(),
        description: copy_opt(&n.description),
        value: copy_opt(&n.value),
        interactive: n.interactive,
        children,
    }
}

impl Clone for SnapshotNode {
    /// A deep copy: the same fields, and children copied the same way.
    fn clone(&self) -> (c: Self)
        ensures
            same_tree(c, *self),
    {
        copy_node(self)
    }
}

/// The characters of an optional string, `None` staying `None`.
pub open spec fn opt_view(o: Option<String>) -> Option<Seq<char>> {
    match o {
        Some(s) => Some(s@),
        None => None,
    }
}

/// Whether a flag is unset; the serialised form of a node leaves such a flag out.
pub fn is_false(v: &bool) -> (res: bool)
    ensures
        res == !*v,
{
    !*v
}

/// Snapshot result returned to the agent
#[derive(Debug)]
pub struct SnapshotResult {
    pub url: String,
    pub title: String,
    pub nodes: Vec<SnapshotNode>,
    pub diff_summary: Option<String>,
    pub total_refs: usize,
    pub interactive_refs: usize,
}

/// Instance metadata for list_instances
#[derive(Debug, Clone)]
pub struct InstanceInfo {
    pub id: InstanceId,
    pub profile: String,
    pub url: String,
    pub created_at: String,
    pub headless: bool,
    /// "alive" or "dead" — dead means Chrome process exited
    pub status: String,
}


/// The number of interactive nodes among `nodes` (children not counted).
pub open spec fn interactive_count(nodes: Seq<SnapshotNode>) -> nat
    decreases nodes.len(),
{
    if nodes.len() == 0 {
        0
    } else {
        interactive_count(nodes.drop_last()) + if nodes.last().interactive { 1nat } else { 0nat }
    }
}

proof fn lemma_interactive_count_bound(nodes: Seq<SnapshotNode>)
    ensures
        interactive_count(nodes) <= nodes.len(),
    decreases nodes.len(),
{
    if nodes.len() > 0 {
        lemma_interactive_count_bound(nodes.drop_last());
    }
}

impl SnapshotResult {
    /// The full result of a snapshot of the page at `url` titled `title`, with its counts.
    pub fn new(url: String, title: String, nodes: Vec<SnapshotNode>, diff_summary: Option<String>) -> (r: Self)
        ensures
            r.url == url,
            r.title == title,
            r.nodes == nodes,
            r.diff_summary == diff_summary,
            r.total_refs == nodes@.len(),
            r.interactive_refs == interactive_count(nodes@),
    {
        let mut count: usize = 0;
        let mut i: usize = 0;
        while i < nodes.len()
            invariant
                i <= nodes@.len(),
                count == interactive_count(nodes@.take(i as int)),
            decreases nodes.len() - i,
        {
            let ghost t = nodes@.take(i + 1);
            assert(t.drop_last() =~= nodes@.take(i as int));
            proof {
                lemma_interactive_count_bound(nodes@.take(i as int));
            }
            if nodes[i].interactive {
                count = count + 1;
            }
            i = i + 1;
        }
        assert(nodes@.take(nodes@.len() as int) =~= nodes@);
        let total = nodes.len();
        SnapshotResult { url, title, nodes, diff_summary, total_refs: total, interactive_refs: count }
    }
}

} // verus!
