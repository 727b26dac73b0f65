//! The one-line-per-node rendering of a snapshot.
use vstd::prelude::*;
use crate::text::views;
use crate::types::{SnapshotNode, opt_view};

verus! {

/// The line for one node: `ref [role] "name" val="value" interactive`, where the name is
/// left out when empty, the value when absent and the flag when unset.
pub open spec fn node_line(n: SnapshotNode) -> Seq<char> {
    n.ref_id@ + " ["@ + n.role@ + "]"@
        + (if n.name@.len() > 0 { " \""@ + n.name@ + "\""@ } else { Seq::empty() })
        + (match opt_view(n.value) { Some(v) => " val=\""@ + v + "\""@, None => Seq::empty() })
        + (if n.interactive { " interactive"@ } else { Seq::empty() })
}

/// The lines for a node and, after it, the lines of its children, depth first.
pub open spec fn render_node(n: SnapshotNode) -> Seq<Seq<char>>
    decreases n, 1int,
{
    seq![node_line(n)] + render_nodes(n.children@)
}

/// The lines for a sequence of sibling nodes, in order.
pub open spec fn render_nodes(nodes: Seq<SnapshotNode>) -> Seq<Seq<char>>
    decreases nodes, 0int,
{
    if nodes.len() == 0 {
        Seq::empty()
    } else {
        render_nodes(nodes.drop_last()) + render_node(nodes.last())
    }
}

/// Builds the line of one node.
fn compact_line(node: &SnapshotNode) -> (line: String)
    ensures
        line@ == node_line(*node),
{
    let mut line = String::new();
    line.append(node.ref_id.as_str());
    line.append(" [");
    line.append(node.role.as_str());
    line.append("]");
    if node.name.as_str().unicode_len() > 0 {
        line.append(" \"");
        line.append(node.name.as_str());
        line.append("\"");
    }
    match &node.value {
        Some(val) => {
            line.append(" val=\"");
            line.append(val.as_str());
            line.append("\"");
        },
        None => {},
    }
    if node.interactive {
        line.append(" interactive");
    }
    assert(line@ =~= node_line(*node));
    line
}

/// Render snapshot nodes in compact one-line-per-node format
/// Format: `e5 [button] "Submit" interactive`
/// This is 56-64% fewer tokens than full JSON
pub fn render_compact(nodes: &[SnapshotNode], lines: &mut Vec<String>)
    ensures
        views(final(lines)@) == views(old(lines)@) + render_nodes(nodes@),
    decreases nodes@,
{
    let ghost start = views(lines@);
    let mut i: usize = 0;
    while i < nodes.len()
        invariant
            i <= nodes@.len(),
            views(lines@) == start + render_nodes(nodes@.take(i as int)),
        decreases nodes.len() - i,
    {
        let node = &nodes[i];
        let ghost t = nodes@.take(i + 1);
        assert(t.drop_last() =~= nodes@.take(i as int));
        assert(t.last() == nodes@[i as int]);
        let line = compact_line(node);
        lines.push(line);
        assert(views(lines@) =~= start + render_nodes(nodes@.take(i as int)) + seq![node_line(*node)]);
        // Recurse into children
        if node.children.len() > 0 {
            proof {
                assert(decreases_to!(nodes@ => nodes@[i as int]));
            }
            render_compact(node.children.as_slice(), lines);
        } else {
            assert(render_nodes(node.children@) =~= Seq::<Seq<char>>::empty());
        }
        assert(render_node(nodes@[i as int]) =~= seq![node_line(*node)] + render_nodes(node.children@));
        assert(views(lines@) =~= start + render_nodes(t));
        i = i + 1;
    }
    assert(nodes@.take(nodes@.len() as int) =~= nodes@);
}


/// The number of nodes in a tree: the node and all below it.
pub open spec fn node_count(n: SnapshotNode) -> nat
    decreases n, 1int,
{
    1 + nodes_count(n.children@)
}

/// The number of nodes in a sequence of trees.
pub open spec fn nodes_count(nodes: Seq<SnapshotNode>) -> nat
    decreases nodes, 0int,
{
    if nodes.len() == 0 {
        0
    } else {
        nodes_count(nodes.drop_last()) + node_count(nodes.last())
    }
}

/// The compact rendering has one line for every node of the tree, children included.
pub proof fn law_one_line_per_node(nodes: Seq<SnapshotNode>)
    ensures
        render_nodes(nodes).len() == nodes_count(nodes),
    decreases nodes, 0int,
{
    if nodes.len() > 0 {
        law_one_line_per_node(nodes.drop_last());
        law_node_lines(nodes.last());
    }
}

/// The lines of one node: one for it and one for each node below it.
pub proof fn law_node_lines(n: SnapshotNode)
    ensures
        render_node(n).len() == node_count(n),
    decreases n, 1int,
{
    law_one_line_per_node(n.children@);
}

} // verus!
