//! The summary of what changed between two snapshots.
use vstd::prelude::*;
use crate::text::{join, join_strings, views};
use crate::types::{SnapshotNode, opt_view};

verus! {

/// The node that a lookup by `id` in `nodes` finds: the last node with that ref,
/// since a later node with the same ref replaces an earlier one in the lookup table.
pub open spec fn latest(nodes: Seq<SnapshotNode>, id: Seq<char>) -> Option<SnapshotNode>
    decreases nodes.len(),
{
    if nodes.len() == 0 {
        None
    } else if nodes.last().ref_id@ == id {
        Some(nodes.last())
    } else {
        latest(nodes.drop_last(), id)
    }
}

/// Whether two nodes with the same ref differ in name, value or role.
pub open spec fn node_changed(prev: SnapshotNode, cur: SnapshotNode) -> bool {
    prev.name@ != cur.name@ || opt_view(prev.value) != opt_view(cur.value) || prev.role@ != cur.role@
}

/// Refs of the nodes of `current` (in order, repeats kept) that `previous` does not hold.
pub open spec fn added_refs(previous: Seq<SnapshotNode>, current: Seq<SnapshotNode>) -> Seq<Seq<char>>
    decreases current.len(),
{
    if current.len() == 0 {
        Seq::empty()
    } else {
        let n = current.last();
        added_refs(previous, current.drop_last()) + if latest(previous, n.ref_id@) is None {
            seq![n.ref_id@]
        } else {
            Seq::empty()
        }
    }
}

/// Refs of the nodes of `current` whose counterpart in `previous` differs from them.
pub open spec fn changed_refs(previous: Seq<SnapshotNode>, current: Seq<SnapshotNode>) -> Seq<Seq<char>>
    decreases current.len(),
{
    if current.len() == 0 {
        Seq::empty()
    } else {
        let n = current.last();
        changed_refs(previous, current.drop_last()) + match latest(previous, n.ref_id@) {
            Some(p) => if node_changed(p, n) {
                seq![n.ref_id@]
            } else {
                Seq::empty()
            },
            None => Seq::empty(),
        }
    }
}

/// Refs of the nodes of `previous` (in order) that `current` no longer holds.
pub open spec fn removed_refs(previous: Seq<SnapshotNode>, current: Seq<SnapshotNode>) -> Seq<Seq<char>>
    decreases previous.len(),
{
    if previous.len() == 0 {
        Seq::empty()
    } else {
        let n = previous.last();
        removed_refs(previous.drop_last(), current) + if latest(current, n.ref_id@) is None {
            seq![n.ref_id@]
        } else {
            Seq::empty()
        }
    }
}

/// One line of the summary, present only when it names at least one ref.
pub open spec fn section(label: Seq<char>, refs: Seq<Seq<char>>) -> Seq<Seq<char>> {
    if refs.len() == 0 {
        Seq::empty()
    } else {
        seq![label + join(refs, ", "@)]
    }
}

/// The lines of the summary: added, then removed, then changed.
pub open spec fn diff_lines(previous: Seq<SnapshotNode>, current: Seq<SnapshotNode>) -> Seq<Seq<char>> {
    section("Added: "@, added_refs(previous, current))
        + section("Removed: "@, removed_refs(previous, current))
        + section("Changed: "@, changed_refs(previous, current))
}

/// The whole summary that `compute_diff` returns.
pub open spec fn diff_text(previous: Seq<SnapshotNode>, current: Seq<SnapshotNode>) -> Seq<char> {
    let lines = diff_lines(previous, current);
    if lines.len() == 0 {
        "No changes detected"@
    } else {
        join(lines, "\n"@)
    }
}

/// Index of the last node of `nodes` whose ref is `id`.
fn latest_index(nodes: &[SnapshotNode], id: &String) -> (res: Option<usize>)
    ensures
        match res {
            Some(i) => i < nodes@.len() && latest(nodes@, id@) == Some(nodes@[i as int]),
            None => latest(nodes@, id@) is None,
        },
{
    let mut k: usize = nodes.len();
    assert(nodes@.take(k as int) =~= nodes@);
    while k > 0
        invariant
            k <= nodes@.len(),
            latest(nodes@, id@) == latest(nodes@.take(k as int), id@),
        decreases k,
    {
        let ghost t = nodes@.take(k as int);
        assert(t.drop_last() =~= nodes@.take(k - 1));
        if nodes[k - 1].ref_id == *id {
            return Some(k - 1);
        }
        k = k - 1;
    }
    None
}

/// Whether two optional strings hold the same characters.
fn opt_string_eq(a: &Option<String>, b: &Option<String>) -> (res: bool)
    ensures
        res == (opt_view(*a) == opt_view(*b)),
{
    match (a, b) {
        (Some(x), Some(y)) => *x == *y,
        (None, None) => true,
        _ => false,
    }
}

fn push_section(lines: &mut Vec<String>, label: &str, refs: &Vec<String>)
    ensures
        views(final(lines)@) == views(old(lines)@) + section(label@, views(refs@)),
{
    if refs.len() > 0 {
        let mut line = String::new();
        line.append(label);
        let joined = join_strings(refs, ", ");
        line.append(joined.as_str());
        lines.push(line);
        assert(views(lines@) =~= views(old(lines)@) + section(label@, views(refs@)));
    } else {
        assert(views(lines@) =~= views(old(lines)@) + section(label@, views(refs@)));
    }
}

/// Compute a human-readable diff between two snapshots
pub fn compute_diff(previous: &[SnapshotNode], current: &[SnapshotNode]) -> (res: String)
    ensures
        res@ == diff_text(previous@, current@),
{
    let mut added: Vec<String> = Vec::new();
    let mut removed: Vec<String> = Vec::new();
    let mut changed: Vec<String> = Vec::new();

    // Find added and changed
    let mut i: usize = 0;
    while i < current.len()
        invariant
            i <= current@.len(),
            views(added@) == added_refs(previous@, current@.take(i as int)),
            views(changed@) == changed_refs(previous@, current@.take(i as int)),
        decreases current.len() - i,
    {
        let node = &current[i];
        let ghost t = current@.take(i + 1);
        assert(t.drop_last() =~= current@.take(i as int));
        assert(t.last() == current@[i as int]);
        match latest_index(previous, &node.ref_id) {
            None => {
                added.push(node.ref_id.clone());
            },
            Some(j) => {
                let prev = &previous[j];
                if !(prev.name == node.name) || !opt_string_eq(&prev.value, &node.value)
                    || !(prev.role == node.role) {
                    changed.push(node.ref_id.clone());
                }
            },
        }
        assert(views(added@) =~= added_refs(previous@, t));
        assert(views(changed@) =~= changed_refs(previous@, t));
        i = i + 1;
    }
    assert(current@.take(current@.len() as int) =~= current@);

    // Find removed
    let mut i: usize = 0;
    while i < previous.len()
        invariant
            i <= previous@.len(),
            views(removed@) == removed_refs(previous@.take(i as int), current@),
        decreases previous.len() - i,
    {
        let node = &previous[i];
        let ghost t = previous@.take(i + 1);
        assert(t.drop_last() =~= previous@.take(i as int));
        assert(t.last() == previous@[i as int]);
        if latest_index(current, &node.ref_id).is_none() {
            removed.push(node.ref_id.clone());
        }
        assert(views(removed@) =~= removed_refs(t, current@));
        i = i + 1;
    }
    assert(previous@.take(previous@.len() as int) =~= previous@);

    let mut lines: Vec<String> = Vec::new();
    assert(views(lines@) =~= Seq::<Seq<char>>::empty());
    push_section(&mut lines, "Added: ", &added);
    push_section(&mut lines, "Removed: ", &removed);
    push_section(&mut lines, "Changed: ", &changed);
    assert(views(lines@) =~= diff_lines(previous@, current@));
    if lines.len() == 0 {
        let mut r = String::new();
        r.append("No changes detected");
        return r;
    }
    join_strings(&lines, "\n")
}


/// Comparing `current` against `previous` reports as added exactly what comparing
/// `previous` against `current` reports as removed.
pub proof fn law_diff_swaps_added_and_removed(previous: Seq<SnapshotNode>, current: Seq<SnapshotNode>)
    ensures
        added_refs(previous, current) == removed_refs(current, previous),
    decreases current.len(),
{
    if current.len() > 0 {
        law_diff_swaps_added_and_removed(previous, current.drop_last());
    }
}

/// No two nodes share a ref.
pub open spec fn distinct_refs(nodes: Seq<SnapshotNode>) -> bool {
    forall|i: int, j: int| 0 <= i < j < nodes.len() ==> nodes[i].ref_id@ != nodes[j].ref_id@
}

proof fn lemma_latest_of_member(nodes: Seq<SnapshotNode>, i: int)
    requires
        distinct_refs(nodes),
        0 <= i < nodes.len(),
    ensures
        latest(nodes, nodes[i].ref_id@) == Some(nodes[i]),
    decreases nodes.len(),
{
    if i < nodes.len() - 1 {
        let d = nodes.drop_last();
        assert(d[i] == nodes[i]);
        assert(distinct_refs(d)) by {
            assert forall|a: int, b: int| 0 <= a < b < d.len() implies d[a].ref_id@ != d[b].ref_id@ by {
                assert(d[a] == nodes[a] && d[b] == nodes[b]);
            }
        }
        lemma_latest_of_member(d, i);
    }
}

proof fn lemma_self_diff_prefix(nodes: Seq<SnapshotNode>, k: int)
    requires
        distinct_refs(nodes),
        0 <= k <= nodes.len(),
    ensures
        added_refs(nodes, nodes.take(k)).len() == 0,
        changed_refs(nodes, nodes.take(k)).len() == 0,
        removed_refs(nodes.take(k), nodes).len() == 0,
    decreases k,
{
    if k > 0 {
        let t = nodes.take(k);
        assert(t.drop_last() =~= nodes.take(k - 1));
        assert(t.last() == nodes[k - 1]);
        lemma_self_diff_prefix(nodes, k - 1);
        lemma_latest_of_member(nodes, k - 1);
    }
}

/// A snapshot whose refs are unique, compared with itself, shows no changes.
pub proof fn law_identical_snapshots_no_changes(nodes: Seq<SnapshotNode>)
    requires
        distinct_refs(nodes),
    ensures
        diff_text(nodes, nodes) == "No changes detected"@,
{
    lemma_self_diff_prefix(nodes, nodes.len() as int);
    assert(nodes.take(nodes.len() as int) =~= nodes);
    assert(diff_lines(nodes, nodes) =~= Seq::<Seq<char>>::empty());
}

/// Whether `n` has a counterpart in `previous` that differs from it.
pub open spec fn differs_from_previous(previous: Seq<SnapshotNode>, n: SnapshotNode) -> bool {
    latest(previous, n.ref_id@) matches Some(p) && node_changed(p, n)
}

proof fn lemma_latest_is_member(nodes: Seq<SnapshotNode>, id: Seq<char>)
    requires
        latest(nodes, id) is Some,
    ensures
        exists|i: int| 0 <= i < nodes.len() && nodes[i] == latest(nodes, id).unwrap(),
        latest(nodes, id).unwrap().ref_id@ == id,
    decreases nodes.len(),
{
    if nodes.last().ref_id@ != id {
        let d = nodes.drop_last();
        lemma_latest_is_member(d, id);
        let i = choose|i: int| 0 <= i < d.len() && d[i] == latest(d, id).unwrap();
        assert(nodes[i] == d[i]);
    } else {
        assert(nodes[nodes.len() - 1] == nodes.last());
    }
}

proof fn lemma_changed_member(previous: Seq<SnapshotNode>, current: Seq<SnapshotNode>, x: Seq<char>)
    ensures
        changed_refs(previous, current).contains(x) <==> exists|i: int|
            0 <= i < current.len() && #[trigger] current[i].ref_id@ == x
                && differs_from_previous(previous, current[i]),
    decreases current.len(),
{
    if current.len() > 0 {
        let d = current.drop_last();
        let n = current.last();
        lemma_changed_member(previous, d, x);
        let tail: Seq<Seq<char>> = if differs_from_previous(previous, n) {
            seq![n.ref_id@]
        } else {
            Seq::empty()
        };
        assert(changed_refs(previous, current) =~= changed_refs(previous, d) + tail);
        vstd::seq_lib::lemma_seq_concat_contains_all_elements(changed_refs(previous, d), tail, x);
        if changed_refs(previous, current).contains(x) {
            if changed_refs(previous, d).contains(x) {
                let i = choose|i: int| 0 <= i < d.len() && #[trigger] d[i].ref_id@ == x
                    && differs_from_previous(previous, d[i]);
                assert(current[i] == d[i]);
            } else {
                assert(tail[0] == x);
                assert(current[current.len() - 1] == n);
            }
        }
        if exists|i: int| 0 <= i < current.len() && #[trigger] current[i].ref_id@ == x
            && differs_from_previous(previous, current[i]) {
            let i = choose|i: int| 0 <= i < current.len() && #[trigger] current[i].ref_id@ == x
                && differs_from_previous(previous, current[i]);
            if i < current.len() - 1 {
                assert(d[i] == current[i]);
            } else {
                assert(tail[0] == x);
            }
        }
    }
}

proof fn lemma_changed_iff_both_differ(previous: Seq<SnapshotNode>, current: Seq<SnapshotNode>, x: Seq<char>)
    requires
        distinct_refs(current),
    ensures
        changed_refs(previous, current).contains(x) <==> (latest(current, x) matches Some(n)
            && latest(previous, x) matches Some(p) && node_changed(p, n)),
{
    lemma_changed_member(previous, current, x);
    if changed_refs(previous, current).contains(x) {
        let i = choose|i: int| 0 <= i < current.len() && #[trigger] current[i].ref_id@ == x
            && differs_from_previous(previous, current[i]);
        lemma_latest_of_member(current, i);
    }
    if latest(current, x) is Some {
        lemma_latest_is_member(current, x);
        let i = choose|i: int| 0 <= i < current.len() && current[i] == latest(current, x).unwrap();
        assert(current[i].ref_id@ == x);
    }
}

proof fn lemma_join_first(parts: Seq<Seq<char>>, sep: Seq<char>)
    requires
        parts.len() > 0,
        parts[0].len() > 0,
    ensures
        join(parts, sep).len() > 0,
        join(parts, sep)[0] == parts[0][0],
    decreases parts.len(),
{
    if parts.len() > 1 {
        let d = parts.drop_last();
        assert(d[0] == parts[0]);
        lemma_join_first(d, sep);
    }
}

proof fn lemma_no_changes_iff_no_lines(previous: Seq<SnapshotNode>, current: Seq<SnapshotNode>)
    ensures
        diff_text(previous, current) == "No changes detected"@ <==> diff_lines(previous, current).len() == 0,
{
    let lines = diff_lines(previous, current);
    reveal_strlit("No changes detected");
    reveal_strlit("Added: ");
    reveal_strlit("Removed: ");
    reveal_strlit("Changed: ");
    if lines.len() > 0 {
        let a = section("Added: "@, added_refs(previous, current));
        let r = section("Removed: "@, removed_refs(previous, current));
        let c = section("Changed: "@, changed_refs(previous, current));
        assert(lines == a + r + c);
        if a.len() > 0 {
            assert(lines[0] == a[0]);
            assert(lines[0][0] == 'A');
        } else if r.len() > 0 {
            assert(lines[0] == r[0]);
            assert(lines[0][0] == 'R');
        } else {
            assert(lines[0] == c[0]);
            assert(lines[0][0] == 'C');
        }
        lemma_join_first(lines, "\n"@);
        assert(diff_text(previous, current)[0] != "No changes detected"@[0]);
    }
}

/// Comparing two snapshots whose refs are unique either way round gives mirrored summaries:
/// what one reports as added the other reports as removed (in the same order), both report
/// the same set of changed refs, and one reports no changes exactly when the other does.
pub proof fn law_diff_symmetry(a: Seq<SnapshotNode>, b: Seq<SnapshotNode>)
    requires
        distinct_refs(a),
        distinct_refs(b),
    ensures
        added_refs(a, b) == removed_refs(b, a),
        removed_refs(a, b) == added_refs(b, a),
        changed_refs(a, b).to_set() == changed_refs(b, a).to_set(),
        diff_text(a, b) == "No changes detected"@ <==> diff_text(b, a) == "No changes detected"@,
{
    law_diff_swaps_added_and_removed(a, b);
    law_diff_swaps_added_and_removed(b, a);
    assert forall|x: Seq<char>| changed_refs(a, b).contains(x) <==> changed_refs(b, a).contains(x) by {
        lemma_changed_iff_both_differ(a, b, x);
        lemma_changed_iff_both_differ(b, a, x);
    }
    assert(changed_refs(a, b).to_set() =~= changed_refs(b, a).to_set());
    if changed_refs(a, b).len() > 0 {
        assert(changed_refs(a, b).contains(changed_refs(a, b)[0]));
    }
    if changed_refs(b, a).len() > 0 {
        assert(changed_refs(b, a).contains(changed_refs(b, a)[0]));
    }
    lemma_no_changes_iff_no_lines(a, b);
    lemma_no_changes_iff_no_lines(b, a);
}

} // verus!
