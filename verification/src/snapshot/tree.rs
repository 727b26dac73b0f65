//! Turning what the page's accessibility walk reports into snapshot nodes and refs.
use vstd::prelude::*;
use crate::browser::instance::RefMap;
use crate::text::{append_decimal, decimal, escape, escaping_fn, js_quote_char, map_chars, replace_all, replace_str, Escaping};
use crate::types::{SnapshotNode, opt_view};

verus! {

/// One element as the page's accessibility walk reports it.
#[derive(Debug)]
pub struct JsNode {
    pub role: String,
    pub name: String,
    pub interactive: bool,
    pub value: Option<String>,
    pub desc: Option<String>,
    pub tag: Option<String>,
    /// The ref index stamped on the DOM element (data-lynx-ref="eN")
    pub ref_idx: usize,
}

/// The page's accessibility walk: its elements and the next ref index it would stamp.
#[derive(Debug)]
pub struct JsSnapshotResult {
    pub nodes: Vec<JsNode>,
    pub next_ref: u64,
}

/// The ref of the element stamped with index `idx`: `e` and the index.
pub open spec fn ref_name(idx: nat) -> Seq<char> {
    "e"@ + decimal(idx)
}

/// The elements a snapshot keeps, in order: all of them, or only the interactive ones.
pub open spec fn kept(nodes: Seq<JsNode>, interactive_only: bool) -> Seq<JsNode>
    decreases nodes.len(),
{
    if nodes.len() == 0 {
        Seq::empty()
    } else {
        let n = nodes.last();
        kept(nodes.drop_last(), interactive_only) + if interactive_only && !n.interactive {
            Seq::empty()
        } else {
            seq![n]
        }
    }
}

/// Whether `n` is the snapshot node for the element `j`: same ref, role, name,
/// description, value and flag, and no children.
pub open spec fn node_of(n: SnapshotNode, j: JsNode) -> bool {
    &&& n.ref_id@ == ref_name(j.ref_idx as nat)
    &&& n.role@ == j.role@
    &&& n.name@ == j.name@
    &&& opt_view(n.description) == opt_view(j.desc)
    &&& opt_view(n.value) == opt_view(j.value)
    &&& n.interactive == j.interactive
    &&& n.children@.len() == 0
}

/// The ref table of a snapshot: every kept element's ref, with node ID 0.
pub open spec fn refs_of(nodes: Seq<JsNode>) -> Map<Seq<char>, i64>
    decreases nodes.len(),
{
    if nodes.len() == 0 {
        Map::empty()
    } else {
        refs_of(nodes.drop_last()).insert(ref_name(nodes.last().ref_idx as nat), 0)
    }
}

fn copy_opt(o: &Option<String>) -> (res: Option<String>)
    ensures
        opt_view(res) == opt_view(*o),
{
    match o {
        Some(s) => Some(s.clone()),
        None => None,
    }
}

/// Builds the nodes and the ref table of a snapshot from the accessibility walk.
/// Each kept node keeps the ref index the page stamped on its element, so that with
/// `interactive_only` the refs stay those of the page (e.g. e0, e3, e7).
pub fn collect_snapshot(result: &JsSnapshotResult, interactive_only: bool) -> (out: (Vec<SnapshotNode>, RefMap, u64))
    ensures
        out.0@.len() == kept(result.nodes@, interactive_only).len(),
        forall|i: int| 0 <= i < out.0@.len() ==> node_of(#[trigger] out.0@[i], kept(result.nodes@, interactive_only)[i]),
        out.1@ == refs_of(kept(result.nodes@, interactive_only)),
        out.2 == result.next_ref,
        forall|j: int| 0 <= j < result.nodes@.len() && (!interactive_only || (#[trigger] result.nodes@[j]).interactive)
            ==> out.1@.dom().contains(ref_name(result.nodes@[j].ref_idx as nat))
                && exists|i: int| 0 <= i < out.0@.len() && node_of(out.0@[i], result.nodes@[j]),
        interactive_only ==> out.0@.len() == result.nodes@.filter(|n: JsNode| n.interactive).len(),
        !interactive_only ==> out.0@.len() == result.nodes@.len(),
{
    let mut ref_map = RefMap::new();
    let mut snapshot_nodes: Vec<SnapshotNode> = Vec::new();
    let nodes = &result.nodes;
    let mut i: usize = 0;
    while i < nodes.len()
        invariant
            nodes == &result.nodes,
            i <= nodes@.len(),
            snapshot_nodes@.len() == kept(nodes@.take(i as int), interactive_only).len(),
            forall|k: int| 0 <= k < snapshot_nodes@.len()
                ==> node_of(#[trigger] snapshot_nodes@[k], kept(nodes@.take(i as int), interactive_only)[k]),
            ref_map@ == refs_of(kept(nodes@.take(i as int), interactive_only)),
        decreases nodes.len() - i,
    {
        let node = &nodes[i];
        let ghost before = kept(nodes@.take(i as int), interactive_only);
        let ghost t = nodes@.take(i + 1);
        assert(t.drop_last() =~= nodes@.take(i as int));
        assert(t.last() == nodes@[i as int]);
        if interactive_only && !node.interactive {
            assert(kept(t, interactive_only) =~= before);
        } else {
            // The same ref index that the page stamped on the element.
            let mut ref_id = String::new();
            ref_id.append("e");
            append_decimal(&mut ref_id, node.ref_idx as u64);
            let mut key = String::new();
            key.append(ref_id.as_str());
            ref_map.insert(key, 0);
            snapshot_nodes.push(SnapshotNode {
                ref_id,
                role: node.role.clone(),
                name: node.name.clone(),
                description: copy_opt(&node.desc),
                value: copy_opt(&node.value),
                interactive: node.interactive,
                children: Vec::new(),
            });
            assert(kept(t, interactive_only) =~= before.push(*node));
            assert(refs_of(before.push(*node)) =~= refs_of(before).insert(ref_name(node.ref_idx as nat), 0)) by {
                assert(before.push(*node).drop_last() =~= before);
            }
        }
        i = i + 1;
    }
    assert(nodes@.take(nodes@.len() as int) =~= nodes@);
    proof {
        law_interactive_snapshot_keeps_every_interactive(nodes@);
        law_interactive_snapshot_keeps_refs(nodes@);
        let k = kept(nodes@, interactive_only);
        assert forall|j: int| 0 <= j < nodes@.len() && (!interactive_only || (#[trigger] nodes@[j]).interactive)
            implies ref_map@.dom().contains(ref_name(nodes@[j].ref_idx as nat))
                && exists|i: int| 0 <= i < snapshot_nodes@.len() && node_of(snapshot_nodes@[i], nodes@[j]) by {
            if interactive_only {
                assert(k.contains(nodes@[j]));
            } else {
                assert(k[j] == nodes@[j]);
                assert(k.contains(nodes@[j]));
                lemma_refs_of_member(k, j);
            }
            let m = choose|m: int| 0 <= m < k.len() && k[m] == nodes@[j];
            assert(node_of(snapshot_nodes@[m], k[m]));
        }
    }
    (snapshot_nodes, ref_map, result.next_ref)
}

/// JavaScript that walks the DOM and extracts accessibility info.
/// Uses computedRole/computedName (Chrome 90+) with aria-* fallbacks.
/// Stamps each matched element with data-lynx-ref="eN" for click/type resolution.
///
/// Refs are **persistent and monotonic**: once an element is stamped with eN, it keeps
/// that ref across subsequent snapshots. New elements get the next available ref from
/// `window.__lynx_next_ref`. Removed elements naturally lose their stamp.
///
/// The `__LYNX_SELECTOR__` placeholder is replaced with a CSS selector string
/// or `null` to scope the snapshot to a subtree.
pub const JS_SNAPSHOT_TEMPLATE: &'static str = r#"
(function(rootSelector) {
    const INTERACTIVE_TAGS = new Set(['A','BUTTON','INPUT','SELECT','TEXTAREA','DETAILS','SUMMARY']);
    const INTERACTIVE_ROLES = new Set([
        'button','link','textbox','checkbox','radio','combobox','listbox',
        'menuitem','menuitemcheckbox','menuitemradio','option','searchbox',
        'slider','spinbutton','switch','tab','treeitem'
    ]);
    const SKIP_TAGS = new Set(['SCRIPT','STYLE','NOSCRIPT','SVG','PATH','META','LINK','BR','HR']);

    function getRole(el) {
        if (el.computedRole && el.computedRole !== 'generic' && el.computedRole !== 'none') {
            return el.computedRole;
        }
        var ariaRole = el.getAttribute('role');
        if (ariaRole && ariaRole !== 'none' && ariaRole !== 'presentation') return ariaRole;
        var tag = el.tagName;
        if (tag === 'A' && el.href) return 'link';
        if (tag === 'BUTTON') return 'button';
        if (tag === 'INPUT') {
            var t = (el.type || 'text').toLowerCase();
            if (t === 'checkbox') return 'checkbox';
            if (t === 'radio') return 'radio';
            if (t === 'submit' || t === 'button') return 'button';
            if (t === 'search') return 'searchbox';
            return 'textbox';
        }
        if (tag === 'TEXTAREA') return 'textbox';
        if (tag === 'SELECT') return 'combobox';
        if (tag === 'IMG') return 'img';
        if (tag === 'H1' || tag === 'H2' || tag === 'H3' || tag === 'H4' || tag === 'H5' || tag === 'H6') return 'heading';
        if (tag === 'NAV') return 'navigation';
        if (tag === 'MAIN') return 'main';
        if (tag === 'HEADER') return 'banner';
        if (tag === 'FOOTER') return 'contentinfo';
        if (tag === 'ASIDE') return 'complementary';
        if (tag === 'FORM') return 'form';
        if (tag === 'TABLE') return 'table';
        if (tag === 'UL' || tag === 'OL') return 'list';
        if (tag === 'LI') return 'listitem';
        return '';
    }

    function getName(el) {
        if (el.computedName) return el.computedName;
        var ariaLabel = el.getAttribute('aria-label');
        if (ariaLabel) return ariaLabel;
        var ariaLabelledBy = el.getAttribute('aria-labelledby');
        if (ariaLabelledBy) {
            var labelEl = document.getElementById(ariaLabelledBy);
            if (labelEl) return labelEl.textContent.trim().substring(0, 100);
        }
        if (el.tagName === 'IMG') return el.alt || '';
        if (el.tagName === 'INPUT' || el.tagName === 'TEXTAREA' || el.tagName === 'SELECT') {
            if (el.labels && el.labels.length > 0) return el.labels[0].textContent.trim().substring(0, 100);
            return el.placeholder || el.name || '';
        }
        var text = el.textContent || '';
        return text.trim().substring(0, 100);
    }

    // Persistent monotonic counter — never resets across snapshots
    if (typeof window.__lynx_next_ref === 'undefined') {
        window.__lynx_next_ref = 0;
    }

    // Scope to selector subtree or full body
    var root = rootSelector ? document.querySelector(rootSelector) : document.body;
    if (!root) root = document.body;

    var nodes = [];
    var walker = document.createTreeWalker(root, NodeFilter.SHOW_ELEMENT, null);
    var el = walker.currentNode;
    while (el) {
        if (!SKIP_TAGS.has(el.tagName)) {
            var role = getRole(el);
            if (role) {
                var name = getName(el);
                var interactive = INTERACTIVE_TAGS.has(el.tagName) || INTERACTIVE_ROLES.has(role);
                var value = el.value !== undefined && el.value !== '' ? String(el.value) : undefined;
                var desc = el.getAttribute('aria-description') || undefined;

                // Persistent ref: keep existing stamp, only assign new refs to unstamped elements
                var existingRef = el.getAttribute('data-lynx-ref');
                var refIdx;
                if (existingRef) {
                    refIdx = parseInt(existingRef.substring(1), 10);
                } else {
                    refIdx = window.__lynx_next_ref++;
                    el.setAttribute('data-lynx-ref', 'e' + refIdx);
                }

                nodes.push({ role: role, name: name, interactive: interactive, value: value, desc: desc, tag: el.tagName, r: refIdx });
            }
        }
        el = walker.nextNode();
    }
    return JSON.stringify({ nodes: nodes, nextRef: window.__lynx_next_ref });
})(__LYNX_SELECTOR__)
"#;

/// The placeholder of the snapshot script that the selector replaces.
pub const SELECTOR_PLACEHOLDER: &'static str = "__LYNX_SELECTOR__";

/// What stands for the placeholder: the selector, escaped, in single quotes; or `null`.
pub open spec fn selector_argument(selector: Option<Seq<char>>) -> Seq<char> {
    match selector {
        Some(sel) => "'"@ + map_chars(sel, |c: char| js_quote_char(c)) + "'"@,
        None => "null"@,
    }
}

/// The script of a snapshot scoped to `selector`, or to the whole body.
pub fn snapshot_script(selector: Option<&str>) -> (js: String)
    ensures
        js@ == replace_all(JS_SNAPSHOT_TEMPLATE@, SELECTOR_PLACEHOLDER@, selector_argument(
            match selector { Some(s) => Some(s@), None => None },
        )),
{
    proof {
        reveal_strlit("__LYNX_SELECTOR__");
    }
    let arg = match selector {
        Some(sel) => {
            let escaped = escape(sel, Escaping::JsQuote);
            let mut a = String::new();
            a.append("'");
            a.append(escaped.as_str());
            a.append("'");
            proof {
                assert(escaping_fn(Escaping::JsQuote) =~= (|c: char| js_quote_char(c)));
            }
            a
        },
        None => {
            let mut a = String::new();
            a.append("null");
            a
        },
    };
    replace_str(JS_SNAPSHOT_TEMPLATE, SELECTOR_PLACEHOLDER, arg.as_str())
}


/// A snapshot of everything keeps every element, in order; an interactive-only snapshot
/// keeps interactive elements only, each with the ref it has in the full snapshot.
pub proof fn law_interactive_snapshot_keeps_refs(nodes: Seq<JsNode>)
    ensures
        kept(nodes, false) == nodes,
        forall|i: int| 0 <= i < kept(nodes, true).len() ==> (#[trigger] kept(nodes, true)[i]).interactive,
        forall|i: int| 0 <= i < kept(nodes, true).len() ==> exists|j: int| 0 <= j < nodes.len() && nodes[j] == #[trigger] kept(nodes, true)[i],
    decreases nodes.len(),
{
    if nodes.len() > 0 {
        let d = nodes.drop_last();
        law_interactive_snapshot_keeps_refs(d);
        assert(kept(nodes, false) =~= nodes);
        let k = kept(nodes, true);
        let kd = kept(d, true);
        assert forall|i: int| 0 <= i < k.len() implies exists|j: int| 0 <= j < nodes.len() && nodes[j] == #[trigger] k[i] by {
            if i < kd.len() {
                assert(k[i] == kd[i]);
                let j = choose|j: int| 0 <= j < d.len() && d[j] == kd[i];
                assert(nodes[j] == d[j]);
            } else {
                assert(k[i] == nodes[nodes.len() - 1]);
            }
        }
        assert forall|i: int| 0 <= i < k.len() implies (#[trigger] k[i]).interactive by {
            if i < kd.len() {
                assert(k[i] == kd[i]);
            }
        }
    } else {
        assert(kept(nodes, false) =~= nodes);
    }
}

proof fn lemma_refs_of_member(nodes: Seq<JsNode>, i: int)
    requires
        0 <= i < nodes.len(),
    ensures
        refs_of(nodes).dom().contains(ref_name(nodes[i].ref_idx as nat)),
    decreases nodes.len(),
{
    if i < nodes.len() - 1 {
        let d = nodes.drop_last();
        assert(d[i] == nodes[i]);
        lemma_refs_of_member(d, i);
    }
}

/// An interactive-only snapshot keeps exactly the interactive elements, in order, whatever
/// their names: each interactive element of the walk is a node of the snapshot and its ref
/// is in the ref table.
pub proof fn law_interactive_snapshot_keeps_every_interactive(nodes: Seq<JsNode>)
    ensures
        kept(nodes, true) == nodes.filter(|n: JsNode| n.interactive),
        forall|j: int| 0 <= j < nodes.len() && (#[trigger] nodes[j]).interactive ==> kept(nodes, true).contains(nodes[j]),
        forall|j: int| 0 <= j < nodes.len() && (#[trigger] nodes[j]).interactive
            ==> refs_of(kept(nodes, true)).dom().contains(ref_name(nodes[j].ref_idx as nat)),
    decreases nodes.len(),
{
    reveal(Seq::filter);
    let f = |n: JsNode| n.interactive;
    if nodes.len() > 0 {
        let d = nodes.drop_last();
        law_interactive_snapshot_keeps_every_interactive(d);
        assert(kept(nodes, true) =~= nodes.filter(f));
        let k = kept(nodes, true);
        let kd = kept(d, true);
        assert forall|j: int| 0 <= j < nodes.len() && (#[trigger] nodes[j]).interactive implies k.contains(nodes[j])
            && refs_of(k).dom().contains(ref_name(nodes[j].ref_idx as nat)) by {
            if j < nodes.len() - 1 {
                assert(nodes[j] == d[j]);
                assert(kd.contains(d[j]));
                let m = choose|m: int| 0 <= m < kd.len() && kd[m] == d[j];
                assert(k[m] == kd[m]);
                lemma_refs_of_member(k, m);
            } else {
                assert(k[k.len() - 1] == nodes[j]);
                lemma_refs_of_member(k, k.len() - 1);
            }
        }
    } else {
        assert(kept(nodes, true) =~= nodes.filter(f));
    }
}

} // verus!
