//! The state of one browser instance and the decisions its operations make.
use vstd::prelude::*;
use vstd::utf8::encode_utf8;
use crate::error::LynxError;
use crate::snapshot::compact::{render_compact, render_nodes};
use crate::snapshot::diff::{compute_diff, diff_text};
use crate::text::{split_at_char, split_char, lemma_encode_concat, append_signed_decimal, signed_decimal, byte_len, byte_length, cut_ok, join, join_strings, str_eq, to_string, truncate_bytes, views};
use crate::types::{InstanceId, InstanceInfo, SnapshotNode, opt_view};

verus! {

/// The table that an entry list stands for: a later entry for a ref replaces an earlier one.
pub open spec fn entries_map(entries: Seq<(String, i64)>) -> Map<Seq<char>, i64>
    decreases entries.len(),
{
    if entries.len() == 0 {
        Map::empty()
    } else {
        entries_map(entries.drop_last()).insert(entries.last().0@, entries.last().1)
    }
}

/// The node recorded for `key` in an entry list: that of its last entry.
pub open spec fn entries_lookup(entries: Seq<(String, i64)>, key: Seq<char>) -> Option<i64>
    decreases entries.len(),
{
    if entries.len() == 0 {
        None
    } else if entries.last().0@ == key {
        Some(entries.last().1)
    } else {
        entries_lookup(entries.drop_last(), key)
    }
}

proof fn lemma_lookup_is_map(entries: Seq<(String, i64)>, key: Seq<char>)
    ensures
        entries_map(entries).dom().contains(key) <==> entries_lookup(entries, key) is Some,
        entries_lookup(entries, key) matches Some(v) ==> entries_map(entries)[key] == v,
    decreases entries.len(),
{
    if entries.len() > 0 {
        lemma_lookup_is_map(entries.drop_last(), key);
    }
}

/// Maps element refs (e0, e1...) to backend DOM node IDs.
/// Ref indices are assigned by the JS snapshot walker (data-lynx-ref stamps)
/// and inserted here for validation. Actions use querySelector, not the node ID.
pub struct RefMap {
    ref_to_node: Vec<(String, i64)>,
}

impl View for RefMap {
    type V = Map<Seq<char>, i64>;

    closed spec fn view(&self) -> Map<Seq<char>, i64> {
        entries_map(self.ref_to_node@)
    }
}

impl Default for RefMap {
    fn default() -> (m: Self)
        ensures
            m@ == Map::<Seq<char>, i64>::empty(),
    {
        RefMap::new()
    }
}

impl RefMap {
    /// An empty table.
    pub fn new() -> (m: Self)
        ensures
            m@ == Map::<Seq<char>, i64>::empty(),
    {
        RefMap { ref_to_node: Vec::new() }
    }

    /// Insert a ref_id assigned by the JS snapshot walker.
    pub fn insert(&mut self, ref_id: String, node_id: i64)
        ensures
            final(self)@ == old(self)@.insert(ref_id@, node_id),
    {
        self.ref_to_node.push((ref_id, node_id));
        proof {
            let s = self.ref_to_node@;
            assert(s.drop_last() =~= old(self).ref_to_node@);
        }
    }

    /// The node recorded for `ref_id`, if any.
    pub fn resolve(&self, ref_id: &str) -> (res: Option<&i64>)
        ensures
            match res {
                Some(v) => self@.dom().contains(ref_id@) && self@[ref_id@] == *v,
                None => !self@.dom().contains(ref_id@),
            },
    {
        let entries = &self.ref_to_node;
        let mut k: usize = entries.len();
        assert(entries@.take(k as int) =~= entries@);
        while k > 0
            invariant
                entries == &self.ref_to_node,
                k <= entries@.len(),
                entries_lookup(entries@, ref_id@) == entries_lookup(entries@.take(k as int), ref_id@),
            decreases k,
        {
            let ghost t = entries@.take(k as int);
            assert(t.drop_last() =~= entries@.take(k - 1));
            if crate::text::str_eq(entries[k - 1].0.as_str(), ref_id) {
                proof {
                    lemma_lookup_is_map(entries@, ref_id@);
                }
                return Some(&entries[k - 1].1);
            }
            k = k - 1;
        }
        proof {
            lemma_lookup_is_map(entries@, ref_id@);
        }
        None
    }
}


/// A running browser instance: its identity, the state its snapshots leave behind, and
/// the handle `H` through which the browser itself is driven.
pub struct BrowserInstance<H> {
    pub id: InstanceId,
    pub profile: String,
    /// The browser, its page and the task that serves the browser's events.
    pub handle: H,
    pub ref_map: RefMap,
    pub last_snapshot: Option<Vec<SnapshotNode>>,
    pub snapshot_version: u64,
    /// When the instance was launched, in RFC 3339 form.
    pub created_at: String,
    pub headless: bool,
    pub block_images: bool,
}

/// The message of the error for an operation on an instance whose browser has exited.
pub open spec fn dead_message(id: Seq<char>) -> Seq<char> {
    "Instance '"@ + id + "' is dead (Chrome process exited). Destroy and recreate it."@
}

/// What a snapshot taken with `diff` reports about the previous one.
#[derive(Debug)]
pub enum DiffSummary {
    /// There was no previous snapshot; the note says so.
    First(String),
    /// The changes since the previous snapshot.
    Changes(String),
}

/// The characters of a [`DiffSummary`]: whether it lists changes, and its text.
pub open spec fn summary_view(d: DiffSummary) -> (bool, Seq<char>) {
    match d {
        DiffSummary::First(m) => (false, m@),
        DiffSummary::Changes(c) => (true, c@),
    }
}

/// The characters of an optional [`DiffSummary`].
pub open spec fn opt_summary_view(d: Option<DiffSummary>) -> Option<(bool, Seq<char>)> {
    match d {
        Some(d) => Some(summary_view(d)),
        None => None,
    }
}

/// The summary that a snapshot asked for a diff carries.
pub open spec fn diff_summary_of(diff: bool, previous: Option<Vec<SnapshotNode>>, nodes: Seq<SnapshotNode>) -> Option<(bool, Seq<char>)> {
    if diff {
        match previous {
            Some(prev) => Some((true, diff_text(prev@, nodes))),
            None => Some((false, "First snapshot — no diff available"@)),
        }
    } else {
        None
    }
}

impl DiffSummary {
    /// The text of the summary.
    pub fn into_text(self) -> (t: String)
        ensures
            t@ == summary_view(self).1,
    {
        match self {
            DiffSummary::First(m) => m,
            DiffSummary::Changes(c) => c,
        }
    }
}

impl<H> BrowserInstance<H> {
    /// A freshly launched instance: no refs, no snapshot yet.
    pub fn new(id: InstanceId, profile: String, handle: H, created_at: String, headless: bool, block_images: bool) -> (inst: Self)
        ensures
            inst.id == id,
            inst.profile == profile,
            inst.handle == handle,
            inst.ref_map@ == Map::<Seq<char>, i64>::empty(),
            inst.last_snapshot is None,
            inst.snapshot_version == 0,
            inst.created_at == created_at,
            inst.headless == headless,
            inst.block_images == block_images,
    {
        BrowserInstance {
            id,
            profile,
            handle,
            ref_map: RefMap::new(),
            last_snapshot: None,
            snapshot_version: 0,
            created_at,
            headless,
            block_images,
        }
    }

    /// The listing entry of the instance; `alive` says whether its browser still runs and
    /// `url` is the address its page shows now.
    pub fn info(&self, alive: bool, url: &str) -> (info: InstanceInfo)
        ensures
            info.id@ == self.id@,
            info.profile@ == self.profile@,
            info.url@ == url@,
            info.created_at@ == self.created_at@,
            info.headless == self.headless,
            info.status@ == (if alive { "alive"@ } else { "dead"@ }),
    {
        let mut status = String::new();
        if alive {
            status.append("alive");
        } else {
            status.append("dead");
        }
        InstanceInfo {
            id: self.id.clone(),
            profile: self.profile.clone(),
            url: to_string(url),
            created_at: self.created_at.clone(),
            headless: self.headless,
            status,
        }
    }

    /// Ensure the instance is alive before performing operations.
    /// Returns a clear error instead of cryptic "send failed because receiver is gone".
    pub fn check_alive(&self, alive: bool) -> (res: Result<(), LynxError>)
        ensures
            alive ==> res is Ok,
            !alive ==> (res matches Err(LynxError::Browser(m)) && m@ == dead_message(self.id@)),
    {
        if alive {
            Ok(())
        } else {
            let mut m = String::new();
            m.append("Instance '");
            m.append(self.id.as_str());
            m.append("' is dead (Chrome process exited). Destroy and recreate it.");
            Err(LynxError::Browser(m))
        }
    }

    /// Records a new snapshot: its nodes, its ref table and the page's next ref index
    /// replace the previous ones. With `diff`, returns the summary of the changes since the
    /// previous snapshot (or that there was none).
    pub fn record_snapshot(&mut self, nodes: Vec<SnapshotNode>, ref_map: RefMap, next_ref: u64, diff: bool) -> (summary: Option<DiffSummary>)
        ensures
            opt_summary_view(summary) == diff_summary_of(diff, old(self).last_snapshot, nodes@),
            final(self).last_snapshot == Some(nodes),
            final(self).ref_map == ref_map,
            final(self).snapshot_version == next_ref,
            final(self).id == old(self).id,
            final(self).profile == old(self).profile,
            final(self).handle == old(self).handle,
            final(self).created_at == old(self).created_at,
            final(self).headless == old(self).headless,
            final(self).block_images == old(self).block_images,
    {
        let summary = if diff {
            match &self.last_snapshot {
                Some(prev) => Some(DiffSummary::Changes(compute_diff(prev.as_slice(), nodes.as_slice()))),
                None => {
                    let mut m = String::new();
                    m.append("First snapshot — no diff available");
                    Some(DiffSummary::First(m))
                },
            }
        } else {
            None
        };
        self.ref_map = ref_map;
        self.snapshot_version = next_ref;
        self.last_snapshot = Some(nodes);
        summary
    }
}

/// Whether a snapshot filter asks for interactive elements only.
pub fn is_interactive_filter(filter: Option<&str>) -> (res: bool)
    ensures
        res == (filter matches Some(f) && f@ == "interactive"@),
{
    match filter {
        Some(f) => str_eq(f, "interactive"),
        None => false,
    }
}

/// The compact text of a snapshot, before truncation: one line per node, joined by newlines.
pub fn compact_text(nodes: &[SnapshotNode]) -> (text: String)
    ensures
        text@ == join(render_nodes(nodes@), "\n"@),
{
    let mut lines: Vec<String> = Vec::new();
    assert(views(lines@) =~= Seq::<Seq<char>>::empty());
    render_compact(nodes, &mut lines);
    assert(views(lines@) =~= render_nodes(nodes@));
    join_strings(&lines, "\n")
}

/// The budget in bytes for `max_tokens` tokens (about four bytes per token).
pub open spec fn char_limit(max_tokens: usize) -> int {
    max_tokens * 4
}

/// `text` cut to the budget of `max_tokens` tokens, when it is over it.
pub open spec fn truncated(text: Seq<char>, max_tokens: Option<usize>, marker: Seq<char>) -> Seq<u8> {
    match max_tokens {
        Some(m) => if byte_len(text) > char_limit(m) {
            encode_utf8(text).subrange(0, char_limit(m)) + encode_utf8(marker)
        } else {
            encode_utf8(text)
        },
        None => encode_utf8(text),
    }
}

/// The compact output of a snapshot. With the changes since the previous snapshot, it is
/// those changes only. Otherwise it is `text` cut to the token budget (the cut marked),
/// under the note that no previous snapshot exists when a diff was asked for.
pub fn finish_compact(text: &str, max_tokens: Option<usize>, diff: &Option<DiffSummary>) -> (out: String)
    requires
        !(diff matches Some(DiffSummary::Changes(_))) ==> {
            &&& byte_len(text@) <= usize::MAX
            &&& max_tokens matches Some(m) ==> m * 4 <= usize::MAX && cut_ok(text@, m * 4)
        },
    ensures
        match opt_summary_view(*diff) {
            Some((true, changes)) => out@ == changes,
            Some((false, note)) => encode_utf8(out@) == encode_utf8(note + "\n---\n"@)
                + truncated(text@, max_tokens, "\n... (truncated)"@),
            None => encode_utf8(out@) == truncated(text@, max_tokens, "\n... (truncated)"@),
        },
{
    match diff {
        Some(DiffSummary::Changes(changes)) => {
            return to_string(changes.as_str());
        },
        _ => {},
    }
    let mut body = to_string(text);
    match max_tokens {
        Some(max) => {
            let limit = max * 4;
            if byte_length(text) > limit {
                let cut = truncate_bytes(text, limit);
                body = to_string(cut.as_str());
                body.append("\n... (truncated)");
                proof {
                    lemma_encode_concat(cut@, "\n... (truncated)"@);
                }
            }
        },
        None => {},
    }
    match diff {
        Some(DiffSummary::First(note)) => {
            let mut out = to_string(note.as_str());
            out.append("\n---\n");
            out.append(body.as_str());
            proof {
                lemma_encode_concat(note@ + "\n---\n"@, body@);
            }
            out
        },
        _ => body,
    }
}

/// The visible text of a page cut to the budget of `max_tokens` tokens, when it is over it.
pub fn truncate_page_text(text: &str, max_tokens: usize) -> (out: String)
    requires
        byte_len(text@) <= usize::MAX,
        max_tokens * 4 <= usize::MAX,
        cut_ok(text@, max_tokens * 4),
    ensures
        encode_utf8(out@) == truncated(text@, Some(max_tokens), "... (truncated)"@),
{
    let limit = max_tokens * 4;
    if byte_length(text) > limit {
        let cut = truncate_bytes(text, limit);
        let mut out = to_string(cut.as_str());
        out.append("... (truncated)");
        proof {
            lemma_encode_concat(cut@, "... (truncated)"@);
        }
        out
    } else {
        to_string(text)
    }
}

/// The `key` and `code` values of the keyboard event for a key name: named keys map to
/// themselves, a space (named or literal) to `" "` and `Space`, any other key to itself twice.
pub open spec fn key_event_values(key: Seq<char>) -> (Seq<char>, Seq<char>) {
    if key == "Space"@ || key == " "@ {
        (" "@, "Space"@)
    } else {
        (key, key)
    }
}

/// Map key names to KeyboardEvent key/code values
pub fn key_codes(key: &str) -> (res: (String, String))
    ensures
        (res.0@, res.1@) == key_event_values(key@),
{
    if str_eq(key, "Space") || str_eq(key, " ") {
        let mut k = String::new();
        k.append(" ");
        let mut c = String::new();
        c.append("Space");
        (k, c)
    } else {
        (to_string(key), to_string(key))
    }
}

/// The error for an element that the page no longer holds.
pub open spec fn dom_walk_miss(ref_id: Seq<char>) -> Seq<char> {
    ref_id + " not found in DOM walk"@
}

fn not_in_dom_walk(ref_id: &str) -> (e: LynxError)
    ensures
        e matches LynxError::ElementNotFound(m) && m@ == dom_walk_miss(ref_id@),
{
    let mut m = to_string(ref_id);
    m.append(" not found in DOM walk");
    LynxError::ElementNotFound(m)
}

/// What a key press reports, given what the page's script answered.
pub fn press_outcome(ref_id: &str, key: &str, result: &str) -> (res: Result<String, LynxError>)
    ensures
        result@ == "pressed"@ ==> (res matches Ok(m) && m@ == "Pressed "@ + key@ + " on "@ + ref_id@),
        result@ != "pressed"@ ==> (res matches Err(LynxError::ElementNotFound(m)) && m@ == dom_walk_miss(ref_id@)),
{
    if str_eq(result, "pressed") {
        let mut m = String::new();
        m.append("Pressed ");
        m.append(key);
        m.append(" on ");
        m.append(ref_id);
        Ok(m)
    } else {
        Err(not_in_dom_walk(ref_id))
    }
}

/// The typing method that the page's script reports after `typed:`, or `unknown`.
pub open spec fn typing_method(result: Seq<char>) -> Seq<char> {
    if result.len() >= 6 && result.take(6) == "typed:"@ {
        result.skip(6)
    } else {
        "unknown"@
    }
}

/// What typing into an element reports, given what the page's script answered.
pub fn type_text_outcome(ref_id: &str, text: &str, result: &str) -> (res: Result<String, LynxError>)
    ensures
        result@ == "not_found"@ ==> (res matches Err(LynxError::ElementNotFound(m)) && m@ == dom_walk_miss(ref_id@)),
        result@ != "not_found"@ ==> (res matches Ok(m)
            && m@ == "Typed into "@ + ref_id@ + " via "@ + typing_method(result@) + ": "@ + text@),
{
    proof {
        reveal_strlit("typed:");
    }
    if str_eq(result, "not_found") {
        return Err(not_in_dom_walk(ref_id));
    }
    let chars = crate::text::chars_of(result);
    let mut m = String::new();
    m.append("Typed into ");
    m.append(ref_id);
    m.append(" via ");
    if chars.len() >= 6 && crate::text::str_eq(result.substring_char(0, 6), "typed:") {
        m.append(result.substring_char(6, chars.len()));
    } else {
        m.append("unknown");
    }
    m.append(": ");
    m.append(text);
    Ok(m)
}


/// Whether a first click attempt should be retried after dismissing overlays: only when
/// the element was not found.
pub fn click_needs_retry(first: &Result<String, LynxError>) -> (retry: bool)
    ensures
        retry == (first matches Err(LynxError::ElementNotFound(_))),
{
    match first {
        Err(LynxError::ElementNotFound(_)) => true,
        _ => false,
    }
}

/// What locating an element for a click reports, given what the page's script answered:
/// `not_found`, or the element's position as JSON.
pub fn locate_outcome(ref_id: &str, result: &str) -> (res: Result<(), LynxError>)
    ensures
        result@ == "not_found"@ ==> (res matches Err(LynxError::ElementNotFound(m)) && m@ == ref_id@ + " not found in DOM"@),
        result@ != "not_found"@ ==> res is Ok,
{
    if str_eq(result, "not_found") {
        let mut m = to_string(ref_id);
        m.append(" not found in DOM");
        Err(LynxError::ElementNotFound(m))
    } else {
        Ok(())
    }
}

/// The report of a click on the element `ref_id` whose tag and text the page gave.
pub fn click_report(ref_id: &str, tag: &str, text: &str) -> (m: String)
    ensures
        m@ == "Clicked "@ + ref_id@ + " ("@ + tag@ + ":"@ + text@ + ")"@,
{
    let mut m = String::new();
    m.append("Clicked ");
    m.append(ref_id);
    m.append(" (");
    m.append(tag);
    m.append(":");
    m.append(text);
    m.append(")");
    m
}

/// The report of a navigation: where the page ended up, its title, and the reason the user
/// must step in, if the page asks for it.
pub fn navigate_report(current_url: &str, title: &str, intervention: Option<&str>) -> (m: String)
    ensures
        m@ == "Navigated to: "@ + current_url@ + "\nTitle: "@ + title@ + match intervention {
            Some(r) => "\n⚠️ Intervention required: "@ + r@,
            None => Seq::empty(),
        },
{
    let mut m = String::new();
    m.append("Navigated to: ");
    m.append(current_url);
    m.append("\nTitle: ");
    m.append(title);
    match intervention {
        Some(reason) => {
            m.append("\n⚠️ Intervention required: ");
            m.append(reason);
        },
        None => {
            assert(m@ =~= m@ + Seq::<char>::empty());
        },
    }
    m
}

/// Refuses evaluation when it is switched off.
pub fn eval_gate(enabled: bool) -> (res: Result<(), LynxError>)
    ensures
        enabled ==> res is Ok,
        !enabled ==> (res matches Err(LynxError::JsEval(m))
            && m@ == "JavaScript evaluation is disabled (LYNX_EVAL_ENABLED=false)"@),
{
    if enabled {
        Ok(())
    } else {
        Err(LynxError::JsEval(to_string("JavaScript evaluation is disabled (LYNX_EVAL_ENABLED=false)")))
    }
}

/// The report of dismissing overlays.
pub fn dismissed_report(count: i64) -> (m: String)
    ensures
        m@ == "Dismissed "@ + signed_decimal(count as int) + " overlay(s)"@,
{
    let mut m = to_string("Dismissed ");
    append_signed_decimal(&mut m, count);
    m.append(" overlay(s)");
    m
}

fn number_message(before: &str, n: u64, after: &str) -> (m: String)
    ensures
        m@ == before@ + crate::text::decimal(n as nat) + after@,
{
    let mut m = to_string(before);
    crate::text::append_decimal(&mut m, n);
    m.append(after);
    m
}

/// The report of a page whose text settled after `elapsed_ms` milliseconds.
pub fn stable_report(elapsed_ms: u64) -> (m: String)
    ensures
        m@ == "Page stable after "@ + crate::text::decimal(elapsed_ms as nat) + "ms"@,
{
    number_message("Page stable after ", elapsed_ms, "ms")
}

/// The report of a page that did not settle within `timeout_ms` milliseconds.
pub fn stable_timeout_report(timeout_ms: u64) -> (m: String)
    ensures
        m@ == "Timeout after "@ + crate::text::decimal(timeout_ms as nat) + "ms (may still be loading)"@,
{
    number_message("Timeout after ", timeout_ms, "ms (may still be loading)")
}

/// The report of an intervention that the user finished after `elapsed_ms` milliseconds.
pub fn intervention_done_report(elapsed_ms: u64) -> (m: String)
    ensures
        m@ == "User completed intervention after "@ + crate::text::decimal(elapsed_ms as nat) + "ms"@,
{
    number_message("User completed intervention after ", elapsed_ms, "ms")
}

/// The report of an intervention that the user did not finish within `timeout_ms` milliseconds.
pub fn intervention_timeout_report(timeout_ms: u64) -> (m: String)
    ensures
        m@ == "Intervention timed out after "@ + crate::text::decimal(timeout_ms as nat)
            + "ms (user did not click Done)"@,
{
    number_message("Intervention timed out after ", timeout_ms, "ms (user did not click Done)")
}

/// How many rounds in a row the page text must stay the same to count as stable.
pub const STABLE_ROUNDS: u32 = 3;

/// Watches the text of a page across polls until it stays the same, non-empty, for
/// [`STABLE_ROUNDS`] polls after the one that first showed it.
pub struct StabilityTracker {
    pub last_text: String,
    pub stable_rounds: u32,
}

impl StabilityTracker {
    /// A tracker that has seen nothing yet.
    pub fn new() -> (t: Self)
        ensures
            t.last_text@ == Seq::<char>::empty(),
            t.stable_rounds == 0,
    {
        StabilityTracker { last_text: String::new(), stable_rounds: 0 }
    }

    /// Takes the text of one poll; returns whether the page is now stable.
    pub fn observe(&mut self, text: String) -> (stable: bool)
        requires
            old(self).stable_rounds < STABLE_ROUNDS,
        ensures
            text@ == old(self).last_text@ && text@.len() > 0 ==> {
                &&& final(self).stable_rounds == old(self).stable_rounds + 1
                &&& final(self).last_text@ == old(self).last_text@
                &&& stable == (final(self).stable_rounds >= STABLE_ROUNDS)
            },
            !(text@ == old(self).last_text@ && text@.len() > 0) ==> {
                &&& final(self).stable_rounds == 0
                &&& final(self).last_text@ == text@
                &&& !stable
            },
    {
        if text == self.last_text && text.as_str().unicode_len() > 0 {
            self.stable_rounds = self.stable_rounds + 1;
            self.stable_rounds >= STABLE_ROUNDS
        } else {
            self.stable_rounds = 0;
            self.last_text = text;
            false
        }
    }
}

/// The selector of the file input to upload into: the element stamped `ref_id`, which the
/// latest snapshot must know, or the first file input of the page.
pub fn upload_selector_for(ref_map: &RefMap, ref_id: Option<&str>) -> (res: Result<String, LynxError>)
    ensures
        match ref_id {
            Some(rid) => if ref_map@.dom().contains(rid@) {
                res matches Ok(sel) && sel@ == crate::browser::scripts::upload_selector(Some(rid@))
            } else {
                res matches Err(LynxError::ElementNotFound(m)) && m@ == rid@
            },
            None => res matches Ok(sel) && sel@ == crate::browser::scripts::upload_selector(None),
        },
{
    match ref_id {
        Some(rid) => {
            if ref_map.resolve(rid).is_none() {
                return Err(LynxError::ElementNotFound(to_string(rid)));
            }
            let mut sel = to_string("[data-lynx-ref=\"");
            sel.append(rid);
            sel.append("\"]");
            Ok(sel)
        },
        None => Ok(to_string("input[type=file]")),
    }
}

/// The error for a file to upload that does not exist.
pub fn missing_file_error(path: &str) -> (e: LynxError)
    ensures
        e matches LynxError::Browser(m) && m@ == "File not found: "@ + path@,
{
    let mut m = to_string("File not found: ");
    m.append(path);
    LynxError::Browser(m)
}

/// The error for a page without a file input to upload into.
pub fn no_file_input_error() -> (e: LynxError)
    ensures
        e matches LynxError::ElementNotFound(m) && m@ == "No file input element found on page"@,
{
    LynxError::ElementNotFound(to_string("No file input element found on page"))
}

/// The last part of a `/`-separated path that names something, skipping empty parts and `.`.
pub open spec fn last_component(parts: Seq<Seq<char>>) -> Option<Seq<char>>
    decreases parts.len(),
{
    if parts.len() == 0 {
        None
    } else if parts.last() == ""@ || parts.last() == "."@ {
        last_component(parts.drop_last())
    } else {
        Some(parts.last())
    }
}

/// The file name of a path under Unix path rules: its last named part, unless that is `..`
/// or the path names none.
pub open spec fn file_name_of(path: Seq<char>) -> Option<Seq<char>> {
    match last_component(split_at_char(path, '/')) {
        Some(c) => if c == ".."@ { None } else { Some(c) },
        None => None,
    }
}

/// The file names of `paths` in order, paths without one left out.
pub open spec fn file_names(paths: Seq<Seq<char>>) -> Seq<Seq<char>>
    decreases paths.len(),
{
    if paths.len() == 0 {
        Seq::empty()
    } else {
        file_names(paths.drop_last()) + match file_name_of(paths.last()) {
            Some(n) => seq![n],
            None => Seq::empty(),
        }
    }
}

/// The file name of `path`, as `Path::file_name` gives it on Unix.
pub fn file_name(path: &str) -> (res: Option<String>)
    ensures
        opt_view(res) == file_name_of(path@),
{
    let parts = split_char(path, '/');
    let mut k: usize = parts.len();
    assert(views(parts@).take(k as int) =~= views(parts@));
    while k > 0
        invariant
            k <= parts@.len(),
            views(parts@) == split_at_char(path@, '/'),
            last_component(views(parts@)) == last_component(views(parts@).take(k as int)),
        decreases k,
    {
        let ghost t = views(parts@).take(k as int);
        assert(t.drop_last() =~= views(parts@).take(k - 1));
        assert(t.last() == parts@[k - 1]@);
        let p = parts[k - 1].as_str();
        if !str_eq(p, "") && !str_eq(p, ".") {
            if str_eq(p, "..") {
                return None;
            }
            return Some(to_string(p));
        }
        k = k - 1;
    }
    None
}

/// The file names of the uploaded `paths`, in order; a path without one is left out.
pub fn upload_file_names(paths: &[String]) -> (names: Vec<String>)
    ensures
        views(names@) == file_names(views(paths@)),
{
    let mut names: Vec<String> = Vec::new();
    let mut i: usize = 0;
    while i < paths.len()
        invariant
            i <= paths@.len(),
            views(names@) == file_names(views(paths@).take(i as int)),
        decreases paths.len() - i,
    {
        let ghost t = views(paths@).take(i + 1);
        assert(t.drop_last() =~= views(paths@).take(i as int));
        assert(t.last() == paths@[i as int]@);
        match file_name(paths[i].as_str()) {
            Some(n) => {
                names.push(n);
            },
            None => {},
        }
        assert(views(names@) =~= file_names(t));
        i = i + 1;
    }
    assert(views(paths@).take(paths@.len() as int) =~= views(paths@));
    names
}

/// `Ok` when the latest snapshot knows the element `ref_id`, else the error that names it.
pub fn known_ref(ref_map: &RefMap, ref_id: &str) -> (res: Result<(), LynxError>)
    ensures
        res is Ok <==> ref_map@.dom().contains(ref_id@),
        res matches Err(e) ==> e matches LynxError::ElementNotFound(m) && m@ == ref_id@,
{
    if ref_map.resolve(ref_id).is_none() {
        return Err(LynxError::ElementNotFound(to_string(ref_id)));
    }
    Ok(())
}

/// The report of an upload of `count` files whose names are `names`.
pub fn upload_report(count: usize, names: &Vec<String>) -> (m: String)
    ensures
        m@ == "Uploaded "@ + crate::text::decimal(count as nat) + " file(s): "@ + join(views(names@), ", "@),
{
    let mut m = to_string("Uploaded ");
    crate::text::append_decimal(&mut m, count as u64);
    m.append(" file(s): ");
    let joined = join_strings(names, ", ");
    m.append(joined.as_str());
    m
}

/// The report of a login through the password manager.
pub fn auth_login_report(item: &str, username: &str, current_url: &str, fill_result: &str) -> (m: String)
    ensures
        m@ == "Auth login for '"@ + item@ + "' (user: "@ + username@ + ")\nURL: "@ + current_url@ + "\n"@ + fill_result@,
{
    let mut m = to_string("Auth login for '");
    m.append(item);
    m.append("' (user: ");
    m.append(username);
    m.append(")\nURL: ");
    m.append(current_url);
    m.append("\n");
    m.append(fill_result);
    m
}

/// The lock files that an unclean Chrome exit leaves in a profile directory.
pub fn stale_lock_files() -> (names: Vec<String>)
    ensures
        views(names@) == seq!["SingletonLock"@, "SingletonCookie"@, "SingletonSocket"@],
{
    let mut names: Vec<String> = Vec::new();
    names.push(to_string("SingletonLock"));
    names.push(to_string("SingletonCookie"));
    names.push(to_string("SingletonSocket"));
    assert(views(names@) =~= seq!["SingletonLock"@, "SingletonCookie"@, "SingletonSocket"@]);
    names
}

/// How Chrome is started for an instance.
#[derive(Debug)]
pub struct LaunchPlan {
    /// Command-line switches, in order.
    pub args: Vec<String>,
    /// Whether the browser shows a window.
    pub with_head: bool,
    /// The window size: width, height.
    pub window: (u32, u32),
}

/// The switches that every instance gets.
pub open spec fn base_args() -> Seq<Seq<char>> {
    seq![
        "--no-first-run"@,
        "--no-default-browser-check"@,
        "--disable-blink-features=AutomationControlled"@,
        "--force-renderer-accessibility"@,
    ]
}

/// The switches of an instance.
pub open spec fn launch_args(headless: bool, block_images: bool) -> Seq<Seq<char>> {
    base_args()
        + (if headless { seq!["--headless=new"@] } else { Seq::empty() })
        + (if block_images { seq!["--blink-settings=imagesEnabled=false"@] } else { Seq::empty() })
}

/// How to start Chrome: headless at 1920x1080, or with a window of 3840x2160 that Chrome
/// clamps to the screen; image loading off when asked.
pub fn launch_plan(headless: bool, block_images: bool) -> (plan: LaunchPlan)
    ensures
        views(plan.args@) == launch_args(headless, block_images),
        plan.with_head == !headless,
        plan.window == (if headless { (1920u32, 1080u32) } else { (3840u32, 2160u32) }),
{
    let mut args: Vec<String> = Vec::new();
    args.push(to_string("--no-first-run"));
    args.push(to_string("--no-default-browser-check"));
    args.push(to_string("--disable-blink-features=AutomationControlled"));
    args.push(to_string("--force-renderer-accessibility"));
    let window = if headless {
        args.push(to_string("--headless=new"));
        (1920u32, 1080u32)
    } else {
        (3840u32, 2160u32)
    };
    if block_images {
        args.push(to_string("--blink-settings=imagesEnabled=false"));
    }
    assert(views(args@) =~= launch_args(headless, block_images));
    LaunchPlan { args, with_head: !headless, window }
}

/// The viewport of a windowed instance from the screen's available size (1920x1080 when the
/// page does not report it), less 80 pixels of height for Chrome's own bars.
pub fn viewport_for_screen(width: Option<i64>, height: Option<i64>) -> (size: (i64, i64))
    requires
        height matches Some(h) ==> h >= i64::MIN + 80,
    ensures
        size.0 == match width { Some(w) => w, None => 1920 },
        size.1 == match height { Some(h) => h - 80, None => 1000 },
{
    let w = match width {
        Some(w) => w,
        None => 1920,
    };
    let h = match height {
        Some(h) => h,
        None => 1080,
    };
    (w, h - 80)
}

/// What a page's report of its screen holds, read as JSON: the members `w` and `h`, each where
/// it is an integer that fits in `i64`.
pub uninterp spec fn spec_screen_dims(dims: Seq<char>) -> (Option<i64>, Option<i64>);

/// Parses the report with `serde_json::from_str` and reads `w` and `h` with `Value::as_i64`;
/// a report that does not parse gives neither. The contract claims only that the two values
/// depend on the text alone, which the parser's documentation shows.
#[verifier::external_body]
pub(crate) fn parse_screen_dims(dims: &str) -> (res: (Option<i64>, Option<i64>))
    ensures
        res == spec_screen_dims(dims@),
{
    match serde_json::from_str::<serde_json::Value>(dims) {
        Ok(v) => (v["w"].as_i64(), v["h"].as_i64()),
        Err(_) => (None, None),
    }
}

/// The viewport of a windowed instance from the page's JSON report of its available screen
/// size; `None` where the reported height is too low to take the bars off without overflow.
pub fn screen_viewport(dims: &str) -> (res: Option<(i64, i64)>)
    ensures
        res is None <==> (spec_screen_dims(dims@).1 matches Some(h) && h < i64::MIN + 80),
        res matches Some(size) ==> size.0 == match spec_screen_dims(dims@).0 {
            Some(w) => w,
            None => 1920,
        } && size.1 == match spec_screen_dims(dims@).1 {
            Some(h) => h - 80,
            None => 1000,
        },
{
    let (width, height) = parse_screen_dims(dims);
    if let Some(h) = height {
        if h < i64::MIN + 80 {
            return None;
        }
    }
    Some(viewport_for_screen(width, height))
}

} // verus!
