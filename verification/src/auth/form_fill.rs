//! Finding the fields of a login form in a snapshot, and planning each round of filling it.
use vstd::prelude::*;
use crate::text::{contains, spec_to_lowercase, str_contains, str_eq, to_lowercase};
use crate::types::SnapshotNode;
use crate::auth::Credentials;
use crate::text::{append_decimal, decimal, views};

verus! {

/// Patterns to match username-like fields (case-insensitive against name)
pub const USERNAME_PATTERNS: &'static [&'static str; 5] = &["user", "email", "login", "account", "identifier"];

/// Patterns to match password-like fields
pub const PASSWORD_PATTERNS: &'static [&'static str; 3] = &["pass", "secret", "pwd"];

/// Patterns to match TOTP/MFA fields
pub const TOTP_PATTERNS: &'static [&'static str; 7] = &[
    "totp",
    "otp",
    "mfa",
    "verification",
    "code",
    "2fa",
    "authenticator",
];

/// Patterns to match submit buttons
pub const SUBMIT_PATTERNS: &'static [&'static str; 6] = &["sign in", "log in", "login", "submit", "continue", "next"];

/// The texts of a list of patterns.
pub open spec fn pattern_views(patterns: Seq<&str>) -> Seq<Seq<char>> {
    patterns.map_values(|p: &str| p@)
}

/// Whether `lower` holds one of `patterns`.
pub open spec fn matches_any(lower: Seq<char>, patterns: Seq<Seq<char>>) -> bool {
    exists|i: int| 0 <= i < patterns.len() && contains(lower, #[trigger] patterns[i])
}

/// Whether a node is a text input whose lowercased name holds one of `patterns`.
pub open spec fn is_field_for(n: SnapshotNode, patterns: Seq<Seq<char>>) -> bool {
    &&& (n.role@ == "textbox"@ || n.role@ == "searchbox"@)
    &&& n.interactive
    &&& matches_any(spec_to_lowercase(n.name@), patterns)
}

/// Whether a node is a button whose lowercased name holds a submit pattern.
pub open spec fn is_submit_like(n: SnapshotNode, patterns: Seq<Seq<char>>) -> bool {
    n.role@ == "button"@ && matches_any(spec_to_lowercase(n.name@), patterns)
}

/// Whether a node is an interactive button.
pub open spec fn is_interactive_button(n: SnapshotNode) -> bool {
    n.role@ == "button"@ && n.interactive
}

/// The first node of `nodes` that satisfies `p`.
pub open spec fn first_where(nodes: Seq<SnapshotNode>, p: spec_fn(SnapshotNode) -> bool) -> Option<SnapshotNode>
    decreases nodes.len(),
{
    if nodes.len() == 0 {
        None
    } else {
        match first_where(nodes.drop_last(), p) {
            Some(n) => Some(n),
            None => if p(nodes.last()) { Some(nodes.last()) } else { None },
        }
    }
}

/// The node a lookup returned, by value.
pub open spec fn found(res: Option<&SnapshotNode>) -> Option<SnapshotNode> {
    match res {
        Some(r) => Some(*r),
        None => None,
    }
}

/// The node that `find_field` picks.
pub open spec fn field_for(nodes: Seq<SnapshotNode>, patterns: Seq<Seq<char>>) -> Option<SnapshotNode> {
    first_where(nodes, |n: SnapshotNode| is_field_for(n, patterns))
}

/// The node that `find_submit_button` picks: the first submit-like button, or else the
/// first interactive button.
pub open spec fn submit_for(nodes: Seq<SnapshotNode>, patterns: Seq<Seq<char>>) -> Option<SnapshotNode> {
    match first_where(nodes, |n: SnapshotNode| is_submit_like(n, patterns)) {
        Some(n) => Some(n),
        None => first_where(nodes, |n: SnapshotNode| is_interactive_button(n)),
    }
}

/// Whether the already lowercased name `name_lower` holds one of `patterns`.
pub fn name_matches_any(name_lower: &str, patterns: &[&str]) -> (res: bool)
    ensures
        res == matches_any(name_lower@, pattern_views(patterns@)),
{
    let ghost pv = pattern_views(patterns@);
    let mut i: usize = 0;
    while i < patterns.len()
        invariant
            i <= patterns@.len(),
            pv == pattern_views(patterns@),
            forall|k: int| 0 <= k < i ==> !contains(name_lower@, #[trigger] pv[k]),
        decreases patterns.len() - i,
    {
        if str_contains(name_lower, patterns[i]) {
            assert(contains(name_lower@, pv[i as int]));
            return true;
        }
        i = i + 1;
    }
    false
}

/// Whether the name of `n`, lowercased, holds one of `patterns`.
fn lowered_name_matches(n: &SnapshotNode, patterns: &[&str]) -> (res: bool)
    ensures
        res == matches_any(spec_to_lowercase(n.name@), pattern_views(patterns@)),
{
    let name_lower = to_lowercase(n.name.as_str());
    name_matches_any(name_lower.as_str(), patterns)
}

/// Find a textbox node whose name matches any of the given patterns
pub fn find_field<'a>(nodes: &'a [SnapshotNode], patterns: &[&str]) -> (res: Option<&'a SnapshotNode>)
    ensures
        found(res) == field_for(nodes@, pattern_views(patterns@)),
        res matches Some(r) ==> exists|i: int| 0 <= i < nodes@.len() && nodes@[i] == *r
            && is_field_for(*r, pattern_views(patterns@))
            && forall|j: int| 0 <= j < i ==> !is_field_for(#[trigger] nodes@[j], pattern_views(patterns@)),
        res is None ==> forall|j: int| 0 <= j < nodes@.len() ==> !is_field_for(#[trigger] nodes@[j], pattern_views(patterns@)),
{
    proof {
        law_field_is_first_match(nodes@, pattern_views(patterns@));
    }
    let ghost pv = pattern_views(patterns@);
    let ghost p = |n: SnapshotNode| is_field_for(n, pv);
    let mut i: usize = 0;
    while i < nodes.len()
        invariant
            i <= nodes@.len(),
            pv == pattern_views(patterns@),
            p == (|n: SnapshotNode| is_field_for(n, pv)),
            first_where(nodes@.take(i as int), p) is None,
        decreases nodes.len() - i,
    {
        let n = &nodes[i];
        let ghost t = nodes@.take(i + 1);
        assert(t.drop_last() =~= nodes@.take(i as int));
        assert(t.last() == nodes@[i as int]);
        if (str_eq(n.role.as_str(), "textbox") || str_eq(n.role.as_str(), "searchbox")) && n.interactive
            && lowered_name_matches(n, patterns) {
            proof {
                lemma_first_where_prefix(nodes@, p, i as int + 1);
                law_field_is_first_match(nodes@, pv);
            }
            return Some(n);
        }
        i = i + 1;
    }
    assert(nodes@.take(nodes@.len() as int) =~= nodes@);
    None
}

/// A node found within a prefix is the node found in the whole sequence.
pub proof fn lemma_first_where_prefix(nodes: Seq<SnapshotNode>, p: spec_fn(SnapshotNode) -> bool, k: int)
    requires
        0 <= k <= nodes.len(),
        first_where(nodes.take(k), p) is Some,
    ensures
        first_where(nodes, p) == first_where(nodes.take(k), p),
    decreases nodes.len() - k,
{
    if k < nodes.len() {
        let t = nodes.take(k + 1);
        assert(t.drop_last() =~= nodes.take(k));
        lemma_first_where_prefix(nodes, p, k + 1);
    } else {
        assert(nodes.take(k) =~= nodes);
    }
}

/// What `first_where` finds is the first node that satisfies `p`; `None` means none does.
pub proof fn lemma_first_where_is_first(nodes: Seq<SnapshotNode>, p: spec_fn(SnapshotNode) -> bool)
    ensures
        first_where(nodes, p) matches Some(n) ==> exists|i: int| 0 <= i < nodes.len() && nodes[i] == n && p(n)
            && forall|j: int| 0 <= j < i ==> !p(#[trigger] nodes[j]),
        first_where(nodes, p) is None ==> forall|j: int| 0 <= j < nodes.len() ==> !p(#[trigger] nodes[j]),
    decreases nodes.len(),
{
    if nodes.len() > 0 {
        let d = nodes.drop_last();
        lemma_first_where_is_first(d, p);
        match first_where(d, p) {
            Some(n) => {
                let i = choose|i: int| 0 <= i < d.len() && d[i] == n && p(n)
                    && forall|j: int| 0 <= j < i ==> !p(#[trigger] d[j]);
                assert(nodes[i] == d[i]);
                assert forall|j: int| 0 <= j < i implies !p(#[trigger] nodes[j]) by {
                    assert(nodes[j] == d[j]);
                }
            },
            None => {
                assert forall|j: int| 0 <= j < nodes.len() - 1 implies !p(#[trigger] nodes[j]) by {
                    assert(nodes[j] == d[j]);
                }
                if p(nodes.last()) {
                    assert(nodes[nodes.len() - 1] == nodes.last());
                } else {
                    assert forall|j: int| 0 <= j < nodes.len() implies !p(#[trigger] nodes[j]) by {
                        if j < nodes.len() - 1 {
                            assert(nodes[j] == d[j]);
                        }
                    }
                }
            },
        }
    }
}

/// Find a submit-like button
pub fn find_submit_button(nodes: &[SnapshotNode]) -> (res: Option<&SnapshotNode>)
    ensures
        found(res) == submit_for(nodes@, pattern_views(SUBMIT_PATTERNS@)),
        (exists|j: int| 0 <= j < nodes@.len() && is_submit_like(#[trigger] nodes@[j], pattern_views(SUBMIT_PATTERNS@)))
            ==> (res matches Some(b) && exists|i: int| 0 <= i < nodes@.len() && nodes@[i] == *b
                && is_submit_like(*b, pattern_views(SUBMIT_PATTERNS@))
                && forall|j: int| 0 <= j < i ==> !is_submit_like(#[trigger] nodes@[j], pattern_views(SUBMIT_PATTERNS@))),
{
    proof {
        law_submit_is_first_match(nodes@, pattern_views(SUBMIT_PATTERNS@));
    }
    let ghost pv = pattern_views(SUBMIT_PATTERNS@);
    let ghost p = |n: SnapshotNode| is_submit_like(n, pv);
    let ghost q = |n: SnapshotNode| is_interactive_button(n);
    // First try: button with submit-like name
    let mut i: usize = 0;
    while i < nodes.len()
        invariant
            i <= nodes@.len(),
            pv == pattern_views(SUBMIT_PATTERNS@),
            p == (|n: SnapshotNode| is_submit_like(n, pv)),
            first_where(nodes@.take(i as int), p) is None,
        decreases nodes.len() - i,
    {
        let n = &nodes[i];
        let ghost t = nodes@.take(i + 1);
        assert(t.drop_last() =~= nodes@.take(i as int));
        assert(t.last() == nodes@[i as int]);
        if str_eq(n.role.as_str(), "button") && lowered_name_matches(n, SUBMIT_PATTERNS.as_slice()) {
            proof {
                lemma_first_where_prefix(nodes@, p, i as int + 1);
                law_submit_is_first_match(nodes@, pv);
            }
            return Some(n);
        }
        i = i + 1;
    }
    assert(nodes@.take(nodes@.len() as int) =~= nodes@);
    // Fallback: any interactive button
    let mut i: usize = 0;
    while i < nodes.len()
        invariant
            i <= nodes@.len(),
            first_where(nodes@, p) is None,
            pv == pattern_views(SUBMIT_PATTERNS@),
            p == (|n: SnapshotNode| is_submit_like(n, pv)),
            q == (|n: SnapshotNode| is_interactive_button(n)),
            first_where(nodes@.take(i as int), q) is None,
        decreases nodes.len() - i,
    {
        let n = &nodes[i];
        let ghost t = nodes@.take(i + 1);
        assert(t.drop_last() =~= nodes@.take(i as int));
        assert(t.last() == nodes@[i as int]);
        if str_eq(n.role.as_str(), "button") && n.interactive {
            proof {
                lemma_first_where_prefix(nodes@, q, i as int + 1);
                law_submit_is_first_match(nodes@, pv);
            }
            return Some(n);
        }
        i = i + 1;
    }
    assert(nodes@.take(nodes@.len() as int) =~= nodes@);
    None
}

/// How many rounds a login form fill runs at most.
pub const MAX_LOGIN_ITERATIONS: usize = 5;

/// One step that a round of form filling performs on the page.
#[derive(Debug, Clone)]
pub enum LoginAction {
    /// Type `text` into the element `ref_id`, clearing it first.
    TypeText { ref_id: String, text: String },
    /// Click the element `ref_id`.
    Click { ref_id: String },
    /// Press `key` on the element `ref_id`.
    Press { ref_id: String, key: String },
}

/// The characters of a [`LoginAction`].
pub enum LoginActionView {
    TypeText { ref_id: Seq<char>, text: Seq<char> },
    Click { ref_id: Seq<char> },
    Press { ref_id: Seq<char>, key: Seq<char> },
}

impl View for LoginAction {
    type V = LoginActionView;

    open spec fn view(&self) -> LoginActionView {
        match self {
            LoginAction::TypeText { ref_id, text } => LoginActionView::TypeText { ref_id: ref_id@, text: text@ },
            LoginAction::Click { ref_id } => LoginActionView::Click { ref_id: ref_id@ },
            LoginAction::Press { ref_id, key } => LoginActionView::Press { ref_id: ref_id@, key: key@ },
        }
    }
}

/// The views of a list of actions.
pub open spec fn action_views(actions: Seq<LoginAction>) -> Seq<LoginActionView> {
    actions.map_values(|a: LoginAction| a@)
}

/// What one round of form filling does and reports.
#[derive(Debug)]
pub struct LoginRound {
    /// The steps to perform, in order.
    pub actions: Vec<LoginAction>,
    /// One status line per step, or the reason the fill stops.
    pub log: Vec<String>,
    /// Whether the fill stops after this round.
    pub finished: bool,
}

/// The prefix of every status line of round `i`.
pub open spec fn iter_prefix(i: nat) -> Seq<char> {
    "iter "@ + decimal(i) + ": "@
}

/// The text of an optional TOTP secret.
pub open spec fn totp_text(creds: Credentials) -> Seq<char> {
    match creds.totp {
        Some(t) => t@,
        None => Seq::empty(),
    }
}

/// The TOTP field that a round fills: only when the credentials carry a TOTP.
pub open spec fn totp_target(nodes: Seq<SnapshotNode>, creds: Credentials) -> Option<SnapshotNode> {
    if creds.totp is Some {
        field_for(nodes, pattern_views(TOTP_PATTERNS@))
    } else {
        None
    }
}

/// The username field of a round.
pub open spec fn username_target(nodes: Seq<SnapshotNode>) -> Option<SnapshotNode> {
    field_for(nodes, pattern_views(USERNAME_PATTERNS@))
}

/// The password field of a round.
pub open spec fn password_target(nodes: Seq<SnapshotNode>) -> Option<SnapshotNode> {
    field_for(nodes, pattern_views(PASSWORD_PATTERNS@))
}

/// Whether a round fills at least one field.
pub open spec fn round_acts(nodes: Seq<SnapshotNode>, creds: Credentials) -> bool {
    username_target(nodes) is Some || password_target(nodes) is Some || totp_target(nodes, creds) is Some
}

/// The field on which Enter is pressed when no submit button exists: the password field,
/// else a TOTP field, else the username field.
pub open spec fn enter_target(nodes: Seq<SnapshotNode>) -> Option<SnapshotNode> {
    match password_target(nodes) {
        Some(n) => Some(n),
        None => match field_for(nodes, pattern_views(TOTP_PATTERNS@)) {
            Some(n) => Some(n),
            None => username_target(nodes),
        },
    }
}

/// A typing step into `target`, when there is one.
pub open spec fn type_step(target: Option<SnapshotNode>, text: Seq<char>) -> Seq<LoginActionView> {
    match target {
        Some(n) => seq![LoginActionView::TypeText { ref_id: n.ref_id@, text: text }],
        None => Seq::empty(),
    }
}

/// The status line of a typing step into `target`, when there is one.
pub open spec fn type_line(i: nat, target: Option<SnapshotNode>, what: Seq<char>) -> Seq<Seq<char>> {
    match target {
        Some(n) => seq![iter_prefix(i) + ("typed "@ + what + " into "@) + n.ref_id@],
        None => Seq::empty(),
    }
}

/// The step that submits the form, when a round filled something.
pub open spec fn submit_step(nodes: Seq<SnapshotNode>) -> Seq<LoginActionView> {
    match submit_for(nodes, pattern_views(SUBMIT_PATTERNS@)) {
        Some(b) => seq![LoginActionView::Click { ref_id: b.ref_id@ }],
        None => match enter_target(nodes) {
            Some(f) => seq![LoginActionView::Press { ref_id: f.ref_id@, key: "Enter"@ }],
            None => Seq::empty(),
        },
    }
}

/// The status line of the submitting step.
pub open spec fn submit_line(i: nat, nodes: Seq<SnapshotNode>) -> Seq<Seq<char>> {
    match submit_for(nodes, pattern_views(SUBMIT_PATTERNS@)) {
        Some(b) => seq![iter_prefix(i) + "clicked submit "@ + b.ref_id@],
        None => match enter_target(nodes) {
            Some(f) => seq![iter_prefix(i) + "pressed Enter on "@ + f.ref_id@],
            None => Seq::empty(),
        },
    }
}

/// The steps of a round on the snapshot `snapshot`.
pub open spec fn round_actions(snapshot: Option<Seq<SnapshotNode>>, creds: Credentials) -> Seq<LoginActionView> {
    match snapshot {
        None => Seq::empty(),
        Some(nodes) => {
            let typed = type_step(username_target(nodes), creds.username@)
                + type_step(password_target(nodes), creds.password@)
                + type_step(totp_target(nodes, creds), totp_text(creds));
            if round_acts(nodes, creds) { typed + submit_step(nodes) } else { typed }
        },
    }
}

/// The status lines of round `i` on the snapshot `snapshot`.
pub open spec fn round_log(i: nat, snapshot: Option<Seq<SnapshotNode>>, creds: Credentials) -> Seq<Seq<char>> {
    match snapshot {
        None => seq![iter_prefix(i) + "no snapshot available"@],
        Some(nodes) => {
            let typed = type_line(i, username_target(nodes), "username"@)
                + type_line(i, password_target(nodes), "password"@)
                + type_line(i, totp_target(nodes, creds), "TOTP"@);
            if round_acts(nodes, creds) {
                typed + submit_line(i, nodes)
            } else {
                typed + seq![iter_prefix(i) + "no fillable fields found — login may be complete"@]
            }
        },
    }
}

/// Whether the fill stops after a round on the snapshot `snapshot`.
pub open spec fn round_finished(snapshot: Option<Seq<SnapshotNode>>, creds: Credentials) -> bool {
    match snapshot {
        None => true,
        Some(nodes) => !round_acts(nodes, creds),
    }
}

/// The snapshot as a sequence, when there is one.
pub open spec fn snapshot_view(snapshot: Option<Vec<SnapshotNode>>) -> Option<Seq<SnapshotNode>> {
    match snapshot {
        Some(v) => Some(v@),
        None => None,
    }
}

fn iter_line(iteration: usize, middle: &str, ref_id: &str) -> (line: String)
    ensures
        line@ == iter_prefix(iteration as nat) + middle@ + ref_id@,
{
    let mut line = String::new();
    line.append("iter ");
    append_decimal(&mut line, iteration as u64);
    line.append(": ");
    line.append(middle);
    line.append(ref_id);
    line
}

fn iter_note(iteration: usize, note: &str) -> (line: String)
    ensures
        line@ == iter_prefix(iteration as nat) + note@,
{
    let mut line = String::new();
    line.append("iter ");
    append_decimal(&mut line, iteration as u64);
    line.append(": ");
    line.append(note);
    line
}

fn plan_typing(
    iteration: usize,
    target: Option<&SnapshotNode>,
    text: &String,
    what: &str,
    actions: &mut Vec<LoginAction>,
    log: &mut Vec<String>,
)
    ensures
        action_views(final(actions)@) == action_views(old(actions)@) + type_step(found(target), text@),
        views(final(log)@) == views(old(log)@) + type_line(iteration as nat, found(target), what@),
{
    match target {
        Some(n) => {
            actions.push(LoginAction::TypeText { ref_id: n.ref_id.clone(), text: text.clone() });
            let mut middle = String::new();
            middle.append("typed ");
            middle.append(what);
            middle.append(" into ");
            log.push(iter_line(iteration, middle.as_str(), n.ref_id.as_str()));
        },
        None => {},
    }
    assert(action_views(actions@) =~= action_views(old(actions)@) + type_step(found(target), text@));
    assert(views(log@) =~= views(old(log)@) + type_line(iteration as nat, found(target), what@));
}

/// Plans round `iteration` of the iterative login form fill on the latest snapshot:
/// type the username, password and (when the credentials carry one) TOTP into the fields
/// whose names match, then click a submit button or press Enter on the last field; when
/// nothing can be filled, or no snapshot exists, the fill is finished.
pub fn plan_login_round(
    iteration: usize,
    snapshot: &Option<Vec<SnapshotNode>>,
    creds: &Credentials,
) -> (round: LoginRound)
    ensures
        action_views(round.actions@) == round_actions(snapshot_view(*snapshot), *creds),
        views(round.log@) == round_log(iteration as nat, snapshot_view(*snapshot), *creds),
        round.finished == round_finished(snapshot_view(*snapshot), *creds),
{
    let mut actions: Vec<LoginAction> = Vec::new();
    let mut log: Vec<String> = Vec::new();
    assert(action_views(actions@) =~= Seq::<LoginActionView>::empty());
    assert(views(log@) =~= Seq::<Seq<char>>::empty());
    let nodes = match snapshot {
        Some(snap) => snap,
        None => {
            log.push(iter_note(iteration, "no snapshot available"));
            assert(views(log@) =~= round_log(iteration as nat, snapshot_view(*snapshot), *creds));
            return LoginRound { actions, log, finished: true };
        },
    };
    let user_field = find_field(nodes.as_slice(), USERNAME_PATTERNS.as_slice());
    plan_typing(iteration, user_field, &creds.username, "username", &mut actions, &mut log);
    let pass_field = find_field(nodes.as_slice(), PASSWORD_PATTERNS.as_slice());
    plan_typing(iteration, pass_field, &creds.password, "password", &mut actions, &mut log);
    let totp_field = find_field(nodes.as_slice(), TOTP_PATTERNS.as_slice());
    let mut acted = user_field.is_some() || pass_field.is_some();
    match &creds.totp {
        Some(totp) => {
            plan_typing(iteration, totp_field, totp, "TOTP", &mut actions, &mut log);
            acted = acted || totp_field.is_some();
        },
        None => {
            let empty = String::new();
            plan_typing(iteration, None, &empty, "TOTP", &mut actions, &mut log);
        },
    }
    if !acted {
        log.push(iter_note(iteration, "no fillable fields found — login may be complete"));
        return LoginRound { actions, log, finished: true };
    }
    // Click submit button or press Enter on the last filled field
    match find_submit_button(nodes.as_slice()) {
        Some(submit_btn) => {
            actions.push(LoginAction::Click { ref_id: submit_btn.ref_id.clone() });
            log.push(iter_line(iteration, "clicked submit ", submit_btn.ref_id.as_str()));
        },
        None => {
            let last_field = match pass_field {
                Some(f) => Some(f),
                None => match totp_field {
                    Some(f) => Some(f),
                    None => user_field,
                },
            };
            match last_field {
                Some(field) => {
                    let mut key = String::new();
                    key.append("Enter");
                    actions.push(LoginAction::Press { ref_id: field.ref_id.clone(), key });
                    log.push(iter_line(iteration, "pressed Enter on ", field.ref_id.as_str()));
                },
                None => {},
            }
        },
    }
    LoginRound { actions, log, finished: false }
}


/// A round that fills a field also submits the form (by a click or by Enter) and lets the
/// fill go on; a round that fills nothing ends it.
pub proof fn law_filling_round_submits(nodes: Seq<SnapshotNode>, creds: Credentials)
    ensures
        round_acts(nodes, creds) ==> submit_step(nodes).len() == 1 && !round_finished(Some(nodes), creds),
        !round_acts(nodes, creds) ==> round_finished(Some(nodes), creds),
{
}

/// The field a lookup finds is a text input whose lowercased name holds a pattern, and no
/// node before it in the snapshot is one; when none is found, no node is one.
pub proof fn law_field_is_first_match(nodes: Seq<SnapshotNode>, patterns: Seq<Seq<char>>)
    ensures
        field_for(nodes, patterns) matches Some(n) ==> exists|i: int| 0 <= i < nodes.len() && nodes[i] == n
            && is_field_for(n, patterns)
            && forall|j: int| 0 <= j < i ==> !is_field_for(#[trigger] nodes[j], patterns),
        field_for(nodes, patterns) is None ==> forall|j: int| 0 <= j < nodes.len() ==> !is_field_for(#[trigger] nodes[j], patterns),
{
    let p = |n: SnapshotNode| is_field_for(n, patterns);
    lemma_first_where_is_first(nodes, p);
    assert(field_for(nodes, patterns) == first_where(nodes, p));
}

/// The submit button is the first button whose lowercased name holds a submit pattern; only
/// when there is none is it the first interactive button, and only when there is neither is
/// there no button.
pub proof fn law_submit_is_first_match(nodes: Seq<SnapshotNode>, patterns: Seq<Seq<char>>)
    ensures
        (exists|j: int| 0 <= j < nodes.len() && is_submit_like(#[trigger] nodes[j], patterns))
            ==> (submit_for(nodes, patterns) matches Some(b) && exists|i: int| 0 <= i < nodes.len() && nodes[i] == b
                && is_submit_like(b, patterns)
                && forall|j: int| 0 <= j < i ==> !is_submit_like(#[trigger] nodes[j], patterns)),
        (forall|j: int| 0 <= j < nodes.len() ==> !is_submit_like(#[trigger] nodes[j], patterns)) ==> {
            &&& submit_for(nodes, patterns) matches Some(b) ==> exists|i: int| 0 <= i < nodes.len() && nodes[i] == b
                && is_interactive_button(b)
                && forall|j: int| 0 <= j < i ==> !is_interactive_button(#[trigger] nodes[j])
            &&& submit_for(nodes, patterns) is None ==> forall|j: int| 0 <= j < nodes.len() ==> !is_interactive_button(#[trigger] nodes[j])
        },
{
    let p = |n: SnapshotNode| is_submit_like(n, patterns);
    let q = |n: SnapshotNode| is_interactive_button(n);
    lemma_first_where_is_first(nodes, p);
    lemma_first_where_is_first(nodes, q);
    assert(first_where(nodes, |n: SnapshotNode| is_submit_like(n, patterns)) == first_where(nodes, p));
    assert(first_where(nodes, |n: SnapshotNode| is_interactive_button(n)) == first_where(nodes, q));
    if exists|j: int| 0 <= j < nodes.len() && is_submit_like(#[trigger] nodes[j], patterns) {
        let j = choose|j: int| 0 <= j < nodes.len() && is_submit_like(#[trigger] nodes[j], patterns);
        assert(p(nodes[j]));
    }
}

/// With no submit button, a round presses Enter on the last field it filled: the password
/// field when there is one, else a TOTP field, else the username field; and its log ends
/// with that.
pub proof fn law_enter_on_last_filled_field(iteration: nat, nodes: Seq<SnapshotNode>, creds: Credentials)
    ensures
        submit_for(nodes, pattern_views(SUBMIT_PATTERNS@)) is None ==> {
            let acts = round_actions(Some(nodes), creds);
            let log = round_log(iteration, Some(nodes), creds);
            let pass = field_for(nodes, pattern_views(PASSWORD_PATTERNS@));
            let otp = field_for(nodes, pattern_views(TOTP_PATTERNS@));
            let user = field_for(nodes, pattern_views(USERNAME_PATTERNS@));
            &&& pass matches Some(p) ==> acts.last() == (LoginActionView::Press { ref_id: p.ref_id@, key: "Enter"@ })
                && log.last() == iter_prefix(iteration) + "pressed Enter on "@ + p.ref_id@
            &&& otp matches Some(t) ==> ((pass is None && (user is Some || creds.totp is Some))
                ==> acts.last() == (LoginActionView::Press { ref_id: t.ref_id@, key: "Enter"@ })
                && log.last() == iter_prefix(iteration) + "pressed Enter on "@ + t.ref_id@)
            &&& user matches Some(u) ==> ((pass is None && otp is None)
                ==> acts.last() == (LoginActionView::Press { ref_id: u.ref_id@, key: "Enter"@ })
                && log.last() == iter_prefix(iteration) + "pressed Enter on "@ + u.ref_id@)
        },
{
}

/// A round types each credential into the field found for it (the username into the first
/// username-like field, first of all; the password into the first password-like field; the
/// one-time code, only when the credentials carry one, into the first code-like field), types
/// nothing else, and submits with the submit button when there is one. With none of these
/// fields it does nothing and the fill is finished.
pub proof fn law_round_fills_matching_fields(nodes: Seq<SnapshotNode>, creds: Credentials)
    ensures
        ({
            let acts = round_actions(Some(nodes), creds);
            let pass = field_for(nodes, pattern_views(PASSWORD_PATTERNS@));
            let otp = field_for(nodes, pattern_views(TOTP_PATTERNS@));
            let user = field_for(nodes, pattern_views(USERNAME_PATTERNS@));
            let code_typed = creds.totp is Some && otp is Some;
            &&& user matches Some(u) ==> acts[0] == (LoginActionView::TypeText { ref_id: u.ref_id@, text: creds.username@ })
            &&& pass matches Some(p) ==> acts.contains(LoginActionView::TypeText { ref_id: p.ref_id@, text: creds.password@ })
            &&& otp matches Some(o) ==> (creds.totp matches Some(t)
                ==> acts.contains(LoginActionView::TypeText { ref_id: o.ref_id@, text: t@ }))
            &&& forall|k: int| 0 <= k < acts.len() && (#[trigger] acts[k]) is TypeText ==> {
                ||| (user matches Some(u) && acts[k] == (LoginActionView::TypeText { ref_id: u.ref_id@, text: creds.username@ }))
                ||| (pass matches Some(p) && acts[k] == (LoginActionView::TypeText { ref_id: p.ref_id@, text: creds.password@ }))
                ||| (code_typed && acts[k] == (LoginActionView::TypeText { ref_id: otp.unwrap().ref_id@, text: totp_text(creds) }))
            }
            &&& submit_for(nodes, pattern_views(SUBMIT_PATTERNS@)) matches Some(b) ==> ((user is Some || pass is Some || code_typed)
                ==> acts.last() == (LoginActionView::Click { ref_id: b.ref_id@ }))
            &&& (user is None && pass is None && !code_typed) ==> acts.len() == 0 && round_finished(Some(nodes), creds)
            &&& (user is Some || pass is Some || code_typed) ==> !round_finished(Some(nodes), creds)
        }),
{
    let acts = round_actions(Some(nodes), creds);
    let pass = field_for(nodes, pattern_views(PASSWORD_PATTERNS@));
    let otp = field_for(nodes, pattern_views(TOTP_PATTERNS@));
    let user = field_for(nodes, pattern_views(USERNAME_PATTERNS@));
    let a = type_step(username_target(nodes), creds.username@);
    let b = type_step(password_target(nodes), creds.password@);
    let c = type_step(totp_target(nodes, creds), totp_text(creds));
    let typed = a + b + c;
    let tail = if round_acts(nodes, creds) { submit_step(nodes) } else { Seq::empty() };
    assert(acts =~= typed + tail);
    if pass is Some {
        assert(acts[a.len() as int] == b[0]);
    }
    if otp is Some && creds.totp is Some {
        assert(acts[(a.len() + b.len()) as int] == c[0]);
    }
    assert forall|k: int| 0 <= k < acts.len() && (#[trigger] acts[k]) is TypeText implies {
        ||| (user matches Some(u) && acts[k] == (LoginActionView::TypeText { ref_id: u.ref_id@, text: creds.username@ }))
        ||| (pass matches Some(p) && acts[k] == (LoginActionView::TypeText { ref_id: p.ref_id@, text: creds.password@ }))
        ||| (creds.totp is Some && otp is Some && acts[k] == (LoginActionView::TypeText { ref_id: otp.unwrap().ref_id@, text: totp_text(creds) }))
    } by {
        if k < a.len() {
            assert(acts[k] == a[k]);
        } else if k < a.len() + b.len() {
            assert(acts[k] == b[k - a.len()]);
        } else if k < typed.len() {
            assert(acts[k] == c[k - a.len() - b.len()]);
        } else {
            assert(acts[k] == tail[k - typed.len()]);
        }
    }
}

} // verus!
