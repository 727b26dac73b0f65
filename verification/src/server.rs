//! What the tools of the server answer, apart from the browser work itself.
use vstd::prelude::*;
use crate::error::{LynxError, text_message};
use crate::text::{split_at_char, split_char, to_string, trim, trimmed, views};

verus! {

/// The profile of an instance when the request names none.
pub const DEFAULT_PROFILE: &'static str = "default";

/// How long a navigation waits for the page by default, in milliseconds.
pub const DEFAULT_WAIT_MS: u64 = 2000;

/// The snapshot format when the request names none.
pub const DEFAULT_FORMAT: &'static str = "full";

/// The token budget of a page's text by default.
pub const DEFAULT_TEXT_TOKENS: u64 = 800;

/// How long to wait for a page to settle by default, in milliseconds.
pub const DEFAULT_STABLE_TIMEOUT_MS: u64 = 10000;

/// Whether `out` is the answer to the failure `e`: `Error: ` and the error's message, whose
/// text after its prefix an I/O or JSON error takes from the underlying error.
pub open spec fn error_answer(e: LynxError, out: Seq<char>) -> bool {
    &&& text_message(e) matches Some(m) ==> out == "Error: "@ + m
    &&& e is Io ==> exists|t: Seq<char>| out == "Error: "@ + "IO error: "@ + t
    &&& e is Json ==> exists|t: Seq<char>| out == "Error: "@ + "JSON error: "@ + t
}

/// The answer to a failed request.
pub fn error_reply(e: &LynxError) -> (out: String)
    ensures
        error_answer(*e, out@),
{
    let mut out = to_string("Error: ");
    let m = e.message();
    out.append(m.as_str());
    proof {
        if e is Io {
            let t = choose|t: Seq<char>| m@ == "IO error: "@ + t;
            assert(out@ =~= "Error: "@ + "IO error: "@ + t);
        }
        if e is Json {
            let t = choose|t: Seq<char>| m@ == "JSON error: "@ + t;
            assert(out@ =~= "Error: "@ + "JSON error: "@ + t);
        }
    }
    out
}

/// The answer to a request: its result, or the error's message.
pub fn reply(res: Result<String, LynxError>) -> (out: String)
    ensures
        res matches Ok(s) ==> out@ == s@,
        res matches Err(e) ==> error_answer(e, out@),
{
    match res {
        Ok(s) => s,
        Err(e) => error_reply(&e),
    }
}

/// The text of a flag.
pub open spec fn bool_text(b: bool) -> Seq<char> {
    if b { "true"@ } else { "false"@ }
}

/// The answer to a created instance.
pub fn instance_created_reply(id: &str, profile: &str, headless: bool) -> (out: String)
    ensures
        out@ == "Instance created: "@ + id@ + "\nProfile: "@ + profile@ + "\nHeadless: "@ + bool_text(headless),
{
    let mut out = to_string("Instance created: ");
    out.append(id);
    out.append("\nProfile: ");
    out.append(profile);
    out.append("\nHeadless: ");
    if headless {
        out.append("true");
    } else {
        out.append("false");
    }
    out
}

/// The answer to a destroyed instance.
pub fn instance_destroyed_reply(id: &str) -> (out: String)
    ensures
        out@ == "Instance "@ + id@ + " destroyed"@,
{
    let mut out = to_string("Instance ");
    out.append(id);
    out.append(" destroyed");
    out
}

/// The answer to a listing with no instances.
pub fn no_instances_reply() -> (out: String)
    ensures
        out@ == "No running instances"@,
{
    to_string("No running instances")
}

/// The answer to a capture: the base64 text under its data-URL prefix, or the error.
pub open spec fn capture_reply_text(prefix: Seq<char>, b64: Seq<char>) -> Seq<char> {
    prefix + b64
}

fn capture_reply(prefix: &str, res: Result<String, LynxError>) -> (out: String)
    ensures
        res matches Ok(s) ==> out@ == capture_reply_text(prefix@, s@),
        res matches Err(e) ==> error_answer(e, out@),
{
    match res {
        Ok(b64) => {
            let mut out = to_string(prefix);
            out.append(b64.as_str());
            out
        },
        Err(e) => error_reply(&e),
    }
}

/// The answer to a screenshot: a PNG data URL.
pub fn screenshot_reply(res: Result<String, LynxError>) -> (out: String)
    ensures
        res matches Ok(s) ==> out@ == "data:image/png;base64,"@ + s@,
        res matches Err(e) ==> error_answer(e, out@),
{
    capture_reply("data:image/png;base64,", res)
}

/// The answer to a PDF export: a PDF data URL.
pub fn pdf_reply(res: Result<String, LynxError>) -> (out: String)
    ensures
        res matches Ok(s) ==> out@ == "data:application/pdf;base64,"@ + s@,
        res matches Err(e) ==> error_answer(e, out@),
{
    capture_reply("data:application/pdf;base64,", res)
}

/// The paths of an upload request: its comma-separated list, each path trimmed.
pub fn split_file_paths(list: &str) -> (paths: Vec<String>)
    ensures
        views(paths@) == split_at_char(list@, ',').map_values(|p: Seq<char>| trimmed(p)),
{
    let pieces = split_char(list, ',');
    let mut paths: Vec<String> = Vec::new();
    let mut i: usize = 0;
    while i < pieces.len()
        invariant
            views(pieces@) == split_at_char(list@, ','),
            i <= pieces.len(),
            views(paths@) == views(pieces@).take(i as int).map_values(|p: Seq<char>| trimmed(p)),
        decreases pieces.len() - i,
    {
        let ghost before = views(paths@);
        let p = trim(pieces[i].as_str());
        assert(views(pieces@)[i as int] == pieces@[i as int]@);
        paths.push(p);
        assert(views(paths@) =~= before.push(p@));
        assert(views(paths@) =~= views(pieces@).take(i + 1).map_values(|p: Seq<char>| trimmed(p)));
        i = i + 1;
    }
    assert(views(pieces@).take(pieces.len() as int) =~= views(pieces@));
    paths
}

} // verus!
