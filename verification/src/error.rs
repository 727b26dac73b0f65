//! The errors of the library and the message each one shows.
use vstd::prelude::*;
use crate::text::to_string;

verus! {

/// Errors of the browser-automation operations.
#[derive(Debug)]
pub enum LynxError {
    Browser(String),
    NoInstance(String),
    InstanceNotFound(String),
    Navigation { url: String, reason: String },
    ElementNotFound(String),
    Snapshot(String),
    JsEval(String),
    AuthProvider(String),
    Auth(String),
    Screenshot(String),
    Pdf(String),
    ChromeNotFound(String),
    Io(std::io::Error),
    Json(serde_json::Error),
}

/// `std::io::Error`, carried through `LynxError::Io` unread.
#[verifier::external_type_specification]
#[verifier::external_body]
pub struct ExIoError(std::io::Error);

/// `serde_json::Error`, carried through `LynxError::Json` unread.
#[verifier::external_type_specification]
#[verifier::external_body]
pub struct ExJsonError(serde_json::Error);

/// The `Display` text of an I/O error (`<std::io::Error as Display>::fmt`).
/// It depends on the operating system's message for the error code, so nothing is stated of it.
#[verifier::external_body]
fn io_error_text(e: &std::io::Error) -> String {
    format!("{}", e)
}

/// The `Display` text of a JSON error (`<serde_json::Error as Display>::fmt`).
/// The error's fields are private to serde_json, so nothing is stated of the text.
#[verifier::external_body]
fn json_error_text(e: &serde_json::Error) -> String {
    format!("{}", e)
}

/// The message of an error whose payload is text; `None` for the variants that carry
/// an I/O or JSON error.
pub open spec fn text_message(e: LynxError) -> Option<Seq<char>> {
    match e {
        LynxError::Browser(s) => Some("Browser error: "@ + s@),
        LynxError::NoInstance(s) => Some("No active instance: "@ + s@),
        LynxError::InstanceNotFound(s) => Some("Instance not found: "@ + s@),
        LynxError::Navigation { url, reason } => Some("Navigation failed: "@ + url@ + ": "@ + reason@),
        LynxError::ElementNotFound(s) => Some("Element not found: ref="@ + s@),
        LynxError::Snapshot(s) => Some("Snapshot failed: "@ + s@),
        LynxError::JsEval(s) => Some("JavaScript evaluation error: "@ + s@),
        LynxError::AuthProvider(s) => Some("Auth provider error: "@ + s@),
        LynxError::Auth(s) => Some("Auth failed: "@ + s@),
        LynxError::Screenshot(s) => Some("Screenshot failed: "@ + s@),
        LynxError::Pdf(s) => Some("PDF export failed: "@ + s@),
        LynxError::ChromeNotFound(s) => Some("Chrome not found at "@ + s@),
        LynxError::Io(_) => None,
        LynxError::Json(_) => None,
    }
}

fn prefixed(prefix: &str, s: &str) -> (res: String)
    ensures
        res@ == prefix@ + s@,
{
    let mut r = to_string(prefix);
    r.append(s);
    r
}

impl LynxError {
    /// The human-readable message of the error.
    pub fn message(&self) -> (res: String)
        ensures
            text_message(*self) matches Some(m) ==> res@ == m,
            self is Io ==> exists|t: Seq<char>| res@ == "IO error: "@ + t,
            self is Json ==> exists|t: Seq<char>| res@ == "JSON error: "@ + t,
    {
        match self {
            LynxError::Browser(s) => prefixed("Browser error: ", s.as_str()),
            LynxError::NoInstance(s) => prefixed("No active instance: ", s.as_str()),
            LynxError::InstanceNotFound(s) => prefixed("Instance not found: ", s.as_str()),
            LynxError::Navigation { url, reason } => {
                let mut r = prefixed("Navigation failed: ", url.as_str());
                r.append(": ");
                r.append(reason.as_str());
                r
            },
            LynxError::ElementNotFound(s) => prefixed("Element not found: ref=", s.as_str()),
            LynxError::Snapshot(s) => prefixed("Snapshot failed: ", s.as_str()),
            LynxError::JsEval(s) => prefixed("JavaScript evaluation error: ", s.as_str()),
            LynxError::AuthProvider(s) => prefixed("Auth provider error: ", s.as_str()),
            LynxError::Auth(s) => prefixed("Auth failed: ", s.as_str()),
            LynxError::Screenshot(s) => prefixed("Screenshot failed: ", s.as_str()),
            LynxError::Pdf(s) => prefixed("PDF export failed: ", s.as_str()),
            LynxError::ChromeNotFound(s) => prefixed("Chrome not found at ", s.as_str()),
            LynxError::Io(e) => {
                let t = io_error_text(e);
                prefixed("IO error: ", t.as_str())
            },
            LynxError::Json(e) => {
                let t = json_error_text(e);
                prefixed("JSON error: ", t.as_str())
            },
        }
    }
}

} // verus!
