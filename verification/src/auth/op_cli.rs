//! What the 1Password CLI (`op`) is asked, and how its answers become credentials.
use vstd::prelude::*;
use crate::auth::Credentials;
use crate::error::LynxError;
use crate::text::{spec_to_lowercase, str_eq, to_lowercase, to_string, trim, trimmed, views};

verus! {

/// The vault arguments, when a vault is named.
pub open spec fn vault_args(vault: Option<Seq<char>>) -> Seq<Seq<char>> {
    match vault {
        Some(v) => seq!["--vault"@, v],
        None => Seq::empty(),
    }
}

/// The view of an optional text argument.
pub open spec fn opt_str(o: Option<&str>) -> Option<Seq<char>> {
    match o {
        Some(s) => Some(s@),
        None => None,
    }
}

fn push_vault(args: &mut Vec<String>, vault: Option<&str>)
    ensures
        views(final(args)@) == views(old(args)@) + vault_args(opt_str(vault)),
{
    match vault {
        Some(v) => {
            args.push(to_string("--vault"));
            args.push(to_string(v));
        },
        None => {},
    }
    assert(views(args@) =~= views(old(args)@) + vault_args(opt_str(vault)));
}

/// The arguments of `op` that fetch the username and password of `item` as JSON.
pub fn credential_args(item: &str, vault: Option<&str>) -> (args: Vec<String>)
    ensures
        views(args@) == seq!["item"@, "get"@, item@, "--fields"@, "label=username,label=password"@, "--format"@, "json"@]
            + vault_args(opt_str(vault)),
{
    let mut args: Vec<String> = Vec::new();
    args.push(to_string("item"));
    args.push(to_string("get"));
    args.push(to_string(item));
    args.push(to_string("--fields"));
    args.push(to_string("label=username,label=password"));
    args.push(to_string("--format"));
    args.push(to_string("json"));
    assert(views(args@) =~= seq!["item"@, "get"@, item@, "--fields"@, "label=username,label=password"@, "--format"@, "json"@]);
    push_vault(&mut args, vault);
    args
}

/// The arguments of `op` that fetch the current one-time code of `item`.
pub fn totp_args(item: &str, vault: Option<&str>) -> (args: Vec<String>)
    ensures
        views(args@) == seq!["item"@, "get"@, item@, "--otp"@] + vault_args(opt_str(vault)),
{
    let mut args: Vec<String> = Vec::new();
    args.push(to_string("item"));
    args.push(to_string("get"));
    args.push(to_string(item));
    args.push(to_string("--otp"));
    assert(views(args@) =~= seq!["item"@, "get"@, item@, "--otp"@]);
    push_vault(&mut args, vault);
    args
}

/// One field of an item as `op` reports it: its label and value, where they are text.
#[derive(Debug, Clone)]
pub struct OpField {
    pub label: Option<String>,
    pub value: Option<String>,
}

/// The characters of a field: its label and its value, where they are text.
pub type OpFieldView = (Option<Seq<char>>, Option<Seq<char>>);

/// The characters of an optional text.
pub open spec fn opt_text(o: Option<String>) -> Option<Seq<char>> {
    match o {
        Some(s) => Some(s@),
        None => None,
    }
}

/// The characters of a field.
pub open spec fn op_field_view(f: OpField) -> OpFieldView {
    (opt_text(f.label), opt_text(f.value))
}

/// The characters of a list of fields.
pub open spec fn fields_view(fields: Seq<OpField>) -> Seq<OpFieldView> {
    fields.map_values(|f: OpField| op_field_view(f))
}

/// A missing text counts as empty.
pub open spec fn text_or_empty(o: Option<Seq<char>>) -> Seq<char> {
    match o {
        Some(s) => s,
        None => Seq::empty(),
    }
}

/// The value of the last field whose lowercased label is `label`, or empty.
pub open spec fn field_value(fields: Seq<OpFieldView>, label: Seq<char>) -> Seq<char>
    decreases fields.len(),
{
    if fields.len() == 0 {
        Seq::empty()
    } else if spec_to_lowercase(text_or_empty(fields.last().0)) == label {
        text_or_empty(fields.last().1)
    } else {
        field_value(fields.drop_last(), label)
    }
}

/// The credentials in the fields of an item, with the one-time code if one was fetched.
pub fn credentials_from_fields(fields: &[OpField], totp: Option<String>) -> (creds: Credentials)
    ensures
        creds.username@ == field_value(fields_view(fields@), "username"@),
        creds.password@ == field_value(fields_view(fields@), "password"@),
        creds.totp == totp,
{
    let mut username = String::new();
    let mut password = String::new();
    let mut i: usize = 0;
    while i < fields.len()
        invariant
            i <= fields@.len(),
            username@ == field_value(fields_view(fields@.take(i as int)), "username"@),
            password@ == field_value(fields_view(fields@.take(i as int)), "password"@),
        decreases fields.len() - i,
    {
        let field = &fields[i];
        let ghost t = fields@.take(i + 1);
        assert(t.drop_last() =~= fields@.take(i as int));
        assert(t.last() == fields@[i as int]);
        assert(fields_view(t).drop_last() =~= fields_view(fields@.take(i as int)));
        let label_text = match &field.label {
            Some(l) => l.clone(),
            None => String::new(),
        };
        let label = to_lowercase(label_text.as_str());
        let value = match &field.value {
            Some(v) => v.clone(),
            None => String::new(),
        };
        if str_eq(label.as_str(), "username") {
            username = value;
            proof {
                if spec_to_lowercase(text_or_empty(opt_text(fields@[i as int].label))) == "password"@ {
                    assert("username"@ != "password"@) by {
                        reveal_strlit("username");
                        reveal_strlit("password");
                        assert("username"@[0] != "password"@[0]);
                    }
                }
            }
        } else if str_eq(label.as_str(), "password") {
            password = value;
        }
        i = i + 1;
    }
    assert(fields@.take(fields@.len() as int) =~= fields@);
    Credentials { username, password, totp }
}

/// The error for an `op` run that failed, with what it wrote to its error stream.
pub fn op_failure(stderr: &str) -> (e: LynxError)
    ensures
        e matches LynxError::AuthProvider(m) && m@ == "op error: "@ + stderr@,
{
    let mut m = to_string("op error: ");
    m.append(stderr);
    LynxError::AuthProvider(m)
}

/// The one-time code from the answer of `op`: its output without surrounding whitespace,
/// or an error when the run failed (the item has no TOTP).
pub fn totp_from_output(success: bool, stdout: &str) -> (res: Result<String, LynxError>)
    ensures
        success ==> (res matches Ok(code) && code@ == trimmed(stdout@)),
        !success ==> (res matches Err(LynxError::AuthProvider(m)) && m@ == "No TOTP configured"@),
{
    if !success {
        return Err(LynxError::AuthProvider(to_string("No TOTP configured")));
    }
    Ok(trim(stdout))
}

/// What `serde_json::from_slice` makes of `op`'s output read as a JSON array: for each
/// element, its `label` and `value` members where they are strings; or the text of the
/// parse error.
pub uninterp spec fn spec_op_parse(stdout: Seq<u8>) -> Result<Seq<OpFieldView>, Seq<char>>;

/// Parses `op`'s output (`serde_json::from_slice` into a list of JSON values), keeping of
/// each value its `label` and `value` members where they are strings.
#[verifier::external_body]
pub(crate) fn parse_op_fields(stdout: &[u8]) -> (res: Result<Vec<OpField>, String>)
    ensures
        match res {
            Ok(v) => spec_op_parse(stdout@) == Ok::<Seq<OpFieldView>, Seq<char>>(fields_view(v@)),
            Err(m) => spec_op_parse(stdout@) == Err::<Seq<OpFieldView>, Seq<char>>(m@),
        },
{
    match serde_json::from_slice::<Vec<serde_json::Value>>(stdout) {
        Ok(values) => Ok(values.iter().map(|f| OpField {
            label: f.get("label").and_then(|v| v.as_str()).map(|s| s.to_string()),
            value: f.get("value").and_then(|v| v.as_str()).map(|s| s.to_string()),
        }).collect()),
        Err(e) => Err(e.to_string()),
    }
}

/// The fields of an item from the answer of an `op` run: the run's error when it failed,
/// the parse error when its output is not a JSON list, else the fields.
pub fn op_fields_from_output(success: bool, stdout: &[u8], stderr: &str) -> (res: Result<Vec<OpField>, LynxError>)
    ensures
        !success ==> (res matches Err(LynxError::AuthProvider(m)) && m@ == "op error: "@ + stderr@),
        success ==> match spec_op_parse(stdout@) {
            Ok(fields) => res matches Ok(v) && fields_view(v@) == fields,
            Err(e) => res matches Err(LynxError::AuthProvider(m)) && m@ == "op JSON parse error: "@ + e,
        },
{
    if !success {
        return Err(op_failure(stderr));
    }
    match parse_op_fields(stdout) {
        Ok(v) => Ok(v),
        Err(e) => {
            let mut m = to_string("op JSON parse error: ");
            m.append(e.as_str());
            Err(LynxError::AuthProvider(m))
        },
    }
}

/// The credentials from the answer of an `op` run, with the one-time code if one was
/// fetched.
pub fn credentials_from_output(success: bool, stdout: &[u8], stderr: &str, totp: Option<String>) -> (res: Result<Credentials, LynxError>)
    ensures
        !success ==> (res matches Err(LynxError::AuthProvider(m)) && m@ == "op error: "@ + stderr@),
        success ==> match spec_op_parse(stdout@) {
            Ok(fields) => res matches Ok(c) && c.username@ == field_value(fields, "username"@)
                && c.password@ == field_value(fields, "password"@) && c.totp == totp,
            Err(e) => res matches Err(LynxError::AuthProvider(m)) && m@ == "op JSON parse error: "@ + e,
        },
{
    match op_fields_from_output(success, stdout, stderr) {
        Ok(fields) => Ok(credentials_from_fields(fields.as_slice(), totp)),
        Err(e) => Err(e),
    }
}

} // verus!
