//! The scripts that the browser operations run in the page, with their arguments in place.
use vstd::prelude::*;
use crate::browser::instance::{key_codes, key_event_values};
use crate::text::{escape, escaping_fn, map_chars, Escaping};

verus! {

/// The AppleScript that shows a system notification with `message`.
pub open spec fn spec_notification_script(escaped: Seq<char>) -> Seq<char> {
    r#"display notification ""#@ + escaped + r#"" with title "Lynx MCP" subtitle "User Intervention Required" sound name "Ping""#@
}

/// Builds the AppleScript that shows a system notification with `message`.
pub fn notification_script(escaped: &str) -> (js: String)
    ensures
        js@ == spec_notification_script(escaped@),
{
    let mut js = String::new();
    js.append(r#"display notification ""#);
    js.append(escaped);
    js.append(r#"" with title "Lynx MCP" subtitle "User Intervention Required" sound name "Ping""#);
    js
}

/// The script that puts the intervention banner with `message` at the bottom of the page and arms its Done button.
pub open spec fn spec_banner_script(escaped_msg: Seq<char>) -> Seq<char> {
    r#"(function() {
                var old = document.getElementById('__lynx_intervention');
                if (old) old.remove();
                var banner = document.createElement('div');
                banner.id = '__lynx_intervention';
                banner.style.cssText = 'position:fixed;bottom:0;left:0;right:0;z-index:999999;background:#e94560;color:white;padding:12px 20px;font-family:-apple-system,BlinkMacSystemFont,sans-serif;font-size:15px;display:flex;align-items:center;justify-content:space-between;box-shadow:0 -4px 12px rgba(0,0,0,0.3);';
                banner.innerHTML = '<span>\u{1f511} <strong>User intervention required</strong> \u{2014} "#@ + escaped_msg + r#"</span><button id="__lynx_dismiss" style="background:white;color:#e94560;border:none;padding:8px 20px;border-radius:6px;font-size:14px;cursor:pointer;font-weight:600;margin-left:16px;white-space:nowrap;">Done \u{2713}</button>';
                document.body.appendChild(banner);
                document.getElementById('__lynx_dismiss').addEventListener('click', function() {
                    banner.remove();
                    window.__lynx_intervention_dismissed = true;
                });
                window.__lynx_intervention_dismissed = false;
            })()"#@
}

/// Builds the script that puts the intervention banner with `message` at the bottom of the page and arms its Done button.
pub fn banner_script(escaped_msg: &str) -> (js: String)
    ensures
        js@ == spec_banner_script(escaped_msg@),
{
    let mut js = String::new();
    js.append(r#"(function() {
                var old = document.getElementById('__lynx_intervention');
                if (old) old.remove();
                var banner = document.createElement('div');
                banner.id = '__lynx_intervention';
                banner.style.cssText = 'position:fixed;bottom:0;left:0;right:0;z-index:999999;background:#e94560;color:white;padding:12px 20px;font-family:-apple-system,BlinkMacSystemFont,sans-serif;font-size:15px;display:flex;align-items:center;justify-content:space-between;box-shadow:0 -4px 12px rgba(0,0,0,0.3);';
                banner.innerHTML = '<span>\u{1f511} <strong>User intervention required</strong> \u{2014} "#);
    js.append(escaped_msg);
    js.append(r#"</span><button id="__lynx_dismiss" style="background:white;color:#e94560;border:none;padding:8px 20px;border-radius:6px;font-size:14px;cursor:pointer;font-weight:600;margin-left:16px;white-space:nowrap;">Done \u{2713}</button>';
                document.body.appendChild(banner);
                document.getElementById('__lynx_dismiss').addEventListener('click', function() {
                    banner.remove();
                    window.__lynx_intervention_dismissed = true;
                });
                window.__lynx_intervention_dismissed = false;
            })()"#);
    js
}

/// The script that finds the element stamped `ref_id` (or its nearest clickable ancestor), scrolls it into view and reports the centre of its box, its tag and the start of its text.
pub open spec fn spec_locate_script(ref_id: Seq<char>) -> Seq<char> {
    r#"(function() {
                var el = document.querySelector('[data-lynx-ref=""#@ + ref_id + r#""]');
                if (!el) return 'not_found';
                // Walk up to nearest interactive ancestor if this is an inner element
                var target = el;
                var btn = el.closest('button, a, [role="button"], [role="link"], [role="menuitem"]');
                if (btn && btn !== el && btn.contains(el)) {
                    target = btn;
                }
                target.scrollIntoView({block: 'center'});
                var rect = target.getBoundingClientRect();
                return JSON.stringify({
                    x: rect.left + rect.width / 2,
                    y: rect.top + rect.height / 2,
                    tag: target.tagName,
                    text: (target.textContent || '').substring(0, 40).trim()
                });
            })()"#@
}

/// Builds the script that finds the element stamped `ref_id` (or its nearest clickable ancestor), scrolls it into view and reports the centre of its box, its tag and the start of its text.
pub fn locate_script(ref_id: &str) -> (js: String)
    ensures
        js@ == spec_locate_script(ref_id@),
{
    let mut js = String::new();
    js.append(r#"(function() {
                var el = document.querySelector('[data-lynx-ref=""#);
    js.append(ref_id);
    js.append(r#""]');
                if (!el) return 'not_found';
                // Walk up to nearest interactive ancestor if this is an inner element
                var target = el;
                var btn = el.closest('button, a, [role="button"], [role="link"], [role="menuitem"]');
                if (btn && btn !== el && btn.contains(el)) {
                    target = btn;
                }
                target.scrollIntoView({block: 'center'});
                var rect = target.getBoundingClientRect();
                return JSON.stringify({
                    x: rect.left + rect.width / 2,
                    y: rect.top + rect.height / 2,
                    tag: target.tagName,
                    text: (target.textContent || '').substring(0, 40).trim()
                });
            })()"#);
    js
}

/// The script that focuses the element stamped `ref_id`, clears it when `clear` says so, and types `text` by the first strategy the page accepts.
pub open spec fn spec_type_script(ref_id: Seq<char>, clear_flag: Seq<char>, escaped_text: Seq<char>) -> Seq<char> {
    r#"(async function() {
                var el = document.querySelector('[data-lynx-ref=""#@ + ref_id + r#""]');
                if (!el) return 'not_found';
                var tag = el.tagName;

                el.scrollIntoView({block: 'center'});
                el.focus();
                el.click();

                if ("#@ + clear_flag + r#") {
                    if (tag === 'INPUT' || tag === 'TEXTAREA') {
                        el.select();
                    } else {
                        var sel = window.getSelection();
                        var range = document.createRange();
                        range.selectNodeContents(el);
                        sel.removeAllRanges();
                        sel.addRange(range);
                    }
                    document.execCommand('delete', false);
                }

                // Yield to let React/framework process focus event
                await new Promise(function(r) { setTimeout(r, 50); });

                // Strategy 1: execCommand insertText (React-compatible)
                var ok = document.execCommand('insertText', false, '"#@ + escaped_text + r#"');
                var v = el.value || el.textContent || '';
                if (ok && v.indexOf('"#@ + escaped_text + r#"') >= 0) {
                    return 'typed:execCommand';
                }

                // Strategy 2: nativeInputValueSetter (React onChange trigger)
                if (tag === 'INPUT' || tag === 'TEXTAREA') {
                    var proto = tag === 'INPUT'
                        ? window.HTMLInputElement.prototype
                        : window.HTMLTextAreaElement.prototype;
                    var nativeSet = Object.getOwnPropertyDescriptor(proto, 'value');
                    if (nativeSet && nativeSet.set) {
                        nativeSet.set.call(el, '"#@ + escaped_text + r#"');
                        el.dispatchEvent(new Event('input', {bubbles: true}));
                        el.dispatchEvent(new Event('change', {bubbles: true}));
                        return 'typed:nativeSet';
                    }
                    el.value = '"#@ + escaped_text + r#"';
                    el.dispatchEvent(new Event('input', {bubbles: true}));
                    return 'typed:valueSet';
                }

                // Strategy 3: textContent for contenteditable
                if (el.isContentEditable) {
                    el.textContent = '"#@ + escaped_text + r#"';
                    el.dispatchEvent(new Event('input', {bubbles: true}));
                    return 'typed:textContent';
                }

                return 'typed:execCommand';
            })()"#@
}

/// Builds the script that focuses the element stamped `ref_id`, clears it when `clear` says so, and types `text` by the first strategy the page accepts.
pub fn type_script(ref_id: &str, clear_flag: &str, escaped_text: &str) -> (js: String)
    ensures
        js@ == spec_type_script(ref_id@, clear_flag@, escaped_text@),
{
    let mut js = String::new();
    js.append(r#"(async function() {
                var el = document.querySelector('[data-lynx-ref=""#);
    js.append(ref_id);
    js.append(r#""]');
                if (!el) return 'not_found';
                var tag = el.tagName;

                el.scrollIntoView({block: 'center'});
                el.focus();
                el.click();

                if ("#);
    js.append(clear_flag);
    js.append(r#") {
                    if (tag === 'INPUT' || tag === 'TEXTAREA') {
                        el.select();
                    } else {
                        var sel = window.getSelection();
                        var range = document.createRange();
                        range.selectNodeContents(el);
                        sel.removeAllRanges();
                        sel.addRange(range);
                    }
                    document.execCommand('delete', false);
                }

                // Yield to let React/framework process focus event
                await new Promise(function(r) { setTimeout(r, 50); });

                // Strategy 1: execCommand insertText (React-compatible)
                var ok = document.execCommand('insertText', false, '"#);
    js.append(escaped_text);
    js.append(r#"');
                var v = el.value || el.textContent || '';
                if (ok && v.indexOf('"#);
    js.append(escaped_text);
    js.append(r#"') >= 0) {
                    return 'typed:execCommand';
                }

                // Strategy 2: nativeInputValueSetter (React onChange trigger)
                if (tag === 'INPUT' || tag === 'TEXTAREA') {
                    var proto = tag === 'INPUT'
                        ? window.HTMLInputElement.prototype
                        : window.HTMLTextAreaElement.prototype;
                    var nativeSet = Object.getOwnPropertyDescriptor(proto, 'value');
                    if (nativeSet && nativeSet.set) {
                        nativeSet.set.call(el, '"#);
    js.append(escaped_text);
    js.append(r#"');
                        el.dispatchEvent(new Event('input', {bubbles: true}));
                        el.dispatchEvent(new Event('change', {bubbles: true}));
                        return 'typed:nativeSet';
                    }
                    el.value = '"#);
    js.append(escaped_text);
    js.append(r#"';
                    el.dispatchEvent(new Event('input', {bubbles: true}));
                    return 'typed:valueSet';
                }

                // Strategy 3: textContent for contenteditable
                if (el.isContentEditable) {
                    el.textContent = '"#);
    js.append(escaped_text);
    js.append(r#"';
                    el.dispatchEvent(new Event('input', {bubbles: true}));
                    return 'typed:textContent';
                }

                return 'typed:execCommand';
            })()"#);
    js
}

/// The script that dispatches the keyboard events of a key (event values `key_value`, `code_value`) on the element stamped `ref_id`, and submits its form on Enter.
pub open spec fn spec_press_script(ref_id: Seq<char>, key_value: Seq<char>, code_value: Seq<char>) -> Seq<char> {
    r#"(function() {
                var el = document.querySelector('[data-lynx-ref=""#@ + ref_id + r#""]');
                if (!el) return 'not_found';
                el.focus();
                var opts = {key: '"#@ + key_value + r#"', code: '"#@ + code_value + r#"', bubbles: true, cancelable: true};
                el.dispatchEvent(new KeyboardEvent('keydown', opts));
                el.dispatchEvent(new KeyboardEvent('keypress', opts));
                el.dispatchEvent(new KeyboardEvent('keyup', opts));

                // For Enter, also submit the closest form
                if ('"#@ + key_value + r#"' === 'Enter') {
                    var form = el.closest('form');
                    if (form) form.requestSubmit ? form.requestSubmit() : form.submit();
                }

                return 'pressed';
            })()"#@
}

/// Builds the script that dispatches the keyboard events of a key (event values `key_value`, `code_value`) on the element stamped `ref_id`, and submits its form on Enter.
pub fn press_script(ref_id: &str, key_value: &str, code_value: &str) -> (js: String)
    ensures
        js@ == spec_press_script(ref_id@, key_value@, code_value@),
{
    let mut js = String::new();
    js.append(r#"(function() {
                var el = document.querySelector('[data-lynx-ref=""#);
    js.append(ref_id);
    js.append(r#""]');
                if (!el) return 'not_found';
                el.focus();
                var opts = {key: '"#);
    js.append(key_value);
    js.append(r#"', code: '"#);
    js.append(code_value);
    js.append(r#"', bubbles: true, cancelable: true};
                el.dispatchEvent(new KeyboardEvent('keydown', opts));
                el.dispatchEvent(new KeyboardEvent('keypress', opts));
                el.dispatchEvent(new KeyboardEvent('keyup', opts));

                // For Enter, also submit the closest form
                if ('"#);
    js.append(key_value);
    js.append(r#"' === 'Enter') {
                    var form = el.closest('form');
                    if (form) form.requestSubmit ? form.requestSubmit() : form.submit();
                }

                return 'pressed';
            })()"#);
    js
}

/// The script that finds the file input at `selector` (or one inside the element there).
pub open spec fn spec_upload_locate_script(selector: Seq<char>) -> Seq<char> {
    r#"(function() {
                var el = document.querySelector('"#@ + selector + r#"');
                if (!el) return null;
                if (el.tagName !== 'INPUT' || el.type !== 'file') {
                    var nested = el.querySelector('input[type=file]');
                    if (nested) return nested;
                    return null;
                }
                return el;
            })()"#@
}

/// Builds the script that finds the file input at `selector` (or one inside the element there).
pub fn upload_locate_script(selector: &str) -> (js: String)
    ensures
        js@ == spec_upload_locate_script(selector@),
{
    let mut js = String::new();
    js.append(r#"(function() {
                var el = document.querySelector('"#);
    js.append(selector);
    js.append(r#"');
                if (!el) return null;
                if (el.tagName !== 'INPUT' || el.type !== 'file') {
                    var nested = el.querySelector('input[type=file]');
                    if (nested) return nested;
                    return null;
                }
                return el;
            })()"#);
    js
}

/// The notification script for `message`, escaped for an AppleScript string.
pub fn notification_for(message: &str) -> (js: String)
    ensures
        js@ == spec_notification_script(map_chars(message@, escaping_fn(Escaping::AppleScript))),
{
    let escaped = escape(message, Escaping::AppleScript);
    notification_script(escaped.as_str())
}

/// The banner script for `message`, escaped for a single-quoted JavaScript string.
pub fn banner_for(message: &str) -> (js: String)
    ensures
        js@ == spec_banner_script(map_chars(message@, escaping_fn(Escaping::JsQuote))),
{
    let escaped = escape(message, Escaping::JsQuote);
    banner_script(escaped.as_str())
}

/// The flag that the typing script reads to decide whether to clear the element first.
pub open spec fn clear_flag(clear_first: bool) -> Seq<char> {
    if clear_first { "true"@ } else { "false"@ }
}

/// The typing script for `text` (escaped for a single-quoted JavaScript string, newlines
/// included) into the element stamped `ref_id`.
pub fn typing_script(ref_id: &str, text: &str, clear_first: bool) -> (js: String)
    ensures
        js@ == spec_type_script(ref_id@, clear_flag(clear_first), map_chars(text@, escaping_fn(Escaping::JsText))),
{
    let escaped_text = escape(text, Escaping::JsText);
    let clear = if clear_first { "true" } else { "false" };
    type_script(ref_id, clear, escaped_text.as_str())
}

/// The key-press script for the key named `key` on the element stamped `ref_id`.
pub fn key_press_script(ref_id: &str, key: &str) -> (js: String)
    ensures
        js@ == spec_press_script(ref_id@, key_event_values(key@).0, key_event_values(key@).1),
{
    let (key_value, code_value) = key_codes(key);
    press_script(ref_id, key_value.as_str(), code_value.as_str())
}

/// The selector of the file input to upload into: the element stamped `ref_id`, or the
/// first file input of the page.
pub open spec fn upload_selector(ref_id: Option<Seq<char>>) -> Seq<char> {
    match ref_id {
        Some(rid) => "[data-lynx-ref=\""@ + rid + "\"]"@,
        None => "input[type=file]"@,
    }
}

} // verus!
