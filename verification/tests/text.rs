use lynx_mcp::text::{
    decimal_string, escape, join_strings, replace_str, split_char, str_contains, str_eq, trim, Escaping,
};

#[test]
fn substring_search() {
    assert!(str_contains("sign in now", "sign in"));
    assert!(str_contains("abc", ""));
    assert!(!str_contains("ab", "abc"));
    assert!(!str_contains("Login", "login"));
    assert!(str_eq("ab", "ab"));
    assert!(!str_eq("ab", "abc"));
}

#[test]
fn joins_and_numbers() {
    assert_eq!(join_strings(&vec![], ", "), "");
    assert_eq!(join_strings(&vec!["a".to_string()], ", "), "a");
    assert_eq!(join_strings(&vec!["a".to_string(), "b".to_string(), "c".to_string()], ", "), "a, b, c");
    assert_eq!(decimal_string(0), "0");
    assert_eq!(decimal_string(1234567890), "1234567890");
    assert_eq!(decimal_string(u64::MAX), u64::MAX.to_string());
}

#[test]
fn replacing_and_escaping() {
    assert_eq!(replace_str("a--b----c", "--", "+"), "a+b++c");
    assert_eq!(replace_str("aaa", "aa", "b"), "ba");
    assert_eq!(escape("it's a \\ \"test\"\n", Escaping::JsQuote), "it\\'s a \\\\ \"test\"\n");
    assert_eq!(escape("it's\n", Escaping::JsText), "it\\'s\\n");
    assert_eq!(escape("say \"hi\" \\", Escaping::AppleScript), "say \\\"hi\\\" \\\\");
    let s = "x'y\\z\n";
    assert_eq!(escape(s, Escaping::JsText), s.replace('\\', "\\\\").replace('\'', "\\'").replace('\n', "\\n"));
}

#[test]
fn splitting() {
    assert_eq!(split_char("a,b,,c", ','), vec!["a", "b", "", "c"]);
    assert_eq!(split_char("", ','), vec![""]);
    assert_eq!(split_char("a,", ','), vec!["a", ""]);
}

#[test]
fn trim_cuts_white_space_at_both_ends() {
    assert_eq!(trim("  a b \n"), "a b");
    assert_eq!(trim("\u{3000}\u{a0}x\u{2029}"), "x");
    assert_eq!(trim(" \t "), "");
    assert_eq!(trim(""), "");
    assert_eq!(trim("\u{200b}x"), "\u{200b}x");
    for s in ["  a b \n", "\u{85}y\u{1680}", "\u{2000}\u{200a}z\u{202f}\u{205f}"] {
        assert_eq!(trim(s), s.trim());
    }
}
