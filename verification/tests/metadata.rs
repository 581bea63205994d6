use gitp2p::kv::{field, lookup, optional_field, parse_kv, render_kv, KvFields};
use gitp2p::models::VERSION;
use gitp2p::text::{decimal_string, join_with, parse_unsigned_exec, split_on, text_less, trim};
use gitp2p::util::{contains_csv, empty_dash, escape, split_csv, stable_id, unescape};

fn pairs(items: &[(&str, &str)]) -> KvFields {
    items.iter().map(|(k, v)| (k.to_string(), v.to_string())).collect()
}

#[test]
fn main_cli_version_matches_crate() {
    assert!(!VERSION.is_empty());
}

#[test]
fn stable_ids_are_repeatable() {
    assert_eq!(stable_id("aeva"), stable_id("aeva"));
    assert_ne!(stable_id("aeva"), stable_id("other"));
}

#[test]
fn metadata_escape_roundtrips() {
    let original = "a=b\\c\nnext";
    assert_eq!(unescape(&escape(original)), original);
}

#[test]
fn stable_id_is_fnv1a_in_hex() {
    assert_eq!(stable_id("aeva"), "d108c583d5b5ff12");
    assert_eq!(stable_id("other"), "0a24ad61c2562a55");
    assert_eq!(stable_id(""), "cbf29ce484222325");
}

#[test]
fn escape_marks_backslash_newline_and_equals() {
    assert_eq!(escape("a=b\\c\nnext"), "a\\eb\\\\c\\nnext");
    assert_eq!(escape("plain"), "plain");
}

#[test]
fn unescape_keeps_unknown_and_trailing_escapes() {
    assert_eq!(unescape("x\\qy"), "x\\qy");
    assert_eq!(unescape("end\\"), "end\\");
    assert_eq!(unescape("\\e\\n\\\\"), "=\n\\");
}

#[test]
fn empty_dash_stands_for_nothing() {
    assert_eq!(empty_dash(""), "-");
    assert_eq!(empty_dash("x"), "x");
}

#[test]
fn csv_entries_are_trimmed_and_non_empty() {
    assert_eq!(split_csv(" a, b ,,c "), vec!["a", "b", "c"]);
    assert!(split_csv("").is_empty());
    assert!(contains_csv("peer-a, peer-b", "peer-b"));
    assert!(!contains_csv("peer-a, peer-b", "peer"));
}

#[test]
fn records_read_back_what_was_written() {
    let fields = pairs(&[("id", "x=1"), ("note", "two\nlines"), ("path", "a\\b")]);
    let text = render_kv(&fields);
    assert_eq!(text, "id=x\\e1\nnote=two\\nlines\npath=a\\\\b\n");
    let back = parse_kv(&text);
    assert_eq!(back, fields);
    assert_eq!(lookup(&back, "note"), Some("two\nlines".to_string()));
}

#[test]
fn missing_field_is_reported_by_name() {
    let fields = pairs(&[("id", "1"), ("id", "2")]);
    assert_eq!(field(&fields, "id").unwrap(), "2");
    assert_eq!(field(&fields, "name").unwrap_err().message(), "missing field 'name'");
    assert_eq!(optional_field(&fields, "name"), "");
}

#[test]
fn text_helpers_follow_std() {
    assert_eq!(trim("  a b \n"), "a b");
    assert_eq!(split_on("a,,b", ','), vec!["a", "", "b"]);
    let parts = vec!["x".to_string(), "y".to_string()];
    assert_eq!(join_with(&parts, ","), "x,y");
    assert_eq!(parse_unsigned_exec("+42", u64::MAX), Some(42));
    assert_eq!(parse_unsigned_exec("4a", u64::MAX), None);
    assert_eq!(parse_unsigned_exec("70000", 65535), None);
    assert_eq!(decimal_string(1234), "1234");
    assert!(text_less("abc", "abd"));
    assert!(text_less("ab", "abc"));
    assert!(!text_less("b", "abc"));
}
