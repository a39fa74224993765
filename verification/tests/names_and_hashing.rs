use dashmap::DashMap;
use hyperion_vm::args::resolve_constant;
use hyperion_vm::names::{hash_method_name, normalize_name};
use hyperion_vm::value::PhpValue;

#[test]
fn normalize_name_strips_one_leading_backslash() {
    assert_eq!(normalize_name("\\App\\Models\\User"), "app\\models\\user");
    assert_eq!(normalize_name("\\\\X"), "\\x");
}

#[test]
fn normalize_name_keeps_lowercase_names() {
    assert_eq!(normalize_name("already_lower"), "already_lower");
    assert_eq!(normalize_name(""), "");
}

#[test]
fn normalize_name_only_lowers_ascii() {
    assert_eq!(normalize_name("ÄBC"), "Äbc");
}

#[test]
fn hash_method_name_is_fnv1a() {
    assert_eq!(hash_method_name(""), 0xcbf29ce484222325);
    assert_eq!(hash_method_name("a"), 0xaf63dc4c8601ec8c);
}

#[test]
fn hash_method_name_ignores_ascii_case() {
    assert_eq!(hash_method_name("__Construct"), hash_method_name("__construct"));
    assert_ne!(hash_method_name("foo"), hash_method_name("bar"));
}

#[test]
fn constants_resolve_as_written_then_by_last_segment() {
    let table: DashMap<String, PhpValue> = DashMap::new();
    table.insert("STDOUT".to_string(), PhpValue::Int(1));
    table.insert("App\\LIMIT".to_string(), PhpValue::Int(2));
    table.insert("LIMIT".to_string(), PhpValue::Int(3));
    assert_eq!(resolve_constant(&table, "\\STDOUT"), Some(PhpValue::Int(1)));
    assert_eq!(resolve_constant(&table, "STDOUT"), Some(PhpValue::Int(1)));
    assert_eq!(resolve_constant(&table, "App\\Console\\STDOUT"), Some(PhpValue::Int(1)));
    assert_eq!(resolve_constant(&table, "App\\LIMIT"), Some(PhpValue::Int(2)));
    assert_eq!(resolve_constant(&table, "Other\\LIMIT"), Some(PhpValue::Int(3)));
    assert_eq!(resolve_constant(&table, "stdout"), None);
    assert_eq!(resolve_constant(&table, "App\\MISSING"), None);
}
