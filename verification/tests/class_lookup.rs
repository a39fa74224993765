use dashmap::DashMap;
use hyperion_vm::cache::NameCache;
use hyperion_vm::classes::{declared_method_of, scan_classes, EngineState, FunctionPtr, PhpClass};
use hyperion_vm::instance::inherits_exec;
use hyperion_vm::value::PhpValue;
use hyperion_vm::vm::{AutoloadStep, VM};

fn s(x: &str) -> String {
    x.to_string()
}

fn class(name: &str, extends: Option<&str>, methods: &[(&str, usize)], props: &[&str]) -> PhpClass {
    PhpClass {
        name: s(name),
        extends: extends.map(s),
        implements: Vec::new(),
        methods: methods.iter().map(|(m, f)| (s(m), FunctionPtr(*f))).collect(),
        default_properties: props.iter().map(|p| (s(p), PhpValue::Null)).collect(),
    }
}

/// Base (0) declares `hello` and `$id`; Child (1) extends Base with
/// `world`; Orphan (2) extends a class that does not exist.
fn engine() -> EngineState {
    let class_map = DashMap::new();
    class_map.insert(s("base"), 0usize);
    class_map.insert(s("child"), 1usize);
    class_map.insert(s("orphan"), 2usize);
    EngineState {
        classes: vec![
            class("Base", None, &[("hello", 0), ("__toString", 2)], &["id"]),
            class("Child", Some("\\Base"), &[("world", 1)], &[]),
            class("Orphan", Some("Ghost"), &[], &[]),
        ],
        class_map,
        func_map: DashMap::new(),
        constants: DashMap::new(),
        default_statics: vec![((s("base"), s("count")), PhpValue::Int(0))],
        functions: Vec::new(),
        autoloaders: Vec::new(),
    }
}

#[test]
fn static_prop_cache_reads_what_was_written() {
    let mut vm = VM::new();
    assert_eq!(vm.get_cached_static_prop(1, 2), None);
    vm.set_cached_static_prop(1, 2, PhpValue::Int(5));
    assert_eq!(vm.get_cached_static_prop(1, 2), Some(PhpValue::Int(5)));
    assert_eq!(vm.get_cached_static_prop(2, 2), None);
    vm.set_cached_static_prop(1, 2, PhpValue::Bool(true));
    assert_eq!(vm.get_cached_static_prop(1, 2), Some(PhpValue::Bool(true)));
}

#[test]
fn static_prop_cache_evicts_on_collision() {
    let mut vm = VM::new();
    vm.set_cached_static_prop(1, 0, PhpValue::Int(1));
    // 16385 maps to the same slot as 1.
    vm.set_cached_static_prop(16385, 0, PhpValue::Int(2));
    assert_eq!(vm.get_cached_static_prop(1, 0), None);
    assert_eq!(vm.get_cached_static_prop(16385, 0), Some(PhpValue::Int(2)));
}

#[test]
fn invalidated_static_prop_cache_is_empty() {
    let mut vm = VM::new();
    vm.set_cached_static_prop(7, 9, PhpValue::Int(3));
    vm.invalidate_static_prop_cache();
    assert_eq!(vm.get_cached_static_prop(7, 9), None);
}

#[test]
fn method_cache_probe_after_record() {
    let mut vm = VM::new();
    assert_eq!(vm.probe_method_cache(3, "run"), None);
    vm.record_method(3, "run", FunctionPtr(42));
    assert_eq!(vm.probe_method_cache(3, "run"), Some(FunctionPtr(42)));
    assert_eq!(vm.probe_method_cache(3, "RUN"), Some(FunctionPtr(42)));
    assert_eq!(vm.probe_method_cache(4, "run"), None);
    vm.invalidate_method_cache();
    assert_eq!(vm.probe_method_cache(3, "run"), None);
}

#[test]
fn find_method_walks_the_ancestry() {
    let e = engine();
    let mut vm = VM::new();
    assert_eq!(vm.find_method(&e, 1, "world"), Ok(Some(FunctionPtr(1))));
    assert_eq!(vm.find_method(&e, 1, "HELLO"), Ok(Some(FunctionPtr(0))));
    assert_eq!(vm.find_method(&e, 1, "__tostring"), Ok(Some(FunctionPtr(2))));
    assert_eq!(vm.find_method(&e, 0, "world"), Ok(None));
    assert_eq!(vm.find_method(&e, 9, "hello"), Ok(None));
}

#[test]
fn find_method_reports_a_missing_parent() {
    let e = engine();
    let mut vm = VM::new();
    assert_eq!(vm.find_method(&e, 2, "anything"), Err(s("Ghost")));
    assert!(!vm.class_has_method(&e, 2, "anything"));
    assert!(vm.class_has_method(&e, 1, "hello"));
}

#[test]
fn find_method_answers_from_its_cache() {
    let e = engine();
    let mut vm = VM::new();
    vm.method_l1.insert(1, s("hello"), Some(FunctionPtr(77)));
    assert_eq!(vm.find_method(&e, 1, "Hello"), Ok(Some(FunctionPtr(77))));
    let mut fresh = VM::new();
    fresh.find_method(&e, 1, "hello").unwrap();
    assert_eq!(fresh.method_l1.get(1, &s("hello")), Some(Some(FunctionPtr(0))));
}

#[test]
fn find_method_step_decisions() {
    let e = engine();
    let mut vm = VM::new();
    assert_eq!(vm.find_method_step(&e, 2, "x", 0, None), AutoloadStep::LoadParent(s("Ghost")));
    assert_eq!(vm.find_method_step(&e, 2, "x", 10, None), AutoloadStep::Done(None));
    assert_eq!(vm.find_method_step(&e, 1, "world", 3, None), AutoloadStep::Done(Some(FunctionPtr(1))));
    // A load that left the parent undeclared ends the lookup.
    assert_eq!(vm.find_method_step(&e, 2, "x", 1, Some("Ghost")), AutoloadStep::Done(None));
    // A load that declared it lets the lookup go on.
    let mut e2 = engine();
    e2.classes.push(class("Ghost", None, &[("x", 7)], &[]));
    e2.class_map.insert(s("ghost"), 3usize);
    assert_eq!(vm.find_method_step(&e2, 2, "x", 1, Some("\\Ghost")), AutoloadStep::Done(Some(FunctionPtr(7))));
}

#[test]
fn a_failed_lookup_is_not_cached() {
    let e = engine();
    let mut vm = VM::new();
    assert_eq!(vm.find_method(&e, 2, "x"), Err(s("Ghost")));
    assert_eq!(vm.method_l1.get(2, &s("x")), None);
}

#[test]
fn find_method_fast_fills_the_method_cache() {
    let e = engine();
    let mut vm = VM::new();
    assert_eq!(vm.find_method_fast(&e, 1, "hello", 0, None), AutoloadStep::Done(Some(FunctionPtr(0))));
    assert_eq!(vm.probe_method_cache(1, "hello"), Some(FunctionPtr(0)));
    vm.record_method(1, "hello", FunctionPtr(5));
    assert_eq!(vm.find_method_fast(&e, 1, "hello", 0, None), AutoloadStep::Done(Some(FunctionPtr(5))));
    assert_eq!(vm.find_method_fast(&e, 1, "nothing", 0, None), AutoloadStep::Done(None));
    assert_eq!(vm.find_method_fast(&e, 2, "x", 0, None), AutoloadStep::LoadParent(s("Ghost")));
    assert_eq!(vm.find_method_fast(&e, 2, "x", 1, Some("Ghost")), AutoloadStep::Done(None));
}

#[test]
fn declared_properties_through_the_ancestry() {
    let e = engine();
    let mut vm = VM::new();
    assert!(vm.class_has_declared_property(&e, 1, "id"));
    assert!(!vm.class_has_declared_property(&e, 1, "name"));
    assert!(!vm.class_has_declared_property(&e, 2, "id"));
    assert_eq!(vm.property_l1.get(1, &s("id")), Some(true));
}

#[test]
fn static_property_keys() {
    let e = engine();
    assert_eq!(
        VM::find_static_property_key(&e.classes, "\\Child", "count", &e.default_statics),
        (s("base"), s("count"))
    );
    assert_eq!(VM::find_static_property_key(&e.classes, "Child", "other", &e.default_statics), (s("child"), s("other")));
    assert_eq!(VM::find_static_property_key(&e.classes, "Nowhere", "count", &e.default_statics), (s("nowhere"), s("count")));
}

#[test]
fn missing_parents() {
    let e = engine();
    assert_eq!(VM::find_missing_parent(&e.classes, 2), Some(s("Ghost")));
    assert_eq!(VM::find_missing_parent(&e.classes, 1), None);
    assert_eq!(VM::find_missing_parent(&e.classes, 5), None);
}

#[test]
fn class_and_function_indexes() {
    let e = engine();
    e.func_map.insert(s("strlen"), 4usize);
    assert_eq!(e.find_class_id("\\CHILD"), Some(1));
    assert_eq!(e.find_class_id("Ghost"), None);
    assert_eq!(e.find_func_id("StrLen"), Some(4));
    assert_eq!(e.resolve_class_name("orphan"), Some(2));
}

#[test]
fn name_cache_keeps_the_last_insert() {
    let mut c: NameCache<bool> = NameCache::new();
    assert_eq!(c.get(1, &s("a")), None);
    c.insert(1, s("a"), true);
    c.insert(1, s("a"), false);
    c.insert(2, s("a"), true);
    assert_eq!(c.get(1, &s("a")), Some(false));
    assert_eq!(c.get(2, &s("a")), Some(true));
    c.clear();
    assert_eq!(c.get(2, &s("a")), None);
}

#[test]
fn inheritance_follows_parents_and_interfaces_transitively() {
    let mut e = engine();
    e.classes.push(class("GrandChild", Some("Child"), &[], &[]));
    e.classes[2].implements = vec![s("Countable")];
    e.class_map.insert(s("grandchild"), 3usize);
    assert!(inherits_exec(&e, "grandchild", "child"));
    assert!(inherits_exec(&e, "child", "base"));
    assert!(inherits_exec(&e, "grandchild", "base"));
    assert!(inherits_exec(&e, "grandchild", "grandchild"));
    assert!(!inherits_exec(&e, "base", "child"));
    assert!(inherits_exec(&e, "orphan", "ghost"));
    assert!(inherits_exec(&e, "orphan", "countable"));
    assert!(!inherits_exec(&e, "ghost", "orphan"));
}

#[test]
fn classes_and_declared_methods_by_name() {
    let e = engine();
    assert_eq!(scan_classes(&e.classes, &s("child")), Some(1));
    assert_eq!(scan_classes(&e.classes, &s("Child")), None);
    assert_eq!(scan_classes(&e.classes, &s("ghost")), None);
    assert_eq!(declared_method_of(&e.classes[0], "hello"), Some(FunctionPtr(0)));
    assert_eq!(declared_method_of(&e.classes[0], "HELLO"), Some(FunctionPtr(0)));
    assert_eq!(declared_method_of(&e.classes[0], "__tostring"), Some(FunctionPtr(2)));
    assert_eq!(declared_method_of(&e.classes[0], "world"), None);
    assert_eq!(e.lookup_method(1, "hello"), Ok(Some(FunctionPtr(0))));
    assert_eq!(e.lookup_method(1, "nothing"), Ok(None));
    assert_eq!(e.lookup_method(2, "hello"), Err(s("Ghost")));
}

#[test]
fn a_cached_lookup_gives_what_a_fresh_one_gives() {
    let e = engine();
    let mut vm = VM::new();
    let first = vm.find_method_fast(&e, 1, "hello", 0, None);
    let again = vm.find_method_fast(&e, 1, "HELLO", 0, None);
    let mut fresh = VM::new();
    assert_eq!(first, again);
    assert_eq!(first, AutoloadStep::Done(fresh.find_method(&e, 1, "hello").unwrap()));
    vm.invalidate_method_cache();
    assert_eq!(vm.probe_method_cache(1, "hello"), None);
    assert_eq!(vm.find_method_fast(&e, 1, "hello", 0, None), first);
}

#[test]
fn a_failed_lookup_is_not_remembered() {
    let e = engine();
    let mut vm = VM::new();
    assert_eq!(vm.find_method(&e, 2, "x"), Err(s("Ghost")));
    assert_eq!(vm.method_l1.get(2, &s("x")), None);
}
