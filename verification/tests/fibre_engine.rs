use dashmap::DashMap;
use hyperion_vm::classes::{EngineState, FunctionPtr, PhpClass, Visibility};
use hyperion_vm::fibre::{CallFrame, ExecutionResult, Fibre, UnwindAction, YieldReason};
use hyperion_vm::function::{Chunk, CompiledParam, DefaultValue, ExceptionHandler, FinallyHandler, PhpClosure, PhpFunction};
use hyperion_vm::instance::InstanceStep;
use hyperion_vm::objects::ClassIdStep;
use hyperion_vm::iteration::{IterableStep, IteratorStep};
use hyperion_vm::step::{ArithOp, CompareOp, Opcode, RunStop, StepAction, SyncCall};
use hyperion_vm::throw::ThrowStep;
use hyperion_vm::sync::{CallMark, DriveAction};
use hyperion_vm::value::{Arena, ArrayKey, PhpArray, PhpObject, PhpValue};
use hyperion_vm::vm::VM;

fn s(x: &str) -> String {
    x.to_string()
}

fn param(name: &str, default: Option<DefaultValue>) -> CompiledParam {
    CompiledParam { name: s(name), has_default: default.is_some(), default_value: default, by_ref: false, is_variadic: false }
}

fn variadic(name: &str) -> CompiledParam {
    CompiledParam { name: s(name), has_default: false, default_value: None, by_ref: false, is_variadic: true }
}

fn function(name: &str, params: Vec<CompiledParam>, num_locals: usize, visibility: Visibility) -> PhpFunction {
    PhpFunction {
        name: s(name),
        arity: params.len(),
        num_locals,
        params,
        visibility,
        chunk: Chunk { code: Vec::new(), constants: Vec::new(), exception_handlers: Vec::new(), finally_handlers: Vec::new(), local_names: Vec::new() },
    }
}

fn class(name: &str, extends: Option<&str>, implements: &[&str], methods: &[(&str, usize)]) -> PhpClass {
    PhpClass {
        name: s(name),
        extends: extends.map(s),
        implements: implements.iter().map(|i| s(i)).collect(),
        methods: methods.iter().map(|(m, f)| (s(m), FunctionPtr(*f))).collect(),
        default_properties: Vec::new(),
    }
}

/// Classes: Base (0), Child (1) extends Base implements Countable,
/// Countable (2), Other (3). Functions: main (0), greet (1, private, of
/// Base), run (2, of Child), closure#1 (3), f (4), g (5).
fn engine() -> EngineState {
    let class_map = DashMap::new();
    for (n, i) in [("base", 0usize), ("child", 1), ("countable", 2), ("other", 3)] {
        class_map.insert(s(n), i);
    }
    let mut main = function("main", Vec::new(), 2, Visibility::Public);
    main.chunk.code = vec![0x12, 0x34, 0x56];
    main.chunk.local_names = vec![s("obj"), s("cls")];
    main.chunk.exception_handlers =
        vec![ExceptionHandler { start_ip: 0, end_ip: 10, catch_ip: 20, catch_class: s("Base"), stack_depth: 0 }];
    let mut run = function("run", Vec::new(), 1, Visibility::Public);
    run.chunk.local_names = vec![s("cls")];
    EngineState {
        classes: vec![
            class("Base", None, &[], &[("greet", 1)]),
            class("Child", Some("Base"), &["Countable"], &[("run", 2)]),
            class("Countable", None, &[], &[]),
            class("Other", None, &[], &[]),
        ],
        class_map,
        func_map: DashMap::new(),
        constants: DashMap::new(),
        default_statics: Vec::new(),
        functions: vec![
            main,
            function("greet", Vec::new(), 0, Visibility::Private),
            run,
            function("closure#1", vec![param("cls", None)], 1, Visibility::Public),
            function("f", vec![param("a", None), param("b", Some(DefaultValue::Int(7)))], 4, Visibility::Public),
            function("g", vec![param("a", None), variadic("rest")], 2, Visibility::Public),
        ],
        autoloaders: Vec::new(),
    }
}

fn frame(function: usize, ip: usize, window: usize, class_id: usize) -> CallFrame {
    CallFrame { function: FunctionPtr(function), ip, stack_window: window, called_class_id: class_id, arity: 0 }
}

/// A fibre running `main` at ip 2, with three stack slots in use and two
/// objects: a Child (0) and an Other carrying a message (1).
fn fibre() -> Fibre {
    let mut f = Fibre {
        engine_state: engine(),
        arena: Arena { strings: vec![s("oops")], arrays: Vec::new(), objects: Vec::new(), closures: Vec::new(), interned: Vec::new() },
        stack: vec![PhpValue::Null; 16],
        stack_top: 3,
        frames: vec![frame(0, 2, 0, 0); 8],
        frame_count: 1,
        autoload_frame_depths: Vec::new(),
        unwind_action: None,
        dynamic_locals: Vec::new(),
        autoloaders: Vec::new(),
        autoload_state: Vec::new(),
        static_properties: Vec::new(),
        stop_frame_count: None,
    };
    f.arena.objects.push(PhpObject { class_id: 1, class_name: Some(s("Child")), properties: Vec::new(), destructed: false });
    f.arena.objects.push(PhpObject {
        class_id: 3,
        class_name: None,
        properties: vec![(s("message"), PhpValue::Str(0))],
        destructed: false,
    });
    f.arena.closures.push(PhpClosure { function_ptr: FunctionPtr(3), called_class_id: 0, this_val: None, upvalues: Vec::new() });
    f
}

#[test]
fn push_and_pop_are_lifo() {
    let mut f = fibre();
    VM::push(&mut f, PhpValue::Int(1));
    VM::push(&mut f, PhpValue::Int(2));
    assert_eq!(f.stack_top, 5);
    assert_eq!(VM::pop(&mut f), PhpValue::Int(2));
    assert_eq!(VM::pop(&mut f), PhpValue::Int(1));
    assert_eq!(f.stack_top, 3);
}

#[test]
fn pop_of_an_empty_stack_is_null() {
    let mut f = fibre();
    f.stack_top = 0;
    assert_eq!(VM::pop(&mut f), PhpValue::Null);
    assert_eq!(f.stack_top, 0);
}

#[test]
fn push_grows_a_full_stack() {
    let mut f = fibre();
    f.stack = Vec::new();
    f.stack_top = 0;
    VM::push(&mut f, PhpValue::Bool(true));
    assert_eq!(f.stack.len(), 128);
    assert_eq!(f.stack[0], PhpValue::Bool(true));
    assert_eq!(f.stack[1], PhpValue::Null);
}

#[test]
fn reading_operands() {
    let mut f = fibre();
    f.frames[0].ip = 0;
    assert_eq!(VM::read_byte(&mut f), 0x12);
    assert_eq!(VM::read_short(&mut f), 0x3456);
    assert_eq!(f.frames[0].ip, 3);
}

#[test]
fn returning_pops_the_frame() {
    let mut f = fibre();
    f.frames[1] = frame(2, 0, 3, 1);
    f.frame_count = 2;
    f.stack_top = 6;
    assert!(VM::handle_return(&mut f, PhpValue::Int(9)).is_none());
    assert_eq!(f.frame_count, 1);
    assert_eq!(f.stack_top, 4);
    assert_eq!(f.stack[3], PhpValue::Int(9));
    assert!(matches!(VM::handle_return(&mut f, PhpValue::Null), Some(ExecutionResult::Finished)));
}

#[test]
fn returning_from_an_autoloader_pushes_nothing() {
    let mut f = fibre();
    f.frames[1] = frame(3, 0, 3, 0);
    f.frame_count = 2;
    f.stack_top = 5;
    f.autoload_frame_depths = vec![1];
    assert!(VM::handle_return(&mut f, PhpValue::Int(9)).is_none());
    assert_eq!(f.stack_top, 3);
    assert!(f.autoload_frame_depths.is_empty());
}

#[test]
fn called_class_of_frames() {
    let mut f = fibre();
    f.frames[0] = frame(2, 0, 0, 1);
    assert_eq!(VM::get_current_called_class_id(&f), 1);
    f.frames[0] = frame(0, 0, 0, 0);
    f.stack[0] = PhpValue::Object(1);
    assert_eq!(VM::get_current_called_class_id(&f), 3);
    f.stack[0] = PhpValue::Null;
    f.frames[0] = frame(2, 0, 0, 0);
    assert_eq!(VM::get_current_called_class_id(&f), 1);
}

#[test]
fn resolving_relative_class_names() {
    let mut f = fibre();
    f.frames[0] = frame(2, 0, 0, 1);
    assert_eq!(VM::resolve_dynamic_class_name(&f, "self"), "Child");
    assert_eq!(VM::resolve_dynamic_class_name(&f, "SELF"), "Child");
    assert_eq!(VM::resolve_dynamic_class_name(&f, "parent"), "Base");
    assert_eq!(VM::resolve_dynamic_class_name(&f, "static"), "Child");
    assert_eq!(VM::resolve_dynamic_class_name(&f, "\\App\\Foo"), "App\\Foo");
    assert_eq!(VM::resolve_dynamic_class_name(&f, "self\0Other"), "Other");
    assert_eq!(VM::resolve_dynamic_class_name(&f, "parent\0\\Other"), "Other");
}

#[test]
fn resolving_a_class_held_by_a_variable() {
    let mut f = fibre();
    f.frames[0] = frame(2, 0, 0, 1);
    f.arena.strings.push(s("Other"));
    f.stack[0] = PhpValue::Str(1);
    assert_eq!(VM::resolve_dynamic_class_name(&f, "$cls"), "Other");
    f.stack[0] = PhpValue::Object(0);
    assert_eq!(VM::resolve_dynamic_class_name(&f, "$cls"), "Child");
    f.stack[0] = PhpValue::Int(3);
    assert_eq!(VM::resolve_dynamic_class_name(&f, "$cls"), "$cls");
    assert_eq!(VM::resolve_dynamic_class_name(&f, "$nothing"), "$nothing");
}

#[test]
fn instanceof_follows_parents_and_interfaces() {
    let f = fibre();
    let child = PhpValue::Object(0);
    assert!(VM::instance_of_loaded(&f, child, "Child"));
    assert!(VM::instance_of_loaded(&f, child, "\\BASE"));
    assert!(VM::instance_of_loaded(&f, child, "countable"));
    assert!(!VM::instance_of_loaded(&f, child, "Other"));
    assert!(!VM::instance_of_loaded(&f, PhpValue::Object(1), "Base"));
    assert!(VM::instance_of_loaded(&f, PhpValue::Object(1), "Other"));
    assert!(VM::instance_of_loaded(&f, PhpValue::Closure(0), "Closure"));
    assert!(!VM::instance_of_loaded(&f, PhpValue::Closure(0), "Base"));
    assert!(!VM::instance_of_loaded(&f, PhpValue::Int(1), "Base"));
}

#[test]
fn instanceof_self_is_resolved_in_the_frame() {
    let mut f = fibre();
    f.frames[0] = frame(2, 0, 0, 1);
    assert!(VM::instance_of_loaded(&f, PhpValue::Object(0), "self"));
    assert!(VM::instance_of_loaded(&f, PhpValue::Object(0), "parent"));
}

#[test]
fn a_matching_catch_takes_the_exception() {
    let mut f = fibre();
    let r = VM::handle_throw(&mut f, PhpValue::Object(0));
    assert!(r.is_none());
    assert_eq!(f.frame_count, 1);
    assert_eq!(f.frames[0].ip, 20);
    assert_eq!(f.stack_top, 4);
    assert_eq!(f.stack[3], PhpValue::Object(0));
    assert!(f.unwind_action.is_none());
}

#[test]
fn an_uncaught_exception_is_reported_with_its_trace() {
    let mut f = fibre();
    let r = VM::handle_throw(&mut f, PhpValue::Object(1));
    match r {
        Some(ExecutionResult::UncaughtException(m)) => assert_eq!(m, "Other: oops\nStack trace:\n  #0 main (ip=2)"),
        _ => panic!("expected an uncaught exception"),
    }
    assert_eq!(f.frames[0].ip, 2);
    assert_eq!(f.stack_top, 3);
}

#[test]
fn a_finally_region_keeps_the_exception_to_rethrow() {
    let mut f = fibre();
    f.engine_state.functions[0].chunk.exception_handlers.clear();
    f.engine_state.functions[0].chunk.finally_handlers =
        vec![FinallyHandler { start_ip: 0, end_ip: 5, finally_ip: 30, stack_depth: 1 }];
    f.dynamic_locals = vec![(0, Vec::new()), (3, Vec::new())];
    let r = VM::handle_throw(&mut f, PhpValue::Object(1));
    assert!(r.is_none());
    assert_eq!(f.frames[0].ip, 30);
    assert_eq!(f.stack_top, 4);
    assert!(matches!(f.unwind_action, Some(UnwindAction::Throw(PhpValue::Object(1)))));
    assert_eq!(f.dynamic_locals.len(), 1);
    assert_eq!(f.dynamic_locals[0].0, 0);
}

#[test]
fn unwinding_leaves_the_frames_above_the_handler() {
    let mut f = fibre();
    f.frames[1] = frame(2, 0, 3, 1);
    f.frame_count = 2;
    f.stack_top = 6;
    let r = VM::handle_throw(&mut f, PhpValue::Object(0));
    assert!(r.is_none());
    assert_eq!(f.frame_count, 1);
    assert_eq!(f.frames[0].ip, 20);
}

#[test]
fn native_errors_become_exception_objects() {
    let mut f = fibre();
    let r = VM::create_and_throw_native_error(&mut f, "TypeError: bad arg");
    match r {
        Some(ExecutionResult::UncaughtException(m)) => assert_eq!(m, "TypeError: bad arg\nStack trace:\n  #0 main (ip=2)"),
        _ => panic!("expected an uncaught exception"),
    }
    let o = f.arena.objects.last().unwrap();
    assert_eq!(o.class_name, Some(s("TypeError")));
    assert_eq!(o.class_id, 0);
    let names: Vec<&str> = o.properties.iter().map(|p| p.0.as_str()).collect();
    assert_eq!(names, vec!["message", "code", "file", "line", "previous"]);
    assert_eq!(f.arena.strings[1], "bad arg");
    assert_eq!(f.arena.strings[2], "main");
}

#[test]
fn native_errors_with_an_unknown_prefix_are_exceptions() {
    let mut f = fibre();
    f.engine_state.class_map.insert(s("exception"), 0);
    let r = VM::create_and_throw_native_error(&mut f, "Oops: x: y");
    match r {
        Some(ExecutionResult::UncaughtException(m)) => {
            assert_eq!(m, "Exception: Oops: x: y\nStack trace:\n  #0 main (ip=2)")
        },
        _ => panic!("expected an uncaught exception"),
    }
    let o = f.arena.objects.last().unwrap();
    assert_eq!(o.class_name, Some(s("Exception")));
    assert_eq!(o.class_id, 0);
    assert_eq!(f.arena.strings[1], "Oops: x: y");
    assert_eq!(f.frames[0].ip, 2);
}

#[test]
fn padding_missing_arguments_with_defaults() {
    let mut f = fibre();
    f.stack[0] = PhpValue::Object(0);
    f.stack[1] = PhpValue::Int(5);
    f.stack_top = 2;
    VM::pad_missing_arguments_and_locals(&mut f, 1, 4, &[], false);
    assert_eq!(f.stack_top, 5);
    assert_eq!(&f.stack[0..5], &[PhpValue::Object(0), PhpValue::Int(5), PhpValue::Int(7), PhpValue::Null, PhpValue::Null]);
}

#[test]
fn padding_packs_variadic_arguments() {
    let mut f = fibre();
    f.stack[1] = PhpValue::Int(1);
    f.stack[2] = PhpValue::Int(2);
    f.stack[3] = PhpValue::Int(3);
    f.stack_top = 4;
    VM::pad_missing_arguments_and_locals(&mut f, 3, 5, &[], false);
    assert_eq!(f.stack_top, 3);
    assert_eq!(f.stack[1], PhpValue::Int(1));
    assert_eq!(f.stack[2], PhpValue::Array(0));
    assert_eq!(f.arena.arrays[0].elements, vec![(ArrayKey::Int(0), PhpValue::Int(2)), (ArrayKey::Int(1), PhpValue::Int(3))]);
}

#[test]
fn padding_copies_captured_values() {
    let mut f = fibre();
    f.stack[1] = PhpValue::Int(5);
    f.stack_top = 2;
    VM::pad_missing_arguments_and_locals(&mut f, 2, 4, &[PhpValue::Bool(true)], false);
    assert_eq!(f.stack_top, 5);
    assert_eq!(f.stack[3], PhpValue::Bool(true));
    assert_eq!(f.stack[4], PhpValue::Null);
}

#[test]
fn binding_named_arguments() {
    let e = engine();
    let mut a = Arena { strings: vec![s("b"), s("zzz")], arrays: Vec::new(), objects: Vec::new(), closures: Vec::new(), interned: Vec::new() };
    let func = &e.functions[4];
    let (vals, packed) = VM::bind_call_arguments(&e, func, &[PhpValue::Int(1)], &[(PhpValue::Str(0), PhpValue::Int(9))], &mut a);
    assert_eq!(vals, vec![PhpValue::Int(1), PhpValue::Int(9)]);
    assert!(!packed);
    let (vals2, _) = VM::bind_call_arguments(&e, func, &[PhpValue::Int(1)], &[(PhpValue::Str(1), PhpValue::Int(9))], &mut a);
    assert_eq!(vals2, vec![PhpValue::Int(1), PhpValue::Int(7), PhpValue::Int(9)]);
    let (vals3, _) = VM::bind_call_arguments(&e, func, &[PhpValue::Int(1), PhpValue::Int(2), PhpValue::Int(3)], &[], &mut a);
    assert_eq!(vals3, vec![PhpValue::Int(1), PhpValue::Int(2), PhpValue::Int(3)]);
}

#[test]
fn binding_named_arguments_into_a_variadic() {
    let e = engine();
    let mut a = Arena { strings: vec![s("extra")], arrays: Vec::new(), objects: Vec::new(), closures: Vec::new(), interned: Vec::new() };
    let func = &e.functions[5];
    let (vals, packed) =
        VM::bind_call_arguments(&e, func, &[PhpValue::Int(1), PhpValue::Int(2)], &[(PhpValue::Str(0), PhpValue::Int(3))], &mut a);
    assert!(packed);
    assert_eq!(vals, vec![PhpValue::Int(1), PhpValue::Array(0)]);
    assert_eq!(a.interned, vec![s("extra")]);
    assert_eq!(a.arrays[0].elements, vec![(ArrayKey::Int(0), PhpValue::Int(2)), (ArrayKey::StringId(0), PhpValue::Int(3))]);
}

#[test]
fn evaluating_parameter_defaults() {
    let e = engine();
    e.constants.insert(s("PHP_EOL"), PhpValue::Int(10));
    let mut a = Arena { strings: Vec::new(), arrays: Vec::new(), objects: Vec::new(), closures: Vec::new(), interned: Vec::new() };
    assert_eq!(VM::default_val_to_value(&e, &DefaultValue::Int(5), &mut a), PhpValue::Int(5));
    assert_eq!(VM::default_val_to_value(&e, &DefaultValue::Constant(s("\\App\\PHP_EOL")), &mut a), PhpValue::Int(10));
    assert_eq!(VM::default_val_to_value(&e, &DefaultValue::Constant(s("NOPE")), &mut a), PhpValue::Null);
    assert_eq!(VM::default_val_to_value(&e, &DefaultValue::String(s("x")), &mut a), PhpValue::Str(0));
    assert_eq!(VM::default_val_to_value(&e, &DefaultValue::ClassConstant(s("Foo"), s("CLASS")), &mut a), PhpValue::Str(1));
    assert_eq!(a.strings, vec![s("x"), s("Foo")]);
    let arr = DefaultValue::Array(vec![(None, DefaultValue::Int(1)), (Some(DefaultValue::String(s("k"))), DefaultValue::Bool(true))]);
    assert_eq!(VM::default_val_to_value(&e, &arr, &mut a), PhpValue::Array(0));
    assert_eq!(a.arrays[0].elements, vec![(ArrayKey::Int(0), PhpValue::Int(1)), (ArrayKey::StringId(0), PhpValue::Bool(true))]);
    assert_eq!(VM::default_val_to_value(&e, &DefaultValue::New(s("\\Child"), Vec::new()), &mut a), PhpValue::Object(0));
    assert_eq!(a.objects[0].class_id, 1);
    assert_eq!(a.objects[0].class_name, Some(s("Child")));
}

#[test]
fn autoloading_pushes_a_frame_for_the_first_loader() {
    let mut f = fibre();
    f.engine_state.autoloaders = vec![PhpValue::Closure(0)];
    let r = VM::trigger_autoload(&mut f, "\\App\\Thing");
    assert_eq!(r, Ok(true));
    assert_eq!(f.frame_count, 2);
    assert_eq!(f.frames[1], CallFrame { function: FunctionPtr(3), ip: 0, stack_window: 3, called_class_id: 0, arity: 1 });
    assert_eq!(f.autoload_frame_depths, vec![1]);
    assert_eq!(f.autoloaders, vec![PhpValue::Closure(0)]);
    assert_eq!(f.autoload_state, vec![(s("app\\thing"), 1)]);
    assert_eq!(f.stack[3], PhpValue::Closure(0));
    assert_eq!(f.stack[4], PhpValue::Str(1));
    assert_eq!(f.arena.strings[1], "App\\Thing");
    assert_eq!(f.stack_top, 5);
    assert_eq!(VM::trigger_autoload(&mut f, "\\App\\Thing"), Ok(false));
    assert_eq!(f.frame_count, 2);
}

#[test]
fn autoloading_skips_known_classes_and_keywords() {
    let mut f = fibre();
    f.engine_state.autoloaders = vec![PhpValue::Closure(0)];
    assert_eq!(VM::trigger_autoload(&mut f, "Child"), Ok(false));
    assert_eq!(VM::trigger_autoload(&mut f, "static"), Ok(false));
    assert_eq!(f.frame_count, 1);
    assert!(f.autoloaders.is_empty());
}

#[test]
fn autoloading_by_function_name_and_overflow() {
    let mut f = fibre();
    f.arena.strings.push(s("CLOSURE#1"));
    f.engine_state.autoloaders = vec![PhpValue::Int(0), PhpValue::Str(1)];
    f.frame_count = 8;
    let r = VM::trigger_autoload(&mut f, "Missing");
    assert_eq!(r, Err(s("Stack overflow: max call depth exceeded")));
    assert_eq!(f.autoload_state, vec![(s("missing"), 2)]);
}

#[test]
fn method_visibility() {
    let mut f = fibre();
    assert!(VM::is_method_accessible(&f, 1, FunctionPtr(2), 0));
    assert!(!VM::is_method_accessible(&f, 0, FunctionPtr(1), 0));
    f.frames[0] = frame(2, 0, 0, 1);
    assert!(VM::is_method_accessible(&f, 0, FunctionPtr(1), 0));
    f.frames[0] = frame(2, 0, 0, 3);
    assert!(!VM::is_method_accessible(&f, 0, FunctionPtr(1), 0));
    assert!(!VM::is_method_accessible(&f, 0, FunctionPtr(1), 5));
}

#[test]
fn object_classes_and_property_snapshots() {
    let mut f = fibre();
    let o = PhpObject { class_id: 3, class_name: Some(s("child")), properties: Vec::new(), destructed: false };
    assert_eq!(VM::obj_class_id_loaded(&f, &o), 1);
    let o2 = PhpObject { class_id: 1, class_name: Some(s("CHILD")), properties: Vec::new(), destructed: false };
    assert_eq!(VM::obj_class_id_loaded(&f, &o2), 1);
    let o3 = PhpObject { class_id: 5, class_name: None, properties: Vec::new(), destructed: false };
    assert_eq!(VM::obj_class_id_loaded(&f, &o3), 5);
    f.arena.objects[0].properties = vec![(s("a"), PhpValue::Int(1)), (s("b"), PhpValue::Int(2))];
    let arr = VM::object_properties_as_array(&mut f, PhpValue::Object(0));
    assert_eq!(arr, PhpValue::Array(0));
    assert_eq!(f.arena.interned, vec![s("a"), s("b")]);
    assert_eq!(f.arena.arrays[0].elements, vec![(ArrayKey::StringId(0), PhpValue::Int(1)), (ArrayKey::StringId(1), PhpValue::Int(2))]);
    assert_eq!(VM::object_properties_as_array(&mut f, PhpValue::Int(3)), PhpValue::Array(1));
    assert!(f.arena.arrays[1].elements.is_empty());
}

#[test]
fn synchronous_calls_start_and_finish() {
    let mut f = fibre();
    let mark = VM::begin_callable_call(&mut f, PhpValue::Closure(0), &[PhpValue::Int(1), PhpValue::Int(2)], FunctionPtr(3)).unwrap();
    assert_eq!(mark, CallMark { stack_top: 3, frame_count: 1 });
    assert_eq!(f.frame_count, 2);
    assert_eq!(f.frames[1], CallFrame { function: FunctionPtr(3), ip: 0, stack_window: 3, called_class_id: 0, arity: 0 });
    assert_eq!(&f.stack[3..6], &[PhpValue::Closure(0), PhpValue::Int(1), PhpValue::Int(2)]);
    assert_eq!(VM::finish_callable_call(&mut f, mark, ExecutionResult::Finished), Ok(PhpValue::Int(2)));
    assert_eq!(f.stack_top, 3);
    let mut g = fibre();
    let mark2 = VM::begin_callable_call(&mut g, PhpValue::Null, &[], FunctionPtr(3)).unwrap();
    assert_eq!(
        VM::finish_callable_call(&mut g, mark2, ExecutionResult::UncaughtException(s("boom"))),
        Err(s("Uncaught exception: boom"))
    );
    assert_eq!(g.frame_count, 1);
    assert_eq!(
        VM::finish_callable_call(&mut g, mark2, ExecutionResult::Yielded(YieldReason::Network)),
        Err(s("Yielded during synchronous call for unsupported reason"))
    );
    assert_eq!(VM::finish_callable_call(&mut g, mark2, ExecutionResult::Preempted), Err(s("Preempted during synchronous call")));
    assert_eq!(VM::finish_callable_call(&mut g, mark2, ExecutionResult::Error(s("e"))), Err(s("e")));
}

#[test]
fn synchronous_calls_need_a_free_frame() {
    let mut f = fibre();
    f.frame_count = 8;
    assert_eq!(
        VM::begin_callable_call(&mut f, PhpValue::Null, &[], FunctionPtr(3)),
        Err(s("Stack overflow: max call depth exceeded"))
    );
    assert_eq!(f.stack_top, 4);
}

#[test]
fn driving_a_synchronous_run() {
    assert!(matches!(
        VM::drive_action(&ExecutionResult::Yielded(YieldReason::AsyncInclude(s("a.php")))),
        DriveAction::CompileAndResume(p) if p == "a.php"
    ));
    assert!(matches!(VM::drive_action(&ExecutionResult::Yielded(YieldReason::OutputFlush)), DriveAction::Resume));
    assert!(matches!(VM::drive_action(&ExecutionResult::Yielded(YieldReason::Database(7))), DriveAction::AwaitDatabase(7)));
    assert!(matches!(VM::drive_action(&ExecutionResult::Preempted), DriveAction::Resume));
    assert!(matches!(VM::drive_action(&ExecutionResult::Finished), DriveAction::Finish));
    assert!(matches!(VM::drive_action(&ExecutionResult::Yielded(YieldReason::Network)), DriveAction::Finish));
    match VM::failed_require("x.php", "not found") {
        ExecutionResult::Error(m) => assert_eq!(m, "Fatal error: Failed to require 'x.php': not found"),
        _ => panic!("expected an error"),
    }
}

#[test]
fn database_results_reach_the_fibre() {
    let mut f = fibre();
    VM::deliver_db_result(&mut f, Ok(PhpValue::Int(3)));
    assert_eq!(f.stack_top, 4);
    assert_eq!(f.stack[3], PhpValue::Int(3));
    let mut g = fibre();
    VM::deliver_db_result(&mut g, Err(s("RuntimeException: db down")));
    let o = g.arena.objects.last().unwrap();
    assert_eq!(o.class_name, Some(s("RuntimeException")));
    assert_eq!(g.arena.strings[1], "db down");
}

#[test]
fn inlinable_leaf_functions() {
    let e = engine();
    let main = &e.functions[0];
    assert!(VM::is_inlinable_leaf_function(main, &[0x99, 0x01]));
    assert!(!VM::is_inlinable_leaf_function(main, &[0x34]));
    assert!(!VM::is_inlinable_leaf_function(&e.functions[1], &[]));
    let mut long = function("long", Vec::new(), 0, Visibility::Public);
    long.chunk.code = vec![0x01; 129];
    assert!(!VM::is_inlinable_leaf_function(&long, &[]));
    long.chunk.code = vec![0x01; 128];
    assert!(VM::is_inlinable_leaf_function(&long, &[]));
    let mut guarded = function("guarded", Vec::new(), 0, Visibility::Public);
    guarded.chunk.code = vec![0x01, 0x02];
    guarded.chunk.finally_handlers = vec![FinallyHandler { start_ip: 0, end_ip: 2, finally_ip: 2, stack_depth: 0 }];
    assert!(!VM::is_inlinable_leaf_function(&guarded, &[]));
}

#[test]
fn dispatching_methods_on_objects() {
    let f = fibre();
    assert_eq!(VM::dispatch_method(&f, PhpValue::Object(0), "run"), Ok((FunctionPtr(2), 1, false)));
    assert_eq!(VM::dispatch_method(&f, PhpValue::Object(0), "RUN"), Ok((FunctionPtr(2), 1, false)));
    assert_eq!(VM::dispatch_method(&f, PhpValue::Object(0), "greet"), Err(s("Method Child::greet not found")));
    assert_eq!(VM::dispatch_method(&f, PhpValue::Object(1), "nope"), Err(s("Method Other::nope not found")));
    assert_eq!(VM::dispatch_method(&f, PhpValue::Int(4), "run"), Err(s("Not an object")));
    let mut g = fibre();
    g.engine_state.classes[1].methods.push((s("__call"), FunctionPtr(5)));
    assert_eq!(VM::dispatch_method(&g, PhpValue::Object(0), "greet"), Ok((FunctionPtr(5), 1, true)));
}

#[test]
fn synchronous_method_calls() {
    let mut f = fibre();
    let mark = VM::begin_method_call(&mut f, PhpValue::Object(0), "run", &[PhpValue::Int(9)]).unwrap();
    assert_eq!(mark, CallMark { stack_top: 3, frame_count: 1 });
    assert_eq!(f.frame_count, 2);
    assert_eq!(f.frames[1], CallFrame { function: FunctionPtr(2), ip: 0, stack_window: 3, called_class_id: 1, arity: 1 });
    assert_eq!(f.stack[3], PhpValue::Object(0));
    assert_eq!(f.stack[4], PhpValue::Int(9));
    VM::push(&mut f, PhpValue::Int(42));
    assert_eq!(VM::finish_method_call(&mut f, mark, ExecutionResult::Finished), Ok(PhpValue::Int(42)));
    assert_eq!(f.stack_top, 3);
    let mut g = fibre();
    let before = g.stack_top;
    assert_eq!(
        VM::begin_method_call(&mut g, PhpValue::Object(0), "greet", &[]),
        Err(s("Method Child::greet not found"))
    );
    assert_eq!(g.stack_top, before);
    let m = CallMark { stack_top: 3, frame_count: 1 };
    g.frame_count = 2;
    assert_eq!(VM::finish_method_call(&mut g, m, ExecutionResult::Error(s("bad"))), Err(s("bad")));
    assert_eq!(g.frame_count, 1);
    assert_eq!(
        VM::finish_method_call(&mut g, m, ExecutionResult::Preempted),
        Err(s("Unexpected execution result in synchronous call: Preempted"))
    );
}

#[test]
fn synchronous_method_calls_through_the_magic_fallback() {
    let mut f = fibre();
    f.engine_state.classes[1].methods.push((s("__call"), FunctionPtr(5)));
    let mark = VM::begin_method_call(&mut f, PhpValue::Object(0), "missing", &[PhpValue::Int(1), PhpValue::Int(2)]).unwrap();
    assert_eq!(mark, CallMark { stack_top: 3, frame_count: 1 });
    assert_eq!(f.frames[1], CallFrame { function: FunctionPtr(5), ip: 0, stack_window: 3, called_class_id: 1, arity: 2 });
    assert_eq!(f.stack[3], PhpValue::Object(0));
    assert_eq!(f.stack[4], PhpValue::Str(1));
    assert_eq!(f.arena.strings[1], "missing");
    assert_eq!(f.arena.arrays[0].elements, vec![(ArrayKey::Int(0), PhpValue::Int(1)), (ArrayKey::Int(1), PhpValue::Int(2))]);
}

#[test]
fn method_calls_need_a_free_frame() {
    let mut f = fibre();
    f.frame_count = 8;
    assert_eq!(
        VM::begin_method_call(&mut f, PhpValue::Object(0), "run", &[]),
        Err(s("Stack overflow: max call depth exceeded"))
    );
    assert_eq!(f.stack_top, 4);
    assert_eq!(f.frame_count, 8);
}

/// A fibre whose engine also has the backed enum `Suit` (class 4) with the
/// cases hearts (`"H"`), spades (`5`) and, set at run time only, clubs
/// (`"12"`).
fn enum_fibre() -> Fibre {
    let mut f = fibre();
    f.engine_state.classes.push(class("Suit", None, &["BackedEnum"], &[]));
    f.engine_state.default_statics = vec![
        ((s("suit"), s("hearts")), PhpValue::Null),
        ((s("other"), s("x")), PhpValue::Int(1)),
        ((s("suit"), s("spades")), PhpValue::Object(3)),
    ];
    f.static_properties = vec![((s("suit"), s("hearts")), PhpValue::Object(2)), ((s("suit"), s("clubs")), PhpValue::Object(4))];
    f.arena.strings.extend([s("H"), s("12"), s("5")]);
    for v in [PhpValue::Str(1), PhpValue::Int(5), PhpValue::Str(2)] {
        f.arena.objects.push(PhpObject { class_id: 4, class_name: Some(s("Suit")), properties: vec![(s("value"), v)], destructed: false });
    }
    f
}

#[test]
fn enum_cases_list_declared_then_runtime_cases() {
    let mut f = enum_fibre();
    assert_eq!(VM::try_execute_enum_builtin(&mut f, 4, "cases", &[]), Some(Ok(PhpValue::Array(0))));
    assert_eq!(
        f.arena.arrays[0].elements,
        vec![(ArrayKey::Int(0), PhpValue::Object(2)), (ArrayKey::Int(1), PhpValue::Object(3)), (ArrayKey::Int(2), PhpValue::Object(4))]
    );
}

#[test]
fn enum_from_matches_backing_values() {
    let mut f = enum_fibre();
    assert_eq!(VM::try_execute_enum_builtin(&mut f, 4, "from", &[PhpValue::Str(1)]), Some(Ok(PhpValue::Object(2))));
    assert_eq!(VM::try_execute_enum_builtin(&mut f, 4, "From", &[PhpValue::Str(3)]), Some(Ok(PhpValue::Object(3))));
    assert_eq!(VM::try_execute_enum_builtin(&mut f, 4, "FROM", &[PhpValue::Int(12)]), Some(Ok(PhpValue::Object(4))));
    assert_eq!(VM::try_execute_enum_builtin(&mut f, 4, "tryFrom", &[PhpValue::Int(5)]), Some(Ok(PhpValue::Object(3))));
    assert_eq!(VM::try_execute_enum_builtin(&mut f, 4, "tryFrom", &[PhpValue::Int(99)]), Some(Ok(PhpValue::Null)));
    assert_eq!(
        VM::try_execute_enum_builtin(&mut f, 4, "from", &[PhpValue::Int(99)]),
        Some(Err(s("Uncaught ValueError: Int(99) is not a valid backing value for enum Suit")))
    );
    assert_eq!(VM::try_execute_enum_builtin(&mut f, 4, "tryfrom", &[]), Some(Ok(PhpValue::Null)));
    assert!(f.arena.arrays.is_empty());
}

#[test]
fn enum_builtins_only_apply_to_enums() {
    let mut f = enum_fibre();
    assert_eq!(VM::try_execute_enum_builtin(&mut f, 3, "cases", &[]), None);
    assert_eq!(VM::try_execute_enum_builtin(&mut f, 9, "cases", &[]), None);
    assert_eq!(VM::try_execute_enum_builtin(&mut f, 4, "values", &[]), None);
    assert!(f.arena.arrays.is_empty());
    f.engine_state.classes[4].implements = Vec::new();
    f.engine_state.classes[4].extends = Some(s("UnitEnum"));
    assert_eq!(VM::run_enum_builtin(&mut f, 4, "cases", &[]), Some(Ok(PhpValue::Array(0))));
}

/// A fibre with the classes Generator (4), Agg (5, with getIterator), It
/// (6, with current, rewind and valid) and Dtor (7, with __destruct), and
/// an object of each: 2, 3, 4 and 5.
fn iteration_fibre() -> Fibre {
    let mut f = fibre();
    f.engine_state.classes.push(class("Generator", None, &[], &[]));
    f.engine_state.classes.push(class("Agg", None, &[], &[("getiterator", 2)]));
    f.engine_state.classes.push(class("It", None, &[], &[("current", 2), ("rewind", 2), ("valid", 2)]));
    f.engine_state.classes.push(class("Dtor", None, &[], &[("__destruct", 2)]));
    for cid in 4..8 {
        f.arena.objects.push(PhpObject { class_id: cid, class_name: None, properties: Vec::new(), destructed: false });
    }
    f
}

#[test]
fn resolving_foreach_sources() {
    let f = iteration_fibre();
    assert_eq!(VM::resolve_iterable_step(&f, PhpValue::Int(3), 0), Ok(IterableStep::Walk(PhpValue::Int(3))));
    assert_eq!(VM::resolve_iterable_step(&f, PhpValue::Object(2), 0), Ok(IterableStep::Walk(PhpValue::Object(2))));
    assert_eq!(VM::resolve_iterable_step(&f, PhpValue::Object(3), 0), Ok(IterableStep::GetIterator));
    assert_eq!(VM::resolve_iterable_step(&f, PhpValue::Object(4), 3), Ok(IterableStep::Walk(PhpValue::Object(4))));
    assert_eq!(VM::resolve_iterable_step(&f, PhpValue::Object(1), 15), Ok(IterableStep::Walk(PhpValue::Object(1))));
    assert_eq!(
        VM::resolve_iterable_step(&f, PhpValue::Object(3), 16),
        Err(s("getIterator() nested too deeply while resolving a foreach source"))
    );
}

#[test]
fn stepping_iterators() {
    let f = iteration_fibre();
    assert_eq!(VM::iterator_plan(&f, PhpValue::Object(4), true), Ok(IteratorStep { call_position: true, check_valid: true }));
    assert_eq!(VM::iterator_plan(&f, PhpValue::Object(4), false), Ok(IteratorStep { call_position: false, check_valid: true }));
    assert_eq!(VM::iterator_plan(&f, PhpValue::Object(3), true), Ok(IteratorStep { call_position: false, check_valid: false }));
    assert_eq!(VM::iterator_plan(&f, PhpValue::Int(1), true), Err(s("foreach source is not an object")));
}

#[test]
fn destructors_run_once_and_not_while_in_use() {
    let mut f = iteration_fibre();
    assert_eq!(VM::check_and_run_destructor(&mut f, 1), Ok(None));
    VM::push(&mut f, PhpValue::Object(5));
    assert_eq!(VM::check_and_run_destructor(&mut f, 5), Ok(None));
    assert!(!f.arena.objects[5].destructed);
    VM::pop(&mut f);
    let mark = VM::check_and_run_destructor(&mut f, 5).unwrap().unwrap();
    assert_eq!(mark, CallMark { stack_top: 3, frame_count: 1 });
    assert!(f.arena.objects[5].destructed);
    assert_eq!(f.frames[1], CallFrame { function: FunctionPtr(2), ip: 0, stack_window: 3, called_class_id: 7, arity: 0 });
    assert_eq!(f.stack[3], PhpValue::Object(5));
    assert_eq!(VM::finish_method_call(&mut f, mark, ExecutionResult::Error(s("x"))), Err(s("x")));
    assert_eq!(VM::check_and_run_destructor(&mut f, 5), Ok(None));
}

fn top(f: &Fibre) -> PhpValue {
    f.stack[f.stack_top - 1]
}

#[test]
fn stepping_stack_and_local_instructions() {
    let mut f = fibre();
    VM::push(&mut f, PhpValue::Int(1));
    VM::push(&mut f, PhpValue::Bool(false));
    assert_eq!(VM::step(&mut f, Opcode::Swap), StepAction::Continue);
    assert_eq!(top(&f), PhpValue::Int(1));
    assert_eq!(VM::step(&mut f, Opcode::Dup), StepAction::Continue);
    assert_eq!(f.stack_top, 6);
    assert_eq!(VM::step(&mut f, Opcode::Not), StepAction::Continue);
    assert_eq!(top(&f), PhpValue::Bool(false));
    assert_eq!(VM::step(&mut f, Opcode::Pop), StepAction::Continue);
    assert_eq!(VM::step(&mut f, Opcode::SetLocal(1)), StepAction::Continue);
    assert_eq!(f.stack[1], PhpValue::Int(1));
    assert_eq!(VM::step(&mut f, Opcode::GetLocal(1)), StepAction::Continue);
    assert_eq!(top(&f), PhpValue::Int(1));
    VM::push(&mut f, PhpValue::Object(0));
    assert_eq!(VM::step(&mut f, Opcode::Pop), StepAction::RunDestructor(0));
    f.engine_state.functions[0].chunk.constants = vec![PhpValue::Int(7)];
    assert_eq!(VM::step(&mut f, Opcode::Constant(0)), StepAction::Continue);
    assert_eq!(top(&f), PhpValue::Int(7));
}

#[test]
fn stepping_jumps() {
    let mut f = fibre();
    assert_eq!(VM::step(&mut f, Opcode::Jump(5)), StepAction::Continue);
    assert_eq!(f.frames[0].ip, 7);
    VM::push(&mut f, PhpValue::Int(0));
    assert_eq!(VM::step(&mut f, Opcode::JumpIfFalse(3)), StepAction::Continue);
    assert_eq!(f.frames[0].ip, 10);
    VM::push(&mut f, PhpValue::Int(4));
    assert_eq!(VM::step(&mut f, Opcode::JumpIfFalse(3)), StepAction::Continue);
    assert_eq!(f.frames[0].ip, 10);
    assert_eq!(f.stack_top, 3);
    assert_eq!(VM::step(&mut f, Opcode::Loop(4)), StepAction::Continue);
    assert_eq!(f.frames[0].ip, 6);
    assert_eq!(VM::step(&mut f, Opcode::Loop(100)), StepAction::Error(s("Loop offset 100 > ip 6")));
    assert_eq!(f.frames[0].ip, 6);
}

#[test]
fn stepping_arithmetic() {
    let mut f = fibre();
    VM::push(&mut f, PhpValue::Int(2));
    VM::push(&mut f, PhpValue::Int(3));
    assert_eq!(VM::step(&mut f, Opcode::Add), StepAction::Continue);
    assert_eq!((f.stack_top, top(&f)), (4, PhpValue::Int(5)));
    VM::push(&mut f, PhpValue::Bool(true));
    assert_eq!(VM::step(&mut f, Opcode::Subtract), StepAction::Continue);
    assert_eq!(top(&f), PhpValue::Int(4));
    f.arena.strings.push(s("12"));
    VM::push(&mut f, PhpValue::Str(1));
    assert_eq!(VM::step(&mut f, Opcode::Multiply), StepAction::Continue);
    assert_eq!(top(&f), PhpValue::Int(48));
    VM::push(&mut f, PhpValue::Int(i32::MAX));
    VM::push(&mut f, PhpValue::Int(1));
    assert_eq!(VM::step(&mut f, Opcode::Add), StepAction::Continue);
    assert_eq!(top(&f), PhpValue::Int(i32::MIN));
    f.arena.strings.push(s("1.5"));
    VM::push(&mut f, PhpValue::Str(2));
    let before = f.stack_top;
    assert_eq!(VM::step(&mut f, Opcode::Add), StepAction::FloatArith(ArithOp::Add));
    assert_eq!(f.stack_top, before);
    VM::push(&mut f, PhpValue::Null);
    VM::push(&mut f, PhpValue::Object(0));
    assert_eq!(VM::step(&mut f, Opcode::Multiply), StepAction::Continue);
    assert_eq!(top(&f), PhpValue::Null);
}

#[test]
fn adding_arrays_is_their_union() {
    let mut f = fibre();
    let mut a = PhpArray::new();
    a.insert(ArrayKey::Int(0), PhpValue::Int(1));
    a.insert(ArrayKey::Int(1), PhpValue::Int(2));
    let mut b = PhpArray::new();
    b.insert(ArrayKey::Int(1), PhpValue::Int(20));
    b.insert(ArrayKey::Int(2), PhpValue::Int(30));
    f.arena.arrays.push(a);
    f.arena.arrays.push(b);
    VM::push(&mut f, PhpValue::Array(0));
    VM::push(&mut f, PhpValue::Array(1));
    assert_eq!(VM::step(&mut f, Opcode::Add), StepAction::Continue);
    assert_eq!(top(&f), PhpValue::Array(2));
    assert_eq!(
        f.arena.arrays[2].elements,
        vec![(ArrayKey::Int(0), PhpValue::Int(1)), (ArrayKey::Int(1), PhpValue::Int(2)), (ArrayKey::Int(2), PhpValue::Int(30))]
    );
}

#[test]
fn unexpected_results_in_synchronous_calls_are_described() {
    let mut f = fibre();
    let m = CallMark { stack_top: 3, frame_count: 1 };
    assert_eq!(
        VM::finish_method_call(&mut f, m, ExecutionResult::Yielded(YieldReason::Database(7))),
        Err(s("Unexpected execution result in synchronous call: Yielded(Database(7))"))
    );
    assert_eq!(
        VM::finish_method_call(&mut f, m, ExecutionResult::Yielded(YieldReason::AsyncInclude(s("a\"b.php")))),
        Err(s("Unexpected execution result in synchronous call: Yielded(AsyncInclude(\"a\\\"b.php\"))"))
    );
}

#[test]
fn stepping_returns() {
    let mut f = fibre();
    f.frames[1] = frame(4, 1, 3, 0);
    f.frame_count = 2;
    f.dynamic_locals = vec![(1, Vec::new()), (0, Vec::new())];
    VM::push(&mut f, PhpValue::Int(8));
    assert_eq!(VM::step(&mut f, Opcode::ReturnValue), StepAction::Continue);
    assert_eq!((f.frame_count, f.stack_top, f.stack[3]), (1, 4, PhpValue::Int(8)));
    assert_eq!(f.dynamic_locals.len(), 1);
    assert_eq!(f.dynamic_locals[0].0, 0);
    assert_eq!(VM::step(&mut f, Opcode::Return), StepAction::Finished);
    assert_eq!((f.frame_count, f.stack_top, f.stack[0]), (0, 1, PhpValue::Null));
}

#[test]
fn a_return_inside_finally_runs_it_first() {
    let mut f = fibre();
    f.engine_state.functions[0].chunk.finally_handlers =
        vec![FinallyHandler { start_ip: 0, end_ip: 10, finally_ip: 30, stack_depth: 0 }];
    VM::push(&mut f, PhpValue::Int(5));
    assert_eq!(VM::step(&mut f, Opcode::ReturnValue), StepAction::Continue);
    assert_eq!(f.frames[0].ip, 30);
    assert_eq!(f.frame_count, 1);
    assert!(matches!(f.unwind_action, Some(UnwindAction::Return(PhpValue::Int(5)))));
}

#[test]
fn instanceof_asks_to_load_what_is_missing() {
    let mut f = fibre();
    f.engine_state.classes[1].implements.push(s("Missing"));
    let child = PhpValue::Object(0);
    assert_eq!(VM::is_instance_of(&f, child, "Base", &[]), InstanceStep::Known(true));
    assert_eq!(VM::is_instance_of(&f, child, "Zed", &[]), InstanceStep::Load(s("missing")));
    assert_eq!(VM::is_instance_of(&f, child, "Zed", &[s("missing")]), InstanceStep::Known(false));
    assert_eq!(VM::is_instance_of(&f, child, "missing", &[]), InstanceStep::Known(true));
    assert_eq!(VM::is_instance_of(&f, PhpValue::Closure(0), "closure", &[]), InstanceStep::Known(true));
    let ghost = PhpObject { class_id: 9, class_name: Some(s("Ghost")), properties: Vec::new(), destructed: false };
    f.arena.objects.push(ghost);
    assert_eq!(VM::is_instance_of(&f, PhpValue::Object(2), "Base", &[]), InstanceStep::Load(s("ghost")));
    assert_eq!(VM::is_instance_of(&f, PhpValue::Object(2), "Base", &[s("ghost")]), InstanceStep::Known(false));
}

#[test]
fn an_object_of_an_unloaded_class_asks_for_its_load() {
    let f = fibre();
    let ghost = PhpObject { class_id: 9, class_name: Some(s("Ghost")), properties: Vec::new(), destructed: false };
    assert_eq!(VM::resolve_obj_class_id(&f, &ghost, false), ClassIdStep::Load(s("Ghost")));
    assert_eq!(VM::resolve_obj_class_id(&f, &ghost, true), ClassIdStep::Known(9));
    assert_eq!(VM::resolve_obj_class_id(&f, &f.arena.objects[0], false), ClassIdStep::Known(1));
    assert_eq!(VM::resolve_obj_class_id(&f, &f.arena.objects[1], false), ClassIdStep::Known(3));
}

/// A fibre whose `main` runs `code` from its start with `constants`.
fn running(code: Vec<u8>, constants: Vec<PhpValue>) -> Fibre {
    let mut f = fibre();
    f.engine_state.functions[0].chunk.code = code;
    f.engine_state.functions[0].chunk.constants = constants;
    f.frames[0].ip = 0;
    f.stack_top = 0;
    f
}

#[test]
fn a_run_adds_two_constants_and_returns() {
    let mut f = running(vec![4, 0, 0, 4, 0, 1, 10, 13], vec![PhpValue::Int(2), PhpValue::Int(3)]);
    let r = VM::run_fibre(&mut f, 10, 100);
    assert!(matches!(r, RunStop::Done(ExecutionResult::Finished)));
    assert_eq!(f.frame_count, 0);
    assert_eq!(f.stack_top, 1);
    assert_eq!(f.stack[0], PhpValue::Int(5));
}

#[test]
fn a_run_stops_on_an_unknown_opcode() {
    let mut f = running(vec![1, 0xEE], Vec::new());
    VM::push(&mut f, PhpValue::Int(1));
    match VM::run_fibre(&mut f, 10, 100) {
        RunStop::Done(ExecutionResult::Error(m)) => assert_eq!(m, "Unknown opcode: 238"),
        other => panic!("unexpected {:?}", other),
    }
    assert_eq!(f.frames[0].ip, 2);
    assert_eq!(f.stack_top, 2);
}

#[test]
fn a_run_is_preempted_when_its_loop_gas_runs_out() {
    let mut f = running(vec![9, 0, 3], Vec::new());
    assert!(matches!(VM::run_fibre(&mut f, 5, 1000), RunStop::Done(ExecutionResult::Preempted)));
    assert_eq!(f.frames[0].ip, 0);
    let mut g = running(vec![9, 0, 3], Vec::new());
    assert!(matches!(VM::run_fibre(&mut g, 1000, 7), RunStop::Done(ExecutionResult::Preempted)));
}

#[test]
fn a_run_faults_on_truncated_code_and_hands_floats_back() {
    let mut f = running(vec![4, 0], vec![PhpValue::Int(1)]);
    assert!(matches!(VM::run_fibre(&mut f, 10, 100), RunStop::Fault));
    assert_eq!(f.frames[0].ip, 1);
    let mut g = running(vec![4, 0, 0, 4, 0, 1, 11], vec![PhpValue::Float(0x3FF8000000000000), PhpValue::Int(1)]);
    assert!(matches!(VM::run_fibre(&mut g, 10, 100), RunStop::FloatArith(ArithOp::Subtract)));
    assert_eq!(g.stack_top, 2);
    assert_eq!(g.frames[0].ip, 7);
    let mut h = running(vec![0], Vec::new());
    VM::push(&mut h, PhpValue::Object(1));
    assert!(matches!(VM::run_fibre(&mut h, 10, 100), RunStop::Destructor(1)));
}

#[test]
fn a_run_at_its_stop_mark_is_finished_at_once() {
    let mut f = running(vec![1], Vec::new());
    f.stop_frame_count = Some(1);
    assert!(matches!(VM::run_fibre(&mut f, 10, 100), RunStop::Done(ExecutionResult::Finished)));
    assert_eq!(f.frames[0].ip, 0);
}

#[test]
fn a_synchronous_method_call_runs_the_method() {
    let mut f = fibre();
    f.engine_state.functions[2].chunk.code = vec![4, 0, 0, 13];
    f.engine_state.functions[2].chunk.constants = vec![PhpValue::Int(42)];
    let r = VM::call_method_synchronously(&mut f, PhpValue::Object(0), "run", &[PhpValue::Int(9)], 10, 100);
    match r {
        Ok(SyncCall::Returned(v)) => assert_eq!(v, Ok(PhpValue::Int(42))),
        other => panic!("unexpected {:?}", other),
    }
    assert_eq!(f.stack_top, 3);
    assert_eq!(f.frame_count, 1);
    assert_eq!(f.stop_frame_count, None);
    let mut g = fibre();
    assert_eq!(
        VM::call_method_synchronously(&mut g, PhpValue::Object(0), "greet", &[], 10, 100).unwrap_err(),
        "Method Child::greet not found"
    );
}

#[test]
fn a_suspended_synchronous_call_resumes() {
    let mut f = fibre();
    f.stop_frame_count = Some(0);
    f.engine_state.functions[2].chunk.code = vec![9, 0, 3];
    let r = VM::call_method_synchronously(&mut f, PhpValue::Object(0), "run", &[], 1, 100);
    let (mark, outer) = match r {
        Ok(SyncCall::Suspended { mark, outer_stop, why: RunStop::Done(ExecutionResult::Preempted) }) => (mark, outer_stop),
        other => panic!("unexpected {:?}", other),
    };
    assert_eq!(mark, CallMark { stack_top: 3, frame_count: 1 });
    assert_eq!(outer, Some(0));
    assert_eq!(f.stop_frame_count, Some(0));
    f.engine_state.functions[2].chunk.code = vec![14];
    f.frames[1].ip = 0;
    match VM::resume_method_call(&mut f, mark, outer, 10, 100) {
        SyncCall::Returned(v) => assert_eq!(v, Ok(PhpValue::Null)),
        other => panic!("unexpected {:?}", other),
    }
    assert_eq!(f.stack_top, 3);
    assert_eq!(f.stop_frame_count, Some(0));
}

#[test]
fn throwing_loads_an_unloaded_ancestor_first() {
    let mut f = fibre();
    f.engine_state.classes[3].extends = Some(s("Mid"));
    match VM::throw_with_autoload(&mut f, PhpValue::Object(1), &[]) {
        ThrowStep::Load(n) => assert_eq!(n, "mid"),
        other => panic!("unexpected {:?}", other),
    }
    assert_eq!(f.frames[0].ip, 2);
    match VM::throw_with_autoload(&mut f, PhpValue::Object(1), &[s("mid")]) {
        ThrowStep::Unwound(Some(ExecutionResult::UncaughtException(m))) => assert!(m.starts_with("Other: oops")),
        other => panic!("unexpected {:?}", other),
    }
}

/// A fibre whose class Other (3) extends the undeclared class Mid; with
/// `declare`, Mid (4) is declared with a method `x` (function 4).
fn other_extends_mid(declare: bool) -> Fibre {
    let mut g = fibre();
    g.engine_state.classes[3].extends = Some(s("Mid"));
    if declare {
        g.engine_state.classes.push(class("Mid", None, &[], &[("x", 4)]));
        g.engine_state.class_map.insert(s("mid"), 4);
    }
    g
}

#[test]
fn lookup_with_autoloading_loads_the_missing_parent() {
    let mut vm = VM::new();
    let (f, r) = vm.find_method_with_autoload(other_extends_mid(false), 3, "x", |_f: Fibre, p: String| other_extends_mid(p == "Mid"));
    assert_eq!(r, Some(FunctionPtr(4)));
    assert_eq!(f.engine_state.classes.len(), 5);
}

#[test]
fn lookup_with_autoloading_gives_up_when_the_parent_stays_missing() {
    let mut vm = VM::new();
    let (_, r) = vm.find_method_with_autoload(other_extends_mid(false), 3, "x", |_f: Fibre, _p: String| other_extends_mid(false));
    assert_eq!(r, None);
    assert_eq!(vm.find_method_with_autoload(fibre(), 1, "greet", |_f: Fibre, _p: String| fibre()).1, Some(FunctionPtr(1)));
}

#[test]
fn resolving_a_foreach_source_calls_get_iterator_until_walkable() {
    let calls = std::cell::RefCell::new(Vec::new());
    let (_, r) = VM::resolve_iterable(iteration_fibre(), PhpValue::Object(3), |_f: Fibre, v: PhpValue, n: String| {
        calls.borrow_mut().push((v, n));
        (iteration_fibre(), Ok(PhpValue::Object(4)))
    });
    assert_eq!(r, Ok(PhpValue::Object(4)));
    assert_eq!(*calls.borrow(), vec![(PhpValue::Object(3), s("getIterator"))]);
    assert_eq!(VM::resolve_iterable(iteration_fibre(), PhpValue::Int(7), |_f: Fibre, _v: PhpValue, _n: String| (iteration_fibre(), Ok(PhpValue::Null))).1, Ok(PhpValue::Int(7)));
}

#[test]
fn resolving_a_foreach_source_stops_on_errors_and_deep_nesting() {
    let (_, r) = VM::resolve_iterable(iteration_fibre(), PhpValue::Object(3), |_f: Fibre, _v: PhpValue, _n: String| {
        (iteration_fibre(), Err(s("boom")))
    });
    assert_eq!(r, Err(s("boom")));
    let count = std::cell::Cell::new(0);
    let (_, r) = VM::resolve_iterable(iteration_fibre(), PhpValue::Object(3), |_f: Fibre, _v: PhpValue, _n: String| {
        count.set(count.get() + 1);
        (iteration_fibre(), Ok(PhpValue::Object(3)))
    });
    assert_eq!(r, Err(s("getIterator() nested too deeply while resolving a foreach source")));
    assert_eq!(count.get(), 16);
}

#[test]
fn an_iterator_step_positions_then_asks_valid() {
    let calls = std::cell::RefCell::new(Vec::new());
    let (f, r) = VM::iterator_step(iteration_fibre(), PhpValue::Object(4), true, |_f: Fibre, _v: PhpValue, n: String| {
        calls.borrow_mut().push(n.clone());
        let v = if n == "valid" { PhpValue::Int(1) } else { PhpValue::Null };
        (iteration_fibre(), Ok(v))
    });
    assert_eq!(r, Ok(true));
    assert_eq!(*calls.borrow(), vec![s("rewind"), s("valid")]);
    calls.borrow_mut().clear();
    let (f, r) = VM::iterator_step(f, PhpValue::Object(4), false, |_f: Fibre, _v: PhpValue, n: String| {
        calls.borrow_mut().push(n.clone());
        (iteration_fibre(), Ok(PhpValue::Int(0)))
    });
    assert_eq!(r, Ok(false));
    assert_eq!(*calls.borrow(), vec![s("valid")]);
    let (f, r) = VM::iterator_step(f, PhpValue::Object(3), true, |_f: Fibre, _v: PhpValue, _n: String| {
        (iteration_fibre(), Ok(PhpValue::Int(1)))
    });
    assert_eq!(r, Ok(false));
    let (f, r) = VM::iterator_step(f, PhpValue::Object(4), true, |_f: Fibre, _v: PhpValue, _n: String| {
        (iteration_fibre(), Err(s("bad rewind")))
    });
    assert_eq!(r, Err(s("bad rewind")));
    assert_eq!(
        VM::iterator_step(f, PhpValue::Int(1), true, |_f: Fibre, _v: PhpValue, _n: String| (iteration_fibre(), Ok(PhpValue::Null))).1,
        Err(s("foreach source is not an object"))
    );
}

/// The fibre of `other_extends_mid`, with Mid declared as a subclass of
/// Base once `name` is Mid.
fn mid_loaded(name: &str) -> Fibre {
    let mut g = other_extends_mid(false);
    if name == "mid" || name == "Mid" {
        g.engine_state.classes.push(class("Mid", Some("Base"), &[], &[]));
        g.engine_state.class_map.insert(s("mid"), 4);
    }
    g
}

#[test]
fn instanceof_loads_the_ancestors_on_the_way() {
    assert!(VM::instance_of_with_autoload(other_extends_mid(false), PhpValue::Object(1), "Base", |_f: Fibre, n: String| mid_loaded(&n), 8).1);
    assert!(!VM::instance_of_with_autoload(other_extends_mid(false), PhpValue::Object(1), "Base", |_f: Fibre, _n: String| other_extends_mid(false), 8).1);
    assert!(!VM::instance_of_with_autoload(other_extends_mid(false), PhpValue::Object(1), "Base", |_f: Fibre, n: String| mid_loaded(&n), 0).1);
}

#[test]
fn a_throw_loads_the_exception_ancestors_before_choosing_a_catch() {
    let (f, r) = VM::throw_exception(other_extends_mid(false), PhpValue::Object(1), |_f: Fibre, n: String| mid_loaded(&n), 8);
    assert!(r.is_none());
    assert_eq!(f.frames[0].ip, 20);
    assert_eq!(f.stack[3], PhpValue::Object(1));
    match VM::throw_exception(other_extends_mid(false), PhpValue::Object(1), |_f: Fibre, _n: String| other_extends_mid(false), 8).1 {
        Some(ExecutionResult::UncaughtException(m)) => assert!(m.starts_with("Other: oops")),
        other => panic!("unexpected {:?}", other),
    }
}

/// Counts local 0 down from 3 and returns it: two backward jumps.
fn countdown() -> Fibre {
    running(
        vec![4, 0, 0, 5, 0, 4, 0, 1, 11, 6, 0, 8, 0, 3, 9, 0, 14, 5, 0, 13],
        vec![PhpValue::Int(3), PhpValue::Int(1)],
    )
}

#[test]
fn a_countdown_loop_runs_to_its_return() {
    let mut f = countdown();
    assert!(matches!(VM::run_fibre(&mut f, 100, 1000), RunStop::Done(ExecutionResult::Finished)));
    assert_eq!((f.stack_top, f.stack[0]), (1, PhpValue::Int(0)));
}

#[test]
fn a_synchronous_drive_resumes_preempted_runs() {
    let mut f = countdown();
    assert!(matches!(VM::drive_fibre_synchronously(&mut f, 1, 1000, 5), RunStop::Done(ExecutionResult::Finished)));
    assert_eq!(f.stack[0], PhpValue::Int(0));
    let mut g = countdown();
    assert!(matches!(VM::drive_fibre_synchronously(&mut g, 1, 1000, 1), RunStop::Done(ExecutionResult::Preempted)));
    let mut h = countdown();
    assert!(matches!(VM::step_generator_fibre(&mut h, 1, 1000, 2), RunStop::Done(ExecutionResult::Finished)));
}

#[test]
fn stepping_comparisons_and_logic() {
    let mut f = fibre();
    VM::push(&mut f, PhpValue::Int(2));
    VM::push(&mut f, PhpValue::Int(5));
    assert_eq!(VM::step(&mut f, Opcode::Compare(CompareOp::Less)), StepAction::Continue);
    assert_eq!((f.stack_top, top(&f)), (4, PhpValue::Bool(true)));
    VM::push(&mut f, PhpValue::Null);
    assert_eq!(VM::step(&mut f, Opcode::Compare(CompareOp::Equal)), StepAction::Continue);
    assert_eq!(top(&f), PhpValue::Bool(false));
    VM::push(&mut f, PhpValue::Int(0));
    assert_eq!(VM::step(&mut f, Opcode::LogicalOr), StepAction::Continue);
    assert_eq!(top(&f), PhpValue::Bool(false));
    VM::push(&mut f, PhpValue::Float(0x3FF8000000000000));
    VM::push(&mut f, PhpValue::Int(1));
    assert_eq!(VM::step(&mut f, Opcode::Compare(CompareOp::Greater)), StepAction::Compare(CompareOp::Greater));
    assert_eq!(f.stack_top, 6);
}

#[test]
fn a_run_compares_and_branches() {
    // 2 < 3 ? return 1 : return 0
    let mut f = running(
        vec![4, 0, 0, 4, 0, 1, 17, 8, 0, 4, 4, 0, 2, 13, 4, 0, 3, 13],
        vec![PhpValue::Int(2), PhpValue::Int(3), PhpValue::Int(1), PhpValue::Int(0)],
    );
    assert!(matches!(VM::run_fibre(&mut f, 10, 100), RunStop::Done(ExecutionResult::Finished)));
    assert_eq!(f.stack[0], PhpValue::Int(1));
    let mut g = running(vec![4, 0, 0, 4, 0, 1, 15], vec![PhpValue::Float(0), PhpValue::Int(0)]);
    assert!(matches!(VM::run_fibre(&mut g, 10, 100), RunStop::Compare(CompareOp::Equal)));
}
