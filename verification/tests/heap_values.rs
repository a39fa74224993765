use hyperion_vm::compare::{CompareStep, LooseEq, Order};
use hyperion_vm::value::{is_truthy, parse_i64_exec, value_to_array_key, Arena, ArrayKey, PhpArray, PhpObject, PhpValue};
use hyperion_vm::vm::VM;

fn arena() -> Arena {
    Arena { strings: Vec::new(), arrays: Vec::new(), objects: Vec::new(), closures: Vec::new(), interned: Vec::new() }
}

fn string(a: &mut Arena, x: &str) -> PhpValue {
    a.strings.push(x.to_string());
    PhpValue::Str(a.strings.len() - 1)
}

fn array(a: &mut Arena, els: Vec<(ArrayKey, PhpValue)>) -> PhpValue {
    let mut arr = PhpArray::new();
    for (k, v) in els {
        arr.insert(k, v);
    }
    a.arrays.push(arr);
    PhpValue::Array(a.arrays.len() - 1)
}

#[test]
fn array_insert_then_get() {
    let mut arr = PhpArray::new();
    assert_eq!(arr.next_free_int_key(), 0);
    arr.insert(ArrayKey::Int(5), PhpValue::Int(1));
    assert_eq!(arr.next_free_int_key(), 6);
    arr.insert(ArrayKey::StringId(0), PhpValue::Int(2));
    arr.insert(ArrayKey::Int(5), PhpValue::Int(3));
    assert_eq!(arr.get(ArrayKey::Int(5)), Some(PhpValue::Int(3)));
    assert_eq!(arr.get(ArrayKey::StringId(0)), Some(PhpValue::Int(2)));
    assert_eq!(arr.get(ArrayKey::Int(6)), None);
    assert_eq!(arr.elements.len(), 2);
    assert_eq!(arr.elements[0], (ArrayKey::Int(5), PhpValue::Int(3)));
    arr.insert(ArrayKey::Int(-3), PhpValue::Null);
    assert_eq!(arr.next_free_int_key(), 6);
}

#[test]
fn truthiness() {
    let mut a = arena();
    let empty = string(&mut a, "");
    let zero = string(&mut a, "0");
    let zeros = string(&mut a, "00");
    let empty_arr = array(&mut a, Vec::new());
    let full_arr = array(&mut a, vec![(ArrayKey::Int(0), PhpValue::Null)]);
    assert!(!is_truthy(&PhpValue::Null, &a));
    assert!(!is_truthy(&PhpValue::Bool(false), &a));
    assert!(is_truthy(&PhpValue::Bool(true), &a));
    assert!(!is_truthy(&PhpValue::Int(0), &a));
    assert!(is_truthy(&PhpValue::Int(-1), &a));
    assert!(!is_truthy(&empty, &a));
    assert!(!is_truthy(&zero, &a));
    assert!(is_truthy(&zeros, &a));
    assert!(!is_truthy(&empty_arr, &a));
    assert!(is_truthy(&full_arr, &a));
    assert!(is_truthy(&PhpValue::Float(0), &a));
    assert!(is_truthy(&PhpValue::Object(0), &a));
}

#[test]
fn parse_i64_like_std() {
    assert_eq!(parse_i64_exec("42"), Some(42));
    assert_eq!(parse_i64_exec("-17"), Some(-17));
    assert_eq!(parse_i64_exec("+8"), Some(8));
    assert_eq!(parse_i64_exec("007"), Some(7));
    assert_eq!(parse_i64_exec("9223372036854775807"), Some(i64::MAX));
    assert_eq!(parse_i64_exec("-9223372036854775808"), Some(i64::MIN));
    assert_eq!(parse_i64_exec("9223372036854775808"), None);
    assert_eq!(parse_i64_exec(""), None);
    assert_eq!(parse_i64_exec("-"), None);
    assert_eq!(parse_i64_exec(" 1"), None);
    assert_eq!(parse_i64_exec("1.5"), None);
    for s in ["0", "12", "-3", "+4", "x", "99999999999999999999"] {
        assert_eq!(parse_i64_exec(s), s.parse::<i64>().ok());
    }
}

#[test]
fn array_keys_of_values() {
    let mut a = arena();
    let numeric = string(&mut a, "12");
    let word = string(&mut a, "name");
    let word2 = string(&mut a, "name");
    assert_eq!(value_to_array_key(numeric, &mut a), ArrayKey::Int(12));
    let k1 = value_to_array_key(word, &mut a);
    let k2 = value_to_array_key(word2, &mut a);
    assert_eq!(k1, ArrayKey::StringId(0));
    assert_eq!(k1, k2);
    assert_eq!(a.interned, vec!["name".to_string()]);
    assert_eq!(value_to_array_key(PhpValue::Int(-4), &mut a), ArrayKey::Int(-4));
    assert_eq!(value_to_array_key(PhpValue::Bool(true), &mut a), ArrayKey::Int(1));
    assert_eq!(value_to_array_key(PhpValue::Bool(false), &mut a), ArrayKey::Int(0));
    assert_eq!(value_to_array_key(PhpValue::Null, &mut a), ArrayKey::Int(0));
}

#[test]
fn null_loose_equality() {
    let mut a = arena();
    let empty = string(&mut a, "");
    let zero = string(&mut a, "0");
    let empty_arr = array(&mut a, Vec::new());
    assert!(VM::php8_null_eq(&PhpValue::Null, &a));
    assert!(VM::php8_null_eq(&PhpValue::Bool(false), &a));
    assert!(!VM::php8_null_eq(&PhpValue::Bool(true), &a));
    assert!(VM::php8_null_eq(&PhpValue::Int(0), &a));
    assert!(!VM::php8_null_eq(&PhpValue::Int(1), &a));
    assert!(VM::php8_null_eq(&PhpValue::Float(0.0f64.to_bits()), &a));
    assert!(VM::php8_null_eq(&PhpValue::Float((-0.0f64).to_bits()), &a));
    assert!(!VM::php8_null_eq(&PhpValue::Float(f64::NAN.to_bits()), &a));
    assert!(!VM::php8_null_eq(&PhpValue::Float(1e-300f64.to_bits()), &a));
    assert!(VM::php8_null_eq(&empty, &a));
    assert!(VM::php8_null_eq(&zero, &a));
    let zeros = string(&mut a, "00");
    assert!(!VM::php8_null_eq(&zeros, &a));
    assert!(VM::php8_null_eq(&empty_arr, &a));
    assert!(!VM::php8_null_eq(&PhpValue::Object(0), &a));
}

#[test]
fn deep_copy_of_nested_arrays() {
    let mut a = arena();
    let inner = array(&mut a, vec![(ArrayKey::Int(0), PhpValue::Int(1))]);
    let outer = array(&mut a, vec![(ArrayKey::Int(0), inner), (ArrayKey::StringId(3), PhpValue::Int(2))]);
    let copy = VM::deep_copy_value_depth(&mut a, outer, 0);
    assert_eq!(copy, PhpValue::Array(3));
    assert_eq!(a.arrays.len(), 4);
    // The nested array is copied first, then the outer one.
    assert_eq!(a.arrays[2].elements, vec![(ArrayKey::Int(0), PhpValue::Int(1))]);
    assert_eq!(a.arrays[3].elements, vec![(ArrayKey::Int(0), PhpValue::Array(2)), (ArrayKey::StringId(3), PhpValue::Int(2))]);
    assert_eq!(VM::deep_copy_value_depth(&mut a, PhpValue::Int(9), 0), PhpValue::Int(9));
    assert_eq!(VM::deep_copy_value_depth(&mut a, outer, 33), outer);
    assert_eq!(a.arrays.len(), 4);
}

#[test]
fn deep_copy_stops_at_depth_32() {
    let mut a = arena();
    let inner = array(&mut a, vec![(ArrayKey::Int(0), PhpValue::Int(1))]);
    let outer = array(&mut a, vec![(ArrayKey::Int(0), inner)]);
    let copy = VM::deep_copy_value_depth(&mut a, outer, 32);
    assert_eq!(copy, PhpValue::Array(2));
    // The nested array is shared, not copied, one level below the limit.
    assert_eq!(a.arrays[2].elements, vec![(ArrayKey::Int(0), inner)]);
}

#[test]
fn intern_table_reuses_entries() {
    let mut a = arena();
    assert_eq!(a.intern_string("x"), 0);
    assert_eq!(a.intern_string("y"), 1);
    assert_eq!(a.intern_string("x"), 0);
    assert_eq!(a.interned.len(), 2);
}

#[test]
fn changing_a_copy_leaves_the_original() {
    let mut a = arena();
    a.objects.push(PhpObject { class_id: 0, class_name: None, properties: Vec::new(), destructed: false });
    let inner = array(&mut a, vec![(ArrayKey::Int(0), PhpValue::Int(1))]);
    let outer = array(&mut a, vec![(ArrayKey::Int(0), inner), (ArrayKey::Int(1), PhpValue::Object(0))]);
    let copy = VM::deep_copy_value_depth(&mut a, outer, 0);
    let PhpValue::Array(c) = copy else { panic!("an array copies to an array") };
    assert!(c >= 2);
    assert_eq!(a.arrays[c].elements[1], (ArrayKey::Int(1), PhpValue::Object(0)));
    let PhpValue::Array(ci) = a.arrays[c].elements[0].1 else { panic!("nested arrays are copied") };
    a.arrays[ci].insert(ArrayKey::Int(0), PhpValue::Int(99));
    a.arrays[c].insert(ArrayKey::Int(5), PhpValue::Int(5));
    assert_eq!(a.arrays[0].elements, vec![(ArrayKey::Int(0), PhpValue::Int(1))]);
    assert_eq!(a.arrays[1].elements, vec![(ArrayKey::Int(0), inner), (ArrayKey::Int(1), PhpValue::Object(0))]);
    assert_eq!(a.objects.len(), 1);
}

#[test]
fn loose_equality_without_floats() {
    let a = Arena {
        strings: vec![String::from("0"), String::from("abc")],
        arrays: vec![PhpArray::new(), PhpArray::new()],
        objects: Vec::new(),
        closures: Vec::new(),
        interned: Vec::new(),
    };
    assert_eq!(VM::loose_equals_step(&a, PhpValue::Int(3), PhpValue::Int(3)), LooseEq::Known(true));
    assert_eq!(VM::loose_equals_step(&a, PhpValue::Null, PhpValue::Str(0)), LooseEq::Known(true));
    assert_eq!(VM::loose_equals_step(&a, PhpValue::Bool(true), PhpValue::Str(1)), LooseEq::Known(true));
    assert_eq!(VM::loose_equals_step(&a, PhpValue::Str(1), PhpValue::Bool(false)), LooseEq::Known(false));
    assert_eq!(VM::loose_equals_step(&a, PhpValue::Int(0), PhpValue::Str(1)), LooseEq::Numeric);
    assert_eq!(VM::loose_equals_step(&a, PhpValue::Array(0), PhpValue::Array(1)), LooseEq::Members);
    assert_eq!(VM::loose_equals_step(&a, PhpValue::Array(0), PhpValue::Int(1)), LooseEq::Known(false));
}

#[test]
fn ordering_without_floats() {
    let a = Arena {
        strings: vec![String::from(""), String::from("abc")],
        arrays: vec![PhpArray::new(), PhpArray::new()],
        objects: Vec::new(),
        closures: Vec::new(),
        interned: Vec::new(),
    };
    assert_eq!(VM::compare_values_step(&a, PhpValue::Int(2), PhpValue::Int(5)), CompareStep::Known(Order::Less));
    assert_eq!(VM::compare_values_step(&a, PhpValue::Array(0), PhpValue::Int(5)), CompareStep::Known(Order::Greater));
    assert_eq!(VM::compare_values_step(&a, PhpValue::Int(5), PhpValue::Array(0)), CompareStep::Known(Order::Less));
    assert_eq!(VM::compare_values_step(&a, PhpValue::Null, PhpValue::Str(1)), CompareStep::Known(Order::Less));
    assert_eq!(VM::compare_values_step(&a, PhpValue::Null, PhpValue::Str(0)), CompareStep::Known(Order::Equal));
    assert_eq!(VM::compare_values_step(&a, PhpValue::Bool(true), PhpValue::Int(0)), CompareStep::Known(Order::Greater));
    assert_eq!(VM::compare_values_step(&a, PhpValue::Str(1), PhpValue::Int(0)), CompareStep::Numeric);
    assert_eq!(VM::compare_values_step(&a, PhpValue::Array(0), PhpValue::Array(1)), CompareStep::Members);
}
