use hyperion_vm::function::Chunk;
use hyperion_vm::jit::{jit_fetch_array_element, jit_fetch_object_property, jit_set_object_property};
use hyperion_vm::value::{Arena, ArrayKey, PhpArray, PhpObject, PhpValue};

fn arena() -> Arena {
    Arena { strings: Vec::new(), arrays: Vec::new(), objects: Vec::new(), closures: Vec::new(), interned: Vec::new() }
}

fn chunk(constants: Vec<PhpValue>) -> Chunk {
    Chunk { code: Vec::new(), constants, exception_handlers: Vec::new(), finally_handlers: Vec::new(), local_names: Vec::new() }
}

/// An arena with the strings "name", "7" and "age", the interned string
/// "name", the array `[7 => "name", "name" => 42]` and one object with
/// `name = 1`.
fn sample() -> Arena {
    let mut a = arena();
    a.strings = vec!["name".to_string(), "7".to_string(), "age".to_string()];
    a.interned = vec!["name".to_string()];
    let mut arr = PhpArray::new();
    arr.insert(ArrayKey::Int(7), PhpValue::Str(0));
    arr.insert(ArrayKey::StringId(0), PhpValue::Int(42));
    a.arrays.push(arr);
    a.objects.push(PhpObject { class_id: 0, class_name: None, properties: vec![("name".to_string(), PhpValue::Int(1))], destructed: false });
    a
}

#[test]
fn compiled_code_reads_array_elements() {
    let mut a = sample();
    assert_eq!(jit_fetch_array_element(&mut a, PhpValue::Array(0), PhpValue::Int(7)), PhpValue::Str(0));
    assert_eq!(jit_fetch_array_element(&mut a, PhpValue::Array(0), PhpValue::Str(0)), PhpValue::Int(42));
    assert_eq!(a.interned.len(), 1);
    assert_eq!(jit_fetch_array_element(&mut a, PhpValue::Array(0), PhpValue::Int(8)), PhpValue::Null);
    assert_eq!(jit_fetch_array_element(&mut a, PhpValue::Array(0), PhpValue::Bool(true)), PhpValue::Null);
    assert_eq!(jit_fetch_array_element(&mut a, PhpValue::Int(3), PhpValue::Int(7)), PhpValue::Null);
    assert_eq!(a.interned.len(), 1);
}

#[test]
fn a_string_key_is_interned_not_parsed() {
    let mut a = sample();
    assert_eq!(jit_fetch_array_element(&mut a, PhpValue::Array(0), PhpValue::Str(1)), PhpValue::Null);
    assert_eq!(a.interned, vec!["name".to_string(), "7".to_string()]);
}

#[test]
fn compiled_code_reads_and_writes_properties() {
    let mut a = sample();
    let c = chunk(vec![PhpValue::Str(0), PhpValue::Str(2), PhpValue::Int(5)]);
    assert_eq!(jit_fetch_object_property(&a, Some(0), 0, Some(&c)), PhpValue::Int(1));
    assert_eq!(jit_fetch_object_property(&a, Some(0), 1, Some(&c)), PhpValue::Null);
    assert_eq!(jit_fetch_object_property(&a, Some(0), 2, Some(&c)), PhpValue::Null);
    assert_eq!(jit_fetch_object_property(&a, None, 0, Some(&c)), PhpValue::Null);
    assert_eq!(jit_fetch_object_property(&a, Some(0), 0, None), PhpValue::Null);
    jit_set_object_property(&mut a, Some(0), PhpValue::Int(30), 1, Some(&c));
    jit_set_object_property(&mut a, Some(0), PhpValue::Int(2), 0, Some(&c));
    assert_eq!(a.objects[0].properties, vec![("name".to_string(), PhpValue::Int(2)), ("age".to_string(), PhpValue::Int(30))]);
    assert_eq!(jit_fetch_object_property(&a, Some(0), 1, Some(&c)), PhpValue::Int(30));
    assert_eq!(jit_fetch_object_property(&a, Some(0), 0, Some(&c)), PhpValue::Int(2));
    jit_set_object_property(&mut a, Some(0), PhpValue::Int(9), 2, Some(&c));
    jit_set_object_property(&mut a, None, PhpValue::Int(9), 0, Some(&c));
    assert_eq!(a.objects[0].properties.len(), 2);
}
