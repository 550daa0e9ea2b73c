use ennio_lib::table::Table;
use ennio_lib::var::{Array, Value, Vars};

#[test]
fn value() {
    let expected = vec![Value::Bool(true)];
    let array = Array::from(expected.clone());
    assert_eq!(*array.items(), expected);
}

#[test]
fn str() {
    let expected = "val";
    let val = Value::from(expected);
    assert_eq!(val, Value::String(expected.into()));
}

#[test]
fn array_new_is_empty() {
    let array = Array::new();
    assert!(array.items().is_empty());
}

#[test]
fn value_from_bool() {
    assert_eq!(Value::from(true), Value::Bool(true));
}

#[test]
fn value_from_u8() {
    assert_eq!(Value::from(1u8), Value::PositiveInt(1u64));
}

#[test]
fn value_from_u16() {
    assert_eq!(Value::from(1u16), Value::PositiveInt(1u64));
}

#[test]
fn value_from_u32() {
    assert_eq!(Value::from(1u32), Value::PositiveInt(1u64));
}

#[test]
fn value_from_u64() {
    assert_eq!(Value::from(1u64), Value::PositiveInt(1u64));
}

#[test]
fn value_from_i8() {
    assert_eq!(Value::from(-1i8), Value::NegativeInt(-1i64));
}

#[test]
fn value_from_i16() {
    assert_eq!(Value::from(-1i16), Value::NegativeInt(-1i64));
}

#[test]
fn value_from_i32() {
    assert_eq!(Value::from(-1i32), Value::NegativeInt(-1i64));
}

#[test]
fn value_from_i64() {
    assert_eq!(Value::from(-1i64), Value::NegativeInt(-1i64));
}

#[test]
fn value_from_string() {
    assert_eq!(
        Value::from(String::from("val")),
        Value::String(String::from("val"))
    );
}

#[test]
fn positive_and_negative_variants_differ() {
    // The sign split must survive round-trips: a positive and a negative
    // literal are never interchangeable variants.
    assert_ne!(Value::from(1u64), Value::NegativeInt(1i64));
    assert_ne!(Value::from(1i64), Value::PositiveInt(1u64));
}

#[test]
fn table_insert_overwrites_in_place() {
    let mut table: Table<Value> = Table::new();
    table.insert("a", Value::from(1u8));
    table.insert("b", Value::from(2u8));
    table.insert("a", Value::from(3u8));
    assert_eq!(table.len(), 2);
    assert_eq!(table.key_at(0).as_str(), "a");
    assert_eq!(table.key_at(1).as_str(), "b");
    assert_eq!(table.get("a"), Some(&Value::PositiveInt(3)));
    assert_eq!(table.get("b"), Some(&Value::PositiveInt(2)));
    assert_eq!(table.get("c"), None);
}

#[test]
fn vars_is_a_table_of_values() {
    let mut vars: Vars = Vars::new();
    assert!(vars.is_empty());
    vars.insert("foo", Value::from(15u8));
    assert!(!vars.is_empty());
    assert_eq!(vars.value_at(0), &Value::PositiveInt(15));
}

#[test]
fn array_from_bools() {
    let array = Array::from(vec![true]);
    assert_eq!(*array.items(), vec![Value::Bool(true)]);
}

#[test]
fn array_from_u8s() {
    let array = Array::from(vec![1u8]);
    assert_eq!(*array.items(), vec![Value::PositiveInt(1)]);
}

#[test]
fn array_from_u16s() {
    let array = Array::from(vec![1u16]);
    assert_eq!(*array.items(), vec![Value::PositiveInt(1)]);
}

#[test]
fn array_from_u32s() {
    let array = Array::from(vec![1u32]);
    assert_eq!(*array.items(), vec![Value::PositiveInt(1)]);
}

#[test]
fn array_from_u64s() {
    let array = Array::from(vec![1u64]);
    assert_eq!(*array.items(), vec![Value::PositiveInt(1)]);
}

#[test]
fn array_from_i8s() {
    let array = Array::from(vec![-1i8]);
    assert_eq!(*array.items(), vec![Value::NegativeInt(-1)]);
}

#[test]
fn array_from_i16s() {
    let array = Array::from(vec![-1i16]);
    assert_eq!(*array.items(), vec![Value::NegativeInt(-1)]);
}

#[test]
fn array_from_i32s() {
    let array = Array::from(vec![-1i32]);
    assert_eq!(*array.items(), vec![Value::NegativeInt(-1)]);
}

#[test]
fn array_from_i64s() {
    let array = Array::from(vec![-1i64]);
    assert_eq!(*array.items(), vec![Value::NegativeInt(-1)]);
}

#[test]
fn array_from_strings() {
    let array = Array::from(vec![String::from("val")]);
    assert_eq!(*array.items(), vec![Value::String(String::from("val"))]);
}

#[test]
fn array_from_strs() {
    let array = Array::from(vec!["val"]);
    assert_eq!(*array.items(), vec![Value::String(String::from("val"))]);
}

#[test]
fn clone_rebuilds_a_nested_value() {
    let mut nested = Vars::new();
    nested.insert("flag", Value::Bool(true));
    nested.insert("text", Value::from("val"));
    let value = Value::Dict(nested);
    let list = Value::Array(Array::from(vec![Value::from(15u8), value]));
    assert_eq!(list.clone(), list);
}

#[test]
fn clone_keeps_table_names_and_values() {
    let mut vars: Vars = Vars::new();
    vars.insert("a", Value::from(1u8));
    vars.insert("b", Value::from("x"));
    let copy = vars.clone();
    assert_eq!(copy, vars);
    assert_eq!(copy.key_at(0).as_str(), "a");
    assert_eq!(copy.key_at(1).as_str(), "b");
}
