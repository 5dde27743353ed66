use gtmpl_value::{
    from_value, Binary64, FromValue, FuncError, Function, StringMap, ToValue, Value,
};
use std::borrow::Cow;

fn first(a: &[Value]) -> Result<Value, FuncError> {
    Ok(a[0].clone())
}

fn also_first(a: &[Value]) -> Result<Value, FuncError> {
    Ok(a[0].clone())
}

fn map_of<T: Clone>(pairs: &[(&str, T)]) -> StringMap<T> {
    let mut m = StringMap::new();
    for (k, v) in pairs {
        m.insert(k.to_string(), v.clone());
    }
    m
}

#[test]
fn test_vec() {
    let val: Value = Value::from(vec![1, 2, 3]);
    if let Value::Array(array) = val {
        assert!(array[0] == Value::from(1));
        assert!(array[1] == Value::from(2));
        assert!(array[2] == Value::from(3));
    } else {
        panic!();
    }

    let val: Value = Value::from(vec!["foo", "bar"]);
    if let Value::Array(array) = val {
        assert!(array[0] == Value::from("foo"));
        assert!(array[1] == Value::from("bar"));
    } else {
        panic!();
    }
}

#[test]
fn test_slice() {
    let slice: &[u8] = &[1, 2, 3];
    let val: Value = Value::from(slice);
    if let Value::Array(array) = val {
        assert!(array[0] == Value::from(1));
        assert!(array[1] == Value::from(2));
        assert!(array[2] == Value::from(3));
    } else {
        panic!();
    }
}

#[test]
fn test_map() {
    let mut m = StringMap::new();
    m.insert("a".to_owned(), 1);
    m.insert("b".to_owned(), 2);
    let val: Value = Value::from(m);
    if let Value::Dict(obj) = val {
        assert!(obj.get(&"a".to_owned()) == Some(&Value::from(1)));
        assert!(obj.get(&"b".to_owned()) == Some(&Value::from(2)));
    } else {
        panic!();
    }
}

#[test]
fn test_function_cmp() {
    fn f(a: &[Value]) -> Result<Value, FuncError> {
        Ok(a[0].clone())
    }
    let f1 = Function { f };
    let f2 = Function { f };
    assert!(f1 == f2);
}

#[test]
fn distinct_functions_differ() {
    let a = Function { f: first };
    let b = Function { f: also_first };
    assert!(a != b);
    assert!(Value::from(&a) != Value::from(&b));
    assert!(Value::from(&a) == Value::from(a.clone()));
    let out = (a.f)(&[Value::from(5u8)]).unwrap();
    assert!(out == Value::from(5u64));
}

#[test]
fn list_round_trip() {
    let val = Value::from(vec![1, 2, 3]);
    let back: Option<Vec<i64>> = from_value(&val);
    assert_eq!(back, Some(vec![1, 2, 3]));
    let val = Value::from(vec!["a", "b"]);
    let back: Option<Vec<i64>> = from_value(&val);
    assert_eq!(back, None);
    let empty: Vec<u8> = Vec::new();
    let back: Option<Vec<i64>> = Vec::from_value(&Value::from(empty));
    assert_eq!(back, Some(vec![]));
}

#[test]
fn list_is_all_or_nothing() {
    let val = Value::Array(vec![Value::from(1), Value::from("x"), Value::from(3)]);
    assert_eq!(Vec::<i64>::from_value(&val), None);
    let val = Value::Array(vec![Value::from(1), Value::from(-2)]);
    assert_eq!(Vec::<u64>::from_value(&val), None);
    assert_eq!(Vec::<i64>::from_value(&val), Some(vec![1, -2]));
    let nested = Value::from(vec![vec![1u8, 2], vec![3]]);
    assert_eq!(Vec::<Vec<u64>>::from_value(&nested), Some(vec![vec![1, 2], vec![3]]));
    assert_eq!(Vec::<i64>::from_value(&Value::from(5)), None);
}

#[test]
fn map_round_trip() {
    let m = map_of(&[("a", 1u64), ("b", 2u64)]);
    let val = Value::from(m);
    let back: Option<StringMap<u64>> = from_value(&val);
    let back = back.unwrap();
    assert_eq!(back.len(), 2);
    assert_eq!(back.get(&"a".to_owned()), Some(&1));
    assert_eq!(back.get(&"b".to_owned()), Some(&2));
    assert_eq!(back.key_at(0), "a");
    assert_eq!(back.key_at(1), "b");

    let mut bad = StringMap::new();
    bad.insert("a".to_owned(), Value::from(1));
    bad.insert("b".to_owned(), Value::from(2));
    bad.insert("c".to_owned(), Value::from("x"));
    let back: Option<StringMap<u64>> = from_value(&Value::Dict(bad));
    assert!(back.is_none());
}

#[test]
fn both_map_variants_lower() {
    let mut m = StringMap::new();
    m.insert("k".to_owned(), Value::from(7));
    let object = Value::Object(m.clone());
    let dict = Value::Dict(m);
    let a = StringMap::<i64>::from_value(&object).unwrap();
    let b = StringMap::<i64>::from_value(&dict).unwrap();
    assert_eq!(a.get(&"k".to_owned()), Some(&7));
    assert_eq!(b.get(&"k".to_owned()), Some(&7));
    assert!(object != dict);
    assert!(StringMap::<i64>::from_value(&Value::from(vec![1])).is_none());
}

#[test]
fn optional_lifts_to_its_content() {
    let none: Option<u8> = None;
    assert!(Value::from(none) == Value::NoValue);
    assert!(Value::from(Some("x")) == Value::from("x"));
    assert!(Value::from(Some(5i32)) == Value::from(5i32));
    assert!(Value::NoValue != Value::Nil);
}

#[test]
fn scalars_lower_only_from_their_variant() {
    assert_eq!(String::from_value(&Value::from("foobar")), Some("foobar".to_owned()));
    assert_eq!(String::from_value(&Value::from(1)), None);
    assert_eq!(i64::from_value(&Value::from(23i64)), Some(23));
    assert_eq!(u64::from_value(&Value::from(23u64)), Some(23));
    assert_eq!(u64::from_value(&Value::from(-1)), None);
    assert_eq!(i64::from_value(&Value::from("23")), None);
    assert_eq!(i64::from_value(&Value::Bool(true)), None);
    let f = Binary64::from_value(&Value::from(Binary64(23.1f64.to_bits())));
    assert_eq!(f.map(|b| f64::from_bits(b.0)), Some(23.1));
    assert!(Binary64::from_value(&Value::from(23u64)).is_none());
    assert!(i64::from_value(&Value::from(Binary64(23.1f64.to_bits()))).is_none());
    let v: Option<i64> = from_value(&Value::from(1));
    assert_eq!(v, Some(1));
}

#[test]
fn strings_lift_from_every_form() {
    let owned = "foobar".to_owned();
    assert!(Value::from(&owned) == Value::from("foobar"));
    assert!(Value::from(owned.clone()) == Value::String("foobar".to_owned()));
    let borrowed: Cow<str> = Cow::Borrowed("foobar");
    let cow_owned: Cow<str> = Cow::Owned("foobar".to_owned());
    assert!(Value::from(borrowed) == Value::from("foobar"));
    assert!(cow_owned.to_value() == Value::from("foobar"));
    assert!(Value::from("a") != Value::from("b"));
    assert!(Value::from(true) == Value::Bool(true));
}

#[test]
fn map_equality_ignores_order() {
    let a = Value::from(map_of(&[("a", 1u64), ("b", 2u64)]));
    let b = Value::from(map_of(&[("b", 2u64), ("a", 1u64)]));
    let c = Value::from(map_of(&[("a", 1u64), ("b", 3u64)]));
    let d = Value::from(map_of(&[("a", 1u64)]));
    assert!(a == b);
    assert!(a != c);
    assert!(a != d);
    assert!(d != a);
}

#[test]
fn equality_is_by_variant_and_content() {
    assert!(Value::from(vec![1, 2]) == Value::from(vec![1u8, 2u8]));
    assert!(Value::from(vec![1, 2]) != Value::from(vec![1, 2, 3]));
    assert!(Value::from(vec![1, 2]) != Value::from(vec![2, 1]));
    assert!(Value::Nil == Value::Nil);
    assert!(Value::from(Binary64(f64::NAN.to_bits())) != Value::from(Binary64(f64::NAN.to_bits())));
    assert!(Value::from(1) != Value::from("1"));
}

#[test]
fn clone_is_deep_and_equal() {
    let inner = map_of(&[("x", vec![1u8, 2]), ("y", vec![])]);
    let val = Value::Array(vec![Value::from(inner), Value::from("s"), Value::Nil]);
    let copy = val.clone();
    assert!(copy == val);
}

#[test]
fn insert_replaces_in_place() {
    let mut m = StringMap::new();
    m.insert("a".to_owned(), 1);
    m.insert("b".to_owned(), 2);
    m.insert("a".to_owned(), 3);
    assert_eq!(m.len(), 2);
    assert_eq!(m.key_at(0), "a");
    assert_eq!(m.value_at(0), &3);
    assert_eq!(m.index_of(&"b".to_owned()), Some(1));
    assert_eq!(m.index_of(&"c".to_owned()), None);
    assert_eq!(m.get(&"c".to_owned()), None);
}

fn needs_two(a: &[Value]) -> Result<Value, FuncError> {
    if a.len() != 2 {
        return Err(FuncError::ExactlyXArgs("needs_two".to_owned(), 2));
    }
    Ok(a[1].clone())
}

#[test]
fn function_errors_pass_through() {
    let f = Function { f: needs_two };
    match (f.f)(&[Value::Nil]) {
        Err(FuncError::ExactlyXArgs(name, n)) => {
            assert_eq!(name, "needs_two");
            assert_eq!(n, 2);
        }
        _ => panic!(),
    }
    let ok = (f.f)(&[Value::Nil, Value::from(true)]);
    assert!(matches!(ok, Ok(Value::Bool(true))));
    let other = FuncError::Other(anyhow::Error::msg("boom"));
    assert!(matches!(other, FuncError::Other(_)));
    let generic = FuncError::Generic("bad".to_owned());
    assert!(matches!(generic, FuncError::Generic(ref m) if m == "bad"));
    assert!(matches!(FuncError::AtLeastXArgs("f".to_owned(), 1), FuncError::AtLeastXArgs(_, 1)));
    assert!(matches!(FuncError::UnableToConvertFromValue, FuncError::UnableToConvertFromValue));
}
