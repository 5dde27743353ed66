//! Lowering: reading native data back out of a `Value`.
use vstd::prelude::*;
use crate::binary::Binary64;
use crate::map::{StringMap, has_key, keys_distinct};
use crate::number::{num_as_i64, num_as_u64, num_as_f64};
use crate::value::Value;

verus! {

/// Native data that can be read out of a `Value`. A value of the wrong
/// shape gives `None`.
pub trait FromValue<T> {
    /// Whether `val` reads as `t`.
    spec fn lowers_to(val: Value, t: T) -> bool;

    /// Whether `val` reads as some `T`.
    spec fn lowerable(val: Value) -> bool;

    /// Reads a `T` out of `val`.
    fn from_value(val: &Value) -> (r: Option<T>)
        ensures
            match r {
                Some(t) => Self::lowers_to(*val, t),
                None => !Self::lowerable(*val),
            },
    ;
}

impl FromValue<i64> for i64 {
    open spec fn lowers_to(val: Value, t: i64) -> bool {
        val is Number && num_as_i64(val->Number_0@) == Some(t)
    }

    open spec fn lowerable(val: Value) -> bool {
        val is Number && num_as_i64(val->Number_0@) is Some
    }

    fn from_value(val: &Value) -> (r: Option<i64>) {
        if let Value::Number(n) = val {
            n.as_i64()
        } else {
            None
        }
    }
}

impl FromValue<u64> for u64 {
    open spec fn lowers_to(val: Value, t: u64) -> bool {
        val is Number && num_as_u64(val->Number_0@) == Some(t)
    }

    open spec fn lowerable(val: Value) -> bool {
        val is Number && num_as_u64(val->Number_0@) is Some
    }

    fn from_value(val: &Value) -> (r: Option<u64>) {
        if let Value::Number(n) = val {
            n.as_u64()
        } else {
            None
        }
    }
}

impl FromValue<Binary64> for Binary64 {
    open spec fn lowers_to(val: Value, t: Binary64) -> bool {
        val is Number && num_as_f64(val->Number_0@) == Some(t.0)
    }

    open spec fn lowerable(val: Value) -> bool {
        val is Number && num_as_f64(val->Number_0@) is Some
    }

    fn from_value(val: &Value) -> (r: Option<Binary64>) {
        if let Value::Number(n) = val {
            match n.as_f64() {
                Some(b) => Some(Binary64(b)),
                None => None,
            }
        } else {
            None
        }
    }
}

impl FromValue<String> for String {
    open spec fn lowers_to(val: Value, t: String) -> bool {
        val is String && val->String_0@ == t@
    }

    open spec fn lowerable(val: Value) -> bool {
        val is String
    }

    fn from_value(val: &Value) -> (r: Option<String>) {
        if let Value::String(s) = val {
            Some(s.clone())
        } else {
            None
        }
    }
}

/// Whether the items of `a` read, in order, as those of `s`.
pub open spec fn lowers_each<T: FromValue<T>>(a: Seq<Value>, s: Seq<T>) -> bool {
    &&& s.len() == a.len()
    &&& forall|i: int| 0 <= i < a.len() ==> T::lowers_to(#[trigger] a[i], s[i])
}

impl<T: FromValue<T>> FromValue<Vec<T>> for Vec<T> {
    /// A list whose items all read as `T`, in order.
    open spec fn lowers_to(val: Value, t: Vec<T>) -> bool {
        val is Array && lowers_each(val->Array_0@, t@)
    }

    open spec fn lowerable(val: Value) -> bool {
        val is Array && forall|i: int|
            0 <= i < val->Array_0@.len() ==> T::lowerable(#[trigger] val->Array_0@[i])
    }

    fn from_value(val: &Value) -> (r: Option<Vec<T>>) {
        if let Value::Array(a) = val {
            let mut v: Vec<T> = Vec::new();
            let mut i: usize = 0;
            while i < a.len()
                invariant
                    i <= a@.len(),
                    *val == Value::Array(*a),
                    v@.len() <= i,
                    v@.len() == i ==> forall|j: int| 0 <= j < i ==> T::lowers_to(#[trigger] a@[j], v@[j]),
                    v@.len() < i ==> !Self::lowerable(*val),
                decreases a@.len() - i,
            {
                match T::from_value(&a[i]) {
                    Some(t) => v.push(t),
                    None => {
                        assert(!T::lowerable(val->Array_0@[i as int]));
                    },
                }
                i = i + 1;
            }
            if v.len() == a.len() {
                return Some(v);
            }
        }
        None
    }
}

/// Whether the entries of `m` read, in order and under the same keys, as
/// those of `s`.
pub open spec fn lowers_entries<T: FromValue<T>>(m: Seq<(String, Value)>, s: Seq<(String, T)>) -> bool {
    &&& s.len() == m.len()
    &&& forall|i: int|
        0 <= i < m.len() ==> {
            &&& (#[trigger] m[i]).0@ == s[i].0@
            &&& T::lowers_to(m[i].1, s[i].1)
        }
}

/// The map either map variant holds.
pub open spec fn map_of(val: Value) -> StringMap<Value> {
    match val {
        Value::Object(m) => m,
        Value::Dict(m) => m,
        _ => arbitrary(),
    }
}

impl<T: FromValue<T>> FromValue<StringMap<T>> for StringMap<T> {
    /// A map (of either variant) whose values all read as `T`, under the
    /// same keys.
    open spec fn lowers_to(val: Value, t: StringMap<T>) -> bool {
        (val is Object || val is Dict) && lowers_entries(map_of(val).entries(), t.entries())
    }

    open spec fn lowerable(val: Value) -> bool {
        (val is Object || val is Dict) && forall|i: int|
            0 <= i < map_of(val).entries().len() ==> T::lowerable(
                #[trigger] map_of(val).entries()[i].1,
            )
    }

    fn from_value(val: &Value) -> (r: Option<StringMap<T>>) {
        let o = match val {
            Value::Object(o) => o,
            Value::Dict(o) => o,
            _ => return None,
        };
        let n = o.len();
        let mut m: StringMap<T> = StringMap::new();
        let mut i: usize = 0;
        while i < n
            invariant
                n == o.entries().len(),
                i <= n,
                *o == map_of(*val),
                val is Object || val is Dict,
                keys_distinct(o.entries()),
                m.entries().len() <= i,
                m.entries().len() == i ==> forall|j: int|
                    0 <= j < i ==> {
                        &&& (#[trigger] o.entries()[j]).0@ == m.entries()[j].0@
                        &&& T::lowers_to(o.entries()[j].1, m.entries()[j].1)
                    },
                m.entries().len() < i ==> !Self::lowerable(*val),
            decreases n - i,
        {
            match T::from_value(o.value_at(i)) {
                Some(t) => {
                    let k = o.key_at(i).clone();
                    if m.len() == i {
                        proof {
                            if has_key(m.entries(), k@) {
                                let j = choose|j: int| 0 <= j < m.entries().len() && m.entries()[j].0@ == k@;
                                assert(o.entries()[j].0@ == o.entries()[i as int].0@);
                            }
                        }
                    }
                    m.insert(k, t);
                },
                None => {
                    assert(!T::lowerable(map_of(*val).entries()[i as int].1));
                },
            }
            i = i + 1;
        }
        if m.len() == n {
            Some(m)
        } else {
            None
        }
    }
}

/// Reads a `T` out of `val`.
pub fn from_value<T: FromValue<T>>(val: &Value) -> (r: Option<T>)
    ensures
        match r {
            Some(t) => T::lowers_to(*val, t),
            None => !T::lowerable(*val),
        },
{
    T::from_value(val)
}

} // verus!
