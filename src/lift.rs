//! Lifting: building a `Value` from native data.
use vstd::prelude::*;
use std::borrow::Cow;
use crate::binary::{Binary64, Binary32};
use crate::map::{StringMap, has_key, keys_distinct};
use crate::number::{Number, num_of_int, num_of_f64, num_of_f32};
use crate::value::{Function, Value};

verus! {

/// Native data that lifts to a `Value`.
pub trait ToValue {
    /// Whether `v` is the value this lifts to.
    spec fn lifts_to(&self, v: Value) -> bool;

    fn to_value(&self) -> (r: Value)
        ensures
            self.lifts_to(r),
    ;
}

impl Value {
    /// The value `t` lifts to.
    pub fn from<T: ToValue>(t: T) -> (r: Value)
        ensures
            t.lifts_to(r),
    {
        t.to_value()
    }
}

impl ToValue for i8 {
    open spec fn lifts_to(&self, v: Value) -> bool {
        v is Number && v->Number_0@ == num_of_int(*self as int)
    }

    fn to_value(&self) -> (r: Value) {
        Value::Number(Number::from_signed(*self as i64))
    }
}

impl ToValue for i16 {
    open spec fn lifts_to(&self, v: Value) -> bool {
        v is Number && v->Number_0@ == num_of_int(*self as int)
    }

    fn to_value(&self) -> (r: Value) {
        Value::Number(Number::from_signed(*self as i64))
    }
}

impl ToValue for i32 {
    open spec fn lifts_to(&self, v: Value) -> bool {
        v is Number && v->Number_0@ == num_of_int(*self as int)
    }

    fn to_value(&self) -> (r: Value) {
        Value::Number(Number::from_signed(*self as i64))
    }
}

impl ToValue for i64 {
    open spec fn lifts_to(&self, v: Value) -> bool {
        v is Number && v->Number_0@ == num_of_int(*self as int)
    }

    fn to_value(&self) -> (r: Value) {
        Value::Number(Number::from_signed(*self as i64))
    }
}

impl ToValue for isize {
    open spec fn lifts_to(&self, v: Value) -> bool {
        v is Number && v->Number_0@ == num_of_int(*self as int)
    }

    fn to_value(&self) -> (r: Value) {
        Value::Number(Number::from_signed(*self as i64))
    }
}

impl ToValue for u8 {
    open spec fn lifts_to(&self, v: Value) -> bool {
        v is Number && v->Number_0@ == num_of_int(*self as int)
    }

    fn to_value(&self) -> (r: Value) {
        Value::Number(Number::from_unsigned(*self as u64))
    }
}

impl ToValue for u16 {
    open spec fn lifts_to(&self, v: Value) -> bool {
        v is Number && v->Number_0@ == num_of_int(*self as int)
    }

    fn to_value(&self) -> (r: Value) {
        Value::Number(Number::from_unsigned(*self as u64))
    }
}

impl ToValue for u32 {
    open spec fn lifts_to(&self, v: Value) -> bool {
        v is Number && v->Number_0@ == num_of_int(*self as int)
    }

    fn to_value(&self) -> (r: Value) {
        Value::Number(Number::from_unsigned(*self as u64))
    }
}

impl ToValue for u64 {
    open spec fn lifts_to(&self, v: Value) -> bool {
        v is Number && v->Number_0@ == num_of_int(*self as int)
    }

    fn to_value(&self) -> (r: Value) {
        Value::Number(Number::from_unsigned(*self as u64))
    }
}

impl ToValue for usize {
    open spec fn lifts_to(&self, v: Value) -> bool {
        v is Number && v->Number_0@ == num_of_int(*self as int)
    }

    fn to_value(&self) -> (r: Value) {
        Value::Number(Number::from_unsigned(*self as u64))
    }
}

impl ToValue for Binary64 {
    open spec fn lifts_to(&self, v: Value) -> bool {
        v is Number && v->Number_0@ == num_of_f64(self.0)
    }

    fn to_value(&self) -> (r: Value) {
        Value::Number(Number::from_f64_bits(self.0))
    }
}

impl ToValue for Binary32 {
    open spec fn lifts_to(&self, v: Value) -> bool {
        v is Number && v->Number_0@ == num_of_f32(self.0)
    }

    fn to_value(&self) -> (r: Value) {
        Value::Number(Number::from_f32_bits(self.0))
    }
}

impl ToValue for Number {
    open spec fn lifts_to(&self, v: Value) -> bool {
        v is Number && v->Number_0@ == self@
    }

    fn to_value(&self) -> (r: Value) {
        Value::Number(*self)
    }
}

impl ToValue for bool {
    open spec fn lifts_to(&self, v: Value) -> bool {
        v == Value::Bool(*self)
    }

    fn to_value(&self) -> (r: Value) {
        Value::Bool(*self)
    }
}

impl ToValue for String {
    open spec fn lifts_to(&self, v: Value) -> bool {
        v is String && v->String_0@ == self@
    }

    fn to_value(&self) -> (r: Value) {
        Value::String(self.clone())
    }
}

impl ToValue for str {
    open spec fn lifts_to(&self, v: Value) -> bool {
        v is String && v->String_0@ == self@
    }

    fn to_value(&self) -> (r: Value) {
        Value::String(self.to_owned())
    }
}

impl<'a> ToValue for Cow<'a, str> {
    open spec fn lifts_to(&self, v: Value) -> bool {
        v is String && v->String_0@ == self@
    }

    fn to_value(&self) -> (r: Value) {
        match self {
            Cow::Borrowed(s) => Value::String((*s).to_owned()),
            Cow::Owned(s) => Value::String(s.clone()),
        }
    }
}

impl ToValue for Function {
    open spec fn lifts_to(&self, v: Value) -> bool {
        v == Value::Function(*self)
    }

    fn to_value(&self) -> (r: Value) {
        Value::Function(self.clone())
    }
}

impl ToValue for Value {
    open spec fn lifts_to(&self, v: Value) -> bool {
        crate::value::same_value(*self, v)
    }

    fn to_value(&self) -> (r: Value) {
        self.clone()
    }
}

impl<'a, T: ToValue + ?Sized> ToValue for &'a T {
    open spec fn lifts_to(&self, v: Value) -> bool {
        (**self).lifts_to(v)
    }

    fn to_value(&self) -> (r: Value) {
        (**self).to_value()
    }
}

/// Whether `a` holds the values the items of `s` lift to, in order.
pub open spec fn lifts_each<T: ToValue>(s: Seq<T>, a: Seq<Value>) -> bool {
    &&& a.len() == s.len()
    &&& forall|i: int| 0 <= i < s.len() ==> (#[trigger] s[i]).lifts_to(a[i])
}

fn lift_items<T: ToValue>(s: &[T]) -> (r: Vec<Value>)
    ensures
        lifts_each(s@, r@),
{
    let mut r: Vec<Value> = Vec::new();
    let mut i: usize = 0;
    while i < s.len()
        invariant
            i <= s@.len(),
            r@.len() == i,
            forall|j: int| 0 <= j < i ==> (#[trigger] s@[j]).lifts_to(r@[j]),
        decreases s@.len() - i,
    {
        r.push(s[i].to_value());
        i = i + 1;
    }
    r
}

impl<T: ToValue> ToValue for [T] {
    open spec fn lifts_to(&self, v: Value) -> bool {
        v is Array && lifts_each(self@, v->Array_0@)
    }

    fn to_value(&self) -> (r: Value) {
        Value::Array(lift_items(self))
    }
}

impl<T: ToValue> ToValue for Vec<T> {
    open spec fn lifts_to(&self, v: Value) -> bool {
        v is Array && lifts_each(self@, v->Array_0@)
    }

    fn to_value(&self) -> (r: Value) {
        Value::Array(lift_items(self.as_slice()))
    }
}

/// Whether `m` holds the keys of `s` in the same order, each with the value
/// the item under it lifts to.
pub open spec fn lifts_entries<T: ToValue>(s: Seq<(String, T)>, m: Seq<(String, Value)>) -> bool {
    &&& m.len() == s.len()
    &&& forall|i: int|
        0 <= i < s.len() ==> {
            &&& (#[trigger] s[i]).0@ == m[i].0@
            &&& s[i].1.lifts_to(m[i].1)
        }
}

impl<T: ToValue> ToValue for StringMap<T> {
    open spec fn lifts_to(&self, v: Value) -> bool {
        v is Dict && lifts_entries(self.entries(), v->Dict_0.entries())
    }

    fn to_value(&self) -> (r: Value) {
        let n = self.len();
        let mut m: StringMap<Value> = StringMap::new();
        let mut i: usize = 0;
        while i < n
            invariant
                n == self.entries().len(),
                i <= n,
                keys_distinct(self.entries()),
                m.entries().len() == i,
                forall|j: int|
                    0 <= j < i ==> {
                        &&& (#[trigger] self.entries()[j]).0@ == m.entries()[j].0@
                        &&& self.entries()[j].1.lifts_to(m.entries()[j].1)
                    },
            decreases n - i,
        {
            let k = self.key_at(i).clone();
            let v = self.value_at(i).to_value();
            proof {
                if has_key(m.entries(), k@) {
                    let j = choose|j: int| 0 <= j < m.entries().len() && m.entries()[j].0@ == k@;
                    assert(self.entries()[j].0@ == self.entries()[i as int].0@);
                }
            }
            m.insert(k, v);
            i = i + 1;
        }
        Value::Dict(m)
    }
}

impl<T: ToValue> ToValue for Option<T> {
    open spec fn lifts_to(&self, v: Value) -> bool {
        match self {
            Some(x) => x.lifts_to(v),
            None => v == Value::NoValue,
        }
    }

    fn to_value(&self) -> (r: Value) {
        match self {
            Some(x) => x.to_value(),
            None => Value::NoValue,
        }
    }
}

} // verus!
