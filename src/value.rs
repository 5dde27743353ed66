//! The dynamic value a template expression produces or accepts.
use vstd::prelude::*;
use crate::map::{StringMap, has_key, keys_distinct};
use crate::number::{Number, num_eq};

verus! {

/// Declares `anyhow::Error` so that `FuncError` can carry one; the library
/// only passes it on and assumes nothing of what it holds.
#[verifier::external_type_specification]
#[verifier::external_body]
pub struct ExAnyhowError(anyhow::Error);

/// How a template function reports failure.
#[derive(Debug)]
pub enum FuncError {
    /// An argument could not be converted from its value.
    UnableToConvertFromValue,
    /// The named function requires at least this many arguments.
    AtLeastXArgs(String, usize),
    /// The named function requires exactly this many arguments.
    ExactlyXArgs(String, usize),
    /// A free-form message.
    Generic(String),
    /// An error from elsewhere, passed on unchanged.
    Other(anyhow::Error),
}

/// A template function: a plain function pointer from the argument values to
/// a value or an error. Two of them are equal when they hold the same
/// pointer. Its field is hidden from verification, which does not take
/// function pointer types.
#[verifier::external_body]
#[derive(Copy)]
pub struct Function {
    pub f: fn(&[Value]) -> Result<Value, FuncError>,
}

impl Clone for Function {
    fn clone(&self) -> (r: Function)
        ensures
            r == *self,
    {
        *self
    }
}

/// Relies on `PartialEq` of function pointers: it compares their addresses,
/// so it tells whether the two wrappers hold the same function.
#[verifier::external_body]
fn same_function(a: &Function, b: &Function) -> (r: bool)
    ensures
        r == (*a == *b),
{
    a.f == b.f
}

impl PartialEq for Function {
    fn eq(&self, other: &Function) -> (r: bool) {
        same_function(self, other)
    }
}

impl vstd::std_specs::cmp::PartialEqSpecImpl for Function {
    open spec fn obeys_eq_spec() -> bool {
        true
    }

    open spec fn eq_spec(&self, other: &Function) -> bool {
        *self == *other
    }
}

/// A template value.
pub enum Value {
    /// No value was produced (distinct from `Nil`).
    NoValue,
    Nil,
    Bool(bool),
    String(String),
    /// A map kept for older payloads; accepted wherever `Dict` is.
    Object(StringMap<Value>),
    Dict(StringMap<Value>),
    Array(Vec<Value>),
    Function(Function),
    Number(Number),
}

/// Whether `b` is a copy of `a`: the same variant holding the same contents.
pub open spec fn same_value(a: Value, b: Value) -> bool
    decreases a,
{
    match (a, b) {
        (Value::NoValue, Value::NoValue) => true,
        (Value::Nil, Value::Nil) => true,
        (Value::Bool(x), Value::Bool(y)) => x == y,
        (Value::String(x), Value::String(y)) => x@ == y@,
        (Value::Object(x), Value::Object(y)) => same_entries(x, y),
        (Value::Dict(x), Value::Dict(y)) => same_entries(x, y),
        (Value::Array(x), Value::Array(y)) => {
            &&& x@.len() == y@.len()
            &&& forall|i: int| 0 <= i < x@.len() ==> same_value(#[trigger] x@[i], y@[i])
        },
        (Value::Function(x), Value::Function(y)) => x == y,
        (Value::Number(x), Value::Number(y)) => x@ == y@,
        _ => false,
    }
}

/// Whether `y` holds copies of the entries of `x`, in the same order.
pub open spec fn same_entries(x: StringMap<Value>, y: StringMap<Value>) -> bool
    decreases x,
{
    proof {
        x.lemma_entries_decrease();
    }
    &&& x.entries().len() == y.entries().len()
    &&& forall|i: int|
        0 <= i < x.entries().len() ==> {
            &&& (#[trigger] x.entries()[i]).0@ == y.entries()[i].0@
            &&& same_value(x.entries()[i].1, y.entries()[i].1)
        }
}

fn copy_entries(x: &StringMap<Value>) -> (r: StringMap<Value>)
    ensures
        same_entries(*x, r),
    decreases *x,
{
    proof {
        x.lemma_entries_decrease();
    }
    let n = x.len();
    let mut r: StringMap<Value> = StringMap::new();
    let mut i: usize = 0;
    while i < n
        invariant
            n == x.entries().len(),
            i <= n,
            keys_distinct(x.entries()),
            r.entries().len() == i,
            forall|j: int|
                0 <= j < i ==> {
                    &&& (#[trigger] x.entries()[j]).0@ == r.entries()[j].0@
                    &&& same_value(x.entries()[j].1, r.entries()[j].1)
                },
        decreases n - i,
    {
        let k = x.key_at(i).clone();
        proof {
            x.lemma_entries_decrease();
            assert(decreases_to!(*x => x.entries()[i as int].1));
        }
        let v = copy_value(x.value_at(i));
        proof {
            if has_key(r.entries(), k@) {
                let j = choose|j: int| 0 <= j < r.entries().len() && r.entries()[j].0@ == k@;
                assert(x.entries()[j].0@ == x.entries()[i as int].0@);
            }
        }
        r.insert(k, v);
        i = i + 1;
    }
    r
}

/// Each element of an array lies strictly inside it.
proof fn lemma_array_decreases(a: Value)
    requires
        a is Array,
    ensures
        forall|j: int| 0 <= j < a->Array_0@.len() ==> decreases_to!(a => #[trigger] a->Array_0@[j]),
{
    let x = a->Array_0;
    assert forall|j: int| 0 <= j < x@.len() implies decreases_to!(a => #[trigger] x@[j]) by {
        assert(decreases_to!(a => x));
        assert(decreases_to!(x => x@));
        assert(decreases_to!(x@ => x@[j]));
    }
}

fn copy_value(a: &Value) -> (r: Value)
    ensures
        same_value(*a, r),
    decreases *a,
{
    match a {
        Value::NoValue => Value::NoValue,
        Value::Nil => Value::Nil,
        Value::Bool(x) => Value::Bool(*x),
        Value::String(x) => Value::String(x.clone()),
        Value::Object(x) => Value::Object(copy_entries(x)),
        Value::Dict(x) => Value::Dict(copy_entries(x)),
        Value::Array(x) => {
            proof {
                lemma_array_decreases(*a);
            }
            let mut r: Vec<Value> = Vec::new();
            let mut i: usize = 0;
            while i < x.len()
                invariant
                    i <= x@.len(),
                    r@.len() == i,
                    forall|j: int| 0 <= j < x@.len() ==> decreases_to!(*a => #[trigger] x@[j]),
                    forall|j: int| 0 <= j < i ==> same_value(#[trigger] x@[j], r@[j]),
                decreases x@.len() - i,
            {

                r.push(copy_value(&x[i]));
                i = i + 1;
            }
            Value::Array(r)
        },
        Value::Function(x) => Value::Function(x.clone()),
        Value::Number(x) => Value::Number(*x),
    }
}

impl Clone for Value {
    /// A deep copy.
    fn clone(&self) -> (r: Value)
        ensures
            same_value(*self, r),
    {
        copy_value(self)
    }
}

/// Equality of maps of values: same number of entries, and each key of `x`
/// is in `y` with an equal value, whatever the order of insertion.
pub open spec fn map_eq(x: StringMap<Value>, y: StringMap<Value>) -> bool
    decreases x, 0int,
{
    proof {
        x.lemma_entries_decrease();
    }
    &&& x.entries().len() == y.entries().len()
    &&& forall|i: int|
        0 <= i < x.entries().len() ==> {
            let k = (#[trigger] x.entries()[i]).0@;
            y@.contains_key(k) && value_eq(x.entries()[i].1, y@[k])
        }
}

/// Equality of values: same variant and equal contents. Numbers compare as
/// `Number` does, functions by the pointer they hold.
pub open spec fn value_eq(a: Value, b: Value) -> bool
    decreases a, 1int,
{
    match (a, b) {
        (Value::NoValue, Value::NoValue) => true,
        (Value::Nil, Value::Nil) => true,
        (Value::Bool(x), Value::Bool(y)) => x == y,
        (Value::String(x), Value::String(y)) => x@ == y@,
        (Value::Object(x), Value::Object(y)) => map_eq(x, y),
        (Value::Dict(x), Value::Dict(y)) => map_eq(x, y),
        (Value::Array(x), Value::Array(y)) => {
            &&& x@.len() == y@.len()
            &&& forall|i: int| 0 <= i < x@.len() ==> value_eq(#[trigger] x@[i], y@[i])
        },
        (Value::Function(x), Value::Function(y)) => x == y,
        (Value::Number(x), Value::Number(y)) => num_eq(x@, y@),
        _ => false,
    }
}

fn maps_equal(x: &StringMap<Value>, y: &StringMap<Value>) -> (r: bool)
    ensures
        r == map_eq(*x, *y),
    decreases *x, 0int,
{
    proof {
        x.lemma_entries_decrease();
    }
    if x.len() != y.len() {
        return false;
    }
    let mut i: usize = 0;
    while i < x.len()
        invariant
            i <= x.entries().len(),
            forall|j: int|
                0 <= j < i ==> {
                    let k = (#[trigger] x.entries()[j]).0@;
                    y@.contains_key(k) && value_eq(x.entries()[j].1, y@[k])
                },
        decreases x.entries().len() - i,
    {
        match y.get(x.key_at(i)) {
            None => return false,
            Some(w) => {
                proof {
            x.lemma_entries_decrease();
            assert(decreases_to!(*x => x.entries()[i as int].1));
        }
                if !values_equal(x.value_at(i), w) {
                    return false;
                }
            },
        }
        i = i + 1;
    }
    true
}

fn values_equal(a: &Value, b: &Value) -> (r: bool)
    ensures
        r == value_eq(*a, *b),
    decreases *a, 1int,
{
    match (a, b) {
        (Value::NoValue, Value::NoValue) => true,
        (Value::Nil, Value::Nil) => true,
        (Value::Bool(x), Value::Bool(y)) => *x == *y,
        (Value::String(x), Value::String(y)) => *x == *y,
        (Value::Object(x), Value::Object(y)) => maps_equal(x, y),
        (Value::Dict(x), Value::Dict(y)) => maps_equal(x, y),
        (Value::Array(x), Value::Array(y)) => {
            proof {
                lemma_array_decreases(*a);
            }
            if x.len() != y.len() {
                return false;
            }
            let mut i: usize = 0;
            while i < x.len()
                invariant
                    i <= x@.len(),
                    x@.len() == y@.len(),
                    forall|j: int| 0 <= j < x@.len() ==> decreases_to!(*a => #[trigger] x@[j]),
                    value_eq(*a, *b) == (forall|j: int| 0 <= j < x@.len() ==> value_eq(#[trigger] x@[j], y@[j])),
                    forall|j: int| 0 <= j < i ==> value_eq(#[trigger] x@[j], y@[j]),
                decreases x@.len() - i,
            {

                if !values_equal(&x[i], &y[i]) {
                    return false;
                }
                i = i + 1;
            }
            true
        },
        (Value::Function(x), Value::Function(y)) => *x == *y,
        (Value::Number(x), Value::Number(y)) => *x == *y,
        _ => false,
    }
}

impl PartialEq for Value {
    fn eq(&self, other: &Value) -> (r: bool) {
        values_equal(self, other)
    }
}

impl vstd::std_specs::cmp::PartialEqSpecImpl for Value {
    open spec fn obeys_eq_spec() -> bool {
        true
    }

    open spec fn eq_spec(&self, other: &Value) -> bool {
        value_eq(*self, *other)
    }
}

} // verus!
