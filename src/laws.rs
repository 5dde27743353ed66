//! Laws that relate lifting, lowering and comparison.
use vstd::prelude::*;
use core::cmp::Ordering;
use vstd::std_specs::cmp::{PartialEqSpec, PartialOrdSpec};
use crate::binary::{Binary64, f64_is_finite, f64_sig, f64_exp, fract_below};
use crate::lift::ToValue;
use crate::lower::FromValue;
use crate::map::StringMap;
use crate::number::{Num, Number};
use crate::value::{Function, Value};

verus! {

/// A non-negative integer lifts to a value that lowers back to it as an
/// unsigned integer; as a signed integer exactly when it fits; never as a
/// float.
pub proof fn law_nonnegative_integer_round_trip(n: u64, v: Value)
    requires
        n.lifts_to(v),
    ensures
        u64::lowerable(v),
        forall|t: u64| u64::lowers_to(v, t) <==> t == n,
        n <= i64::MAX ==> i64::lowerable(v) && forall|t: i64| i64::lowers_to(v, t) <==> t == n,
        n > i64::MAX ==> !i64::lowerable(v),
        !Binary64::lowerable(v),
{
}

/// A negative integer lifts to a value that lowers back to it as a signed
/// integer, and neither as an unsigned integer nor as a float.
pub proof fn law_negative_integer_round_trip(n: i64, v: Value)
    requires
        n < 0,
        n.lifts_to(v),
    ensures
        i64::lowerable(v),
        forall|t: i64| i64::lowers_to(v, t) <==> t == n,
        !u64::lowerable(v),
        !Binary64::lowerable(v),
{
}

/// A finite binary64 value whose fractional part is not below the machine
/// epsilon keeps the float kind when lifted, lowers back to itself as a float,
/// and neither as an unsigned nor as a signed integer.
pub proof fn law_fractional_float_round_trip(b: u64, v: Value)
    requires
        f64_is_finite(b),
        !fract_below(f64_sig(b), f64_exp(b), 52),
        Binary64(b).lifts_to(v),
    ensures
        v->Number_0@ == Num::F(b),
        Binary64::lowerable(v),
        forall|t: Binary64| Binary64::lowers_to(v, t) <==> t.0 == b,
        !u64::lowerable(v),
        !i64::lowerable(v),
{
}

/// A signed number is below every unsigned number, whatever their values.
pub proof fn law_signed_below_unsigned(a: Number, b: Number)
    requires
        a@ is I,
        b@ is U,
    ensures
        a.partial_cmp_spec(&b) == Some(Ordering::Less),
        b.partial_cmp_spec(&a) == Some(Ordering::Greater),
{
}

/// Numbers of different kinds are never equal, whatever their values.
pub proof fn law_kinds_never_equal(a: Number, b: Number)
    requires
        a@ is U && !(b@ is U) || a@ is I && !(b@ is I) || a@ is F && !(b@ is F),
    ensures
        !a.eq_spec(&b),
        !b.eq_spec(&a),
{
}

/// A list of signed integers lifts to a value that lowers back to the same
/// list.
pub proof fn law_integer_list_round_trip(xs: Vec<i64>, v: Value)
    requires
        xs.lifts_to(v),
    ensures
        Vec::<i64>::lowerable(v),
        forall|t: Vec<i64>| Vec::<i64>::lowers_to(v, t) ==> t@ == xs@,
{
    let a = v->Array_0@;
    assert forall|i: int| 0 <= i < a.len() implies i64::lowerable(#[trigger] a[i]) by {
        assert(xs@[i].lifts_to(a[i]));
    }
    assert forall|t: Vec<i64>| Vec::<i64>::lowers_to(v, t) implies t@ == xs@ by {
        assert forall|i: int| 0 <= i < xs@.len() implies t@[i] == xs@[i] by {
            assert(xs@[i].lifts_to(a[i]));
            assert(i64::lowers_to(a[i], t@[i]));
        }
        assert(t@ =~= xs@);
    }
}

/// A non-empty list of strings lifts to a value that does not lower to a list
/// of integers: one item of the wrong shape fails the whole list.
pub proof fn law_string_list_not_integers(xs: Vec<String>, v: Value)
    requires
        xs@.len() > 0,
        xs.lifts_to(v),
    ensures
        !Vec::<i64>::lowerable(v),
        !Vec::<u64>::lowerable(v),
{
    assert(xs@[0].lifts_to(v->Array_0@[0]));
}

/// A map of unsigned integers lifts to a value that lowers back to a map with
/// the same keys, in the same order, under the same integers.
pub proof fn law_integer_map_round_trip(m: StringMap<u64>, v: Value)
    requires
        m.lifts_to(v),
    ensures
        StringMap::<u64>::lowerable(v),
        forall|t: StringMap<u64>|
            StringMap::<u64>::lowers_to(v, t) ==> {
                &&& t.entries().len() == m.entries().len()
                &&& forall|i: int|
                    0 <= i < m.entries().len() ==> (#[trigger] t.entries()[i]).0@ == m.entries()[i].0@
                        && t.entries()[i].1 == m.entries()[i].1
            },
{
    let e = v->Dict_0.entries();
    assert forall|i: int| 0 <= i < e.len() implies u64::lowerable(#[trigger] e[i].1) by {
        assert(m.entries()[i].1.lifts_to(e[i].1));
    }
    assert forall|t: StringMap<u64>| StringMap::<u64>::lowers_to(v, t) implies {
        &&& t.entries().len() == m.entries().len()
        &&& forall|i: int|
            0 <= i < m.entries().len() ==> (#[trigger] t.entries()[i]).0@ == m.entries()[i].0@
                && t.entries()[i].1 == m.entries()[i].1
    } by {
        assert forall|i: int| 0 <= i < m.entries().len() implies (#[trigger] t.entries()[i]).0@
            == m.entries()[i].0@ && t.entries()[i].1 == m.entries()[i].1 by {
            assert(m.entries()[i].1.lifts_to(e[i].1));
            assert(u64::lowers_to(e[i].1, t.entries()[i].1));
        }
    }
}

/// A map (of either variant) with a value that is not a number does not
/// lower to a map of integers.
pub proof fn law_map_with_non_number(v: Value, i: int)
    requires
        v is Dict || v is Object,
        0 <= i < crate::lower::map_of(v).entries().len(),
        !(crate::lower::map_of(v).entries()[i].1 is Number),
    ensures
        !StringMap::<u64>::lowerable(v),
        !StringMap::<i64>::lowerable(v),
{
    assert(!u64::lowerable(crate::lower::map_of(v).entries()[i].1));
}

/// An absent optional lifts to `NoValue`; a present one lifts to exactly the
/// values its content lifts to.
pub proof fn law_optional_erased<T: ToValue>(x: T, v: Value)
    ensures
        None::<T>.lifts_to(v) <==> v == Value::NoValue,
        Some(x).lifts_to(v) <==> x.lifts_to(v),
{
}

/// Two function wrappers are equal exactly when they are the same wrapper,
/// that is, hold the same function.
pub proof fn law_function_identity(a: Function, b: Function)
    ensures
        a.eq_spec(&b) <==> a == b,
{
}

} // verus!
