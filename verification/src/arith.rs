//! Addition and division of values, as aggregate functions use them.

use std::rc::Rc;
use vstd::prelude::*;
use vstd::string::*;
use crate::double::{Double, DoubleView};
use crate::text::{signed_decimal, signed_text};
use crate::value::{OwnedValue, ValueView};

verus! {

/// An operand of floating-point arithmetic. An integer is to be converted first.
#[derive(Debug)]
pub enum Number {
    Integer(i64),
    Float(Double),
}

/// What a `Number` holds.
pub enum NumberView {
    Integer(i64),
    Float(DoubleView),
}

impl View for Number {
    type V = NumberView;

    open spec fn view(&self) -> NumberView {
        match *self {
            Number::Integer(i) => NumberView::Integer(i),
            Number::Float(d) => NumberView::Float(d@),
        }
    }
}

impl Clone for Number {
    fn clone(&self) -> (copy: Self)
        ensures
            copy == *self,
    {
        match self {
            Number::Integer(i) => Number::Integer(*i),
            Number::Float(d) => Number::Float(d.clone()),
        }
    }
}

/// What comes of an operation on two values.
#[derive(Debug)]
pub enum Computed {
    /// This value.
    Value(OwnedValue),
    /// Floating-point arithmetic on these operands has to give the result.
    Host(Number, Number),
    /// An integer operation has no result: it overflows, or divides by zero.
    Undefined,
}

/// What a `Computed` holds.
pub enum ComputedView {
    Value(ValueView),
    Host(NumberView, NumberView),
    Undefined,
}

impl View for Computed {
    type V = ComputedView;

    open spec fn view(&self) -> ComputedView {
        match *self {
            Computed::Value(v) => ComputedView::Value(v@),
            Computed::Host(a, b) => ComputedView::Host(a@, b@),
            Computed::Undefined => ComputedView::Undefined,
        }
    }
}

/// Tells whether `i` is a value of a 64-bit integer.
pub open spec fn fits(i: int) -> bool {
    i64::MIN <= i <= i64::MAX
}

/// The sum of two values. Numbers are added; where text meets text or a number, the two are
/// written one after the other; NULL changes nothing. For other kinds the sum is zero.
pub open spec fn sum_of(a: ValueView, b: ValueView) -> ComputedView {
    match (a, b) {
        (ValueView::Integer(x), ValueView::Integer(y)) => if fits(x + y) {
            ComputedView::Value(ValueView::Integer((x + y) as i64))
        } else {
            ComputedView::Undefined
        },
        (ValueView::Integer(x), ValueView::Float(y)) => ComputedView::Host(
            NumberView::Integer(x),
            NumberView::Float(y),
        ),
        (ValueView::Float(x), ValueView::Integer(y)) => ComputedView::Host(
            NumberView::Float(x),
            NumberView::Integer(y),
        ),
        (ValueView::Float(x), ValueView::Float(y)) => ComputedView::Host(
            NumberView::Float(x),
            NumberView::Float(y),
        ),
        (ValueView::Text(x), ValueView::Text(y)) => ComputedView::Value(ValueView::Text(x + y)),
        (ValueView::Text(x), ValueView::Integer(y)) => ComputedView::Value(
            ValueView::Text(x + signed_decimal(y as int)),
        ),
        (ValueView::Integer(x), ValueView::Text(y)) => ComputedView::Value(
            ValueView::Text(signed_decimal(x as int) + y),
        ),
        (ValueView::Text(x), ValueView::Float(y)) => ComputedView::Value(
            ValueView::Text(x + y.plain),
        ),
        (ValueView::Float(x), ValueView::Text(y)) => ComputedView::Value(
            ValueView::Text(x.plain + y),
        ),
        (_, ValueView::Null) => ComputedView::Value(a),
        (ValueView::Null, _) => ComputedView::Value(b),
        _ => ComputedView::Value(ValueView::Float(DoubleView::zero())),
    }
}

/// The quotient of two integers, rounded towards zero.
pub open spec fn truncated_quotient(x: int, y: int) -> int
    recommends
        y != 0,
{
    let magnitude = (if x < 0 { -x } else { x }) / (if y < 0 { -y } else { y });
    if (x < 0) == (y < 0) {
        magnitude
    } else {
        -magnitude
    }
}

/// The quotient of two values: that of numbers, or zero for other kinds.
pub open spec fn quotient_of(a: ValueView, b: ValueView) -> ComputedView {
    match (a, b) {
        (ValueView::Integer(x), ValueView::Integer(y)) => if y != 0 && fits(
            truncated_quotient(x as int, y as int),
        ) {
            ComputedView::Value(
                ValueView::Integer(truncated_quotient(x as int, y as int) as i64),
            )
        } else {
            ComputedView::Undefined
        },
        (ValueView::Integer(x), ValueView::Float(y)) => ComputedView::Host(
            NumberView::Integer(x),
            NumberView::Float(y),
        ),
        (ValueView::Float(x), ValueView::Integer(y)) => ComputedView::Host(
            NumberView::Float(x),
            NumberView::Integer(y),
        ),
        (ValueView::Float(x), ValueView::Float(y)) => ComputedView::Host(
            NumberView::Float(x),
            NumberView::Float(y),
        ),
        _ => ComputedView::Value(ValueView::Float(DoubleView::zero())),
    }
}

/// Two texts, one after the other, as a value.
fn text_value(a: &str, b: &str) -> (v: OwnedValue)
    ensures
        v@ == ValueView::Text(a@ + b@),
{
    let mut text = a.to_owned();
    text.append(b);
    OwnedValue::Text(Rc::new(text))
}

/// The sum of two values.
pub fn add_values(a: &OwnedValue, b: &OwnedValue) -> (c: Computed)
    ensures
        c@ == sum_of(a@, b@),
{
    match (a, b) {
        (OwnedValue::Integer(x), OwnedValue::Integer(y)) => match x.checked_add(*y) {
            Some(z) => Computed::Value(OwnedValue::Integer(z)),
            None => Computed::Undefined,
        },
        (OwnedValue::Integer(x), OwnedValue::Float(y)) => Computed::Host(
            Number::Integer(*x),
            Number::Float(y.clone()),
        ),
        (OwnedValue::Float(x), OwnedValue::Integer(y)) => Computed::Host(
            Number::Float(x.clone()),
            Number::Integer(*y),
        ),
        (OwnedValue::Float(x), OwnedValue::Float(y)) => Computed::Host(
            Number::Float(x.clone()),
            Number::Float(y.clone()),
        ),
        (OwnedValue::Text(x), OwnedValue::Text(y)) => Computed::Value(
            text_value(x.as_str(), y.as_str()),
        ),
        (OwnedValue::Text(x), OwnedValue::Integer(y)) => Computed::Value(
            text_value(x.as_str(), signed_text(*y).as_str()),
        ),
        (OwnedValue::Integer(x), OwnedValue::Text(y)) => Computed::Value(
            text_value(signed_text(*x).as_str(), y.as_str()),
        ),
        (OwnedValue::Text(x), OwnedValue::Float(y)) => Computed::Value(
            text_value(x.as_str(), y.plain.as_str()),
        ),
        (OwnedValue::Float(x), OwnedValue::Text(y)) => Computed::Value(
            text_value(x.plain.as_str(), y.as_str()),
        ),
        (_, OwnedValue::Null) => Computed::Value(a.clone()),
        (OwnedValue::Null, _) => Computed::Value(b.clone()),
        _ => Computed::Value(OwnedValue::Float(Double::zero())),
    }
}

/// The quotient of two values.
pub fn divide_values(a: &OwnedValue, b: &OwnedValue) -> (c: Computed)
    ensures
        c@ == quotient_of(a@, b@),
{
    match (a, b) {
        (OwnedValue::Integer(x), OwnedValue::Integer(y)) => match x.checked_div(*y) {
            Some(z) => Computed::Value(OwnedValue::Integer(z)),
            None => Computed::Undefined,
        },
        (OwnedValue::Integer(x), OwnedValue::Float(y)) => Computed::Host(
            Number::Integer(*x),
            Number::Float(y.clone()),
        ),
        (OwnedValue::Float(x), OwnedValue::Integer(y)) => Computed::Host(
            Number::Float(x.clone()),
            Number::Integer(*y),
        ),
        (OwnedValue::Float(x), OwnedValue::Float(y)) => Computed::Host(
            Number::Float(x.clone()),
            Number::Float(y.clone()),
        ),
        _ => Computed::Value(OwnedValue::Float(Double::zero())),
    }
}

/// How values are added, kind by kind: integers where the sum does not overflow; with a float, by
/// the host, in the order of the operands; text and numbers are written one after the other; NULL
/// is nothing to add, on either side.
pub proof fn law_sums(
    x: i64,
    y: i64,
    c: DoubleView,
    d: DoubleView,
    s: Seq<char>,
    t: Seq<char>,
    v: ValueView,
)
    ensures
        i64::MIN <= x + y <= i64::MAX ==> sum_of(ValueView::Integer(x), ValueView::Integer(y))
            == ComputedView::Value(ValueView::Integer((x + y) as i64)),
        !(i64::MIN <= x + y <= i64::MAX) ==> sum_of(ValueView::Integer(x), ValueView::Integer(y))
            is Undefined,
        sum_of(ValueView::Integer(x), ValueView::Float(d)) == ComputedView::Host(
            NumberView::Integer(x),
            NumberView::Float(d),
        ),
        sum_of(ValueView::Float(c), ValueView::Integer(y)) == ComputedView::Host(
            NumberView::Float(c),
            NumberView::Integer(y),
        ),
        sum_of(ValueView::Float(c), ValueView::Float(d)) == ComputedView::Host(
            NumberView::Float(c),
            NumberView::Float(d),
        ),
        sum_of(ValueView::Text(s), ValueView::Text(t)) == ComputedView::Value(
            ValueView::Text(s + t),
        ),
        sum_of(ValueView::Text(s), ValueView::Integer(y)) == ComputedView::Value(
            ValueView::Text(s + signed_decimal(y as int)),
        ),
        sum_of(ValueView::Integer(x), ValueView::Text(t)) == ComputedView::Value(
            ValueView::Text(signed_decimal(x as int) + t),
        ),
        sum_of(ValueView::Text(s), ValueView::Float(d)) == ComputedView::Value(
            ValueView::Text(s + d.plain),
        ),
        sum_of(ValueView::Float(c), ValueView::Text(t)) == ComputedView::Value(
            ValueView::Text(c.plain + t),
        ),
        sum_of(v, ValueView::Null) == ComputedView::Value(v),
        sum_of(ValueView::Null, v) == ComputedView::Value(v),
{
}

/// How numbers are divided: integers towards zero, so that what is left over is less than the
/// divisor and of the sign of the dividend; with a float, by the host.
pub proof fn law_quotients(x: i64, y: i64, c: DoubleView, d: DoubleView)
    ensures
        y != 0 && !(x == i64::MIN && y == -1) ==> (quotient_of(
            ValueView::Integer(x),
            ValueView::Integer(y),
        ) matches ComputedView::Value(ValueView::Integer(q)) && {
            let rest = x - q * y;
            &&& x >= 0 ==> 0 <= rest < (if y < 0 { -y } else { y as int })
            &&& x <= 0 ==> 0 <= -rest < (if y < 0 { -y } else { y as int })
        }),
        quotient_of(ValueView::Integer(x), ValueView::Integer(0)) is Undefined,
        quotient_of(ValueView::Integer(x), ValueView::Float(d)) == ComputedView::Host(
            NumberView::Integer(x),
            NumberView::Float(d),
        ),
        quotient_of(ValueView::Float(c), ValueView::Integer(y)) == ComputedView::Host(
            NumberView::Float(c),
            NumberView::Integer(y),
        ),
        quotient_of(ValueView::Float(c), ValueView::Float(d)) == ComputedView::Host(
            NumberView::Float(c),
            NumberView::Float(d),
        ),
{
    if y != 0 && !(x == i64::MIN && y == -1) {
        let a: int = if x < 0 { -x } else { x as int };
        let b: int = if y < 0 { -y } else { y as int };
        let m = a / b;
        vstd::arithmetic::div_mod::lemma_fundamental_div_mod(a, b);
        vstd::arithmetic::div_mod::lemma_mod_bound(a, b);
        vstd::arithmetic::div_mod::lemma_div_pos_is_pos(a, b);
        assert(m <= a) by (nonlinear_arith)
            requires
                a == b * m + a % b,
                b >= 1,
                a % b >= 0,
                m >= 0,
        ;
        if a == 0x8000_0000_0000_0000 && m == a {
            assert(b == 1) by (nonlinear_arith)
                requires
                    a == b * m + a % b,
                    m == a,
                    a > 0,
                    b >= 1,
                    a % b >= 0,
            ;
        }
        assert((-m) * y == -(m * y)) by (nonlinear_arith);
        assert(m * (-y) == -(m * y)) by (nonlinear_arith);
        assert(b * m == m * b) by (nonlinear_arith);
    }
}

/// Byte strings, aggregates and rows add nothing but zero to what is not NULL; and the quotient of
/// anything but two numbers is zero. The least integer cannot be divided by -1.
pub proof fn law_sums_and_quotients_of_others(a: ValueView, b: ValueView)
    ensures
        ({
            let zero = ComputedView::Value(
                ValueView::Float(DoubleView { bits: 0, plain: "0"@, marked: "0.0"@ }),
            );
            &&& !(a is Null) && !(b is Null) && (a is Blob || a is Agg || a is Record || b is Blob
                || b is Agg || b is Record) ==> sum_of(a, b) == zero
            &&& !(a is Integer || a is Float) || !(b is Integer || b is Float) ==> quotient_of(a, b)
                == zero
            &&& quotient_of(ValueView::Integer(i64::MIN), ValueView::Integer(-1i64)) is Undefined
        }),
{
}

/// An operand and an outcome hold what they were made of, in that order.
pub proof fn law_operand_views(i: i64, d: Double, a: Number, b: Number, v: OwnedValue)
    ensures
        Number::Integer(i)@ == NumberView::Integer(i),
        Number::Float(d)@ == NumberView::Float(d@),
        Computed::Host(a, b)@ == ComputedView::Host(a@, b@),
        Computed::Value(v)@ == ComputedView::Value(v@),
{
}

} // verus!
