//! When two values are equal, and which of two values comes first.

use vstd::prelude::*;
use crate::double::{
    integer_bits, integer_numeric, is_nan, is_nearest, numeric, order_bits, real_order, DoubleView,
};
use crate::text::{
    byte_values, bytes_order, code_points, int_order, lemma_lexicographic_equal,
    law_first_difference_decides, lemma_lexicographic_reversed, lexicographic, text_order, Order,
};
use crate::value::{
    lemma_record_view, values_view, AggContext, AggView, OwnedRecord, OwnedValue, ValueView,
};

verus! {

/// Tells whether two values are equal: they are of the same kind and hold the same. Floating-point
/// values are equal where they stand for the same number.
pub open spec fn same_value(a: ValueView, b: ValueView) -> bool
    decreases a,
{
    match (a, b) {
        (ValueView::Null, ValueView::Null) => true,
        (ValueView::Integer(x), ValueView::Integer(y)) => x == y,
        (ValueView::Float(x), ValueView::Float(y)) => real_order(x.bits, y.bits) == Some(
            Order::Equal,
        ),
        (ValueView::Text(x), ValueView::Text(y)) => x == y,
        (ValueView::Blob(x), ValueView::Blob(y)) => x == y,
        (ValueView::Agg(x), ValueView::Agg(y)) => same_agg(*x, *y),
        (ValueView::Record(x), ValueView::Record(y)) => x.len() == y.len() && (forall|i: int|
            0 <= i < x.len() && i < y.len() ==> same_value(#[trigger] x[i], y[i])),
        _ => false,
    }
}

/// Tells whether two aggregates are in the same state.
pub open spec fn same_agg(a: AggView, b: AggView) -> bool
    decreases a,
{
    match (a, b) {
        (AggView::Avg(x, m), AggView::Avg(y, n)) => same_value(x, y) && same_value(m, n),
        (AggView::Sum(x), AggView::Sum(y)) => same_value(x, y),
        (AggView::Count(x), AggView::Count(y)) => same_value(x, y),
        (AggView::Max(x), AggView::Max(y)) => same_value(x, y),
        (AggView::Min(x), AggView::Min(y)) => same_value(x, y),
        (AggView::GroupConcat(x), AggView::GroupConcat(y)) => same_value(x, y),
        _ => false,
    }
}

/// Tells whether two values are equal.
pub fn values_equal(a: &OwnedValue, b: &OwnedValue) -> (equal: bool)
    ensures
        equal == same_value(a@, b@),
    decreases a,
{
    match (a, b) {
        (OwnedValue::Null, OwnedValue::Null) => true,
        (OwnedValue::Integer(x), OwnedValue::Integer(y)) => *x == *y,
        (OwnedValue::Float(x), OwnedValue::Float(y)) => match order_bits(x.bits, y.bits) {
            Some(Order::Equal) => true,
            _ => false,
        },
        (OwnedValue::Text(x), OwnedValue::Text(y)) => **x == **y,
        (OwnedValue::Blob(x), OwnedValue::Blob(y)) => bytes_equal(&**x, &**y),
        (OwnedValue::Agg(x), OwnedValue::Agg(y)) => aggs_equal(&**x, &**y),
        (OwnedValue::Record(x), OwnedValue::Record(y)) => {
            proof {
                lemma_record_view(*x);
                lemma_record_view(*y);
            }
            lists_equal(&x.values, &y.values)
        },
        _ => false,
    }
}

/// Tells whether two rows hold equal values.
fn lists_equal(x: &Vec<OwnedValue>, y: &Vec<OwnedValue>) -> (equal: bool)
    ensures
        equal == same_value(
            ValueView::Record(values_view(x@)),
            ValueView::Record(values_view(y@)),
        ),
    decreases x,
{
    let ghost (s, t) = (values_view(x@), values_view(y@));
    if x.len() != y.len() {
        return false;
    }
    let mut i: usize = 0;
    while i < x.len()
        invariant
            i <= x.len() == y.len(),
            s == values_view(x@),
            t == values_view(y@),
            forall|j: int| 0 <= j < i ==> same_value(#[trigger] s[j], t[j]),
        decreases x.len() - i,
    {
        assert(decreases_to!(*x => x[i as int]));
        assert(s[i as int] == x@[i as int]@ && t[i as int] == y@[i as int]@);
        if !values_equal(&x[i], &y[i]) {
            assert(!same_value(s[i as int], t[i as int]));
            return false;
        }
        i = i + 1;
    }
    true
}

/// Tells whether two aggregates are in the same state.
fn aggs_equal(a: &AggContext, b: &AggContext) -> (equal: bool)
    ensures
        equal == same_agg(a@, b@),
    decreases a,
{
    match (a, b) {
        (AggContext::Avg(x, m), AggContext::Avg(y, n)) => values_equal(x, y) && values_equal(m, n),
        (AggContext::Sum(x), AggContext::Sum(y)) => values_equal(x, y),
        (AggContext::Count(x), AggContext::Count(y)) => values_equal(x, y),
        (AggContext::Max(x), AggContext::Max(y)) => values_equal(x, y),
        (AggContext::Min(x), AggContext::Min(y)) => values_equal(x, y),
        (AggContext::GroupConcat(x), AggContext::GroupConcat(y)) => values_equal(x, y),
        _ => false,
    }
}

/// Tells whether two byte strings are equal.
fn bytes_equal(x: &Vec<u8>, y: &Vec<u8>) -> (equal: bool)
    ensures
        equal == (x@ == y@),
{
    proof {
        lemma_lexicographic_equal(byte_values(x@), byte_values(y@));
        if byte_values(x@) == byte_values(y@) {
            assert forall|i: int| 0 <= i < x@.len() implies x@[i] == y@[i] by {
                assert(byte_values(x@)[i] == byte_values(y@)[i]);
            }
            assert(byte_values(x@).len() == byte_values(y@).len());
            assert(x@ =~= y@);
        }
    }
    match bytes_order(x, y) {
        Order::Equal => true,
        _ => false,
    }
}

impl PartialEq for OwnedValue {
    fn eq(&self, other: &Self) -> (equal: bool) {
        values_equal(self, other)
    }
}

impl vstd::std_specs::cmp::PartialEqSpecImpl for OwnedValue {
    open spec fn obeys_eq_spec() -> bool {
        true
    }

    open spec fn eq_spec(&self, other: &Self) -> bool {
        same_value(self@, other@)
    }
}

impl PartialEq for OwnedRecord {
    fn eq(&self, other: &Self) -> (equal: bool) {
        lists_equal(&self.values, &other.values)
    }
}

impl vstd::std_specs::cmp::PartialEqSpecImpl for OwnedRecord {
    open spec fn obeys_eq_spec() -> bool {
        true
    }

    open spec fn eq_spec(&self, other: &Self) -> bool {
        same_value(ValueView::Record(self@), ValueView::Record(other@))
    }
}

/// How two values stand to each other in the order of values.
#[derive(Clone, Copy, Debug, PartialEq, Eq, Structural)]
pub enum Ranking {
    /// They stand in this order.
    Ordered(Order),
    /// One of them is a floating-point value that is not a number.
    Unordered,
    /// The order is not defined for values of these kinds.
    Undefined,
}

impl Ranking {
    /// The ranking for an order that exists between numbers only.
    pub open spec fn of(order: Option<Order>) -> Ranking {
        match order {
            Some(o) => Ranking::Ordered(o),
            None => Ranking::Unordered,
        }
    }

    /// The same ranking, seen from the other side.
    pub open spec fn reversed(self) -> Ranking {
        match self {
            Ranking::Ordered(o) => Ranking::Ordered(o.reversed()),
            _ => self,
        }
    }
}

/// The order of an integer and a double: the integer is taken as the double nearest to it.
pub open spec fn integer_real_order(i: i64, bits: u64) -> Option<Order> {
    if is_nan(bits) {
        None
    } else {
        Some(int_order(integer_numeric(i as int), numeric(bits)))
    }
}

/// The order of a double and an integer.
pub open spec fn real_integer_order(bits: u64, i: i64) -> Option<Order> {
    if is_nan(bits) {
        None
    } else {
        Some(int_order(numeric(bits), integer_numeric(i as int)))
    }
}

/// The order of values: numbers come before text, text before byte strings. Numbers are ordered by
/// what they stand for, text by its code points, byte strings by their bytes.
pub open spec fn ranking(a: ValueView, b: ValueView) -> Ranking {
    match (a, b) {
        (ValueView::Integer(x), ValueView::Integer(y)) => Ranking::Ordered(
            int_order(x as int, y as int),
        ),
        (ValueView::Integer(x), ValueView::Float(y)) => Ranking::of(integer_real_order(x, y.bits)),
        (ValueView::Float(x), ValueView::Integer(y)) => Ranking::of(real_integer_order(x.bits, y)),
        (ValueView::Float(x), ValueView::Float(y)) => Ranking::of(real_order(x.bits, y.bits)),
        (ValueView::Integer(_) | ValueView::Float(_), ValueView::Text(_) | ValueView::Blob(_)) =>
            Ranking::Ordered(Order::Less),
        (ValueView::Text(_) | ValueView::Blob(_), ValueView::Integer(_) | ValueView::Float(_)) =>
            Ranking::Ordered(Order::Greater),
        (ValueView::Text(x), ValueView::Text(y)) => Ranking::Ordered(
            lexicographic(code_points(x), code_points(y)),
        ),
        (ValueView::Text(_), ValueView::Blob(_)) => Ranking::Ordered(Order::Less),
        (ValueView::Blob(_), ValueView::Text(_)) => Ranking::Ordered(Order::Greater),
        (ValueView::Blob(x), ValueView::Blob(y)) => Ranking::Ordered(
            lexicographic(byte_values(x), byte_values(y)),
        ),
        _ => Ranking::Undefined,
    }
}

/// The ranking for an order that exists between numbers only.
fn ranking_of(order: Option<Order>) -> (r: Ranking)
    ensures
        r == Ranking::of(order),
{
    match order {
        Some(o) => Ranking::Ordered(o),
        None => Ranking::Unordered,
    }
}

/// How two values stand to each other in the order of values.
pub fn rank(a: &OwnedValue, b: &OwnedValue) -> (r: Ranking)
    ensures
        r == ranking(a@, b@),
{
    match (a, b) {
        (OwnedValue::Integer(x), OwnedValue::Integer(y)) => Ranking::Ordered(
            if *x < *y {
                Order::Less
            } else if *x == *y {
                Order::Equal
            } else {
                Order::Greater
            },
        ),
        (OwnedValue::Integer(x), OwnedValue::Float(y)) => ranking_of(
            order_bits(integer_bits(*x), y.bits),
        ),
        (OwnedValue::Float(x), OwnedValue::Integer(y)) => ranking_of(
            order_bits(x.bits, integer_bits(*y)),
        ),
        (OwnedValue::Float(x), OwnedValue::Float(y)) => ranking_of(order_bits(x.bits, y.bits)),
        (OwnedValue::Integer(_) | OwnedValue::Float(_), OwnedValue::Text(_) | OwnedValue::Blob(_)) =>
            Ranking::Ordered(Order::Less),
        (OwnedValue::Text(_) | OwnedValue::Blob(_), OwnedValue::Integer(_) | OwnedValue::Float(_)) =>
            Ranking::Ordered(Order::Greater),
        (OwnedValue::Text(x), OwnedValue::Text(y)) => Ranking::Ordered(
            text_order(x.as_str(), y.as_str()),
        ),
        (OwnedValue::Text(_), OwnedValue::Blob(_)) => Ranking::Ordered(Order::Less),
        (OwnedValue::Blob(_), OwnedValue::Text(_)) => Ranking::Ordered(Order::Greater),
        (OwnedValue::Blob(x), OwnedValue::Blob(y)) => Ranking::Ordered(bytes_order(&**x, &**y)),
        _ => Ranking::Undefined,
    }
}

/// Seen from the other side, the order of two values is reversed.
pub proof fn law_ranking_reversed(a: ValueView, b: ValueView)
    ensures
        ranking(b, a) == ranking(a, b).reversed(),
{
    match (a, b) {
        (ValueView::Text(x), ValueView::Text(y)) => {
            lemma_lexicographic_reversed(code_points(x), code_points(y));
        },
        (ValueView::Blob(x), ValueView::Blob(y)) => {
            lemma_lexicographic_reversed(byte_values(x), byte_values(y));
        },
        _ => {},
    }
}

/// Values of the same kind, for which an order is defined, are equal just where neither comes
/// before the other.
pub proof fn law_ranking_equal(a: ValueView, b: ValueView)
    requires
        match (a, b) {
            (ValueView::Integer(_), ValueView::Integer(_)) => true,
            (ValueView::Float(_), ValueView::Float(_)) => true,
            (ValueView::Text(_), ValueView::Text(_)) => true,
            (ValueView::Blob(_), ValueView::Blob(_)) => true,
            _ => false,
        },
    ensures
        ranking(a, b) == Ranking::Ordered(Order::Equal) <==> same_value(a, b),
{
    match (a, b) {
        (ValueView::Text(x), ValueView::Text(y)) => {
            let (s, t) = (code_points(x), code_points(y));
            lemma_lexicographic_equal(s, t);
            if s == t {
                assert(s.len() == t.len());
                assert forall|i: int| 0 <= i < x.len() implies x[i] == y[i] by {
                    assert(s[i] == t[i]);
                }
                assert(x =~= y);
            }
        },
        (ValueView::Blob(x), ValueView::Blob(y)) => {
            let (s, t) = (byte_values(x), byte_values(y));
            lemma_lexicographic_equal(s, t);
            if s == t {
                assert(s.len() == t.len());
                assert forall|i: int| 0 <= i < x.len() implies x[i] == y[i] by {
                    assert(s[i] == t[i]);
                }
                assert(x =~= y);
            }
        },
        _ => {},
    }
}

/// Text is ordered by the code points of its characters, from the first one on: the first character
/// in which two texts differ decides, and a text comes before those that it begins.
pub proof fn law_order_of_text(a: Seq<char>, b: Seq<char>, k: int)
    requires
        0 <= k <= a.len(),
        k <= b.len(),
        forall|i: int| 0 <= i < k ==> a[i] == b[i],
    ensures
        ({
            let order = ranking(ValueView::Text(a), ValueView::Text(b));
            &&& k < a.len() && k < b.len() && (a[k] as int) < (b[k] as int) ==> order
                == Ranking::Ordered(Order::Less)
            &&& k < a.len() && k < b.len() && (a[k] as int) > (b[k] as int) ==> order
                == Ranking::Ordered(Order::Greater)
            &&& k == a.len() && k < b.len() ==> order == Ranking::Ordered(Order::Less)
            &&& k == b.len() && k < a.len() ==> order == Ranking::Ordered(Order::Greater)
            &&& k == a.len() && k == b.len() ==> order == Ranking::Ordered(Order::Equal)
        }),
{
    let (s, t) = (code_points(a), code_points(b));
    assert forall|i: int| 0 <= i < k implies s[i] == t[i] by {
        assert(a[i] == b[i]);
    }
    law_first_difference_decides(s, t, k);
}

/// Byte strings are ordered by their bytes, from the first one on.
pub proof fn law_order_of_blobs(a: Seq<u8>, b: Seq<u8>, k: int)
    requires
        0 <= k <= a.len(),
        k <= b.len(),
        forall|i: int| 0 <= i < k ==> a[i] == b[i],
    ensures
        ({
            let order = ranking(ValueView::Blob(a), ValueView::Blob(b));
            &&& k < a.len() && k < b.len() && a[k] < b[k] ==> order == Ranking::Ordered(Order::Less)
            &&& k < a.len() && k < b.len() && a[k] > b[k] ==> order == Ranking::Ordered(
                Order::Greater,
            )
            &&& k == a.len() && k < b.len() ==> order == Ranking::Ordered(Order::Less)
            &&& k == b.len() && k < a.len() ==> order == Ranking::Ordered(Order::Greater)
            &&& k == a.len() && k == b.len() ==> order == Ranking::Ordered(Order::Equal)
        }),
{
    let (s, t) = (byte_values(a), byte_values(b));
    assert forall|i: int| 0 <= i < k implies s[i] == t[i] by {
        assert(a[i] == b[i]);
    }
    law_first_difference_decides(s, t, k);
}

/// Numbers are ordered by what they stand for, be they integers or floats; a float that is not a
/// number has no place among them.
pub proof fn law_order_of_numbers(x: i64, y: i64, c: DoubleView, d: DoubleView)
    ensures
        x < y ==> ranking(ValueView::Integer(x), ValueView::Integer(y)) == Ranking::Ordered(
            Order::Less,
        ),
        x == y ==> ranking(ValueView::Integer(x), ValueView::Integer(y)) == Ranking::Ordered(
            Order::Equal,
        ),
        x > y ==> ranking(ValueView::Integer(x), ValueView::Integer(y)) == Ranking::Ordered(
            Order::Greater,
        ),
        is_nan(c.bits) || is_nan(d.bits) ==> ranking(ValueView::Float(c), ValueView::Float(d))
            is Unordered,
        !is_nan(c.bits) && !is_nan(d.bits) ==> ({
            let order = ranking(ValueView::Float(c), ValueView::Float(d));
            &&& numeric(c.bits) < numeric(d.bits) ==> order == Ranking::Ordered(Order::Less)
            &&& numeric(c.bits) == numeric(d.bits) ==> order == Ranking::Ordered(Order::Equal)
            &&& numeric(c.bits) > numeric(d.bits) ==> order == Ranking::Ordered(Order::Greater)
        }),
        is_nan(d.bits) ==> ranking(ValueView::Integer(x), ValueView::Float(d)) is Unordered
            && ranking(ValueView::Float(d), ValueView::Integer(x)) is Unordered,
        is_nearest(c.bits, x as int) ==> ranking(ValueView::Integer(x), ValueView::Float(d))
            == ranking(ValueView::Float(c), ValueView::Float(d)) && ranking(
            ValueView::Float(d),
            ValueView::Integer(x),
        ) == ranking(ValueView::Float(d), ValueView::Float(c)),
{
}

/// Every number comes before every text, and every text before every byte string.
pub proof fn law_order_of_kinds(n: ValueView, t: Seq<char>, b: Seq<u8>)
    requires
        n is Integer || n is Float,
    ensures
        ranking(n, ValueView::Text(t)) == Ranking::Ordered(Order::Less),
        ranking(ValueView::Text(t), n) == Ranking::Ordered(Order::Greater),
        ranking(n, ValueView::Blob(b)) == Ranking::Ordered(Order::Less),
        ranking(ValueView::Blob(b), n) == Ranking::Ordered(Order::Greater),
        ranking(ValueView::Text(t), ValueView::Blob(b)) == Ranking::Ordered(Order::Less),
        ranking(ValueView::Blob(b), ValueView::Text(t)) == Ranking::Ordered(Order::Greater),
{
}

/// The order carries on: what comes before a text that comes before another comes before that too.
pub proof fn law_order_of_text_carries_on(a: Seq<char>, b: Seq<char>, c: Seq<char>)
    requires
        ranking(ValueView::Text(a), ValueView::Text(b)) == Ranking::Ordered(Order::Less),
        ranking(ValueView::Text(b), ValueView::Text(c)) == Ranking::Ordered(Order::Less),
    ensures
        ranking(ValueView::Text(a), ValueView::Text(c)) == Ranking::Ordered(Order::Less),
{
    lemma_lexicographic_carries_on(code_points(a), code_points(b), code_points(c));
}

/// The lexicographic order carries on.
proof fn lemma_lexicographic_carries_on(a: Seq<int>, b: Seq<int>, c: Seq<int>)
    requires
        lexicographic(a, b) is Less,
        lexicographic(b, c) is Less,
    ensures
        lexicographic(a, c) is Less,
    decreases a.len(),
{
    if a.len() > 0 && b.len() > 0 && c.len() > 0 && a[0] == b[0] && b[0] == c[0] {
        lemma_lexicographic_carries_on(a.drop_first(), b.drop_first(), c.drop_first());
    }
}

/// When two values are equal, kind by kind: the same integer, the same text, the same bytes, floats
/// that stand for the same number. Values of different kinds never are, and NULL is equal to
/// itself.
pub proof fn law_equal_values(a: ValueView, b: ValueView)
    ensures
        match (a, b) {
            (ValueView::Null, ValueView::Null) => same_value(a, b),
            (ValueView::Integer(x), ValueView::Integer(y)) => same_value(a, b) <==> x == y,
            (ValueView::Text(x), ValueView::Text(y)) => same_value(a, b) <==> x == y,
            (ValueView::Blob(x), ValueView::Blob(y)) => same_value(a, b) <==> x == y,
            (ValueView::Float(x), ValueView::Float(y)) => same_value(a, b) <==> !is_nan(x.bits)
                && !is_nan(y.bits) && numeric(x.bits) == numeric(y.bits),
            (ValueView::Record(x), ValueView::Record(y)) => {
                &&& same_value(a, b) ==> x.len() == y.len()
                &&& same_value(a, b) ==> forall|i: int|
                    0 <= i < x.len() ==> same_value(#[trigger] x[i], y[i])
                &&& x.len() == y.len() && (forall|i: int|
                    0 <= i < x.len() ==> same_value(#[trigger] x[i], y[i])) ==> same_value(a, b)
            },
            (ValueView::Agg(_), ValueView::Agg(_)) => true,
            _ => !same_value(a, b),
        },
{
}

/// There is no order for NULL, for aggregates and for rows.
pub proof fn law_order_of_others(a: ValueView, b: ValueView)
    requires
        a is Null || a is Agg || a is Record || b is Null || b is Agg || b is Record,
    ensures
        ranking(a, b) is Undefined,
{
}

/// Two aggregates are equal just where they are of the same kind and hold equal values.
pub proof fn law_equal_aggregates(a: AggView, b: AggView)
    ensures
        ({
            let equal = same_value(ValueView::Agg(Box::new(a)), ValueView::Agg(Box::new(b)));
            match (a, b) {
                (AggView::Avg(x, m), AggView::Avg(y, n)) => equal <==> same_value(x, y)
                    && same_value(m, n),
                (AggView::Sum(x), AggView::Sum(y)) => equal <==> same_value(x, y),
                (AggView::Count(x), AggView::Count(y)) => equal <==> same_value(x, y),
                (AggView::Max(x), AggView::Max(y)) => equal <==> same_value(x, y),
                (AggView::Min(x), AggView::Min(y)) => equal <==> same_value(x, y),
                (AggView::GroupConcat(x), AggView::GroupConcat(y)) => equal <==> same_value(x, y),
                _ => !equal,
            }
        }),
{
    reveal_with_fuel(same_value, 3);
    reveal_with_fuel(same_agg, 3);
}

} // verus!
