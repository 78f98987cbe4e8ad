//! Aggregate functions: how a row's value is taken into an aggregate, and what the aggregate is at
//! the end.

use std::rc::Rc;
use vstd::prelude::*;
use vstd::string::*;
use crate::arith::{
    add_values, divide_values, quotient_of, sum_of, Computed, ComputedView, Number, NumberView,
};
use crate::double::{order_bits, real_order, Double, DoubleView};
use crate::function::AggFunc;
use crate::print::shown;
use crate::protocol::{Reply, ReplyView, Request, RequestView, StepError};
use crate::text::Order;
use crate::value::{
    agg_view, option_ref_view, value_view, AggContext, AggView, OwnedValue, ValueView,
};

verus! {

/// What comes of an operation on an aggregate.
#[derive(Debug)]
pub enum Fed {
    /// This value.
    Value(OwnedValue),
    /// The host has to compute something first.
    Ask(Request),
    /// The operation cannot be done.
    Error(StepError),
}

/// What a `Fed` holds.
pub enum FedView {
    Value(ValueView),
    Ask(RequestView),
    Error(StepError),
}

impl View for Fed {
    type V = FedView;

    open spec fn view(&self) -> FedView {
        match *self {
            Fed::Value(v) => FedView::Value(v@),
            Fed::Ask(q) => FedView::Ask(q@),
            Fed::Error(e) => FedView::Error(e),
        }
    }
}

/// An aggregate as a value.
pub open spec fn agg_value(a: AggView) -> ValueView {
    ValueView::Agg(Box::new(a))
}

/// The sum of two values, with the host's reply where the host has to add.
pub open spec fn settled_sum(a: ValueView, b: ValueView, reply: ReplyView) -> FedView {
    match sum_of(a, b) {
        ComputedView::Value(v) => if reply is Nothing {
            FedView::Value(v)
        } else {
            FedView::Error(StepError::BadReply)
        },
        ComputedView::Host(x, y) => match reply {
            ReplyView::Nothing => FedView::Ask(RequestView::Add(x, y)),
            ReplyView::Float(d) => FedView::Value(ValueView::Float(d)),
            _ => FedView::Error(StepError::BadReply),
        },
        ComputedView::Undefined => FedView::Error(StepError::Fault),
    }
}

/// The quotient of two values, with the host's reply where the host has to divide.
pub open spec fn settled_quotient(a: ValueView, b: ValueView, reply: ReplyView) -> FedView {
    match quotient_of(a, b) {
        ComputedView::Value(v) => if reply is Nothing {
            FedView::Value(v)
        } else {
            FedView::Error(StepError::BadReply)
        },
        ComputedView::Host(x, y) => match reply {
            ReplyView::Nothing => FedView::Ask(RequestView::Divide(x, y)),
            ReplyView::Float(d) => FedView::Value(ValueView::Float(d)),
            _ => FedView::Error(StepError::BadReply),
        },
        ComputedView::Undefined => FedView::Error(StepError::Fault),
    }
}

/// A number as an operand of floating-point arithmetic.
pub open spec fn number_of(v: ValueView) -> Option<NumberView> {
    match v {
        ValueView::Integer(i) => Some(NumberView::Integer(i)),
        ValueView::Float(d) => Some(NumberView::Float(d)),
        _ => None,
    }
}

/// The sum of three values, from left to right, with the host's reply where the host has to add.
pub open spec fn settled_sum_of_three(
    a: ValueView,
    b: ValueView,
    c: ValueView,
    reply: ReplyView,
) -> FedView {
    match sum_of(a, b) {
        ComputedView::Value(v) => settled_sum(v, c, reply),
        ComputedView::Host(x, y) => match number_of(c) {
            Some(z) => match reply {
                ReplyView::Nothing => FedView::Ask(RequestView::AddThree(x, y, z)),
                ReplyView::Float(d) => FedView::Value(ValueView::Float(d)),
                _ => FedView::Error(StepError::BadReply),
            },
            None => match reply {
                ReplyView::Nothing => FedView::Ask(RequestView::Add(x, y)),
                ReplyView::Float(d) => settled_sum(ValueView::Float(d), c, ReplyView::Nothing),
                _ => FedView::Error(StepError::BadReply),
            },
        },
        ComputedView::Undefined => FedView::Error(StepError::Fault),
    }
}

/// The aggregate before its first row; none where the first value is not one that the function
/// takes.
pub open spec fn agg_start(func: AggFunc, col: Option<ValueView>) -> Option<AggView> {
    match func {
        AggFunc::Avg => Some(
            AggView::Avg(ValueView::Float(DoubleView::zero()), ValueView::Integer(0)),
        ),
        AggFunc::Sum => Some(AggView::Sum(ValueView::Null)),
        AggFunc::Total => Some(AggView::Sum(ValueView::Float(DoubleView::zero()))),
        AggFunc::Count => Some(AggView::Count(ValueView::Integer(0))),
        AggFunc::Max => match col {
            Some(ValueView::Integer(_)) => Some(AggView::Max(ValueView::Integer(i64::MIN))),
            Some(ValueView::Float(_)) => Some(
                AggView::Max(ValueView::Float(DoubleView::minus_infinity())),
            ),
            _ => None,
        },
        AggFunc::Min => match col {
            Some(ValueView::Integer(_)) => Some(AggView::Min(ValueView::Integer(i64::MAX))),
            Some(ValueView::Float(_)) => Some(
                AggView::Min(ValueView::Float(DoubleView::infinity())),
            ),
            _ => None,
        },
        AggFunc::GroupConcat | AggFunc::StringAgg => Some(
            AggView::GroupConcat(ValueView::Text(""@)),
        ),
    }
}

/// The greater of two values of the same kind of number; the first one for other values.
pub open spec fn greater_value(a: ValueView, b: ValueView) -> ValueView {
    match (a, b) {
        (ValueView::Integer(x), ValueView::Integer(y)) => if y > x {
            b
        } else {
            a
        },
        (ValueView::Float(x), ValueView::Float(y)) => if real_order(y.bits, x.bits) == Some(
            Order::Greater,
        ) {
            b
        } else {
            a
        },
        _ => a,
    }
}

/// The lesser of two values of the same kind of number; the first one for other values.
pub open spec fn lesser_value(a: ValueView, b: ValueView) -> ValueView {
    match (a, b) {
        (ValueView::Integer(x), ValueView::Integer(y)) => if y < x {
            b
        } else {
            a
        },
        (ValueView::Float(x), ValueView::Float(y)) => if real_order(y.bits, x.bits) == Some(
            Order::Less,
        ) {
            b
        } else {
            a
        },
        _ => a,
    }
}

/// Tells whether a maximum or minimum meets a value of another kind than it has: one that is left
/// out of it.
pub open spec fn mixed_kinds(func: AggFunc, a: AggView, col: ValueView) -> bool {
    match (func, a) {
        (AggFunc::Max, AggView::Max(m)) => !same_number_kind(m, col),
        (AggFunc::Min, AggView::Min(m)) => !same_number_kind(m, col),
        _ => false,
    }
}

/// Tells whether two values are two integers or two floats.
pub open spec fn same_number_kind(a: ValueView, b: ValueView) -> bool {
    (a is Integer && b is Integer) || (a is Float && b is Float)
}

/// The counter `count` after one row more.
pub open spec fn counted(count: ValueView) -> Option<ValueView> {
    match count {
        ValueView::Integer(n) => if n < i64::MAX {
            Some(ValueView::Integer((n + 1) as i64))
        } else {
            None
        },
        _ => None,
    }
}

/// The aggregate `a` after one row more, whose value is `col`. `col` and `delimiter` are missing
/// where there are no such registers.
pub open spec fn agg_feed(
    func: AggFunc,
    a: AggView,
    col: Option<ValueView>,
    delimiter: Option<ValueView>,
    reply: ReplyView,
) -> FedView {
    match (func, a) {
        (AggFunc::Avg, AggView::Avg(sum, count)) => match (col, counted(count)) {
            (Some(v), Some(n)) => match settled_sum(sum, v, reply) {
                FedView::Value(s) => FedView::Value(agg_value(AggView::Avg(s, n))),
                other => other,
            },
            _ => FedView::Error(StepError::Fault),
        },
        (AggFunc::Sum | AggFunc::Total, AggView::Sum(sum)) => match col {
            Some(v) => match settled_sum(sum, v, reply) {
                FedView::Value(s) => FedView::Value(agg_value(AggView::Sum(s))),
                other => other,
            },
            None => FedView::Error(StepError::Fault),
        },
        (AggFunc::Count, AggView::Count(count)) => match counted(count) {
            Some(n) => without_reply(agg_value(AggView::Count(n)), reply),
            None => FedView::Error(StepError::Fault),
        },
        (AggFunc::Max, AggView::Max(m)) => match col {
            Some(v) => without_reply(agg_value(AggView::Max(greater_value(m, v))), reply),
            None => FedView::Error(StepError::Fault),
        },
        (AggFunc::Min, AggView::Min(m)) => match col {
            Some(v) => without_reply(agg_value(AggView::Min(lesser_value(m, v))), reply),
            None => FedView::Error(StepError::Fault),
        },
        (AggFunc::GroupConcat | AggFunc::StringAgg, AggView::GroupConcat(acc)) => match (
            col,
            delimiter,
        ) {
            (Some(v), Some(d)) => if shown(acc).len() == 0 {
                without_reply(agg_value(AggView::GroupConcat(v)), reply)
            } else {
                match settled_sum_of_three(acc, d, v, reply) {
                    FedView::Value(s) => FedView::Value(agg_value(AggView::GroupConcat(s))),
                    other => other,
                }
            },
            _ => FedView::Error(StepError::Fault),
        },
        _ => FedView::Error(StepError::Fault),
    }
}

/// A value that is found without the host's help.
pub open spec fn without_reply(v: ValueView, reply: ReplyView) -> FedView {
    if reply is Nothing {
        FedView::Value(v)
    } else {
        FedView::Error(StepError::BadReply)
    }
}

/// The aggregate that a register holds. A register that holds NULL has seen no row yet: its
/// aggregate starts with the row whose value is `col`.
pub open spec fn agg_begin(
    func: AggFunc,
    acc: ValueView,
    col: Option<ValueView>,
) -> Option<AggView> {
    match acc {
        ValueView::Null => agg_start(func, col),
        ValueView::Agg(a) => Some(*a),
        _ => None,
    }
}

/// The value of an aggregate's register after one row more.
pub open spec fn agg_step(
    func: AggFunc,
    acc: ValueView,
    col: Option<ValueView>,
    delimiter: Option<ValueView>,
    reply: ReplyView,
) -> FedView {
    match agg_begin(func, acc, col) {
        Some(a) => agg_feed(func, a, col, delimiter, reply),
        None => FedView::Error(StepError::Fault),
    }
}

/// The value of an aggregate's register at the end. Without a row, a total and a count are zero and
/// any other aggregate is NULL.
pub open spec fn agg_final(func: AggFunc, acc: ValueView, reply: ReplyView) -> FedView {
    match acc {
        ValueView::Agg(a) => match func {
            AggFunc::Avg => match *a {
                AggView::Avg(sum, count) => match settled_quotient(sum, count, reply) {
                    FedView::Value(q) => FedView::Value(agg_value(AggView::Avg(q, count))),
                    other => other,
                },
                _ => FedView::Error(StepError::Fault),
            },
            _ => without_reply(acc, reply),
        },
        ValueView::Null => without_reply(
            match func {
                AggFunc::Total => ValueView::Float(DoubleView::zero()),
                AggFunc::Count => ValueView::Integer(0),
                _ => ValueView::Null,
            },
            reply,
        ),
        _ => FedView::Error(StepError::Fault),
    }
}

/// An aggregate as a value.
fn to_value(a: AggContext) -> (v: OwnedValue)
    ensures
        v@ == agg_value(a@),
{
    proof {
        reveal_with_fuel(value_view, 2);
    }
    OwnedValue::Agg(Box::new(a))
}

/// A value that is found without the host's help.
fn free_of_reply(v: OwnedValue, reply: &Reply) -> (f: Fed)
    ensures
        f@ == without_reply(v@, reply@),
{
    match reply {
        Reply::Nothing => Fed::Value(v),
        _ => Fed::Error(StepError::BadReply),
    }
}

/// The sum of two values, with the host's reply where the host has to add.
fn settle_sum(a: &OwnedValue, b: &OwnedValue, reply: Reply) -> (f: Fed)
    ensures
        f@ == settled_sum(a@, b@, reply@),
{
    match add_values(a, b) {
        Computed::Value(v) => match reply {
            Reply::Nothing => Fed::Value(v),
            _ => Fed::Error(StepError::BadReply),
        },
        Computed::Host(x, y) => match reply {
            Reply::Nothing => Fed::Ask(Request::Add(x, y)),
            Reply::Float(d) => Fed::Value(OwnedValue::Float(d)),
            _ => Fed::Error(StepError::BadReply),
        },
        Computed::Undefined => Fed::Error(StepError::Fault),
    }
}

/// The quotient of two values, with the host's reply where the host has to divide.
fn settle_quotient(a: &OwnedValue, b: &OwnedValue, reply: Reply) -> (f: Fed)
    ensures
        f@ == settled_quotient(a@, b@, reply@),
{
    match divide_values(a, b) {
        Computed::Value(v) => match reply {
            Reply::Nothing => Fed::Value(v),
            _ => Fed::Error(StepError::BadReply),
        },
        Computed::Host(x, y) => match reply {
            Reply::Nothing => Fed::Ask(Request::Divide(x, y)),
            Reply::Float(d) => Fed::Value(OwnedValue::Float(d)),
            _ => Fed::Error(StepError::BadReply),
        },
        Computed::Undefined => Fed::Error(StepError::Fault),
    }
}

/// A number as an operand of floating-point arithmetic.
fn to_number(v: &OwnedValue) -> (n: Option<Number>)
    ensures
        match n {
            Some(x) => number_of(v@) == Some(x@),
            None => number_of(v@) is None,
        },
{
    match v {
        OwnedValue::Integer(i) => Some(Number::Integer(*i)),
        OwnedValue::Float(d) => Some(Number::Float(d.clone())),
        _ => None,
    }
}

/// The sum of three values, from left to right, with the host's reply where the host has to add.
fn settle_sum_of_three(a: &OwnedValue, b: &OwnedValue, c: &OwnedValue, reply: Reply) -> (f: Fed)
    ensures
        f@ == settled_sum_of_three(a@, b@, c@, reply@),
{
    match add_values(a, b) {
        Computed::Value(v) => settle_sum(&v, c, reply),
        Computed::Host(x, y) => match to_number(c) {
            Some(z) => match reply {
                Reply::Nothing => Fed::Ask(Request::AddThree(x, y, z)),
                Reply::Float(d) => Fed::Value(OwnedValue::Float(d)),
                _ => Fed::Error(StepError::BadReply),
            },
            None => match reply {
                Reply::Nothing => Fed::Ask(Request::Add(x, y)),
                Reply::Float(d) => {
                    let sum = OwnedValue::Float(d);
                    settle_sum(&sum, c, Reply::Nothing)
                },
                _ => Fed::Error(StepError::BadReply),
            },
        },
        Computed::Undefined => Fed::Error(StepError::Fault),
    }
}

/// The aggregate before its first row.
fn start(func: AggFunc, col: Option<&OwnedValue>) -> (a: Option<AggContext>)
    ensures
        match a {
            Some(x) => agg_start(func, option_ref_view(col)) == Some(x@),
            None => agg_start(func, option_ref_view(col)) is None,
        },
{
    proof {
        reveal_with_fuel(value_view, 2);
        reveal_with_fuel(agg_view, 2);
    }
    match func {
        AggFunc::Avg => Some(
            AggContext::Avg(OwnedValue::Float(Double::zero()), OwnedValue::Integer(0)),
        ),
        AggFunc::Sum => Some(AggContext::Sum(OwnedValue::Null)),
        AggFunc::Total => Some(AggContext::Sum(OwnedValue::Float(Double::zero()))),
        AggFunc::Count => Some(AggContext::Count(OwnedValue::Integer(0))),
        AggFunc::Max => match col {
            Some(OwnedValue::Integer(_)) => Some(AggContext::Max(OwnedValue::Integer(i64::MIN))),
            Some(OwnedValue::Float(_)) => Some(
                AggContext::Max(OwnedValue::Float(Double::minus_infinity())),
            ),
            _ => None,
        },
        AggFunc::Min => match col {
            Some(OwnedValue::Integer(_)) => Some(AggContext::Min(OwnedValue::Integer(i64::MAX))),
            Some(OwnedValue::Float(_)) => Some(
                AggContext::Min(OwnedValue::Float(Double::infinity())),
            ),
            _ => None,
        },
        AggFunc::GroupConcat | AggFunc::StringAgg => Some(
            AggContext::GroupConcat(OwnedValue::Text(Rc::new("".to_owned()))),
        ),
    }
}

/// The greater of two values of the same kind of number.
fn greater(a: &OwnedValue, b: &OwnedValue) -> (v: OwnedValue)
    ensures
        v@ == greater_value(a@, b@),
{
    let take: bool = match (a, b) {
        (OwnedValue::Integer(x), OwnedValue::Integer(y)) => *y > *x,
        (OwnedValue::Float(x), OwnedValue::Float(y)) => match order_bits(y.bits, x.bits) {
            Some(Order::Greater) => true,
            _ => false,
        },
        _ => false,
    };
    if take {
        b.clone()
    } else {
        a.clone()
    }
}

/// The lesser of two values of the same kind of number.
fn lesser(a: &OwnedValue, b: &OwnedValue) -> (v: OwnedValue)
    ensures
        v@ == lesser_value(a@, b@),
{
    let take: bool = match (a, b) {
        (OwnedValue::Integer(x), OwnedValue::Integer(y)) => *y < *x,
        (OwnedValue::Float(x), OwnedValue::Float(y)) => match order_bits(y.bits, x.bits) {
            Some(Order::Less) => true,
            _ => false,
        },
        _ => false,
    };
    if take {
        b.clone()
    } else {
        a.clone()
    }
}

/// Tells whether two values are two integers or two floats.
fn of_one_kind(a: &OwnedValue, b: &OwnedValue) -> (same: bool)
    ensures
        same == same_number_kind(a@, b@),
{
    match (a, b) {
        (OwnedValue::Integer(_), OwnedValue::Integer(_)) => true,
        (OwnedValue::Float(_), OwnedValue::Float(_)) => true,
        _ => false,
    }
}

/// Tells whether a maximum or minimum meets a value of another kind than it has.
pub fn meets_mixed_kinds(func: AggFunc, a: &AggContext, col: &OwnedValue) -> (mixed: bool)
    ensures
        mixed == mixed_kinds(func, a@, col@),
{
    proof {
        reveal_with_fuel(agg_view, 2);
    }
    match (func, a) {
        (AggFunc::Max, AggContext::Max(m)) => !of_one_kind(m, col),
        (AggFunc::Min, AggContext::Min(m)) => !of_one_kind(m, col),
        _ => false,
    }
}

/// The counter `count` after one row more.
fn count_on(count: &OwnedValue) -> (n: Option<OwnedValue>)
    ensures
        match n {
            Some(x) => counted(count@) == Some(x@),
            None => counted(count@) is None,
        },
{
    match count {
        OwnedValue::Integer(n) => if *n < i64::MAX {
            Some(OwnedValue::Integer(*n + 1))
        } else {
            None
        },
        _ => None,
    }
}

/// The aggregate `a` after one row more.
pub fn feed_aggregate(
    func: AggFunc,
    a: &AggContext,
    col: Option<&OwnedValue>,
    delimiter: Option<&OwnedValue>,
    reply: Reply,
) -> (f: Fed)
    ensures
        f@ == agg_feed(func, a@, option_ref_view(col), option_ref_view(delimiter), reply@),
{
    proof {
        reveal_with_fuel(agg_view, 2);
    }
    match (func, a) {
        (AggFunc::Avg, AggContext::Avg(sum, count)) => match (col, count_on(count)) {
            (Some(v), Some(n)) => match settle_sum(sum, v, reply) {
                Fed::Value(s) => Fed::Value(to_value(AggContext::Avg(s, n))),
                other => other,
            },
            _ => Fed::Error(StepError::Fault),
        },
        (AggFunc::Sum | AggFunc::Total, AggContext::Sum(sum)) => match col {
            Some(v) => match settle_sum(sum, v, reply) {
                Fed::Value(s) => Fed::Value(to_value(AggContext::Sum(s))),
                other => other,
            },
            None => Fed::Error(StepError::Fault),
        },
        (AggFunc::Count, AggContext::Count(count)) => match count_on(count) {
            Some(n) => free_of_reply(to_value(AggContext::Count(n)), &reply),
            None => Fed::Error(StepError::Fault),
        },
        (AggFunc::Max, AggContext::Max(m)) => match col {
            Some(v) => free_of_reply(to_value(AggContext::Max(greater(m, v))), &reply),
            None => Fed::Error(StepError::Fault),
        },
        (AggFunc::Min, AggContext::Min(m)) => match col {
            Some(v) => free_of_reply(to_value(AggContext::Min(lesser(m, v))), &reply),
            None => Fed::Error(StepError::Fault),
        },
        (AggFunc::GroupConcat | AggFunc::StringAgg, AggContext::GroupConcat(acc)) => match (
            col,
            delimiter,
        ) {
            (Some(v), Some(d)) => if acc.to_text().as_str().is_empty() {
                free_of_reply(to_value(AggContext::GroupConcat(v.clone())), &reply)
            } else {
                match settle_sum_of_three(acc, d, v, reply) {
                    Fed::Value(s) => Fed::Value(to_value(AggContext::GroupConcat(s))),
                    other => other,
                }
            },
            _ => Fed::Error(StepError::Fault),
        },
        _ => Fed::Error(StepError::Fault),
    }
}

/// The aggregate that a register holds, or with which it starts.
pub fn begin_aggregate(func: AggFunc, acc: &OwnedValue, col: Option<&OwnedValue>) -> (a: Option<
    AggContext,
>)
    ensures
        match a {
            Some(x) => agg_begin(func, acc@, option_ref_view(col)) == Some(x@),
            None => agg_begin(func, acc@, option_ref_view(col)) is None,
        },
{
    match acc {
        OwnedValue::Null => start(func, col),
        OwnedValue::Agg(a) => Some((**a).clone()),
        _ => None,
    }
}

/// The value of an aggregate's register at the end.
pub fn finish_aggregate(func: AggFunc, acc: &OwnedValue, reply: Reply) -> (f: Fed)
    ensures
        f@ == agg_final(func, acc@, reply@),
{
    proof {
        reveal_with_fuel(value_view, 2);
        reveal_with_fuel(agg_view, 2);
    }
    match acc {
        OwnedValue::Agg(a) => match func {
            AggFunc::Avg => match &**a {
                AggContext::Avg(sum, count) => match settle_quotient(sum, count, reply) {
                    Fed::Value(q) => Fed::Value(to_value(AggContext::Avg(q, count.clone()))),
                    other => other,
                },
                _ => Fed::Error(StepError::Fault),
            },
            _ => free_of_reply(acc.clone(), &reply),
        },
        OwnedValue::Null => free_of_reply(
            match func {
                AggFunc::Total => OwnedValue::Float(Double::zero()),
                AggFunc::Count => OwnedValue::Integer(0),
                _ => OwnedValue::Null,
            },
            &reply,
        ),
        _ => Fed::Error(StepError::Fault),
    }
}

} // verus!
