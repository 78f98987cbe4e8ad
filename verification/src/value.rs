//! The values that registers and rows hold.

use std::rc::Rc;
use vstd::prelude::*;
use vstd::string::*;
use crate::double::{Double, DoubleView};

verus! {

/// A value that a register holds.
#[derive(Debug)]
pub enum OwnedValue {
    Null,
    Integer(i64),
    Float(Double),
    Text(Rc<String>),
    Blob(Rc<Vec<u8>>),
    Agg(Box<AggContext>),
    Record(OwnedRecord),
}

/// The state of an aggregate function between two rows.
#[derive(Debug)]
pub enum AggContext {
    /// The sum so far and the number of rows in it.
    Avg(OwnedValue, OwnedValue),
    Sum(OwnedValue),
    Count(OwnedValue),
    Max(OwnedValue),
    Min(OwnedValue),
    GroupConcat(OwnedValue),
}

/// A row that owns its values.
#[derive(Debug)]
pub struct OwnedRecord {
    pub values: Vec<OwnedValue>,
}

/// A value of a row that is handed out.
#[derive(Debug)]
pub enum Value<'a> {
    Null,
    Integer(i64),
    Float(Double),
    Text(&'a String),
    Blob(&'a Vec<u8>),
}

/// A row that is handed out: it refers to the registers that it was made from.
#[derive(Debug)]
pub struct Record<'a> {
    pub values: Vec<Value<'a>>,
}

/// What an `OwnedValue` holds.
pub enum ValueView {
    Null,
    Integer(i64),
    Float(DoubleView),
    Text(Seq<char>),
    Blob(Seq<u8>),
    Agg(Box<AggView>),
    Record(Seq<ValueView>),
}

/// What an `AggContext` holds.
pub enum AggView {
    Avg(ValueView, ValueView),
    Sum(ValueView),
    Count(ValueView),
    Max(ValueView),
    Min(ValueView),
    GroupConcat(ValueView),
}

/// What a value holds.
pub open spec fn value_view(v: OwnedValue) -> ValueView
    decreases v,
{
    match v {
        OwnedValue::Null => ValueView::Null,
        OwnedValue::Integer(i) => ValueView::Integer(i),
        OwnedValue::Float(d) => ValueView::Float(d@),
        OwnedValue::Text(t) => ValueView::Text(t@),
        OwnedValue::Blob(b) => ValueView::Blob(b@),
        OwnedValue::Agg(a) => ValueView::Agg(Box::new(agg_view(*a))),
        OwnedValue::Record(r) => ValueView::Record(
            Seq::new(
                r.values@.len(),
                |i: int|
                    if 0 <= i < r.values@.len() {
                        value_view(r.values@[i])
                    } else {
                        ValueView::Null
                    },
            ),
        ),
    }
}

/// What an aggregate's state holds.
pub open spec fn agg_view(a: AggContext) -> AggView
    decreases a,
{
    match a {
        AggContext::Avg(sum, count) => AggView::Avg(value_view(sum), value_view(count)),
        AggContext::Sum(v) => AggView::Sum(value_view(v)),
        AggContext::Count(v) => AggView::Count(value_view(v)),
        AggContext::Max(v) => AggView::Max(value_view(v)),
        AggContext::Min(v) => AggView::Min(value_view(v)),
        AggContext::GroupConcat(v) => AggView::GroupConcat(value_view(v)),
    }
}

/// What a value holds, where there is one.
pub open spec fn option_ref_view(v: Option<&OwnedValue>) -> Option<ValueView> {
    match v {
        Some(x) => Some(value_view(*x)),
        None => None,
    }
}

/// What the values of a sequence hold.
pub open spec fn values_view(values: Seq<OwnedValue>) -> Seq<ValueView> {
    Seq::new(values.len(), |i: int| value_view(values[i]))
}

impl View for OwnedValue {
    type V = ValueView;

    open spec fn view(&self) -> ValueView {
        value_view(*self)
    }
}

impl View for AggContext {
    type V = AggView;

    open spec fn view(&self) -> AggView {
        agg_view(*self)
    }
}

impl View for OwnedRecord {
    type V = Seq<ValueView>;

    open spec fn view(&self) -> Seq<ValueView> {
        values_view(self.values@)
    }
}

impl<'a> View for Value<'a> {
    type V = ValueView;

    open spec fn view(&self) -> ValueView {
        match *self {
            Value::Null => ValueView::Null,
            Value::Integer(i) => ValueView::Integer(i),
            Value::Float(d) => ValueView::Float(d@),
            Value::Text(t) => ValueView::Text(t@),
            Value::Blob(b) => ValueView::Blob(b@),
        }
    }
}

impl<'a> View for Record<'a> {
    type V = Seq<ValueView>;

    open spec fn view(&self) -> Seq<ValueView> {
        Seq::new(self.values@.len(), |i: int| self.values@[i]@)
    }
}

/// A record's values are what the record holds.
pub proof fn lemma_record_view(r: OwnedRecord)
    ensures
        value_view(OwnedValue::Record(r)) == ValueView::Record(r@),
{
    assert(value_view(OwnedValue::Record(r))->Record_0 =~= r@);
}

/// A copy of a value.
fn copy_value(v: &OwnedValue) -> (copy: OwnedValue)
    ensures
        copy@ == v@,
    decreases v,
{
    match v {
        OwnedValue::Null => OwnedValue::Null,
        OwnedValue::Integer(i) => OwnedValue::Integer(*i),
        OwnedValue::Float(d) => OwnedValue::Float(d.clone()),
        OwnedValue::Text(t) => OwnedValue::Text(Rc::new((**t).clone())),
        OwnedValue::Blob(b) => OwnedValue::Blob(Rc::new(copy_bytes(&**b))),
        OwnedValue::Agg(a) => OwnedValue::Agg(Box::new(copy_agg(&**a))),
        OwnedValue::Record(r) => {
            let copy = OwnedRecord { values: copy_values(&r.values) };
            proof {
                lemma_record_view(*r);
                lemma_record_view(copy);
            }
            OwnedValue::Record(copy)
        },
    }
}

/// Copies of values.
fn copy_values(values: &Vec<OwnedValue>) -> (copies: Vec<OwnedValue>)
    ensures
        values_view(copies@) == values_view(values@),
    decreases values,
{
    let mut copies: Vec<OwnedValue> = Vec::new();
    let mut i: usize = 0;
    while i < values.len()
        invariant
            i <= values.len(),
            copies@.len() == i,
            forall|j: int| 0 <= j < i ==> (#[trigger] copies@[j])@ == values@[j]@,
        decreases values.len() - i,
    {
        assert(decreases_to!(*values => values[i as int]));
        copies.push(copy_value(&values[i]));
        i = i + 1;
    }
    assert(values_view(copies@) =~= values_view(values@));
    copies
}

/// A copy of an aggregate's state.
fn copy_agg(a: &AggContext) -> (copy: AggContext)
    ensures
        copy@ == a@,
    decreases a,
{
    match a {
        AggContext::Avg(sum, count) => AggContext::Avg(copy_value(sum), copy_value(count)),
        AggContext::Sum(v) => AggContext::Sum(copy_value(v)),
        AggContext::Count(v) => AggContext::Count(copy_value(v)),
        AggContext::Max(v) => AggContext::Max(copy_value(v)),
        AggContext::Min(v) => AggContext::Min(copy_value(v)),
        AggContext::GroupConcat(v) => AggContext::GroupConcat(copy_value(v)),
    }
}

/// A copy of a byte string.
fn copy_bytes(bytes: &Vec<u8>) -> (copy: Vec<u8>)
    ensures
        copy@ == bytes@,
{
    let copy = bytes.clone();
    assert(copy@ =~= bytes@);
    copy
}

impl Clone for OwnedValue {
    fn clone(&self) -> (copy: Self)
        ensures
            copy@ == self@,
    {
        copy_value(self)
    }
}

impl Clone for AggContext {
    fn clone(&self) -> (copy: Self)
        ensures
            copy@ == self@,
    {
        copy_agg(self)
    }
}

impl Clone for OwnedRecord {
    fn clone(&self) -> (copy: Self)
        ensures
            copy@ == self@,
    {
        OwnedRecord { values: copy_values(&self.values) }
    }
}

impl OwnedRecord {
    /// A row of the given values.
    pub fn new(values: Vec<OwnedValue>) -> (record: OwnedRecord)
        ensures
            record@ == values_view(values@),
    {
        OwnedRecord { values }
    }
}

impl<'a> Record<'a> {
    /// A row of the given values.
    pub fn new(values: Vec<Value<'a>>) -> (record: Record<'a>)
        ensures
            record@ == Seq::new(values@.len(), |i: int| values@[i]@),
    {
        Record { values }
    }
}

/// The value that is handed out for a register's value; none for a record. An aggregate shows its
/// result.
pub open spec fn handed_out(v: ValueView) -> Option<ValueView>
    decreases v,
{
    match v {
        ValueView::Agg(a) => match *a {
            AggView::Avg(acc, _) => Some(number_or_zero(acc)),
            AggView::Sum(acc) => Some(number_or_zero(acc)),
            AggView::Count(count) => match count {
                ValueView::Integer(i) => Some(ValueView::Integer(i)),
                _ => Some(ValueView::Integer(0)),
            },
            AggView::Max(v) => Some(number_or_null(v)),
            AggView::Min(v) => Some(number_or_null(v)),
            AggView::GroupConcat(v) => handed_out(v),
        },
        ValueView::Record(_) => None,
        _ => Some(v),
    }
}

/// `v` where it is a number, zero elsewhere.
pub open spec fn number_or_zero(v: ValueView) -> ValueView {
    match v {
        ValueView::Integer(_) | ValueView::Float(_) => v,
        _ => ValueView::Float(DoubleView::zero()),
    }
}

/// `v` where it is a number, NULL elsewhere.
pub open spec fn number_or_null(v: ValueView) -> ValueView {
    match v {
        ValueView::Integer(_) | ValueView::Float(_) => v,
        _ => ValueView::Null,
    }
}

/// The value that is handed out for a register's value; none for a record.
pub fn to_value<'a>(v: &'a OwnedValue) -> (out: Option<Value<'a>>)
    ensures
        match out {
            Some(x) => handed_out(v@) == Some(x@),
            None => handed_out(v@) is None,
        },
    decreases v,
{
    proof {
        reveal_with_fuel(value_view, 3);
        reveal_with_fuel(agg_view, 2);
    }
    match v {
        OwnedValue::Null => Some(Value::Null),
        OwnedValue::Integer(i) => Some(Value::Integer(*i)),
        OwnedValue::Float(d) => Some(Value::Float(d.clone())),
        OwnedValue::Text(t) => Some(Value::Text(&**t)),
        OwnedValue::Blob(b) => Some(Value::Blob(&**b)),
        OwnedValue::Agg(a) => match &**a {
            AggContext::Avg(acc, _) => match acc {
                OwnedValue::Integer(i) => Some(Value::Integer(*i)),
                OwnedValue::Float(d) => Some(Value::Float(d.clone())),
                _ => Some(Value::Float(Double::zero())),
            },
            AggContext::Sum(acc) => match acc {
                OwnedValue::Integer(i) => Some(Value::Integer(*i)),
                OwnedValue::Float(d) => Some(Value::Float(d.clone())),
                _ => Some(Value::Float(Double::zero())),
            },
            AggContext::Count(count) => match count {
                OwnedValue::Integer(i) => Some(Value::Integer(*i)),
                _ => Some(Value::Integer(0)),
            },
            AggContext::Max(m) => match m {
                OwnedValue::Integer(i) => Some(Value::Integer(*i)),
                OwnedValue::Float(d) => Some(Value::Float(d.clone())),
                _ => Some(Value::Null),
            },
            AggContext::Min(m) => match m {
                OwnedValue::Integer(i) => Some(Value::Integer(*i)),
                OwnedValue::Float(d) => Some(Value::Float(d.clone())),
                _ => Some(Value::Null),
            },
            AggContext::GroupConcat(s) => to_value(s),
        },
        OwnedValue::Record(_) => None,
    }
}

/// What a value holds, kind by kind.
pub proof fn law_value_views(
    i: i64,
    d: Double,
    t: Rc<String>,
    b: Rc<Vec<u8>>,
    v: OwnedValue,
    w: OwnedValue,
    r: OwnedRecord,
)
    ensures
        OwnedValue::Null@ == ValueView::Null,
        OwnedValue::Integer(i)@ == ValueView::Integer(i),
        OwnedValue::Float(d)@ == ValueView::Float(
            DoubleView { bits: d.bits, plain: d.plain@, marked: d.marked@ },
        ),
        OwnedValue::Text(t)@ == ValueView::Text(t@),
        OwnedValue::Blob(b)@ == ValueView::Blob(b@),
        OwnedValue::Agg(Box::new(AggContext::Avg(v, w)))@ == ValueView::Agg(
            Box::new(AggView::Avg(v@, w@)),
        ),
        OwnedValue::Agg(Box::new(AggContext::Sum(v)))@ == ValueView::Agg(
            Box::new(AggView::Sum(v@)),
        ),
        OwnedValue::Agg(Box::new(AggContext::Count(v)))@ == ValueView::Agg(
            Box::new(AggView::Count(v@)),
        ),
        OwnedValue::Agg(Box::new(AggContext::Max(v)))@ == ValueView::Agg(
            Box::new(AggView::Max(v@)),
        ),
        OwnedValue::Agg(Box::new(AggContext::Min(v)))@ == ValueView::Agg(
            Box::new(AggView::Min(v@)),
        ),
        OwnedValue::Agg(Box::new(AggContext::GroupConcat(v)))@ == ValueView::Agg(
            Box::new(AggView::GroupConcat(v@)),
        ),
        OwnedValue::Record(r)@ == ValueView::Record(r@),
        r@.len() == r.values@.len(),
        forall|k: int| 0 <= k < r.values@.len() ==> #[trigger] r@[k] == r.values@[k]@,
{
    reveal_with_fuel(value_view, 3);
    reveal_with_fuel(agg_view, 3);
    lemma_record_view(r);
}

/// What is handed out, kind by kind. Values that are no aggregates and no rows are handed out as
/// they are, and rows not at all. An aggregate shows its result: of an average, a sum, a maximum or
/// a minimum the number that it has come to, or what stands for the lack of one; of a count the
/// count.
pub proof fn law_handed_out(v: ValueView, w: ValueView, r: Seq<ValueView>)
    ensures
        !(v is Agg) && !(v is Record) ==> handed_out(v) == Some(v),
        handed_out(ValueView::Record(r)) is None,
        v is Integer || v is Float ==> {
            &&& handed_out(ValueView::Agg(Box::new(AggView::Avg(v, w)))) == Some(v)
            &&& handed_out(ValueView::Agg(Box::new(AggView::Sum(v)))) == Some(v)
            &&& handed_out(ValueView::Agg(Box::new(AggView::Max(v)))) == Some(v)
            &&& handed_out(ValueView::Agg(Box::new(AggView::Min(v)))) == Some(v)
        },
        !(v is Integer) && !(v is Float) ==> {
            let zero = ValueView::Float(DoubleView { bits: 0, plain: "0"@, marked: "0.0"@ });
            &&& handed_out(ValueView::Agg(Box::new(AggView::Avg(v, w)))) == Some(zero)
            &&& handed_out(ValueView::Agg(Box::new(AggView::Sum(v)))) == Some(zero)
            &&& handed_out(ValueView::Agg(Box::new(AggView::Max(v)))) == Some(ValueView::Null)
            &&& handed_out(ValueView::Agg(Box::new(AggView::Min(v)))) == Some(ValueView::Null)
        },
        handed_out(ValueView::Agg(Box::new(AggView::Count(v)))) == Some(
            if v is Integer {
                v
            } else {
                ValueView::Integer(0)
            },
        ),
        handed_out(ValueView::Agg(Box::new(AggView::GroupConcat(v)))) == handed_out(v),
{
    reveal_with_fuel(handed_out, 2);
}

/// What a value and a row that are handed out hold, and a value that may be missing.
pub proof fn law_handed_out_views<'a>(
    i: i64,
    d: Double,
    t: &'a String,
    b: &'a Vec<u8>,
    record: Record<'a>,
    v: OwnedValue,
)
    ensures
        Value::Null@ == ValueView::Null,
        Value::Integer(i)@ == ValueView::Integer(i),
        Value::Float(d)@ == ValueView::Float(d@),
        Value::Text(t)@ == ValueView::Text(t@),
        Value::Blob(b)@ == ValueView::Blob(b@),
        record@.len() == record.values@.len(),
        forall|k: int| 0 <= k < record.values@.len() ==> #[trigger] record@[k]
            == record.values@[k]@,
        option_ref_view(Some(&v)) == Some(v@),
        option_ref_view(None) is None,
{
}

} // verus!
