//! Rows made from registers.

use vstd::prelude::*;
use crate::value::{
    handed_out, to_value, values_view, OwnedRecord, OwnedValue, Record, Value, ValueView,
};

verus! {

/// The items of `s` from `start` on, `count` of them at most.
pub open spec fn taken<T>(s: Seq<T>, start: int, count: int) -> Seq<T> {
    let from = if start < s.len() {
        start
    } else {
        s.len() as int
    };
    let left = s.len() - from;
    s.subrange(
        from,
        from + if count < left {
            count
        } else {
            left
        },
    )
}

/// Tells whether every one of the values can be handed out.
pub open spec fn can_hand_out(values: Seq<ValueView>) -> bool {
    forall|i: int| 0 <= i < values.len() ==> handed_out(#[trigger] values[i]) is Some
}

/// The values as they are handed out.
pub open spec fn all_handed_out(values: Seq<ValueView>) -> Seq<ValueView> {
    Seq::new(values.len(), |i: int| handed_out(values[i])->0)
}

/// Where the registers from `start_reg` on begin and end, `count` of them at most.
fn bounds(len: usize, start_reg: usize, count: usize) -> (b: (usize, usize))
    ensures
        b.0 <= b.1 <= len,
        forall|s: Seq<ValueView>|
            s.len() == len ==> #[trigger] taken(s, start_reg as int, count as int) == s.subrange(
                b.0 as int,
                b.1 as int,
            ),
{
    let from: usize = if start_reg < len {
        start_reg
    } else {
        len
    };
    let left: usize = len - from;
    if count < left {
        (from, from + count)
    } else {
        (from, len)
    }
}

/// Tells whether the registers from `start_reg` on, `count` of them at most, can be handed out.
pub fn row_ready(registers: &[OwnedValue], start_reg: usize, count: usize) -> (ready: bool)
    ensures
        ready == can_hand_out(
            taken(values_view(registers@), start_reg as int, count as int),
        ),
{
    let ghost all = values_view(registers@);
    let ghost row = taken(all, start_reg as int, count as int);
    let (from, to) = bounds(registers.len(), start_reg, count);
    assert(row == all.subrange(from as int, to as int));
    let mut i: usize = from;
    while i < to
        invariant
            from <= i <= to <= registers@.len(),
            all == values_view(registers@),
            row == taken(all, start_reg as int, count as int),
            row == all.subrange(from as int, to as int),
            forall|j: int| 0 <= j < i - from ==> handed_out(#[trigger] row[j]) is Some,
        decreases to - i,
    {
        assert(row[i - from] == registers@[i as int]@);
        if to_value(&registers[i]).is_none() {
            assert(handed_out(row[i - from]) is None);
            return false;
        }
        i = i + 1;
    }
    true
}

/// The row of the registers from `start_reg` on, `count` of them at most, to be handed out.
pub fn make_record<'a>(
    registers: &'a [OwnedValue],
    start_reg: &usize,
    count: &usize,
) -> (record: Record<'a>)
    requires
        can_hand_out(taken(values_view(registers@), *start_reg as int, *count as int)),
    ensures
        record@ == all_handed_out(
            taken(values_view(registers@), *start_reg as int, *count as int),
        ),
{
    let ghost all = values_view(registers@);
    let ghost row = taken(all, *start_reg as int, *count as int);
    let (from, to) = bounds(registers.len(), *start_reg, *count);
    assert(row == all.subrange(from as int, to as int));
    let mut values: Vec<Value<'a>> = Vec::new();
    let mut i: usize = from;
    while i < to
        invariant
            from <= i <= to <= registers@.len(),
            all == values_view(registers@),
            row == all.subrange(from as int, to as int),
            can_hand_out(row),
            values@.len() == i - from,
            forall|j: int| 0 <= j < i - from ==> (#[trigger] values@[j])@ == handed_out(row[j])->0,
        decreases to - i,
    {
        assert(row[i - from] == registers@[i as int]@);
        assert(handed_out(row[i - from]) is Some);
        if let Some(v) = to_value(&registers[i]) {
            values.push(v);
        }
        i = i + 1;
    }
    let record = Record::new(values);
    assert(record@ =~= all_handed_out(row));
    record
}

/// The row of the registers from `start_reg` on, `count` of them at most, that owns its values.
pub fn make_owned_record(
    registers: &[OwnedValue],
    start_reg: &usize,
    count: &usize,
) -> (record: OwnedRecord)
    ensures
        record@ == taken(values_view(registers@), *start_reg as int, *count as int),
{
    let ghost all = values_view(registers@);
    let ghost row = taken(all, *start_reg as int, *count as int);
    let (from, to) = bounds(registers.len(), *start_reg, *count);
    assert(row == all.subrange(from as int, to as int));
    let mut values: Vec<OwnedValue> = Vec::new();
    let mut i: usize = from;
    while i < to
        invariant
            from <= i <= to <= registers@.len(),
            all == values_view(registers@),
            row == all.subrange(from as int, to as int),
            values@.len() == i - from,
            forall|j: int| 0 <= j < i - from ==> (#[trigger] values@[j])@ == row[j],
        decreases to - i,
    {
        assert(row[i - from] == registers@[i as int]@);
        values.push(registers[i].clone());
        i = i + 1;
    }
    let record = OwnedRecord::new(values);
    assert(record@ =~= row);
    record
}

/// The items that are taken are those from `start` on, in their order: as many as are asked for, or
/// as are left.
pub proof fn law_taken<T>(s: Seq<T>, start: int, count: int)
    requires
        start >= 0,
        count >= 0,
    ensures
        start + count <= s.len() ==> taken(s, start, count).len() == count,
        start <= s.len() < start + count ==> taken(s, start, count).len() == s.len() - start,
        start > s.len() ==> taken(s, start, count).len() == 0,
        forall|i: int|
            0 <= i < taken(s, start, count).len() ==> #[trigger] taken(s, start, count)[i] == s[start
                + i],
{
}

/// Values are handed out one for one, in their order.
pub proof fn law_all_handed_out(values: Seq<ValueView>)
    requires
        can_hand_out(values),
    ensures
        all_handed_out(values).len() == values.len(),
        forall|i: int|
            0 <= i < values.len() ==> handed_out(values[i]) == Some(
                #[trigger] all_handed_out(values)[i],
            ),
{
}

} // verus!
