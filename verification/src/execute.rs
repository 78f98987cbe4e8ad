//! Execution of single instructions.

use std::rc::Rc;
use vstd::prelude::*;
use vstd::string::*;
use crate::aggregate::{
    begin_aggregate, feed_aggregate, finish_aggregate, meets_mixed_kinds, Fed,
};
use crate::arith::Number;
use crate::function::{AggFunc, SingleRowFunc};
use crate::insn::Insn;
use crate::like::try_like;
use crate::protocol::{Effect, Reply, Request, StepError};
use crate::record::{make_owned_record, row_ready};
use crate::relation::{rank, values_equal, Ranking};
use crate::scalar::{
    exec_abs, exec_if, exec_length, exec_lower, exec_round, exec_trim, exec_upper, Rounding,
};
use crate::semantics::{
    adds, advances, advances_sorter, applies, ascending, awaits, awaits_next, compares, completes,
    decrements, emits_row, executed, fed, float_result, goes_to, halts, holds, if_not_null, if_pos,
    inserts, jumps_on, leaves_out, likens, makes_float, makes_record, moves_to_null_row, opens,
    opens_sorter, passes_on, reads_column, reads_rowid, rewinds, sorts, stores, takes_in, unasked,
    Test,
};
use crate::state::ProgramState;
use crate::text::Order;
use crate::value::{lemma_record_view, OwnedRecord, OwnedValue};
use crate::{BranchOffset, CursorID};

verus! {

/// The effect of an instruction that cannot be executed.
fn fault_effect() -> (e: Effect)
    ensures
        e@ == (Effect::Error(StepError::Fault))@,
{
    Effect::Error(StepError::Fault)
}

/// Goes on with the next instruction.
fn pass(state: &mut ProgramState, reply: Reply) -> (e: Effect)
    requires
        old(state)@.pc < i64::MAX,
    ensures
        (final(state)@, e@) == unasked(old(state)@, old(state)@.next(), reply@),
{
    match reply {
        Reply::Nothing => {
            state.advance();
            Effect::Continue
        },
        _ => Effect::Error(StepError::BadReply),
    }
}

/// Goes on at `target_pc`.
fn jump(state: &mut ProgramState, target_pc: BranchOffset, reply: Reply) -> (e: Effect)
    ensures
        (final(state)@, e@) == unasked(old(state)@, old(state)@.jump(target_pc), reply@),
{
    match reply {
        Reply::Nothing => {
            state.jump(target_pc);
            Effect::Continue
        },
        _ => Effect::Error(StepError::BadReply),
    }
}

/// Goes on at `target_pc` where `b` holds, and with the next instruction elsewhere.
fn branch(state: &mut ProgramState, b: bool, target_pc: BranchOffset, reply: Reply) -> (e: Effect)
    requires
        old(state)@.pc < i64::MAX,
    ensures
        (final(state)@, e@) == unasked(old(state)@, old(state)@.jump_if(b, target_pc), reply@),
{
    if b {
        jump(state, target_pc, reply)
    } else {
        pass(state, reply)
    }
}

/// `Init` and `Goto`.
fn go_to(state: &mut ProgramState, target_pc: BranchOffset, reply: Reply) -> (e: Effect)
    ensures
        (final(state)@, e@) == goes_to(old(state)@, target_pc, reply@),
{
    if target_pc < 0 {
        fault_effect()
    } else {
        jump(state, target_pc, reply)
    }
}

/// Lets register `dest` hold `v`.
fn store(state: &mut ProgramState, dest: usize, v: OwnedValue, reply: Reply) -> (e: Effect)
    requires
        old(state)@.pc < i64::MAX,
    ensures
        (final(state)@, e@) == stores(old(state)@, dest, v@, reply@),
{
    if !state.has(dest) {
        return fault_effect();
    }
    match reply {
        Reply::Nothing => {
            state.set(dest, v);
            state.advance();
            Effect::Continue
        },
        _ => Effect::Error(StepError::BadReply),
    }
}

/// Lets register `dest` hold the float that the host answers.
fn take_float(state: &mut ProgramState, dest: usize, request: Request, reply: Reply) -> (e: Effect)
    requires
        old(state)@.pc < i64::MAX,
        old(state)@.has(dest),
    ensures
        (final(state)@, e@) == float_result(old(state)@, dest, request@, reply@),
{
    match reply {
        Reply::Nothing => Effect::Ask(request),
        Reply::Float(d) => {
            state.set(dest, OwnedValue::Float(d));
            state.advance();
            Effect::Continue
        },
        _ => Effect::Error(StepError::BadReply),
    }
}

/// `Add`.
fn add_registers(state: &mut ProgramState, lhs: usize, rhs: usize, dest: usize, reply: Reply) -> (e:
    Effect)
    requires
        old(state)@.pc < i64::MAX,
    ensures
        (final(state)@, e@) == adds(old(state)@, lhs, rhs, dest, reply@),
{
    if !state.has(lhs) || !state.has(rhs) || !state.has(dest) {
        return fault_effect();
    }
    match (state.reg(lhs), state.reg(rhs)) {
        (OwnedValue::Integer(x), OwnedValue::Integer(y)) => match x.checked_add(*y) {
            Some(sum) => store(state, dest, OwnedValue::Integer(sum), reply),
            None => fault_effect(),
        },
        (OwnedValue::Float(x), OwnedValue::Float(y)) => {
            let request = Request::Add(Number::Float(x.clone()), Number::Float(y.clone()));
            take_float(state, dest, request, reply)
        },
        _ => fault_effect(),
    }
}

/// `NullRow`.
fn move_to_null_row(state: &mut ProgramState, cursor_id: CursorID, reply: Reply) -> (e: Effect)
    requires
        old(state)@.pc < i64::MAX,
    ensures
        (final(state)@, e@) == moves_to_null_row(old(state)@, cursor_id, reply@),
{
    if !state.is_open(cursor_id) {
        return fault_effect();
    }
    match reply {
        Reply::Nothing => {
            state.set_cursor(cursor_id, true);
            state.advance();
            Effect::Continue
        },
        _ => Effect::Error(StepError::BadReply),
    }
}

/// `IfPos`.
fn jump_if_positive(
    state: &mut ProgramState,
    reg: usize,
    target_pc: BranchOffset,
    decrement_by: usize,
    reply: Reply,
) -> (e: Effect)
    requires
        old(state)@.pc < i64::MAX,
    ensures
        (final(state)@, e@) == if_pos(old(state)@, reg, target_pc, decrement_by, reply@),
{
    if target_pc < 0 || !state.has(reg) {
        return fault_effect();
    }
    let n: i64 = match state.reg(reg) {
        OwnedValue::Integer(n) => *n,
        _ => return Effect::Error(StepError::IfPosNotInteger),
    };
    if n <= 0 {
        return pass(state, reply);
    }
    match n.checked_sub(decrement_by as i64) {
        Some(left) => match reply {
            Reply::Nothing => {
                state.set(reg, OwnedValue::Integer(left));
                state.jump(target_pc);
                Effect::Continue
            },
            _ => Effect::Error(StepError::BadReply),
        },
        None => fault_effect(),
    }
}

/// `NotNull`.
fn jump_if_not_null(
    state: &mut ProgramState,
    reg: usize,
    target_pc: BranchOffset,
    reply: Reply,
) -> (e: Effect)
    requires
        old(state)@.pc < i64::MAX,
    ensures
        (final(state)@, e@) == if_not_null(old(state)@, reg, target_pc, reply@),
{
    if target_pc < 0 || !state.has(reg) {
        return fault_effect();
    }
    let b: bool = match state.reg(reg) {
        OwnedValue::Null => false,
        _ => true,
    };
    branch(state, b, target_pc, reply)
}

/// Tells whether the test holds of two values; nothing where the two cannot be told apart.
fn test_values(test: Test, a: &OwnedValue, b: &OwnedValue) -> (h: Option<bool>)
    ensures
        h == holds(test, a@, b@),
{
    match test {
        Test::Eq => Some(values_equal(a, b)),
        Test::Ne => Some(!values_equal(a, b)),
        _ => match rank(a, b) {
            Ranking::Undefined => None,
            Ranking::Unordered => Some(false),
            Ranking::Ordered(order) => Some(
                match (test, order) {
                    (Test::Lt, Order::Less) => true,
                    (Test::Lt, _) => false,
                    (Test::Le, Order::Greater) => false,
                    (Test::Le, _) => true,
                    (Test::Gt, Order::Greater) => true,
                    (Test::Gt, _) => false,
                    (_, Order::Less) => false,
                    (_, _) => true,
                },
            ),
        },
    }
}

/// `Eq`, `Ne`, `Lt`, `Le`, `Gt` and `Ge`.
fn jump_if_holds(
    state: &mut ProgramState,
    test: Test,
    lhs: usize,
    rhs: usize,
    target_pc: BranchOffset,
    reply: Reply,
) -> (e: Effect)
    requires
        old(state)@.pc < i64::MAX,
    ensures
        (final(state)@, e@) == compares(old(state)@, test, lhs, rhs, target_pc, reply@),
{
    if target_pc < 0 || !state.has(lhs) || !state.has(rhs) {
        return fault_effect();
    }
    let h: Option<bool> = match (state.reg(lhs), state.reg(rhs)) {
        (_, OwnedValue::Null) | (OwnedValue::Null, _) => Some(true),
        (a, b) => test_values(test, a, b),
    };
    match h {
        Some(b) => branch(state, b, target_pc, reply),
        None => fault_effect(),
    }
}

/// `If` and `IfNot`.
fn jump_on(
    state: &mut ProgramState,
    reg: usize,
    target_pc: BranchOffset,
    null_reg: usize,
    not: bool,
    reply: Reply,
) -> (e: Effect)
    requires
        old(state)@.pc < i64::MAX,
    ensures
        (final(state)@, e@) == jumps_on(old(state)@, reg, target_pc, null_reg, not, reply@),
{
    if target_pc < 0 || !state.has(reg) || !state.has(null_reg) {
        return fault_effect();
    }
    let b: bool = exec_if(state.reg(reg), state.reg(null_reg), not);
    branch(state, b, target_pc, reply)
}

/// `OpenReadAsync`, `OpenPseudo` and `SorterOpen`.
fn open(state: &mut ProgramState, cursor_id: CursorID, request: Request, reply: Reply) -> (e: Effect)
    requires
        old(state)@.pc < i64::MAX,
    ensures
        (final(state)@, e@) == opens(old(state)@, cursor_id, request@, reply@),
{
    match reply {
        Reply::Nothing => Effect::Ask(request),
        Reply::Done => {
            state.set_cursor(cursor_id, false);
            state.advance();
            Effect::Continue
        },
        _ => Effect::Error(StepError::BadReply),
    }
}

/// Whether each column of a sorter ascends; nothing where a column's order is not an integer.
fn sort_order(order: &OwnedRecord) -> (ascends: Option<Vec<bool>>)
    ensures
        match ascends {
            Some(v) => ascending(order@) == Some(v@),
            None => ascending(order@) is None,
        },
{
    let mut ascends: Vec<bool> = Vec::new();
    let mut i: usize = 0;
    while i < order.values.len()
        invariant
            i <= order.values@.len(),
            ascends@.len() == i,
            forall|j: int|
                0 <= j < i ==> (#[trigger] order@[j]) is Integer && ascends@[j] == (order@[j]
                    == crate::value::ValueView::Integer(0)),
        decreases order.values@.len() - i,
    {
        assert(order@[i as int] == order.values@[i as int]@);
        match &order.values[i] {
            OwnedValue::Integer(n) => {
                ascends.push(*n == 0);
            },
            _ => {
                assert(!(order@[i as int] is Integer));
                return None;
            },
        }
        i = i + 1;
    }
    assert(ascending(order@)->0 =~= ascends@);
    Some(ascends)
}

/// `SorterOpen`.
fn open_sorter(
    state: &mut ProgramState,
    cursor_id: CursorID,
    order: &OwnedRecord,
    reply: Reply,
) -> (e: Effect)
    requires
        old(state)@.pc < i64::MAX,
    ensures
        (final(state)@, e@) == opens_sorter(old(state)@, cursor_id, order@, reply@),
{
    match sort_order(order) {
        Some(order) => open(state, cursor_id, Request::OpenSorter { cursor_id, order }, reply),
        None => fault_effect(),
    }
}

/// `RewindAsync`.
fn rewind(state: &mut ProgramState, cursor_id: CursorID, reply: Reply) -> (e: Effect)
    requires
        old(state)@.pc < i64::MAX,
    ensures
        (final(state)@, e@) == rewinds(old(state)@, cursor_id, reply@),
{
    if !state.is_open(cursor_id) {
        return fault_effect();
    }
    match reply {
        Reply::Nothing => Effect::Ask(Request::Rewind { cursor_id }),
        Reply::Done => {
            state.advance();
            Effect::Continue
        },
        Reply::Io => Effect::IO,
        Reply::Failed => Effect::Error(StepError::CursorFailed),
        _ => Effect::Error(StepError::BadReply),
    }
}

/// `RewindAwait` and `NextAwait`.
fn await_completion(
    state: &mut ProgramState,
    cursor_id: CursorID,
    if_empty: bool,
    target_pc: BranchOffset,
    reply: Reply,
) -> (e: Effect)
    requires
        old(state)@.pc < i64::MAX,
    ensures
        (final(state)@, e@) == awaits(old(state)@, cursor_id, if_empty, target_pc, reply@),
{
    if !state.is_open(cursor_id) {
        return fault_effect();
    }
    match reply {
        Reply::Nothing => Effect::Ask(Request::AwaitCompletion { cursor_id }),
        Reply::Empty(empty) => {
            state.jump_if(empty == if_empty, target_pc);
            Effect::Continue
        },
        Reply::Failed => Effect::Error(StepError::CursorFailed),
        _ => Effect::Error(StepError::BadReply),
    }
}

/// `NextAwait`.
fn await_next(
    state: &mut ProgramState,
    cursor_id: CursorID,
    pc_if_next: BranchOffset,
    reply: Reply,
) -> (e: Effect)
    requires
        old(state)@.pc < i64::MAX,
    ensures
        (final(state)@, e@) == awaits_next(old(state)@, cursor_id, pc_if_next, reply@),
{
    if pc_if_next < 0 {
        fault_effect()
    } else {
        await_completion(state, cursor_id, false, pc_if_next, reply)
    }
}

/// `Column`.
fn read_column(
    state: &mut ProgramState,
    cursor_id: CursorID,
    column: usize,
    dest: usize,
    reply: Reply,
) -> (e: Effect)
    requires
        old(state)@.pc < i64::MAX,
    ensures
        (final(state)@, e@) == reads_column(old(state)@, cursor_id, column, dest, reply@),
{
    if !state.is_open(cursor_id) {
        return fault_effect();
    }
    match reply {
        Reply::Nothing => Effect::Ask(Request::ReadRecord { cursor_id }),
        Reply::Record(row) => {
            if !state.has(dest) {
                return fault_effect();
            }
            let v: OwnedValue = match row {
                Some(r) if !state.on_null_row(cursor_id) => {
                    if column >= r.values.len() {
                        return fault_effect();
                    }
                    assert(r@[column as int] == r.values@[column as int]@);
                    r.values[column].clone()
                },
                _ => OwnedValue::Null,
            };
            state.set(dest, v);
            state.advance();
            Effect::Continue
        },
        Reply::Failed => Effect::Error(StepError::CursorFailed),
        _ => Effect::Error(StepError::BadReply),
    }
}

/// `MakeRecord`.
fn store_record(
    state: &mut ProgramState,
    start_reg: usize,
    count: usize,
    dest_reg: usize,
    reply: Reply,
) -> (e: Effect)
    requires
        old(state)@.pc < i64::MAX,
    ensures
        (final(state)@, e@) == makes_record(old(state)@, start_reg, count, dest_reg, reply@),
{
    let record = make_owned_record(state.all_registers(), &start_reg, &count);
    proof {
        lemma_record_view(record);
    }
    store(state, dest_reg, OwnedValue::Record(record), reply)
}

/// `ResultRow`.
fn emit_row(state: &mut ProgramState, start_reg: usize, count: usize, reply: Reply) -> (e: Effect)
    requires
        old(state)@.pc < i64::MAX,
    ensures
        (final(state)@, e@) == emits_row(old(state)@, start_reg, count, reply@),
{
    if !row_ready(state.all_registers(), start_reg, count) {
        return fault_effect();
    }
    match reply {
        Reply::Nothing => {
            state.advance();
            Effect::Row { start_reg, count }
        },
        _ => Effect::Error(StepError::BadReply),
    }
}

/// `NextAsync`.
fn advance_cursor(state: &mut ProgramState, cursor_id: CursorID, reply: Reply) -> (e: Effect)
    requires
        old(state)@.pc < i64::MAX,
    ensures
        (final(state)@, e@) == advances(old(state)@, cursor_id, reply@),
{
    if !state.is_open(cursor_id) {
        return fault_effect();
    }
    match reply {
        Reply::Nothing => {
            state.set_cursor(cursor_id, false);
            Effect::Ask(Request::Next { cursor_id })
        },
        Reply::Done => {
            state.set_cursor(cursor_id, false);
            state.advance();
            Effect::Continue
        },
        Reply::Io => {
            state.set_cursor(cursor_id, false);
            Effect::IO
        },
        Reply::Failed => {
            state.set_cursor(cursor_id, false);
            Effect::Error(StepError::CursorFailed)
        },
        _ => Effect::Error(StepError::BadReply),
    }
}

/// `Halt`.
fn halt(state: &mut ProgramState, reply: Reply) -> (e: Effect)
    ensures
        (final(state)@, e@) == halts(old(state)@, reply@),
{
    match reply {
        Reply::Nothing => Effect::Done,
        _ => Effect::Error(StepError::BadReply),
    }
}

/// `RealAffinity`.
fn make_float(state: &mut ProgramState, register: usize, reply: Reply) -> (e: Effect)
    requires
        old(state)@.pc < i64::MAX,
    ensures
        (final(state)@, e@) == makes_float(old(state)@, register, reply@),
{
    if !state.has(register) {
        return fault_effect();
    }
    match state.reg(register) {
        OwnedValue::Integer(i) => {
            let request = Request::ToFloat(*i);
            take_float(state, register, request, reply)
        },
        _ => pass(state, reply),
    }
}

/// `RowId`.
fn read_rowid(state: &mut ProgramState, cursor_id: CursorID, dest: usize, reply: Reply) -> (e:
    Effect)
    requires
        old(state)@.pc < i64::MAX,
    ensures
        (final(state)@, e@) == reads_rowid(old(state)@, cursor_id, dest, reply@),
{
    if !state.is_open(cursor_id) {
        return fault_effect();
    }
    match reply {
        Reply::Nothing => Effect::Ask(Request::ReadRowId { cursor_id }),
        Reply::RowId(id) => match id {
            Some(id) => {
                if !state.has(dest) {
                    return fault_effect();
                }
                state.set(dest, OwnedValue::Integer(id as i64));
                state.advance();
                Effect::Continue
            },
            None => fault_effect(),
        },
        Reply::Failed => Effect::Error(StepError::CursorFailed),
        _ => Effect::Error(StepError::BadReply),
    }
}

/// `DecrJumpZero`.
fn decrement(state: &mut ProgramState, reg: usize, target_pc: BranchOffset, reply: Reply) -> (e:
    Effect)
    requires
        old(state)@.pc < i64::MAX,
    ensures
        (final(state)@, e@) == decrements(old(state)@, reg, target_pc, reply@),
{
    if target_pc < 0 || !state.has(reg) {
        return fault_effect();
    }
    let n: i64 = match state.reg(reg) {
        OwnedValue::Integer(n) => *n,
        _ => return fault_effect(),
    };
    if n == i64::MIN {
        return fault_effect();
    }
    let n: i64 = n - 1;
    match reply {
        Reply::Nothing => {
            state.set(reg, OwnedValue::Integer(n));
            state.jump_if(n == 0, target_pc);
            Effect::Continue
        },
        _ => Effect::Error(StepError::BadReply),
    }
}

/// Puts what comes of an operation on an aggregate into its register.
fn take_fed(state: &mut ProgramState, register: usize, f: Fed) -> (e: Effect)
    requires
        old(state)@.pc < i64::MAX,
        old(state)@.has(register),
    ensures
        (final(state)@, e@) == fed(old(state)@, register, f@),
{
    match f {
        Fed::Value(v) => {
            state.set(register, v);
            state.advance();
            Effect::Continue
        },
        Fed::Ask(request) => Effect::Ask(request),
        Fed::Error(error) => Effect::Error(error),
    }
}

/// `AggStep`.
fn take_in(
    state: &mut ProgramState,
    acc_reg: usize,
    col: usize,
    delimiter: usize,
    func: AggFunc,
    reply: Reply,
) -> (e: Effect)
    requires
        old(state)@.pc < i64::MAX,
    ensures
        (final(state)@, e@) == takes_in(old(state)@, acc_reg, col, delimiter, func, reply@),
{
    if !state.has(acc_reg) {
        return fault_effect();
    }
    let a = match begin_aggregate(func, state.reg(acc_reg), state.maybe_reg(col)) {
        Some(a) => a,
        None => return fault_effect(),
    };
    let begun = OwnedValue::Agg(Box::new(a));
    let value: Option<&OwnedValue> = if col == acc_reg {
        Some(&begun)
    } else {
        state.maybe_reg(col)
    };
    let between: Option<&OwnedValue> = if delimiter == acc_reg {
        Some(&begun)
    } else {
        state.maybe_reg(delimiter)
    };
    let f: Fed = match &begun {
        OwnedValue::Agg(a) => feed_aggregate(func, &**a, value, between, reply),
        _ => Fed::Error(StepError::Fault),
    };
    take_fed(state, acc_reg, f)
}

/// The maximum or minimum that leaves a value out because it is of another kind, where the
/// instruction is one that does so in this state.
pub fn left_out(insn: &Insn, state: &ProgramState) -> (func: Option<AggFunc>)
    ensures
        func == leaves_out(*insn, state@),
{
    match insn {
        Insn::AggStep { acc_reg, col, func, .. } => match (
            state.maybe_reg(*acc_reg),
            state.maybe_reg(*col),
        ) {
            (Some(OwnedValue::Agg(a)), Some(v)) => if meets_mixed_kinds(*func, &**a, v) {
                Some(*func)
            } else {
                None
            },
            _ => None,
        },
        _ => None,
    }
}

/// `AggFinal`.
fn complete(state: &mut ProgramState, register: usize, func: AggFunc, reply: Reply) -> (e: Effect)
    requires
        old(state)@.pc < i64::MAX,
    ensures
        (final(state)@, e@) == completes(old(state)@, register, func, reply@),
{
    if !state.has(register) {
        return fault_effect();
    }
    let f: Fed = finish_aggregate(func, state.reg(register), reply);
    take_fed(state, register, f)
}

/// `SorterInsert`.
fn insert(state: &mut ProgramState, cursor_id: CursorID, record_reg: usize, reply: Reply) -> (e:
    Effect)
    requires
        old(state)@.pc < i64::MAX,
    ensures
        (final(state)@, e@) == inserts(old(state)@, cursor_id, record_reg, reply@),
{
    if !state.is_open(cursor_id) || !state.has(record_reg) {
        return fault_effect();
    }
    match state.reg(record_reg) {
        OwnedValue::Record(record) => {
            proof {
                lemma_record_view(*record);
            }
            match reply {
                Reply::Nothing => Effect::Ask(
                    Request::Insert { cursor_id, record: record.clone() },
                ),
                Reply::Done => {
                    state.advance();
                    Effect::Continue
                },
                Reply::Failed => Effect::Error(StepError::CursorFailed),
                _ => Effect::Error(StepError::BadReply),
            }
        },
        _ => fault_effect(),
    }
}

/// `SorterSort`.
fn sort(state: &mut ProgramState, cursor_id: CursorID, pc_if_empty: BranchOffset, reply: Reply) -> (e:
    Effect)
    requires
        old(state)@.pc < i64::MAX,
    ensures
        (final(state)@, e@) == sorts(old(state)@, cursor_id, pc_if_empty, reply@),
{
    if !state.is_open(cursor_id) {
        return jump(state, pc_if_empty, reply);
    }
    match reply {
        Reply::Nothing => Effect::Ask(Request::Rewind { cursor_id }),
        Reply::Done | Reply::Io => {
            state.advance();
            Effect::Continue
        },
        Reply::Failed => Effect::Error(StepError::CursorFailed),
        _ => Effect::Error(StepError::BadReply),
    }
}

/// `SorterData`.
fn pass_on(
    state: &mut ProgramState,
    cursor_id: CursorID,
    dest_reg: usize,
    pseudo_cursor: CursorID,
    reply: Reply,
) -> (e: Effect)
    requires
        old(state)@.pc < i64::MAX,
    ensures
        (final(state)@, e@) == passes_on(old(state)@, cursor_id, dest_reg, pseudo_cursor, reply@),
{
    if !state.is_open(cursor_id) {
        return fault_effect();
    }
    let ready: bool = state.is_open(pseudo_cursor) && state.has(dest_reg);
    match reply {
        Reply::Nothing => Effect::Ask(Request::ReadRecord { cursor_id }),
        Reply::Record(row) => match row {
            Some(record) => {
                if !ready {
                    return fault_effect();
                }
                let copy: OwnedRecord = record.clone();
                proof {
                    lemma_record_view(record);
                }
                state.set(dest_reg, OwnedValue::Record(record));
                Effect::Ask(Request::Insert { cursor_id: pseudo_cursor, record: copy })
            },
            None => fault_effect(),
        },
        Reply::Done => {
            let read: bool = ready && match state.reg(dest_reg) {
                OwnedValue::Record(_) => true,
                _ => false,
            };
            if !read {
                return Effect::Error(StepError::BadReply);
            }
            state.advance();
            Effect::Continue
        },
        Reply::Failed => Effect::Error(StepError::CursorFailed),
        _ => Effect::Error(StepError::BadReply),
    }
}

/// `SorterNext`.
fn advance_sorter(
    state: &mut ProgramState,
    cursor_id: CursorID,
    pc_if_next: BranchOffset,
    reply: Reply,
) -> (e: Effect)
    requires
        old(state)@.pc < i64::MAX,
    ensures
        (final(state)@, e@) == advances_sorter(old(state)@, cursor_id, pc_if_next, reply@),
{
    if pc_if_next < 0 || !state.is_open(cursor_id) {
        return fault_effect();
    }
    match reply {
        Reply::Nothing => Effect::Ask(Request::SorterNext { cursor_id }),
        Reply::Io => Effect::IO,
        Reply::Empty(empty) => {
            state.jump_if(!empty, pc_if_next);
            Effect::Continue
        },
        Reply::Failed => Effect::Error(StepError::CursorFailed),
        _ => Effect::Error(StepError::BadReply),
    }
}

/// `Function` with LIKE.
fn liken(state: &mut ProgramState, start_reg: usize, dest: usize, reply: Reply) -> (e: Effect)
    requires
        old(state)@.pc < i64::MAX,
    ensures
        (final(state)@, e@) == likens(old(state)@, start_reg, dest, reply@),
{
    if !state.has(start_reg) || !state.has(dest) || !state.has(start_reg + 1) {
        return fault_effect();
    }
    match (state.reg(start_reg), state.reg(start_reg + 1)) {
        (OwnedValue::Text(pattern), OwnedValue::Text(text)) => match try_like(
            pattern.as_str(),
            text.as_str(),
        ) {
            Some(b) => {
                let v: i64 = if b {
                    1
                } else {
                    0
                };
                store(state, dest, OwnedValue::Integer(v), reply)
            },
            None => fault_effect(),
        },
        _ => fault_effect(),
    }
}

/// `Function`.
fn apply(
    state: &mut ProgramState,
    start_reg: usize,
    dest: usize,
    func: SingleRowFunc,
    reply: Reply,
    draw: Option<i64>,
) -> (e: Effect)
    requires
        old(state)@.pc < i64::MAX,
    ensures
        (final(state)@, e@) == applies(old(state)@, start_reg, dest, func, reply@, draw),
{
    match func {
        SingleRowFunc::Coalesce => return match reply {
            Reply::Nothing => Effect::Continue,
            _ => Effect::Error(StepError::BadReply),
        },
        SingleRowFunc::Like => return liken(state, start_reg, dest, reply),
        SingleRowFunc::Random => return match draw {
            Some(i) => store(state, dest, OwnedValue::Integer(i), reply),
            None => Effect::Error(StepError::RandomUnavailable),
        },
        _ => {},
    }
    if !state.has(start_reg) || !state.has(dest) {
        return fault_effect();
    }
    let v: &OwnedValue = state.reg(start_reg);
    let w: Option<&OwnedValue> = state.maybe_reg(start_reg + 1);
    let second: Option<OwnedValue> = match w {
        Some(x) => Some(x.clone()),
        None => None,
    };
    let result: Option<OwnedValue> = match func {
        SingleRowFunc::Abs => match v {
            OwnedValue::Integer(i) if *i == i64::MIN => return fault_effect(),
            _ => exec_abs(v),
        },
        SingleRowFunc::Upper => exec_upper(v),
        SingleRowFunc::Lower => exec_lower(v),
        SingleRowFunc::Length => Some(exec_length(v)),
        SingleRowFunc::Trim => Some(exec_trim(v, second)),
        _ => match exec_round(v, second) {
            Rounding::Value(x) => Some(x),
            Rounding::Host { value, precision } => {
                let request = Request::Round { value, precision };
                return take_float(state, dest, request, reply);
            },
        },
    };
    match result {
        Some(x) => store(state, dest, x, reply),
        None => store(state, dest, OwnedValue::Null, reply),
    }
}

/// Executes an instruction in a state, with the host's reply to what it has asked, if anything, and
/// the random integer that was drawn for it.
pub fn execute(insn: &Insn, state: &mut ProgramState, reply: Reply, draw: Option<i64>) -> (e: Effect)
    requires
        old(state)@.pc < i64::MAX,
    ensures
        (final(state)@, e@) == executed(*insn, old(state)@, reply@, draw),
{
    proof {
        reveal(executed);
    }
    match insn {
        Insn::Init { target_pc } => go_to(state, *target_pc, reply),
        Insn::Goto { target_pc } => go_to(state, *target_pc, reply),
        Insn::Null { dest } => store(state, *dest, OwnedValue::Null, reply),
        Insn::Integer { value, dest } => store(state, *dest, OwnedValue::Integer(*value), reply),
        Insn::Real { value, dest } => store(state, *dest, OwnedValue::Float(value.clone()), reply),
        Insn::String8 { value, dest } => store(
            state,
            *dest,
            OwnedValue::Text(Rc::new(value.clone())),
            reply,
        ),
        Insn::Add { lhs, rhs, dest } => add_registers(state, *lhs, *rhs, *dest, reply),
        Insn::NullRow { cursor_id } => move_to_null_row(state, *cursor_id, reply),
        Insn::IfPos { reg, target_pc, decrement_by } => jump_if_positive(
            state,
            *reg,
            *target_pc,
            *decrement_by,
            reply,
        ),
        Insn::NotNull { reg, target_pc } => jump_if_not_null(state, *reg, *target_pc, reply),
        Insn::Eq { lhs, rhs, target_pc } => jump_if_holds(
            state,
            Test::Eq,
            *lhs,
            *rhs,
            *target_pc,
            reply,
        ),
        Insn::Ne { lhs, rhs, target_pc } => jump_if_holds(
            state,
            Test::Ne,
            *lhs,
            *rhs,
            *target_pc,
            reply,
        ),
        Insn::Lt { lhs, rhs, target_pc } => jump_if_holds(
            state,
            Test::Lt,
            *lhs,
            *rhs,
            *target_pc,
            reply,
        ),
        Insn::Le { lhs, rhs, target_pc } => jump_if_holds(
            state,
            Test::Le,
            *lhs,
            *rhs,
            *target_pc,
            reply,
        ),
        Insn::Gt { lhs, rhs, target_pc } => jump_if_holds(
            state,
            Test::Gt,
            *lhs,
            *rhs,
            *target_pc,
            reply,
        ),
        Insn::Ge { lhs, rhs, target_pc } => jump_if_holds(
            state,
            Test::Ge,
            *lhs,
            *rhs,
            *target_pc,
            reply,
        ),
        Insn::If { reg, target_pc, null_reg } => jump_on(
            state,
            *reg,
            *target_pc,
            *null_reg,
            false,
            reply,
        ),
        Insn::IfNot { reg, target_pc, null_reg } => jump_on(
            state,
            *reg,
            *target_pc,
            *null_reg,
            true,
            reply,
        ),
        Insn::OpenReadAsync { cursor_id, root_page } => open(
            state,
            *cursor_id,
            Request::OpenRead { cursor_id: *cursor_id, root_page: *root_page },
            reply,
        ),
        Insn::OpenReadAwait => pass(state, reply),
        Insn::OpenPseudo { cursor_id, .. } => open(
            state,
            *cursor_id,
            Request::OpenPseudo { cursor_id: *cursor_id },
            reply,
        ),
        Insn::RewindAsync { cursor_id } => rewind(state, *cursor_id, reply),
        Insn::RewindAwait { cursor_id, pc_if_empty } => await_completion(
            state,
            *cursor_id,
            true,
            *pc_if_empty,
            reply,
        ),
        Insn::Column { cursor_id, column, dest } => read_column(
            state,
            *cursor_id,
            *column,
            *dest,
            reply,
        ),
        Insn::MakeRecord { start_reg, count, dest_reg } => store_record(
            state,
            *start_reg,
            *count,
            *dest_reg,
            reply,
        ),
        Insn::ResultRow { start_reg, count } => emit_row(state, *start_reg, *count, reply),
        Insn::NextAsync { cursor_id } => advance_cursor(state, *cursor_id, reply),
        Insn::NextAwait { cursor_id, pc_if_next } => await_next(
            state,
            *cursor_id,
            *pc_if_next,
            reply,
        ),
        Insn::Halt => halt(state, reply),
        Insn::Transaction => pass(state, reply),
        Insn::RealAffinity { register } => make_float(state, *register, reply),
        Insn::RowId { cursor_id, dest } => read_rowid(state, *cursor_id, *dest, reply),
        Insn::DecrJumpZero { reg, target_pc } => decrement(state, *reg, *target_pc, reply),
        Insn::AggStep { acc_reg, col, delimiter, func } => take_in(
            state,
            *acc_reg,
            *col,
            *delimiter,
            *func,
            reply,
        ),
        Insn::AggFinal { register, func } => complete(state, *register, *func, reply),
        Insn::SorterOpen { cursor_id, order, .. } => open_sorter(state, *cursor_id, order, reply),
        Insn::SorterInsert { cursor_id, record_reg } => insert(
            state,
            *cursor_id,
            *record_reg,
            reply,
        ),
        Insn::SorterSort { cursor_id, pc_if_empty } => sort(state, *cursor_id, *pc_if_empty, reply),
        Insn::SorterData { cursor_id, dest_reg, pseudo_cursor } => pass_on(
            state,
            *cursor_id,
            *dest_reg,
            *pseudo_cursor,
            reply,
        ),
        Insn::SorterNext { cursor_id, pc_if_next } => advance_sorter(
            state,
            *cursor_id,
            *pc_if_next,
            reply,
        ),
        Insn::Function { start_reg, dest, func } => apply(
            state,
            *start_reg,
            *dest,
            *func,
            reply,
            draw,
        ),
    }
}

} // verus!
