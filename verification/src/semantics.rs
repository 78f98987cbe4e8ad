//! What each instruction does.
//!
//! An instruction is executed in a state, with the host's reply where the instruction has asked the
//! host for something. It leaves a state and an effect.

use vstd::prelude::*;
use crate::aggregate::{agg_begin, agg_feed, agg_final, agg_value, mixed_kinds, FedView};
use crate::arith::{fits, NumberView};
use crate::function::{AggFunc, SingleRowFunc};
use crate::insn::Insn;
use crate::like::{is_like, regex_accepts, whole_regex};
use crate::protocol::{EffectView, ReplyView, RequestView, StepError};
use crate::record::{can_hand_out, taken};
use crate::relation::{ranking, same_value, Ranking};
use crate::scalar::{
    abs_value, jumps, length_value, lower_value, round_value, trim_value, upper_value, RoundingView,
};
use crate::state::StateView;
use crate::value::ValueView;
use crate::{BranchOffset, CursorID};

verus! {

/// A state and an effect: what an instruction leaves.
pub type After = (StateView, EffectView);

/// The instruction cannot be executed; the state is left as it is.
pub open spec fn fault(st: StateView) -> After {
    (st, EffectView::Error(StepError::Fault))
}

/// The reply is not one to what the instruction asks; the state is left as it is.
pub open spec fn bad_reply(st: StateView) -> After {
    (st, EffectView::Error(StepError::BadReply))
}

/// The operation on the cursor failed.
pub open spec fn cursor_failed(st: StateView) -> After {
    (st, EffectView::Error(StepError::CursorFailed))
}

/// The host is asked; the instruction is restarted with its reply.
pub open spec fn ask(st: StateView, request: RequestView) -> After {
    (st, EffectView::Ask(request))
}

/// Execution goes on from `after`, without anything to ask of the host.
pub open spec fn unasked(st: StateView, after: StateView, reply: ReplyView) -> After {
    if reply is Nothing {
        (after, EffectView::Continue)
    } else {
        bad_reply(st)
    }
}

/// `Init` and `Goto`: execution goes on at `target_pc`.
pub open spec fn goes_to(st: StateView, target_pc: BranchOffset, reply: ReplyView) -> After {
    if target_pc < 0 {
        fault(st)
    } else {
        unasked(st, st.jump(target_pc), reply)
    }
}

/// `Null`, `Integer`, `Real` and `String8`: register `dest` holds `v`.
pub open spec fn stores(st: StateView, dest: usize, v: ValueView, reply: ReplyView) -> After {
    if !st.has(dest) {
        fault(st)
    } else {
        unasked(st, st.set(dest, v).next(), reply)
    }
}

/// `Add`: register `dest` holds the sum of two integers or of two floats.
pub open spec fn adds(
    st: StateView,
    lhs: usize,
    rhs: usize,
    dest: usize,
    reply: ReplyView,
) -> After {
    if !st.has(lhs) || !st.has(rhs) || !st.has(dest) {
        fault(st)
    } else {
        match (st.reg(lhs), st.reg(rhs)) {
            (ValueView::Integer(x), ValueView::Integer(y)) => if fits(x + y) {
                unasked(st, st.set(dest, ValueView::Integer((x + y) as i64)).next(), reply)
            } else {
                fault(st)
            },
            (ValueView::Float(x), ValueView::Float(y)) => float_result(
                st,
                dest,
                RequestView::Add(NumberView::Float(x), NumberView::Float(y)),
                reply,
            ),
            _ => fault(st),
        }
    }
}

/// Register `dest` holds the float that the host answers.
pub open spec fn float_result(
    st: StateView,
    dest: usize,
    request: RequestView,
    reply: ReplyView,
) -> After {
    match reply {
        ReplyView::Nothing => ask(st, request),
        ReplyView::Float(d) => (st.set(dest, ValueView::Float(d)).next(), EffectView::Continue),
        _ => bad_reply(st),
    }
}

/// `NullRow`: the cursor is on the null row.
pub open spec fn moves_to_null_row(
    st: StateView,
    cursor_id: CursorID,
    reply: ReplyView,
) -> After {
    if !st.is_open(cursor_id) {
        fault(st)
    } else {
        unasked(st, st.with_cursor(cursor_id, true).next(), reply)
    }
}

/// `IfPos`: a positive integer is decremented and execution goes on at `target_pc`; with any other
/// integer it goes on with the next instruction.
pub open spec fn if_pos(
    st: StateView,
    reg: usize,
    target_pc: BranchOffset,
    decrement_by: usize,
    reply: ReplyView,
) -> After {
    if target_pc < 0 || !st.has(reg) {
        fault(st)
    } else {
        match st.reg(reg) {
            ValueView::Integer(n) => if n <= 0 {
                unasked(st, st.next(), reply)
            } else if fits(n - (decrement_by as i64)) {
                unasked(
                    st,
                    st.set(reg, ValueView::Integer((n - (decrement_by as i64)) as i64)).jump(
                        target_pc,
                    ),
                    reply,
                )
            } else {
                fault(st)
            },
            _ => (st, EffectView::Error(StepError::IfPosNotInteger)),
        }
    }
}

/// `NotNull`: execution goes on at `target_pc` unless the register holds NULL.
pub open spec fn if_not_null(
    st: StateView,
    reg: usize,
    target_pc: BranchOffset,
    reply: ReplyView,
) -> After {
    if target_pc < 0 || !st.has(reg) {
        fault(st)
    } else {
        unasked(st, st.jump_if(!(st.reg(reg) is Null), target_pc), reply)
    }
}

/// What is asked of two values.
#[derive(Clone, Copy, Debug, PartialEq, Eq, Structural)]
pub enum Test {
    Eq,
    Ne,
    Lt,
    Le,
    Gt,
    Ge,
}

/// Tells whether the test holds of two values; nothing where the two cannot be told apart.
pub open spec fn holds(test: Test, a: ValueView, b: ValueView) -> Option<bool> {
    match test {
        Test::Eq => Some(same_value(a, b)),
        Test::Ne => Some(!same_value(a, b)),
        _ => match ranking(a, b) {
            Ranking::Undefined => None,
            Ranking::Unordered => Some(false),
            Ranking::Ordered(order) => Some(
                match test {
                    Test::Lt => order is Less,
                    Test::Le => !(order is Greater),
                    Test::Gt => order is Greater,
                    _ => !(order is Less),
                },
            ),
        },
    }
}

/// `Eq`, `Ne`, `Lt`, `Le`, `Gt` and `Ge`: execution goes on at `target_pc` where the test holds of
/// the two registers, or one of them holds NULL.
pub open spec fn compares(
    st: StateView,
    test: Test,
    lhs: usize,
    rhs: usize,
    target_pc: BranchOffset,
    reply: ReplyView,
) -> After {
    if target_pc < 0 || !st.has(lhs) || !st.has(rhs) {
        fault(st)
    } else if st.reg(lhs) is Null || st.reg(rhs) is Null {
        unasked(st, st.jump(target_pc), reply)
    } else {
        match holds(test, st.reg(lhs), st.reg(rhs)) {
            Some(b) => unasked(st, st.jump_if(b, target_pc), reply),
            None => fault(st),
        }
    }
}

/// `If` and `IfNot`: execution goes on at `target_pc` where the register says so.
pub open spec fn jumps_on(
    st: StateView,
    reg: usize,
    target_pc: BranchOffset,
    null_reg: usize,
    not: bool,
    reply: ReplyView,
) -> After {
    if target_pc < 0 || !st.has(reg) || !st.has(null_reg) {
        fault(st)
    } else {
        unasked(st, st.jump_if(jumps(st.reg(reg), st.reg(null_reg), not), target_pc), reply)
    }
}

/// `OpenReadAsync`, `OpenPseudo` and `SorterOpen`: the host opens the cursor.
pub open spec fn opens(
    st: StateView,
    cursor_id: CursorID,
    request: RequestView,
    reply: ReplyView,
) -> After {
    match reply {
        ReplyView::Nothing => ask(st, request),
        ReplyView::Done => (st.with_cursor(cursor_id, false).next(), EffectView::Continue),
        _ => bad_reply(st),
    }
}

/// Whether each column of a sorter ascends; nothing where a column's order is not an integer.
pub open spec fn ascending(order: Seq<ValueView>) -> Option<Seq<bool>> {
    if forall|i: int| 0 <= i < order.len() ==> (#[trigger] order[i]) is Integer {
        Some(Seq::new(order.len(), |i: int| order[i] == ValueView::Integer(0)))
    } else {
        None
    }
}

/// `SorterOpen`: the host opens a sorter.
pub open spec fn opens_sorter(
    st: StateView,
    cursor_id: CursorID,
    order: Seq<ValueView>,
    reply: ReplyView,
) -> After {
    match ascending(order) {
        Some(order) => opens(st, cursor_id, RequestView::OpenSorter { cursor_id, order }, reply),
        None => fault(st),
    }
}

/// `RewindAsync`: the host moves the cursor to its first row.
pub open spec fn rewinds(st: StateView, cursor_id: CursorID, reply: ReplyView) -> After {
    if !st.is_open(cursor_id) {
        fault(st)
    } else {
        match reply {
            ReplyView::Nothing => ask(st, RequestView::Rewind { cursor_id }),
            ReplyView::Done => (st.next(), EffectView::Continue),
            ReplyView::Io => (st, EffectView::IO),
            ReplyView::Failed => cursor_failed(st),
            _ => bad_reply(st),
        }
    }
}

/// `RewindAwait` and `NextAwait`: when the cursor's operation is complete, execution goes on at
/// `target_pc` where the cursor is empty, or where it is not.
pub open spec fn awaits(
    st: StateView,
    cursor_id: CursorID,
    if_empty: bool,
    target_pc: BranchOffset,
    reply: ReplyView,
) -> After {
    if !st.is_open(cursor_id) {
        fault(st)
    } else {
        match reply {
            ReplyView::Nothing => ask(st, RequestView::AwaitCompletion { cursor_id }),
            ReplyView::Empty(empty) => (
                st.jump_if(empty == if_empty, target_pc),
                EffectView::Continue,
            ),
            ReplyView::Failed => cursor_failed(st),
            _ => bad_reply(st),
        }
    }
}

/// `Column`: register `dest` holds a column of the cursor's row, or NULL where there is no row or
/// the cursor is on the null row.
pub open spec fn reads_column(
    st: StateView,
    cursor_id: CursorID,
    column: usize,
    dest: usize,
    reply: ReplyView,
) -> After {
    if !st.is_open(cursor_id) {
        fault(st)
    } else {
        match reply {
            ReplyView::Nothing => ask(st, RequestView::ReadRecord { cursor_id }),
            ReplyView::Record(_) if !st.has(dest) => fault(st),
            ReplyView::Record(row) => match row {
                Some(r) if !st.cursors[cursor_id] => if column < r.len() {
                    (st.set(dest, r[column as int]).next(), EffectView::Continue)
                } else {
                    fault(st)
                },
                _ => (st.set(dest, ValueView::Null).next(), EffectView::Continue),
            },
            ReplyView::Failed => cursor_failed(st),
            _ => bad_reply(st),
        }
    }
}

/// `MakeRecord`: register `dest_reg` holds the row of the registers from `start_reg` on, `count` of
/// them at most.
pub open spec fn makes_record(
    st: StateView,
    start_reg: usize,
    count: usize,
    dest_reg: usize,
    reply: ReplyView,
) -> After {
    stores(
        st,
        dest_reg,
        ValueView::Record(taken(st.registers, start_reg as int, count as int)),
        reply,
    )
}

/// `ResultRow`: the registers from `start_reg` on, `count` of them at most, are handed out.
pub open spec fn emits_row(
    st: StateView,
    start_reg: usize,
    count: usize,
    reply: ReplyView,
) -> After {
    if !can_hand_out(taken(st.registers, start_reg as int, count as int)) {
        fault(st)
    } else if reply is Nothing {
        (st.next(), EffectView::Row { start_reg, count })
    } else {
        bad_reply(st)
    }
}

/// `NextAsync`: the cursor leaves the null row, and the host moves it to its next row.
pub open spec fn advances(st: StateView, cursor_id: CursorID, reply: ReplyView) -> After {
    let left = st.with_cursor(cursor_id, false);
    if !st.is_open(cursor_id) {
        fault(st)
    } else {
        match reply {
            ReplyView::Nothing => ask(left, RequestView::Next { cursor_id }),
            ReplyView::Done => (left.next(), EffectView::Continue),
            ReplyView::Io => (left, EffectView::IO),
            ReplyView::Failed => cursor_failed(left),
            _ => bad_reply(st),
        }
    }
}

/// `NextAwait`: when the cursor's operation is complete, execution goes on at `pc_if_next` where
/// there is a row.
pub open spec fn awaits_next(
    st: StateView,
    cursor_id: CursorID,
    pc_if_next: BranchOffset,
    reply: ReplyView,
) -> After {
    if pc_if_next < 0 {
        fault(st)
    } else {
        awaits(st, cursor_id, false, pc_if_next, reply)
    }
}

/// `Halt`: the program is at its end.
pub open spec fn halts(st: StateView, reply: ReplyView) -> After {
    if reply is Nothing {
        (st, EffectView::Done)
    } else {
        bad_reply(st)
    }
}

/// `RealAffinity`: an integer becomes a float.
pub open spec fn makes_float(st: StateView, register: usize, reply: ReplyView) -> After {
    if !st.has(register) {
        fault(st)
    } else {
        match st.reg(register) {
            ValueView::Integer(i) => float_result(st, register, RequestView::ToFloat(i), reply),
            _ => unasked(st, st.next(), reply),
        }
    }
}

/// `RowId`: register `dest` holds the rowid of the cursor's row.
pub open spec fn reads_rowid(
    st: StateView,
    cursor_id: CursorID,
    dest: usize,
    reply: ReplyView,
) -> After {
    if !st.is_open(cursor_id) {
        fault(st)
    } else {
        match reply {
            ReplyView::Nothing => ask(st, RequestView::ReadRowId { cursor_id }),
            ReplyView::RowId(id) => match id {
                Some(id) if st.has(dest) => (
                    st.set(dest, ValueView::Integer(id as i64)).next(),
                    EffectView::Continue,
                ),
                _ => fault(st),
            },
            ReplyView::Failed => cursor_failed(st),
            _ => bad_reply(st),
        }
    }
}

/// `DecrJumpZero`: the integer in the register is decremented, and execution goes on at `target_pc`
/// where the result is zero.
pub open spec fn decrements(
    st: StateView,
    reg: usize,
    target_pc: BranchOffset,
    reply: ReplyView,
) -> After {
    if target_pc < 0 || !st.has(reg) {
        fault(st)
    } else {
        match st.reg(reg) {
            ValueView::Integer(n) => if n > i64::MIN {
                unasked(
                    st,
                    st.set(reg, ValueView::Integer((n - 1) as i64)).jump_if(n - 1 == 0, target_pc),
                    reply,
                )
            } else {
                fault(st)
            },
            _ => fault(st),
        }
    }
}

/// What comes of an operation on the aggregate in `register`.
pub open spec fn fed(st: StateView, register: usize, fed: FedView) -> After {
    match fed {
        FedView::Value(v) => (st.set(register, v).next(), EffectView::Continue),
        FedView::Ask(request) => ask(st, request),
        FedView::Error(e) => (st, EffectView::Error(e)),
    }
}

/// `AggStep`: the value of register `col` is taken into the aggregate in register `acc_reg`. The
/// aggregate is put into its register first where it starts, and is there when `col` and
/// `delimiter` are read.
pub open spec fn takes_in(
    st: StateView,
    acc_reg: usize,
    col: usize,
    delimiter: usize,
    func: AggFunc,
    reply: ReplyView,
) -> After {
    if !st.has(acc_reg) {
        fault(st)
    } else {
        match agg_begin(func, st.reg(acc_reg), st.maybe_reg(col as int)) {
            Some(a) => {
                let begun = st.set(acc_reg, agg_value(a));
                fed(
                    st,
                    acc_reg,
                    agg_feed(
                        func,
                        a,
                        begun.maybe_reg(col as int),
                        begun.maybe_reg(delimiter as int),
                        reply,
                    ),
                )
            },
            None => fault(st),
        }
    }
}

/// The maximum or minimum that leaves a value out because it is of another kind, where the
/// instruction is one that does so in this state.
pub open spec fn leaves_out(insn: Insn, st: StateView) -> Option<AggFunc> {
    match insn {
        Insn::AggStep { acc_reg, col, func, .. } => match (
            st.maybe_reg(acc_reg as int),
            st.maybe_reg(col as int),
        ) {
            (Some(ValueView::Agg(a)), Some(v)) => if mixed_kinds(func, *a, v) {
                Some(func)
            } else {
                None
            },
            _ => None,
        },
        _ => None,
    }
}

/// `AggFinal`: the aggregate in the register is completed.
pub open spec fn completes(
    st: StateView,
    register: usize,
    func: AggFunc,
    reply: ReplyView,
) -> After {
    if !st.has(register) {
        fault(st)
    } else {
        fed(st, register, agg_final(func, st.reg(register), reply))
    }
}

/// `SorterInsert`: the host inserts the row in the register into the sorter.
pub open spec fn inserts(
    st: StateView,
    cursor_id: CursorID,
    record_reg: usize,
    reply: ReplyView,
) -> After {
    if !st.is_open(cursor_id) || !st.has(record_reg) {
        fault(st)
    } else {
        match st.reg(record_reg) {
            ValueView::Record(record) => match reply {
                ReplyView::Nothing => ask(st, RequestView::Insert { cursor_id, record }),
                ReplyView::Done => (st.next(), EffectView::Continue),
                ReplyView::Failed => cursor_failed(st),
                _ => bad_reply(st),
            },
            _ => fault(st),
        }
    }
}

/// `SorterSort`: the host sorts the sorter's rows and moves it to the first one; where there is no
/// such sorter, execution goes on at `pc_if_empty`.
pub open spec fn sorts(
    st: StateView,
    cursor_id: CursorID,
    pc_if_empty: BranchOffset,
    reply: ReplyView,
) -> After {
    if !st.is_open(cursor_id) {
        unasked(st, st.jump(pc_if_empty), reply)
    } else {
        match reply {
            ReplyView::Nothing => ask(st, RequestView::Rewind { cursor_id }),
            ReplyView::Done | ReplyView::Io => (st.next(), EffectView::Continue),
            ReplyView::Failed => cursor_failed(st),
            _ => bad_reply(st),
        }
    }
}

/// `SorterData`: register `dest_reg` holds the sorter's row, and the host hands the row to the
/// pseudo cursor. The register and the pseudo cursor are asked for when the row has been read; the
/// pseudo cursor is not done with the row before the register holds one.
pub open spec fn passes_on(
    st: StateView,
    cursor_id: CursorID,
    dest_reg: usize,
    pseudo_cursor: CursorID,
    reply: ReplyView,
) -> After {
    if !st.is_open(cursor_id) {
        fault(st)
    } else {
        let ready = st.is_open(pseudo_cursor) && st.has(dest_reg);
        match reply {
            ReplyView::Nothing => ask(st, RequestView::ReadRecord { cursor_id }),
            ReplyView::Record(row) => match row {
                Some(record) if ready => ask(
                    st.set(dest_reg, ValueView::Record(record)),
                    RequestView::Insert { cursor_id: pseudo_cursor, record },
                ),
                _ => fault(st),
            },
            ReplyView::Done if ready && st.reg(dest_reg) is Record => (st.next(), EffectView::Continue),
            ReplyView::Failed => cursor_failed(st),
            _ => bad_reply(st),
        }
    }
}

/// `SorterNext`: the host moves the sorter to its next row, and execution goes on at `pc_if_next`
/// where there is one.
pub open spec fn advances_sorter(
    st: StateView,
    cursor_id: CursorID,
    pc_if_next: BranchOffset,
    reply: ReplyView,
) -> After {
    if pc_if_next < 0 || !st.is_open(cursor_id) {
        fault(st)
    } else {
        match reply {
            ReplyView::Nothing => ask(st, RequestView::SorterNext { cursor_id }),
            ReplyView::Io => (st, EffectView::IO),
            ReplyView::Empty(empty) => (st.jump_if(!empty, pc_if_next), EffectView::Continue),
            ReplyView::Failed => cursor_failed(st),
            _ => bad_reply(st),
        }
    }
}

/// `Function` with LIKE: register `dest` holds 1 where the second register is like the first one,
/// and 0 elsewhere.
pub open spec fn likens(st: StateView, start_reg: usize, dest: usize, reply: ReplyView) -> After {
    if start_reg + 2 > st.registers.len() || !st.has(dest) {
        fault(st)
    } else {
        match (st.registers[start_reg as int], st.registers[start_reg + 1]) {
            (ValueView::Text(pattern), ValueView::Text(text)) => if regex_accepts(
                whole_regex(pattern),
            ) {
                stores(
                    st,
                    dest,
                    ValueView::Integer(
                        if is_like(pattern, text) {
                            1
                        } else {
                            0
                        },
                    ),
                    reply,
                )
            } else {
                fault(st)
            },
            _ => fault(st),
        }
    }
}

/// `Function` with a function of the first register and, where it takes one, of the register after
/// it: register `dest` holds the function's value. A random integer is the integer that was drawn,
/// where the system gave one.
pub open spec fn applies(
    st: StateView,
    start_reg: usize,
    dest: usize,
    func: SingleRowFunc,
    reply: ReplyView,
    draw: Option<i64>,
) -> After {
    match func {
        SingleRowFunc::Coalesce => unasked(st, st, reply),
        SingleRowFunc::Like => likens(st, start_reg, dest, reply),
        SingleRowFunc::Random => match draw {
            Some(i) => stores(st, dest, ValueView::Integer(i), reply),
            None => (st, EffectView::Error(StepError::RandomUnavailable)),
        },
        _ => if !st.has(start_reg) || !st.has(dest) {
            fault(st)
        } else {
            let v = st.reg(start_reg);
            let w = st.maybe_reg(start_reg + 1);
            match func {
                SingleRowFunc::Abs => if v == ValueView::Integer(i64::MIN) {
                    fault(st)
                } else {
                    stores(st, dest, abs_value(v), reply)
                },
                SingleRowFunc::Upper => stores(st, dest, upper_value(v), reply),
                SingleRowFunc::Lower => stores(st, dest, lower_value(v), reply),
                SingleRowFunc::Length => stores(st, dest, length_value(v), reply),
                SingleRowFunc::Trim => stores(st, dest, trim_value(v, w), reply),
                _ => match round_value(v, w) {
                    RoundingView::Value(x) => stores(st, dest, x, reply),
                    RoundingView::Host { value, precision } => float_result(
                        st,
                        dest,
                        RequestView::Round { value, precision },
                        reply,
                    ),
                },
            }
        },
    }
}

/// What an instruction does in a state, with the host's reply to what it has asked, if anything,
/// and the random integer that was drawn for it.
#[verifier::opaque]
pub open spec fn executed(
    insn: Insn,
    st: StateView,
    reply: ReplyView,
    draw: Option<i64>,
) -> After {
    match insn {
        Insn::Init { target_pc } => goes_to(st, target_pc, reply),
        Insn::Goto { target_pc } => goes_to(st, target_pc, reply),
        Insn::Null { dest } => stores(st, dest, ValueView::Null, reply),
        Insn::Integer { value, dest } => stores(st, dest, ValueView::Integer(value), reply),
        Insn::Real { value, dest } => stores(st, dest, ValueView::Float(value@), reply),
        Insn::String8 { value, dest } => stores(st, dest, ValueView::Text(value@), reply),
        Insn::Add { lhs, rhs, dest } => adds(st, lhs, rhs, dest, reply),
        Insn::NullRow { cursor_id } => moves_to_null_row(st, cursor_id, reply),
        Insn::IfPos { reg, target_pc, decrement_by } => if_pos(
            st,
            reg,
            target_pc,
            decrement_by,
            reply,
        ),
        Insn::NotNull { reg, target_pc } => if_not_null(st, reg, target_pc, reply),
        Insn::Eq { lhs, rhs, target_pc } => compares(st, Test::Eq, lhs, rhs, target_pc, reply),
        Insn::Ne { lhs, rhs, target_pc } => compares(st, Test::Ne, lhs, rhs, target_pc, reply),
        Insn::Lt { lhs, rhs, target_pc } => compares(st, Test::Lt, lhs, rhs, target_pc, reply),
        Insn::Le { lhs, rhs, target_pc } => compares(st, Test::Le, lhs, rhs, target_pc, reply),
        Insn::Gt { lhs, rhs, target_pc } => compares(st, Test::Gt, lhs, rhs, target_pc, reply),
        Insn::Ge { lhs, rhs, target_pc } => compares(st, Test::Ge, lhs, rhs, target_pc, reply),
        Insn::If { reg, target_pc, null_reg } => jumps_on(
            st,
            reg,
            target_pc,
            null_reg,
            false,
            reply,
        ),
        Insn::IfNot { reg, target_pc, null_reg } => jumps_on(
            st,
            reg,
            target_pc,
            null_reg,
            true,
            reply,
        ),
        Insn::OpenReadAsync { cursor_id, root_page } => opens(
            st,
            cursor_id,
            RequestView::OpenRead { cursor_id, root_page },
            reply,
        ),
        Insn::OpenReadAwait => unasked(st, st.next(), reply),
        Insn::OpenPseudo { cursor_id, .. } => opens(
            st,
            cursor_id,
            RequestView::OpenPseudo { cursor_id },
            reply,
        ),
        Insn::RewindAsync { cursor_id } => rewinds(st, cursor_id, reply),
        Insn::RewindAwait { cursor_id, pc_if_empty } => awaits(
            st,
            cursor_id,
            true,
            pc_if_empty,
            reply,
        ),
        Insn::Column { cursor_id, column, dest } => reads_column(
            st,
            cursor_id,
            column,
            dest,
            reply,
        ),
        Insn::MakeRecord { start_reg, count, dest_reg } => makes_record(
            st,
            start_reg,
            count,
            dest_reg,
            reply,
        ),
        Insn::ResultRow { start_reg, count } => emits_row(st, start_reg, count, reply),
        Insn::NextAsync { cursor_id } => advances(st, cursor_id, reply),
        Insn::NextAwait { cursor_id, pc_if_next } => awaits_next(
            st,
            cursor_id,
            pc_if_next,
            reply,
        ),
        Insn::Halt => halts(st, reply),
        Insn::Transaction => unasked(st, st.next(), reply),
        Insn::RealAffinity { register } => makes_float(st, register, reply),
        Insn::RowId { cursor_id, dest } => reads_rowid(st, cursor_id, dest, reply),
        Insn::DecrJumpZero { reg, target_pc } => decrements(st, reg, target_pc, reply),
        Insn::AggStep { acc_reg, col, delimiter, func } => takes_in(
            st,
            acc_reg,
            col,
            delimiter,
            func,
            reply,
        ),
        Insn::AggFinal { register, func } => completes(st, register, func, reply),
        Insn::SorterOpen { cursor_id, order, .. } => opens_sorter(st, cursor_id, order@, reply),
        Insn::SorterInsert { cursor_id, record_reg } => inserts(st, cursor_id, record_reg, reply),
        Insn::SorterSort { cursor_id, pc_if_empty } => sorts(st, cursor_id, pc_if_empty, reply),
        Insn::SorterData { cursor_id, dest_reg, pseudo_cursor } => passes_on(
            st,
            cursor_id,
            dest_reg,
            pseudo_cursor,
            reply,
        ),
        Insn::SorterNext { cursor_id, pc_if_next } => advances_sorter(
            st,
            cursor_id,
            pc_if_next,
            reply,
        ),
        Insn::Function { start_reg, dest, func } => applies(
            st,
            start_reg,
            dest,
            func,
            reply,
            draw,
        ),
    }
}

} // verus!
