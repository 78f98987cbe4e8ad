//! Laws of single instructions: where each one goes on, what it writes, and what it asks of the
//! host.

use vstd::prelude::*;
use crate::aggregate::{agg_final, agg_start, agg_step, FedView};
use crate::arith::NumberView;
use crate::double::{is_nan, numeric, Double, DoubleView};
use crate::function::{AggFunc, SingleRowFunc};
use crate::insn::Insn;
use crate::like::{has_wildcard, is_like, law_like_prefix, regex_accepts, whole_regex};
use crate::protocol::{EffectView, ReplyView, RequestView, StepError};
use crate::record::taken;
use crate::relation::{
    law_equal_values, law_order_of_numbers, law_order_of_text, law_ranking_reversed, ranking,
    same_value, Ranking,
};
use crate::scalar::{
    abs_value, length_value, lower_value, round_value, trim_value, upper_value, RoundingView,
};
use crate::semantics::{executed, leaves_out};
use crate::state::StateView;
use crate::text::Order;
use crate::value::{handed_out, AggView, OwnedRecord, ValueView};
use crate::{BranchOffset, CursorID, PageIdx};

verus! {

/// `Init` and `Goto` go on at the given position and change nothing else. A label that has not been
/// resolved cannot be jumped to.
pub proof fn law_goto(st: StateView, target_pc: BranchOffset, reply: ReplyView, draw: Option<i64>)
    ensures
        target_pc >= 0 ==> {
            &&& executed(Insn::Goto { target_pc }, st, ReplyView::Nothing, draw) == (
                StateView { pc: target_pc, ..st },
                EffectView::Continue,
            )
            &&& executed(Insn::Init { target_pc }, st, ReplyView::Nothing, draw) == (
                StateView { pc: target_pc, ..st },
                EffectView::Continue,
            )
        },
        target_pc < 0 ==> {
            &&& executed(Insn::Goto { target_pc }, st, reply, draw) == (
                st,
                EffectView::Error(StepError::Fault),
            )
            &&& executed(Insn::Init { target_pc }, st, reply, draw) == (
                st,
                EffectView::Error(StepError::Fault),
            )
        },
{
    reveal(executed);
}

/// Tells whether an instruction does all it does by itself: it never asks the host for anything.
pub open spec fn never_asks(insn: Insn) -> bool {
    match insn {
        Insn::Init { .. } | Insn::Goto { .. } | Insn::Null { .. } | Insn::Integer { .. }
        | Insn::Real { .. } | Insn::String8 { .. } | Insn::NullRow { .. } | Insn::IfPos { .. }
        | Insn::NotNull { .. } | Insn::Eq { .. } | Insn::Ne { .. } | Insn::Lt { .. }
        | Insn::Le { .. } | Insn::Gt { .. } | Insn::Ge { .. } | Insn::If { .. }
        | Insn::IfNot { .. } | Insn::OpenReadAwait | Insn::MakeRecord { .. }
        | Insn::ResultRow { .. } | Insn::Halt | Insn::Transaction | Insn::DecrJumpZero { .. } =>
            true,
        _ => false,
    }
}

/// An instruction that does all it does by itself asks for nothing, and takes no reply.
pub proof fn law_never_asks(insn: Insn, st: StateView, reply: ReplyView, draw: Option<i64>)
    requires
        never_asks(insn),
    ensures
        !(executed(insn, st, reply, draw).1 is Ask),
        !(executed(insn, st, reply, draw).1 is IO),
        !(reply is Nothing) ==> executed(insn, st, reply, draw).0 == st && executed(
            insn,
            st,
            reply,
            draw,
        ).1 is Error,
{
    reveal(executed);
}

/// `Null`, `Integer`, `Real` and `String8` write their value into their register, and no other
/// register changes. Where there is no such register, nothing is done.
pub proof fn law_load(
    st: StateView,
    dest: usize,
    value: i64,
    d: Double,
    text: String,
    reply: ReplyView,
    draw: Option<i64>,
)
    ensures
        dest < st.registers.len() ==> {
            &&& executed(Insn::Null { dest }, st, ReplyView::Nothing, draw) == (
                StateView {
                    pc: (st.pc + 1) as BranchOffset,
                    registers: st.registers.update(dest as int, ValueView::Null),
                    cursors: st.cursors,
                },
                EffectView::Continue,
            )
            &&& executed(Insn::Integer { value, dest }, st, ReplyView::Nothing, draw) == (
                StateView {
                    pc: (st.pc + 1) as BranchOffset,
                    registers: st.registers.update(dest as int, ValueView::Integer(value)),
                    cursors: st.cursors,
                },
                EffectView::Continue,
            )
            &&& executed(Insn::Real { value: d, dest }, st, ReplyView::Nothing, draw) == (
                StateView {
                    pc: (st.pc + 1) as BranchOffset,
                    registers: st.registers.update(
                        dest as int,
                        ValueView::Float(
                            DoubleView { bits: d.bits, plain: d.plain@, marked: d.marked@ },
                        ),
                    ),
                    cursors: st.cursors,
                },
                EffectView::Continue,
            )
            &&& executed(Insn::String8 { value: text, dest }, st, ReplyView::Nothing, draw) == (
                StateView {
                    pc: (st.pc + 1) as BranchOffset,
                    registers: st.registers.update(dest as int, ValueView::Text(text@)),
                    cursors: st.cursors,
                },
                EffectView::Continue,
            )
        },
        dest >= st.registers.len() ==> {
            &&& executed(Insn::Null { dest }, st, reply, draw) == (
                st,
                EffectView::Error(StepError::Fault),
            )
            &&& executed(Insn::Integer { value, dest }, st, reply, draw) == (
                st,
                EffectView::Error(StepError::Fault),
            )
            &&& executed(Insn::Real { value: d, dest }, st, reply, draw) == (
                st,
                EffectView::Error(StepError::Fault),
            )
            &&& executed(Insn::String8 { value: text, dest }, st, reply, draw) == (
                st,
                EffectView::Error(StepError::Fault),
            )
        },
{
    reveal(executed);
}

/// `Add` writes the sum of two integers, where it does not overflow; of two floats it asks the host
/// for the sum, in the order of the operands, and writes the answer. There is no sum of other
/// values, nor where a register is missing.
pub proof fn law_add(
    st: StateView,
    lhs: usize,
    rhs: usize,
    dest: usize,
    d: DoubleView,
    draw: Option<i64>,
)
    ensures
        ({
            let insn = Insn::Add { lhs, rhs, dest };
            let there = lhs < st.registers.len() && rhs < st.registers.len() && dest
                < st.registers.len();
            let (x, y) = (st.registers[lhs as int], st.registers[rhs as int]);
            let asked = executed(insn, st, ReplyView::Nothing, draw);
            let answered = executed(insn, st, ReplyView::Float(d), draw);
            &&& there && x is Integer && y is Integer && i64::MIN <= x->Integer_0 + y->Integer_0
                <= i64::MAX ==> asked == (
                StateView {
                    pc: (st.pc + 1) as BranchOffset,
                    registers: st.registers.update(
                        dest as int,
                        ValueView::Integer((x->Integer_0 + y->Integer_0) as i64),
                    ),
                    cursors: st.cursors,
                },
                EffectView::Continue,
            )
            &&& there && x is Float && y is Float ==> asked == (
                st,
                EffectView::Ask(
                    RequestView::Add(NumberView::Float(x->Float_0), NumberView::Float(y->Float_0)),
                ),
            ) && answered == (
                StateView {
                    pc: (st.pc + 1) as BranchOffset,
                    registers: st.registers.update(dest as int, ValueView::Float(d)),
                    cursors: st.cursors,
                },
                EffectView::Continue,
            )
            &&& !there || !((x is Integer && y is Integer && i64::MIN <= x->Integer_0
                + y->Integer_0 <= i64::MAX) || (x is Float && y is Float)) ==> asked == (
                st,
                EffectView::Error(StepError::Fault),
            )
        }),
{
    reveal(executed);
}

/// `IfPos` takes `decrement_by` off a positive integer and jumps, where that does not overflow;
/// with zero or a negative integer it goes on and leaves the register as it is; with anything else
/// it fails.
pub proof fn law_if_pos(
    st: StateView,
    reg: usize,
    target_pc: BranchOffset,
    decrement_by: usize,
    draw: Option<i64>,
)
    requires
        reg < st.registers.len(),
        target_pc >= 0,
    ensures
        ({
            let insn = Insn::IfPos { reg, target_pc, decrement_by };
            let after = executed(insn, st, ReplyView::Nothing, draw);
            let by = decrement_by as i64;
            match st.registers[reg as int] {
                ValueView::Integer(n) => {
                    &&& n > 0 && n - by <= i64::MAX ==> after == (
                        StateView {
                            pc: target_pc,
                            registers: st.registers.update(
                                reg as int,
                                ValueView::Integer((n - by) as i64),
                            ),
                            cursors: st.cursors,
                        },
                        EffectView::Continue,
                    )
                    &&& n > 0 && n - by > i64::MAX ==> after == (
                        st,
                        EffectView::Error(StepError::Fault),
                    )
                    &&& n <= 0 ==> after == (
                        StateView { pc: (st.pc + 1) as BranchOffset, ..st },
                        EffectView::Continue,
                    )
                },
                _ => after == (st, EffectView::Error(StepError::IfPosNotInteger)),
            }
        }),
{
    reveal(executed);
}

/// `DecrJumpZero` takes one off its integer, and jumps just where nothing is left; so with a
/// positive integer it jumps when it is executed for the last time of as many times.
pub proof fn law_decr_jump_zero(
    st: StateView,
    reg: usize,
    target_pc: BranchOffset,
    n: i64,
    draw: Option<i64>,
)
    requires
        reg < st.registers.len(),
        target_pc >= 0,
        st.registers[reg as int] == ValueView::Integer(n),
        n > i64::MIN,
    ensures
        executed(Insn::DecrJumpZero { reg, target_pc }, st, ReplyView::Nothing, draw) == (
            StateView {
                pc: if n == 1 {
                    target_pc
                } else {
                    (st.pc + 1) as BranchOffset
                },
                registers: st.registers.update(reg as int, ValueView::Integer((n - 1) as i64)),
                cursors: st.cursors,
            },
            EffectView::Continue,
        ),
{
    reveal(executed);
}

/// `NotNull` jumps unless its register holds NULL; it writes nothing.
pub proof fn law_not_null(st: StateView, reg: usize, target_pc: BranchOffset, draw: Option<i64>)
    requires
        reg < st.registers.len(),
        target_pc >= 0,
    ensures
        executed(Insn::NotNull { reg, target_pc }, st, ReplyView::Nothing, draw) == (
            StateView {
                pc: if st.registers[reg as int] == ValueView::Null {
                    (st.pc + 1) as BranchOffset
                } else {
                    target_pc
                },
                ..st
            },
            EffectView::Continue,
        ),
{
    reveal(executed);
}

/// `If` and `IfNot`: a number decides by whether it is zero. For NULL the other register decides
/// alike for both, and jumps where it holds a number other than zero. Other values do not jump.
pub proof fn law_if(
    st: StateView,
    reg: usize,
    target_pc: BranchOffset,
    null_reg: usize,
    draw: Option<i64>,
)
    requires
        reg < st.registers.len(),
        null_reg < st.registers.len(),
        target_pc >= 0,
    ensures
        ({
            let jump = (StateView { pc: target_pc, ..st }, EffectView::Continue);
            let pass = (
                StateView { pc: (st.pc + 1) as BranchOffset, ..st },
                EffectView::Continue,
            );
            let yes = executed(
                Insn::If { reg, target_pc, null_reg },
                st,
                ReplyView::Nothing,
                draw,
            );
            let no = executed(
                Insn::IfNot { reg, target_pc, null_reg },
                st,
                ReplyView::Nothing,
                draw,
            );
            match st.registers[reg as int] {
                ValueView::Integer(n) => {
                    &&& n != 0 ==> yes == jump && no == pass
                    &&& n == 0 ==> yes == pass && no == jump
                },
                ValueView::Float(d) => {
                    &&& d.bits != 0 && d.bits != 0x8000_0000_0000_0000u64 ==> yes == jump && no
                        == pass
                    &&& d.bits == 0 || d.bits == 0x8000_0000_0000_0000u64 ==> yes == pass && no
                        == jump
                },
                ValueView::Null => match st.registers[null_reg as int] {
                    ValueView::Integer(n) => {
                        &&& n != 0 ==> yes == jump && no == jump
                        &&& n == 0 ==> yes == pass && no == pass
                    },
                    ValueView::Float(d) => {
                        &&& d.bits != 0 && d.bits != 0x8000_0000_0000_0000u64 ==> yes == jump && no
                            == jump
                        &&& d.bits == 0 || d.bits == 0x8000_0000_0000_0000u64 ==> yes == pass && no
                            == pass
                    },
                    _ => yes == pass && no == pass,
                },
                _ => yes == pass && no == pass,
            }
        }),
{
    reveal(executed);
}

/// The six comparisons: where a register holds NULL, all of them jump. Otherwise `Eq` jumps just
/// where the two values are equal and `Ne` just where they are not; and, of two values that have an
/// order, `Lt` just where that of `lhs` comes before that of `rhs`, `Gt` where it comes behind it,
/// `Le` and `Ge` where `Gt` and `Lt` do not. None of them writes anything.
pub proof fn law_comparisons(
    st: StateView,
    lhs: usize,
    rhs: usize,
    target_pc: BranchOffset,
    draw: Option<i64>,
)
    requires
        lhs < st.registers.len(),
        rhs < st.registers.len(),
        target_pc >= 0,
    ensures
        ({
            let jump = (StateView { pc: target_pc, ..st }, EffectView::Continue);
            let pass = (
                StateView { pc: (st.pc + 1) as BranchOffset, ..st },
                EffectView::Continue,
            );
            let (x, y) = (st.registers[lhs as int], st.registers[rhs as int]);
            let eq = executed(Insn::Eq { lhs, rhs, target_pc }, st, ReplyView::Nothing, draw);
            let ne = executed(Insn::Ne { lhs, rhs, target_pc }, st, ReplyView::Nothing, draw);
            let lt = executed(Insn::Lt { lhs, rhs, target_pc }, st, ReplyView::Nothing, draw);
            let le = executed(Insn::Le { lhs, rhs, target_pc }, st, ReplyView::Nothing, draw);
            let gt = executed(Insn::Gt { lhs, rhs, target_pc }, st, ReplyView::Nothing, draw);
            let ge = executed(Insn::Ge { lhs, rhs, target_pc }, st, ReplyView::Nothing, draw);
            &&& x is Null || y is Null ==> eq == jump && ne == jump && lt == jump && le == jump
                && gt == jump && ge == jump
            &&& !(x is Null) && !(y is Null) ==> {
                &&& same_value(x, y) ==> eq == jump && ne == pass
                &&& !same_value(x, y) ==> eq == pass && ne == jump
                &&& match ranking(x, y) {
                    Ranking::Ordered(Order::Less) => lt == jump && le == jump && gt == pass && ge
                        == pass,
                    Ranking::Ordered(Order::Equal) => lt == pass && le == jump && gt == pass && ge
                        == jump,
                    Ranking::Ordered(Order::Greater) => lt == pass && le == pass && gt == jump
                        && ge == jump,
                    Ranking::Unordered => lt == pass && le == pass && gt == pass && ge == pass,
                    Ranking::Undefined => {
                        &&& lt == (st, EffectView::Error(StepError::Fault))
                        &&& le == lt && gt == lt && ge == lt
                    },
                }
            }
        }),
{
    reveal(executed);
}

/// The comparisons of two integers.
pub proof fn law_comparisons_of_integers(
    st: StateView,
    lhs: usize,
    rhs: usize,
    target_pc: BranchOffset,
    draw: Option<i64>,
)
    requires
        lhs < st.registers.len(),
        rhs < st.registers.len(),
        target_pc >= 0,
        st.registers[lhs as int] is Integer,
        st.registers[rhs as int] is Integer,
    ensures
        ({
            let jump = StateView { pc: target_pc, ..st };
            let pass = StateView { pc: (st.pc + 1) as BranchOffset, ..st };
            let (x, y) = (
                st.registers[lhs as int]->Integer_0,
                st.registers[rhs as int]->Integer_0,
            );
            &&& executed(Insn::Eq { lhs, rhs, target_pc }, st, ReplyView::Nothing, draw).0 == if x
                == y {
                jump
            } else {
                pass
            }
            &&& executed(Insn::Ne { lhs, rhs, target_pc }, st, ReplyView::Nothing, draw).0 == if x
                != y {
                jump
            } else {
                pass
            }
            &&& executed(Insn::Lt { lhs, rhs, target_pc }, st, ReplyView::Nothing, draw).0 == if x
                < y {
                jump
            } else {
                pass
            }
            &&& executed(Insn::Le { lhs, rhs, target_pc }, st, ReplyView::Nothing, draw).0 == if x
                <= y {
                jump
            } else {
                pass
            }
            &&& executed(Insn::Gt { lhs, rhs, target_pc }, st, ReplyView::Nothing, draw).0 == if x
                > y {
                jump
            } else {
                pass
            }
            &&& executed(Insn::Ge { lhs, rhs, target_pc }, st, ReplyView::Nothing, draw).0 == if x
                >= y {
                jump
            } else {
                pass
            }
        }),
{
    law_comparisons(st, lhs, rhs, target_pc, draw);
}

/// An instruction that jumps does nothing where its label has not been resolved, or a register that
/// it reads is missing.
pub proof fn law_jump_faults(
    st: StateView,
    a: usize,
    b: usize,
    target_pc: BranchOffset,
    by: usize,
    reply: ReplyView,
    draw: Option<i64>,
)
    ensures
        ({
            let fault = (st, EffectView::Error(StepError::Fault));
            &&& target_pc < 0 || a >= st.registers.len() || b >= st.registers.len() ==> {
                &&& executed(Insn::Eq { lhs: a, rhs: b, target_pc }, st, reply, draw) == fault
                &&& executed(Insn::Ne { lhs: a, rhs: b, target_pc }, st, reply, draw) == fault
                &&& executed(Insn::Lt { lhs: a, rhs: b, target_pc }, st, reply, draw) == fault
                &&& executed(Insn::Le { lhs: a, rhs: b, target_pc }, st, reply, draw) == fault
                &&& executed(Insn::Gt { lhs: a, rhs: b, target_pc }, st, reply, draw) == fault
                &&& executed(Insn::Ge { lhs: a, rhs: b, target_pc }, st, reply, draw) == fault
                &&& executed(Insn::If { reg: a, target_pc, null_reg: b }, st, reply, draw) == fault
                &&& executed(Insn::IfNot { reg: a, target_pc, null_reg: b }, st, reply, draw)
                    == fault
            }
            &&& target_pc < 0 || a >= st.registers.len() ==> {
                &&& executed(Insn::NotNull { reg: a, target_pc }, st, reply, draw) == fault
                &&& executed(
                    Insn::IfPos { reg: a, target_pc, decrement_by: by },
                    st,
                    reply,
                    draw,
                ) == fault
                &&& executed(Insn::DecrJumpZero { reg: a, target_pc }, st, reply, draw) == fault
            }
            &&& a < st.registers.len() && (!(st.registers[a as int] is Integer)
                || st.registers[a as int] == ValueView::Integer(i64::MIN)) ==> executed(
                Insn::DecrJumpZero { reg: a, target_pc },
                st,
                reply,
                draw,
            ) == fault
        }),
{
    reveal(executed);
}

/// `OpenReadAwait` and `Transaction` go on and change nothing; `Halt` ends the program where it is.
pub proof fn law_pass_and_halt(st: StateView, draw: Option<i64>)
    ensures
        executed(Insn::OpenReadAwait, st, ReplyView::Nothing, draw) == (
            StateView { pc: (st.pc + 1) as BranchOffset, ..st },
            EffectView::Continue,
        ),
        executed(Insn::Transaction, st, ReplyView::Nothing, draw) == (
            StateView { pc: (st.pc + 1) as BranchOffset, ..st },
            EffectView::Continue,
        ),
        executed(Insn::Halt, st, ReplyView::Nothing, draw) == (st, EffectView::Done),
{
    reveal(executed);
}

/// `OpenReadAsync` and `OpenPseudo` have the host open the cursor that they name, on the page that
/// is given; when that is done, the cursor is open, and on no null row. Other cursors stay as they
/// are.
pub proof fn law_open(
    st: StateView,
    cursor_id: CursorID,
    root_page: PageIdx,
    content_reg: usize,
    num_fields: usize,
    draw: Option<i64>,
)
    ensures
        ({
            let read = Insn::OpenReadAsync { cursor_id, root_page };
            let pseudo = Insn::OpenPseudo { cursor_id, content_reg, num_fields };
            let opened = (
                StateView {
                    pc: (st.pc + 1) as BranchOffset,
                    registers: st.registers,
                    cursors: st.cursors.insert(cursor_id, false),
                },
                EffectView::Continue,
            );
            &&& executed(read, st, ReplyView::Nothing, draw) == (
                st,
                EffectView::Ask(RequestView::OpenRead { cursor_id, root_page }),
            )
            &&& executed(pseudo, st, ReplyView::Nothing, draw) == (
                st,
                EffectView::Ask(RequestView::OpenPseudo { cursor_id }),
            )
            &&& executed(read, st, ReplyView::Done, draw) == opened
            &&& executed(pseudo, st, ReplyView::Done, draw) == opened
        }),
{
    reveal(executed);
}

/// `SorterOpen` has the host open a sorter in which each column ascends just where its own order is
/// the integer 0, whatever the order of the other columns. The order of every column has to be an
/// integer.
pub proof fn law_sorter_open(
    st: StateView,
    cursor_id: CursorID,
    columns: usize,
    order: OwnedRecord,
    draw: Option<i64>,
)
    ensures
        ({
            let insn = Insn::SorterOpen { cursor_id, columns, order };
            let asked = executed(insn, st, ReplyView::Nothing, draw);
            let opened = executed(insn, st, ReplyView::Done, draw);
            if forall|i: int| 0 <= i < order@.len() ==> (#[trigger] order@[i]) is Integer {
                &&& asked.0 == st
                &&& asked.1 matches EffectView::Ask(RequestView::OpenSorter { cursor_id: c, order: o })
                    && c == cursor_id && o.len() == order@.len() && (forall|i: int|
                    0 <= i < o.len() ==> (#[trigger] o[i] <==> order@[i] == ValueView::Integer(0)))
                &&& opened == (
                    StateView {
                        pc: (st.pc + 1) as BranchOffset,
                        registers: st.registers,
                        cursors: st.cursors.insert(cursor_id, false),
                    },
                    EffectView::Continue,
                )
            } else {
                asked == (st, EffectView::Error(StepError::Fault)) && opened == asked
            }
        }),
{
    reveal(executed);
}

/// `RewindAsync` has the host move the cursor to its first row, and `NextAsync` to its next one.
/// When that is done, execution goes on. `NextAsync` takes the cursor off the null row.
pub proof fn law_move_cursor(st: StateView, cursor_id: CursorID, draw: Option<i64>)
    requires
        st.cursors.contains_key(cursor_id),
    ensures
        ({
            let rewind = Insn::RewindAsync { cursor_id };
            let next = Insn::NextAsync { cursor_id };
            let moved = StateView { cursors: st.cursors.insert(cursor_id, false), ..st };
            &&& executed(rewind, st, ReplyView::Nothing, draw) == (
                st,
                EffectView::Ask(RequestView::Rewind { cursor_id }),
            )
            &&& executed(rewind, st, ReplyView::Done, draw) == (
                StateView { pc: (st.pc + 1) as BranchOffset, ..st },
                EffectView::Continue,
            )
            &&& executed(rewind, st, ReplyView::Io, draw) == (st, EffectView::IO)
            &&& executed(rewind, st, ReplyView::Failed, draw) == (
                st,
                EffectView::Error(StepError::CursorFailed),
            )
            &&& executed(next, st, ReplyView::Nothing, draw) == (
                moved,
                EffectView::Ask(RequestView::Next { cursor_id }),
            )
            &&& executed(next, st, ReplyView::Done, draw) == (
                StateView { pc: (st.pc + 1) as BranchOffset, ..moved },
                EffectView::Continue,
            )
            &&& executed(next, st, ReplyView::Io, draw) == (moved, EffectView::IO)
            &&& executed(next, st, ReplyView::Failed, draw) == (
                moved,
                EffectView::Error(StepError::CursorFailed),
            )
        }),
{
    reveal(executed);
}

/// `RewindAwait` jumps just where the cursor has no row, `NextAwait` just where it has one.
pub proof fn law_await(
    st: StateView,
    cursor_id: CursorID,
    target_pc: BranchOffset,
    empty: bool,
    draw: Option<i64>,
)
    requires
        st.cursors.contains_key(cursor_id),
        target_pc >= 0,
    ensures
        ({
            let rewind = Insn::RewindAwait { cursor_id, pc_if_empty: target_pc };
            let next = Insn::NextAwait { cursor_id, pc_if_next: target_pc };
            let jump = (StateView { pc: target_pc, ..st }, EffectView::Continue);
            let pass = (
                StateView { pc: (st.pc + 1) as BranchOffset, ..st },
                EffectView::Continue,
            );
            let asked = (st, EffectView::Ask(RequestView::AwaitCompletion { cursor_id }));
            let failed = (st, EffectView::Error(StepError::CursorFailed));
            &&& executed(rewind, st, ReplyView::Nothing, draw) == asked
            &&& executed(next, st, ReplyView::Nothing, draw) == asked
            &&& executed(rewind, st, ReplyView::Empty(true), draw) == jump
            &&& executed(rewind, st, ReplyView::Empty(false), draw) == pass
            &&& executed(next, st, ReplyView::Empty(true), draw) == pass
            &&& executed(next, st, ReplyView::Empty(false), draw) == jump
            &&& executed(rewind, st, ReplyView::Failed, draw) == failed
            &&& executed(next, st, ReplyView::Failed, draw) == failed
        }),
{
    reveal(executed);
}

/// `NullRow` puts its own cursor on the null row, and changes nothing else.
pub proof fn law_null_row(st: StateView, cursor_id: CursorID, draw: Option<i64>)
    requires
        st.cursors.contains_key(cursor_id),
    ensures
        executed(Insn::NullRow { cursor_id }, st, ReplyView::Nothing, draw) == (
            StateView {
                pc: (st.pc + 1) as BranchOffset,
                registers: st.registers,
                cursors: st.cursors.insert(cursor_id, true),
            },
            EffectView::Continue,
        ),
{
    reveal(executed);
}

/// `Column` reads the current row of its cursor and writes the column that it names into its
/// register: NULL where there is no row, or the cursor is on the null row. There is no column
/// behind the last.
pub proof fn law_column(
    st: StateView,
    cursor_id: CursorID,
    column: usize,
    dest: usize,
    row: Seq<ValueView>,
    draw: Option<i64>,
)
    requires
        st.cursors.contains_key(cursor_id),
        dest < st.registers.len(),
    ensures
        ({
            let insn = Insn::Column { cursor_id, column, dest };
            let null = (
                StateView {
                    pc: (st.pc + 1) as BranchOffset,
                    registers: st.registers.update(dest as int, ValueView::Null),
                    cursors: st.cursors,
                },
                EffectView::Continue,
            );
            let read = executed(insn, st, ReplyView::Record(Some(row)), draw);
            &&& executed(insn, st, ReplyView::Nothing, draw) == (
                st,
                EffectView::Ask(RequestView::ReadRecord { cursor_id }),
            )
            &&& executed(insn, st, ReplyView::Record(None), draw) == null
            &&& st.cursors[cursor_id] ==> read == null
            &&& !st.cursors[cursor_id] && column < row.len() ==> read == (
                StateView {
                    pc: (st.pc + 1) as BranchOffset,
                    registers: st.registers.update(dest as int, row[column as int]),
                    cursors: st.cursors,
                },
                EffectView::Continue,
            )
            &&& !st.cursors[cursor_id] && column >= row.len() ==> read == (
                st,
                EffectView::Error(StepError::Fault),
            )
            &&& executed(insn, st, ReplyView::Failed, draw) == (
                st,
                EffectView::Error(StepError::CursorFailed),
            )
        }),
{
    reveal(executed);
}

/// `RowId` writes the rowid of its cursor's row into its register, in two's complement. There has
/// to be one.
pub proof fn law_rowid(
    st: StateView,
    cursor_id: CursorID,
    dest: usize,
    id: u64,
    draw: Option<i64>,
)
    requires
        st.cursors.contains_key(cursor_id),
        dest < st.registers.len(),
    ensures
        ({
            let insn = Insn::RowId { cursor_id, dest };
            &&& executed(insn, st, ReplyView::Nothing, draw) == (
                st,
                EffectView::Ask(RequestView::ReadRowId { cursor_id }),
            )
            &&& id <= i64::MAX ==> executed(insn, st, ReplyView::RowId(Some(id)), draw) == (
                StateView {
                    pc: (st.pc + 1) as BranchOffset,
                    registers: st.registers.update(dest as int, ValueView::Integer(id as i64)),
                    cursors: st.cursors,
                },
                EffectView::Continue,
            )
            &&& id > i64::MAX ==> executed(insn, st, ReplyView::RowId(Some(id)), draw) == (
                StateView {
                    pc: (st.pc + 1) as BranchOffset,
                    registers: st.registers.update(
                        dest as int,
                        ValueView::Integer((id - 0x1_0000_0000_0000_0000) as i64),
                    ),
                    cursors: st.cursors,
                },
                EffectView::Continue,
            )
            &&& executed(insn, st, ReplyView::RowId(None), draw) == (
                st,
                EffectView::Error(StepError::Fault),
            )
            &&& executed(insn, st, ReplyView::Failed, draw) == (
                st,
                EffectView::Error(StepError::CursorFailed),
            )
        }),
{
    reveal(executed);
    if id > i64::MAX {
        assert(id as i64 == id - 0x1_0000_0000_0000_0000) by (bit_vector)
            requires
                id > 0x7fff_ffff_ffff_ffffu64,
        ;
    }
}

/// `MakeRecord` puts a row of registers into one: its values are those of the registers from
/// `start_reg` on, in their order, as many as are asked for and exist.
pub proof fn law_make_record(
    st: StateView,
    start_reg: usize,
    count: usize,
    dest_reg: usize,
    draw: Option<i64>,
)
    requires
        dest_reg < st.registers.len(),
    ensures
        ({
            let insn = Insn::MakeRecord { start_reg, count, dest_reg };
            let after = executed(insn, st, ReplyView::Nothing, draw);
            &&& after.1 is Continue
            &&& after.0.pc == (st.pc + 1) as BranchOffset
            &&& after.0.cursors == st.cursors
            &&& after.0.registers.len() == st.registers.len()
            &&& forall|i: int|
                0 <= i < st.registers.len() && i != dest_reg ==> #[trigger] after.0.registers[i]
                    == st.registers[i]
            &&& after.0.registers[dest_reg as int] matches ValueView::Record(r) && {
                &&& start_reg >= st.registers.len() ==> r.len() == 0
                &&& start_reg + count <= st.registers.len() ==> r.len() == count
                &&& start_reg < st.registers.len() < start_reg + count ==> r.len()
                    == st.registers.len() - start_reg
                &&& forall|i: int|
                    0 <= i < r.len() ==> #[trigger] r[i] == st.registers[start_reg + i]
            }
        }),
{
    reveal(executed);
}

/// `ResultRow` hands out a row and goes on behind it: the registers are left as they are. A
/// register that holds a record cannot be handed out.
pub proof fn law_result_row(st: StateView, start_reg: usize, count: usize, draw: Option<i64>)
    ensures
        ({
            let after = executed(
                Insn::ResultRow { start_reg, count },
                st,
                ReplyView::Nothing,
                draw,
            );
            if forall|i: int|
                start_reg <= i < start_reg + count && i < st.registers.len() ==> handed_out(
                    #[trigger] st.registers[i],
                ) is Some {
                after == (
                    StateView { pc: (st.pc + 1) as BranchOffset, ..st },
                    EffectView::Row { start_reg, count },
                )
            } else {
                after == (st, EffectView::Error(StepError::Fault))
            }
        }),
{
    reveal(executed);
    let row = taken(st.registers, start_reg as int, count as int);
    assert forall|i: int| 0 <= i < row.len() implies row[i] == st.registers[start_reg + i] by {}
    if forall|i: int|
        start_reg <= i < start_reg + count && i < st.registers.len() ==> handed_out(
            #[trigger] st.registers[i],
        ) is Some {
        assert forall|i: int| 0 <= i < row.len() implies handed_out(#[trigger] row[i]) is Some by {
            assert(handed_out(st.registers[start_reg + i]) is Some);
        }
    } else {
        let i = choose|i: int|
            start_reg <= i < start_reg + count && i < st.registers.len() && !(handed_out(
                #[trigger] st.registers[i],
            ) is Some);
        assert(row[i - start_reg] == st.registers[i]);
    }
}

/// `RealAffinity` has the host convert an integer and writes its answer; other values stay as they
/// are.
pub proof fn law_real_affinity(st: StateView, register: usize, d: DoubleView, draw: Option<i64>)
    requires
        register < st.registers.len(),
    ensures
        ({
            let insn = Insn::RealAffinity { register };
            match st.registers[register as int] {
                ValueView::Integer(i) => {
                    &&& executed(insn, st, ReplyView::Nothing, draw) == (
                        st,
                        EffectView::Ask(RequestView::ToFloat(i)),
                    )
                    &&& executed(insn, st, ReplyView::Float(d), draw) == (
                        StateView {
                            pc: (st.pc + 1) as BranchOffset,
                            registers: st.registers.update(register as int, ValueView::Float(d)),
                            cursors: st.cursors,
                        },
                        EffectView::Continue,
                    )
                },
                _ => executed(insn, st, ReplyView::Nothing, draw) == (
                    StateView { pc: (st.pc + 1) as BranchOffset, ..st },
                    EffectView::Continue,
                ),
            }
        }),
{
    reveal(executed);
}

/// An instruction on a cursor that is not open does nothing.
pub proof fn law_cursor_faults(
    st: StateView,
    cursor_id: CursorID,
    a: usize,
    b: usize,
    pc: BranchOffset,
    reply: ReplyView,
    draw: Option<i64>,
)
    requires
        !st.cursors.contains_key(cursor_id),
    ensures
        ({
            let fault = (st, EffectView::Error(StepError::Fault));
            &&& executed(Insn::NullRow { cursor_id }, st, reply, draw) == fault
            &&& executed(Insn::RewindAsync { cursor_id }, st, reply, draw) == fault
            &&& executed(Insn::RewindAwait { cursor_id, pc_if_empty: pc }, st, reply, draw) == fault
            &&& executed(Insn::NextAsync { cursor_id }, st, reply, draw) == fault
            &&& executed(Insn::NextAwait { cursor_id, pc_if_next: pc }, st, reply, draw) == fault
            &&& executed(Insn::Column { cursor_id, column: a, dest: b }, st, reply, draw) == fault
            &&& executed(Insn::RowId { cursor_id, dest: b }, st, reply, draw) == fault
            &&& executed(Insn::SorterInsert { cursor_id, record_reg: b }, st, reply, draw) == fault
            &&& executed(
                Insn::SorterData { cursor_id, dest_reg: a, pseudo_cursor: b },
                st,
                reply,
                draw,
            ) == fault
            &&& executed(Insn::SorterNext { cursor_id, pc_if_next: pc }, st, reply, draw) == fault
        }),
{
    reveal(executed);
}

/// `SorterInsert` has the host insert the row in its register into its sorter. There has to be a
/// row.
pub proof fn law_sorter_insert(
    st: StateView,
    cursor_id: CursorID,
    record_reg: usize,
    draw: Option<i64>,
)
    requires
        st.cursors.contains_key(cursor_id),
        record_reg < st.registers.len(),
    ensures
        ({
            let insn = Insn::SorterInsert { cursor_id, record_reg };
            match st.registers[record_reg as int] {
                ValueView::Record(record) => {
                    &&& executed(insn, st, ReplyView::Nothing, draw) == (
                        st,
                        EffectView::Ask(RequestView::Insert { cursor_id, record }),
                    )
                    &&& executed(insn, st, ReplyView::Done, draw) == (
                        StateView { pc: (st.pc + 1) as BranchOffset, ..st },
                        EffectView::Continue,
                    )
                    &&& executed(insn, st, ReplyView::Failed, draw) == (
                        st,
                        EffectView::Error(StepError::CursorFailed),
                    )
                },
                _ => executed(insn, st, ReplyView::Nothing, draw) == (
                    st,
                    EffectView::Error(StepError::Fault),
                ),
            }
        }),
{
    reveal(executed);
}

/// `SorterSort` has the host rewind the sorter, and goes on whether that is done or waits for I/O.
/// Where there is no such sorter, it jumps.
pub proof fn law_sorter_sort(
    st: StateView,
    cursor_id: CursorID,
    pc_if_empty: BranchOffset,
    draw: Option<i64>,
)
    ensures
        ({
            let insn = Insn::SorterSort { cursor_id, pc_if_empty };
            let pass = (
                StateView { pc: (st.pc + 1) as BranchOffset, ..st },
                EffectView::Continue,
            );
            if st.cursors.contains_key(cursor_id) {
                &&& executed(insn, st, ReplyView::Nothing, draw) == (
                    st,
                    EffectView::Ask(RequestView::Rewind { cursor_id }),
                )
                &&& executed(insn, st, ReplyView::Done, draw) == pass
                &&& executed(insn, st, ReplyView::Io, draw) == pass
                &&& executed(insn, st, ReplyView::Failed, draw) == (
                    st,
                    EffectView::Error(StepError::CursorFailed),
                )
            } else {
                executed(insn, st, ReplyView::Nothing, draw) == (
                    StateView { pc: pc_if_empty, ..st },
                    EffectView::Continue,
                )
            }
        }),
{
    reveal(executed);
}

/// `SorterData` reads the sorter's row, writes it into its register, and has the host insert the
/// same row through the pseudo cursor; when that is done, execution goes on.
pub proof fn law_sorter_data(
    st: StateView,
    cursor_id: CursorID,
    dest_reg: usize,
    pseudo_cursor: CursorID,
    row: Seq<ValueView>,
    draw: Option<i64>,
)
    requires
        st.cursors.contains_key(cursor_id),
        st.cursors.contains_key(pseudo_cursor),
        dest_reg < st.registers.len(),
    ensures
        ({
            let insn = Insn::SorterData { cursor_id, dest_reg, pseudo_cursor };
            let written = StateView {
                pc: st.pc,
                registers: st.registers.update(dest_reg as int, ValueView::Record(row)),
                cursors: st.cursors,
            };
            &&& executed(insn, st, ReplyView::Nothing, draw) == (
                st,
                EffectView::Ask(RequestView::ReadRecord { cursor_id }),
            )
            &&& executed(insn, st, ReplyView::Record(Some(row)), draw) == (
                written,
                EffectView::Ask(RequestView::Insert { cursor_id: pseudo_cursor, record: row }),
            )
            &&& executed(insn, written, ReplyView::Done, draw) == (
                StateView { pc: (st.pc + 1) as BranchOffset, ..written },
                EffectView::Continue,
            )
            &&& executed(insn, st, ReplyView::Record(None), draw) == (
                st,
                EffectView::Error(StepError::Fault),
            )
            &&& executed(insn, st, ReplyView::Failed, draw) == (
                st,
                EffectView::Error(StepError::CursorFailed),
            )
        }),
{
    reveal(executed);
}

/// `SorterNext` has the host move its sorter on, and jumps just where there is a row then.
pub proof fn law_sorter_next(
    st: StateView,
    cursor_id: CursorID,
    pc_if_next: BranchOffset,
    draw: Option<i64>,
)
    requires
        st.cursors.contains_key(cursor_id),
        pc_if_next >= 0,
    ensures
        ({
            let insn = Insn::SorterNext { cursor_id, pc_if_next };
            &&& executed(insn, st, ReplyView::Nothing, draw) == (
                st,
                EffectView::Ask(RequestView::SorterNext { cursor_id }),
            )
            &&& executed(insn, st, ReplyView::Empty(false), draw) == (
                StateView { pc: pc_if_next, ..st },
                EffectView::Continue,
            )
            &&& executed(insn, st, ReplyView::Empty(true), draw) == (
                StateView { pc: (st.pc + 1) as BranchOffset, ..st },
                EffectView::Continue,
            )
            &&& executed(insn, st, ReplyView::Io, draw) == (st, EffectView::IO)
            &&& executed(insn, st, ReplyView::Failed, draw) == (
                st,
                EffectView::Error(StepError::CursorFailed),
            )
        }),
{
    reveal(executed);
}

/// `AggStep` takes a row into the aggregate in its register: what `agg_step` gives for the
/// register's value and those of `col` and `delimiter` is written there, is asked of the host, or
/// is the error; no other register changes. Where the register holds NULL, the aggregate starts in
/// it first, and is there when `col` and `delimiter` are read.
pub proof fn law_agg_step(
    st: StateView,
    acc_reg: usize,
    col: usize,
    delimiter: usize,
    func: AggFunc,
    reply: ReplyView,
    draw: Option<i64>,
)
    requires
        acc_reg < st.registers.len(),
    ensures
        ({
            let after = executed(
                Insn::AggStep { acc_reg, col, delimiter, func },
                st,
                reply,
                draw,
            );
            let before = st.registers[acc_reg as int];
            let start = agg_start(
                func,
                if col < st.registers.len() {
                    Some(st.registers[col as int])
                } else {
                    None
                },
            );
            let acc = if before is Null && start is Some {
                ValueView::Agg(Box::new(start->0))
            } else {
                before
            };
            let read = st.registers.update(acc_reg as int, acc);
            let step = agg_step(
                func,
                acc,
                if col < read.len() {
                    Some(read[col as int])
                } else {
                    None
                },
                if delimiter < read.len() {
                    Some(read[delimiter as int])
                } else {
                    None
                },
                reply,
            );
            if before is Null && start is None {
                after == (st, EffectView::Error(StepError::Fault))
            } else {
                match step {
                    FedView::Value(v) => after == (
                        StateView {
                            pc: (st.pc + 1) as BranchOffset,
                            registers: st.registers.update(acc_reg as int, v),
                            cursors: st.cursors,
                        },
                        EffectView::Continue,
                    ),
                    FedView::Ask(request) => after == (st, EffectView::Ask(request)),
                    FedView::Error(e) => after == (st, EffectView::Error(e)),
                }
            }
        }),
{
    reveal(executed);
    let before = st.registers[acc_reg as int];
    if !(before is Null) {
        assert(st.registers.update(acc_reg as int, before) =~= st.registers);
    }
}

/// `AggFinal` completes the aggregate in its register: what `agg_final` gives for the register's
/// value is written there, is asked of the host, or is the error; no other register changes.
pub proof fn law_agg_final(
    st: StateView,
    register: usize,
    func: AggFunc,
    reply: ReplyView,
    draw: Option<i64>,
)
    requires
        register < st.registers.len(),
    ensures
        ({
            let after = executed(Insn::AggFinal { register, func }, st, reply, draw);
            match agg_final(func, st.registers[register as int], reply) {
                FedView::Value(v) => after == (
                    StateView {
                        pc: (st.pc + 1) as BranchOffset,
                        registers: st.registers.update(register as int, v),
                        cursors: st.cursors,
                    },
                    EffectView::Continue,
                ),
                FedView::Ask(request) => after == (st, EffectView::Ask(request)),
                FedView::Error(e) => after == (st, EffectView::Error(e)),
            }
        }),
{
    reveal(executed);
}

/// The LIKE function writes 1 just where the text in its second register is like the pattern in its
/// first one, and 0 elsewhere, where the pattern is not too big. Both registers have to hold text.
pub proof fn law_like_function(
    st: StateView,
    start_reg: usize,
    dest: usize,
    draw: Option<i64>,
)
    requires
        start_reg + 1 < st.registers.len(),
        dest < st.registers.len(),
    ensures
        ({
            let after = executed(
                Insn::Function { start_reg, dest, func: SingleRowFunc::Like },
                st,
                ReplyView::Nothing,
                draw,
            );
            match (st.registers[start_reg as int], st.registers[start_reg + 1]) {
                (ValueView::Text(pattern), ValueView::Text(text)) => {
                    &&& regex_accepts(whole_regex(pattern)) && is_like(pattern, text) ==> after == (
                        StateView {
                            pc: (st.pc + 1) as BranchOffset,
                            registers: st.registers.update(dest as int, ValueView::Integer(1)),
                            cursors: st.cursors,
                        },
                        EffectView::Continue,
                    )
                    &&& regex_accepts(whole_regex(pattern)) && !is_like(pattern, text) ==> after
                        == (
                        StateView {
                            pc: (st.pc + 1) as BranchOffset,
                            registers: st.registers.update(dest as int, ValueView::Integer(0)),
                            cursors: st.cursors,
                        },
                        EffectView::Continue,
                    )
                    &&& !regex_accepts(whole_regex(pattern)) ==> after == (
                        st,
                        EffectView::Error(StepError::Fault),
                    )
                },
                _ => after == (st, EffectView::Error(StepError::Fault)),
            }
        }),
{
    reveal(executed);
}

/// The LIKE function with a pattern that ends in `%` and has no other wildcard: it writes 1 just
/// where the text begins with what stands before the `%`, the text that is nothing else among them.
pub proof fn law_like_function_prefix(
    st: StateView,
    start_reg: usize,
    dest: usize,
    prefix: Seq<char>,
    text: Seq<char>,
    draw: Option<i64>,
)
    requires
        start_reg + 1 < st.registers.len(),
        dest < st.registers.len(),
        !has_wildcard(prefix),
        st.registers[start_reg as int] == ValueView::Text(prefix.push('%')),
        st.registers[start_reg + 1] == ValueView::Text(text),
        regex_accepts(whole_regex(prefix.push('%'))),
    ensures
        executed(
            Insn::Function { start_reg, dest, func: SingleRowFunc::Like },
            st,
            ReplyView::Nothing,
            draw,
        ).0.registers[dest as int] == ValueView::Integer(
            if prefix.len() <= text.len() && text.take(prefix.len() as int) == prefix {
                1
            } else {
                0
            },
        ),
{
    law_like_function(st, start_reg, dest, draw);
    law_like_prefix(prefix, text);
}

/// The other functions of one register write their value into the register `dest` and change
/// nothing else. The absolute value of the least integer has none.
pub proof fn law_functions(
    st: StateView,
    start_reg: usize,
    dest: usize,
    draw: Option<i64>,
)
    requires
        start_reg < st.registers.len(),
        dest < st.registers.len(),
    ensures
        ({
            let v = st.registers[start_reg as int];
            let pc = (st.pc + 1) as BranchOffset;
            let upper = Insn::Function { start_reg, dest, func: SingleRowFunc::Upper };
            let lower = Insn::Function { start_reg, dest, func: SingleRowFunc::Lower };
            let length = Insn::Function { start_reg, dest, func: SingleRowFunc::Length };
            let abs = Insn::Function { start_reg, dest, func: SingleRowFunc::Abs };
            &&& executed(upper, st, ReplyView::Nothing, draw) == (
                StateView {
                    pc,
                    registers: st.registers.update(dest as int, upper_value(v)),
                    cursors: st.cursors,
                },
                EffectView::Continue,
            )
            &&& executed(lower, st, ReplyView::Nothing, draw) == (
                StateView {
                    pc,
                    registers: st.registers.update(dest as int, lower_value(v)),
                    cursors: st.cursors,
                },
                EffectView::Continue,
            )
            &&& executed(length, st, ReplyView::Nothing, draw) == (
                StateView {
                    pc,
                    registers: st.registers.update(dest as int, length_value(v)),
                    cursors: st.cursors,
                },
                EffectView::Continue,
            )
            &&& v != ValueView::Integer(i64::MIN) ==> executed(abs, st, ReplyView::Nothing, draw)
                == (
                StateView {
                    pc,
                    registers: st.registers.update(dest as int, abs_value(v)),
                    cursors: st.cursors,
                },
                EffectView::Continue,
            )
            &&& v == ValueView::Integer(i64::MIN) ==> executed(abs, st, ReplyView::Nothing, draw)
                == (st, EffectView::Error(StepError::Fault))
        }),
{
    reveal(executed);
}

/// Trimming and rounding take what to trim, or the number of places, from the register behind the
/// value, where there is one. What only floating-point arithmetic can round is asked of the host,
/// and its answer is written.
pub proof fn law_trim_and_round(
    st: StateView,
    start_reg: usize,
    dest: usize,
    d: DoubleView,
    draw: Option<i64>,
)
    requires
        start_reg < st.registers.len(),
        dest < st.registers.len(),
    ensures
        ({
            let v = st.registers[start_reg as int];
            let w = if start_reg + 1 < st.registers.len() {
                Some(st.registers[start_reg + 1])
            } else {
                None
            };
            let pc = (st.pc + 1) as BranchOffset;
            let trim = Insn::Function { start_reg, dest, func: SingleRowFunc::Trim };
            let round = Insn::Function { start_reg, dest, func: SingleRowFunc::Round };
            &&& executed(trim, st, ReplyView::Nothing, draw) == (
                StateView {
                    pc,
                    registers: st.registers.update(dest as int, trim_value(v, w)),
                    cursors: st.cursors,
                },
                EffectView::Continue,
            )
            &&& match round_value(v, w) {
                RoundingView::Value(x) => executed(round, st, ReplyView::Nothing, draw) == (
                    StateView {
                        pc,
                        registers: st.registers.update(dest as int, x),
                        cursors: st.cursors,
                    },
                    EffectView::Continue,
                ),
                RoundingView::Host { value, precision } => {
                    &&& executed(round, st, ReplyView::Nothing, draw) == (
                        st,
                        EffectView::Ask(RequestView::Round { value, precision }),
                    )
                    &&& executed(round, st, ReplyView::Float(d), draw) == (
                        StateView {
                            pc,
                            registers: st.registers.update(dest as int, ValueView::Float(d)),
                            cursors: st.cursors,
                        },
                        EffectView::Continue,
                    )
                },
            }
        }),
{
    reveal(executed);
}

/// A random integer is written as it was drawn; without one there is an error.
pub proof fn law_random_function(st: StateView, start_reg: usize, dest: usize, i: i64)
    requires
        dest < st.registers.len(),
    ensures
        ({
            let insn = Insn::Function { start_reg, dest, func: SingleRowFunc::Random };
            &&& executed(insn, st, ReplyView::Nothing, Some(i)) == (
                StateView {
                    pc: (st.pc + 1) as BranchOffset,
                    registers: st.registers.update(dest as int, ValueView::Integer(i)),
                    cursors: st.cursors,
                },
                EffectView::Continue,
            )
            &&& executed(insn, st, ReplyView::Nothing, None) == (
                st,
                EffectView::Error(StepError::RandomUnavailable),
            )
        }),
{
    reveal(executed);
}

/// A function does nothing where a register that it reads or writes is missing.
pub proof fn law_function_faults(
    st: StateView,
    start_reg: usize,
    dest: usize,
    func: SingleRowFunc,
    reply: ReplyView,
    draw: Option<i64>,
)
    requires
        !(func is Coalesce),
        !(func is Random),
        start_reg >= st.registers.len() || dest >= st.registers.len() || (func is Like && start_reg
            + 1 >= st.registers.len()),
    ensures
        executed(Insn::Function { start_reg, dest, func }, st, reply, draw) == (
            st,
            EffectView::Error(StepError::Fault),
        ),
{
    reveal(executed);
}

/// The comparisons of two texts, `lhs` before `rhs`: the first character in which the two differ
/// decides, by its code point; where there is none, the shorter text comes first, and two texts
/// with the same characters are equal. `k` is the number of characters up to the first difference.
pub proof fn law_comparisons_of_texts(
    st: StateView,
    lhs: usize,
    rhs: usize,
    target_pc: BranchOffset,
    k: int,
    draw: Option<i64>,
)
    requires
        lhs < st.registers.len(),
        rhs < st.registers.len(),
        target_pc >= 0,
        st.registers[lhs as int] is Text,
        st.registers[rhs as int] is Text,
        0 <= k <= st.registers[lhs as int]->Text_0.len(),
        k <= st.registers[rhs as int]->Text_0.len(),
        forall|i: int|
            0 <= i < k ==> st.registers[lhs as int]->Text_0[i]
                == st.registers[rhs as int]->Text_0[i],
        k < st.registers[lhs as int]->Text_0.len() && k < st.registers[rhs as int]->Text_0.len()
            ==> st.registers[lhs as int]->Text_0[k] != st.registers[rhs as int]->Text_0[k],
    ensures
        ({
            let jump = (StateView { pc: target_pc, ..st }, EffectView::Continue);
            let pass = (
                StateView { pc: (st.pc + 1) as BranchOffset, ..st },
                EffectView::Continue,
            );
            let (x, y) = (st.registers[lhs as int]->Text_0, st.registers[rhs as int]->Text_0);
            let eq = executed(Insn::Eq { lhs, rhs, target_pc }, st, ReplyView::Nothing, draw);
            let ne = executed(Insn::Ne { lhs, rhs, target_pc }, st, ReplyView::Nothing, draw);
            let lt = executed(Insn::Lt { lhs, rhs, target_pc }, st, ReplyView::Nothing, draw);
            let le = executed(Insn::Le { lhs, rhs, target_pc }, st, ReplyView::Nothing, draw);
            let gt = executed(Insn::Gt { lhs, rhs, target_pc }, st, ReplyView::Nothing, draw);
            let ge = executed(Insn::Ge { lhs, rhs, target_pc }, st, ReplyView::Nothing, draw);
            let before = if k < x.len() && k < y.len() {
                (x[k] as int) < (y[k] as int)
            } else {
                x.len() < y.len()
            };
            if x == y {
                &&& eq == jump && ne == pass
                &&& lt == pass && le == jump && gt == pass && ge == jump
            } else if before {
                &&& eq == pass && ne == jump
                &&& lt == jump && le == jump && gt == pass && ge == pass
            } else {
                &&& eq == pass && ne == jump
                &&& lt == pass && le == pass && gt == jump && ge == jump
            }
        }),
{
    let (x, y) = (st.registers[lhs as int]->Text_0, st.registers[rhs as int]->Text_0);
    law_comparisons(st, lhs, rhs, target_pc, draw);
    law_order_of_text(x, y, k);
    law_equal_values(st.registers[lhs as int], st.registers[rhs as int]);
    if k == x.len() && k == y.len() {
        assert(x =~= y);
    }
}

/// The comparisons of two floats that are numbers, `lhs` before `rhs`: by the numbers that they
/// stand for. What is not a number is equal to nothing, and neither before nor behind anything.
pub proof fn law_comparisons_of_floats(
    st: StateView,
    lhs: usize,
    rhs: usize,
    target_pc: BranchOffset,
    draw: Option<i64>,
)
    requires
        lhs < st.registers.len(),
        rhs < st.registers.len(),
        target_pc >= 0,
        st.registers[lhs as int] is Float,
        st.registers[rhs as int] is Float,
    ensures
        ({
            let jump = (StateView { pc: target_pc, ..st }, EffectView::Continue);
            let pass = (
                StateView { pc: (st.pc + 1) as BranchOffset, ..st },
                EffectView::Continue,
            );
            let (x, y) = (
                st.registers[lhs as int]->Float_0.bits,
                st.registers[rhs as int]->Float_0.bits,
            );
            let eq = executed(Insn::Eq { lhs, rhs, target_pc }, st, ReplyView::Nothing, draw);
            let ne = executed(Insn::Ne { lhs, rhs, target_pc }, st, ReplyView::Nothing, draw);
            let lt = executed(Insn::Lt { lhs, rhs, target_pc }, st, ReplyView::Nothing, draw);
            let le = executed(Insn::Le { lhs, rhs, target_pc }, st, ReplyView::Nothing, draw);
            let gt = executed(Insn::Gt { lhs, rhs, target_pc }, st, ReplyView::Nothing, draw);
            let ge = executed(Insn::Ge { lhs, rhs, target_pc }, st, ReplyView::Nothing, draw);
            if is_nan(x) || is_nan(y) {
                &&& eq == pass && ne == jump
                &&& lt == pass && le == pass && gt == pass && ge == pass
            } else if numeric(x) < numeric(y) {
                &&& eq == pass && ne == jump
                &&& lt == jump && le == jump && gt == pass && ge == pass
            } else if numeric(x) > numeric(y) {
                &&& eq == pass && ne == jump
                &&& lt == pass && le == pass && gt == jump && ge == jump
            } else {
                &&& eq == jump && ne == pass
                &&& lt == pass && le == jump && gt == pass && ge == jump
            }
        }),
{
    let (x, y) = (st.registers[lhs as int]->Float_0, st.registers[rhs as int]->Float_0);
    law_comparisons(st, lhs, rhs, target_pc, draw);
    law_order_of_numbers(0, 0, x, y);
    law_equal_values(st.registers[lhs as int], st.registers[rhs as int]);
}

/// To compare the same two registers in the other direction is to ask the opposite: `Lt` of one and
/// the other does what `Gt` of the other and the one does, and so do `Le` and `Ge`.
pub proof fn law_comparisons_mirrored(
    st: StateView,
    lhs: usize,
    rhs: usize,
    target_pc: BranchOffset,
    reply: ReplyView,
    draw: Option<i64>,
)
    ensures
        executed(Insn::Lt { lhs, rhs, target_pc }, st, reply, draw) == executed(
            Insn::Gt { lhs: rhs, rhs: lhs, target_pc },
            st,
            reply,
            draw,
        ),
        executed(Insn::Le { lhs, rhs, target_pc }, st, reply, draw) == executed(
            Insn::Ge { lhs: rhs, rhs: lhs, target_pc },
            st,
            reply,
            draw,
        ),
{
    reveal(executed);
    if lhs < st.registers.len() && rhs < st.registers.len() {
        law_ranking_reversed(st.registers[lhs as int], st.registers[rhs as int]);
    }
}

/// The instructions that repeat a loop do nothing where their label has not been resolved.
pub proof fn law_loop_faults(
    st: StateView,
    cursor_id: CursorID,
    pc_if_next: BranchOffset,
    reply: ReplyView,
    draw: Option<i64>,
)
    requires
        pc_if_next < 0,
    ensures
        executed(Insn::NextAwait { cursor_id, pc_if_next }, st, reply, draw) == (
            st,
            EffectView::Error(StepError::Fault),
        ),
        executed(Insn::SorterNext { cursor_id, pc_if_next }, st, reply, draw) == (
            st,
            EffectView::Error(StepError::Fault),
        ),
{
    reveal(executed);
}

/// An instruction does nothing where the register that it works on is missing. `Column`, `RowId`
/// and `SorterData` find that out when the host has read the row.
pub proof fn law_register_faults(
    st: StateView,
    reg: usize,
    a: usize,
    b: usize,
    func: AggFunc,
    cursor_id: CursorID,
    row: Option<Seq<ValueView>>,
    id: Option<u64>,
    reply: ReplyView,
    draw: Option<i64>,
)
    requires
        reg >= st.registers.len(),
    ensures
        ({
            let fault = (st, EffectView::Error(StepError::Fault));
            let column = Insn::Column { cursor_id, column: a, dest: reg };
            let data = Insn::SorterData { cursor_id, dest_reg: reg, pseudo_cursor: b };
            &&& executed(Insn::RealAffinity { register: reg }, st, reply, draw) == fault
            &&& executed(Insn::MakeRecord { start_reg: a, count: b, dest_reg: reg }, st, reply, draw)
                == fault
            &&& executed(
                Insn::AggStep { acc_reg: reg, col: a, delimiter: b, func },
                st,
                reply,
                draw,
            ) == fault
            &&& executed(Insn::AggFinal { register: reg, func }, st, reply, draw) == fault
            &&& executed(Insn::SorterInsert { cursor_id, record_reg: reg }, st, reply, draw) == fault
            &&& executed(column, st, ReplyView::Record(row), draw) == fault
            &&& executed(Insn::RowId { cursor_id, dest: reg }, st, ReplyView::RowId(id), draw)
                == fault
            &&& executed(data, st, ReplyView::Record(row), draw) == fault
        }),
{
    reveal(executed);
}

/// `SorterData` hands no row to a pseudo cursor that is not open; and the pseudo cursor is not done
/// with a row before its register holds one.
pub proof fn law_sorter_data_faults(
    st: StateView,
    cursor_id: CursorID,
    dest_reg: usize,
    pseudo_cursor: CursorID,
    row: Option<Seq<ValueView>>,
    draw: Option<i64>,
)
    requires
        st.cursors.contains_key(cursor_id),
    ensures
        ({
            let insn = Insn::SorterData { cursor_id, dest_reg, pseudo_cursor };
            &&& !st.cursors.contains_key(pseudo_cursor) ==> executed(
                insn,
                st,
                ReplyView::Record(row),
                draw,
            ) == (st, EffectView::Error(StepError::Fault))
            &&& !st.cursors.contains_key(pseudo_cursor) || dest_reg >= st.registers.len() || !(
            st.registers[dest_reg as int] is Record) ==> executed(insn, st, ReplyView::Done, draw)
                == (st, EffectView::Error(StepError::BadReply))
        }),
{
    reveal(executed);
}

/// A reply of a kind that does not belong to what an instruction asks is refused, and changes
/// nothing.
pub proof fn law_bad_replies(
    st: StateView,
    cursor_id: CursorID,
    a: usize,
    b: usize,
    pc: BranchOffset,
    root_page: PageIdx,
    reply: ReplyView,
    draw: Option<i64>,
)
    requires
        st.cursors.contains_key(cursor_id),
        pc >= 0,
        !(reply is Nothing),
        !(reply is Failed),
    ensures
        ({
            let bad = (st, EffectView::Error(StepError::BadReply));
            &&& !(reply is Done) ==> {
                &&& executed(Insn::OpenReadAsync { cursor_id, root_page }, st, reply, draw) == bad
                &&& executed(
                    Insn::OpenPseudo { cursor_id, content_reg: a, num_fields: b },
                    st,
                    reply,
                    draw,
                ) == bad
                &&& !(reply is Io) ==> {
                    &&& executed(Insn::RewindAsync { cursor_id }, st, reply, draw) == bad
                    &&& executed(Insn::NextAsync { cursor_id }, st, reply, draw) == bad
                    &&& executed(Insn::SorterSort { cursor_id, pc_if_empty: pc }, st, reply, draw)
                        == bad
                }
                &&& !(reply is Record) ==> executed(
                    Insn::SorterData { cursor_id, dest_reg: a, pseudo_cursor: b },
                    st,
                    reply,
                    draw,
                ) == bad
            }
            &&& !(reply is Empty) ==> {
                &&& executed(Insn::RewindAwait { cursor_id, pc_if_empty: pc }, st, reply, draw)
                    == bad
                &&& executed(Insn::NextAwait { cursor_id, pc_if_next: pc }, st, reply, draw) == bad
                &&& !(reply is Io) ==> executed(
                    Insn::SorterNext { cursor_id, pc_if_next: pc },
                    st,
                    reply,
                    draw,
                ) == bad
            }
            &&& !(reply is Record) ==> executed(
                Insn::Column { cursor_id, column: a, dest: b },
                st,
                reply,
                draw,
            ) == bad
            &&& !(reply is RowId) ==> executed(Insn::RowId { cursor_id, dest: b }, st, reply, draw)
                == bad
        }),
{
    reveal(executed);
}

/// `coalesce` is never a function that is applied: the instruction changes nothing, not even the
/// position.
pub proof fn law_coalesce(st: StateView, start_reg: usize, dest: usize, draw: Option<i64>)
    ensures
        executed(
            Insn::Function { start_reg, dest, func: SingleRowFunc::Coalesce },
            st,
            ReplyView::Nothing,
            draw,
        ) == (st, EffectView::Continue),
{
    reveal(executed);
}

/// A value is left out of a maximum or minimum just where an `AggStep` for it holds one already and
/// the two are neither two integers nor two floats.
pub proof fn law_leaves_out(
    st: StateView,
    acc_reg: usize,
    col: usize,
    delimiter: usize,
    func: AggFunc,
    m: ValueView,
)
    requires
        acc_reg < st.registers.len(),
        col < st.registers.len(),
        func is Max || func is Min,
        st.registers[acc_reg as int] == ValueView::Agg(
            Box::new(
                if func is Max {
                    AggView::Max(m)
                } else {
                    AggView::Min(m)
                },
            ),
        ),
    ensures
        ({
            let v = st.registers[col as int];
            let out = leaves_out(Insn::AggStep { acc_reg, col, delimiter, func }, st);
            &&& (m is Integer && v is Integer) || (m is Float && v is Float) ==> out is None
            &&& !((m is Integer && v is Integer) || (m is Float && v is Float)) ==> out == Some(func)
        }),
{
}

/// Nothing is ever left out by another instruction than an `AggStep` for a maximum or minimum, nor
/// by the first row of one.
pub proof fn law_nothing_else_left_out(insn: Insn, st: StateView)
    requires
        insn matches Insn::AggStep { acc_reg, func, .. } ==> (!(func is Max) && !(func is Min))
            || acc_reg >= st.registers.len() || !(st.registers[acc_reg as int] is Agg),
    ensures
        leaves_out(insn, st) is None,
{
}

/// Where the host is asked for a float, no other reply is taken; where it is asked for nothing, no
/// reply is. The state is left as it is.
pub proof fn law_float_replies(
    st: StateView,
    lhs: usize,
    rhs: usize,
    dest: usize,
    func: SingleRowFunc,
    reply: ReplyView,
    draw: Option<i64>,
)
    requires
        !(reply is Nothing),
    ensures
        ({
            let add = Insn::Add { lhs, rhs, dest };
            let affinity = Insn::RealAffinity { register: dest };
            let function = Insn::Function { start_reg: lhs, dest, func };
            let bad = (st, EffectView::Error(StepError::BadReply));
            &&& executed(add, st, ReplyView::Nothing, draw).1 is Continue ==> executed(
                add,
                st,
                reply,
                draw,
            ) == bad
            &&& executed(add, st, ReplyView::Nothing, draw).1 is Ask && !(reply is Float)
                ==> executed(add, st, reply, draw) == bad
            &&& executed(affinity, st, ReplyView::Nothing, draw).1 is Continue ==> executed(
                affinity,
                st,
                reply,
                draw,
            ) == bad
            &&& executed(affinity, st, ReplyView::Nothing, draw).1 is Ask && !(reply is Float)
                ==> executed(affinity, st, reply, draw) == bad
            &&& executed(function, st, ReplyView::Nothing, draw).1 is Continue ==> executed(
                function,
                st,
                reply,
                draw,
            ) == bad
            &&& executed(function, st, ReplyView::Nothing, draw).1 is Ask ==> func is Round && (!(
            reply is Float) ==> executed(function, st, reply, draw) == bad)
        }),
{
    reveal(executed);
}

} // verus!
