//! Laws of execution.

use vstd::prelude::*;
use crate::function::SingleRowFunc;
use crate::insn::Insn;
use crate::program::{is_address, is_random, is_result, run, stepped};
use crate::protocol::{EffectView, ReplyView, RequestView, StepError, StepResult};
use crate::record::{can_hand_out, taken};
use crate::relation::{law_ranking_reversed, ranking};
use crate::semantics::{
    adds, advances, advances_sorter, applies, awaits, awaits_next, compares, completes,
    decrements, emits_row, executed, goes_to, halts, holds, if_not_null, if_pos, inserts,
    jumps_on, makes_float, makes_record, moves_to_null_row, opens, opens_sorter, passes_on,
    reads_column, reads_rowid, rewinds, sorts, stores, takes_in, unasked, After, Test,
};
use crate::state::StateView;
use crate::value::{handed_out, ValueView};
use crate::{BranchOffset, CursorID};

verus! {

/// Where an instruction can jump to, if it is one that jumps.
pub open spec fn destination(insn: Insn) -> Option<BranchOffset> {
    match insn {
        Insn::NextAwait { pc_if_next, .. } => Some(pc_if_next),
        _ => insn.target(),
    }
}

/// Tells whether an instruction takes a cursor off the null row: it moves the cursor to its next
/// row, or opens it anew.
pub open spec fn leaves_null_row(insn: Insn, id: CursorID) -> bool {
    match insn {
        Insn::NextAsync { cursor_id } => cursor_id == id,
        Insn::OpenReadAsync { cursor_id, .. } => cursor_id == id,
        Insn::OpenPseudo { cursor_id, .. } => cursor_id == id,
        Insn::SorterOpen { cursor_id, .. } => cursor_id == id,
        _ => false,
    }
}

/// What every instruction keeps, whatever it does.
/// - The number of registers does not change.
/// - A cursor that is open stays open, and one on the null row stays there unless the instruction
///   takes it off.
/// - Execution goes on with the next instruction or where the instruction jumps to; or with the
///   same instruction, for the one function that is never executed.
/// - Execution that does not go on leaves the position where it is, so that the instruction can be
///   restarted. A row of results is the one exception: execution goes on behind it.
/// - I/O comes of moving a cursor alone, and the end of `Halt`.
/// - A row of results can be handed out.
/// - An instruction that cannot be executed, or to which the reply does not belong, changes
///   nothing.
pub open spec fn keeps(insn: Insn, st: StateView, after: After) -> bool {
    &&& after.0.registers.len() == st.registers.len()
    &&& forall|id: CursorID|
        #![trigger after.0.is_open(id)]
        #![trigger after.0.cursors[id]]
        st.is_open(id) ==> after.0.is_open(id) && (st.cursors[id] && !leaves_null_row(insn, id)
            ==> after.0.cursors[id])
    &&& match after.1 {
        EffectView::Continue => {
            ||| after.0.pc == st.next().pc
            ||| destination(insn) == Some(after.0.pc)
            ||| insn matches Insn::Function { func: SingleRowFunc::Coalesce, .. } && after.0 == st
        },
        EffectView::Row { start_reg, count } => after.0 == st.next() && can_hand_out(
            taken(after.0.registers, start_reg as int, count as int),
        ),
        EffectView::Error(StepError::CursorFailed) => after.0.pc == st.pc,
        EffectView::Error(_) => after.0 == st,
        EffectView::Done => insn is Halt && after.0 == st,
        EffectView::IO => after.0.pc == st.pc && (insn is RewindAsync || insn is NextAsync || insn
            is SorterNext),
        EffectView::Ask(_) => after.0.pc == st.pc,
    }
}

/// The instructions that jump or do nothing else.
proof fn lemma_jumps_keep(insn: Insn, st: StateView, reply: ReplyView, draw: Option<i64>)
    ensures
        match insn {
            Insn::Init { .. } | Insn::Goto { .. } | Insn::IfPos { .. }
            | Insn::NotNull { .. } | Insn::Eq { .. } | Insn::Ne { .. } | Insn::Lt { .. }
            | Insn::Le { .. } | Insn::Gt { .. } | Insn::Ge { .. } | Insn::If { .. }
            | Insn::IfNot { .. } | Insn::OpenReadAwait | Insn::Halt | Insn::Transaction
            | Insn::DecrJumpZero { .. } => keeps(
                insn,
                st,
                executed(insn, st, reply, draw),
            ),
            _ => true,
        },
{
    reveal(executed);
    match insn {
        Insn::Init { target_pc } => {
            assert(keeps(insn, st, goes_to(st, target_pc, reply)));
        },
        Insn::Goto { target_pc } => {
            assert(keeps(insn, st, goes_to(st, target_pc, reply)));
        },
        Insn::IfPos { reg, target_pc, decrement_by } => {
            assert(keeps(insn, st, if_pos(st, reg, target_pc, decrement_by, reply)));
        },
        Insn::NotNull { reg, target_pc } => {
            assert(keeps(insn, st, if_not_null(st, reg, target_pc, reply)));
        },
        Insn::Eq { lhs, rhs, target_pc } => {
            assert(keeps(insn, st, compares(st, Test::Eq, lhs, rhs, target_pc, reply)));
        },
        Insn::Ne { lhs, rhs, target_pc } => {
            assert(keeps(insn, st, compares(st, Test::Ne, lhs, rhs, target_pc, reply)));
        },
        Insn::Lt { lhs, rhs, target_pc } => {
            assert(keeps(insn, st, compares(st, Test::Lt, lhs, rhs, target_pc, reply)));
        },
        Insn::Le { lhs, rhs, target_pc } => {
            assert(keeps(insn, st, compares(st, Test::Le, lhs, rhs, target_pc, reply)));
        },
        Insn::Gt { lhs, rhs, target_pc } => {
            assert(keeps(insn, st, compares(st, Test::Gt, lhs, rhs, target_pc, reply)));
        },
        Insn::Ge { lhs, rhs, target_pc } => {
            assert(keeps(insn, st, compares(st, Test::Ge, lhs, rhs, target_pc, reply)));
        },
        Insn::If { reg, target_pc, null_reg } => {
            assert(keeps(insn, st, jumps_on(st, reg, target_pc, null_reg, false, reply)));
        },
        Insn::IfNot { reg, target_pc, null_reg } => {
            assert(keeps(insn, st, jumps_on(st, reg, target_pc, null_reg, true, reply)));
        },
        Insn::OpenReadAwait => {
            assert(keeps(insn, st, unasked(st, st.next(), reply)));
        },
        Insn::Halt => {
            assert(keeps(insn, st, halts(st, reply)));
        },
        Insn::Transaction => {
            assert(keeps(insn, st, unasked(st, st.next(), reply)));
        },
        Insn::DecrJumpZero { reg, target_pc } => {
            assert(keeps(insn, st, decrements(st, reg, target_pc, reply)));
        },
        _ => {},
    }
}

/// The instructions that compute.
#[verifier::rlimit(40)]
proof fn lemma_values_keep(insn: Insn, st: StateView, reply: ReplyView, draw: Option<i64>)
    ensures
        match insn {
            Insn::Null { .. } | Insn::Integer { .. } | Insn::Real { .. }
            | Insn::String8 { .. } | Insn::Add { .. } | Insn::MakeRecord { .. }
            | Insn::ResultRow { .. } | Insn::RealAffinity { .. } | Insn::AggStep { .. }
            | Insn::AggFinal { .. } | Insn::Function { .. } => keeps(
                insn,
                st,
                executed(insn, st, reply, draw),
            ),
            _ => true,
        },
{
    reveal(executed);
    match insn {
        Insn::Null { dest } => {
            assert(keeps(insn, st, stores(st, dest, ValueView::Null, reply)));
        },
        Insn::Integer { value, dest } => {
            assert(keeps(insn, st, stores(st, dest, ValueView::Integer(value), reply)));
        },
        Insn::Real { value, dest } => {
            assert(keeps(insn, st, stores(st, dest, ValueView::Float(value@), reply)));
        },
        Insn::String8 { value, dest } => {
            assert(keeps(insn, st, stores(st, dest, ValueView::Text(value@), reply)));
        },
        Insn::Add { lhs, rhs, dest } => {
            assert(keeps(insn, st, adds(st, lhs, rhs, dest, reply)));
        },
        Insn::MakeRecord { start_reg, count, dest_reg } => {
            assert(keeps(insn, st, makes_record(st, start_reg, count, dest_reg, reply)));
        },
        Insn::ResultRow { start_reg, count } => {
            assert(keeps(insn, st, emits_row(st, start_reg, count, reply)));
        },
        Insn::RealAffinity { register } => {
            assert(keeps(insn, st, makes_float(st, register, reply)));
        },
        Insn::AggStep { acc_reg, col, delimiter, func } => {
            assert(keeps(insn, st, takes_in(st, acc_reg, col, delimiter, func, reply)));
        },
        Insn::AggFinal { register, func } => {
            assert(keeps(insn, st, completes(st, register, func, reply)));
        },
        Insn::Function { start_reg, dest, func } => {
            assert(keeps(insn, st, applies(st, start_reg, dest, func, reply, draw)));
        },
        _ => {},
    }
}

/// The instructions on cursors.
proof fn lemma_cursors_keep(insn: Insn, st: StateView, reply: ReplyView, draw: Option<i64>)
    ensures
        match insn {
            Insn::NullRow { .. } | Insn::OpenReadAsync { .. } | Insn::OpenPseudo { .. }
            | Insn::RewindAsync { .. } | Insn::RewindAwait { .. } | Insn::Column { .. }
            | Insn::NextAsync { .. } | Insn::NextAwait { .. } | Insn::RowId { .. }
            | Insn::SorterOpen { .. } | Insn::SorterInsert { .. }
            | Insn::SorterSort { .. } | Insn::SorterData { .. } | Insn::SorterNext { .. } => keeps(
                insn,
                st,
                executed(insn, st, reply, draw),
            ),
            _ => true,
        },
{
    reveal(executed);
    match insn {
        Insn::NullRow { cursor_id } => {
            assert(keeps(insn, st, moves_to_null_row(st, cursor_id, reply)));
        },
        Insn::OpenReadAsync { cursor_id, root_page } => {
            assert(keeps(
                insn,
                st,
                opens(st, cursor_id, RequestView::OpenRead { cursor_id, root_page }, reply),
            ));
        },
        Insn::OpenPseudo { cursor_id, .. } => {
            assert(keeps(
                insn,
                st,
                opens(st, cursor_id, RequestView::OpenPseudo { cursor_id }, reply),
            ));
        },
        Insn::RewindAsync { cursor_id } => {
            assert(keeps(insn, st, rewinds(st, cursor_id, reply)));
        },
        Insn::RewindAwait { cursor_id, pc_if_empty } => {
            assert(keeps(insn, st, awaits(st, cursor_id, true, pc_if_empty, reply)));
        },
        Insn::Column { cursor_id, column, dest } => {
            assert(keeps(insn, st, reads_column(st, cursor_id, column, dest, reply)));
        },
        Insn::NextAsync { cursor_id } => {
            assert(keeps(insn, st, advances(st, cursor_id, reply)));
        },
        Insn::NextAwait { cursor_id, pc_if_next } => {
            assert(keeps(insn, st, awaits_next(st, cursor_id, pc_if_next, reply)));
        },
        Insn::RowId { cursor_id, dest } => {
            assert(keeps(insn, st, reads_rowid(st, cursor_id, dest, reply)));
        },
        Insn::SorterOpen { cursor_id, order, .. } => {
            assert(keeps(insn, st, opens_sorter(st, cursor_id, order@, reply)));
        },
        Insn::SorterInsert { cursor_id, record_reg } => {
            assert(keeps(insn, st, inserts(st, cursor_id, record_reg, reply)));
        },
        Insn::SorterSort { cursor_id, pc_if_empty } => {
            assert(keeps(insn, st, sorts(st, cursor_id, pc_if_empty, reply)));
        },
        Insn::SorterData { cursor_id, dest_reg, pseudo_cursor } => {
            assert(keeps(insn, st, passes_on(st, cursor_id, dest_reg, pseudo_cursor, reply)));
        },
        Insn::SorterNext { cursor_id, pc_if_next } => {
            assert(keeps(insn, st, advances_sorter(st, cursor_id, pc_if_next, reply)));
        },
        _ => {},
    }
}

/// Every instruction keeps what `keeps` says.
pub proof fn law_executed_keeps(insn: Insn, st: StateView, reply: ReplyView, draw: Option<i64>)
    ensures
        keeps(insn, st, executed(insn, st, reply, draw)),
{
    lemma_jumps_keep(insn, st, reply, draw);
    lemma_values_keep(insn, st, reply, draw);
    lemma_cursors_keep(insn, st, reply, draw);
}

/// Any `Column` that is executed while the cursor is on the null row writes NULL, whatever row the
/// host reads.
pub proof fn law_null_row_reads_null(
    st: StateView,
    cursor_id: CursorID,
    column: usize,
    dest: usize,
    row: Option<Seq<ValueView>>,
    draw: Option<i64>,
)
    requires
        st.is_open(cursor_id),
        st.cursors[cursor_id],
        st.has(dest),
    ensures
        executed(
            Insn::Column { cursor_id, column, dest },
            st,
            ReplyView::Record(row),
            draw,
        ) == (st.set(dest, ValueView::Null).next(), EffectView::Continue),
{
    reveal(executed);
}

/// `NullRow` puts a cursor on the null row; no instruction takes it off there but one that moves
/// the cursor to its next row or opens it anew.
pub proof fn law_null_row_stays(
    insn: Insn,
    st: StateView,
    cursor_id: CursorID,
    reply: ReplyView,
    draw: Option<i64>,
)
    requires
        st.is_open(cursor_id),
    ensures
        insn == (Insn::NullRow { cursor_id }) && reply is Nothing ==> {
            let after = executed(insn, st, reply, draw).0;
            after.is_open(cursor_id) && after.cursors[cursor_id]
        },
        st.cursors[cursor_id] && !leaves_null_row(insn, cursor_id) ==> {
            let after = executed(insn, st, reply, draw).0;
            after.is_open(cursor_id) && after.cursors[cursor_id]
        },
{
    if insn == (Insn::NullRow { cursor_id }) {
        reveal(executed);
    }
    law_executed_keeps(insn, st, reply, draw);
    assert(executed(insn, st, reply, draw).0.is_open(cursor_id));
}

/// An instruction that has I/O to wait for is restarted: executed again without a reply, it asks
/// the host for the same as at first.
pub proof fn law_io_restarts(insn: Insn, st: StateView, reply: ReplyView, draw: Option<i64>)
    requires
        executed(insn, st, reply, draw).1 is IO,
    ensures
        executed(insn, st, reply, draw).0.pc == st.pc,
        executed(insn, st, ReplyView::Nothing, draw).1 is Ask,
        executed(insn, executed(insn, st, reply, draw).0, ReplyView::Nothing, draw) == executed(
            insn,
            st,
            ReplyView::Nothing,
            draw,
        ),
{
    law_executed_keeps(insn, st, reply, draw);
    let after = executed(insn, st, reply, draw).0;
    match insn {
        Insn::RewindAsync { .. } => {
            reveal(executed);
        },
        Insn::SorterNext { .. } => {
            reveal(executed);
        },
        Insn::NextAsync { cursor_id } => {
            reveal(executed);
            assert(after.with_cursor(cursor_id, false) =~= st.with_cursor(cursor_id, false));
        },
        _ => {},
    }
}

/// The row that `MakeRecord` puts into a register is the one that `SorterInsert` has inserted.
pub proof fn law_made_record_is_inserted(
    st: StateView,
    start_reg: usize,
    count: usize,
    reg: usize,
    cursor_id: CursorID,
    draw: Option<i64>,
)
    requires
        st.has(reg),
        st.is_open(cursor_id),
    ensures
        ({
            let made = executed(
                Insn::MakeRecord { start_reg, count, dest_reg: reg },
                st,
                ReplyView::Nothing,
                draw,
            );
            &&& made.1 is Continue
            &&& executed(
                Insn::SorterInsert { cursor_id, record_reg: reg },
                made.0,
                ReplyView::Nothing,
                draw,
            ).1 == EffectView::Ask(
                RequestView::Insert {
                    cursor_id,
                    record: taken(st.registers, start_reg as int, count as int),
                },
            )
        }),
{
    reveal(executed);
}

/// Of two values that have an order, one test holds where its opposite does not; and a test holds
/// where the one in the other direction holds with the values swapped.
pub proof fn law_tests(a: ValueView, b: ValueView)
    requires
        ranking(a, b) is Ordered,
    ensures
        holds(Test::Lt, a, b) == Some(!holds(Test::Ge, a, b)->0),
        holds(Test::Gt, a, b) == Some(!holds(Test::Le, a, b)->0),
        holds(Test::Eq, a, b) == Some(!holds(Test::Ne, a, b)->0),
        holds(Test::Lt, a, b) == holds(Test::Gt, b, a),
        holds(Test::Le, a, b) == holds(Test::Ge, b, a),
{
    law_ranking_reversed(a, b);
}

/// To run in two goes is the same as to run in one go.
pub proof fn law_run_in_two_goes(
    insns: Seq<Insn>,
    st: StateView,
    reply: ReplyView,
    m: nat,
    n: nat,
    draws: Seq<Option<i64>>,
)
    requires
        m > 0,
        draws.len() >= m,
    ensures
        run(insns, st, reply, m + n, draws) == {
            let first = run(insns, st, reply, m, draws);
            if first.1 is Continue {
                run(insns, first.0, ReplyView::Nothing, n, draws.skip(m as int))
            } else {
                first
            }
        },
    decreases m,
{
    let after = stepped(insns, st, reply, draws[0]);
    if after.1 is Continue {
        let rest = draws.drop_first();
        assert((m + n - 1) as nat == (m - 1) as nat + n);
        if m > 1 {
            law_run_in_two_goes(insns, after.0, ReplyView::Nothing, (m - 1) as nat, n, rest);
            assert(rest.skip(m - 1) =~= draws.skip(m as int));
        } else {
            assert(rest =~= draws.skip(1));
            assert(run(insns, after.0, ReplyView::Nothing, 0, rest) == (
                after.0,
                EffectView::Continue,
            ));
        }
    }
}

/// A program that draws no random integers does the same every time: what comes of a run depends on
/// the state and the host's reply alone.
pub proof fn law_run_without_random(
    insns: Seq<Insn>,
    st: StateView,
    reply: ReplyView,
    budget: nat,
    draws: Seq<Option<i64>>,
    others: Seq<Option<i64>>,
)
    requires
        forall|i: int| 0 <= i < insns.len() ==> !is_random(#[trigger] insns[i]),
    ensures
        run(insns, st, reply, budget, draws) == run(insns, st, reply, budget, others),
    decreases budget,
{
    if budget > 0 {
        assert(stepped(insns, st, reply, draws[0]) == stepped(insns, st, reply, others[0])) by {
            if is_address(insns, st.pc) {
                let insn = insns[st.pc as int];
                assert(!is_random(insn));
                reveal(executed);
            }
        }
        let after = stepped(insns, st, reply, draws[0]);
        law_run_without_random(
            insns,
            after.0,
            ReplyView::Nothing,
            (budget - 1) as nat,
            draws.drop_first(),
            others.drop_first(),
        );
    }
}

/// In a program without unresolved labels, execution never goes on at a label: its position is
/// never negative.
pub proof fn law_resolved_position(
    insns: Seq<Insn>,
    st: StateView,
    reply: ReplyView,
    budget: nat,
    draws: Seq<Option<i64>>,
)
    requires
        forall|i: int| 0 <= i < insns.len() ==> !(#[trigger] insns[i]).is_pending(),
        st.pc >= 0,
    ensures
        run(insns, st, reply, budget, draws).0.pc >= 0,
    decreases budget,
{
    if budget > 0 {
        let after = stepped(insns, st, reply, draws[0]);
        if is_address(insns, st.pc) {
            let insn = insns[st.pc as int];
            assert(!insn.is_pending());
            law_executed_keeps(insn, st, reply, draws[0]);
            if let Insn::NextAwait { .. } = insn {
                reveal(executed);
            }
        }
        law_resolved_position(
            insns,
            after.0,
            ReplyView::Nothing,
            (budget - 1) as nat,
            draws.drop_first(),
        );
    }
}

/// A run keeps the number of registers, and every cursor that is open.
pub proof fn law_run_keeps(
    insns: Seq<Insn>,
    st: StateView,
    reply: ReplyView,
    budget: nat,
    draws: Seq<Option<i64>>,
    id: CursorID,
)
    ensures
        run(insns, st, reply, budget, draws).0.registers.len() == st.registers.len(),
        st.is_open(id) ==> run(insns, st, reply, budget, draws).0.is_open(id),
    decreases budget,
{
    if budget > 0 {
        let after = stepped(insns, st, reply, draws[0]);
        if is_address(insns, st.pc) {
            law_executed_keeps(insns[st.pc as int], st, reply, draws[0]);
            assert(st.is_open(id) ==> after.0.is_open(id));
        }
        law_run_keeps(
            insns,
            after.0,
            ReplyView::Nothing,
            (budget - 1) as nat,
            draws.drop_first(),
            id,
        );
    }
}

/// A program at its end stays there: running it on changes nothing.
pub proof fn law_done_stays(
    insns: Seq<Insn>,
    st: StateView,
    reply: ReplyView,
    budget: nat,
    draws: Seq<Option<i64>>,
    more: nat,
    others: Seq<Option<i64>>,
)
    requires
        run(insns, st, reply, budget, draws).1 is Done,
        more > 0,
    ensures
        run(insns, run(insns, st, reply, budget, draws).0, ReplyView::Nothing, more, others) == (
            run(insns, st, reply, budget, draws).0,
            EffectView::Done,
        ),
    decreases budget,
{
    let after = stepped(insns, st, reply, draws[0]);
    if after.1 is Continue {
        law_done_stays(
            insns,
            after.0,
            ReplyView::Nothing,
            (budget - 1) as nat,
            draws.drop_first(),
            more,
            others,
        );
    } else {
        let insn = insns[st.pc as int];
        law_executed_keeps(insn, st, reply, draws[0]);
        assert(insn is Halt);
        assert(executed(insn, st, ReplyView::Nothing, others[0]) == (st, EffectView::Done)) by {
            reveal(executed);
        }
    }
}

/// A run without a budget does nothing; with one, it executes the instruction at its position with
/// the reply, and goes on from there, without a reply, just where execution goes on. Where there is
/// no instruction at the position, nothing is done.
pub proof fn law_run_by_steps(
    insns: Seq<Insn>,
    st: StateView,
    reply: ReplyView,
    budget: nat,
    draws: Seq<Option<i64>>,
)
    ensures
        run(insns, st, reply, 0, draws) == (st, EffectView::Continue),
        budget > 0 && 0 <= st.pc < insns.len() && st.pc < i64::MAX ==> {
            let after = executed(insns[st.pc as int], st, reply, draws[0]);
            run(insns, st, reply, budget, draws) == if after.1 is Continue {
                run(insns, after.0, ReplyView::Nothing, (budget - 1) as nat, draws.drop_first())
            } else {
                after
            }
        },
        budget > 0 && !(0 <= st.pc < insns.len() && st.pc < i64::MAX) ==> run(
            insns,
            st,
            reply,
            budget,
            draws,
        ) == (st, EffectView::Error(StepError::Fault)),
{
}

/// What a step gives back for each effect: a row holds the values of its registers as they are
/// handed out, in their order; a request, an error and the end are handed on; where execution could
/// go on, more is to be done.
pub proof fn law_step_results(
    before: StateView,
    st: StateView,
    effect: EffectView,
    result: Result<StepResult<'_>, StepError>,
)
    requires
        is_result((before, effect), st, result),
    ensures
        st == before,
        effect is Continue <==> result matches Ok(StepResult::Pending),
        effect is IO <==> result matches Ok(StepResult::IO),
        effect is Done <==> result matches Ok(StepResult::Done),
        effect matches EffectView::Error(e) ==> result matches Err(f) && e == f,
        effect matches EffectView::Ask(q) ==> result matches Ok(StepResult::Request(r)) && r@ == q,
        effect matches EffectView::Row { start_reg, count } ==> (result matches Ok(
            StepResult::Row(record),
        ) && {
            let len = st.registers.len();
            &&& start_reg + count <= len ==> record@.len() == count
            &&& start_reg <= len < start_reg + count ==> record@.len() == len - start_reg
            &&& len < start_reg ==> record@.len() == 0
            &&& forall|i: int|
                0 <= i < record@.len() && handed_out(st.registers[start_reg + i]) is Some
                    ==> handed_out(st.registers[start_reg + i]) == Some(#[trigger] record@[i])
        }),
{
}

/// The instructions that draw a random integer are those that apply the function `random`.
pub proof fn law_is_random(insn: Insn)
    ensures
        is_random(insn) <==> insn is Function && insn->Function_func is Random,
{
}

} // verus!
