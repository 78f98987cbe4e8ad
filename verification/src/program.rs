//! Programs and their execution.

use vstd::prelude::*;
use crate::execute::{execute, left_out};
use crate::function::{AggFunc, SingleRowFunc};
use crate::insn::Insn;
use crate::protocol::{Effect, EffectView, Reply, ReplyView, StepError, StepResult};
use crate::random::{drawn_integer, exec_random};
use crate::record::{all_handed_out, can_hand_out, make_record, taken};
use crate::running::law_executed_keeps;
use crate::schema::Table;
use crate::semantics::{executed, fault, leaves_out, After};
use crate::state::{ProgramState, StateView};
use crate::BranchOffset;

verus! {

/// A program that can be run.
pub struct Program {
    pub max_registers: usize,
    pub insns: Vec<Insn>,
    pub cursor_ref: Vec<(Option<String>, Option<Table>)>,
}

/// Tells whether an instruction draws a random integer.
pub open spec fn is_random(insn: Insn) -> bool {
    insn matches Insn::Function { func: SingleRowFunc::Random, .. }
}

/// Tells whether there is an instruction at `pc`.
pub open spec fn is_address(insns: Seq<Insn>, pc: BranchOffset) -> bool {
    0 <= pc < insns.len() && pc < i64::MAX
}

/// What the instruction at which the state stands does.
pub open spec fn stepped(
    insns: Seq<Insn>,
    st: StateView,
    reply: ReplyView,
    draw: Option<i64>,
) -> After {
    if is_address(insns, st.pc) {
        executed(insns[st.pc as int], st, reply, draw)
    } else {
        fault(st)
    }
}

/// What `budget` instructions do, one after the other, up to the first one with which execution
/// does not go on. The reply is for the first one. `draws` holds for each instruction the random
/// integer that is drawn for it.
pub open spec fn run(
    insns: Seq<Insn>,
    st: StateView,
    reply: ReplyView,
    budget: nat,
    draws: Seq<Option<i64>>,
) -> After
    decreases budget,
{
    if budget == 0 {
        (st, EffectView::Continue)
    } else {
        let after = stepped(insns, st, reply, draws[0]);
        if after.1 is Continue {
            run(insns, after.0, ReplyView::Nothing, (budget - 1) as nat, draws.drop_first())
        } else {
            after
        }
    }
}

/// Tells whether a step that leaves `st` and `result` does what `after` says.
pub open spec fn is_result(
    after: After,
    st: StateView,
    result: Result<StepResult<'_>, StepError>,
) -> bool {
    &&& st == after.0
    &&& match after.1 {
        EffectView::Continue => result matches Ok(StepResult::Pending),
        EffectView::Row { start_reg, count } => result matches Ok(StepResult::Row(record))
            && record@ == all_handed_out(taken(st.registers, start_reg as int, count as int)),
        EffectView::IO => result matches Ok(StepResult::IO),
        EffectView::Done => result matches Ok(StepResult::Done),
        EffectView::Ask(request) => result matches Ok(StepResult::Request(r)) && r@ == request,
        EffectView::Error(error) => result == Err::<StepResult<'_>, StepError>(error),
    }
}

/// The random integer for an instruction that needs one, where the system gives one: what
/// `drawn_integer` makes of the outcome of `exec_random`. Other instructions get none.
fn draw_for(insn: &Insn) -> (draw: Option<i64>)
    ensures
        draw is Some ==> is_random(*insn),
{
    match insn {
        Insn::Function { func: SingleRowFunc::Random, .. } => drawn_integer(exec_random()),
        _ => None,
    }
}

impl Program {
    /// Executes the instruction at which the state stands.
    fn step_once(&self, state: &mut ProgramState, reply: Reply, draw: Option<i64>) -> (e: Effect)
        requires
            is_address(self.insns@, old(state)@.pc),
        ensures
            (final(state)@, e@) == stepped(self.insns@, old(state)@, reply@, draw),
            e@ matches EffectView::Row { start_reg, count } ==> can_hand_out(
                taken(final(state)@.registers, start_reg as int, count as int),
            ),
    {
        let len: usize = self.insns.len();
        assert(len == self.insns@.len());
        let insn: &Insn = &self.insns[state.position() as usize];
        proof {
            law_executed_keeps(*insn, state@, reply@, draw);
        }
        execute(insn, state, reply, draw)
    }

    /// Executes `budget` instructions, up to the first one with which execution does not go on.
    fn run_on(&self, state: &mut ProgramState, reply: Reply, budget: usize) -> (e: Effect)
        ensures
            exists|draws: Seq<Option<i64>>|
                (final(state)@, e@) == #[trigger] run(
                    self.insns@,
                    old(state)@,
                    reply@,
                    budget as nat,
                    draws,
                ),
            e@ matches EffectView::Row { start_reg, count } ==> can_hand_out(
                taken(final(state)@.registers, start_reg as int, count as int),
            ),
    {
        let ghost insns = self.insns@;
        let ghost st = state@;
        let ghost mut drawn: Seq<Option<i64>> = Seq::empty();
        let mut answer: Reply = reply;
        let mut left: usize = budget;
        assert forall|rest: Seq<Option<i64>>| drawn + rest == rest by {
            assert(drawn + rest =~= rest);
        }
        while left > 0
            invariant
                left <= budget,
                insns == self.insns@,
                st == old(state)@,
                forall|rest: Seq<Option<i64>>|
                    #[trigger] run(insns, st, reply@, budget as nat, drawn + rest) == run(
                        insns,
                        state@,
                        answer@,
                        left as nat,
                        rest,
                    ),
            decreases left,
        {
            let pc: BranchOffset = state.position();
            let ghost now = state@;
            let ghost asked = answer@;
            if pc < 0 || pc as u64 >= self.insns.len() as u64 || pc == i64::MAX {
                proof {
                    let rest = seq![None::<i64>];
                    assert(run(insns, st, reply@, budget as nat, drawn + rest) == fault(now));
                }
                return Effect::Error(StepError::Fault);
            }
            let draw: Option<i64> = draw_for(&self.insns[pc as usize]);
            let e: Effect = self.step_once(state, answer, draw);
            answer = Reply::Nothing;
            left = left - 1;
            let ghost before = drawn;
            proof {
                drawn = drawn.push(draw);
                assert forall|rest: Seq<Option<i64>>|
                    #[trigger] run(insns, st, reply@, budget as nat, drawn + rest) == run(
                        insns,
                        now,
                        asked,
                        (left + 1) as nat,
                        seq![draw] + rest,
                    ) && (seq![draw] + rest).drop_first() == rest by {
                    assert(drawn + rest =~= before + (seq![draw] + rest));
                    assert((seq![draw] + rest).drop_first() =~= rest);
                }
            }
            match e {
                Effect::Continue => {},
                e => {
                    proof {
                        let rest: Seq<Option<i64>> = Seq::empty();
                        assert(run(insns, st, reply@, budget as nat, drawn + rest) == (state@, e@));
                    }
                    return e;
                },
            }
        }
        proof {
            let rest: Seq<Option<i64>> = Seq::empty();
            assert(run(insns, st, reply@, budget as nat, drawn + rest) == (
                state@,
                EffectView::Continue,
            ));
        }
        Effect::Continue
    }

    /// The maximum or minimum that leaves a value out because it is of another kind, where the
    /// instruction at which the state stands is one that does so.
    pub fn unexpected_types(&self, state: &ProgramState) -> (func: Option<AggFunc>)
        ensures
            func == if is_address(self.insns@, state@.pc) {
                leaves_out(self.insns@[state@.pc as int], state@)
            } else {
                None
            },
    {
        let pc: BranchOffset = state.position();
        if pc < 0 || pc as u64 >= self.insns.len() as u64 || pc == i64::MAX {
            None
        } else {
            left_out(&self.insns[pc as usize], state)
        }
    }

    /// Runs the program on, from where the state stands: up to a row of results, to I/O that has to
    /// be waited for, to something that the host has to do, or to the end; and for no more than
    /// `budget` instructions. `reply` is what the host answers to the last step's request.
    pub fn step<'a>(&self, state: &'a mut ProgramState, reply: Reply, budget: usize) -> (result: Result<
        StepResult<'a>,
        StepError,
    >)
        ensures
            exists|draws: Seq<Option<i64>>|
                is_result(
                    #[trigger] run(self.insns@, old(state)@, reply@, budget as nat, draws),
                    final(state)@,
                    result,
                ),
    {
        match self.run_on(state, reply, budget) {
            Effect::Continue => Ok(StepResult::Pending),
            Effect::Row { start_reg, count } => Ok(
                StepResult::Row(make_record(state.all_registers(), &start_reg, &count)),
            ),
            Effect::IO => Ok(StepResult::IO),
            Effect::Done => Ok(StepResult::Done),
            Effect::Ask(request) => Ok(StepResult::Request(request)),
            Effect::Error(error) => Err(error),
        }
    }
}

} // verus!
