//! The environment in which a program executes.

use std::collections::BTreeMap;
use vstd::prelude::*;
use crate::print::{debug_string, debug_text};
use crate::value::{option_ref_view, values_view, OwnedValue, ValueView};
use crate::{BranchOffset, CursorID};

verus! {

/// The program state describes the environment in which the program executes.
pub struct ProgramState {
    pub pc: BranchOffset,
    // The cursors that are open, each with whether it is on the null row.
    cursors: BTreeMap<CursorID, bool>,
    registers: Vec<OwnedValue>,
}

/// What a `ProgramState` holds.
#[verifier::ext_equal]
pub struct StateView {
    /// The address of the instruction that is executed next.
    pub pc: BranchOffset,
    /// The cursors that are open, each with whether it is on the null row.
    pub cursors: Map<CursorID, bool>,
    /// The values of the registers.
    pub registers: Seq<ValueView>,
}

impl StateView {
    /// Tells whether there is a register `i`.
    pub open spec fn has(self, i: usize) -> bool {
        i < self.registers.len()
    }

    /// The value of register `i`.
    pub open spec fn reg(self, i: usize) -> ValueView {
        self.registers[i as int]
    }

    /// The value of register `i`, where there is such a register.
    pub open spec fn maybe_reg(self, i: int) -> Option<ValueView> {
        if 0 <= i < self.registers.len() {
            Some(self.registers[i])
        } else {
            None
        }
    }

    /// Register `i` holds `v`.
    pub open spec fn set(self, i: usize, v: ValueView) -> StateView {
        StateView { registers: self.registers.update(i as int, v), ..self }
    }

    /// Execution goes on with the next instruction.
    pub open spec fn next(self) -> StateView {
        StateView { pc: (self.pc + 1) as BranchOffset, ..self }
    }

    /// Execution goes on at `to`.
    pub open spec fn jump(self, to: BranchOffset) -> StateView {
        StateView { pc: to, ..self }
    }

    /// Execution goes on at `to` where `b` holds, and with the next instruction elsewhere.
    pub open spec fn jump_if(self, b: bool, to: BranchOffset) -> StateView {
        if b {
            self.jump(to)
        } else {
            self.next()
        }
    }

    /// Tells whether cursor `id` is open.
    pub open spec fn is_open(self, id: CursorID) -> bool {
        self.cursors.contains_key(id)
    }

    /// Cursor `id` is open, and on the null row or not.
    pub open spec fn with_cursor(self, id: CursorID, null_row: bool) -> StateView {
        StateView { cursors: self.cursors.insert(id, null_row), ..self }
    }
}

impl View for ProgramState {
    type V = StateView;

    closed spec fn view(&self) -> StateView {
        StateView {
            pc: self.pc,
            cursors: self.cursors@,
            registers: values_view(self.registers@),
        }
    }
}

impl ProgramState {
    /// The state in which a program starts: at its first instruction, with no open cursor, and with
    /// `max_registers` registers that hold NULL.
    pub fn new(max_registers: usize) -> (state: Self)
        ensures
            state@ == (StateView {
                pc: 0,
                cursors: Map::empty(),
                registers: Seq::new(max_registers as nat, |i: int| ValueView::Null),
            }),
    {
        let mut registers: Vec<OwnedValue> = Vec::with_capacity(max_registers);
        let mut i: usize = 0;
        while i < max_registers
            invariant
                i <= max_registers,
                registers@.len() == i,
                forall|j: int| 0 <= j < i ==> #[trigger] registers@[j] == OwnedValue::Null,
            decreases max_registers - i,
        {
            registers.push(OwnedValue::Null);
            i = i + 1;
        }
        let state = ProgramState { pc: 0, cursors: BTreeMap::new(), registers };
        assert(state@.registers =~= Seq::new(max_registers as nat, |i: int| ValueView::Null));
        state
    }

    /// The number of registers.
    pub fn column_count(&self) -> (count: usize)
        ensures
            count == self@.registers.len(),
    {
        self.registers.len()
    }

    /// The value of register `i`, in the form that shows its kind.
    pub fn column(&self, i: usize) -> (text: Option<String>)
        requires
            i < self@.registers.len(),
        ensures
            text matches Some(t) && t@ == debug_text(self@.registers[i as int]),
    {
        Some(debug_string(&self.registers[i]))
    }

    /// The address of the instruction that is executed next.
    pub fn position(&self) -> (pc: BranchOffset)
        ensures
            pc == self@.pc,
    {
        self.pc
    }

    /// Tells whether there is a register `i`.
    pub(crate) fn has(&self, i: usize) -> (b: bool)
        ensures
            b == self@.has(i),
            b ==> i < usize::MAX,
    {
        i < self.registers.len()
    }

    /// The value of register `i`.
    pub(crate) fn reg(&self, i: usize) -> (v: &OwnedValue)
        requires
            self@.has(i),
        ensures
            v@ == self@.reg(i),
    {
        &self.registers[i]
    }

    /// The value of register `i`, where there is such a register.
    pub(crate) fn maybe_reg(&self, i: usize) -> (v: Option<&OwnedValue>)
        ensures
            option_ref_view(v) == self@.maybe_reg(i as int),
    {
        if i < self.registers.len() {
            Some(&self.registers[i])
        } else {
            None
        }
    }

    /// The registers.
    pub(crate) fn all_registers(&self) -> (registers: &[OwnedValue])
        ensures
            values_view(registers@) == self@.registers,
    {
        self.registers.as_slice()
    }

    /// Lets register `i` hold `v`.
    pub(crate) fn set(&mut self, i: usize, v: OwnedValue)
        requires
            old(self)@.has(i),
        ensures
            final(self)@ == old(self)@.set(i, v@),
    {
        self.registers[i] = v;
        assert(self@.registers =~= old(self)@.set(i, v@).registers);
    }

    /// Goes on with the next instruction.
    pub(crate) fn advance(&mut self)
        requires
            old(self)@.pc < i64::MAX,
        ensures
            final(self)@ == old(self)@.next(),
    {
        self.pc = self.pc + 1;
    }

    /// Goes on at `to`.
    pub(crate) fn jump(&mut self, to: BranchOffset)
        ensures
            final(self)@ == old(self)@.jump(to),
    {
        self.pc = to;
    }

    /// Goes on at `to` where `b` holds, and with the next instruction elsewhere.
    pub(crate) fn jump_if(&mut self, b: bool, to: BranchOffset)
        requires
            old(self)@.pc < i64::MAX,
        ensures
            final(self)@ == old(self)@.jump_if(b, to),
    {
        if b {
            self.pc = to;
        } else {
            self.pc = self.pc + 1;
        }
    }

    /// Tells whether cursor `id` is open.
    pub(crate) fn is_open(&self, id: CursorID) -> (b: bool)
        ensures
            b == self@.is_open(id),
    {
        self.cursors.contains_key(&id)
    }

    /// Tells whether the open cursor `id` is on the null row.
    pub(crate) fn on_null_row(&self, id: CursorID) -> (b: bool)
        requires
            self@.is_open(id),
        ensures
            b == self@.cursors[id],
    {
        match self.cursors.get(&id) {
            Some(b) => *b,
            None => false,
        }
    }

    /// Lets cursor `id` be open, and on the null row or not.
    pub(crate) fn set_cursor(&mut self, id: CursorID, null_row: bool)
        ensures
            final(self)@ == old(self)@.with_cursor(id, null_row),
    {
        self.cursors.insert(id, null_row);
    }
}

/// Writing a register changes that one alone; opening a cursor, or moving it to the null row, that
/// one alone.
pub proof fn law_writes(st: StateView, i: usize, v: ValueView, id: CursorID, null_row: bool)
    requires
        i < st.registers.len(),
        st.pc < i64::MAX,
    ensures
        st.set(i, v).registers[i as int] == v,
        st.set(i, v).registers.len() == st.registers.len(),
        forall|j: int|
            0 <= j < st.registers.len() && j != i ==> #[trigger] st.set(i, v).registers[j]
                == st.registers[j],
        st.set(i, v).pc == st.pc && st.set(i, v).cursors == st.cursors,
        st.next().pc == st.pc + 1,
        st.next().registers == st.registers && st.next().cursors == st.cursors,
        st.with_cursor(id, null_row).is_open(id),
        st.with_cursor(id, null_row).cursors[id] == null_row,
        forall|other: CursorID|
            other != id ==> #[trigger] st.with_cursor(id, null_row).is_open(other) == st.is_open(
                other,
            ),
        forall|other: CursorID|
            other != id && st.is_open(other) ==> #[trigger] st.with_cursor(
                id,
                null_row,
            ).cursors[other] == st.cursors[other],
        st.with_cursor(id, null_row).registers == st.registers,
        st.with_cursor(id, null_row).pc == st.pc,
{
}

} // verus!
