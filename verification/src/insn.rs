//! The instructions of a program.

use vstd::prelude::*;
use crate::double::Double;
use crate::function::{AggFunc, SingleRowFunc};
use crate::value::OwnedRecord;
use crate::{BranchOffset, CursorID, PageIdx};

verus! {

/// An instruction.
#[derive(Debug)]
#[allow(inconsistent_fields)]
pub enum Insn {
    /// Initialize the program state and jump to the given PC.
    Init {
        target_pc: BranchOffset,
    },
    /// Set NULL in the given register.
    Null {
        dest: usize,
    },
    /// Move the cursor to a null row. Any `Column` that occurs while the cursor is on the null row
    /// writes a NULL.
    NullRow {
        cursor_id: CursorID,
    },
    /// Add two registers and store the result in a third register.
    Add {
        lhs: usize,
        rhs: usize,
        dest: usize,
    },
    /// If the given register is a positive integer, decrement it by `decrement_by` and jump to the
    /// given PC.
    IfPos {
        reg: usize,
        target_pc: BranchOffset,
        decrement_by: usize,
    },
    /// If the given register is not NULL, jump to the given PC.
    NotNull {
        reg: usize,
        target_pc: BranchOffset,
    },
    /// Compare two registers and jump to the given PC if they are equal, or if one of them is NULL.
    Eq {
        lhs: usize,
        rhs: usize,
        target_pc: BranchOffset,
    },
    /// Compare two registers and jump to the given PC if they are not equal, or if one of them is
    /// NULL.
    Ne {
        lhs: usize,
        rhs: usize,
        target_pc: BranchOffset,
    },
    /// Compare two registers and jump to the given PC if the left-hand side is
    /// less than the right-hand side, or if one of them is NULL.
    Lt {
        lhs: usize,
        rhs: usize,
        target_pc: BranchOffset,
    },
    /// Compare two registers and jump to the given PC if the left-hand side is
    /// less than or equal to the right-hand side, or if one of them is NULL.
    Le {
        lhs: usize,
        rhs: usize,
        target_pc: BranchOffset,
    },
    /// Compare two registers and jump to the given PC if the left-hand side is
    /// greater than the right-hand side, or if one of them is NULL.
    Gt {
        lhs: usize,
        rhs: usize,
        target_pc: BranchOffset,
    },
    /// Compare two registers and jump to the given PC if the left-hand side is
    /// greater than or equal to the right-hand side, or if one of them is NULL.
    Ge {
        lhs: usize,
        rhs: usize,
        target_pc: BranchOffset,
    },
    /// Jump to the given PC if the register is a number other than zero, or if it is NULL and the
    /// register `null_reg` is a number other than zero.
    If {
        reg: usize,
        target_pc: BranchOffset,
        null_reg: usize,
    },
    /// Jump to the given PC if the register is zero, or if it is NULL and the register `null_reg`
    /// is a number other than zero.
    IfNot {
        reg: usize,
        target_pc: BranchOffset,
        null_reg: usize,
    },
    /// Open a cursor for reading.
    OpenReadAsync {
        cursor_id: CursorID,
        root_page: PageIdx,
    },
    /// Await the completion of opening a cursor.
    OpenReadAwait,
    /// Open a cursor for a pseudo-table that contains a single row.
    OpenPseudo {
        cursor_id: CursorID,
        content_reg: usize,
        num_fields: usize,
    },
    /// Rewind the cursor to the beginning of the B-Tree.
    RewindAsync {
        cursor_id: CursorID,
    },
    /// Await the completion of a cursor's rewind, and jump if the cursor is empty.
    RewindAwait {
        cursor_id: CursorID,
        pc_if_empty: BranchOffset,
    },
    /// Read a column from the current row of the cursor.
    Column {
        cursor_id: CursorID,
        column: usize,
        dest: usize,
    },
    /// Make a record and write it to the destination register.
    MakeRecord {
        start_reg: usize,
        count: usize,
        dest_reg: usize,
    },
    /// Emit a row of results.
    ResultRow {
        start_reg: usize,
        count: usize,
    },
    /// Advance the cursor to the next row.
    NextAsync {
        cursor_id: CursorID,
    },
    /// Await the completion of a cursor's advance, and jump if there is a row.
    NextAwait {
        cursor_id: CursorID,
        pc_if_next: BranchOffset,
    },
    /// Halt the program.
    Halt,
    /// Start a transaction.
    Transaction,
    /// Branch to the given PC.
    Goto {
        target_pc: BranchOffset,
    },
    /// Write an integer value into a register.
    Integer {
        value: i64,
        dest: usize,
    },
    /// Write a float value into a register.
    Real {
        value: Double,
        dest: usize,
    },
    /// If the register holds an integer, transform it to a float.
    RealAffinity {
        register: usize,
    },
    /// Write a string value into a register.
    String8 {
        value: String,
        dest: usize,
    },
    /// Read the rowid of the current row.
    RowId {
        cursor_id: CursorID,
        dest: usize,
    },
    /// Decrement the given register and jump to the given PC if the result is zero.
    DecrJumpZero {
        reg: usize,
        target_pc: BranchOffset,
    },
    /// Take the value of register `col` into the aggregate in register `acc_reg`.
    AggStep {
        acc_reg: usize,
        col: usize,
        delimiter: usize,
        func: AggFunc,
    },
    /// Complete the aggregate in the given register.
    AggFinal {
        register: usize,
        func: AggFunc,
    },
    /// Open a sorter. In `order`, 0 stands for ascending and 1 for descending.
    SorterOpen {
        cursor_id: CursorID,
        columns: usize,
        order: OwnedRecord,
    },
    /// Insert a row into the sorter.
    SorterInsert {
        cursor_id: CursorID,
        record_reg: usize,
    },
    /// Sort the rows in the sorter; jump if there is no such sorter.
    SorterSort {
        cursor_id: CursorID,
        pc_if_empty: BranchOffset,
    },
    /// Retrieve the current row from the sorter and hand it to the pseudo cursor.
    SorterData {
        cursor_id: CursorID,
        dest_reg: usize,
        pseudo_cursor: usize,
    },
    /// Advance to the next row in the sorter, and jump if there is one.
    SorterNext {
        cursor_id: CursorID,
        pc_if_next: BranchOffset,
    },
    /// Apply a function to the registers from `start_reg` on.
    Function {
        start_reg: usize,
        dest: usize,
        func: SingleRowFunc,
    },
}

/// The kinds of instructions.
#[derive(Clone, Copy, Debug, PartialEq, Eq, Structural)]
pub enum InsnKind {
    Init,
    Null,
    NullRow,
    Add,
    IfPos,
    NotNull,
    Eq,
    Ne,
    Lt,
    Le,
    Gt,
    Ge,
    If,
    IfNot,
    OpenReadAsync,
    OpenReadAwait,
    OpenPseudo,
    RewindAsync,
    RewindAwait,
    Column,
    MakeRecord,
    ResultRow,
    NextAsync,
    NextAwait,
    Halt,
    Transaction,
    Goto,
    Integer,
    Real,
    RealAffinity,
    String8,
    RowId,
    DecrJumpZero,
    AggStep,
    AggFinal,
    SorterOpen,
    SorterInsert,
    SorterSort,
    SorterData,
    SorterNext,
    Function,
}

impl Insn {
    /// The instruction's kind.
    pub open spec fn kind_of(self) -> InsnKind {
        match self {
            Insn::Init { .. } => InsnKind::Init,
            Insn::Null { .. } => InsnKind::Null,
            Insn::NullRow { .. } => InsnKind::NullRow,
            Insn::Add { .. } => InsnKind::Add,
            Insn::IfPos { .. } => InsnKind::IfPos,
            Insn::NotNull { .. } => InsnKind::NotNull,
            Insn::Eq { .. } => InsnKind::Eq,
            Insn::Ne { .. } => InsnKind::Ne,
            Insn::Lt { .. } => InsnKind::Lt,
            Insn::Le { .. } => InsnKind::Le,
            Insn::Gt { .. } => InsnKind::Gt,
            Insn::Ge { .. } => InsnKind::Ge,
            Insn::If { .. } => InsnKind::If,
            Insn::IfNot { .. } => InsnKind::IfNot,
            Insn::OpenReadAsync { .. } => InsnKind::OpenReadAsync,
            Insn::OpenReadAwait => InsnKind::OpenReadAwait,
            Insn::OpenPseudo { .. } => InsnKind::OpenPseudo,
            Insn::RewindAsync { .. } => InsnKind::RewindAsync,
            Insn::RewindAwait { .. } => InsnKind::RewindAwait,
            Insn::Column { .. } => InsnKind::Column,
            Insn::MakeRecord { .. } => InsnKind::MakeRecord,
            Insn::ResultRow { .. } => InsnKind::ResultRow,
            Insn::NextAsync { .. } => InsnKind::NextAsync,
            Insn::NextAwait { .. } => InsnKind::NextAwait,
            Insn::Halt => InsnKind::Halt,
            Insn::Transaction => InsnKind::Transaction,
            Insn::Goto { .. } => InsnKind::Goto,
            Insn::Integer { .. } => InsnKind::Integer,
            Insn::Real { .. } => InsnKind::Real,
            Insn::RealAffinity { .. } => InsnKind::RealAffinity,
            Insn::String8 { .. } => InsnKind::String8,
            Insn::RowId { .. } => InsnKind::RowId,
            Insn::DecrJumpZero { .. } => InsnKind::DecrJumpZero,
            Insn::AggStep { .. } => InsnKind::AggStep,
            Insn::AggFinal { .. } => InsnKind::AggFinal,
            Insn::SorterOpen { .. } => InsnKind::SorterOpen,
            Insn::SorterInsert { .. } => InsnKind::SorterInsert,
            Insn::SorterSort { .. } => InsnKind::SorterSort,
            Insn::SorterData { .. } => InsnKind::SorterData,
            Insn::SorterNext { .. } => InsnKind::SorterNext,
            Insn::Function { .. } => InsnKind::Function,
        }
    }

    /// The instruction's kind.
    pub fn kind(&self) -> (kind: InsnKind)
        ensures
            kind == self.kind_of(),
    {
        match self {
            Insn::Init { .. } => InsnKind::Init,
            Insn::Null { .. } => InsnKind::Null,
            Insn::NullRow { .. } => InsnKind::NullRow,
            Insn::Add { .. } => InsnKind::Add,
            Insn::IfPos { .. } => InsnKind::IfPos,
            Insn::NotNull { .. } => InsnKind::NotNull,
            Insn::Eq { .. } => InsnKind::Eq,
            Insn::Ne { .. } => InsnKind::Ne,
            Insn::Lt { .. } => InsnKind::Lt,
            Insn::Le { .. } => InsnKind::Le,
            Insn::Gt { .. } => InsnKind::Gt,
            Insn::Ge { .. } => InsnKind::Ge,
            Insn::If { .. } => InsnKind::If,
            Insn::IfNot { .. } => InsnKind::IfNot,
            Insn::OpenReadAsync { .. } => InsnKind::OpenReadAsync,
            Insn::OpenReadAwait => InsnKind::OpenReadAwait,
            Insn::OpenPseudo { .. } => InsnKind::OpenPseudo,
            Insn::RewindAsync { .. } => InsnKind::RewindAsync,
            Insn::RewindAwait { .. } => InsnKind::RewindAwait,
            Insn::Column { .. } => InsnKind::Column,
            Insn::MakeRecord { .. } => InsnKind::MakeRecord,
            Insn::ResultRow { .. } => InsnKind::ResultRow,
            Insn::NextAsync { .. } => InsnKind::NextAsync,
            Insn::NextAwait { .. } => InsnKind::NextAwait,
            Insn::Halt => InsnKind::Halt,
            Insn::Transaction => InsnKind::Transaction,
            Insn::Goto { .. } => InsnKind::Goto,
            Insn::Integer { .. } => InsnKind::Integer,
            Insn::Real { .. } => InsnKind::Real,
            Insn::RealAffinity { .. } => InsnKind::RealAffinity,
            Insn::String8 { .. } => InsnKind::String8,
            Insn::RowId { .. } => InsnKind::RowId,
            Insn::DecrJumpZero { .. } => InsnKind::DecrJumpZero,
            Insn::AggStep { .. } => InsnKind::AggStep,
            Insn::AggFinal { .. } => InsnKind::AggFinal,
            Insn::SorterOpen { .. } => InsnKind::SorterOpen,
            Insn::SorterInsert { .. } => InsnKind::SorterInsert,
            Insn::SorterSort { .. } => InsnKind::SorterSort,
            Insn::SorterData { .. } => InsnKind::SorterData,
            Insn::SorterNext { .. } => InsnKind::SorterNext,
            Insn::Function { .. } => InsnKind::Function,
        }
    }

    /// The place in the instruction that a label can fill, where it has one: the position to jump
    /// to, or a label that has still to be resolved.
    pub open spec fn target(self) -> Option<BranchOffset> {
        match self {
            Insn::Init { target_pc, .. } => Some(target_pc),
            Insn::IfPos { target_pc, .. } => Some(target_pc),
            Insn::NotNull { target_pc, .. } => Some(target_pc),
            Insn::Eq { target_pc, .. } => Some(target_pc),
            Insn::Ne { target_pc, .. } => Some(target_pc),
            Insn::Lt { target_pc, .. } => Some(target_pc),
            Insn::Le { target_pc, .. } => Some(target_pc),
            Insn::Gt { target_pc, .. } => Some(target_pc),
            Insn::Ge { target_pc, .. } => Some(target_pc),
            Insn::If { target_pc, .. } => Some(target_pc),
            Insn::IfNot { target_pc, .. } => Some(target_pc),
            Insn::RewindAwait { pc_if_empty, .. } => Some(pc_if_empty),
            Insn::Goto { target_pc, .. } => Some(target_pc),
            Insn::DecrJumpZero { target_pc, .. } => Some(target_pc),
            Insn::SorterSort { pc_if_empty, .. } => Some(pc_if_empty),
            Insn::SorterNext { pc_if_next, .. } => Some(pc_if_next),
            _ => None,
        }
    }

    /// The instruction with `to` as the position to jump to.
    pub open spec fn with_target(self, to: BranchOffset) -> Insn {
        match self {
            Insn::Init { .. } => Insn::Init { target_pc: to },
            Insn::IfPos { reg, decrement_by, .. } => Insn::IfPos { reg, decrement_by, target_pc: to },
            Insn::NotNull { reg, .. } => Insn::NotNull { reg, target_pc: to },
            Insn::Eq { lhs, rhs, .. } => Insn::Eq { lhs, rhs, target_pc: to },
            Insn::Ne { lhs, rhs, .. } => Insn::Ne { lhs, rhs, target_pc: to },
            Insn::Lt { lhs, rhs, .. } => Insn::Lt { lhs, rhs, target_pc: to },
            Insn::Le { lhs, rhs, .. } => Insn::Le { lhs, rhs, target_pc: to },
            Insn::Gt { lhs, rhs, .. } => Insn::Gt { lhs, rhs, target_pc: to },
            Insn::Ge { lhs, rhs, .. } => Insn::Ge { lhs, rhs, target_pc: to },
            Insn::If { reg, null_reg, .. } => Insn::If { reg, null_reg, target_pc: to },
            Insn::IfNot { reg, null_reg, .. } => Insn::IfNot { reg, null_reg, target_pc: to },
            Insn::RewindAwait { cursor_id, .. } => Insn::RewindAwait { cursor_id, pc_if_empty: to },
            Insn::Goto { .. } => Insn::Goto { target_pc: to },
            Insn::DecrJumpZero { reg, .. } => Insn::DecrJumpZero { reg, target_pc: to },
            Insn::SorterSort { cursor_id, .. } => Insn::SorterSort { cursor_id, pc_if_empty: to },
            Insn::SorterNext { cursor_id, .. } => Insn::SorterNext { cursor_id, pc_if_next: to },
            _ => self,
        }
    }

    /// Tells whether the instruction waits for a label to be resolved.
    pub open spec fn is_pending(self) -> bool {
        self.target() matches Some(t) && t < 0
    }

    /// Fills in the position to jump to.
    pub fn set_target(&mut self, to: BranchOffset)
        requires
            old(self).is_pending(),
        ensures
            *final(self) == old(self).with_target(to),
    {
        match self {
            Insn::Init { target_pc, .. } => {
                *target_pc = to;
            },
            Insn::IfPos { target_pc, .. } => {
                *target_pc = to;
            },
            Insn::NotNull { target_pc, .. } => {
                *target_pc = to;
            },
            Insn::Eq { target_pc, .. } => {
                *target_pc = to;
            },
            Insn::Ne { target_pc, .. } => {
                *target_pc = to;
            },
            Insn::Lt { target_pc, .. } => {
                *target_pc = to;
            },
            Insn::Le { target_pc, .. } => {
                *target_pc = to;
            },
            Insn::Gt { target_pc, .. } => {
                *target_pc = to;
            },
            Insn::Ge { target_pc, .. } => {
                *target_pc = to;
            },
            Insn::If { target_pc, .. } => {
                *target_pc = to;
            },
            Insn::IfNot { target_pc, .. } => {
                *target_pc = to;
            },
            Insn::RewindAwait { pc_if_empty, .. } => {
                *pc_if_empty = to;
            },
            Insn::Goto { target_pc, .. } => {
                *target_pc = to;
            },
            Insn::DecrJumpZero { target_pc, .. } => {
                *target_pc = to;
            },
            Insn::SorterSort { pc_if_empty, .. } => {
                *pc_if_empty = to;
            },
            Insn::SorterNext { pc_if_next, .. } => {
                *pc_if_next = to;
            },
            _ => {},
        }
    }
}

/// Filling in a position changes nothing of an instruction but the position: the kind stays, and
/// with the old position filled in again it is the instruction that it was, with all its operands.
/// Of two positions that are filled in, the last one counts. An instruction without such a place
/// stays as it is.
pub proof fn law_with_target(insn: Insn, to: BranchOffset, other: BranchOffset)
    ensures
        insn.with_target(to).kind_of() == insn.kind_of(),
        insn.target() is Some ==> {
            &&& insn.with_target(to).target() == Some(to)
            &&& insn.with_target(to).with_target(insn.target()->0) == insn
        },
        insn.with_target(other).with_target(to) == insn.with_target(to),
        insn.target() is None ==> insn.with_target(to) == insn,
{
}

/// Two instructions that wait for labels are the same once the same position is filled in just
/// where they agree in all but the label.
pub proof fn law_with_target_keeps_operands(a: Insn, b: Insn, to: BranchOffset)
    requires
        a.target() is Some,
        b.target() is Some,
    ensures
        a.with_target(to) == b.with_target(to) <==> a == b.with_target(a.target()->0),
{
    law_with_target(a, to, to);
    law_with_target(b, a.target()->0, to);
    law_with_target(b, to, a.target()->0);
}

/// The operands of the instructions that jump, for each of them: only the position is another one.
pub proof fn law_operands_kept(
    to: BranchOffset,
    label: BranchOffset,
    a: usize,
    b: usize,
    id: CursorID,
)
    ensures
        (Insn::IfPos { reg: a, target_pc: label, decrement_by: b }).with_target(to) == (Insn::IfPos {
            reg: a,
            target_pc: to,
            decrement_by: b,
        }),
        (Insn::Eq { lhs: a, rhs: b, target_pc: label }).with_target(to) == (Insn::Eq {
            lhs: a,
            rhs: b,
            target_pc: to,
        }),
        (Insn::Lt { lhs: a, rhs: b, target_pc: label }).with_target(to) == (Insn::Lt {
            lhs: a,
            rhs: b,
            target_pc: to,
        }),
        (Insn::If { reg: a, target_pc: label, null_reg: b }).with_target(to) == (Insn::If {
            reg: a,
            target_pc: to,
            null_reg: b,
        }),
        (Insn::RewindAwait { cursor_id: id, pc_if_empty: label }).with_target(to) == (
        Insn::RewindAwait { cursor_id: id, pc_if_empty: to }),
        (Insn::SorterSort { cursor_id: id, pc_if_empty: label }).with_target(to) == (
        Insn::SorterSort { cursor_id: id, pc_if_empty: to }),
        (Insn::SorterNext { cursor_id: id, pc_if_next: label }).with_target(to) == (
        Insn::SorterNext { cursor_id: id, pc_if_next: to }),
{
}

/// Which instructions have a place for a position that a label can fill, and that it is the
/// position that they jump to.
pub proof fn law_target(insn: Insn)
    ensures
        insn.target() == match insn {
            Insn::Init { target_pc } => Some(target_pc),
            Insn::Goto { target_pc } => Some(target_pc),
            Insn::IfPos { target_pc, .. } => Some(target_pc),
            Insn::NotNull { target_pc, .. } => Some(target_pc),
            Insn::DecrJumpZero { target_pc, .. } => Some(target_pc),
            Insn::If { target_pc, .. } => Some(target_pc),
            Insn::IfNot { target_pc, .. } => Some(target_pc),
            Insn::Eq { target_pc, .. } => Some(target_pc),
            Insn::Ne { target_pc, .. } => Some(target_pc),
            Insn::Lt { target_pc, .. } => Some(target_pc),
            Insn::Le { target_pc, .. } => Some(target_pc),
            Insn::Gt { target_pc, .. } => Some(target_pc),
            Insn::Ge { target_pc, .. } => Some(target_pc),
            Insn::RewindAwait { pc_if_empty, .. } => Some(pc_if_empty),
            Insn::SorterSort { pc_if_empty, .. } => Some(pc_if_empty),
            Insn::SorterNext { pc_if_next, .. } => Some(pc_if_next),
            _ => None,
        },
{
}

/// An instruction's kind says which instruction it is.
pub proof fn law_kind(insn: Insn)
    ensures
        insn is Init <==> insn.kind_of() is Init,
        insn is Null <==> insn.kind_of() is Null,
        insn is NullRow <==> insn.kind_of() is NullRow,
        insn is Add <==> insn.kind_of() is Add,
        insn is IfPos <==> insn.kind_of() is IfPos,
        insn is NotNull <==> insn.kind_of() is NotNull,
        insn is Eq <==> insn.kind_of() is Eq,
        insn is Ne <==> insn.kind_of() is Ne,
        insn is Lt <==> insn.kind_of() is Lt,
        insn is Le <==> insn.kind_of() is Le,
        insn is Gt <==> insn.kind_of() is Gt,
        insn is Ge <==> insn.kind_of() is Ge,
        insn is If <==> insn.kind_of() is If,
        insn is IfNot <==> insn.kind_of() is IfNot,
        insn is OpenReadAsync <==> insn.kind_of() is OpenReadAsync,
        insn is OpenReadAwait <==> insn.kind_of() is OpenReadAwait,
        insn is OpenPseudo <==> insn.kind_of() is OpenPseudo,
        insn is RewindAsync <==> insn.kind_of() is RewindAsync,
        insn is RewindAwait <==> insn.kind_of() is RewindAwait,
        insn is Column <==> insn.kind_of() is Column,
        insn is MakeRecord <==> insn.kind_of() is MakeRecord,
        insn is ResultRow <==> insn.kind_of() is ResultRow,
        insn is NextAsync <==> insn.kind_of() is NextAsync,
        insn is NextAwait <==> insn.kind_of() is NextAwait,
        insn is Halt <==> insn.kind_of() is Halt,
        insn is Transaction <==> insn.kind_of() is Transaction,
        insn is Goto <==> insn.kind_of() is Goto,
        insn is Integer <==> insn.kind_of() is Integer,
        insn is Real <==> insn.kind_of() is Real,
        insn is RealAffinity <==> insn.kind_of() is RealAffinity,
        insn is String8 <==> insn.kind_of() is String8,
        insn is RowId <==> insn.kind_of() is RowId,
        insn is DecrJumpZero <==> insn.kind_of() is DecrJumpZero,
        insn is AggStep <==> insn.kind_of() is AggStep,
        insn is AggFinal <==> insn.kind_of() is AggFinal,
        insn is SorterOpen <==> insn.kind_of() is SorterOpen,
        insn is SorterInsert <==> insn.kind_of() is SorterInsert,
        insn is SorterSort <==> insn.kind_of() is SorterSort,
        insn is SorterData <==> insn.kind_of() is SorterData,
        insn is SorterNext <==> insn.kind_of() is SorterNext,
        insn is Function <==> insn.kind_of() is Function,
{
}

/// An instruction waits for a label just where it holds a negative number in place of the position
/// that it jumps to.
pub proof fn law_pending(insn: Insn)
    ensures
        insn.is_pending() <==> insn.target() is Some && insn.target()->0 < 0,
{
}

} // verus!
