//! The listing of a program.

use std::rc::Rc;
use vstd::prelude::*;
use vstd::string::*;
use crate::insn::{Insn, InsnKind};
use crate::print::{joined, lemma_joined_next, shown};
use crate::program::Program;
use crate::schema::Table;
use crate::text::{
    decimal, decimal_text, padded, push_decimal, push_padded, push_signed, repeat_text, repeated,
    signed_decimal, signed_text,
};
use crate::value::{OwnedRecord, OwnedValue, ValueView};

verus! {

/// The columns of an instruction's line, but for its address.
pub struct Listing {
    pub opcode: &'static str,
    pub p1: i32,
    pub p2: i32,
    pub p3: i32,
    pub p4: OwnedValue,
    pub comment: String,
}

/// What a `Listing` holds.
pub struct ListingView {
    pub opcode: Seq<char>,
    pub p1: i32,
    pub p2: i32,
    pub p3: i32,
    pub p4: ValueView,
    pub comment: Seq<char>,
}

impl View for Listing {
    type V = ListingView;

    open spec fn view(&self) -> ListingView {
        row(self.opcode@, self.p1, self.p2, self.p3, self.p4@, self.comment@)
    }
}

/// A line with these columns.
pub open spec fn row(
    opcode: Seq<char>,
    p1: i32,
    p2: i32,
    p3: i32,
    p4: ValueView,
    comment: Seq<char>,
) -> ListingView {
    ListingView { opcode, p1, p2, p3, p4, comment }
}

/// The cursors of a program, each with the name by which it is found and the table that it reads.
pub type CursorRef = Seq<(Option<String>, Option<Table>)>;

/// The name of the table that a cursor reads.
pub open spec fn table_text(table: Option<Table>, cursor_id: usize) -> Seq<char> {
    match table {
        Some(t) => t.name@,
        None => "cursor "@ + decimal(cursor_id as nat),
    }
}

/// The name of a column of the table that a cursor reads.
pub open spec fn column_text(table: Option<Table>, column: usize) -> Seq<char> {
    match table {
        Some(t) => match t.column_name(column as int) {
            Some(name) => name,
            None => "column "@ + decimal(column as nat),
        },
        None => "column "@ + decimal(column as nat),
    }
}

/// For each column of a sorter, how it is ordered.
pub open spec fn order_marks(order: Seq<ValueView>) -> Seq<Seq<char>> {
    Seq::new(
        order.len(),
        |i: int|
            if order[i] == ValueView::Integer(0) {
                "B"@
            } else {
                "-B"@
            },
    )
}

/// The key of a sorter.
pub open spec fn sort_key(columns: usize, order: Seq<ValueView>) -> Seq<char> {
    "k("@ + decimal(columns as nat) + ","@ + joined(order_marks(order), ","@) + ")"@
}

/// What a row of results is made of.
pub open spec fn output_text(start_reg: usize, count: usize) -> Seq<char> {
    if count == 1 {
        "output=r["@ + decimal(start_reg as nat) + "]"@
    } else {
        "output=r["@ + decimal(start_reg as nat) + ".."@ + decimal((start_reg + count - 1) as nat)
            + "]"@
    }
}

/// The columns of an instruction's line.
pub open spec fn listing(cursor_ref: CursorRef, insn: Insn) -> ListingView {
    match insn {
        Insn::Init { target_pc } => row(
            "Init"@,
            0,
            target_pc as i32,
            0,
            ValueView::Text(""@),
            "Start at "@ + signed_decimal(target_pc as int),
        ),
        Insn::Add { lhs, rhs, dest } => row(
            "Add"@,
            lhs as i32,
            rhs as i32,
            dest as i32,
            ValueView::Text(""@),
            "r["@ + decimal(dest as nat) + "]=r["@ + decimal(lhs as nat) + "]+r["@
                + decimal(rhs as nat) + "]"@,
        ),
        Insn::Null { dest } => row(
            "Null"@,
            dest as i32,
            0,
            0,
            ValueView::Text(""@),
            "r["@ + decimal(dest as nat) + "]=NULL"@,
        ),
        Insn::NullRow { cursor_id } => row(
            "NullRow"@,
            cursor_id as i32,
            0,
            0,
            ValueView::Text(""@),
            "Set cursor "@ + decimal(cursor_id as nat) + " to a (pseudo) NULL row"@,
        ),
        Insn::NotNull { reg, target_pc } => row(
            "NotNull"@,
            reg as i32,
            target_pc as i32,
            0,
            ValueView::Text(""@),
            "r["@ + decimal(reg as nat) + "] -> "@ + signed_decimal(target_pc as int),
        ),
        Insn::IfPos { reg, target_pc, decrement_by } => row(
            "IfPos"@,
            reg as i32,
            target_pc as i32,
            0,
            ValueView::Text(""@),
            "r["@ + decimal(reg as nat) + "]>0 -> r["@ + decimal(reg as nat) + "]-="@
                + decimal(decrement_by as nat) + ", goto "@ + signed_decimal(target_pc as int),
        ),
        Insn::Eq { lhs, rhs, target_pc } => row(
            "Eq"@,
            lhs as i32,
            rhs as i32,
            target_pc as i32,
            ValueView::Text(""@),
            "if r["@ + decimal(lhs as nat) + "]==r["@ + decimal(rhs as nat) + "] goto "@
                + signed_decimal(target_pc as int),
        ),
        Insn::Ne { lhs, rhs, target_pc } => row(
            "Ne"@,
            lhs as i32,
            rhs as i32,
            target_pc as i32,
            ValueView::Text(""@),
            "if r["@ + decimal(lhs as nat) + "]!=r["@ + decimal(rhs as nat) + "] goto "@
                + signed_decimal(target_pc as int),
        ),
        Insn::Lt { lhs, rhs, target_pc } => row(
            "Lt"@,
            lhs as i32,
            rhs as i32,
            target_pc as i32,
            ValueView::Text(""@),
            "if r["@ + decimal(lhs as nat) + "]<r["@ + decimal(rhs as nat) + "] goto "@
                + signed_decimal(target_pc as int),
        ),
        Insn::Le { lhs, rhs, target_pc } => row(
            "Le"@,
            lhs as i32,
            rhs as i32,
            target_pc as i32,
            ValueView::Text(""@),
            "if r["@ + decimal(lhs as nat) + "]<=r["@ + decimal(rhs as nat) + "] goto "@
                + signed_decimal(target_pc as int),
        ),
        Insn::Gt { lhs, rhs, target_pc } => row(
            "Gt"@,
            lhs as i32,
            rhs as i32,
            target_pc as i32,
            ValueView::Text(""@),
            "if r["@ + decimal(lhs as nat) + "]>r["@ + decimal(rhs as nat) + "] goto "@
                + signed_decimal(target_pc as int),
        ),
        Insn::Ge { lhs, rhs, target_pc } => row(
            "Ge"@,
            lhs as i32,
            rhs as i32,
            target_pc as i32,
            ValueView::Text(""@),
            "if r["@ + decimal(lhs as nat) + "]>=r["@ + decimal(rhs as nat) + "] goto "@
                + signed_decimal(target_pc as int),
        ),
        Insn::If { reg, target_pc, null_reg } => row(
            "If"@,
            reg as i32,
            target_pc as i32,
            null_reg as i32,
            ValueView::Text(""@),
            "if r["@ + decimal(reg as nat) + "] goto "@ + signed_decimal(target_pc as int),
        ),
        Insn::IfNot { reg, target_pc, null_reg } => row(
            "IfNot"@,
            reg as i32,
            target_pc as i32,
            null_reg as i32,
            ValueView::Text(""@),
            "if !r["@ + decimal(reg as nat) + "] goto "@ + signed_decimal(target_pc as int),
        ),
        Insn::OpenReadAsync { cursor_id, root_page } => row(
            "OpenReadAsync"@,
            cursor_id as i32,
            root_page as i32,
            0,
            ValueView::Text(""@),
            "root="@ + decimal(root_page as nat),
        ),
        Insn::OpenReadAwait => row(
            "OpenReadAwait"@,
            0,
            0,
            0,
            ValueView::Text(""@),
            ""@,
        ),
        Insn::OpenPseudo { cursor_id, content_reg, num_fields } => row(
            "OpenPseudo"@,
            cursor_id as i32,
            content_reg as i32,
            num_fields as i32,
            ValueView::Text(""@),
            decimal(num_fields as nat) + " columns in r["@ + decimal(content_reg as nat) + "]"@,
        ),
        Insn::RewindAsync { cursor_id } => row(
            "RewindAsync"@,
            cursor_id as i32,
            0,
            0,
            ValueView::Text(""@),
            ""@,
        ),
        Insn::RewindAwait { cursor_id, pc_if_empty } => row(
            "RewindAwait"@,
            cursor_id as i32,
            pc_if_empty as i32,
            0,
            ValueView::Text(""@),
            ""@,
        ),
        Insn::Column { cursor_id, column, dest } => row(
            "Column"@,
            cursor_id as i32,
            column as i32,
            dest as i32,
            ValueView::Text(""@),
            "r["@ + decimal(dest as nat) + "]="@
                + table_text(cursor_ref[cursor_id as int].1, cursor_id) + "."@
                + column_text(cursor_ref[cursor_id as int].1, column),
        ),
        Insn::MakeRecord { start_reg, count, dest_reg } => row(
            "MakeRecord"@,
            start_reg as i32,
            count as i32,
            dest_reg as i32,
            ValueView::Text(""@),
            "r["@ + decimal(dest_reg as nat) + "]=mkrec(r["@ + decimal(start_reg as nat) + ".."@
                + decimal((start_reg + count - 1) as nat) + "])"@,
        ),
        Insn::ResultRow { start_reg, count } => row(
            "ResultRow"@,
            start_reg as i32,
            count as i32,
            0,
            ValueView::Text(""@),
            output_text(start_reg, count),
        ),
        Insn::NextAsync { cursor_id } => row(
            "NextAsync"@,
            cursor_id as i32,
            0,
            0,
            ValueView::Text(""@),
            ""@,
        ),
        Insn::NextAwait { cursor_id, pc_if_next } => row(
            "NextAwait"@,
            cursor_id as i32,
            pc_if_next as i32,
            0,
            ValueView::Text(""@),
            ""@,
        ),
        Insn::Halt => row(
            "Halt"@,
            0,
            0,
            0,
            ValueView::Text(""@),
            ""@,
        ),
        Insn::Transaction => row(
            "Transaction"@,
            0,
            0,
            0,
            ValueView::Text(""@),
            ""@,
        ),
        Insn::Goto { target_pc } => row(
            "Goto"@,
            0,
            target_pc as i32,
            0,
            ValueView::Text(""@),
            ""@,
        ),
        Insn::Integer { value, dest } => row(
            "Integer"@,
            value as i32,
            dest as i32,
            0,
            ValueView::Text(""@),
            "r["@ + decimal(dest as nat) + "]="@ + signed_decimal(value as int),
        ),
        Insn::Real { value, dest } => row(
            "Real"@,
            0,
            dest as i32,
            0,
            ValueView::Float(value@),
            "r["@ + decimal(dest as nat) + "]="@ + value@.plain,
        ),
        Insn::RealAffinity { register } => row(
            "RealAffinity"@,
            register as i32,
            0,
            0,
            ValueView::Text(""@),
            ""@,
        ),
        Insn::String8 { value, dest } => row(
            "String8"@,
            0,
            dest as i32,
            0,
            ValueView::Text(value@),
            "r["@ + decimal(dest as nat) + "]='"@ + value@ + "'"@,
        ),
        Insn::RowId { cursor_id, dest } => row(
            "RowId"@,
            cursor_id as i32,
            dest as i32,
            0,
            ValueView::Text(""@),
            "r["@ + decimal(dest as nat) + "]="@
                + table_text(cursor_ref[cursor_id as int].1, cursor_id) + ".rowid"@,
        ),
        Insn::DecrJumpZero { reg, target_pc } => row(
            "DecrJumpZero"@,
            reg as i32,
            target_pc as i32,
            0,
            ValueView::Text(""@),
            "if (--r["@ + decimal(reg as nat) + "]==0) goto "@ + signed_decimal(target_pc as int),
        ),
        Insn::AggStep { acc_reg, col, func, .. } => row(
            "AggStep"@,
            0,
            col as i32,
            acc_reg as i32,
            ValueView::Text(func.name()),
            "accum=r["@ + decimal(acc_reg as nat) + "] step(r["@ + decimal(col as nat) + "])"@,
        ),
        Insn::AggFinal { register, func } => row(
            "AggFinal"@,
            0,
            register as i32,
            0,
            ValueView::Text(func.name()),
            "accum=r["@ + decimal(register as nat) + "]"@,
        ),
        Insn::SorterOpen { cursor_id, columns, order } => row(
            "SorterOpen"@,
            cursor_id as i32,
            columns as i32,
            0,
            ValueView::Text(sort_key(columns, order@)),
            "cursor="@ + decimal(cursor_id as nat),
        ),
        Insn::SorterData { cursor_id, dest_reg, pseudo_cursor } => row(
            "SorterData"@,
            cursor_id as i32,
            dest_reg as i32,
            pseudo_cursor as i32,
            ValueView::Text(""@),
            "r["@ + decimal(dest_reg as nat) + "]=data"@,
        ),
        Insn::SorterInsert { cursor_id, record_reg } => row(
            "SorterInsert"@,
            cursor_id as i32,
            record_reg as i32,
            0,
            ValueView::Integer(0),
            "key=r["@ + decimal(record_reg as nat) + "]"@,
        ),
        Insn::SorterSort { cursor_id, pc_if_empty } => row(
            "SorterSort"@,
            cursor_id as i32,
            pc_if_empty as i32,
            0,
            ValueView::Text(""@),
            ""@,
        ),
        Insn::SorterNext { cursor_id, pc_if_next } => row(
            "SorterNext"@,
            cursor_id as i32,
            pc_if_next as i32,
            0,
            ValueView::Text(""@),
            ""@,
        ),
        Insn::Function { start_reg, dest, func } => row(
            "Function"@,
            1,
            start_reg as i32,
            dest as i32,
            ValueView::Text(func.name()),
            "r["@ + decimal(dest as nat) + "]=func(r["@ + decimal(start_reg as nat) + "..])"@,
        ),
    }
}

/// Tells whether the last one of `count` registers from `start_reg` on has a number.
pub open spec fn has_last(start_reg: usize, count: usize) -> bool {
    1 <= start_reg + count <= usize::MAX
}

/// Tells whether an instruction has a line: its cursor is one of the program's, the order of its
/// sorter's columns is given by integers, and the last one of its registers has a number.
pub open spec fn listable(cursor_ref: CursorRef, insn: Insn) -> bool {
    match insn {
        Insn::Column { cursor_id, .. } => cursor_id < cursor_ref.len(),
        Insn::RowId { cursor_id, .. } => cursor_id < cursor_ref.len(),
        Insn::SorterOpen { order, .. } => forall|i: int|
            0 <= i < order@.len() ==> (#[trigger] order@[i]) is Integer,
        Insn::MakeRecord { start_reg, count, .. } => has_last(start_reg, count),
        Insn::ResultRow { start_reg, count } => count == 1 || has_last(start_reg, count),
        _ => true,
    }
}

/// An instruction's line in the listing of a program.
pub open spec fn line(
    cursor_ref: CursorRef,
    addr: usize,
    insn: Insn,
    indent: Seq<char>,
) -> Seq<char> {
    let l = listing(cursor_ref, insn);
    padded(decimal(addr as nat), 4) + "  "@ + padded(indent + l.opcode, 17) + "  "@ + padded(
        signed_decimal(l.p1 as int),
        4,
    ) + "  "@ + padded(signed_decimal(l.p2 as int), 4) + "  "@ + padded(
        signed_decimal(l.p3 as int),
        4,
    ) + "  "@ + padded(shown(l.p4), 13) + "  "@ + padded("0"@, 2) + "  "@ + l.comment
}

/// Text that is written piece by piece.
struct Writer {
    text: String,
}

impl View for Writer {
    type V = Seq<char>;

    closed spec fn view(&self) -> Seq<char> {
        self.text@
    }
}

impl Writer {
    /// Begins with `text`.
    fn new(text: &str) -> (w: Writer)
        ensures
            w@ == text@,
    {
        Writer { text: text.to_owned() }
    }

    /// Begins with a number.
    fn number_first(n: usize) -> (w: Writer)
        ensures
            w@ == decimal(n as nat),
    {
        Writer { text: decimal_text(n) }
    }

    /// Writes `text`.
    fn text(self, text: &str) -> (w: Writer)
        ensures
            w@ == self@ + text@,
    {
        let mut w = self;
        w.text.append(text);
        w
    }

    /// Writes a number.
    fn number(self, n: usize) -> (w: Writer)
        ensures
            w@ == self@ + decimal(n as nat),
    {
        let mut w = self;
        push_decimal(&mut w.text, n as u64);
        w
    }

    /// Writes a number with its sign.
    fn signed(self, i: i64) -> (w: Writer)
        ensures
            w@ == self@ + signed_decimal(i as int),
    {
        let mut w = self;
        push_signed(&mut w.text, i);
        w
    }

    /// What has been written.
    fn finish(self) -> (text: String)
        ensures
            text@ == self@,
    {
        self.text
    }
}

/// The empty text.
fn no_text() -> (v: OwnedValue)
    ensures
        v@ == ValueView::Text(""@),
{
    OwnedValue::Text(Rc::new("".to_owned()))
}

/// The name of the table that a cursor reads.
fn name_of_table(table: &Option<Table>, cursor_id: usize) -> (name: String)
    ensures
        name@ == table_text(*table, cursor_id),
{
    match table {
        Some(t) => t.get_name().to_owned(),
        None => Writer::new("cursor ").number(cursor_id).finish(),
    }
}

/// The name of a column of the table that a cursor reads.
fn name_of_column(table: &Option<Table>, column: usize) -> (name: String)
    ensures
        name@ == column_text(*table, column),
{
    match table {
        Some(t) => match t.column_index_to_name(column) {
            Some(name) => name.to_owned(),
            None => Writer::new("column ").number(column).finish(),
        },
        None => Writer::new("column ").number(column).finish(),
    }
}

/// The key of a sorter.
fn sort_key_text(columns: usize, order: &OwnedRecord) -> (text: String)
    ensures
        text@ == sort_key(columns, order@),
{
    let ghost marks = order_marks(order@);
    let mut text: String = Writer::new("k(").number(columns).text(",").finish();
    let ghost start = text@;
    let mut i: usize = 0;
    assert(start + joined(marks.take(0), ","@) =~= start);
    while i < order.values.len()
        invariant
            i <= order.values@.len(),
            marks == order_marks(order@),
            text@ == start + joined(marks.take(i as int), ","@),
        decreases order.values@.len() - i,
    {
        proof {
            lemma_joined_next(marks, ","@, i as int);
            assert(order@[i as int] == order.values@[i as int]@);
        }
        let ghost before = text@;
        if i > 0 {
            text.append(",");
        }
        let mark: &str = match &order.values[i] {
            OwnedValue::Integer(0) => "B",
            _ => "-B",
        };
        text.append(mark);
        assert(mark@ == marks[i as int]);
        i = i + 1;
        assert(text@ =~= start + joined(marks.take(i as int), ","@));
    }
    assert(marks.take(i as int) =~= marks);
    text.append(")");
    assert(text@ =~= sort_key(columns, order@));
    text
}

/// What a row of results is made of.
fn output_string(start_reg: usize, count: usize) -> (text: String)
    requires
        count == 1 || has_last(start_reg, count),
    ensures
        text@ == output_text(start_reg, count),
{
    if count == 1 {
        Writer::new("output=r[").number(start_reg).text("]").finish()
    } else {
        Writer::new("output=r[").number(start_reg).text("..").number(start_reg + count - 1).text(
            "]",
        ).finish()
    }
}

/// The columns of an instruction's line.
fn list(cursor_ref: &Vec<(Option<String>, Option<Table>)>, insn: &Insn) -> (l: Listing)
    requires
        listable(cursor_ref@, *insn),
    ensures
        l@ == listing(cursor_ref@, *insn),
{
    match insn {
        Insn::Init { target_pc } => Listing {
            opcode: "Init",
            p1: 0,
            p2: *target_pc as i32,
            p3: 0,
            p4: no_text(),
            comment: Writer::new("Start at ").signed(*target_pc).finish(),
        },
        Insn::Add { lhs, rhs, dest } => Listing {
            opcode: "Add",
            p1: *lhs as i32,
            p2: *rhs as i32,
            p3: *dest as i32,
            p4: no_text(),
            comment: Writer::new("r[").number(*dest).text("]=r[").number(*lhs).text("]+r[")
                .number(*rhs).text("]").finish(),
        },
        Insn::Null { dest } => Listing {
            opcode: "Null",
            p1: *dest as i32,
            p2: 0,
            p3: 0,
            p4: no_text(),
            comment: Writer::new("r[").number(*dest).text("]=NULL").finish(),
        },
        Insn::NullRow { cursor_id } => Listing {
            opcode: "NullRow",
            p1: *cursor_id as i32,
            p2: 0,
            p3: 0,
            p4: no_text(),
            comment: Writer::new("Set cursor ").number(*cursor_id).text(" to a (pseudo) NULL row")
                .finish(),
        },
        Insn::NotNull { reg, target_pc } => Listing {
            opcode: "NotNull",
            p1: *reg as i32,
            p2: *target_pc as i32,
            p3: 0,
            p4: no_text(),
            comment: Writer::new("r[").number(*reg).text("] -> ").signed(*target_pc).finish(),
        },
        Insn::IfPos { reg, target_pc, decrement_by } => Listing {
            opcode: "IfPos",
            p1: *reg as i32,
            p2: *target_pc as i32,
            p3: 0,
            p4: no_text(),
            comment: Writer::new("r[").number(*reg).text("]>0 -> r[").number(*reg).text("]-=")
                .number(*decrement_by).text(", goto ").signed(*target_pc).finish(),
        },
        Insn::Eq { lhs, rhs, target_pc } => Listing {
            opcode: "Eq",
            p1: *lhs as i32,
            p2: *rhs as i32,
            p3: *target_pc as i32,
            p4: no_text(),
            comment: Writer::new("if r[").number(*lhs).text("]==r[").number(*rhs).text("] goto ")
                .signed(*target_pc).finish(),
        },
        Insn::Ne { lhs, rhs, target_pc } => Listing {
            opcode: "Ne",
            p1: *lhs as i32,
            p2: *rhs as i32,
            p3: *target_pc as i32,
            p4: no_text(),
            comment: Writer::new("if r[").number(*lhs).text("]!=r[").number(*rhs).text("] goto ")
                .signed(*target_pc).finish(),
        },
        Insn::Lt { lhs, rhs, target_pc } => Listing {
            opcode: "Lt",
            p1: *lhs as i32,
            p2: *rhs as i32,
            p3: *target_pc as i32,
            p4: no_text(),
            comment: Writer::new("if r[").number(*lhs).text("]<r[").number(*rhs).text("] goto ")
                .signed(*target_pc).finish(),
        },
        Insn::Le { lhs, rhs, target_pc } => Listing {
            opcode: "Le",
            p1: *lhs as i32,
            p2: *rhs as i32,
            p3: *target_pc as i32,
            p4: no_text(),
            comment: Writer::new("if r[").number(*lhs).text("]<=r[").number(*rhs).text("] goto ")
                .signed(*target_pc).finish(),
        },
        Insn::Gt { lhs, rhs, target_pc } => Listing {
            opcode: "Gt",
            p1: *lhs as i32,
            p2: *rhs as i32,
            p3: *target_pc as i32,
            p4: no_text(),
            comment: Writer::new("if r[").number(*lhs).text("]>r[").number(*rhs).text("] goto ")
                .signed(*target_pc).finish(),
        },
        Insn::Ge { lhs, rhs, target_pc } => Listing {
            opcode: "Ge",
            p1: *lhs as i32,
            p2: *rhs as i32,
            p3: *target_pc as i32,
            p4: no_text(),
            comment: Writer::new("if r[").number(*lhs).text("]>=r[").number(*rhs).text("] goto ")
                .signed(*target_pc).finish(),
        },
        Insn::If { reg, target_pc, null_reg } => Listing {
            opcode: "If",
            p1: *reg as i32,
            p2: *target_pc as i32,
            p3: *null_reg as i32,
            p4: no_text(),
            comment: Writer::new("if r[").number(*reg).text("] goto ").signed(*target_pc).finish(),
        },
        Insn::IfNot { reg, target_pc, null_reg } => Listing {
            opcode: "IfNot",
            p1: *reg as i32,
            p2: *target_pc as i32,
            p3: *null_reg as i32,
            p4: no_text(),
            comment: Writer::new("if !r[").number(*reg).text("] goto ").signed(*target_pc).finish(),
        },
        Insn::OpenReadAsync { cursor_id, root_page } => Listing {
            opcode: "OpenReadAsync",
            p1: *cursor_id as i32,
            p2: *root_page as i32,
            p3: 0,
            p4: no_text(),
            comment: Writer::new("root=").number(*root_page).finish(),
        },
        Insn::OpenReadAwait => Listing {
            opcode: "OpenReadAwait",
            p1: 0,
            p2: 0,
            p3: 0,
            p4: no_text(),
            comment: Writer::new("").finish(),
        },
        Insn::OpenPseudo { cursor_id, content_reg, num_fields } => Listing {
            opcode: "OpenPseudo",
            p1: *cursor_id as i32,
            p2: *content_reg as i32,
            p3: *num_fields as i32,
            p4: no_text(),
            comment: Writer::number_first(*num_fields).text(" columns in r[").number(*content_reg)
                .text("]").finish(),
        },
        Insn::RewindAsync { cursor_id } => Listing {
            opcode: "RewindAsync",
            p1: *cursor_id as i32,
            p2: 0,
            p3: 0,
            p4: no_text(),
            comment: Writer::new("").finish(),
        },
        Insn::RewindAwait { cursor_id, pc_if_empty } => Listing {
            opcode: "RewindAwait",
            p1: *cursor_id as i32,
            p2: *pc_if_empty as i32,
            p3: 0,
            p4: no_text(),
            comment: Writer::new("").finish(),
        },
        Insn::Column { cursor_id, column, dest } => Listing {
            opcode: "Column",
            p1: *cursor_id as i32,
            p2: *column as i32,
            p3: *dest as i32,
            p4: no_text(),
            comment: Writer::new("r[").number(*dest).text("]=")
                .text(name_of_table(&cursor_ref[*cursor_id].1, *cursor_id).as_str()).text(".")
                .text(name_of_column(&cursor_ref[*cursor_id].1, *column).as_str()).finish(),
        },
        Insn::MakeRecord { start_reg, count, dest_reg } => Listing {
            opcode: "MakeRecord",
            p1: *start_reg as i32,
            p2: *count as i32,
            p3: *dest_reg as i32,
            p4: no_text(),
            comment: Writer::new("r[").number(*dest_reg).text("]=mkrec(r[").number(*start_reg)
                .text("..").number(*start_reg + *count - 1).text("])").finish(),
        },
        Insn::ResultRow { start_reg, count } => Listing {
            opcode: "ResultRow",
            p1: *start_reg as i32,
            p2: *count as i32,
            p3: 0,
            p4: no_text(),
            comment: output_string(*start_reg, *count),
        },
        Insn::NextAsync { cursor_id } => Listing {
            opcode: "NextAsync",
            p1: *cursor_id as i32,
            p2: 0,
            p3: 0,
            p4: no_text(),
            comment: Writer::new("").finish(),
        },
        Insn::NextAwait { cursor_id, pc_if_next } => Listing {
            opcode: "NextAwait",
            p1: *cursor_id as i32,
            p2: *pc_if_next as i32,
            p3: 0,
            p4: no_text(),
            comment: Writer::new("").finish(),
        },
        Insn::Halt => Listing {
            opcode: "Halt",
            p1: 0,
            p2: 0,
            p3: 0,
            p4: no_text(),
            comment: Writer::new("").finish(),
        },
        Insn::Transaction => Listing {
            opcode: "Transaction",
            p1: 0,
            p2: 0,
            p3: 0,
            p4: no_text(),
            comment: Writer::new("").finish(),
        },
        Insn::Goto { target_pc } => Listing {
            opcode: "Goto",
            p1: 0,
            p2: *target_pc as i32,
            p3: 0,
            p4: no_text(),
            comment: Writer::new("").finish(),
        },
        Insn::Integer { value, dest } => Listing {
            opcode: "Integer",
            p1: *value as i32,
            p2: *dest as i32,
            p3: 0,
            p4: no_text(),
            comment: Writer::new("r[").number(*dest).text("]=").signed(*value).finish(),
        },
        Insn::Real { value, dest } => Listing {
            opcode: "Real",
            p1: 0,
            p2: *dest as i32,
            p3: 0,
            p4: OwnedValue::Float(value.clone()),
            comment: Writer::new("r[").number(*dest).text("]=").text(value.plain.as_str()).finish(),
        },
        Insn::RealAffinity { register } => Listing {
            opcode: "RealAffinity",
            p1: *register as i32,
            p2: 0,
            p3: 0,
            p4: no_text(),
            comment: Writer::new("").finish(),
        },
        Insn::String8 { value, dest } => Listing {
            opcode: "String8",
            p1: 0,
            p2: *dest as i32,
            p3: 0,
            p4: OwnedValue::Text(Rc::new(value.clone())),
            comment: Writer::new("r[").number(*dest).text("]='").text(value.as_str()).text("'")
                .finish(),
        },
        Insn::RowId { cursor_id, dest } => Listing {
            opcode: "RowId",
            p1: *cursor_id as i32,
            p2: *dest as i32,
            p3: 0,
            p4: no_text(),
            comment: Writer::new("r[").number(*dest).text("]=")
                .text(name_of_table(&cursor_ref[*cursor_id].1, *cursor_id).as_str()).text(".rowid")
                .finish(),
        },
        Insn::DecrJumpZero { reg, target_pc } => Listing {
            opcode: "DecrJumpZero",
            p1: *reg as i32,
            p2: *target_pc as i32,
            p3: 0,
            p4: no_text(),
            comment: Writer::new("if (--r[").number(*reg).text("]==0) goto ").signed(*target_pc)
                .finish(),
        },
        Insn::AggStep { acc_reg, col, func, .. } => Listing {
            opcode: "AggStep",
            p1: 0,
            p2: *col as i32,
            p3: *acc_reg as i32,
            p4: OwnedValue::Text(Rc::new(func.to_text())),
            comment: Writer::new("accum=r[").number(*acc_reg).text("] step(r[").number(*col)
                .text("])").finish(),
        },
        Insn::AggFinal { register, func } => Listing {
            opcode: "AggFinal",
            p1: 0,
            p2: *register as i32,
            p3: 0,
            p4: OwnedValue::Text(Rc::new(func.to_text())),
            comment: Writer::new("accum=r[").number(*register).text("]").finish(),
        },
        Insn::SorterOpen { cursor_id, columns, order } => Listing {
            opcode: "SorterOpen",
            p1: *cursor_id as i32,
            p2: *columns as i32,
            p3: 0,
            p4: OwnedValue::Text(Rc::new(sort_key_text(*columns, order))),
            comment: Writer::new("cursor=").number(*cursor_id).finish(),
        },
        Insn::SorterData { cursor_id, dest_reg, pseudo_cursor } => Listing {
            opcode: "SorterData",
            p1: *cursor_id as i32,
            p2: *dest_reg as i32,
            p3: *pseudo_cursor as i32,
            p4: no_text(),
            comment: Writer::new("r[").number(*dest_reg).text("]=data").finish(),
        },
        Insn::SorterInsert { cursor_id, record_reg } => Listing {
            opcode: "SorterInsert",
            p1: *cursor_id as i32,
            p2: *record_reg as i32,
            p3: 0,
            p4: OwnedValue::Integer(0),
            comment: Writer::new("key=r[").number(*record_reg).text("]").finish(),
        },
        Insn::SorterSort { cursor_id, pc_if_empty } => Listing {
            opcode: "SorterSort",
            p1: *cursor_id as i32,
            p2: *pc_if_empty as i32,
            p3: 0,
            p4: no_text(),
            comment: Writer::new("").finish(),
        },
        Insn::SorterNext { cursor_id, pc_if_next } => Listing {
            opcode: "SorterNext",
            p1: *cursor_id as i32,
            p2: *pc_if_next as i32,
            p3: 0,
            p4: no_text(),
            comment: Writer::new("").finish(),
        },
        Insn::Function { start_reg, dest, func } => Listing {
            opcode: "Function",
            p1: 1,
            p2: *start_reg as i32,
            p3: *dest as i32,
            p4: OwnedValue::Text(Rc::new(func.to_text())),
            comment: Writer::new("r[").number(*dest).text("]=func(r[").number(*start_reg)
                .text("..])").finish(),
        },
    }
}

/// Tells whether a row holds nothing but integers.
fn all_integers(record: &OwnedRecord) -> (b: bool)
    ensures
        b == forall|i: int| 0 <= i < record@.len() ==> (#[trigger] record@[i]) is Integer,
{
    let mut i: usize = 0;
    while i < record.values.len()
        invariant
            i <= record.values@.len(),
            forall|j: int| 0 <= j < i ==> (#[trigger] record@[j]) is Integer,
        decreases record.values@.len() - i,
    {
        assert(record@[i as int] == record.values@[i as int]@);
        match &record.values[i] {
            OwnedValue::Integer(_) => {},
            _ => {
                assert(!(record@[i as int] is Integer));
                return false;
            },
        }
        i = i + 1;
    }
    true
}

/// Tells whether an instruction has a line.
pub fn has_line(cursor_ref: &Vec<(Option<String>, Option<Table>)>, insn: &Insn) -> (b: bool)
    ensures
        b == listable(cursor_ref@, *insn),
{
    match insn {
        Insn::Column { cursor_id, .. } => *cursor_id < cursor_ref.len(),
        Insn::RowId { cursor_id, .. } => *cursor_id < cursor_ref.len(),
        Insn::SorterOpen { order, .. } => all_integers(order),
        Insn::MakeRecord { start_reg, count, .. } => *count <= usize::MAX - *start_reg && (*count
            > 0 || *start_reg > 0),
        Insn::ResultRow { start_reg, count } => *count == 1 || (*count <= usize::MAX - *start_reg
            && (*count > 0 || *start_reg > 0)),
        _ => true,
    }
}

/// An instruction's line in the listing of a program.
pub fn insn_to_str(program: &Program, addr: usize, insn: &Insn, indent: String) -> (text: String)
    requires
        listable(program.cursor_ref@, *insn),
    ensures
        text@ == line(program.cursor_ref@, addr, *insn, indent@),
{
    let l: Listing = list(&program.cursor_ref, insn);
    let mut opcode: String = indent;
    opcode.append(l.opcode);
    let mut text = String::new();
    push_padded(&mut text, decimal_text(addr).as_str(), 4);
    assert(text@ =~= padded(decimal(addr as nat), 4));
    text.append("  ");
    push_padded(&mut text, opcode.as_str(), 17);
    text.append("  ");
    push_padded(&mut text, signed_text(l.p1 as i64).as_str(), 4);
    text.append("  ");
    push_padded(&mut text, signed_text(l.p2 as i64).as_str(), 4);
    text.append("  ");
    push_padded(&mut text, signed_text(l.p3 as i64).as_str(), 4);
    text.append("  ");
    push_padded(&mut text, l.p4.to_text().as_str(), 13);
    text.append("  ");
    push_padded(&mut text, "0", 2);
    text.append("  ");
    text.append(l.comment.as_str());
    text
}

/// Tells whether the lines after an instruction are indented by one more.
pub open spec fn opens_block(insn: Insn) -> bool {
    insn is RewindAwait || insn is SorterSort
}

/// Tells whether an instruction's line and those after it are indented by one less.
pub open spec fn closes_block(insn: Insn) -> bool {
    insn is NextAsync || insn is SorterNext
}

/// How far a line is indented, after one that is indented by `indent_count`.
pub open spec fn indented(indent_count: int, curr_insn: Insn, prev_insn: Option<Insn>) -> int {
    indent_count + (if prev_insn matches Some(prev) && opens_block(prev) {
        1int
    } else {
        0
    }) - (if closes_block(curr_insn) {
        1int
    } else {
        0
    })
}

/// An instruction that may be missing.
pub open spec fn option_insn(insn: Option<&Insn>) -> Option<Insn> {
    match insn {
        Some(i) => Some(*i),
        None => None,
    }
}

/// How far a line is indented, after one that is indented by `indent_count`.
pub fn get_indent_count(indent_count: usize, curr_insn: &Insn, prev_insn: Option<&Insn>) -> (count:
    usize)
    requires
        0 <= indented(indent_count as int, *curr_insn, option_insn(prev_insn)),
        prev_insn matches Some(prev) && opens_block(*prev) ==> indent_count < usize::MAX,
    ensures
        count == indented(indent_count as int, *curr_insn, option_insn(prev_insn)),
{
    let opened: usize = match prev_insn {
        Some(Insn::RewindAwait { .. }) | Some(Insn::SorterSort { .. }) => indent_count + 1,
        _ => indent_count,
    };
    match curr_insn {
        Insn::NextAsync { .. } | Insn::SorterNext { .. } => opened - 1,
        _ => opened,
    }
}

/// How far the line of instruction `i` is indented.
pub open spec fn indent_at(insns: Seq<Insn>, i: nat) -> int
    decreases i,
{
    if i == 0 {
        indented(0, insns[0], None)
    } else {
        indented(indent_at(insns, (i - 1) as nat), insns[i as int], Some(insns[i - 1]))
    }
}

/// The line of instruction `i`.
pub open spec fn line_at(cursor_ref: CursorRef, insns: Seq<Insn>, i: int) -> Seq<char> {
    line(cursor_ref, i as usize, insns[i], repeated("  "@, indent_at(insns, i as nat) as nat))
}

/// The names of the columns.
pub open spec fn heading() -> Seq<char> {
    "addr  opcode             p1    p2    p3    p4             p5  comment"@
}

/// The rule under the names of the columns.
pub open spec fn rule() -> Seq<char> {
    "----  -----------------  ----  ----  ----  -------------  --  -------"@
}

/// A line is never indented by more than the number of lines before it.
proof fn lemma_indent_bound(insns: Seq<Insn>, i: nat)
    ensures
        indent_at(insns, i) <= i,
    decreases i,
{
    if i > 0 {
        lemma_indent_bound(insns, (i - 1) as nat);
    }
}

impl Program {
    /// Tells whether the program has a listing: each instruction has a line, and no block is closed
    /// that has not been opened.
    pub open spec fn explainable(&self) -> bool {
        forall|i: int|
            0 <= i < self.insns@.len() ==> listable(self.cursor_ref@, #[trigger] self.insns@[i])
                && indent_at(self.insns@, i as nat) >= 0
    }

    /// Tells whether the program has a listing.
    pub fn can_explain(&self) -> (b: bool)
        ensures
            b == self.explainable(),
    {
        let mut indent_count: usize = 0;
        let mut prev_insn: Option<&Insn> = None;
        let mut addr: usize = 0;
        while addr < self.insns.len()
            invariant
                addr <= self.insns@.len(),
                forall|i: int|
                    0 <= i < addr ==> listable(self.cursor_ref@, #[trigger] self.insns@[i])
                        && indent_at(self.insns@, i as nat) >= 0,
                addr == 0 ==> indent_count == 0 && prev_insn is None,
                addr > 0 ==> indent_count == indent_at(self.insns@, (addr - 1) as nat)
                    && option_insn(prev_insn) == Some(self.insns@[addr - 1]),
            decreases self.insns@.len() - addr,
        {
            let insn: &Insn = &self.insns[addr];
            assert(*insn == self.insns@[addr as int]);
            if !has_line(&self.cursor_ref, insn) {
                return false;
            }
            let opens: bool = match prev_insn {
                Some(Insn::RewindAwait { .. }) | Some(Insn::SorterSort { .. }) => true,
                _ => false,
            };
            let closes: bool = match insn {
                Insn::NextAsync { .. } | Insn::SorterNext { .. } => true,
                _ => false,
            };
            if closes && !opens && indent_count == 0 {
                assert(indent_at(self.insns@, addr as nat) < 0);
                return false;
            }
            proof {
                if addr > 0 {
                    lemma_indent_bound(self.insns@, (addr - 1) as nat);
                }
            }
            indent_count = get_indent_count(indent_count, insn, prev_insn);
            prev_insn = Some(insn);
            addr = addr + 1;
        }
        true
    }

    /// The program's listing, line by line.
    pub fn explain(&self) -> (lines: Vec<String>)
        requires
            self.explainable(),
        ensures
            lines@.len() == self.insns@.len() + 2,
            lines@[0]@ == heading(),
            lines@[1]@ == rule(),
            forall|i: int|
                0 <= i < self.insns@.len() ==> (#[trigger] lines@[i + 2])@ == line_at(
                    self.cursor_ref@,
                    self.insns@,
                    i,
                ),
    {
        let mut lines: Vec<String> = Vec::new();
        lines.push(
            "addr  opcode             p1    p2    p3    p4             p5  comment".to_owned(),
        );
        lines.push(
            "----  -----------------  ----  ----  ----  -------------  --  -------".to_owned(),
        );
        let mut indent_count: usize = 0;
        let mut prev_insn: Option<&Insn> = None;
        let mut addr: usize = 0;
        while addr < self.insns.len()
            invariant
                self.explainable(),
                addr <= self.insns@.len(),
                lines@.len() == addr + 2,
                lines@[0]@ == heading(),
                lines@[1]@ == rule(),
                forall|i: int|
                    0 <= i < addr ==> (#[trigger] lines@[i + 2])@ == line_at(
                        self.cursor_ref@,
                        self.insns@,
                        i,
                    ),
                addr == 0 ==> indent_count == 0 && prev_insn is None,
                addr > 0 ==> indent_count == indent_at(self.insns@, (addr - 1) as nat)
                    && option_insn(prev_insn) == Some(self.insns@[addr - 1]),
            decreases self.insns@.len() - addr,
        {
            let insn: &Insn = &self.insns[addr];
            proof {
                assert(listable(self.cursor_ref@, self.insns@[addr as int]));
                if addr > 0 {
                    lemma_indent_bound(self.insns@, (addr - 1) as nat);
                }
            }
            indent_count = get_indent_count(indent_count, insn, prev_insn);
            let ghost before = lines@;
            lines.push(insn_to_str(self, addr, insn, repeat_text("  ", indent_count)));
            assert forall|i: int| 0 <= i < addr + 1 implies (#[trigger] lines@[i + 2])@ == line_at(
                self.cursor_ref@,
                self.insns@,
                i,
            ) by {
                if i < addr {
                    assert(lines@[i + 2] == before[i + 2]);
                }
            }
            prev_insn = Some(insn);
            addr = addr + 1;
        }
        lines
    }
}

/// The number of instructions among the first `n` that open a block.
pub open spec fn opened(insns: Seq<Insn>, n: nat) -> int
    decreases n,
{
    if n == 0 {
        0
    } else {
        opened(insns, (n - 1) as nat) + if opens_block(insns[n - 1]) {
            1int
        } else {
            0
        }
    }
}

/// The number of instructions among the first `n` that close a block.
pub open spec fn shut(insns: Seq<Insn>, n: nat) -> int
    decreases n,
{
    if n == 0 {
        0
    } else {
        shut(insns, (n - 1) as nat) + if closes_block(insns[n - 1]) {
            1int
        } else {
            0
        }
    }
}

/// A line is indented by the number of blocks that are open there: those that the instructions
/// before it have opened, without those that have been closed, by its own instruction too.
pub proof fn law_indent_counts_blocks(insns: Seq<Insn>, i: nat)
    requires
        i < insns.len(),
    ensures
        indent_at(insns, i) == opened(insns, i) - shut(insns, i + 1),
    decreases i,
{
    reveal_with_fuel(opened, 2);
    reveal_with_fuel(shut, 2);
    if i > 0 {
        law_indent_counts_blocks(insns, (i - 1) as nat);
    }
}

/// Where the operands of each instruction stand in its line: registers, cursors and positions in
/// the columns `p1`, `p2` and `p3`, as 32-bit integers.
pub proof fn law_listed_operands(cursor_ref: CursorRef, insn: Insn)
    ensures
        ({
            let l = listing(cursor_ref, insn);
            (l.p1, l.p2, l.p3) == match insn {
                Insn::Init { target_pc } => (0i32, target_pc as i32, 0i32),
                Insn::Add { lhs, rhs, dest } => (lhs as i32, rhs as i32, dest as i32),
                Insn::Null { dest } => (dest as i32, 0i32, 0i32),
                Insn::NullRow { cursor_id } => (cursor_id as i32, 0i32, 0i32),
                Insn::NotNull { reg, target_pc } => (reg as i32, target_pc as i32, 0i32),
                Insn::IfPos { reg, target_pc, .. } => (reg as i32, target_pc as i32, 0i32),
                Insn::Eq { lhs, rhs, target_pc } => (lhs as i32, rhs as i32, target_pc as i32),
                Insn::Ne { lhs, rhs, target_pc } => (lhs as i32, rhs as i32, target_pc as i32),
                Insn::Lt { lhs, rhs, target_pc } => (lhs as i32, rhs as i32, target_pc as i32),
                Insn::Le { lhs, rhs, target_pc } => (lhs as i32, rhs as i32, target_pc as i32),
                Insn::Gt { lhs, rhs, target_pc } => (lhs as i32, rhs as i32, target_pc as i32),
                Insn::Ge { lhs, rhs, target_pc } => (lhs as i32, rhs as i32, target_pc as i32),
                Insn::If { reg, target_pc, null_reg } => (
                    reg as i32,
                    target_pc as i32,
                    null_reg as i32,
                ),
                Insn::IfNot { reg, target_pc, null_reg } => (
                    reg as i32,
                    target_pc as i32,
                    null_reg as i32,
                ),
                Insn::OpenReadAsync { cursor_id, root_page } => (
                    cursor_id as i32,
                    root_page as i32,
                    0i32,
                ),
                Insn::OpenReadAwait => (0i32, 0i32, 0i32),
                Insn::OpenPseudo { cursor_id, content_reg, num_fields } => (
                    cursor_id as i32,
                    content_reg as i32,
                    num_fields as i32,
                ),
                Insn::RewindAsync { cursor_id } => (cursor_id as i32, 0i32, 0i32),
                Insn::RewindAwait { cursor_id, pc_if_empty } => (
                    cursor_id as i32,
                    pc_if_empty as i32,
                    0i32,
                ),
                Insn::Column { cursor_id, column, dest } => (
                    cursor_id as i32,
                    column as i32,
                    dest as i32,
                ),
                Insn::MakeRecord { start_reg, count, dest_reg } => (
                    start_reg as i32,
                    count as i32,
                    dest_reg as i32,
                ),
                Insn::ResultRow { start_reg, count } => (start_reg as i32, count as i32, 0i32),
                Insn::NextAsync { cursor_id } => (cursor_id as i32, 0i32, 0i32),
                Insn::NextAwait { cursor_id, pc_if_next } => (
                    cursor_id as i32,
                    pc_if_next as i32,
                    0i32,
                ),
                Insn::Halt => (0i32, 0i32, 0i32),
                Insn::Transaction => (0i32, 0i32, 0i32),
                Insn::Goto { target_pc } => (0i32, target_pc as i32, 0i32),
                Insn::Integer { value, dest } => (value as i32, dest as i32, 0i32),
                Insn::Real { dest, .. } => (0i32, dest as i32, 0i32),
                Insn::RealAffinity { register } => (register as i32, 0i32, 0i32),
                Insn::String8 { dest, .. } => (0i32, dest as i32, 0i32),
                Insn::RowId { cursor_id, dest } => (cursor_id as i32, dest as i32, 0i32),
                Insn::DecrJumpZero { reg, target_pc } => (reg as i32, target_pc as i32, 0i32),
                Insn::AggStep { acc_reg, col, .. } => (0i32, col as i32, acc_reg as i32),
                Insn::AggFinal { register, .. } => (0i32, register as i32, 0i32),
                Insn::SorterOpen { cursor_id, columns, .. } => (
                    cursor_id as i32,
                    columns as i32,
                    0i32,
                ),
                Insn::SorterData { cursor_id, dest_reg, pseudo_cursor } => (
                    cursor_id as i32,
                    dest_reg as i32,
                    pseudo_cursor as i32,
                ),
                Insn::SorterInsert { cursor_id, record_reg } => (
                    cursor_id as i32,
                    record_reg as i32,
                    0i32,
                ),
                Insn::SorterSort { cursor_id, pc_if_empty } => (
                    cursor_id as i32,
                    pc_if_empty as i32,
                    0i32,
                ),
                Insn::SorterNext { cursor_id, pc_if_next } => (
                    cursor_id as i32,
                    pc_if_next as i32,
                    0i32,
                ),
                Insn::Function { start_reg, dest, .. } => (1i32, start_reg as i32, dest as i32),
            }
        }),
{
}

/// The name of each instruction stands in its line.
pub proof fn law_listed_opcodes(cursor_ref: CursorRef, insn: Insn)
    ensures
        listing(cursor_ref, insn).opcode == match insn.kind_of() {
            InsnKind::Init => "Init"@,
            InsnKind::Add => "Add"@,
            InsnKind::Null => "Null"@,
            InsnKind::NullRow => "NullRow"@,
            InsnKind::NotNull => "NotNull"@,
            InsnKind::IfPos => "IfPos"@,
            InsnKind::Eq => "Eq"@,
            InsnKind::Ne => "Ne"@,
            InsnKind::Lt => "Lt"@,
            InsnKind::Le => "Le"@,
            InsnKind::Gt => "Gt"@,
            InsnKind::Ge => "Ge"@,
            InsnKind::If => "If"@,
            InsnKind::IfNot => "IfNot"@,
            InsnKind::OpenReadAsync => "OpenReadAsync"@,
            InsnKind::OpenReadAwait => "OpenReadAwait"@,
            InsnKind::OpenPseudo => "OpenPseudo"@,
            InsnKind::RewindAsync => "RewindAsync"@,
            InsnKind::RewindAwait => "RewindAwait"@,
            InsnKind::Column => "Column"@,
            InsnKind::MakeRecord => "MakeRecord"@,
            InsnKind::ResultRow => "ResultRow"@,
            InsnKind::NextAsync => "NextAsync"@,
            InsnKind::NextAwait => "NextAwait"@,
            InsnKind::Halt => "Halt"@,
            InsnKind::Transaction => "Transaction"@,
            InsnKind::Goto => "Goto"@,
            InsnKind::Integer => "Integer"@,
            InsnKind::Real => "Real"@,
            InsnKind::RealAffinity => "RealAffinity"@,
            InsnKind::String8 => "String8"@,
            InsnKind::RowId => "RowId"@,
            InsnKind::DecrJumpZero => "DecrJumpZero"@,
            InsnKind::AggStep => "AggStep"@,
            InsnKind::AggFinal => "AggFinal"@,
            InsnKind::SorterOpen => "SorterOpen"@,
            InsnKind::SorterData => "SorterData"@,
            InsnKind::SorterInsert => "SorterInsert"@,
            InsnKind::SorterSort => "SorterSort"@,
            InsnKind::SorterNext => "SorterNext"@,
            InsnKind::Function => "Function"@,
        },
{
}

/// The column `p4` is empty but for floats and texts, which stand there, for the names of
/// functions, the key of a sorter, and the zero of an insertion.
pub proof fn law_listed_p4(cursor_ref: CursorRef, insn: Insn)
    ensures
        ({
            let p4 = listing(cursor_ref, insn).p4;
            match insn {
                Insn::Real { value, .. } => p4 == ValueView::Float(value@),
                Insn::String8 { value, .. } => p4 == ValueView::Text(value@),
                Insn::AggStep { func, .. } => p4 == ValueView::Text(func.name()),
                Insn::AggFinal { func, .. } => p4 == ValueView::Text(func.name()),
                Insn::Function { func, .. } => p4 == ValueView::Text(func.name()),
                Insn::SorterOpen { columns, order, .. } => p4 == ValueView::Text(
                    sort_key(columns, order@),
                ),
                Insn::SorterInsert { .. } => p4 == ValueView::Integer(0),
                _ => p4 matches ValueView::Text(t) && t.len() == 0,
            }
        }),
{
    reveal_strlit("");
}

/// The key of a sorter: the number of its columns and, for each column, a mark with a minus just
/// where the column's own order is not the integer 0.
pub proof fn law_sort_key(columns: usize, order: Seq<ValueView>, i: int)
    ensures
        sort_key(columns, order) == seq!['k', '('] + decimal(columns as nat) + seq![','] + joined(
            order_marks(order),
            seq![','],
        ) + seq![')'],
        order_marks(order).len() == order.len(),
        0 <= i < order.len() ==> order_marks(order)[i] == if order[i] == ValueView::Integer(0) {
            seq!['B']
        } else {
            seq!['-', 'B']
        },
{
    reveal_strlit("k(");
    reveal_strlit(",");
    reveal_strlit(")");
    reveal_strlit("B");
    reveal_strlit("-B");
    assert("k("@ =~= seq!['k', '(']);
    assert(","@ =~= seq![',']);
    assert(")"@ =~= seq![')']);
    assert("B"@ =~= seq!['B']);
    assert("-B"@ =~= seq!['-', 'B']);
}

/// The comments of instructions that name registers, cursors and positions: what each one does,
/// with its own operands in their places.
pub proof fn law_listed_comments(cursor_ref: CursorRef, insn: Insn)
    ensures
        listing(cursor_ref, insn).comment == match insn {
            Insn::Init { target_pc } => "Start at "@ + signed_decimal(target_pc as int),
            Insn::Add { lhs, rhs, dest } => "r["@ + decimal(dest as nat) + "]=r["@
                + decimal(lhs as nat) + "]+r["@ + decimal(rhs as nat) + "]"@,
            Insn::Null { dest } => "r["@ + decimal(dest as nat) + "]=NULL"@,
            Insn::NullRow { cursor_id } => "Set cursor "@ + decimal(cursor_id as nat)
                + " to a (pseudo) NULL row"@,
            Insn::NotNull { reg, target_pc } => "r["@ + decimal(reg as nat) + "] -> "@
                + signed_decimal(target_pc as int),
            Insn::IfPos { reg, target_pc, decrement_by } => "r["@ + decimal(reg as nat)
                + "]>0 -> r["@ + decimal(reg as nat) + "]-="@ + decimal(decrement_by as nat)
                + ", goto "@ + signed_decimal(target_pc as int),
            Insn::Eq { lhs, rhs, target_pc } => "if r["@ + decimal(lhs as nat) + "]==r["@
                + decimal(rhs as nat) + "] goto "@ + signed_decimal(target_pc as int),
            Insn::Ne { lhs, rhs, target_pc } => "if r["@ + decimal(lhs as nat) + "]!=r["@
                + decimal(rhs as nat) + "] goto "@ + signed_decimal(target_pc as int),
            Insn::Lt { lhs, rhs, target_pc } => "if r["@ + decimal(lhs as nat) + "]<r["@
                + decimal(rhs as nat) + "] goto "@ + signed_decimal(target_pc as int),
            Insn::Le { lhs, rhs, target_pc } => "if r["@ + decimal(lhs as nat) + "]<=r["@
                + decimal(rhs as nat) + "] goto "@ + signed_decimal(target_pc as int),
            Insn::Gt { lhs, rhs, target_pc } => "if r["@ + decimal(lhs as nat) + "]>r["@
                + decimal(rhs as nat) + "] goto "@ + signed_decimal(target_pc as int),
            Insn::Ge { lhs, rhs, target_pc } => "if r["@ + decimal(lhs as nat) + "]>=r["@
                + decimal(rhs as nat) + "] goto "@ + signed_decimal(target_pc as int),
            Insn::If { reg, target_pc, .. } => "if r["@ + decimal(reg as nat) + "] goto "@
                + signed_decimal(target_pc as int),
            Insn::IfNot { reg, target_pc, .. } => "if !r["@ + decimal(reg as nat) + "] goto "@
                + signed_decimal(target_pc as int),
            Insn::OpenReadAsync { root_page, .. } => "root="@ + decimal(root_page as nat),
            Insn::OpenPseudo { content_reg, num_fields, .. } => decimal(num_fields as nat)
                + " columns in r["@ + decimal(content_reg as nat) + "]"@,
            Insn::Column { cursor_id, column, dest } => "r["@ + decimal(dest as nat) + "]="@
                + table_text(cursor_ref[cursor_id as int].1, cursor_id) + "."@
                + column_text(cursor_ref[cursor_id as int].1, column),
            Insn::MakeRecord { start_reg, count, dest_reg } => "r["@ + decimal(dest_reg as nat)
                + "]=mkrec(r["@ + decimal(start_reg as nat) + ".."@ + decimal((start_reg
                + count - 1) as nat) + "])"@,
            Insn::ResultRow { start_reg, count } => output_text(start_reg, count),
            Insn::Integer { value, dest } => "r["@ + decimal(dest as nat) + "]="@
                + signed_decimal(value as int),
            Insn::Real { value, dest } => "r["@ + decimal(dest as nat) + "]="@ + value@.plain,
            Insn::String8 { value, dest } => "r["@ + decimal(dest as nat) + "]='"@ + value@ + "'"@,
            Insn::RowId { cursor_id, dest } => "r["@ + decimal(dest as nat) + "]="@
                + table_text(cursor_ref[cursor_id as int].1, cursor_id) + ".rowid"@,
            Insn::DecrJumpZero { reg, target_pc } => "if (--r["@ + decimal(reg as nat)
                + "]==0) goto "@ + signed_decimal(target_pc as int),
            Insn::AggStep { acc_reg, col, .. } => "accum=r["@ + decimal(acc_reg as nat)
                + "] step(r["@ + decimal(col as nat) + "])"@,
            Insn::AggFinal { register, .. } => "accum=r["@ + decimal(register as nat) + "]"@,
            Insn::SorterOpen { cursor_id, .. } => "cursor="@ + decimal(cursor_id as nat),
            Insn::SorterData { dest_reg, .. } => "r["@ + decimal(dest_reg as nat) + "]=data"@,
            Insn::SorterInsert { record_reg, .. } => "key=r["@ + decimal(record_reg as nat) + "]"@,
            Insn::Function { start_reg, dest, func } => "r["@ + decimal(dest as nat) + "]=func(r["@
                + decimal(start_reg as nat) + "..])"@,
            _ => ""@,
        },
{
}

/// The names in comments: that of the table that a cursor reads, or the cursor's number; that of a
/// column of the table, or the column's number where the table is not known or has no such column.
pub proof fn law_listed_names(t: Table, cursor_id: usize, column: usize)
    ensures
        table_text(Some(t), cursor_id) == t.name@,
        table_text(None, cursor_id) == "cursor "@ + decimal(cursor_id as nat),
        column < t.columns@.len() ==> column_text(Some(t), column) == t.columns@[column as int]@,
        column >= t.columns@.len() ==> column_text(Some(t), column) == "column "@ + decimal(
            column as nat,
        ),
        column_text(None, column) == "column "@ + decimal(column as nat),
{
}

/// A row of one register is named by that register, and one of more by its first and its last.
pub proof fn law_output_text(start_reg: usize, count: usize)
    requires
        has_last(start_reg, count),
    ensures
        count == 1 ==> output_text(start_reg, count) == "output=r["@ + decimal(start_reg as nat)
            + "]"@,
        count != 1 ==> output_text(start_reg, count) == "output=r["@ + decimal(start_reg as nat)
            + ".."@ + decimal((start_reg + count - 1) as nat) + "]"@,
{
}

/// Which instructions have a line, as `listable` says.
pub proof fn law_listable(cursor_ref: CursorRef, insn: Insn)
    ensures
        listable(cursor_ref, insn) == match insn {
            Insn::Column { cursor_id, .. } => cursor_id < cursor_ref.len(),
            Insn::RowId { cursor_id, .. } => cursor_id < cursor_ref.len(),
            Insn::SorterOpen { order, .. } => forall|i: int|
                0 <= i < order@.len() ==> (#[trigger] order@[i]) is Integer,
            Insn::MakeRecord { start_reg, count, .. } => 0 <= start_reg + count - 1 < usize::MAX,
            Insn::ResultRow { start_reg, count } => count == 1 || 0 <= start_reg + count - 1
                < usize::MAX,
            _ => true,
        },
{
}

/// How far a line is indented: by one more than the line before it where that one rewinds a cursor
/// or sorts, and by one less where it moves a cursor or a sorter to its next row.
pub proof fn law_indented(indent_count: int, curr: Insn, prev: Insn)
    ensures
        ({
            let opens = prev is RewindAwait || prev is SorterSort;
            let closes = curr is NextAsync || curr is SorterNext;
            &&& !opens && !closes ==> indented(indent_count, curr, Some(prev)) == indent_count
            &&& opens && !closes ==> indented(indent_count, curr, Some(prev)) == indent_count + 1
            &&& !opens && closes ==> indented(indent_count, curr, Some(prev)) == indent_count - 1
            &&& opens && closes ==> indented(indent_count, curr, Some(prev)) == indent_count
            &&& !closes ==> indented(indent_count, curr, None) == indent_count
            &&& closes ==> indented(indent_count, curr, None) == indent_count - 1
        }),
{
}

/// Pieces that are written one after the other are found again where they stand.
proof fn lemma_pieces(
    a: Seq<char>,
    b: Seq<char>,
    c: Seq<char>,
    d: Seq<char>,
    e: Seq<char>,
    f: Seq<char>,
    g: Seq<char>,
    h: Seq<char>,
)
    requires
        a.len() == 6,
        b.len() == 19,
        c.len() == 6,
        d.len() == 6,
        e.len() == 6,
        f.len() == 15,
        g.len() == 4,
    ensures
        ({
            let text = a + b + c + d + e + f + g + h;
            &&& text.len() == 62 + h.len()
            &&& text.subrange(0, 6) == a
            &&& text.subrange(6, 25) == b
            &&& text.subrange(25, 31) == c
            &&& text.subrange(31, 37) == d
            &&& text.subrange(37, 43) == e
            &&& text.subrange(43, 58) == f
            &&& text.subrange(58, 62) == g
            &&& text.skip(62) == h
        }),
{
    let text = a + b + c + d + e + f + g + h;
    assert(text.subrange(0, 6) =~= a);
    assert(text.subrange(6, 25) =~= b);
    assert(text.subrange(25, 31) =~= c);
    assert(text.subrange(31, 37) =~= d);
    assert(text.subrange(37, 43) =~= e);
    assert(text.subrange(43, 58) =~= f);
    assert(text.subrange(58, 62) =~= g);
    assert(text.skip(62) =~= h);
}

/// It makes no difference how pieces are grouped.
proof fn lemma_grouped(a: Seq<char>, b: Seq<char>, c: Seq<char>)
    ensures
        a + b + c == a + (b + c),
{
    assert(a + b + c =~= a + (b + c));
}

/// A text and two blanks more in a column of which it takes no more than the width are the text in
/// a column that is wider by two.
proof fn lemma_padded_with_gap(text: Seq<char>, width: nat)
    requires
        text.len() <= width,
    ensures
        padded(text, width) + "  "@ == padded(text, width + 2),
        padded(text, width + 2).len() == width + 2,
{
    reveal_strlit("  ");
    assert(padded(text, width) + "  "@ =~= padded(text, width + 2));
}

/// Texts that are not wider than their columns are found again where the columns begin.
proof fn lemma_columns(
    addr: Seq<char>,
    name: Seq<char>,
    p1: Seq<char>,
    p2: Seq<char>,
    p3: Seq<char>,
    p4: Seq<char>,
    comment: Seq<char>,
)
    requires
        addr.len() <= 4,
        name.len() <= 17,
        p1.len() <= 4,
        p2.len() <= 4,
        p3.len() <= 4,
        p4.len() <= 13,
    ensures
        ({
            let text = padded(addr, 4) + "  "@ + padded(name, 17) + "  "@ + padded(p1, 4) + "  "@
                + padded(p2, 4) + "  "@ + padded(p3, 4) + "  "@ + padded(p4, 13) + "  "@ + padded(
                "0"@,
                2,
            ) + "  "@ + comment;
            &&& text.len() == 62 + comment.len()
            &&& text.subrange(0, 6) == padded(addr, 6)
            &&& text.subrange(6, 25) == padded(name, 19)
            &&& text.subrange(25, 31) == padded(p1, 6)
            &&& text.subrange(31, 37) == padded(p2, 6)
            &&& text.subrange(37, 43) == padded(p3, 6)
            &&& text.subrange(43, 58) == padded(p4, 15)
            &&& text.subrange(58, 62) == seq!['0', ' ', ' ', ' ']
            &&& text.skip(62) == comment
        }),
{
    reveal_strlit("0");
    lemma_padded_with_gap(addr, 4);
    lemma_padded_with_gap(name, 17);
    lemma_padded_with_gap(p1, 4);
    lemma_padded_with_gap(p2, 4);
    lemma_padded_with_gap(p3, 4);
    lemma_padded_with_gap(p4, 13);
    lemma_padded_with_gap("0"@, 2);
    let (a, b) = (padded(addr, 6), padded(name, 19));
    let (c, d, e) = (padded(p1, 6), padded(p2, 6), padded(p3, 6));
    let (f, g) = (padded(p4, 15), padded("0"@, 4));
    let gap = "  "@;
    assert(g =~= seq!['0', ' ', ' ', ' ']);
    lemma_pieces(a, b, c, d, e, f, g, comment);
    lemma_grouped(a, padded(name, 17), gap);
    lemma_grouped(a + b, padded(p1, 4), gap);
    lemma_grouped(a + b + c, padded(p2, 4), gap);
    lemma_grouped(a + b + c + d, padded(p3, 4), gap);
    lemma_grouped(a + b + c + d + e, padded(p4, 13), gap);
    lemma_grouped(a + b + c + d + e + f, padded("0"@, 2), gap);
}

/// Where what stands in the columns is not wider than they are, each column of a line begins under
/// its name in the heading: the address, the indented name of the instruction, the three operands,
/// `p4`, a zero and the comment.
pub proof fn law_line_columns(cursor_ref: CursorRef, addr: usize, insn: Insn, indent: Seq<char>)
    requires
        decimal(addr as nat).len() <= 4,
        indent.len() + listing(cursor_ref, insn).opcode.len() <= 17,
        signed_decimal(listing(cursor_ref, insn).p1 as int).len() <= 4,
        signed_decimal(listing(cursor_ref, insn).p2 as int).len() <= 4,
        signed_decimal(listing(cursor_ref, insn).p3 as int).len() <= 4,
        shown(listing(cursor_ref, insn).p4).len() <= 13,
    ensures
        ({
            let l = listing(cursor_ref, insn);
            let text = line(cursor_ref, addr, insn, indent);
            &&& text.len() == 62 + l.comment.len()
            &&& text.subrange(0, 6) == padded(decimal(addr as nat), 6)
            &&& text.subrange(6, 25) == padded(indent + l.opcode, 19)
            &&& text.subrange(25, 31) == padded(signed_decimal(l.p1 as int), 6)
            &&& text.subrange(31, 37) == padded(signed_decimal(l.p2 as int), 6)
            &&& text.subrange(37, 43) == padded(signed_decimal(l.p3 as int), 6)
            &&& text.subrange(43, 58) == padded(shown(l.p4), 15)
            &&& text.subrange(58, 62) == seq!['0', ' ', ' ', ' ']
            &&& text.skip(62) == l.comment
        }),
{
    let l = listing(cursor_ref, insn);
    lemma_columns(
        decimal(addr as nat),
        indent + l.opcode,
        signed_decimal(l.p1 as int),
        signed_decimal(l.p2 as int),
        signed_decimal(l.p3 as int),
        shown(l.p4),
        l.comment,
    );
}

/// The line of an instruction has its own address, and two blanks before its name for each block
/// that is open there.
pub proof fn law_line_at(cursor_ref: CursorRef, insns: Seq<Insn>, i: int)
    requires
        0 <= i < insns.len(),
        insns.len() <= usize::MAX,
        indent_at(insns, i as nat) >= 0,
    ensures
        line_at(cursor_ref, insns, i) == line(
            cursor_ref,
            i as usize,
            insns[i],
            repeated(seq![' ', ' '], (opened(insns, i as nat) - shut(insns, (i + 1) as nat)) as nat),
        ),
{
    reveal_strlit("  ");
    assert("  "@ =~= seq![' ', ' ']);
    law_indent_counts_blocks(insns, i as nat);
}

/// A program has a listing just where each of its instructions has a line, and never more blocks have
/// been closed, up to an instruction and with it, than the instructions before it have opened.
pub proof fn law_explainable(program: Program)
    ensures
        program.explainable() <==> (forall|i: int|
            0 <= i < program.insns@.len() ==> listable(
                program.cursor_ref@,
                #[trigger] program.insns@[i],
            ) && shut(program.insns@, (i + 1) as nat) <= opened(program.insns@, i as nat)),
{
    let insns = program.insns@;
    assert forall|i: int| 0 <= i < insns.len() implies indent_at(insns, i as nat) == opened(
        insns,
        i as nat,
    ) - #[trigger] shut(insns, (i + 1) as nat) by {
        law_indent_counts_blocks(insns, i as nat);
    }
}

/// The names of the columns stand where the columns begin, and the rule has a gap where they have one.
pub proof fn law_heading()
    ensures
        heading().len() == rule().len(),
        heading().subrange(0, 4) == "addr"@,
        heading().subrange(6, 12) == "opcode"@,
        heading().subrange(25, 27) == "p1"@,
        heading().subrange(31, 33) == "p2"@,
        heading().subrange(37, 39) == "p3"@,
        heading().subrange(43, 45) == "p4"@,
        heading().subrange(58, 60) == "p5"@,
        heading().subrange(62, 69) == "comment"@,
        forall|i: int|
            0 <= i < rule().len() ==> (#[trigger] rule()[i] == if i == 4 || i == 5 || i == 23 || i
                == 24 || i == 29 || i == 30 || i == 35 || i == 36 || i == 41 || i == 42 || i == 56 || i
                == 57 || i == 60 || i == 61 {
                ' '
            } else {
                '-'
            }),
{
    reveal_strlit("addr  opcode             p1    p2    p3    p4             p5  comment");
    reveal_strlit("----  -----------------  ----  ----  ----  -------------  --  -------");
    reveal_strlit("addr");
    reveal_strlit("opcode");
    reveal_strlit("p1");
    reveal_strlit("p2");
    reveal_strlit("p3");
    reveal_strlit("p4");
    reveal_strlit("p5");
    reveal_strlit("comment");
    assert(heading().subrange(0, 4) =~= "addr"@);
    assert(heading().subrange(6, 12) =~= "opcode"@);
    assert(heading().subrange(25, 27) =~= "p1"@);
    assert(heading().subrange(31, 33) =~= "p2"@);
    assert(heading().subrange(37, 39) =~= "p3"@);
    assert(heading().subrange(43, 45) =~= "p4"@);
    assert(heading().subrange(58, 60) =~= "p5"@);
    assert(heading().subrange(62, 69) =~= "comment"@);
}

} // verus!
