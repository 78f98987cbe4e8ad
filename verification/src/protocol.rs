//! What passes between a running program and its host: the requests for what only the host can do
//! (reading through cursors, floating-point arithmetic) and the replies to them.

use vstd::prelude::*;
use crate::arith::{Number, NumberView};
use crate::double::{Double, DoubleView};
use crate::scalar::{RoundOperand, RoundOperandView};
use crate::value::{OwnedRecord, Record, ValueView};
use crate::{CursorID, PageIdx};

verus! {

/// What a program asks of its host.
#[derive(Debug)]
pub enum Request {
    /// Open a cursor on the B-tree at `root_page`. Answered by `Done`.
    OpenRead { cursor_id: CursorID, root_page: PageIdx },
    /// Open a cursor for a pseudo-table that contains a single row. Answered by `Done`.
    OpenPseudo { cursor_id: CursorID },
    /// Open a sorter. For each column, `order` tells whether it ascends. Answered by `Done`.
    OpenSorter { cursor_id: CursorID, order: Vec<bool> },
    /// Move a cursor to its first row. Answered by `Done` or `Io`.
    Rewind { cursor_id: CursorID },
    /// Wait until a cursor's last operation is complete. Answered by `Empty`.
    AwaitCompletion { cursor_id: CursorID },
    /// Read a cursor's current row. Answered by `Record`.
    ReadRecord { cursor_id: CursorID },
    /// Read the rowid of a cursor's current row. Answered by `RowId`.
    ReadRowId { cursor_id: CursorID },
    /// Move a cursor to its next row. Answered by `Done` or `Io`.
    Next { cursor_id: CursorID },
    /// Move a sorter to its next row. Answered by `Empty` or `Io`.
    SorterNext { cursor_id: CursorID },
    /// Insert a row through a cursor. Answered by `Done`.
    Insert { cursor_id: CursorID, record: OwnedRecord },
    /// Convert an integer to a float. Answered by `Float`.
    ToFloat(i64),
    /// Add two numbers. Answered by `Float`.
    Add(Number, Number),
    /// Add two numbers, and a third one to their sum. Answered by `Float`.
    AddThree(Number, Number, Number),
    /// Divide the first number by the second. Answered by `Float`.
    Divide(Number, Number),
    /// Round a number to a number of decimal places. Answered by `Float`.
    Round { value: RoundOperand, precision: RoundOperand },
}

/// What a `Request` holds.
pub enum RequestView {
    OpenRead { cursor_id: CursorID, root_page: PageIdx },
    OpenPseudo { cursor_id: CursorID },
    OpenSorter { cursor_id: CursorID, order: Seq<bool> },
    Rewind { cursor_id: CursorID },
    AwaitCompletion { cursor_id: CursorID },
    ReadRecord { cursor_id: CursorID },
    ReadRowId { cursor_id: CursorID },
    Next { cursor_id: CursorID },
    SorterNext { cursor_id: CursorID },
    Insert { cursor_id: CursorID, record: Seq<ValueView> },
    ToFloat(i64),
    Add(NumberView, NumberView),
    AddThree(NumberView, NumberView, NumberView),
    Divide(NumberView, NumberView),
    Round { value: RoundOperandView, precision: RoundOperandView },
}

impl View for Request {
    type V = RequestView;

    open spec fn view(&self) -> RequestView {
        match *self {
            Request::OpenRead { cursor_id, root_page } => RequestView::OpenRead {
                cursor_id,
                root_page,
            },
            Request::OpenPseudo { cursor_id } => RequestView::OpenPseudo { cursor_id },
            Request::OpenSorter { cursor_id, order } => RequestView::OpenSorter {
                cursor_id,
                order: order@,
            },
            Request::Rewind { cursor_id } => RequestView::Rewind { cursor_id },
            Request::AwaitCompletion { cursor_id } => RequestView::AwaitCompletion { cursor_id },
            Request::ReadRecord { cursor_id } => RequestView::ReadRecord { cursor_id },
            Request::ReadRowId { cursor_id } => RequestView::ReadRowId { cursor_id },
            Request::Next { cursor_id } => RequestView::Next { cursor_id },
            Request::SorterNext { cursor_id } => RequestView::SorterNext { cursor_id },
            Request::Insert { cursor_id, record } => RequestView::Insert {
                cursor_id,
                record: record@,
            },
            Request::ToFloat(i) => RequestView::ToFloat(i),
            Request::Add(a, b) => RequestView::Add(a@, b@),
            Request::AddThree(a, b, c) => RequestView::AddThree(a@, b@, c@),
            Request::Divide(a, b) => RequestView::Divide(a@, b@),
            Request::Round { value, precision } => RequestView::Round {
                value: value@,
                precision: precision@,
            },
        }
    }
}

/// What the host answers.
#[derive(Debug)]
pub enum Reply {
    /// There is nothing to answer: no request is open.
    Nothing,
    /// It is done.
    Done,
    /// There is I/O to wait for.
    Io,
    /// The operation on the cursor failed.
    Failed,
    /// It is done; this tells whether the cursor has no row now.
    Empty(bool),
    /// The current row, where there is one.
    Record(Option<OwnedRecord>),
    /// The rowid of the current row, where there is one.
    RowId(Option<u64>),
    /// The result of floating-point arithmetic.
    Float(Double),
}

/// What a `Reply` holds.
pub enum ReplyView {
    Nothing,
    Done,
    Io,
    Failed,
    Empty(bool),
    Record(Option<Seq<ValueView>>),
    RowId(Option<u64>),
    Float(DoubleView),
}

impl View for Reply {
    type V = ReplyView;

    open spec fn view(&self) -> ReplyView {
        match *self {
            Reply::Nothing => ReplyView::Nothing,
            Reply::Done => ReplyView::Done,
            Reply::Io => ReplyView::Io,
            Reply::Failed => ReplyView::Failed,
            Reply::Empty(b) => ReplyView::Empty(b),
            Reply::Record(Some(r)) => ReplyView::Record(Some(r@)),
            Reply::Record(None) => ReplyView::Record(None),
            Reply::RowId(id) => ReplyView::RowId(id),
            Reply::Float(d) => ReplyView::Float(d@),
        }
    }
}

/// Why execution cannot go on.
#[derive(Clone, Copy, Debug, PartialEq, Eq, Structural)]
pub enum StepError {
    /// The instruction cannot be executed in this state: there is no such instruction, register or
    /// cursor, a value is of the wrong kind, a label has not been resolved, or an integer operation
    /// overflows.
    Fault,
    /// The instruction is `IfPos`, and the value in its register is not an integer.
    IfPosNotInteger,
    /// An operation on a cursor failed.
    CursorFailed,
    /// The system has no random bytes to give.
    RandomUnavailable,
    /// The reply is not one to what the instruction asks.
    BadReply,
}

/// What comes of executing an instruction.
#[derive(Debug)]
pub enum Effect {
    /// Execution goes on.
    Continue,
    /// The registers from `start_reg` on, `count` of them at most, are a row of results.
    Row { start_reg: usize, count: usize },
    /// There is I/O to wait for; the instruction is restarted.
    IO,
    /// The program is at its end.
    Done,
    /// The host is asked for something; the instruction is restarted with its reply.
    Ask(Request),
    /// Execution cannot go on.
    Error(StepError),
}

/// What an `Effect` says.
pub enum EffectView {
    Continue,
    Row { start_reg: usize, count: usize },
    IO,
    Done,
    Ask(RequestView),
    Error(StepError),
}

impl View for Effect {
    type V = EffectView;

    open spec fn view(&self) -> EffectView {
        match *self {
            Effect::Continue => EffectView::Continue,
            Effect::Row { start_reg, count } => EffectView::Row { start_reg, count },
            Effect::IO => EffectView::IO,
            Effect::Done => EffectView::Done,
            Effect::Ask(request) => EffectView::Ask(request@),
            Effect::Error(error) => EffectView::Error(error),
        }
    }
}

/// Where a program stands after a step.
#[derive(Debug)]
pub enum StepResult<'a> {
    /// The program is at its end.
    Done,
    /// There is I/O to wait for.
    IO,
    /// A row of results.
    Row(Record<'a>),
    /// The host is asked for something; its reply belongs to the next step.
    Request(Request),
    /// As many instructions as were allowed have been executed.
    Pending,
}

/// A request holds what it was made of, in that order.
pub proof fn law_request_views(
    cursor_id: CursorID,
    root_page: PageIdx,
    order: Vec<bool>,
    record: OwnedRecord,
    i: i64,
    a: Number,
    b: Number,
    c: Number,
    value: RoundOperand,
    precision: RoundOperand,
)
    ensures
        (Request::OpenRead { cursor_id, root_page })@ == (RequestView::OpenRead {
            cursor_id,
            root_page,
        }),
        (Request::OpenPseudo { cursor_id })@ == (RequestView::OpenPseudo { cursor_id }),
        (Request::OpenSorter { cursor_id, order })@ == (RequestView::OpenSorter {
            cursor_id,
            order: order@,
        }),
        (Request::Rewind { cursor_id })@ == (RequestView::Rewind { cursor_id }),
        (Request::AwaitCompletion { cursor_id })@ == (RequestView::AwaitCompletion { cursor_id }),
        (Request::ReadRecord { cursor_id })@ == (RequestView::ReadRecord { cursor_id }),
        (Request::ReadRowId { cursor_id })@ == (RequestView::ReadRowId { cursor_id }),
        (Request::Next { cursor_id })@ == (RequestView::Next { cursor_id }),
        (Request::SorterNext { cursor_id })@ == (RequestView::SorterNext { cursor_id }),
        (Request::Insert { cursor_id, record })@ == (RequestView::Insert {
            cursor_id,
            record: record@,
        }),
        Request::ToFloat(i)@ == RequestView::ToFloat(i),
        Request::Add(a, b)@ == RequestView::Add(a@, b@),
        Request::AddThree(a, b, c)@ == RequestView::AddThree(a@, b@, c@),
        Request::Divide(a, b)@ == RequestView::Divide(a@, b@),
        (Request::Round { value, precision })@ == (RequestView::Round {
            value: value@,
            precision: precision@,
        }),
{
}

/// A reply and an effect hold what they were made of.
pub proof fn law_reply_views(
    empty: bool,
    record: OwnedRecord,
    id: Option<u64>,
    d: Double,
    start_reg: usize,
    count: usize,
    request: Request,
    error: StepError,
)
    ensures
        Reply::Nothing@ == ReplyView::Nothing,
        Reply::Done@ == ReplyView::Done,
        Reply::Io@ == ReplyView::Io,
        Reply::Failed@ == ReplyView::Failed,
        Reply::Empty(empty)@ == ReplyView::Empty(empty),
        Reply::Record(Some(record))@ == ReplyView::Record(Some(record@)),
        Reply::Record(None)@ == ReplyView::Record(None),
        Reply::RowId(id)@ == ReplyView::RowId(id),
        Reply::Float(d)@ == ReplyView::Float(d@),
        Effect::Continue@ == EffectView::Continue,
        (Effect::Row { start_reg, count })@ == (EffectView::Row { start_reg, count }),
        Effect::IO@ == EffectView::IO,
        Effect::Done@ == EffectView::Done,
        Effect::Ask(request)@ == EffectView::Ask(request@),
        Effect::Error(error)@ == EffectView::Error(error),
{
}

} // verus!
