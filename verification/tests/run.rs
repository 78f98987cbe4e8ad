use std::collections::BTreeMap;
use std::rc::Rc;
use vdbe::arith::Number;
use vdbe::double::Double;
use vdbe::execute::execute;
use vdbe::function::{AggFunc, SingleRowFunc};
use vdbe::insn::Insn;
use vdbe::program::Program;
use vdbe::protocol::{Effect, Reply, Request, StepError, StepResult};
use vdbe::scalar::{operand_places, operand_value, RoundOperand};
use vdbe::state::ProgramState;
use vdbe::value::{OwnedRecord, OwnedValue, Value};

fn double(x: f64) -> Double {
    Double::new(x.to_bits(), format!("{}", x), format!("{:?}", x))
}

fn number(n: &Number) -> f64 {
    match n {
        Number::Integer(i) => *i as f64,
        Number::Float(d) => f64::from_bits(d.bits),
    }
}

fn parsed(o: &RoundOperand) -> Option<u64> {
    match o {
        RoundOperand::Text(t) => t.parse().ok().map(f64::to_bits),
        RoundOperand::Number(_) => None,
    }
}

fn program(max_registers: usize, insns: Vec<Insn>) -> Program {
    Program { max_registers, insns, cursor_ref: vec![] }
}

// A host whose cursors read rows that are held in memory.
struct Host {
    tables: BTreeMap<usize, Vec<Vec<OwnedValue>>>,
    rows: BTreeMap<usize, Vec<Vec<OwnedValue>>>,
    at: BTreeMap<usize, usize>,
    orders: BTreeMap<usize, Vec<bool>>,
    io: usize,
}

impl Host {
    fn new() -> Host {
        Host {
            tables: BTreeMap::new(),
            rows: BTreeMap::new(),
            at: BTreeMap::new(),
            orders: BTreeMap::new(),
            io: 0,
        }
    }

    fn empty(&self, id: usize) -> bool {
        self.at[&id] >= self.rows[&id].len()
    }

    fn row(&self, id: usize) -> Option<OwnedRecord> {
        self.rows[&id].get(self.at[&id]).map(|r| OwnedRecord::new(r.clone()))
    }

    fn answer(&mut self, request: Request) -> Reply {
        match request {
            Request::OpenRead { cursor_id, root_page } => {
                self.rows.insert(cursor_id, self.tables[&root_page].clone());
                self.at.insert(cursor_id, 0);
                Reply::Done
            }
            Request::OpenPseudo { cursor_id } => {
                self.rows.insert(cursor_id, vec![]);
                self.at.insert(cursor_id, 0);
                Reply::Done
            }
            Request::OpenSorter { cursor_id, order } => {
                self.rows.insert(cursor_id, vec![]);
                self.at.insert(cursor_id, 0);
                self.orders.insert(cursor_id, order);
                Reply::Done
            }
            Request::Rewind { cursor_id } => {
                if self.io > 0 {
                    self.io -= 1;
                    return Reply::Io;
                }
                if let Some(order) = self.orders.get(&cursor_id) {
                    let ascends = order[0];
                    let rows = self.rows.get_mut(&cursor_id).unwrap();
                    rows.sort_by_key(|r| match &r[0] {
                        OwnedValue::Integer(i) => {
                            if ascends {
                                *i
                            } else {
                                -*i
                            }
                        }
                        _ => 0,
                    });
                }
                self.at.insert(cursor_id, 0);
                Reply::Done
            }
            Request::AwaitCompletion { cursor_id } => Reply::Empty(self.empty(cursor_id)),
            Request::ReadRecord { cursor_id } => Reply::Record(self.row(cursor_id)),
            Request::ReadRowId { cursor_id } => {
                if self.empty(cursor_id) {
                    Reply::RowId(None)
                } else {
                    Reply::RowId(Some(self.at[&cursor_id] as u64 + 100))
                }
            }
            Request::Next { cursor_id } => {
                if self.io > 0 {
                    self.io -= 1;
                    return Reply::Io;
                }
                *self.at.get_mut(&cursor_id).unwrap() += 1;
                Reply::Done
            }
            Request::SorterNext { cursor_id } => {
                if self.io > 0 {
                    self.io -= 1;
                    return Reply::Io;
                }
                *self.at.get_mut(&cursor_id).unwrap() += 1;
                Reply::Empty(self.empty(cursor_id))
            }
            Request::Insert { cursor_id, record } => {
                if self.orders.contains_key(&cursor_id) {
                    self.rows.get_mut(&cursor_id).unwrap().push(record.values);
                } else {
                    self.rows.insert(cursor_id, vec![record.values]);
                }
                Reply::Done
            }
            Request::ToFloat(i) => Reply::Float(double(i as f64)),
            Request::Add(a, b) => Reply::Float(double(number(&a) + number(&b))),
            Request::AddThree(a, b, c) => {
                Reply::Float(double(number(&a) + number(&b) + number(&c)))
            }
            Request::Divide(a, b) => Reply::Float(double(number(&a) / number(&b))),
            Request::Round { value, precision } => {
                let places = f64::from_bits(operand_places(&precision, parsed(&precision)));
                let number = f64::from_bits(operand_value(&value, parsed(&value)));
                let multiplier = 10f64.powi(places as i32);
                Reply::Float(double((number * multiplier).round() / multiplier))
            }
        }
    }
}

fn shown(v: &Value<'_>) -> String {
    match v {
        Value::Null => "NULL".to_string(),
        Value::Integer(i) => i.to_string(),
        Value::Float(d) => d.marked.clone(),
        Value::Text(t) => t.to_string(),
        Value::Blob(b) => format!("{:?}", b),
    }
}

// Runs a program to its end and gives its rows, its waits for I/O and how it ended.
fn run(p: &Program, host: &mut Host) -> (Vec<Vec<String>>, usize, Result<(), StepError>) {
    let mut state = ProgramState::new(p.max_registers);
    let mut rows = vec![];
    let mut waits = 0;
    let mut reply = Reply::Nothing;
    for _ in 0..10000 {
        match p.step(&mut state, reply, 3) {
            Ok(StepResult::Done) => return (rows, waits, Ok(())),
            Ok(StepResult::IO) => {
                waits += 1;
                reply = Reply::Nothing;
            }
            Ok(StepResult::Row(record)) => {
                rows.push(record.values.iter().map(shown).collect());
                reply = Reply::Nothing;
            }
            Ok(StepResult::Request(request)) => reply = host.answer(request),
            Ok(StepResult::Pending) => reply = Reply::Nothing,
            Err(e) => return (rows, waits, Err(e)),
        }
    }
    panic!("the program does not end");
}

fn rows_of(max_registers: usize, insns: Vec<Insn>) -> Vec<Vec<String>> {
    let (rows, _, end) = run(&program(max_registers, insns), &mut Host::new());
    assert_eq!(end, Ok(()));
    rows
}

fn error_of(max_registers: usize, insns: Vec<Insn>) -> StepError {
    run(&program(max_registers, insns), &mut Host::new()).2.unwrap_err()
}

fn load_int(value: i64, dest: usize) -> Insn {
    Insn::Integer { value, dest }
}

fn load_text(value: &str, dest: usize) -> Insn {
    Insn::String8 { value: value.to_string(), dest }
}

fn load_real(value: f64, dest: usize) -> Insn {
    Insn::Real { value: double(value), dest }
}

fn users() -> Host {
    let mut host = Host::new();
    let rows = [(3, "ann", 10), (1, "bob", 30), (2, "cid", 20)];
    host.tables.insert(
        2,
        rows.iter()
            .map(|(id, name, age)| {
                vec![
                    OwnedValue::Integer(*id),
                    OwnedValue::Text(Rc::new(name.to_string())),
                    OwnedValue::Integer(*age),
                ]
            })
            .collect(),
    );
    host.tables.insert(3, vec![]);
    host
}

fn scan(root_page: usize) -> Program {
    program(
        4,
        vec![
            Insn::Init { target_pc: 10 },
            Insn::OpenReadAsync { cursor_id: 0, root_page },
            Insn::OpenReadAwait,
            Insn::RewindAsync { cursor_id: 0 },
            Insn::RewindAwait { cursor_id: 0, pc_if_empty: 9 },
            Insn::Column { cursor_id: 0, column: 1, dest: 1 },
            Insn::RowId { cursor_id: 0, dest: 2 },
            Insn::ResultRow { start_reg: 1, count: 2 },
            Insn::Goto { target_pc: 12 },
            Insn::Halt,
            Insn::Transaction,
            Insn::Goto { target_pc: 1 },
            Insn::NextAsync { cursor_id: 0 },
            Insn::NextAwait { cursor_id: 0, pc_if_next: 5 },
            Insn::Goto { target_pc: 9 },
        ],
    )
}

#[test]
fn a_table_is_scanned() {
    let (rows, waits, end) = run(&scan(2), &mut users());
    assert_eq!(end, Ok(()));
    assert_eq!(waits, 0);
    assert_eq!(rows, vec![vec!["ann", "100"], vec!["bob", "101"], vec!["cid", "102"]]);
    let (rows, _, end) = run(&scan(3), &mut users());
    assert_eq!(end, Ok(()));
    assert!(rows.is_empty());
}

#[test]
fn an_instruction_is_restarted_after_io() {
    let mut host = users();
    host.io = 3;
    let (rows, waits, end) = run(&scan(2), &mut host);
    assert_eq!(end, Ok(()));
    assert_eq!(waits, 3);
    assert_eq!(rows.len(), 3);
}

#[test]
fn rows_are_sorted() {
    for (order, expected) in [
        (0, vec![vec!["1", "bob"], vec!["2", "cid"], vec!["3", "ann"]]),
        (1, vec![vec!["3", "ann"], vec!["2", "cid"], vec!["1", "bob"]]),
    ] {
        let p = program(
            8,
            vec![
                Insn::OpenReadAsync { cursor_id: 0, root_page: 2 },
                Insn::OpenReadAwait,
                Insn::SorterOpen {
                    cursor_id: 1,
                    columns: 2,
                    order: OwnedRecord::new(vec![OwnedValue::Integer(order)]),
                },
                Insn::OpenPseudo { cursor_id: 2, content_reg: 4, num_fields: 2 },
                Insn::RewindAsync { cursor_id: 0 },
                Insn::RewindAwait { cursor_id: 0, pc_if_empty: 12 },
                Insn::Column { cursor_id: 0, column: 0, dest: 1 },
                Insn::Column { cursor_id: 0, column: 1, dest: 2 },
                Insn::MakeRecord { start_reg: 1, count: 2, dest_reg: 3 },
                Insn::SorterInsert { cursor_id: 1, record_reg: 3 },
                Insn::NextAsync { cursor_id: 0 },
                Insn::NextAwait { cursor_id: 0, pc_if_next: 6 },
                Insn::SorterSort { cursor_id: 1, pc_if_empty: 18 },
                Insn::SorterData { cursor_id: 1, dest_reg: 4, pseudo_cursor: 2 },
                Insn::Column { cursor_id: 2, column: 0, dest: 5 },
                Insn::Column { cursor_id: 2, column: 1, dest: 6 },
                Insn::ResultRow { start_reg: 5, count: 2 },
                Insn::SorterNext { cursor_id: 1, pc_if_next: 13 },
                Insn::Halt,
            ],
        );
        let (rows, _, end) = run(&p, &mut users());
        assert_eq!(end, Ok(()));
        assert_eq!(rows, expected);
    }
}

#[test]
fn a_sorter_that_is_not_open_is_skipped() {
    assert_eq!(
        rows_of(
            2,
            vec![
                Insn::SorterSort { cursor_id: 9, pc_if_empty: 2 },
                Insn::ResultRow { start_reg: 1, count: 1 },
                Insn::Halt,
            ],
        ),
        Vec::<Vec<String>>::new()
    );
}

#[test]
fn the_null_row_reads_null_until_the_cursor_moves() {
    let p = program(
        4,
        vec![
            Insn::OpenReadAsync { cursor_id: 0, root_page: 2 },
            Insn::RewindAsync { cursor_id: 0 },
            Insn::NullRow { cursor_id: 0 },
            Insn::Column { cursor_id: 0, column: 1, dest: 1 },
            Insn::ResultRow { start_reg: 1, count: 1 },
            Insn::NextAsync { cursor_id: 0 },
            Insn::Column { cursor_id: 0, column: 1, dest: 1 },
            Insn::ResultRow { start_reg: 1, count: 1 },
            Insn::Halt,
        ],
    );
    let (rows, _, end) = run(&p, &mut users());
    assert_eq!(end, Ok(()));
    assert_eq!(rows, vec![vec!["NULL"], vec!["bob"]]);
}

#[test]
fn aggregates_over_a_table() {
    for (func, col, expected) in [
        (AggFunc::Count, 2, "3"),
        (AggFunc::Sum, 2, "60"),
        (AggFunc::Total, 2, "60.0"),
        (AggFunc::Avg, 2, "20.0"),
        (AggFunc::Max, 2, "30"),
        (AggFunc::Min, 2, "10"),
        (AggFunc::GroupConcat, 1, "ann,bob,cid"),
        (AggFunc::StringAgg, 2, "10,30,20"),
    ] {
        let p = |root_page: usize| {
            program(
                5,
                vec![
                    load_text(",", 3),
                    Insn::OpenReadAsync { cursor_id: 0, root_page },
                    Insn::RewindAsync { cursor_id: 0 },
                    Insn::RewindAwait { cursor_id: 0, pc_if_empty: 8 },
                    Insn::Column { cursor_id: 0, column: col, dest: 2 },
                    Insn::AggStep { acc_reg: 1, col: 2, delimiter: 3, func },
                    Insn::NextAsync { cursor_id: 0 },
                    Insn::NextAwait { cursor_id: 0, pc_if_next: 4 },
                    Insn::AggFinal { register: 1, func },
                    Insn::ResultRow { start_reg: 1, count: 1 },
                    Insn::Halt,
                ],
            )
        };
        let (rows, _, end) = run(&p(2), &mut users());
        assert_eq!(end, Ok(()));
        assert_eq!(rows, vec![vec![expected]]);
        let (rows, _, end) = run(&p(3), &mut users());
        assert_eq!(end, Ok(()));
        let empty = match func {
            AggFunc::Count => "0",
            AggFunc::Total => "0.0",
            _ => "NULL",
        };
        assert_eq!(rows, vec![vec![empty]]);
    }
}

#[test]
fn extremes_of_floats() {
    for (func, expected) in [(AggFunc::Max, "2.5"), (AggFunc::Min, "-1.5")] {
        assert_eq!(
            rows_of(
                4,
                vec![
                    load_real(2.5, 1),
                    load_real(-1.5, 2),
                    Insn::AggStep { acc_reg: 3, col: 1, delimiter: 0, func },
                    Insn::AggStep { acc_reg: 3, col: 2, delimiter: 0, func },
                    load_int(7, 1),
                    Insn::AggStep { acc_reg: 3, col: 1, delimiter: 0, func },
                    Insn::AggFinal { register: 3, func },
                    Insn::ResultRow { start_reg: 3, count: 1 },
                    Insn::Halt,
                ],
            ),
            vec![vec![expected]]
        );
    }
}

#[test]
fn concatenation_without_the_first_delimiter() {
    assert_eq!(
        rows_of(
            4,
            vec![
                load_text("-", 3),
                load_text("", 1),
                Insn::AggStep { acc_reg: 2, col: 1, delimiter: 3, func: AggFunc::GroupConcat },
                load_text("a", 1),
                Insn::AggStep { acc_reg: 2, col: 1, delimiter: 3, func: AggFunc::GroupConcat },
                Insn::ResultRow { start_reg: 2, count: 1 },
                Insn::Halt,
            ],
        ),
        vec![vec!["a"]]
    );
}

#[test]
fn registers_are_added() {
    assert_eq!(
        rows_of(
            6,
            vec![
                load_int(2, 1),
                load_int(40, 2),
                Insn::Add { lhs: 1, rhs: 2, dest: 3 },
                load_real(0.5, 1),
                load_real(0.25, 2),
                Insn::Add { lhs: 1, rhs: 2, dest: 4 },
                Insn::RealAffinity { register: 3 },
                Insn::RealAffinity { register: 5 },
                Insn::ResultRow { start_reg: 3, count: 9 },
                Insn::Halt,
            ],
        ),
        vec![vec!["42.0", "0.75", "NULL"]]
    );
    assert_eq!(
        error_of(4, vec![load_int(i64::MAX, 1), load_int(1, 2), Insn::Add { lhs: 1, rhs: 2, dest: 3 }]),
        StepError::Fault
    );
    assert_eq!(
        error_of(4, vec![load_int(1, 1), Insn::Add { lhs: 1, rhs: 2, dest: 3 }]),
        StepError::Fault
    );
}

// Gives 1 where the instruction jumps, 0 where it does not.
fn jumps(setup: Vec<Insn>, insn: fn(i64) -> Insn) -> i64 {
    let mut insns = setup;
    let at = insns.len() as i64;
    insns.push(insn(at + 3));
    insns.push(load_int(0, 0));
    insns.push(Insn::Goto { target_pc: at + 4 });
    insns.push(load_int(1, 0));
    insns.push(Insn::ResultRow { start_reg: 0, count: 1 });
    insns.push(Insn::Halt);
    rows_of(4, insns)[0][0].parse().unwrap()
}

#[test]
fn registers_are_compared() {
    let eq = |t| Insn::Eq { lhs: 1, rhs: 2, target_pc: t };
    let ne = |t| Insn::Ne { lhs: 1, rhs: 2, target_pc: t };
    let lt = |t| Insn::Lt { lhs: 1, rhs: 2, target_pc: t };
    let le = |t| Insn::Le { lhs: 1, rhs: 2, target_pc: t };
    let gt = |t| Insn::Gt { lhs: 1, rhs: 2, target_pc: t };
    let ge = |t| Insn::Ge { lhs: 1, rhs: 2, target_pc: t };
    for (a, b) in [(1, 2), (2, 2), (3, 2)] {
        let set = || vec![load_int(a, 1), load_int(b, 2)];
        assert_eq!(jumps(set(), eq), (a == b) as i64);
        assert_eq!(jumps(set(), ne), (a != b) as i64);
        assert_eq!(jumps(set(), lt), (a < b) as i64);
        assert_eq!(jumps(set(), le), (a <= b) as i64);
        assert_eq!(jumps(set(), gt), (a > b) as i64);
        assert_eq!(jumps(set(), ge), (a >= b) as i64);
    }
    let mixed = || vec![load_int(2, 1), load_real(2.0, 2)];
    assert_eq!(jumps(mixed(), eq), 0);
    assert_eq!(jumps(mixed(), ne), 1);
    assert_eq!(jumps(mixed(), le), 1);
    assert_eq!(jumps(mixed(), lt), 0);
    for test in [eq, ne, lt, le, gt, ge] as [fn(i64) -> Insn; 6] {
        assert_eq!(jumps(vec![load_int(2, 1)], test), 1);
        assert_eq!(jumps(vec![], test), 1);
    }
    let not_a_number = || vec![load_real(f64::NAN, 1), load_real(f64::NAN, 2)];
    for test in [eq, lt, le, gt, ge] as [fn(i64) -> Insn; 5] {
        assert_eq!(jumps(not_a_number(), test), 0);
    }
    assert_eq!(jumps(not_a_number(), ne), 1);
}

#[test]
fn jumps_on_single_registers() {
    assert_eq!(jumps(vec![load_int(0, 1)], |t| Insn::NotNull { reg: 1, target_pc: t }), 1);
    assert_eq!(
        jumps(vec![load_int(0, 1), Insn::Null { dest: 1 }], |t| Insn::NotNull {
            reg: 1,
            target_pc: t
        }),
        0
    );
    let yes = |t| Insn::If { reg: 1, target_pc: t, null_reg: 2 };
    let no = |t| Insn::IfNot { reg: 1, target_pc: t, null_reg: 2 };
    assert_eq!(jumps(vec![load_int(5, 1)], yes), 1);
    assert_eq!(jumps(vec![load_int(5, 1)], no), 0);
    assert_eq!(jumps(vec![load_int(0, 1)], yes), 0);
    assert_eq!(jumps(vec![load_int(0, 1)], no), 1);
    assert_eq!(jumps(vec![load_int(1, 2)], yes), 1);
    assert_eq!(jumps(vec![load_int(1, 2)], no), 1);
}

#[test]
fn a_positive_register_is_decremented() {
    let insns = |n: i64, by: usize| {
        vec![
            load_int(n, 1),
            Insn::IfPos { reg: 1, target_pc: 3, decrement_by: by },
            load_int(-99, 2),
            Insn::ResultRow { start_reg: 1, count: 2 },
            Insn::Halt,
        ]
    };
    assert_eq!(rows_of(3, insns(5, 3)), vec![vec!["2", "NULL"]]);
    assert_eq!(rows_of(3, insns(1, 3)), vec![vec!["-2", "NULL"]]);
    assert_eq!(rows_of(3, insns(0, 3)), vec![vec!["0", "-99"]]);
    assert_eq!(rows_of(3, insns(-4, 3)), vec![vec!["-4", "-99"]]);
    assert_eq!(
        error_of(3, vec![Insn::IfPos { reg: 1, target_pc: 0, decrement_by: 1 }]),
        StepError::IfPosNotInteger
    );
}

#[test]
fn a_counter_stops_a_loop() {
    let insns = |n: i64| {
        vec![
            load_int(n, 1),
            Insn::ResultRow { start_reg: 1, count: 1 },
            Insn::DecrJumpZero { reg: 1, target_pc: 4 },
            Insn::Goto { target_pc: 1 },
            Insn::ResultRow { start_reg: 1, count: 1 },
            Insn::Halt,
        ]
    };
    assert_eq!(
        rows_of(2, insns(3)),
        vec![vec!["3"], vec!["2"], vec!["1"], vec!["0"]]
    );
    assert_eq!(
        error_of(2, vec![Insn::DecrJumpZero { reg: 1, target_pc: 0 }]),
        StepError::Fault
    );
    assert_eq!(
        error_of(2, vec![load_int(i64::MIN, 1), Insn::DecrJumpZero { reg: 1, target_pc: 0 }]),
        StepError::Fault
    );
}

#[test]
fn functions_of_registers() {
    for (first, second, func, expected) in [
        (load_text("a%", 1), load_text("abc", 2), SingleRowFunc::Like, "1"),
        (load_text("b_x", 1), load_text("abc", 2), SingleRowFunc::Like, "0"),
        (load_text("b", 1), load_text("abc", 2), SingleRowFunc::Like, "0"),
        (load_text("a(c", 1), load_text("a(c", 2), SingleRowFunc::Like, "1"),
        (load_int(-3, 1), load_int(0, 2), SingleRowFunc::Abs, "3"),
        (load_text("ab", 1), load_int(0, 2), SingleRowFunc::Upper, "AB"),
        (load_text("Ab", 1), load_int(0, 2), SingleRowFunc::Lower, "ab"),
        (load_text("abcd", 1), load_int(0, 2), SingleRowFunc::Length, "4"),
        (load_text("xaxbx", 1), load_text("x", 2), SingleRowFunc::Trim, "axb"),
        (load_real(2.345, 1), load_int(1, 2), SingleRowFunc::Round, "2.3"),
        (Insn::Null { dest: 1 }, load_int(1, 2), SingleRowFunc::Round, "NULL"),
    ] {
        assert_eq!(
            rows_of(
                4,
                vec![
                    first,
                    second,
                    Insn::Function { start_reg: 1, dest: 3, func },
                    Insn::ResultRow { start_reg: 3, count: 1 },
                    Insn::Halt,
                ],
            ),
            vec![vec![expected]]
        );
    }
}

#[test]
fn a_function_whose_second_register_does_not_exist() {
    assert_eq!(
        rows_of(
            2,
            vec![
                load_text("  a ", 1),
                Insn::Function { start_reg: 1, dest: 0, func: SingleRowFunc::Trim },
                Insn::Function { start_reg: 1, dest: 1, func: SingleRowFunc::Round },
                Insn::ResultRow { start_reg: 0, count: 2 },
                Insn::Halt,
            ],
        ),
        vec![vec!["a", "0.0"]]
    );
}

#[test]
fn random_integers_are_drawn() {
    let rows = rows_of(
        3,
        vec![
            Insn::Function { start_reg: 0, dest: 1, func: SingleRowFunc::Random },
            Insn::Function { start_reg: 0, dest: 2, func: SingleRowFunc::Random },
            Insn::ResultRow { start_reg: 1, count: 2 },
            Insn::Halt,
        ],
    );
    let a: i64 = rows[0][0].parse().unwrap();
    let b: i64 = rows[0][1].parse().unwrap();
    assert!(a != b);
    let mut state = ProgramState::new(1);
    let random = Insn::Function { start_reg: 0, dest: 0, func: SingleRowFunc::Random };
    let effect = execute(&random, &mut state, Reply::Nothing, None);
    assert!(matches!(effect, Effect::Error(StepError::RandomUnavailable)));
    let effect = execute(&random, &mut state, Reply::Nothing, Some(-8));
    assert!(matches!(effect, Effect::Continue));
    assert_eq!(state.column(0), Some("Integer(-8)".to_string()));
    assert_eq!(state.pc, 1);
}

#[test]
fn programs_that_cannot_be_executed() {
    for insns in [
        vec![],
        vec![Insn::Goto { target_pc: -1 }],
        vec![Insn::Goto { target_pc: 7 }],
        vec![Insn::Null { dest: 3 }],
        vec![Insn::NullRow { cursor_id: 0 }],
        vec![Insn::RewindAsync { cursor_id: 0 }],
        vec![Insn::AggFinal { register: 1, func: AggFunc::Sum }, load_int(1, 1), Insn::AggFinal {
            register: 1,
            func: AggFunc::Sum,
        }],
        vec![Insn::MakeRecord { start_reg: 0, count: 1, dest_reg: 1 }, Insn::ResultRow {
            start_reg: 1,
            count: 1,
        }],
        vec![load_int(1, 0), load_text("a", 1), Insn::Function {
            start_reg: 0,
            dest: 2,
            func: SingleRowFunc::Like,
        }],
        vec![load_int(i64::MIN, 0), Insn::Function {
            start_reg: 0,
            dest: 2,
            func: SingleRowFunc::Abs,
        }],
        vec![Insn::SorterOpen {
            cursor_id: 0,
            columns: 1,
            order: OwnedRecord::new(vec![OwnedValue::Null]),
        }],
    ] {
        assert_eq!(error_of(3, insns), StepError::Fault);
    }
}

#[test]
fn replies_that_do_not_belong() {
    let p = program(2, vec![Insn::RewindAsync { cursor_id: 0 }, Insn::Halt]);
    let mut state = ProgramState::new(2);
    assert!(matches!(p.step(&mut state, Reply::Done, 1), Err(StepError::Fault)));
    let open = Insn::OpenPseudo { cursor_id: 0, content_reg: 0, num_fields: 1 };
    assert!(matches!(
        execute(&open, &mut state, Reply::Empty(true), None),
        Effect::Error(StepError::BadReply)
    ));
    assert!(matches!(execute(&open, &mut state, Reply::Done, None), Effect::Continue));
    state.pc = 0;
    assert!(matches!(
        p.step(&mut state, Reply::Failed, 1),
        Err(StepError::CursorFailed)
    ));
    assert!(matches!(
        p.step(&mut state, Reply::RowId(None), 1),
        Err(StepError::BadReply)
    ));
    assert_eq!(state.pc, 0);
    assert!(matches!(p.step(&mut state, Reply::Io, 1), Ok(StepResult::IO)));
    assert_eq!(state.pc, 0);
    assert!(matches!(
        p.step(&mut state, Reply::Nothing, 1),
        Ok(StepResult::Request(Request::Rewind { cursor_id: 0 }))
    ));
    assert!(matches!(p.step(&mut state, Reply::Done, 1), Ok(StepResult::Pending)));
    assert_eq!(state.pc, 1);
    assert!(matches!(p.step(&mut state, Reply::Nothing, 5), Ok(StepResult::Done)));
    assert!(matches!(p.step(&mut state, Reply::Nothing, 5), Ok(StepResult::Done)));
    assert_eq!(state.pc, 1);
}

#[test]
fn a_failing_read_is_reported_before_a_missing_register() {
    let mut state = ProgramState::new(1);
    let open = Insn::OpenPseudo { cursor_id: 0, content_reg: 0, num_fields: 1 };
    assert!(matches!(execute(&open, &mut state, Reply::Done, None), Effect::Continue));
    for (insn, row) in [
        (Insn::Column { cursor_id: 0, column: 0, dest: 9 }, Reply::Record(None)),
        (Insn::RowId { cursor_id: 0, dest: 9 }, Reply::RowId(Some(1))),
        (
            Insn::SorterData { cursor_id: 0, dest_reg: 9, pseudo_cursor: 0 },
            Reply::Record(Some(OwnedRecord::new(vec![]))),
        ),
        (
            Insn::SorterData { cursor_id: 0, dest_reg: 0, pseudo_cursor: 9 },
            Reply::Record(Some(OwnedRecord::new(vec![]))),
        ),
    ] {
        assert!(matches!(execute(&insn, &mut state, Reply::Nothing, None), Effect::Ask(_)));
        assert!(matches!(
            execute(&insn, &mut state, Reply::Failed, None),
            Effect::Error(StepError::CursorFailed)
        ));
        assert!(matches!(
            execute(&insn, &mut state, row, None),
            Effect::Error(StepError::Fault)
        ));
    }
    assert_eq!(state.position(), 1);
}

#[test]
fn a_sorted_row_is_not_passed_on_before_it_is_read() {
    let mut state = ProgramState::new(1);
    let open = Insn::OpenPseudo { cursor_id: 0, content_reg: 0, num_fields: 1 };
    assert!(matches!(execute(&open, &mut state, Reply::Done, None), Effect::Continue));
    let data = Insn::SorterData { cursor_id: 0, dest_reg: 0, pseudo_cursor: 0 };
    assert!(matches!(
        execute(&data, &mut state, Reply::Done, None),
        Effect::Error(StepError::BadReply)
    ));
    let row = OwnedRecord::new(vec![OwnedValue::Integer(1)]);
    assert!(matches!(
        execute(&data, &mut state, Reply::Record(Some(row)), None),
        Effect::Ask(Request::Insert { cursor_id: 0, .. })
    ));
    assert!(matches!(execute(&data, &mut state, Reply::Done, None), Effect::Continue));
    assert_eq!(state.position(), 2);
}

#[test]
fn values_of_another_kind_are_left_out_of_extremes() {
    for func in [AggFunc::Max, AggFunc::Min] {
        let p = program(
            3,
            vec![
                load_int(5, 1),
                Insn::AggStep { acc_reg: 2, col: 1, delimiter: 0, func },
                load_real(9.5, 1),
                Insn::AggStep { acc_reg: 2, col: 1, delimiter: 0, func },
                Insn::ResultRow { start_reg: 2, count: 1 },
                Insn::Halt,
            ],
        );
        let mut state = ProgramState::new(3);
        let mut left_out = vec![];
        for _ in 0..4 {
            left_out.push(p.unexpected_types(&state));
            assert!(matches!(p.step(&mut state, Reply::Nothing, 1), Ok(StepResult::Pending)));
        }
        assert_eq!(left_out, vec![None, None, None, Some(func)]);
        assert_eq!(run(&p, &mut Host::new()).0, vec![vec!["5"]]);
    }
}

#[test]
fn a_row_without_rowid() {
    let mut host = users();
    let p = program(
        2,
        vec![
            Insn::OpenReadAsync { cursor_id: 0, root_page: 3 },
            Insn::Column { cursor_id: 0, column: 5, dest: 1 },
            Insn::ResultRow { start_reg: 1, count: 1 },
            Insn::RowId { cursor_id: 0, dest: 1 },
        ],
    );
    let (rows, _, end) = run(&p, &mut host);
    assert_eq!(rows, vec![vec!["NULL"]]);
    assert_eq!(end, Err(StepError::Fault));
}

#[test]
fn one_go_or_many() {
    let p = program(
        2,
        vec![
            load_int(100, 1),
            Insn::DecrJumpZero { reg: 1, target_pc: 3 },
            Insn::Goto { target_pc: 1 },
            Insn::Halt,
        ],
    );
    let mut one = ProgramState::new(2);
    assert!(matches!(p.step(&mut one, Reply::Nothing, 1000), Ok(StepResult::Done)));
    let mut many = ProgramState::new(2);
    let mut steps = 0;
    while matches!(p.step(&mut many, Reply::Nothing, 7), Ok(StepResult::Pending)) {
        steps += 1;
    }
    assert_eq!(steps, 28);
    assert_eq!(one.pc, many.pc);
    assert_eq!(one.column(1), many.column(1));
    assert_eq!(one.column(1), Some("Integer(0)".to_string()));
}

#[test]
fn the_same_run_twice() {
    let p = scan(2);
    let first = run(&p, &mut users());
    let second = run(&p, &mut users());
    assert_eq!(first, second);
}

#[test]
fn registers_and_cursors_are_kept() {
    let p = program(
        3,
        vec![
            Insn::OpenPseudo { cursor_id: 4, content_reg: 0, num_fields: 1 },
            Insn::Goto { target_pc: 2 },
            Insn::NullRow { cursor_id: 4 },
            Insn::Goto { target_pc: 1 },
        ],
    );
    let mut state = ProgramState::new(p.max_registers);
    assert!(matches!(
        p.step(&mut state, Reply::Nothing, 1),
        Ok(StepResult::Request(Request::OpenPseudo { cursor_id: 4 }))
    ));
    assert!(matches!(p.step(&mut state, Reply::Done, 100), Ok(StepResult::Pending)));
    assert_eq!(state.column_count(), 3);
    assert!(state.pc >= 0);
}

#[test]
fn the_function_that_is_never_executed() {
    let p = program(
        1,
        vec![Insn::Function { start_reg: 0, dest: 0, func: SingleRowFunc::Coalesce }],
    );
    let mut state = ProgramState::new(1);
    assert!(matches!(p.step(&mut state, Reply::Nothing, 50), Ok(StepResult::Pending)));
    assert_eq!(state.pc, 0);
}
