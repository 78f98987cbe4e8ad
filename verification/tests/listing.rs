use vdbe::double::Double;
use vdbe::explain::{get_indent_count, insn_to_str};
use vdbe::function::{AggFunc, SingleRowFunc};
use vdbe::insn::Insn;
use vdbe::program::Program;
use vdbe::schema::Table;
use vdbe::value::{OwnedRecord, OwnedValue};

fn program(insns: Vec<Insn>) -> Program {
    let table = Table {
        name: "users".to_string(),
        columns: vec!["id".to_string(), "name".to_string()],
    };
    Program {
        max_registers: 9,
        insns,
        cursor_ref: vec![(Some("users".to_string()), Some(table)), (None, None)],
    }
}

fn line(insn: Insn) -> String {
    let p = program(vec![]);
    insn_to_str(&p, 7, &insn, String::new())
}

fn columns(opcode: &str, p1: i32, p2: i32, p3: i32, p4: &str, comment: &str) -> String {
    format!(
        "{:<4}  {:<17}  {:<4}  {:<4}  {:<4}  {:<13}  {:<2}  {}",
        7, opcode, p1, p2, p3, p4, 0, comment
    )
}

fn key(orders: Vec<i64>) -> OwnedRecord {
    OwnedRecord::new(orders.iter().map(|i| OwnedValue::Integer(*i)).collect())
}

#[test]
fn every_instruction_has_its_line() {
    let value = Double::new(2.0f64.to_bits(), "2".to_string(), "2.0".to_string());
    for (insn, expected) in [
        (Insn::Init { target_pc: 12 }, columns("Init", 0, 12, 0, "", "Start at 12")),
        (
            Insn::Add { lhs: 1, rhs: 2, dest: 3 },
            columns("Add", 1, 2, 3, "", "r[3]=r[1]+r[2]"),
        ),
        (Insn::Null { dest: 4 }, columns("Null", 4, 0, 0, "", "r[4]=NULL")),
        (
            Insn::NullRow { cursor_id: 1 },
            columns("NullRow", 1, 0, 0, "", "Set cursor 1 to a (pseudo) NULL row"),
        ),
        (
            Insn::NotNull { reg: 2, target_pc: 9 },
            columns("NotNull", 2, 9, 0, "", "r[2] -> 9"),
        ),
        (
            Insn::IfPos { reg: 2, target_pc: 9, decrement_by: 3 },
            columns("IfPos", 2, 9, 0, "", "r[2]>0 -> r[2]-=3, goto 9"),
        ),
        (
            Insn::Eq { lhs: 1, rhs: 2, target_pc: 3 },
            columns("Eq", 1, 2, 3, "", "if r[1]==r[2] goto 3"),
        ),
        (
            Insn::Ne { lhs: 1, rhs: 2, target_pc: 3 },
            columns("Ne", 1, 2, 3, "", "if r[1]!=r[2] goto 3"),
        ),
        (
            Insn::Lt { lhs: 1, rhs: 2, target_pc: 3 },
            columns("Lt", 1, 2, 3, "", "if r[1]<r[2] goto 3"),
        ),
        (
            Insn::Le { lhs: 1, rhs: 2, target_pc: 3 },
            columns("Le", 1, 2, 3, "", "if r[1]<=r[2] goto 3"),
        ),
        (
            Insn::Gt { lhs: 1, rhs: 2, target_pc: 3 },
            columns("Gt", 1, 2, 3, "", "if r[1]>r[2] goto 3"),
        ),
        (
            Insn::Ge { lhs: 1, rhs: 2, target_pc: 3 },
            columns("Ge", 1, 2, 3, "", "if r[1]>=r[2] goto 3"),
        ),
        (
            Insn::If { reg: 1, target_pc: 5, null_reg: 2 },
            columns("If", 1, 5, 2, "", "if r[1] goto 5"),
        ),
        (
            Insn::IfNot { reg: 1, target_pc: 5, null_reg: 2 },
            columns("IfNot", 1, 5, 2, "", "if !r[1] goto 5"),
        ),
        (
            Insn::OpenReadAsync { cursor_id: 0, root_page: 2 },
            columns("OpenReadAsync", 0, 2, 0, "", "root=2"),
        ),
        (Insn::OpenReadAwait, columns("OpenReadAwait", 0, 0, 0, "", "")),
        (
            Insn::OpenPseudo { cursor_id: 1, content_reg: 4, num_fields: 2 },
            columns("OpenPseudo", 1, 4, 2, "", "2 columns in r[4]"),
        ),
        (Insn::RewindAsync { cursor_id: 1 }, columns("RewindAsync", 1, 0, 0, "", "")),
        (
            Insn::RewindAwait { cursor_id: 1, pc_if_empty: -2 },
            columns("RewindAwait", 1, -2, 0, "", ""),
        ),
        (
            Insn::Column { cursor_id: 0, column: 1, dest: 3 },
            columns("Column", 0, 1, 3, "", "r[3]=users.name"),
        ),
        (
            Insn::Column { cursor_id: 0, column: 2, dest: 3 },
            columns("Column", 0, 2, 3, "", "r[3]=users.column 2"),
        ),
        (
            Insn::Column { cursor_id: 1, column: 0, dest: 3 },
            columns("Column", 1, 0, 3, "", "r[3]=cursor 1.column 0"),
        ),
        (
            Insn::MakeRecord { start_reg: 2, count: 3, dest_reg: 7 },
            columns("MakeRecord", 2, 3, 7, "", "r[7]=mkrec(r[2..4])"),
        ),
        (
            Insn::ResultRow { start_reg: 2, count: 1 },
            columns("ResultRow", 2, 1, 0, "", "output=r[2]"),
        ),
        (
            Insn::ResultRow { start_reg: 2, count: 3 },
            columns("ResultRow", 2, 3, 0, "", "output=r[2..4]"),
        ),
        (Insn::NextAsync { cursor_id: 1 }, columns("NextAsync", 1, 0, 0, "", "")),
        (
            Insn::NextAwait { cursor_id: 1, pc_if_next: 5 },
            columns("NextAwait", 1, 5, 0, "", ""),
        ),
        (Insn::Halt, columns("Halt", 0, 0, 0, "", "")),
        (Insn::Transaction, columns("Transaction", 0, 0, 0, "", "")),
        (Insn::Goto { target_pc: 1 }, columns("Goto", 0, 1, 0, "", "")),
        (
            Insn::Integer { value: -5, dest: 2 },
            columns("Integer", -5, 2, 0, "", "r[2]=-5"),
        ),
        (
            Insn::Integer { value: 4294967297, dest: 2 },
            columns("Integer", 1, 2, 0, "", "r[2]=4294967297"),
        ),
        (Insn::Real { value, dest: 2 }, columns("Real", 0, 2, 0, "2.0", "r[2]=2")),
        (Insn::RealAffinity { register: 3 }, columns("RealAffinity", 3, 0, 0, "", "")),
        (
            Insn::String8 { value: "a string that is long".to_string(), dest: 2 },
            columns("String8", 0, 2, 0, "a string that is long", "r[2]='a string that is long'"),
        ),
        (
            Insn::RowId { cursor_id: 0, dest: 2 },
            columns("RowId", 0, 2, 0, "", "r[2]=users.rowid"),
        ),
        (
            Insn::RowId { cursor_id: 1, dest: 2 },
            columns("RowId", 1, 2, 0, "", "r[2]=cursor 1.rowid"),
        ),
        (
            Insn::DecrJumpZero { reg: 1, target_pc: 3 },
            columns("DecrJumpZero", 1, 3, 0, "", "if (--r[1]==0) goto 3"),
        ),
        (
            Insn::AggStep { acc_reg: 1, col: 2, delimiter: 3, func: AggFunc::GroupConcat },
            columns("AggStep", 0, 2, 1, "group_concat", "accum=r[1] step(r[2])"),
        ),
        (
            Insn::AggFinal { register: 1, func: AggFunc::Avg },
            columns("AggFinal", 0, 1, 0, "avg", "accum=r[1]"),
        ),
        (
            Insn::SorterOpen { cursor_id: 1, columns: 2, order: key(vec![0, 1]) },
            columns("SorterOpen", 1, 2, 0, "k(2,B,-B)", "cursor=1"),
        ),
        (
            Insn::SorterOpen { cursor_id: 1, columns: 0, order: key(vec![]) },
            columns("SorterOpen", 1, 0, 0, "k(0,)", "cursor=1"),
        ),
        (
            Insn::SorterData { cursor_id: 1, dest_reg: 2, pseudo_cursor: 3 },
            columns("SorterData", 1, 2, 3, "", "r[2]=data"),
        ),
        (
            Insn::SorterInsert { cursor_id: 1, record_reg: 2 },
            columns("SorterInsert", 1, 2, 0, "0", "key=r[2]"),
        ),
        (
            Insn::SorterSort { cursor_id: 1, pc_if_empty: 2 },
            columns("SorterSort", 1, 2, 0, "", ""),
        ),
        (
            Insn::SorterNext { cursor_id: 1, pc_if_next: 2 },
            columns("SorterNext", 1, 2, 0, "", ""),
        ),
        (
            Insn::Function { start_reg: 2, dest: 4, func: SingleRowFunc::Upper },
            columns("Function", 1, 2, 4, "upper", "r[4]=func(r[2..])"),
        ),
    ] {
        assert_eq!(line(insn), expected);
    }
}

#[test]
fn a_line_is_indented_at_its_opcode() {
    let p = program(vec![]);
    assert_eq!(
        insn_to_str(&p, 12345, &Insn::Halt, "    ".to_string()),
        "12345      Halt           0     0     0                    0   "
    );
}

#[test]
fn a_program_is_listed() {
    let p = program(vec![
        Insn::Init { target_pc: 1 },
        Insn::RewindAwait { cursor_id: 0, pc_if_empty: 6 },
        Insn::Column { cursor_id: 0, column: 0, dest: 1 },
        Insn::ResultRow { start_reg: 1, count: 1 },
        Insn::NextAsync { cursor_id: 0 },
        Insn::NextAwait { cursor_id: 0, pc_if_next: 2 },
        Insn::Halt,
    ]);
    assert!(p.can_explain());
    let lines = p.explain();
    assert_eq!(
        lines,
        vec![
            "addr  opcode             p1    p2    p3    p4             p5  comment",
            "----  -----------------  ----  ----  ----  -------------  --  -------",
            "0     Init               0     1     0                    0   Start at 1",
            "1     RewindAwait        0     6     0                    0   ",
            "2       Column           0     0     1                    0   r[1]=users.id",
            "3       ResultRow        1     1     0                    0   output=r[1]",
            "4     NextAsync          0     0     0                    0   ",
            "5     NextAwait          0     2     0                    0   ",
            "6     Halt               0     0     0                    0   ",
        ]
    );
}

#[test]
fn blocks_within_blocks() {
    let open = Insn::RewindAwait { cursor_id: 0, pc_if_empty: 0 };
    let sort = Insn::SorterSort { cursor_id: 0, pc_if_empty: 0 };
    let close = Insn::SorterNext { cursor_id: 0, pc_if_next: 0 };
    assert_eq!(get_indent_count(0, &Insn::Halt, None), 0);
    assert_eq!(get_indent_count(1, &Insn::Halt, Some(&open)), 2);
    assert_eq!(get_indent_count(1, &Insn::Halt, Some(&sort)), 2);
    assert_eq!(get_indent_count(2, &close, Some(&Insn::Halt)), 1);
    assert_eq!(get_indent_count(0, &close, Some(&sort)), 0);
}

#[test]
fn programs_without_a_listing() {
    for insn in [
        Insn::NextAsync { cursor_id: 0 },
        Insn::SorterNext { cursor_id: 0, pc_if_next: 0 },
        Insn::Column { cursor_id: 2, column: 0, dest: 0 },
        Insn::RowId { cursor_id: 2, dest: 0 },
        Insn::MakeRecord { start_reg: 0, count: 0, dest_reg: 1 },
        Insn::ResultRow { start_reg: 0, count: 0 },
        Insn::ResultRow { start_reg: usize::MAX, count: 2 },
        Insn::SorterOpen {
            cursor_id: 0,
            columns: 1,
            order: OwnedRecord::new(vec![OwnedValue::Null]),
        },
    ] {
        assert!(!program(vec![insn]).can_explain());
    }
    assert!(program(vec![]).can_explain());
    assert!(program(vec![Insn::ResultRow { start_reg: usize::MAX, count: 1 }]).can_explain());
}
