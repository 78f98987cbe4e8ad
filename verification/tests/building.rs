use vdbe::builder::ProgramBuilder;
use vdbe::insn::{Insn, InsnKind};
use vdbe::schema::Table;

fn table(name: &str) -> Table {
    Table {
        name: name.to_string(),
        columns: vec!["id".to_string(), "name".to_string()],
    }
}

fn target(insn: &Insn) -> i64 {
    match insn {
        Insn::Init { target_pc } => *target_pc,
        Insn::Goto { target_pc } => *target_pc,
        Insn::IfPos { target_pc, .. } => *target_pc,
        Insn::NotNull { target_pc, .. } => *target_pc,
        Insn::Eq { target_pc, .. } => *target_pc,
        Insn::Ne { target_pc, .. } => *target_pc,
        Insn::Lt { target_pc, .. } => *target_pc,
        Insn::Le { target_pc, .. } => *target_pc,
        Insn::Gt { target_pc, .. } => *target_pc,
        Insn::Ge { target_pc, .. } => *target_pc,
        Insn::If { target_pc, .. } => *target_pc,
        Insn::IfNot { target_pc, .. } => *target_pc,
        Insn::RewindAwait { pc_if_empty, .. } => *pc_if_empty,
        Insn::DecrJumpZero { target_pc, .. } => *target_pc,
        Insn::SorterSort { pc_if_empty, .. } => *pc_if_empty,
        Insn::SorterNext { pc_if_next, .. } => *pc_if_next,
        _ => panic!("no target"),
    }
}

#[test]
fn registers_are_counted_from_one() {
    let mut b = ProgramBuilder::new();
    assert_eq!(b.next_free_register(), 1);
    assert_eq!(b.alloc_register(), 1);
    assert_eq!(b.alloc_registers(3), 2);
    assert_eq!(b.next_free_register(), 5);
    b.drop_register();
    b.drop_registers(3);
    assert_eq!(b.next_free_register(), 1);
    assert_eq!(b.alloc_registers(0), 1);
    let program = b.build();
    assert_eq!(program.max_registers, 1);
}

#[test]
fn cursors_are_found_by_their_names() {
    let mut b = ProgramBuilder::new();
    assert_eq!(b.alloc_cursor_id(None, None), 0);
    assert_eq!(b.alloc_cursor_id(Some("users".to_string()), Some(table("users"))), 1);
    assert_eq!(b.alloc_cursor_id(Some("products".to_string()), None), 2);
    assert_eq!(b.resolve_cursor_id("products", None), 2);
    assert_eq!(b.resolve_cursor_id("users", None), 1);
    assert_eq!(b.resolve_cursor_id("users", Some(7)), 7);
    let program = b.build();
    assert_eq!(program.cursor_ref.len(), 3);
    assert_eq!(program.cursor_ref[1].0, Some("users".to_string()));
}

#[test]
fn labels_are_resolved_in_every_kind_of_jump() {
    let mut b = ProgramBuilder::new();
    let label = b.allocate_label();
    assert_eq!(label, -1);
    let other = b.allocate_label();
    assert_eq!(other, -2);
    let mut all: Vec<Insn> = vec![
        Insn::Init { target_pc: label },
        Insn::Goto { target_pc: label },
        Insn::IfPos { reg: 1, target_pc: label, decrement_by: 1 },
        Insn::NotNull { reg: 1, target_pc: label },
        Insn::Eq { lhs: 1, rhs: 2, target_pc: label },
        Insn::Ne { lhs: 1, rhs: 2, target_pc: label },
        Insn::Lt { lhs: 1, rhs: 2, target_pc: label },
        Insn::Le { lhs: 1, rhs: 2, target_pc: label },
        Insn::Gt { lhs: 1, rhs: 2, target_pc: label },
        Insn::Ge { lhs: 1, rhs: 2, target_pc: label },
        Insn::If { reg: 1, target_pc: label, null_reg: 2 },
        Insn::IfNot { reg: 1, target_pc: label, null_reg: 2 },
        Insn::RewindAwait { cursor_id: 0, pc_if_empty: label },
        Insn::DecrJumpZero { reg: 1, target_pc: label },
        Insn::SorterSort { cursor_id: 0, pc_if_empty: label },
        Insn::SorterNext { cursor_id: 0, pc_if_next: label },
    ];
    let count = all.len();
    while !all.is_empty() {
        b.emit_insn_with_label_dependency(all.remove(0), label);
    }
    b.emit_insn_with_label_dependency(Insn::Goto { target_pc: other }, other);
    b.resolve_label(label, 99);
    b.resolve_label(other, 3);
    let program = b.build();
    assert_eq!(program.insns.len(), count + 1);
    for insn in &program.insns[..count] {
        assert_eq!(target(insn), 99);
    }
    assert_eq!(target(&program.insns[count]), 3);
}

#[test]
fn deferred_labels_are_resolved_at_the_end() {
    let mut b = ProgramBuilder::new();
    let start = b.allocate_label();
    let end = b.allocate_label();
    b.emit_insn_with_label_dependency(Insn::Init { target_pc: start }, start);
    let at = b.offset() as usize;
    assert_eq!(at, 1);
    b.defer_label_resolution(start, at);
    b.emit_insn(Insn::Goto { target_pc: end });
    b.add_label_dependency(end, 1);
    b.emit_insn(Insn::Halt);
    b.defer_label_resolution(end, 2);
    b.resolve_deferred_labels();
    let program = b.build();
    assert_eq!(target(&program.insns[0]), 1);
    assert_eq!(target(&program.insns[1]), 2);
}

#[test]
fn a_label_is_assigned_to_the_next_instruction() {
    let mut b = ProgramBuilder::new();
    let label = b.allocate_label();
    b.emit_insn_with_label_dependency(Insn::Goto { target_pc: label }, label);
    b.emit_insn(Insn::Transaction);
    b.preassign_label_to_next_insn(label);
    b.emit_insn(Insn::Halt);
    b.emit_insn(Insn::Halt);
    let program = b.build();
    assert_eq!(target(&program.insns[0]), 2);
}

#[test]
fn a_label_is_assigned_to_a_next_instruction_that_waits_itself() {
    let mut b = ProgramBuilder::new();
    let first = b.allocate_label();
    let second = b.allocate_label();
    b.emit_insn_with_label_dependency(Insn::Goto { target_pc: first }, first);
    b.preassign_label_to_next_insn(first);
    b.emit_insn_with_label_dependency(Insn::Goto { target_pc: second }, second);
    b.emit_insn(Insn::Halt);
    let program = b.build();
    assert_eq!(target(&program.insns[0]), 1);
    assert_eq!(target(&program.insns[1]), second);
}

#[test]
fn a_label_is_assigned_to_an_instruction_that_waits_for_it() {
    let mut b = ProgramBuilder::new();
    let label = b.allocate_label();
    b.emit_insn(Insn::Transaction);
    b.preassign_label_to_next_insn(label);
    b.emit_insn_with_label_dependency(Insn::Goto { target_pc: label }, label);
    let program = b.build();
    assert_eq!(target(&program.insns[1]), 1);
}

#[test]
fn a_label_is_assigned_to_the_first_constant() {
    let mut b = ProgramBuilder::new();
    let label = b.allocate_label();
    b.emit_insn(Insn::Integer { value: 1, dest: 1 });
    b.mark_last_insn_constant();
    b.emit_insn_with_label_dependency(Insn::Goto { target_pc: label }, label);
    b.emit_insn(Insn::Halt);
    b.preassign_label_to_next_insn(label);
    b.emit_constant_insns();
    b.emit_insn(Insn::Halt);
    let program = b.build();
    assert_eq!(target(&program.insns[0]), 2);
    assert!(matches!(program.insns[2], Insn::Integer { value: 1, dest: 1 }));

    let mut b = ProgramBuilder::new();
    let label = b.allocate_label();
    b.emit_insn_with_label_dependency(Insn::Goto { target_pc: label }, label);
    b.preassign_label_to_next_insn(label);
    b.emit_constant_insns();
    b.emit_insn(Insn::Halt);
    let program = b.build();
    assert_eq!(target(&program.insns[0]), 1);
}

#[test]
fn constants_are_put_at_the_end() {
    let mut b = ProgramBuilder::new();
    b.emit_insn(Insn::Transaction);
    b.emit_insn(Insn::Integer { value: 1, dest: 1 });
    b.mark_last_insn_constant();
    b.emit_insn(Insn::Integer { value: 2, dest: 2 });
    b.mark_last_insn_constant();
    b.emit_insn(Insn::Halt);
    assert_eq!(b.offset(), 2);
    b.emit_constant_insns();
    let program = b.build();
    let kinds: Vec<InsnKind> = program.insns.iter().map(|i| i.kind()).collect();
    assert_eq!(
        kinds,
        vec![InsnKind::Transaction, InsnKind::Halt, InsnKind::Integer, InsnKind::Integer]
    );
    assert!(matches!(program.insns[2], Insn::Integer { value: 1, dest: 1 }));
    assert!(matches!(program.insns[3], Insn::Integer { value: 2, dest: 2 }));
}

#[test]
fn the_last_instructions() {
    let mut b = ProgramBuilder::new();
    assert!(b.last_insn().is_none());
    b.emit_insn(Insn::Null { dest: 1 });
    b.emit_insn(Insn::Null { dest: 2 });
    b.emit_insn(Insn::Halt);
    assert!(matches!(b.last_insn(), Some(Insn::Halt)));
    assert!(matches!(b.last_of_type(InsnKind::Null), Some(Insn::Null { dest: 2 })));
    assert!(b.last_of_type(InsnKind::Goto).is_none());
}
