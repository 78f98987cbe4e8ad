# vdbe

Bytecode programs of a small SQL engine, written and verified with Verus.

- `ProgramBuilder` puts a program together: it allocates registers, cursors and labels, emits
  instructions, and fills in the positions that jumps go to.
- `Program::step` runs a program. The program's state stands apart from it. What only the host can do
  (reading through cursors, floating-point arithmetic) is asked of the host as a `Request`, and its
  `Reply` is handed to the next step. A step executes a limited number of instructions.
- `Program::explain` lists a program.

`src/semantics.rs` says what each instruction does; `src/execute.rs` does it. `src/labels.rs`,
`src/running.rs` and `src/groups.rs` hold laws: of programs in the making, of execution, and of
aggregate functions. Floating-point values are carried as their bits and their printed forms; the
library orders them, and leaves arithmetic on them to the host.

`app/` is a host: it runs programs against storage of any kind.
