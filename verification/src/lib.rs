//! Bytecode programs of a small SQL engine: building them, listing them and running them one
//! instruction at a time.

use vstd::prelude::*;

pub mod aggregate;
pub mod arith;
pub mod builder;
pub mod double;
pub mod execute;
pub mod explain;
pub mod function;
pub mod groups;
pub mod insn;
pub mod instructions;
pub mod labels;
pub mod like;
pub mod print;
pub mod program;
pub mod protocol;
pub mod random;
pub mod record;
pub mod relation;
pub mod running;
pub mod scalar;
pub mod schema;
pub mod semantics;
pub mod state;
pub mod text;
pub mod value;

pub use crate::builder::ProgramBuilder;
pub use crate::insn::Insn;
pub use crate::program::Program;
pub use crate::protocol::StepResult;
pub use crate::state::ProgramState;

verus! {

/// A position in a program: an instruction's address when it is not negative, a label that has
/// still to be resolved when it is negative.
pub type BranchOffset = i64;

/// The number by which a program refers to one of its cursors.
pub type CursorID = usize;

/// The number of a page of the database file.
pub type PageIdx = usize;

} // verus!
