//! A small stack-based virtual machine for a line-oriented instruction
//! language: literals, wrapping integer arithmetic, comparisons that set a
//! carry flag, jumps, labelled procedures with private frames, and per-frame
//! local variables.
//!
//! The machine is given as a transition function on an explicit stack of
//! frames, so every function here terminates and none panics; running a
//! program is iterating that transition under a step budget.

pub mod bindings;
pub mod frame;
pub mod guarantees;
pub mod instruction;
pub mod labels;
pub mod literal;
pub mod semantics;
pub mod text;
pub mod value;
pub mod vm;

pub use instruction::{decode, Instruction, MathOp, Relation, Target};
pub use labels::{parse_labels, LabelTable};
pub use value::{Value, VmError};
pub use vm::{Machine, Outcome, Status, VM};
