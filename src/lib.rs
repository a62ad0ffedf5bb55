//! A hybrid register/stack bytecode machine.
//!
//! A running machine owns a sequence of signed 64-bit cells. Instructions
//! append to it, read from it by index and discard from its tail. Nested
//! blocks and function calls run on a private copy of the cells and merge
//! back at most one value. Every executable function here is verified
//! against the semantics in [`semantics`].
pub mod types;
pub mod instructions;
pub mod semantics;
pub mod table;
pub mod machine;
pub mod laws;

pub use types::{Cell, Immediate, MachineError};
pub use machine::{FunctionData, Machine, Operator};
pub use instructions::{BinaryOp, FunctionOp, Instruction, NullaryOp, UnaryOpCell, UnaryOpImm};
