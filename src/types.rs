//! Value types shared by the whole machine.
use vstd::prelude::*;

verus! {

/// Index of a cell in the current cell store.
pub type Cell = u16;

/// The only value the machine manipulates: booleans are 0 and 1.
pub type Immediate = i64;

/// Why an instruction failed. Every error ends the current run.
#[derive(Debug, Clone)]
pub enum MachineError {
    /// A pop past the first cell.
    StackUnderflow,
    /// An index past the last cell, or a negative pop count.
    InvalidCell,
    /// `Div` whose quotient does not exist in 64 bits (divisor 0, or `MIN / -1`).
    DivisionByZero,
    /// Reserved: this machine has no save/restore of cells and never reports it.
    NoSavedCells,
    /// `Rebase` with the base past the end, or a block left without a saved base.
    RebaseError,
    /// Reserved: this machine has no save/restore of cells and never reports it.
    NoRebasedCells,
    /// `FunctionDefine` of a name that the table already holds.
    FunctionRedefinition,
    /// `FunctionCall` of a name that the table does not hold.
    FunctionUndefined,
    /// Reserved for call-path faults; a failure inside a body is reported as itself.
    FunctionCallError,
    /// A failure that no other kind describes.
    InstructionError(String),
    /// A failure outside instruction evaluation, such as running with no program loaded.
    OtherError(String),
}

} // verus!
