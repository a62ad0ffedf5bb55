//! What running instructions means, as spec functions over models.
use vstd::prelude::*;

use crate::instructions::{size, sizes, BinaryOp, FunctionOp, Instr, NullaryOp, UnaryOpCell, UnaryOpImm};
use crate::table::{defines, index_of, table_size, Table};
use crate::types::MachineError;

verus! {

broadcast use crate::table::lemma_index_of, crate::table::lemma_table_size_entry,
    crate::table::lemma_table_size_push, crate::instructions::lemma_sizes_first;

/// The state of one machine but its function table.
pub struct Frame {
    /// The cell store.
    pub cells: Seq<i64>,
    /// Start of the active frame; `Rebase` drops the cells before it.
    pub base: usize,
    /// Bases saved on entry to a block.
    pub base_stack: Seq<usize>,
    /// A name whose body is the next instruction to come.
    pub pending: Option<Seq<char>>,
}

/// The frame of a machine that has run nothing.
pub open spec fn empty_frame() -> Frame {
    Frame { cells: Seq::empty(), base: 0, base_stack: Seq::empty(), pending: None }
}

/// `f` with `v` appended to its cells.
pub open spec fn pushed(f: Frame, v: i64) -> Frame {
    Frame { cells: f.cells.push(v), ..f }
}

/// `f` with its cells replaced.
pub open spec fn with_cells(f: Frame, cells: Seq<i64>) -> Frame {
    Frame { cells: cells, ..f }
}

/// The last cell, if there is one.
pub open spec fn last_cell(cells: Seq<i64>) -> Option<i64> {
    if cells.len() == 0 {
        None
    } else {
        Some(cells.last())
    }
}

/// 1 for true, 0 for false.
pub open spec fn flag(b: bool) -> i64 {
    if b {
        1
    } else {
        0
    }
}

/// The result of a binary instruction on two cell values; `None` where `Div` has no quotient.
pub open spec fn binary_value(op: BinaryOp, a: i64, b: i64) -> Option<i64> {
    match op {
        BinaryOp::Add => Some(a.wrapping_add(b)),
        BinaryOp::Mul => Some(a.wrapping_mul(b)),
        BinaryOp::Div => a.checked_div(b),
        BinaryOp::And => Some(a & b),
        BinaryOp::Or => Some(a | b),
        BinaryOp::Xor => Some(a ^ b),
        BinaryOp::ShiftLeftLogical => Some(a.wrapping_shl(b as u32)),
        BinaryOp::ShiftRightLogical => Some((a as u64).wrapping_shr(b as u32) as i64),
        BinaryOp::ShiftRightArithmetic => Some(a.wrapping_shr(b as u32)),
        BinaryOp::SetEqual => Some(flag(a == b)),
        BinaryOp::SetNotEqual => Some(flag(a != b)),
        BinaryOp::SetLessThan => Some(flag(a < b)),
        BinaryOp::SetLessThanOrEqual => Some(flag(a <= b)),
        BinaryOp::SetGreaterThan => Some(flag(a > b)),
        BinaryOp::SetGreaterThanOrEqual => Some(flag(a >= b)),
    }
}

/// Position of the cell `offset` places below the top; `None` when there is none,
/// or when the count of cells does not fit a cell index.
pub open spec fn reverse_index(cells: Seq<i64>, offset: u16) -> Option<int> {
    if cells.len() == 0 || cells.len() > u16::MAX || offset >= cells.len() {
        None
    } else {
        Some(cells.len() - 1 - offset)
    }
}

/// The value a one-cell instruction pushes; `None` where the cell does not exist.
pub open spec fn cell_value(op: UnaryOpCell, cells: Seq<i64>, c: u16) -> Option<i64> {
    match op {
        UnaryOpCell::Not => if c < cells.len() {
            Some(!cells[c as int])
        } else {
            None
        },
        UnaryOpCell::Read => if c < cells.len() {
            Some(cells[c as int])
        } else {
            None
        },
        UnaryOpCell::ReadReverse => match reverse_index(cells, c) {
            Some(k) => Some(cells[k]),
            None => None,
        },
    }
}

/// The cells after discarding `n` from the tail, and the error if there were too few
/// (then every cell is gone) or `n` is negative (then nothing is).
pub open spec fn pop_cells(cells: Seq<i64>, n: i64) -> (Seq<i64>, Option<MachineError>) {
    if n < 0 {
        (cells, Some(MachineError::InvalidCell))
    } else if n > cells.len() {
        (Seq::empty(), Some(MachineError::StackUnderflow))
    } else {
        (cells.subrange(0, cells.len() - n), None)
    }
}

/// The cells after `Rebase`: those from `base` on.
pub open spec fn rebase_cells(f: Frame) -> (Seq<i64>, Option<MachineError>) {
    if f.base > f.cells.len() {
        (f.cells, Some(MachineError::RebaseError))
    } else {
        (f.cells.subrange(f.base as int, f.cells.len() as int), None)
    }
}

/// The frame of a block's child: a copy of the cells, whose own frame starts past them.
pub open spec fn block_frame(f: Frame) -> Frame {
    Frame {
        cells: f.cells,
        base: f.cells.len() as usize,
        base_stack: seq![f.base],
        pending: None,
    }
}

/// The frame of a function call's child: a copy of the cells and nothing else.
pub open spec fn call_frame(f: Frame) -> Frame {
    Frame { cells: f.cells, base: 0, base_stack: Seq::empty(), pending: None }
}

/// `f` with the last cell of a child, if it has one, appended.
pub open spec fn merged(f: Frame, child: Frame) -> Frame {
    match last_cell(child.cells) {
        Some(v) => pushed(f, v),
        None => f,
    }
}

/// `Nop` and `Rebase` on frame `f`.
pub open spec fn nullary_outcome(op: NullaryOp, f: Frame) -> (Frame, Option<MachineError>) {
    match op {
        NullaryOp::Nop => (f, None),
        NullaryOp::Rebase => {
            let (cells, e) = rebase_cells(f);
            (with_cells(f, cells), e)
        },
    }
}

/// `Push` and `Pop` of immediate `v` on frame `f`.
pub open spec fn unary_imm_outcome(op: UnaryOpImm, f: Frame, v: i64) -> (Frame, Option<MachineError>) {
    match op {
        UnaryOpImm::Push => (pushed(f, v), None),
        UnaryOpImm::Pop => {
            let (cells, e) = pop_cells(f.cells, v);
            (with_cells(f, cells), e)
        },
    }
}

/// A one-cell instruction over cell index `c` on frame `f`.
pub open spec fn unary_cell_outcome(op: UnaryOpCell, f: Frame, c: u16) -> (Frame, Option<MachineError>) {
    match cell_value(op, f.cells, c) {
        Some(v) => (pushed(f, v), None),
        None => (f, Some(MachineError::InvalidCell)),
    }
}

/// A binary instruction over cell indices `a` and `b` on frame `f`.
pub open spec fn binary_outcome(op: BinaryOp, f: Frame, a: u16, b: u16) -> (Frame, Option<MachineError>) {
    if a < f.cells.len() && b < f.cells.len() {
        match binary_value(op, f.cells[a as int], f.cells[b as int]) {
            Some(v) => (pushed(f, v), None),
            None => (f, Some(MachineError::DivisionByZero)),
        }
    } else {
        (f, Some(MachineError::InvalidCell))
    }
}

/// Evaluating `i` in frame `f` with table `t`, when no name is pending: the frame
/// afterwards and the error, if one ended it. The table itself never changes here.
pub open spec fn exec_instr(f: Frame, t: Table, i: Instr) -> (Frame, Option<MachineError>)
    decreases table_size(t) + size(i), 0nat,
{
    match i {
        Instr::Nullary(op) => nullary_outcome(op, f),
        Instr::UnaryImm(op, v) => unary_imm_outcome(op, f, v),
        Instr::UnaryCell(op, c) => unary_cell_outcome(op, f, c),
        Instr::Binary(op, a, b) => binary_outcome(op, f, a, b),
        Instr::Block(body) => {
            let (child, _, e) = run_seq(block_frame(f), Seq::empty(), body);
            if e is Some {
                (f, e)
            } else if child.base_stack.len() == 0 {
                (merged(f, child), Some(MachineError::RebaseError))
            } else {
                (Frame { base: child.base_stack.last(), ..merged(f, child) }, None)
            }
        },
        Instr::Function(FunctionOp::FunctionDefine, name) => if defines(t, name) {
            (f, Some(MachineError::FunctionRedefinition))
        } else {
            (Frame { pending: Some(name), ..f }, None)
        },
        Instr::Function(FunctionOp::FunctionCall, name) => match index_of(t, name) {
            None => (f, Some(MachineError::FunctionUndefined)),
            Some(k) => {
                let (child, e) = exec_instr(call_frame(f), Seq::empty(), t[k].1);
                if e is Some {
                    (f, e)
                } else {
                    (merged(f, child), None)
                }
            },
        },
    }
}

/// Running the instructions of `p` in turn from frame `f` and table `t`, stopping at
/// the first error: the frame and table afterwards, and that error.
///
/// While a name is pending, the next instruction becomes its body instead of running.
pub open spec fn run_seq(f: Frame, t: Table, p: Seq<Instr>) -> (Frame, Table, Option<MachineError>)
    decreases table_size(t) + sizes(p), 1nat + p.len(),
{
    if p.len() == 0 {
        (f, t, None)
    } else if f.pending is Some {
        let name = f.pending->0;
        if defines(t, name) {
            (f, t, Some(MachineError::FunctionRedefinition))
        } else {
            run_seq(Frame { pending: None, ..f }, t.push((name, p[0])), p.drop_first())
        }
    } else {
        let (f1, e) = exec_instr(f, t, p[0]);
        if e is Some {
            (f1, t, e)
        } else {
            run_seq(f1, t, p.drop_first())
        }
    }
}

/// One instruction in turn: the body of a pending name, or else evaluated.
pub open spec fn step(f: Frame, t: Table, i: Instr) -> (Frame, Table, Option<MachineError>) {
    if f.pending is Some {
        let name = f.pending->0;
        if defines(t, name) {
            (f, t, Some(MachineError::FunctionRedefinition))
        } else {
            (Frame { pending: None, ..f }, t.push((name, i)), None)
        }
    } else {
        let (f1, e) = exec_instr(f, t, i);
        (f1, t, e)
    }
}

/// `run_seq` takes one `step` and goes on with the rest unless it failed.
pub proof fn lemma_run_seq_unfold(f: Frame, t: Table, p: Seq<Instr>)
    requires
        p.len() > 0,
    ensures
        run_seq(f, t, p) == ({
            let (f1, t1, e) = step(f, t, p[0]);
            if e is Some {
                (f1, t1, e)
            } else {
                run_seq(f1, t1, p.drop_first())
            }
        }),
{
}

/// The error held by a result, if any.
pub open spec fn error_of<T>(r: Result<T, MachineError>) -> Option<MachineError> {
    match r {
        Ok(_) => None,
        Err(e) => Some(e),
    }
}

/// What a run of `p` from `f` and `t` leaves and returns: the last cell, or the first error.
pub open spec fn run_outcome(f: Frame, t: Table, p: Seq<Instr>) -> (Frame, Table, Result<Option<i64>, MachineError>) {
    let (f1, t1, e) = run_seq(f, t, p);
    match e {
        None => (f1, t1, Ok(last_cell(f1.cells))),
        Some(err) => (f1, t1, Err(err)),
    }
}

} // verus!
