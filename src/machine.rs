//! The machine: its cell store, function table, and the evaluation of instructions.
use vstd::prelude::*;

use crate::instructions::{
    lemma_models, models, size, sizes, BinaryOp, FunctionOp, Instr, Instruction, NullaryOp,
    UnaryOpCell, UnaryOpImm,
};
use crate::semantics::{
    binary_outcome, block_frame, call_frame, empty_frame, error_of, exec_instr, flag, last_cell,
    lemma_run_seq_unfold, nullary_outcome, pop_cells, pushed, rebase_cells, reverse_index,
    run_outcome, run_seq, step, unary_cell_outcome, unary_imm_outcome, with_cells, Frame,
};
use crate::table::{index_of, table_size, unique_names, Table};
use crate::types::{Cell, Immediate, MachineError};

verus! {

broadcast use crate::table::lemma_index_of, crate::table::lemma_table_size_entry,
    crate::table::lemma_table_size_push, crate::instructions::lemma_sizes_first;

/// The function table, and a name whose body is the next instruction to come.
pub struct FunctionData {
    function_table: Vec<(String, Instruction)>,
    new_function_declared: Option<String>,
}

impl FunctionData {
    /// The table as names and models of bodies.
    pub closed spec fn table(&self) -> Table {
        self.function_table@.map_values(|e: (String, Instruction)| (e.0@, e.1@))
    }

    /// The pending name.
    pub closed spec fn pending(&self) -> Option<Seq<char>> {
        match self.new_function_declared {
            Some(s) => Some(s@),
            None => None,
        }
    }

    /// An empty table with no pending name.
    pub fn new() -> (r: FunctionData)
        ensures
            r.table() == Seq::<(Seq<char>, Instr)>::empty(),
            r.pending() is None,
    {
        let r = FunctionData { function_table: Vec::new(), new_function_declared: None };
        assert(r.table() =~= Seq::<(Seq<char>, Instr)>::empty());
        r
    }

    /// Position of the last entry named `name`.
    fn find(&self, name: &String) -> (r: Option<usize>)
        ensures
            r matches Some(k) ==> index_of(self.table(), name@) == Some(k as int),
            r is None ==> index_of(self.table(), name@) is None,
    {
        let mut k: usize = self.function_table.len();
        assert(self.table().take(k as int) =~= self.table());
        while k > 0
            invariant
                k <= self.function_table@.len(),
                index_of(self.table(), name@) == index_of(self.table().take(k as int), name@),
            decreases k,
        {
            let ghost t = self.table().take(k as int);
            assert(t.last().0 == self.function_table@[k - 1].0@);
            if self.function_table[k - 1].0 == *name {
                return Some(k - 1);
            }
            assert(t.drop_last() =~= self.table().take(k - 1));
            k = k - 1;
        }
        assert(self.table().take(0).len() == 0);
        None
    }
}

impl Default for FunctionData {
    fn default() -> (r: FunctionData)
        ensures
            r.table() == Seq::<(Seq<char>, Instr)>::empty(),
            r.pending() is None,
    {
        FunctionData::new()
    }
}

/// A machine: cells, a base with the bases saved by enclosing blocks, a function
/// table, and a loaded program.
pub struct Machine {
    cells: Vec<i64>,
    program: Option<Vec<Instruction>>,
    base: usize,
    base_stack: Vec<usize>,
    function_data: FunctionData,
}

impl Machine {
    /// Everything but the table and the program.
    pub closed spec fn frame(&self) -> Frame {
        Frame {
            cells: self.cells@,
            base: self.base,
            base_stack: self.base_stack@,
            pending: self.function_data.pending(),
        }
    }

    /// The function table.
    pub closed spec fn table(&self) -> Table {
        self.function_data.table()
    }

    /// The loaded program, if any.
    pub closed spec fn program(&self) -> Option<Seq<Instr>> {
        match self.program {
            Some(p) => Some(models(p@)),
            None => None,
        }
    }

    /// The names of the function table are unique.
    pub open spec fn wf(&self) -> bool {
        unique_names(self.table())
    }

    /// A machine with no cells, base 0, no saved bases, an empty table and no program.
    pub fn new() -> (r: Machine)
        ensures
            r.frame() == empty_frame(),
            r.table() == Seq::<(Seq<char>, Instr)>::empty(),
            r.program() is None,
            r.wf(),
    {
        let r = Machine {
            cells: Vec::new(),
            program: None,
            base: 0,
            base_stack: Vec::new(),
            function_data: FunctionData::new(),
        };
        assert(r.frame().cells =~= Seq::<i64>::empty());
        assert(r.frame().base_stack =~= Seq::<usize>::empty());
        r
    }

    /// The cell store.
    pub fn cells(&self) -> (r: &[i64])
        ensures
            r@ == self.frame().cells,
    {
        self.cells.as_slice()
    }

    /// Append `value` to the cells.
    fn push(&mut self, value: i64)
        ensures
            final(self).frame() == pushed(old(self).frame(), value),
            final(self).table() == old(self).table(),
            final(self).program() == old(self).program(),
    {
        self.cells.push(value);
    }

    /// Remove and return the last cell.
    fn pop(&mut self) -> (r: Option<i64>)
        ensures
            r == last_cell(old(self).frame().cells),
            final(self).frame() == with_cells(old(self).frame(), old(self).frame().cells.take(
                if r is Some { old(self).frame().cells.len() - 1 } else { 0 },
            )),
            final(self).table() == old(self).table(),
            final(self).program() == old(self).program(),
    {
        let r = self.cells.pop();
        assert(self.cells@ =~= old(self).cells@.take(if r is Some { old(self).cells@.len() - 1 } else { 0 }));
        r
    }

    /// Discard `n` cells from the tail. With too few cells, all are gone and the
    /// error is `StackUnderflow`; a negative `n` is `InvalidCell`.
    fn multi_pop(&mut self, n: Immediate) -> (r: Result<(), MachineError>)
        ensures
            (final(self).frame().cells, error_of(r)) == pop_cells(old(self).frame().cells, n),
            final(self).frame() == with_cells(old(self).frame(), final(self).frame().cells),
            final(self).table() == old(self).table(),
            final(self).program() == old(self).program(),
    {
        if n < 0 {
            return Err(MachineError::InvalidCell);
        }
        let ghost cells0 = self.cells@;
        let mut k: i64 = 0;
        while k < n
            invariant
                0 <= k <= n,
                cells0 == old(self).frame().cells,
                k <= cells0.len(),
                self.cells@ == cells0.take(cells0.len() - k),
                self.frame() == with_cells(old(self).frame(), self.cells@),
                self.table() == old(self).table(),
                self.program() == old(self).program(),
            decreases n - k,
        {
            match self.pop() {
                None => {
                    assert(k == cells0.len());
                    assert(self.cells@ =~= Seq::<i64>::empty());
                    return Err(MachineError::StackUnderflow);
                },
                Some(_) => {},
            }
            assert(self.cells@ =~= cells0.take(cells0.len() - (k + 1)));
            k = k + 1;
        }
        Ok(())
    }

    /// The value of cell `reg`.
    fn read(&self, reg: Cell) -> (r: Result<i64, MachineError>)
        ensures
            (reg as int) < self.frame().cells.len() ==> r == Ok::<i64, MachineError>(self.frame().cells[reg as int]),
            (reg as int) >= self.frame().cells.len() ==> r == Err::<i64, MachineError>(MachineError::InvalidCell),
    {
        if (reg as usize) < self.cells.len() {
            Ok(self.cells[reg as usize])
        } else {
            Err(MachineError::InvalidCell)
        }
    }

    /// The value of the cell `offset` places below the top.
    fn read_reverse(&self, offset: Cell) -> (r: Result<i64, MachineError>)
        ensures
            reverse_index(self.frame().cells, offset) matches Some(k)
                ==> r == Ok::<i64, MachineError>(self.frame().cells[k]),
            reverse_index(self.frame().cells, offset) is None
                ==> r == Err::<i64, MachineError>(MachineError::InvalidCell),
    {
        let len = self.cells.len();
        if len == 0 || len > u16::MAX as usize || (offset as usize) >= len {
            return Err(MachineError::InvalidCell);
        }
        self.read((len - 1 - offset as usize) as u16)
    }

    /// Drop the cells before the base.
    fn rebase(&mut self) -> (r: Result<(), MachineError>)
        ensures
            (final(self).frame().cells, error_of(r)) == rebase_cells(old(self).frame()),
            final(self).frame() == with_cells(old(self).frame(), final(self).frame().cells),
            final(self).table() == old(self).table(),
            final(self).program() == old(self).program(),
    {
        if self.base > self.cells.len() {
            return Err(MachineError::RebaseError);
        }
        let rest = self.cells.split_off(self.base);
        self.cells = rest;
        Ok(())
    }

    /// The last cell, if any.
    fn last(&self) -> (r: Option<i64>)
        ensures
            r == last_cell(self.frame().cells),
    {
        if self.cells.len() == 0 {
            None
        } else {
            Some(self.cells[self.cells.len() - 1])
        }
    }
}

impl Default for Machine {
    fn default() -> (r: Machine)
        ensures
            r.frame() == empty_frame(),
            r.table() == Seq::<(Seq<char>, Instr)>::empty(),
            r.program() is None,
            r.wf(),
    {
        Machine::new()
    }
}

/// 1 for true, 0 for false.
fn from_bool(value: bool) -> (r: i64)
    ensures
        r == flag(value),
{
    if value {
        1
    } else {
        0
    }
}

/// An operation of one instruction shape, evaluated against a machine with its operand.
pub trait Operator {
    /// The operand the instruction carries.
    type ArgType;

    /// What evaluating with `arg` makes of frame `f`, and the error if it fails.
    spec fn outcome(&self, f: Frame, arg: Self::ArgType) -> (Frame, Option<MachineError>);

    /// Evaluate against `machine`; only its frame changes.
    fn eval(&self, machine: &mut Machine, arg: Self::ArgType) -> (r: Result<(), MachineError>)
        ensures
            (final(machine).frame(), error_of(r)) == self.outcome(old(machine).frame(), arg),
            final(machine).table() == old(machine).table(),
            final(machine).program() == old(machine).program(),
    ;
}

impl Operator for NullaryOp {
    type ArgType = ();

    open spec fn outcome(&self, f: Frame, arg: ()) -> (Frame, Option<MachineError>) {
        nullary_outcome(*self, f)
    }

    fn eval(&self, machine: &mut Machine, arg: ()) -> (r: Result<(), MachineError>) {
        match self {
            NullaryOp::Nop => Ok(()),
            NullaryOp::Rebase => machine.rebase(),
        }
    }
}

impl Operator for UnaryOpImm {
    type ArgType = Immediate;

    open spec fn outcome(&self, f: Frame, arg: Immediate) -> (Frame, Option<MachineError>) {
        unary_imm_outcome(*self, f, arg)
    }

    fn eval(&self, machine: &mut Machine, arg: Immediate) -> (r: Result<(), MachineError>) {
        match self {
            UnaryOpImm::Push => {
                machine.push(arg);
                Ok(())
            },
            UnaryOpImm::Pop => machine.multi_pop(arg),
        }
    }
}

impl Operator for UnaryOpCell {
    type ArgType = Cell;

    open spec fn outcome(&self, f: Frame, arg: Cell) -> (Frame, Option<MachineError>) {
        unary_cell_outcome(*self, f, arg)
    }

    fn eval(&self, machine: &mut Machine, arg: Cell) -> (r: Result<(), MachineError>) {
        let value = match self {
            UnaryOpCell::Not => machine.read(arg),
            UnaryOpCell::Read => machine.read(arg),
            UnaryOpCell::ReadReverse => machine.read_reverse(arg),
        };
        match value {
            Ok(v) => {
                let v = match self {
                    UnaryOpCell::Not => !v,
                    _ => v,
                };
                machine.push(v);
                Ok(())
            },
            Err(e) => Err(e),
        }
    }
}

impl Operator for BinaryOp {
    type ArgType = (Cell, Cell);

    open spec fn outcome(&self, f: Frame, arg: (Cell, Cell)) -> (Frame, Option<MachineError>) {
        binary_outcome(*self, f, arg.0, arg.1)
    }

    fn eval(&self, machine: &mut Machine, arg: (Cell, Cell)) -> (r: Result<(), MachineError>) {
        let (reg1, reg2) = arg;
        let a = match machine.read(reg1) {
            Ok(v) => v,
            Err(e) => return Err(e),
        };
        let b = match machine.read(reg2) {
            Ok(v) => v,
            Err(e) => return Err(e),
        };
        let value = match self {
            BinaryOp::Add => a.wrapping_add(b),
            BinaryOp::Mul => a.wrapping_mul(b),
            BinaryOp::Div => match a.checked_div(b) {
                Some(q) => q,
                None => return Err(MachineError::DivisionByZero),
            },
            BinaryOp::And => a & b,
            BinaryOp::Or => a | b,
            BinaryOp::Xor => a ^ b,
            BinaryOp::ShiftLeftLogical => a.wrapping_shl(b as u32),
            BinaryOp::ShiftRightLogical => (a as u64).wrapping_shr(b as u32) as i64,
            BinaryOp::ShiftRightArithmetic => a.wrapping_shr(b as u32),
            BinaryOp::SetEqual => from_bool(a == b),
            BinaryOp::SetNotEqual => from_bool(a != b),
            BinaryOp::SetLessThan => from_bool(a < b),
            BinaryOp::SetLessThanOrEqual => from_bool(a <= b),
            BinaryOp::SetGreaterThan => from_bool(a > b),
            BinaryOp::SetGreaterThanOrEqual => from_bool(a >= b),
        };
        machine.push(value);
        Ok(())
    }
}

impl Instruction {
    /// Evaluate against `machine`: become the body of a pending name, or else run.
    fn eval(&self, machine: &mut Machine) -> (r: Result<(), MachineError>)
        requires
            old(machine).wf(),
        ensures
            final(machine).wf(),
            (final(machine).frame(), final(machine).table(), error_of(r)) == step(
                old(machine).frame(),
                old(machine).table(),
                self@,
            ),
            final(machine).program() == old(machine).program(),
        decreases table_size(old(machine).table()) + size(self@), 1nat,
    {
        if let Some(name) = &machine.function_data.new_function_declared {
            let name = name.clone();
            if machine.function_data.find(&name).is_some() {
                return Err(MachineError::FunctionRedefinition);
            }
            let body = self.deep_copy();
            let ghost t0 = machine.table();
            machine.function_data.function_table.push((name, body));
            machine.function_data.new_function_declared = None;
            assert(machine.table() =~= t0.push((name@, self@)));
            assert(machine.frame() == Frame { pending: None, ..old(machine).frame() });
            return Ok(());
        }
        match self {
            Instruction::AluNullary(op) => op.eval(machine, ()),
            Instruction::AluUnaryImm(op, imm) => op.eval(machine, *imm),
            Instruction::AluUnaryCell(op, c) => op.eval(machine, *c),
            Instruction::AluBinary(op, a, b) => op.eval(machine, (*a, *b)),
            Instruction::Block(body) => {
                let mut child = Machine::new();
                child.cells = machine.cells.clone();
                child.base_stack.push(machine.base);
                child.base = child.cells.len();
                assert(child.frame() == block_frame(machine.frame()));
                let result = match child.run(body.as_slice()) {
                    Ok(v) => v,
                    Err(e) => return Err(e),
                };
                if let Some(v) = result {
                    machine.push(v);
                }
                match child.base_stack.pop() {
                    Some(b) => {
                        machine.base = b;
                        Ok(())
                    },
                    None => Err(MachineError::RebaseError),
                }
            },
            Instruction::AluFunction(op, name) => op.eval(machine, name),
        }
    }
}

impl FunctionOp {
    /// Evaluate against `machine` with function name `name`.
    fn eval(&self, machine: &mut Machine, name: &String) -> (r: Result<(), MachineError>)
        requires
            old(machine).wf(),
            old(machine).frame().pending is None,
        ensures
            final(machine).wf(),
            (final(machine).frame(), error_of(r)) == exec_instr(
                old(machine).frame(),
                old(machine).table(),
                Instr::Function(*self, name@),
            ),
            final(machine).table() == old(machine).table(),
            final(machine).program() == old(machine).program(),
        decreases table_size(old(machine).table()) + 1, 0nat,
    {
        match self {
            FunctionOp::FunctionDefine => {
                if machine.function_data.find(name).is_some() {
                    return Err(MachineError::FunctionRedefinition);
                }
                machine.function_data.new_function_declared = Some(name.clone());
                Ok(())
            },
            FunctionOp::FunctionCall => {
                let k = match machine.function_data.find(name) {
                    Some(k) => k,
                    None => return Err(MachineError::FunctionUndefined),
                };
                let mut child = Machine::new();
                child.cells = machine.cells.clone();
                assert(child.frame() == call_frame(machine.frame()));
                let body = &machine.function_data.function_table[k].1;
                match body.eval(&mut child) {
                    Ok(()) => {},
                    Err(e) => return Err(e),
                }
                if let Some(v) = child.last() {
                    machine.push(v);
                }
                Ok(())
            },
        }
    }
}

impl Machine {
    /// Keep a copy of `program` for `run_loaded`.
    pub fn load_program(&mut self, program: &[Instruction])
        ensures
            final(self).program() == Some(models(program@)),
            final(self).frame() == old(self).frame(),
            final(self).table() == old(self).table(),
    {
        let mut copy: Vec<Instruction> = Vec::new();
        let mut k: usize = 0;
        while k < program.len()
            invariant
                k <= program@.len(),
                copy@.len() == k,
                forall|j: int| 0 <= j < k ==> #[trigger] copy@[j]@ == program@[j]@,
            decreases program@.len() - k,
        {
            copy.push(program[k].deep_copy());
            k = k + 1;
        }
        proof {
            lemma_models(copy@);
            lemma_models(program@);
            assert forall|j: int| 0 <= j < copy@.len() implies models(copy@)[j] == models(program@)[j] by {
                assert(copy@[j]@ == program@[j]@);
            }
            assert(models(copy@) =~= models(program@));
        }
        self.program = Some(copy);
    }

    /// Run the loaded program as `run` does; without one, fail with `OtherError`
    /// and change nothing.
    pub fn run_loaded(&mut self) -> (r: Result<Option<i64>, MachineError>)
        requires
            old(self).wf(),
        ensures
            final(self).wf(),
            final(self).program() == old(self).program(),
            old(self).program() matches Some(p) ==> (final(self).frame(), final(self).table(), r)
                == run_outcome(old(self).frame(), old(self).table(), p),
            old(self).program() is None ==> {
                &&& final(self).frame() == old(self).frame()
                &&& final(self).table() == old(self).table()
                &&& r matches Err(MachineError::OtherError(s)) && s@ == "No program loaded"@
            },
    {
        match self.program.take() {
            None => Err(MachineError::OtherError("No program loaded".to_owned())),
            Some(p) => {
                let r = self.run(p.as_slice());
                self.program = Some(p);
                r
            },
        }
    }

    /// Run every instruction of `program` in turn, stopping at the first error.
    /// Returns the last cell, if any. Cells, bases and table carry over between runs.
    pub fn run(&mut self, program: &[Instruction]) -> (r: Result<Option<i64>, MachineError>)
        requires
            old(self).wf(),
        ensures
            final(self).wf(),
            (final(self).frame(), final(self).table(), r) == run_outcome(
                old(self).frame(),
                old(self).table(),
                models(program@),
            ),
            final(self).program() == old(self).program(),
        decreases table_size(old(self).table()) + sizes(models(program@)), 3 + program@.len(),
    {
        proof {
            lemma_models(program@);
            assert(models(program@).take(program@.len() as int) =~= models(program@));
        }
        self.run_until(program, program.len())
    }

    /// Run the first `limit` instructions of `program` (all of them, if it has fewer),
    /// stopping at the first error. Returns the last cell, if any.
    pub fn run_until(&mut self, program: &[Instruction], limit: usize) -> (r: Result<
        Option<i64>,
        MachineError,
    >)
        requires
            old(self).wf(),
        ensures
            final(self).wf(),
            (final(self).frame(), final(self).table(), r) == run_outcome(
                old(self).frame(),
                old(self).table(),
                models(program@).take(if limit < program@.len() { limit as int } else { program@.len() as int }),
            ),
            final(self).program() == old(self).program(),
        decreases table_size(old(self).table()) + sizes(
            models(program@).take(if limit < program@.len() { limit as int } else { program@.len() as int }),
        ), 2 + program@.len(),
    {
        let n: usize = if limit < program.len() {
            limit
        } else {
            program.len()
        };
        let ghost p = models(program@).take(n as int);
        let ghost f0 = self.frame();
        let ghost t0 = self.table();
        proof {
            lemma_models(program@);
            assert(p.subrange(0, n as int) =~= p);
        }
        let mut k: usize = 0;
        while k < n
            invariant
                k <= n <= program@.len(),
                n as int == (if limit < program@.len() { limit as int } else { program@.len() as int }),
                p == models(program@).take(n as int),
                models(program@).len() == program@.len(),
                forall|j: int| 0 <= j < program@.len() ==> #[trigger] models(program@)[j] == program@[j]@,
                self.wf(),
                self.program() == old(self).program(),
                run_seq(f0, t0, p) == run_seq(self.frame(), self.table(), p.subrange(k as int, n as int)),
                table_size(self.table()) + sizes(p.subrange(k as int, n as int)) <= table_size(t0) + sizes(p),
                f0 == old(self).frame(),
                t0 == old(self).table(),
            decreases n - k,
        {
            let ghost rest = p.subrange(k as int, n as int);
            let ghost f1 = self.frame();
            let ghost t1 = self.table();
            proof {
                lemma_run_seq_unfold(f1, t1, rest);
                assert(rest[0] == program@[k as int]@);
                assert(rest.drop_first() =~= p.subrange(k + 1, n as int));
                assert(sizes(rest) == size(rest[0]) + sizes(rest.drop_first()));
            }
            match program[k].eval(self) {
                Ok(()) => {},
                Err(e) => {
                    assert(run_seq(f0, t0, p) == (self.frame(), self.table(), Some(e)));
                    return Err(e);
                },
            }
            k = k + 1;
        }
        Ok(self.last())
    }
}

} // verus!
