//! Instructions, and their mathematical model.
use vstd::prelude::*;

use crate::types::{Cell, Immediate};

verus! {

/// Instructions without operands.
#[derive(Debug, Clone, Copy, PartialEq, Eq, Structural)]
pub enum NullaryOp {
    Nop,
    /// Drop every cell before the current base.
    Rebase,
}

/// Instructions over one cell index. Tail calls are not supported.
#[derive(Debug, Clone, Copy, PartialEq, Eq, Structural)]
pub enum UnaryOpCell {
    /// Push the bitwise complement of a cell.
    Not,
    /// Push a copy of a cell.
    Read,
    /// Push a copy of the cell that many places below the top.
    ReadReverse,
}

/// Instructions over one immediate.
#[derive(Debug, Clone, Copy, PartialEq, Eq, Structural)]
pub enum UnaryOpImm {
    /// Push the immediate.
    Push,
    /// Discard that many cells from the tail.
    Pop,
}

/// Instructions over two cell indices that push one result.
///
/// `Add` and `Mul` wrap around in two's complement; shift counts are taken
/// modulo 64; comparisons push 1 for true and 0 for false.
#[derive(Debug, Clone, Copy, PartialEq, Eq, Structural)]
pub enum BinaryOp {
    Add,
    Mul,
    Div,
    And,
    Or,
    Xor,
    ShiftLeftLogical,
    ShiftRightLogical,
    ShiftRightArithmetic,
    SetEqual,
    SetNotEqual,
    SetLessThan,
    SetLessThanOrEqual,
    SetGreaterThan,
    SetGreaterThanOrEqual,
}

/// Instructions over a function name.
#[derive(Debug, Clone, Copy, PartialEq, Eq, Structural)]
pub enum FunctionOp {
    /// The next instruction to be evaluated becomes the body of the name, without
    /// running. That holds of any instruction, another `FunctionDefine` included:
    /// two definitions in a row make the second the body of the first.
    FunctionDefine,
    /// Run the body of the name on a copy of the cells.
    FunctionCall,
}

/// One instruction of a program.
#[derive(Debug)]
pub enum Instruction {
    AluNullary(NullaryOp),
    AluUnaryImm(UnaryOpImm, Immediate),
    AluUnaryCell(UnaryOpCell, Cell),
    AluBinary(BinaryOp, Cell, Cell),
    Block(Vec<Instruction>),
    AluFunction(FunctionOp, String),
}

/// What an instruction means: the same shape, with sequences for vectors and strings.
pub enum Instr {
    Nullary(NullaryOp),
    UnaryImm(UnaryOpImm, i64),
    UnaryCell(UnaryOpCell, u16),
    Binary(BinaryOp, u16, u16),
    Block(Seq<Instr>),
    Function(FunctionOp, Seq<char>),
}

/// The model of one instruction.
pub open spec fn model(i: Instruction) -> Instr
    decreases i,
{
    match i {
        Instruction::AluNullary(op) => Instr::Nullary(op),
        Instruction::AluUnaryImm(op, v) => Instr::UnaryImm(op, v),
        Instruction::AluUnaryCell(op, c) => Instr::UnaryCell(op, c),
        Instruction::AluBinary(op, a, b) => Instr::Binary(op, a, b),
        Instruction::Block(body) => Instr::Block(models(body@)),
        Instruction::AluFunction(op, name) => Instr::Function(op, name@),
    }
}

/// The models of a sequence of instructions, in order.
pub open spec fn models(s: Seq<Instruction>) -> Seq<Instr>
    decreases s,
{
    if s.len() == 0 {
        Seq::empty()
    } else {
        models(s.subrange(0, s.len() - 1)).push(model(s[s.len() - 1]))
    }
}

impl View for Instruction {
    type V = Instr;

    open spec fn view(&self) -> Instr {
        model(*self)
    }
}

/// `models(s)` holds the model of each instruction of `s`, in order.
pub proof fn lemma_models(s: Seq<Instruction>)
    ensures
        models(s).len() == s.len(),
        forall|k: int| 0 <= k < s.len() ==> #[trigger] models(s)[k] == model(s[k]),
    decreases s.len(),
{
    if s.len() > 0 {
        lemma_models(s.subrange(0, s.len() - 1));
    }
}

impl Instruction {
    /// A copy of this instruction, nested blocks included.
    pub fn deep_copy(&self) -> (r: Instruction)
        ensures
            r@ == self@,
        decreases self,
    {
        match self {
            Instruction::AluNullary(op) => Instruction::AluNullary(*op),
            Instruction::AluUnaryImm(op, v) => Instruction::AluUnaryImm(*op, *v),
            Instruction::AluUnaryCell(op, c) => Instruction::AluUnaryCell(*op, *c),
            Instruction::AluBinary(op, a, b) => Instruction::AluBinary(*op, *a, *b),
            Instruction::Block(body) => {
                let mut out: Vec<Instruction> = Vec::new();
                let mut k: usize = 0;
                while k < body.len()
                    invariant
                        *self == Instruction::Block(*body),
                        k <= body.len(),
                        out@.len() == k,
                        forall|j: int| 0 <= j < k ==> #[trigger] model(out@[j]) == model(body@[j]),
                    decreases body.len() - k,
                {
                    proof {
                        vstd::std_specs::vec::axiom_vec_index_decreases(*body, k as int);
                        assert(decreases_to!(*self => (*self)->Block_0));
                    }
                    let c = body[k].deep_copy();
                    out.push(c);
                    k = k + 1;
                }
                proof {
                    lemma_models(out@);
                    lemma_models(body@);
                    assert(models(out@) =~= models(body@));
                }
                Instruction::Block(out)
            },
            Instruction::AluFunction(op, name) => Instruction::AluFunction(*op, name.clone()),
        }
    }
}

impl Clone for Instruction {
    fn clone(&self) -> Self {
        self.deep_copy()
    }
}

/// Number of instructions in `i`, nested ones included.
pub open spec fn size(i: Instr) -> nat
    decreases i,
{
    match i {
        Instr::Block(body) => 1 + sizes(body),
        _ => 1,
    }
}

/// Number of instructions in a sequence, nested ones included.
pub open spec fn sizes(s: Seq<Instr>) -> nat
    decreases s,
{
    if s.len() == 0 {
        0
    } else {
        sizes(s.subrange(0, s.len() - 1)) + size(s[s.len() - 1])
    }
}

/// A sequence's size is that of its first instruction plus that of the rest.
pub broadcast proof fn lemma_sizes_first(p: Seq<Instr>)
    requires
        p.len() > 0,
    ensures
        #![trigger sizes(p.drop_first())]
        #![trigger size(p[0]), sizes(p)]
        sizes(p) == size(p[0]) + sizes(p.drop_first()),
        size(p[0]) >= 1,
    decreases p.len(),
{
    if p.len() > 1 {
        let q = p.subrange(0, p.len() - 1);
        lemma_sizes_first(q);
        let r = p.drop_first();
        assert(q.drop_first() =~= r.subrange(0, r.len() - 1));
        assert(r[r.len() - 1] == p[p.len() - 1]);
        assert(q[0] == p[0]);
        assert(sizes(r) == sizes(r.subrange(0, r.len() - 1)) + size(r[r.len() - 1]));
        assert(sizes(p) == sizes(q) + size(p[p.len() - 1]));
    } else {
        assert(sizes(p.drop_first()) == 0);
        assert(sizes(p.subrange(0, 0)) == 0);
    }
}

} // verus!
