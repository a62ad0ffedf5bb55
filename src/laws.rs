//! Properties of the machine's semantics, proved for all inputs.
use vstd::prelude::*;

use crate::instructions::{lemma_models, models, BinaryOp, FunctionOp, Instr, Instruction, UnaryOpCell, UnaryOpImm};
use crate::semantics::{
    empty_frame, last_cell, lemma_run_seq_unfold, run_outcome, run_seq, with_cells, Frame,
};
use crate::table::{defines, lemma_index_of, Table};
use crate::types::MachineError;

verus! {

/// Running `p` then `q` is running `p + q`: the second part runs from where the
/// first left off, unless the first failed.
pub proof fn lemma_run_seq_append(f: Frame, t: Table, p: Seq<Instr>, q: Seq<Instr>)
    ensures
        run_seq(f, t, p + q) == ({
            let (f1, t1, e) = run_seq(f, t, p);
            if e is Some {
                (f1, t1, e)
            } else {
                run_seq(f1, t1, q)
            }
        }),
    decreases p.len(),
{
    if p.len() == 0 {
        assert(p + q =~= q);
    } else {
        lemma_run_seq_unfold(f, t, p + q);
        lemma_run_seq_unfold(f, t, p);
        assert((p + q)[0] == p[0]);
        assert((p + q).drop_first() =~= p.drop_first() + q);
        let (f1, t1, e) = crate::semantics::step(f, t, p[0]);
        if e is None {
            lemma_run_seq_append(f1, t1, p.drop_first(), q);
        }
    }
}

/// `p` holds only `Push` instructions.
pub open spec fn all_pushes(p: Seq<Instr>) -> bool {
    forall|k: int| 0 <= k < p.len() ==> #[trigger] p[k] matches Instr::UnaryImm(UnaryOpImm::Push, _)
}

/// The values that the pushes of `p` carry, in order.
pub open spec fn pushed_values(p: Seq<Instr>) -> Seq<i64> {
    p.map_values(|i: Instr| i->UnaryImm_1)
}

/// A program of pushes appends the pushed values to the cells in order, and fails never:
/// the cell after the ones that were there is the first value pushed, and so on.
pub proof fn lemma_pushes(f: Frame, t: Table, p: Seq<Instr>)
    requires
        f.pending is None,
        all_pushes(p),
    ensures
        run_seq(f, t, p) == (with_cells(f, f.cells + pushed_values(p)), t, None::<MachineError>),
        forall|k: int| 0 <= k < p.len()
            ==> #[trigger] run_seq(f, t, p).0.cells[f.cells.len() + k] == p[k]->UnaryImm_1,
    decreases p.len(),
{
    if p.len() == 0 {
        assert(f.cells + pushed_values(p) =~= f.cells);
        assert(with_cells(f, f.cells) == f);
    } else {
        lemma_run_seq_unfold(f, t, p);
        assert(p[0] matches Instr::UnaryImm(UnaryOpImm::Push, _));
        let f1 = with_cells(f, f.cells.push(p[0]->UnaryImm_1));
        assert(all_pushes(p.drop_first())) by {
            assert forall|k: int| 0 <= k < p.drop_first().len() implies #[trigger] p.drop_first()[k] matches Instr::UnaryImm(UnaryOpImm::Push, _) by {
                assert(p.drop_first()[k] == p[k + 1]);
            }
        }
        lemma_pushes(f1, t, p.drop_first());
        assert(f1.cells + pushed_values(p.drop_first()) =~= f.cells + pushed_values(p));
    }
}

/// The one-instruction program `Pop(n)`.
pub open spec fn pop_program(n: i64) -> Seq<Instr> {
    seq![Instr::UnaryImm(UnaryOpImm::Pop, n)]
}

/// Popping is stateful, not idempotent: a second `Pop(n)` removes `n` more cells.
/// Popping more cells than there are fails with `StackUnderflow` and leaves none.
pub proof fn lemma_pop_twice(f: Frame, t: Table, n: i64)
    requires
        f.pending is None,
        n >= 0,
    ensures
        ({
            let once = run_seq(f, t, pop_program(n));
            let twice = run_seq(once.0, once.1, pop_program(n));
            let len = f.cells.len();
            &&& n <= len ==> once.2 is None && once.0.cells == f.cells.take(len - n)
            &&& 2 * n <= len ==> twice.2 is None && twice.0.cells == f.cells.take(len - 2 * n)
            &&& 0 < n && 2 * n <= len ==> twice.0.cells != once.0.cells
            &&& n > len ==> once.2 == Some(MachineError::StackUnderflow) && once.0.cells.len() == 0
            &&& n <= len < 2 * n ==> twice.2 == Some(MachineError::StackUnderflow)
                && twice.0.cells.len() == 0
        }),
{
    let p = pop_program(n);
    lemma_run_seq_unfold(f, t, p);
    assert(p.drop_first().len() == 0);
    let once = run_seq(f, t, p);
    lemma_run_seq_unfold(once.0, once.1, p);
    let len = f.cells.len();
    if 2 * n <= len {
        assert(f.cells.take(len - n).take(len - n - n) =~= f.cells.take(len - 2 * n));
        if 0 < n {
            assert(run_seq(once.0, once.1, p).0.cells.len() != once.0.cells.len());
        }
    }
}

/// The one-instruction program `ReadReverse(k)`.
pub open spec fn read_reverse_program(k: u16) -> Seq<Instr> {
    seq![Instr::UnaryCell(UnaryOpCell::ReadReverse, k)]
}

/// After pushes onto a fresh machine, `ReadReverse(k)` returns the value pushed `k`
/// places before the last one (`k == 0`: the last one), and fails with `InvalidCell`
/// where there is no such push.
pub proof fn lemma_read_reverse_after_pushes(t: Table, p: Seq<Instr>, k: u16)
    requires
        all_pushes(p),
        p.len() <= u16::MAX,
    ensures
        ({
            let r = run_outcome(empty_frame(), t, p + read_reverse_program(k));
            &&& k < p.len() ==> r.2 == Ok::<Option<i64>, MachineError>(Some(p[p.len() - 1 - k]->UnaryImm_1))
            &&& k >= p.len() ==> r.2 == Err::<Option<i64>, MachineError>(MachineError::InvalidCell)
        }),
{
    let f = empty_frame();
    lemma_pushes(f, t, p);
    lemma_run_seq_append(f, t, p, read_reverse_program(k));
    let f1 = with_cells(f, f.cells + pushed_values(p));
    assert(f1.cells =~= pushed_values(p));
    lemma_run_seq_unfold(f1, t, read_reverse_program(k));
    assert(read_reverse_program(k).drop_first().len() == 0);
}

/// A comparison pushes 0 or 1, and 1 exactly when the comparison holds.
pub proof fn lemma_comparison_flags(op: BinaryOp, f: Frame, t: Table, a: u16, b: u16)
    requires
        f.pending is None,
        a < f.cells.len(),
        b < f.cells.len(),
        op is SetEqual || op is SetNotEqual || op is SetLessThan || op is SetLessThanOrEqual
            || op is SetGreaterThan || op is SetGreaterThanOrEqual,
    ensures
        ({
            let r = run_seq(f, t, seq![Instr::Binary(op, a, b)]);
            let (x, y) = (f.cells[a as int], f.cells[b as int]);
            let holds = match op {
                BinaryOp::SetEqual => x == y,
                BinaryOp::SetNotEqual => x != y,
                BinaryOp::SetLessThan => x < y,
                BinaryOp::SetLessThanOrEqual => x <= y,
                BinaryOp::SetGreaterThan => x > y,
                _ => x >= y,
            };
            &&& r.2 is None
            &&& last_cell(r.0.cells) == Some(if holds { 1i64 } else { 0i64 })
        }),
{
    let p = seq![Instr::Binary(op, a, b)];
    lemma_run_seq_unfold(f, t, p);
    assert(p.drop_first().len() == 0);
}

/// The program that defines `name` with `body` and then defines `name` again.
pub open spec fn define_twice_program(name: Seq<char>, body: Instr) -> Seq<Instr> {
    seq![
        Instr::Function(FunctionOp::FunctionDefine, name),
        body,
        Instr::Function(FunctionOp::FunctionDefine, name),
    ]
}

/// Defining a name twice fails with `FunctionRedefinition`, and the first body stays.
pub proof fn lemma_define_twice(f: Frame, t: Table, name: Seq<char>, body: Instr)
    requires
        f.pending is None,
        !defines(t, name),
    ensures
        ({
            let r = run_seq(f, t, define_twice_program(name, body));
            &&& r.2 == Some(MachineError::FunctionRedefinition)
            &&& r.1 == t.push((name, body))
        }),
{
    let p = define_twice_program(name, body);
    lemma_index_of(t, name);
    lemma_run_seq_unfold(f, t, p);
    let f1 = Frame { pending: Some(name), ..f };
    lemma_run_seq_unfold(f1, t, p.drop_first());
    let t2 = t.push((name, body));
    let f2 = Frame { pending: None, ..f1 };
    assert(p.drop_first().drop_first() =~= seq![Instr::Function(FunctionOp::FunctionDefine, name)]);
    lemma_run_seq_unfold(f2, t2, p.drop_first().drop_first());
    assert(t2[t.len() as int].0 == name);
}

/// Calling a name that the table does not hold fails with `FunctionUndefined`,
/// and changes nothing.
pub proof fn lemma_call_undefined(f: Frame, t: Table, name: Seq<char>)
    requires
        f.pending is None,
        !defines(t, name),
    ensures
        run_seq(f, t, seq![Instr::Function(FunctionOp::FunctionCall, name)]) == (f, t, Some(
            MachineError::FunctionUndefined,
        )),
{
    let p = seq![Instr::Function(FunctionOp::FunctionCall, name)];
    lemma_index_of(t, name);
    lemma_run_seq_unfold(f, t, p);
}

/// Running the first `k` instructions of a program (`run_until`) leaves and returns
/// what running the program cut to `k` instructions (`run`) does, from the same state.
pub proof fn lemma_run_until_is_truncated_run(f: Frame, t: Table, program: Seq<Instruction>, k: int)
    requires
        0 <= k <= program.len(),
    ensures
        run_outcome(f, t, models(program).take(k)) == run_outcome(f, t, models(program.take(k))),
{
    lemma_models(program);
    lemma_models(program.take(k));
    assert(models(program).take(k) =~= models(program.take(k)));
}

} // verus!
