use virtual_machine::{
    BinaryOp, FunctionOp, Instruction, Machine, MachineError, NullaryOp, UnaryOpCell, UnaryOpImm,
};

fn push(v: i64) -> Instruction {
    Instruction::AluUnaryImm(UnaryOpImm::Push, v)
}

fn pop(n: i64) -> Instruction {
    Instruction::AluUnaryImm(UnaryOpImm::Pop, n)
}

fn cell(op: UnaryOpCell, c: u16) -> Instruction {
    Instruction::AluUnaryCell(op, c)
}

fn bin(op: BinaryOp, a: u16, b: u16) -> Instruction {
    Instruction::AluBinary(op, a, b)
}

fn define(name: &str) -> Instruction {
    Instruction::AluFunction(FunctionOp::FunctionDefine, String::from(name))
}

fn call(name: &str) -> Instruction {
    Instruction::AluFunction(FunctionOp::FunctionCall, String::from(name))
}

fn binop(a: i64, b: i64, op: BinaryOp) -> Result<Option<i64>, MachineError> {
    let mut machine = Machine::new();
    machine.run(&[push(a), push(b), bin(op, 0, 1)])
}

#[test]
fn pushes_fill_cells_in_order() {
    let values = [7, -3, 0, i64::MAX, i64::MIN, 42];
    let program: Vec<Instruction> = values.iter().map(|v| push(*v)).collect();
    let mut machine = Machine::new();
    let last = machine.run(&program).unwrap();
    assert_eq!(last, Some(42));
    assert_eq!(machine.cells(), &values[..]);
}

#[test]
fn pop_twice_is_stateful() {
    let mut machine = Machine::new();
    machine.run(&[push(1), push(2), push(3), push(4), push(5)]).unwrap();
    assert_eq!(machine.run(&[pop(2)]).unwrap(), Some(3));
    assert_eq!(machine.run(&[pop(2)]).unwrap(), Some(1));
    assert_eq!(machine.cells(), &[1]);
    let result = machine.run(&[pop(2)]);
    assert!(matches!(result, Err(MachineError::StackUnderflow)));
    assert!(machine.cells().is_empty());
}

#[test]
fn pop_zero_changes_nothing() {
    let mut machine = Machine::new();
    assert_eq!(machine.run(&[push(8), pop(0)]).unwrap(), Some(8));
    assert_eq!(machine.cells(), &[8]);
}

#[test]
fn read_reverse_zero_is_last_push() {
    let mut machine = Machine::new();
    let last = machine
        .run(&[push(10), push(20), push(30), cell(UnaryOpCell::ReadReverse, 0)])
        .unwrap();
    assert_eq!(last, Some(30));
}

#[test]
fn read_reverse_deepest_and_past_it() {
    let mut machine = Machine::new();
    let last = machine
        .run(&[push(10), push(20), push(30), cell(UnaryOpCell::ReadReverse, 2)])
        .unwrap();
    assert_eq!(last, Some(10));
    let mut machine = Machine::new();
    let result = machine.run(&[push(10), push(20), push(30), cell(UnaryOpCell::ReadReverse, 3)]);
    assert!(matches!(result, Err(MachineError::InvalidCell)));
    assert_eq!(machine.cells(), &[10, 20, 30]);
}

#[test]
fn read_reverse_on_empty_store_fails() {
    let mut machine = Machine::new();
    let result = machine.run(&[cell(UnaryOpCell::ReadReverse, 0)]);
    assert!(matches!(result, Err(MachineError::InvalidCell)));
}

#[test]
fn read_past_end_fails() {
    let mut machine = Machine::new();
    let result = machine.run(&[push(1), cell(UnaryOpCell::Read, 1)]);
    assert!(matches!(result, Err(MachineError::InvalidCell)));
    let mut machine = Machine::new();
    let result = machine.run(&[push(1), bin(BinaryOp::Add, 0, 5)]);
    assert!(matches!(result, Err(MachineError::InvalidCell)));
    assert_eq!(machine.cells(), &[1]);
}

#[test]
fn comparisons_give_zero_when_false() {
    assert_eq!(binop(10, 20, BinaryOp::SetGreaterThan).unwrap(), Some(0));
    assert_eq!(binop(20, 10, BinaryOp::SetLessThan).unwrap(), Some(0));
    assert_eq!(binop(1, 2, BinaryOp::SetEqual).unwrap(), Some(0));
    assert_eq!(binop(3, 3, BinaryOp::SetNotEqual).unwrap(), Some(0));
    assert_eq!(binop(4, 3, BinaryOp::SetLessThanOrEqual).unwrap(), Some(0));
    assert_eq!(binop(3, 4, BinaryOp::SetGreaterThanOrEqual).unwrap(), Some(0));
    assert_eq!(binop(-1, 0, BinaryOp::SetLessThan).unwrap(), Some(1));
}

#[test]
fn add_and_mul_wrap_around() {
    assert_eq!(binop(i64::MAX, 1, BinaryOp::Add).unwrap(), Some(i64::MIN));
    assert_eq!(binop(i64::MIN, -1, BinaryOp::Add).unwrap(), Some(i64::MAX));
    assert_eq!(binop(i64::MAX, 2, BinaryOp::Mul).unwrap(), Some(-2));
    assert_eq!(binop(-6, 7, BinaryOp::Mul).unwrap(), Some(-42));
}

#[test]
fn div_truncates_toward_zero() {
    assert_eq!(binop(-7, 2, BinaryOp::Div).unwrap(), Some(-3));
    assert_eq!(binop(7, -2, BinaryOp::Div).unwrap(), Some(-3));
}

#[test]
fn div_without_quotient_fails() {
    let result = binop(i64::MIN, -1, BinaryOp::Div);
    assert!(matches!(result, Err(MachineError::DivisionByZero)));
    let mut machine = Machine::new();
    let result = machine.run(&[push(10), push(0), bin(BinaryOp::Div, 0, 1)]);
    assert!(matches!(result, Err(MachineError::DivisionByZero)));
    assert_eq!(machine.cells(), &[10, 0]);
}

#[test]
fn shift_counts_are_taken_modulo_64() {
    assert_eq!(binop(1, 65, BinaryOp::ShiftLeftLogical).unwrap(), Some(2));
    assert_eq!(binop(-1, 60, BinaryOp::ShiftRightLogical).unwrap(), Some(15));
    assert_eq!(binop(-1, 60, BinaryOp::ShiftRightArithmetic).unwrap(), Some(-1));
    assert_eq!(binop(8, -62, BinaryOp::ShiftRightLogical).unwrap(), Some(2));
}

#[test]
fn not_complements_bits() {
    let mut machine = Machine::new();
    assert_eq!(machine.run(&[push(0), cell(UnaryOpCell::Not, 0)]).unwrap(), Some(-1));
}

#[test]
fn block_isolation_keeps_one_value() {
    let mut machine = Machine::new();
    let program = vec![
        push(10),
        push(20),
        bin(BinaryOp::Add, 0, 1),
        Instruction::Block(vec![push(2), bin(BinaryOp::Mul, 2, 3)]),
        bin(BinaryOp::Add, 2, 3),
    ];
    assert_eq!(machine.run(&program).unwrap(), Some(90));
    assert_eq!(machine.cells(), &[10, 20, 30, 60, 90]);
}

#[test]
fn empty_block_adds_nothing() {
    let mut machine = Machine::new();
    let program = vec![push(4), Instruction::Block(vec![pop(1)])];
    assert_eq!(machine.run(&program).unwrap(), Some(4));
    assert_eq!(machine.cells(), &[4]);
}

#[test]
fn failed_block_leaves_parent_cells() {
    let mut machine = Machine::new();
    let program = vec![push(1), Instruction::Block(vec![push(2), cell(UnaryOpCell::Read, 9)]), push(3)];
    let result = machine.run(&program);
    assert!(matches!(result, Err(MachineError::InvalidCell)));
    assert_eq!(machine.cells(), &[1]);
}

#[test]
fn rebase_past_end_fails() {
    let mut machine = Machine::new();
    let program = vec![push(1), Instruction::Block(vec![pop(1), Instruction::AluNullary(NullaryOp::Rebase)])];
    let result = machine.run(&program);
    assert!(matches!(result, Err(MachineError::RebaseError)));
    assert_eq!(machine.cells(), &[1]);
}

#[test]
fn rebase_at_top_level_keeps_everything() {
    let mut machine = Machine::new();
    let program = vec![push(1), push(2), Instruction::AluNullary(NullaryOp::Rebase)];
    assert_eq!(machine.run(&program).unwrap(), Some(2));
    assert_eq!(machine.cells(), &[1, 2]);
}

#[test]
fn error_stops_run_and_keeps_partial_state() {
    let mut machine = Machine::new();
    let result = machine.run(&[push(1), push(2), pop(5), push(9)]);
    assert!(matches!(result, Err(MachineError::StackUnderflow)));
    assert!(machine.cells().is_empty());
}

#[test]
fn redefinition_fails() {
    let mut machine = Machine::new();
    let program = vec![define("f"), push(1), define("f")];
    let result = machine.run(&program);
    assert!(matches!(result, Err(MachineError::FunctionRedefinition)));
    assert!(machine.cells().is_empty());
}

#[test]
fn call_of_undefined_name_fails() {
    let mut machine = Machine::new();
    let result = machine.run(&[push(1), call("nothing")]);
    assert!(matches!(result, Err(MachineError::FunctionUndefined)));
    assert_eq!(machine.cells(), &[1]);
}

#[test]
fn definition_pending_across_runs() {
    let mut machine = Machine::new();
    assert_eq!(machine.run(&[define("seven")]).unwrap(), None);
    let program = vec![Instruction::Block(vec![push(7)]), call("seven"), call("seven")];
    assert_eq!(machine.run(&program).unwrap(), Some(7));
    assert_eq!(machine.cells(), &[7, 7]);
}

#[test]
fn call_without_result_pushes_nothing() {
    let mut machine = Machine::new();
    let program = vec![push(1), define("drop"), pop(1), call("drop")];
    assert_eq!(machine.run(&program).unwrap(), Some(1));
    assert_eq!(machine.cells(), &[1]);
}

#[test]
fn error_inside_function_body_is_reported() {
    let mut machine = Machine::new();
    let program = vec![define("bad"), Instruction::Block(vec![pop(5)]), push(1), call("bad")];
    let result = machine.run(&program);
    assert!(matches!(result, Err(MachineError::StackUnderflow)));
    assert_eq!(machine.cells(), &[1]);
}

#[test]
fn functions_are_not_visible_inside_blocks() {
    let mut machine = Machine::new();
    let program = vec![
        define("one"),
        push(1),
        Instruction::Block(vec![call("one")]),
    ];
    let result = machine.run(&program);
    assert!(matches!(result, Err(MachineError::FunctionUndefined)));
}

#[test]
fn sequential_definitions_take_the_next_instruction() {
    let program = vec![
        define("square"),
        define("cube"),
        define("nothing"),
        push(2),
        call("square"),
        call("brr"),
    ];
    let mut machine = Machine::new();
    let result = machine.run(&program);
    assert!(matches!(result, Err(MachineError::FunctionUndefined)));
    assert!(machine.cells().is_empty());
}

#[test]
fn run_until_matches_truncated_program() {
    let program = vec![push(6), push(3), bin(BinaryOp::Div, 0, 1), push(100), bin(BinaryOp::Add, 2, 3)];
    let mut partial = Machine::new();
    let until = partial.run_until(&program, 3).unwrap();
    let mut fresh = Machine::new();
    let truncated = fresh.run(&program[..3]).unwrap();
    assert_eq!(until, Some(2));
    assert_eq!(until, truncated);
    assert_eq!(partial.cells(), fresh.cells());
}

#[test]
fn run_until_past_the_end_runs_everything() {
    let program = vec![push(1), push(2), bin(BinaryOp::Add, 0, 1)];
    let mut machine = Machine::new();
    assert_eq!(machine.run_until(&program, 10).unwrap(), Some(3));
    let mut machine = Machine::new();
    assert_eq!(machine.run_until(&program, 0).unwrap(), None);
}

#[test]
fn run_loaded_without_program_fails() {
    let mut machine = Machine::new();
    match machine.run_loaded() {
        Err(MachineError::OtherError(message)) => assert_eq!(message, "No program loaded"),
        other => panic!("unexpected result {:?}", other),
    }
}

#[test]
fn loaded_program_stays_loaded() {
    let mut machine = Machine::new();
    machine.load_program(&[push(5)]);
    assert_eq!(machine.run_loaded().unwrap(), Some(5));
    assert_eq!(machine.run_loaded().unwrap(), Some(5));
    assert_eq!(machine.cells(), &[5, 5]);
}
