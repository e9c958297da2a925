use sloth::bytecode::{CompiledBlock, OpCode};
use sloth::error::RuntimeFault;
use sloth::value::{HeapKind, HeapObject, Value};
use sloth::vm::VirtualMachine;

fn block(code: Vec<OpCode>, consts: Vec<Value>, locals: Vec<String>) -> CompiledBlock {
    CompiledBlock { code, consts, locals }
}

fn run(b: &CompiledBlock) -> Result<Value, RuntimeFault> {
    let mut vm = VirtualMachine::new();
    vm.execute(b)
}

#[test]
fn const_then_return_yields_const() {
    let b = block(
        vec![OpCode::LoadConst(0), OpCode::Return],
        vec![Value::Int(7)],
        vec![],
    );
    assert_eq!(run(&b), Ok(Value::Int(7)));
}

#[test]
fn int_addition() {
    let b = block(
        vec![OpCode::LoadConst(0), OpCode::LoadConst(1), OpCode::Add, OpCode::Return],
        vec![Value::Int(2), Value::Int(3)],
        vec![],
    );
    assert_eq!(run(&b), Ok(Value::Int(5)));
}

#[test]
fn int_subtraction_operand_order() {
    let b = block(
        vec![OpCode::LoadConst(0), OpCode::LoadConst(1), OpCode::Sub, OpCode::Return],
        vec![Value::Int(10), Value::Int(3)],
        vec![],
    );
    assert_eq!(run(&b), Ok(Value::Int(7)));
}

#[test]
fn int_addition_wraps() {
    let b = block(
        vec![OpCode::LoadConst(0), OpCode::LoadConst(1), OpCode::Add, OpCode::Return],
        vec![Value::Int(i64::MAX), Value::Int(1)],
        vec![],
    );
    assert_eq!(run(&b), Ok(Value::Int(i64::MIN)));
}

#[test]
fn int_division_truncates_toward_zero() {
    let b = block(
        vec![OpCode::LoadConst(0), OpCode::LoadConst(1), OpCode::Div, OpCode::Return],
        vec![Value::Int(-7), Value::Int(2)],
        vec![],
    );
    assert_eq!(run(&b), Ok(Value::Int(-3)));
}

#[test]
fn int_remainder_sign_of_dividend() {
    let b = block(
        vec![OpCode::LoadConst(0), OpCode::LoadConst(1), OpCode::Rem, OpCode::Return],
        vec![Value::Int(-7), Value::Int(2)],
        vec![],
    );
    assert_eq!(run(&b), Ok(Value::Int(-1)));
}

#[test]
fn int_division_by_zero_faults() {
    let b = block(
        vec![OpCode::LoadConst(0), OpCode::LoadConst(1), OpCode::Div, OpCode::Return],
        vec![Value::Int(1), Value::Int(0)],
        vec![],
    );
    assert_eq!(run(&b), Err(RuntimeFault::DivisionByZero));
}

#[test]
fn int_remainder_by_zero_faults() {
    let b = block(
        vec![OpCode::LoadConst(0), OpCode::LoadConst(1), OpCode::Rem, OpCode::Return],
        vec![Value::Int(1), Value::Int(0)],
        vec![],
    );
    assert_eq!(run(&b), Err(RuntimeFault::DivisionByZero));
}

#[test]
fn min_divided_by_minus_one_wraps() {
    let b = block(
        vec![OpCode::LoadConst(0), OpCode::LoadConst(1), OpCode::Div, OpCode::Return],
        vec![Value::Int(i64::MIN), Value::Int(-1)],
        vec![],
    );
    assert_eq!(run(&b), Ok(Value::Int(i64::MIN)));
}

#[test]
fn float_addition_matches_hardware() {
    let b = block(
        vec![OpCode::LoadConst(0), OpCode::LoadConst(1), OpCode::Add, OpCode::Return],
        vec![Value::Float(0.1f64.to_bits()), Value::Float(0.2f64.to_bits())],
        vec![],
    );
    assert_eq!(run(&b), Ok(Value::Float((0.1f64 + 0.2f64).to_bits())));
}

#[test]
fn float_division_by_zero_is_infinity() {
    let b = block(
        vec![OpCode::LoadConst(0), OpCode::LoadConst(1), OpCode::Div, OpCode::Return],
        vec![Value::Float(1.0f64.to_bits()), Value::Float(0.0f64.to_bits())],
        vec![],
    );
    assert_eq!(run(&b), Ok(Value::Float(f64::INFINITY.to_bits())));
}

#[test]
fn float_zero_over_zero_is_nan() {
    let b = block(
        vec![OpCode::LoadConst(0), OpCode::LoadConst(1), OpCode::Div, OpCode::Return],
        vec![Value::Float(0.0f64.to_bits()), Value::Float(0.0f64.to_bits())],
        vec![],
    );
    match run(&b) {
        Ok(Value::Float(bits)) => assert!(f64::from_bits(bits).is_nan()),
        other => panic!("expected a NaN float, got {:?}", other),
    }
}

#[test]
fn float_remainder_matches_hardware() {
    let b = block(
        vec![OpCode::LoadConst(0), OpCode::LoadConst(1), OpCode::Rem, OpCode::Return],
        vec![Value::Float(7.5f64.to_bits()), Value::Float(2.0f64.to_bits())],
        vec![],
    );
    assert_eq!(run(&b), Ok(Value::Float((7.5f64 % 2.0f64).to_bits())));
}

#[test]
fn int_promotes_to_float_on_the_left() {
    let b = block(
        vec![OpCode::LoadConst(0), OpCode::LoadConst(1), OpCode::Add, OpCode::Return],
        vec![Value::Int(1), Value::Float(2.5f64.to_bits())],
        vec![],
    );
    assert_eq!(run(&b), Ok(Value::Float(3.5f64.to_bits())));
}

#[test]
fn int_promotes_to_float_on_the_right() {
    let b = block(
        vec![OpCode::LoadConst(0), OpCode::LoadConst(1), OpCode::Sub, OpCode::Return],
        vec![Value::Float(2.5f64.to_bits()), Value::Int(1)],
        vec![],
    );
    assert_eq!(run(&b), Ok(Value::Float(1.5f64.to_bits())));
}

#[test]
fn mixed_comparison_promotes_int() {
    let b = block(
        vec![OpCode::LoadConst(0), OpCode::LoadConst(1), OpCode::Lt, OpCode::Return],
        vec![Value::Int(2), Value::Float(2.5f64.to_bits())],
        vec![],
    );
    assert_eq!(run(&b), Ok(Value::Bool(true)));
}

#[test]
fn comparison_on_bool_is_type_mismatch() {
    let b = block(
        vec![OpCode::LoadConst(0), OpCode::LoadConst(1), OpCode::Lt, OpCode::Return],
        vec![Value::Bool(true), Value::Int(1)],
        vec![],
    );
    assert_eq!(run(&b), Err(RuntimeFault::TypeMismatch));
}

#[test]
fn addition_on_bool_is_type_mismatch() {
    let b = block(
        vec![OpCode::LoadConst(0), OpCode::LoadConst(1), OpCode::Add, OpCode::Return],
        vec![Value::Bool(true), Value::Int(1)],
        vec![],
    );
    assert_eq!(run(&b), Err(RuntimeFault::TypeMismatch));
}

#[test]
fn pop_on_empty_stack_underflows() {
    let b = block(vec![OpCode::Pop], vec![], vec![]);
    assert_eq!(run(&b), Err(RuntimeFault::StackUnderflow));
}

#[test]
fn constant_index_out_of_range_faults() {
    let b = block(vec![OpCode::LoadConst(3), OpCode::Return], vec![], vec![]);
    assert_eq!(run(&b), Err(RuntimeFault::IndexOutOfRange));
}

#[test]
fn local_index_out_of_range_faults() {
    let b = block(
        vec![OpCode::LoadLocal(0), OpCode::Return],
        vec![],
        vec![],
    );
    assert_eq!(run(&b), Err(RuntimeFault::IndexOutOfRange));
}

#[test]
fn call_on_non_callable_faults() {
    let b = block(
        vec![OpCode::LoadConst(0), OpCode::Call(0)],
        vec![Value::Int(1)],
        vec![],
    );
    assert_eq!(run(&b), Err(RuntimeFault::CallOnNonCallable));
}

#[test]
fn runaway_program_is_reported_as_stack_overflow() {
    let b = block(vec![OpCode::Jump(0)], vec![], vec![]);
    assert_eq!(run(&b), Err(RuntimeFault::StackOverflow));
}

#[test]
fn negation_of_int() {
    let b = block(
        vec![OpCode::LoadConst(0), OpCode::Neg, OpCode::Return],
        vec![Value::Int(5)],
        vec![],
    );
    assert_eq!(run(&b), Ok(Value::Int(-5)));
}

#[test]
fn negation_of_min_wraps() {
    let b = block(
        vec![OpCode::LoadConst(0), OpCode::Neg, OpCode::Return],
        vec![Value::Int(i64::MIN)],
        vec![],
    );
    assert_eq!(run(&b), Ok(Value::Int(i64::MIN)));
}

#[test]
fn negation_of_float() {
    let b = block(
        vec![OpCode::LoadConst(0), OpCode::Neg, OpCode::Return],
        vec![Value::Float(2.5f64.to_bits())],
        vec![],
    );
    assert_eq!(run(&b), Ok(Value::Float((-2.5f64).to_bits())));
}

#[test]
fn branch_false_skips_when_popped_value_is_false() {
    // 0: load false; 1: branch +3 to 4; 2: load 1; 3: return; 4: load 2; 5: return
    let b = block(
        vec![
            OpCode::LoadConst(0),
            OpCode::BranchFalse(3),
            OpCode::LoadConst(1),
            OpCode::Return,
            OpCode::LoadConst(2),
            OpCode::Return,
        ],
        vec![Value::Bool(false), Value::Int(1), Value::Int(2)],
        vec![],
    );
    assert_eq!(run(&b), Ok(Value::Int(2)));
}

#[test]
fn branch_true_falls_through_when_popped_value_is_false() {
    let b = block(
        vec![
            OpCode::LoadConst(0),
            OpCode::BranchTrue(3),
            OpCode::LoadConst(1),
            OpCode::Return,
            OpCode::LoadConst(2),
            OpCode::Return,
        ],
        vec![Value::Null, Value::Int(1), Value::Int(2)],
        vec![],
    );
    assert_eq!(run(&b), Ok(Value::Int(1)));
}

#[test]
fn store_and_load_local() {
    let b = block(
        vec![
            OpCode::LoadConst(0),
            OpCode::StoreLocal(0),
            OpCode::LoadLocal(0),
            OpCode::Return,
        ],
        vec![Value::Int(42)],
        vec!["x".to_string()],
    );
    assert_eq!(run(&b), Ok(Value::Int(42)));
}

#[test]
fn print_records_the_value() {
    let b = block(
        vec![OpCode::LoadConst(0), OpCode::Print, OpCode::LoadConst(1), OpCode::Return],
        vec![Value::Int(9), Value::Null],
        vec![],
    );
    let mut vm = VirtualMachine::new();
    assert_eq!(vm.execute(&b), Ok(Value::Null));
    assert_eq!(vm.output, vec![Value::Int(9)]);
}

#[test]
fn heap_ref_equality_is_identity() {
    let b = block(
        vec![OpCode::LoadConst(0), OpCode::LoadConst(1), OpCode::Eq, OpCode::Return],
        vec![Value::HeapRef(0), Value::HeapRef(1)],
        vec![],
    );
    assert_eq!(run(&b), Ok(Value::Bool(false)));
    let b2 = block(
        vec![OpCode::LoadConst(0), OpCode::LoadConst(1), OpCode::Eq, OpCode::Return],
        vec![Value::HeapRef(3), Value::HeapRef(3)],
        vec![],
    );
    assert_eq!(run(&b2), Ok(Value::Bool(true)));
}

#[test]
fn call_runs_callee_and_returns_to_caller() {
    // callee: locals [x]; x + 1 stays under the trailing Null, so the
    // call itself yields Null; the callee prints x + 1 to be observable.
    let callee = block(
        vec![
            OpCode::LoadLocal(0),
            OpCode::LoadConst(0),
            OpCode::Add,
            OpCode::Print,
            OpCode::LoadConst(1),
            OpCode::Return,
        ],
        vec![Value::Int(1), Value::Null],
        vec!["x".to_string()],
    );
    let main = block(
        vec![OpCode::LoadConst(0), OpCode::LoadConst(1), OpCode::Call(1), OpCode::Return],
        vec![Value::HeapRef(0), Value::Int(41)],
        vec![],
    );
    let mut vm = VirtualMachine::new();
    vm.heap.push(HeapObject { marked: false, kind: HeapKind::Function(callee) });
    assert_eq!(vm.execute(&main), Ok(Value::Null));
    assert_eq!(vm.output, vec![Value::Int(42)]);
}

#[test]
fn allocate_object_returns_fresh_reference() {
    let mut vm = VirtualMachine::new();
    let a = vm.allocate_object(HeapKind::Str("one".to_string()));
    let b = vm.allocate_object(HeapKind::Str("one".to_string()));
    assert_eq!(a, Value::HeapRef(0));
    assert_eq!(b, Value::HeapRef(1));
    assert_ne!(a, b);
    assert_eq!(vm.heap.len(), 2);
}

#[test]
fn float_multiplication_matches_hardware() {
    let b = block(
        vec![OpCode::LoadConst(0), OpCode::LoadConst(1), OpCode::Mul, OpCode::Return],
        vec![Value::Float(1.5f64.to_bits()), Value::Float(2.5f64.to_bits())],
        vec![],
    );
    assert_eq!(run(&b), Ok(Value::Float((1.5f64 * 2.5f64).to_bits())));
}

#[test]
fn float_ordering_comparisons() {
    let le = block(
        vec![OpCode::LoadConst(0), OpCode::LoadConst(1), OpCode::LtEq, OpCode::Return],
        vec![Value::Float(2.0f64.to_bits()), Value::Float(2.0f64.to_bits())],
        vec![],
    );
    assert_eq!(run(&le), Ok(Value::Bool(true)));
    let gt = block(
        vec![OpCode::LoadConst(0), OpCode::LoadConst(1), OpCode::Gt, OpCode::Return],
        vec![Value::Float(2.5f64.to_bits()), Value::Int(2)],
        vec![],
    );
    assert_eq!(run(&gt), Ok(Value::Bool(true)));
    let ge = block(
        vec![OpCode::LoadConst(0), OpCode::LoadConst(1), OpCode::GtEq, OpCode::Return],
        vec![Value::Float(1.5f64.to_bits()), Value::Float(2.0f64.to_bits())],
        vec![],
    );
    assert_eq!(run(&ge), Ok(Value::Bool(false)));
}

#[test]
fn nan_comparisons_are_all_false() {
    let nan = f64::NAN.to_bits();
    for op in [OpCode::Lt, OpCode::Gt, OpCode::LtEq, OpCode::GtEq] {
        let b = block(
            vec![OpCode::LoadConst(0), OpCode::LoadConst(1), op, OpCode::Return],
            vec![Value::Float(nan), Value::Float(2.0f64.to_bits())],
            vec![],
        );
        assert_eq!(run(&b), Ok(Value::Bool(false)));
    }
}
