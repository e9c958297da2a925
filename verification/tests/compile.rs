use sloth::ast::{Arm, Assignment, Call, Definition, Expression, Function, Operand, Operation,
                 Statement};
use sloth::compiler::Compiler;
use sloth::error::{CompileErrorValue, RuntimeFault, TokenPosition};
use sloth::value::{HeapKind, Value};
use sloth::vm::VirtualMachine;

fn pos() -> TokenPosition {
    TokenPosition { line: 1, col: 1 }
}

fn ident(name: &str) -> Expression {
    Expression::Identifier(name.to_string(), pos())
}

fn binop(left: Expression, op: Operand, right: Expression) -> Expression {
    Expression::Operation(Operation {
        left: Box::new(left),
        op,
        right: Box::new(right),
        position: pos(),
    })
}

fn define(name: &str, value: Expression) -> Statement {
    Statement::Definition(Definition {
        t: None,
        name: Box::new(ident(name)),
        right: Some(Box::new(value)),
        position: pos(),
    })
}

fn declare(name: &str) -> Statement {
    Statement::Definition(Definition {
        t: None,
        name: Box::new(ident(name)),
        right: None,
        position: pos(),
    })
}

fn print_stmt(e: Expression) -> Statement {
    Statement::Expression(Box::new(Expression::Print(Box::new(e))))
}

fn run_program(program: Expression) -> (Result<Value, RuntimeFault>, Vec<Value>, Vec<sloth::value::HeapObject>) {
    let mut compiler = Compiler::new(VirtualMachine::new());
    let compiled = compiler.compile(&program).expect("program should compile");
    let mut vm = compiler.into_vm();
    let result = vm.execute(&compiled);
    (result, vm.output, vm.heap)
}

fn failed_compile(program: Expression) -> CompileErrorValue {
    let mut compiler = Compiler::new(VirtualMachine::new());
    match compiler.compile(&program) {
        Ok(_) => panic!("program should not compile"),
        Err(e) => e.value,
    }
}

#[test]
fn empty_block_runs_to_null_with_no_output() {
    let (result, output, heap) = run_program(Expression::Block(vec![]));
    assert_eq!(result, Ok(Value::Null));
    assert!(output.is_empty());
    assert!(heap.is_empty());
}

#[test]
fn literal_int_addition_evaluates() {
    let program = Expression::Block(vec![print_stmt(binop(
        Expression::Int(1),
        Operand::Add,
        Expression::Int(2),
    ))]);
    let (result, output, _) = run_program(program);
    assert_eq!(result, Ok(Value::Null));
    assert_eq!(output, vec![Value::Int(3)]);
}

#[test]
fn literal_float_int_addition_promotes() {
    let program = Expression::Block(vec![print_stmt(binop(
        Expression::Float(1.0f64.to_bits()),
        Operand::Add,
        Expression::Int(2),
    ))]);
    let (_, output, _) = run_program(program);
    assert_eq!(output, vec![Value::Float(3.0f64.to_bits())]);
}

#[test]
fn nested_literal_arithmetic_evaluates() {
    // (1 + 2) * 3 - 4 yields 5
    let sum = binop(Expression::Int(1), Operand::Add, Expression::Int(2));
    let product = binop(sum, Operand::Mul, Expression::Int(3));
    let difference = binop(product, Operand::Sub, Expression::Int(4));
    let (_, output, _) = run_program(Expression::Block(vec![print_stmt(difference)]));
    assert_eq!(output, vec![Value::Int(5)]);
}

#[test]
fn division_by_zero_program_faults() {
    let program = Expression::Block(vec![print_stmt(binop(
        Expression::Int(1),
        Operand::Div,
        Expression::Int(0),
    ))]);
    let (result, output, _) = run_program(program);
    assert_eq!(result, Err(RuntimeFault::DivisionByZero));
    assert!(output.is_empty());
}

#[test]
fn remainder_by_zero_program_faults() {
    let program = Expression::Block(vec![print_stmt(binop(
        Expression::Int(5),
        Operand::Mod,
        Expression::Int(0),
    ))]);
    let (result, _, _) = run_program(program);
    assert_eq!(result, Err(RuntimeFault::DivisionByZero));
}

#[test]
fn comparison_chain_compiles() {
    let program = Expression::Block(vec![print_stmt(binop(
        Expression::Int(1),
        Operand::Lt,
        Expression::Int(2),
    ))]);
    let (_, output, _) = run_program(program);
    assert_eq!(output, vec![Value::Bool(true)]);
}

#[test]
fn less_or_equal_compiles_to_its_own_opcode() {
    let program = Expression::Block(vec![
        print_stmt(binop(Expression::Int(2), Operand::LtEqual, Expression::Int(2))),
        print_stmt(binop(Expression::Int(3), Operand::LtEqual, Expression::Int(2))),
    ]);
    let (_, output, _) = run_program(program);
    assert_eq!(output, vec![Value::Bool(true), Value::Bool(false)]);
}

#[test]
fn pow_compiles_to_nothing_and_leaves_operands() {
    // `^` has no opcode: both operand values stay on the stack and the
    // statement's Pop discards only the topmost.
    let program = Expression::Block(vec![Statement::Expression(Box::new(binop(
        Expression::Int(2),
        Operand::Pow,
        Expression::Int(3),
    )))]);
    let (result, _, _) = run_program(program);
    assert_eq!(result, Ok(Value::Null));
}

#[test]
fn defined_local_reads_back() {
    let program = Expression::Block(vec![
        define("x", Expression::Int(5)),
        print_stmt(ident("x")),
    ]);
    let (_, output, _) = run_program(program);
    assert_eq!(output, vec![Value::Int(5)]);
}

#[test]
fn declared_local_defaults_to_null() {
    let program = Expression::Block(vec![declare("x"), print_stmt(ident("x"))]);
    let (_, output, _) = run_program(program);
    assert_eq!(output, vec![Value::Null]);
}

#[test]
fn assignment_overwrites_local() {
    let program = Expression::Block(vec![
        define("x", Expression::Int(1)),
        Statement::Assignment(Assignment {
            left: Box::new(ident("x")),
            right: Box::new(Expression::Int(2)),
            position: pos(),
        }),
        print_stmt(ident("x")),
    ]);
    let (_, output, _) = run_program(program);
    assert_eq!(output, vec![Value::Int(2)]);
}

#[test]
fn redeclared_local_fails_compile() {
    let program = Expression::Block(vec![declare("x"), declare("x")]);
    assert_eq!(failed_compile(program), CompileErrorValue::RedeclaredLocal);
}

#[test]
fn redeclared_local_with_initializers_fails_compile() {
    let program = Expression::Block(vec![
        define("x", Expression::Int(1)),
        define("x", Expression::Int(2)),
    ]);
    assert_eq!(failed_compile(program), CompileErrorValue::RedeclaredLocal);
}

#[test]
fn undeclared_identifier_fails_compile() {
    let program = Expression::Block(vec![print_stmt(ident("ghostly"))]);
    assert_eq!(failed_compile(program), CompileErrorValue::UndeclaredLocal);
}

#[test]
fn assignment_to_undeclared_fails_compile() {
    let program = Expression::Block(vec![Statement::Assignment(Assignment {
        left: Box::new(ident("y")),
        right: Box::new(Expression::Int(2)),
        position: pos(),
    })]);
    assert_eq!(failed_compile(program), CompileErrorValue::UndeclaredLocal);
}

#[test]
fn definition_initializer_cannot_see_its_own_name() {
    // x := x + 1 compiles the initializer before declaring x.
    let program = Expression::Block(vec![define(
        "x",
        binop(ident("x"), Operand::Add, Expression::Int(1)),
    )]);
    assert_eq!(failed_compile(program), CompileErrorValue::UndeclaredLocal);
}

#[test]
fn constant_pool_overflow_fails_compile() {
    let mut stmts = Vec::new();
    for _ in 0..65537 {
        stmts.push(Statement::Expression(Box::new(Expression::Int(1))));
    }
    assert_eq!(
        failed_compile(Expression::Block(stmts)),
        CompileErrorValue::ConstantOverflow
    );
}

#[test]
fn string_literal_boxes_onto_heap() {
    let program = Expression::Block(vec![print_stmt(Expression::Str("hey".to_string()))]);
    let (result, output, heap) = run_program(program);
    assert_eq!(result, Ok(Value::Null));
    assert_eq!(output, vec![Value::HeapRef(0)]);
    match &heap[0].kind {
        HeapKind::Str(s) => assert_eq!(s, "hey"),
        other => panic!("expected a boxed string, got {:?}", other),
    }
}

#[test]
fn equal_strings_in_distinct_boxes_are_not_equal() {
    let program = Expression::Block(vec![print_stmt(binop(
        Expression::Str("a".to_string()),
        Operand::Equal,
        Expression::Str("a".to_string()),
    ))]);
    let (_, output, _) = run_program(program);
    assert_eq!(output, vec![Value::Bool(false)]);
}

#[test]
fn one_box_compared_to_itself_is_equal() {
    let program = Expression::Block(vec![
        define("a", Expression::Str("a".to_string())),
        print_stmt(binop(ident("a"), Operand::Equal, ident("a"))),
    ]);
    let (_, output, _) = run_program(program);
    assert_eq!(output, vec![Value::Bool(true)]);
}

fn one_arm_function(param: &str, body: Expression) -> Expression {
    Expression::Function(Function {
        arms: vec![Expression::Arm(Arm {
            params: vec![ident(param)],
            body: Box::new(body),
            position: pos(),
        })],
        position: pos(),
    })
}

fn call(callee: Expression, args: Vec<Expression>) -> Expression {
    Expression::Call(Call { callee: Box::new(callee), args, position: pos() })
}

#[test]
fn calling_a_function_twice_is_deterministic() {
    // f := { |x| print x + 1 }; f(41); f(41)
    let body = Expression::Print(Box::new(binop(ident("x"), Operand::Add, Expression::Int(1))));
    let program = Expression::Block(vec![
        define("f", one_arm_function("x", body)),
        Statement::Expression(Box::new(call(ident("f"), vec![Expression::Int(41)]))),
        Statement::Expression(Box::new(call(ident("f"), vec![Expression::Int(41)]))),
    ]);
    let (result, output, _) = run_program(program);
    assert_eq!(result, Ok(Value::Null));
    // Each call prints the argument plus one; the two calls agree.
    assert_eq!(output, vec![Value::Int(42), Value::Int(42)]);
    assert_eq!(output[0], output[1]);
}

#[test]
fn function_argument_reaches_parameter_slot() {
    let body = Expression::Print(Box::new(binop(ident("x"), Operand::Mul, ident("x"))));
    let program = Expression::Block(vec![
        define("f", one_arm_function("x", body)),
        Statement::Expression(Box::new(call(ident("f"), vec![Expression::Int(6)]))),
    ]);
    let (_, output, _) = run_program(program);
    assert_eq!(output[0], Value::Int(36));
}

#[test]
fn arm_value_is_a_callable_heap_object() {
    let body = ident("x");
    let program = Expression::Block(vec![define("f", one_arm_function("x", body))]);
    let (result, _, heap) = run_program(program);
    assert_eq!(result, Ok(Value::Null));
    assert_eq!(heap.len(), 1);
    assert!(matches!(heap[0].kind, HeapKind::Function(_)));
}

#[test]
fn compiler_can_be_reused_after_a_compile() {
    let mut compiler = Compiler::new(VirtualMachine::new());
    let one = compiler
        .compile(&Expression::Block(vec![print_stmt(Expression::Int(1))]))
        .expect("first program should compile");
    let two = compiler
        .compile(&Expression::Block(vec![print_stmt(Expression::Int(2))]))
        .expect("second program should compile");
    let mut vm = compiler.into_vm();
    assert_eq!(vm.execute(&one), Ok(Value::Null));
    assert_eq!(vm.execute(&two), Ok(Value::Null));
    assert_eq!(vm.output, vec![Value::Int(1), Value::Int(2)]);
}

#[test]
fn bare_arithmetic_expression_leaves_its_value_on_the_stack() {
    // Compiling the expression `1 + 2` itself (not wrapped in a block
    // statement) leaves its value on the operand stack; the block's own
    // result is its final Null.
    let program = binop(Expression::Int(1), Operand::Add, Expression::Int(2));
    let mut compiler = Compiler::new(VirtualMachine::new());
    let compiled = compiler.compile(&program).expect("program should compile");
    let mut vm = compiler.into_vm();
    assert_eq!(vm.execute(&compiled), Ok(Value::Null));
    assert_eq!(vm.value_stack, vec![Value::Int(3)]);
}

#[test]
fn bare_float_arithmetic_expression_evaluates_by_coercion() {
    let program = binop(
        Expression::Float(1.0f64.to_bits()),
        Operand::Add,
        Expression::Int(2),
    );
    let mut compiler = Compiler::new(VirtualMachine::new());
    let compiled = compiler.compile(&program).expect("program should compile");
    let mut vm = compiler.into_vm();
    assert_eq!(vm.execute(&compiled), Ok(Value::Null));
    assert_eq!(vm.value_stack, vec![Value::Float(3.0f64.to_bits())]);
}
