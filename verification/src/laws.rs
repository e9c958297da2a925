//! Laws of the compiler and the machine, stated and proved once for all
//! inputs: what each error means, how equality on references behaves, and
//! that execution is deterministic.

use vstd::prelude::*;

use crate::ast::{Expression, Operand, Statement};
use crate::bytecode::OpCode;
use crate::compiler::{
    find_local, lemma_find_local, sc_declare_local, sc_expression, sc_fetch_local, sc_main,
    sc_patch_jump, sc_statement, sc_stmts, CState,
};
use crate::error::{CompileErrorValue, RuntimeFault};
use crate::value::{eq_value, Value};
use crate::vm::{
    init_state, lemma_run_stable, run, step, FrameView, MachineView, RunResult, StepResult,
    VmState, STEP_BUDGET,
};

verus! {

/// Declaring a name while the table has room fails exactly when some slot
/// of the current compiling scope already bears that name, and then with
/// `RedeclaredLocal`.
pub proof fn lemma_redeclared_local(st: CState, name: Seq<char>)
    requires
        st.locals.len() <= 65535,
    ensures
        (sc_declare_local(st, name) matches Err(e) && e.value
            == CompileErrorValue::RedeclaredLocal) <==> exists|k: int|
            0 <= k < st.locals.len() && st.locals[k] == name,
{
    lemma_find_local(st.locals, name);
    if exists|k: int| 0 <= k < st.locals.len() && st.locals[k] == name {
        let k = choose|k: int| 0 <= k < st.locals.len() && st.locals[k] == name;
        assert(find_local(st.locals, name) is Some);
    }
}

/// A block of two definitions of the same name, the first of which
/// declares it afresh, fails to compile with `RedeclaredLocal`.
pub proof fn lemma_redeclaration_fails(st: CState, d1: crate::ast::Definition, d2: crate::ast::Definition, id1: String, id2: String)
    requires
        d1.right is None,
        *d1.name == Expression::Identifier(id1, d1.position),
        d2.right is None,
        *d2.name == Expression::Identifier(id2, d2.position),
        id1@ == id2@,
        st.locals.len() < 65535,
        forall|k: int| 0 <= k < st.locals.len() ==> st.locals[k] != id1@,
    ensures
        sc_stmts(
            st,
            seq![Statement::Definition(d1), Statement::Definition(d2)],
            0,
        ) matches Err(e) && e.value == CompileErrorValue::RedeclaredLocal,
{
    let stmts = seq![Statement::Definition(d1), Statement::Definition(d2)];
    lemma_find_local(st.locals, id1@);
    match find_local(st.locals, id1@) {
        Some(j) => {
            assert(st.locals[j] != id1@);
        },
        None => {},
    }
    let st1 = CState { locals: st.locals.push(id1@), ..st };
    assert(sc_statement(st, stmts[0]) == Ok::<CState, crate::error::CompileError>(st1));
    lemma_find_local(st1.locals, id2@);
    match find_local(st1.locals, id2@) {
        Some(_) => {},
        None => {
            assert(st1.locals[st.locals.len() as int] == id2@);
        },
    }
    assert(st1.locals.len() <= 65535);
    assert(sc_statement(st1, stmts[1]) matches Err(e) && e.value
        == CompileErrorValue::RedeclaredLocal);
    assert(sc_stmts(st, stmts, 0) == sc_stmts(st1, stmts, 1));
}

/// A whole program of two definitions of one name fails to compile with
/// `RedeclaredLocal`.
pub proof fn theorem_redeclaration_fails(st: CState, stmts: Vec<Statement>, d1: crate::ast::Definition, d2: crate::ast::Definition, id1: String, id2: String)
    requires
        stmts@ == seq![Statement::Definition(d1), Statement::Definition(d2)],
        d1.right is None,
        *d1.name == Expression::Identifier(id1, d1.position),
        d2.right is None,
        *d2.name == Expression::Identifier(id2, d2.position),
        id1@ == id2@,
        st.locals.len() < 65535,
        forall|k: int| 0 <= k < st.locals.len() ==> st.locals[k] != id1@,
    ensures
        sc_main(st, Expression::Block(stmts)) matches Err(e) && e.value
            == CompileErrorValue::RedeclaredLocal,
{
    lemma_redeclaration_fails(st, d1, d2, id1, id2);
    assert(sc_expression(st, Expression::Block(stmts)) == sc_stmts(st, stmts@, 0));
}

/// Fetching a name fails exactly when no slot of the scope chain bears
/// it, and then with `UndeclaredLocal`; otherwise it yields the first
/// slot that does.
pub proof fn lemma_undeclared_local(st: CState, name: Seq<char>)
    ensures
        (sc_fetch_local(st, name) matches Err(e) && e.value == CompileErrorValue::UndeclaredLocal)
            <==> (forall|k: int| 0 <= k < st.locals.len() ==> st.locals[k] != name),
{
    lemma_find_local(st.locals, name);
    if forall|k: int| 0 <= k < st.locals.len() ==> st.locals[k] != name {
        match find_local(st.locals, name) {
            Some(j) => {
                assert(st.locals[j] != name);
            },
            None => {},
        }
    }
}

/// Patching a branch fails exactly when the displacement from the patch
/// site to the current instruction count does not fit a 16-bit signed
/// integer, and then with `BranchTooFar`.
pub proof fn lemma_branch_too_far(st: CState, site: int)
    ensures
        (sc_patch_jump(st, site) is Err) <==> !(-32768 <= st.code.len() - site <= 32767),
        sc_patch_jump(st, site) matches Err(e) ==> e.value == CompileErrorValue::BranchTooFar,
{
}

/// Compiling an empty statement block on a fresh scope yields a block of
/// exactly one `Null` constant load and a `Return`, and touches nothing
/// else.
pub proof fn lemma_empty_block_compiles(st: CState, stmts: Vec<Statement>)
    requires
        stmts@.len() == 0,
        st.code == Seq::<OpCode>::empty(),
        st.consts == Seq::<Value>::empty(),
    ensures
        sc_main(st, Expression::Block(stmts)) matches Ok(pair) && pair.1 == st.heap && pair.0.code
            == seq![OpCode::LoadConst(0u16), OpCode::Return] && pair.0.consts == seq![Value::Null]
            && pair.0.locals == st.locals,
{
    let e = Expression::Block(stmts);
    assert(crate::compiler::sc_stmts(st, stmts@, 0) == Ok::<CState, crate::error::CompileError>(
        st,
    ));
    assert(crate::compiler::sc_expression(st, e) == Ok::<CState, crate::error::CompileError>(st));
    let st1 = (match crate::compiler::sc_emit_load_const(st, Value::Null) {
        Ok(x) => x,
        Err(_) => arbitrary(),
    });
    assert(st1.code =~= seq![OpCode::LoadConst(0u16)]);
    assert(st1.consts =~= seq![Value::Null]);
    match sc_main(st, e) {
        Ok(pair) => {
            assert(pair.0.code =~= seq![OpCode::LoadConst(0u16), OpCode::Return]);
            assert(pair.0.consts =~= seq![Value::Null]);
        },
        Err(_) => {
            assert(false);
        },
    }
}

/// Executing a block of one `Null` constant load and a `Return` on a
/// machine with no saved frames terminates with result `Null`, leaves
/// the operand stack as it was, and prints nothing.
pub proof fn lemma_null_return_executes(m: MachineView, b: crate::bytecode::BlockView)
    requires
        b.code == seq![OpCode::LoadConst(0u16), OpCode::Return],
        b.consts == seq![Value::Null],
        m.call_stack == Seq::<FrameView>::empty(),
    ensures
        run(init_state(m, b), STEP_BUDGET as nat) matches RunResult::Done(v, t) && v == Value::Null
            && t.stack == m.value_stack && t.output == m.output && t.frames == m.call_stack
            && t.heap == m.heap,
{
    let s0 = init_state(m, b);
    assert(step(s0) == StepResult::Next(
        VmState { pc: 1, stack: s0.stack.push(Value::Null), ..s0 },
    ));
    let s1x = VmState { pc: 1, stack: s0.stack.push(Value::Null), ..s0 };
    assert(step(s1x) == StepResult::Done(Value::Null, VmState { stack: m.value_stack, ..s1x }))
        by {
        assert(s1x.stack.last() == Value::Null);
        assert(s1x.stack.drop_last() =~= m.value_stack);
    }
    assert(run(s0, 2) matches RunResult::Done(v, t) && v == Value::Null && t.stack
        == m.value_stack && t.output == m.output && t.frames == m.call_stack && t.heap == m.heap)
        by {
        reveal_with_fuel(run, 3);
    }
    lemma_run_stable(s0, 2, STEP_BUDGET as nat);
}

/// A program that references an identifier never declared in the active
/// scope chain fails to compile with `UndeclaredLocal`.
pub proof fn lemma_undeclared_reference_fails(st: CState, id: String, p: crate::error::TokenPosition)
    requires
        forall|k: int| 0 <= k < st.locals.len() ==> st.locals[k] != id@,
    ensures
        sc_main(st, Expression::Identifier(id, p)) matches Err(e) && e.value
            == CompileErrorValue::UndeclaredLocal,
{
    lemma_undeclared_local(st, id@);
    match find_local(st.locals, id@) {
        Some(j) => {
            lemma_find_local(st.locals, id@);
            assert(st.locals[j] != id@);
        },
        None => {},
    }
}

/// AN EMPTY PROGRAM COMPUTES NULL: compiling an empty statement block on
/// a fresh compiler and executing the result on a machine with no saved
/// frames pushes `Null`, performs no observable side effect, and
/// terminates with result `Null`.
pub proof fn theorem_empty_block(st: CState, stmts: Vec<Statement>, m: MachineView)
    requires
        stmts@.len() == 0,
        st.code == Seq::<OpCode>::empty(),
        st.consts == Seq::<Value>::empty(),
        m.call_stack == Seq::<FrameView>::empty(),
    ensures
        sc_main(st, Expression::Block(stmts)) matches Ok(pair) && pair.1 == st.heap && (run(
            init_state(m, pair.0),
            STEP_BUDGET as nat,
        ) matches RunResult::Done(v, t) && v == Value::Null && t.stack == m.value_stack
            && t.output == m.output && t.heap == m.heap),
{
    lemma_empty_block_compiles(st, stmts);
    match sc_main(st, Expression::Block(stmts)) {
        Ok(pair) => {
            lemma_null_return_executes(m, pair.0);
        },
        Err(_) => {
            assert(false);
        },
    }
}

/// Execution is deterministic and fuel-independent: two runs from one
/// state that both finish — with a result or a fault — finish alike.
pub proof fn lemma_run_deterministic(s: VmState, n: nat, m: nat)
    requires
        !(run(s, n) is Pending),
        !(run(s, m) is Pending),
    ensures
        run(s, n) == run(s, m),
{
    if n <= m {
        lemma_run_stable(s, n, m);
    } else {
        lemma_run_stable(s, m, n);
    }
}

/// Integer division or remainder by the integer zero halts execution
/// with `DivisionByZero`: no value is produced, whatever the dividend.
pub proof fn lemma_division_by_zero_faults(s: VmState)
    requires
        s.pc < s.block.code.len(),
        s.block.code[s.pc as int] == OpCode::Div || s.block.code[s.pc as int] == OpCode::Rem,
        s.stack.len() >= 2,
        s.stack.last() == Value::Int(0),
        s.stack[s.stack.len() - 2] matches Value::Int(_),
    ensures
        step(s) == StepResult::Fault(RuntimeFault::DivisionByZero),
{
}

/// Equality on heap references compares identity: two references are
/// equal exactly when they name the same arena slot, whatever the
/// referenced objects hold. Two separately boxed strings with equal
/// contents are therefore unequal.
pub proof fn lemma_heap_ref_equality(i: usize, j: usize)
    ensures
        eq_value(Value::HeapRef(i), Value::HeapRef(j)) <==> i == j,
{
}


/// Running `n` steps and then `m` more is running `n + m`.
pub proof fn lemma_run_add(s: VmState, n: nat, m: nat)
    requires
        run(s, n) is Pending,
    ensures
        run(s, n + m) == run(
            (match run(s, n) {
                RunResult::Pending(t) => t,
                _ => arbitrary(),
            }),
            m,
        ),
    decreases n,
{
    if n > 0 {
        match step(s) {
            StepResult::Next(t) => {
                lemma_run_add(t, (n - 1) as nat, m);
            },
            _ => {},
        }
    }
}

/// An arithmetic operator of the language.
pub open spec fn arith_operand(o: Operand) -> bool {
    ||| o matches Operand::Mul
    ||| o matches Operand::Div
    ||| o matches Operand::Mod
    ||| o matches Operand::Add
    ||| o matches Operand::Sub
}

/// A program consisting only of literal arithmetic: integer and float
/// literals combined by the five arithmetic operators.
pub open spec fn arith_expr(e: Expression) -> bool
    decreases e,
{
    match e {
        Expression::Int(_) => true,
        Expression::Float(_) => true,
        Expression::Operation(op) => arith_operand(op.op) && arith_expr(*op.left) && arith_expr(
            *op.right,
        ),
        _ => false,
    }
}

/// How many literals such a program holds.
pub open spec fn lit_count(e: Expression) -> nat
    decreases e,
{
    match e {
        Expression::Int(_) => 1,
        Expression::Float(_) => 1,
        Expression::Operation(op) => lit_count(*op.left) + lit_count(*op.right),
        _ => 0,
    }
}

/// The value a literal-arithmetic program evaluates to under the machine's
/// coercion rules, left operand first, or the fault that stops it.
pub open spec fn eval_lit(e: Expression) -> Result<Value, RuntimeFault>
    decreases e,
{
    match e {
        Expression::Int(n) => Ok(Value::Int(n)),
        Expression::Float(b) => Ok(Value::Float(b)),
        Expression::Operation(op) => match (eval_lit(*op.left), eval_lit(*op.right)) {
            (Ok(l), Ok(r)) => crate::vm::eval_arith(
                (match crate::compiler::opcode_of(op.op) {
                    Some(o) => o,
                    None => arbitrary(),
                }),
                l,
                r,
            ),
            (Err(f), _) => Err(f),
            (_, Err(f)) => Err(f),
        },
        _ => arbitrary(),
    }
}

/// A literal-arithmetic program always compiles while the constant pool
/// has room for its literals, into exactly one instruction per literal
/// and per operator, touching neither the locals nor the heap.
pub proof fn lemma_arith_compiles(st: CState, e: Expression)
    requires
        arith_expr(e),
        st.consts.len() + lit_count(e) <= 65536,
    ensures
        sc_expression(st, e) is Ok,
        ({
            let st1 = sc_expression(st, e)->Ok_0;
            &&& lit_count(e) >= 1
            &&& st1.consts.len() == st.consts.len() + lit_count(e)
            &&& st1.code.len() == st.code.len() + 2 * lit_count(e) - 1
            &&& st1.locals == st.locals
            &&& st1.heap == st.heap
            &&& (forall|i: int| 0 <= i < st.code.len() ==> st1.code[i] == st.code[i])
            &&& (forall|i: int| 0 <= i < st.consts.len() ==> st1.consts[i] == st.consts[i])
        }),
    decreases e,
{
    match e {
        Expression::Operation(op) => {
            lemma_arith_compiles(st, *op.left);
            let stl = sc_expression(st, *op.left)->Ok_0;
            lemma_arith_compiles(stl, *op.right);
        },
        _ => {},
    }
}

/// Running the code a literal-arithmetic program compiled to, from its
/// first instruction: the machine takes one step per instruction and ends
/// with the program's value pushed, or reaches the fault evaluation
/// ascribes within that many steps.
pub proof fn lemma_arith_code_runs(st: CState, e: Expression, b: crate::bytecode::BlockView, s: VmState)
    requires
        arith_expr(e),
        st.consts.len() + lit_count(e) <= 65536,
        sc_expression(st, e) is Ok,
        s.block == b,
        s.pc == st.code.len(),
        sc_expression(st, e)->Ok_0.code.len() <= b.code.len(),
        sc_expression(st, e)->Ok_0.consts.len() <= b.consts.len(),
        forall|i: int|
            st.code.len() <= i < sc_expression(st, e)->Ok_0.code.len() ==> b.code[i]
                == sc_expression(st, e)->Ok_0.code[i],
        forall|i: int|
            st.consts.len() <= i < sc_expression(st, e)->Ok_0.consts.len() ==> b.consts[i]
                == sc_expression(st, e)->Ok_0.consts[i],
    ensures
        ({
            let st1 = sc_expression(st, e)->Ok_0;
            match eval_lit(e) {
                Ok(v) => run(s, (2 * lit_count(e) - 1) as nat) == RunResult::Pending(
                    VmState { pc: st1.code.len(), stack: s.stack.push(v), ..s },
                ),
                Err(f) => exists|n: nat|
                    n <= 2 * lit_count(e) - 1 && #[trigger] run(s, n) == RunResult::Fault(f),
            }
        }),
    decreases e,
{
    reveal_with_fuel(run, 3);
    let st1 = sc_expression(st, e)->Ok_0;
    match e {
        Expression::Int(n) => {
            let v = Value::Int(n);
            let c = st.consts.len() as u16;
            assert(b.code[s.pc as int] == OpCode::LoadConst(c));
            assert(b.consts[c as int] == v);
            assert(step(s) == StepResult::Next(
                VmState { pc: st1.code.len(), stack: s.stack.push(v), ..s },
            ));
        },
        Expression::Float(bits) => {
            let v = Value::Float(bits);
            let c = st.consts.len() as u16;
            assert(b.code[s.pc as int] == OpCode::LoadConst(c));
            assert(b.consts[c as int] == v);
            assert(step(s) == StepResult::Next(
                VmState { pc: st1.code.len(), stack: s.stack.push(v), ..s },
            ));
        },
        Expression::Operation(op) => {
            lemma_arith_compiles(st, *op.left);
            let stl = sc_expression(st, *op.left)->Ok_0;
            lemma_arith_compiles(stl, *op.right);
            let str2 = sc_expression(stl, *op.right)->Ok_0;
            let o = (match crate::compiler::opcode_of(op.op) {
                Some(x) => x,
                None => arbitrary(),
            });
            assert(st1 == crate::compiler::sc_emit(str2, o));
            let ll = lit_count(*op.left);
            let lr = lit_count(*op.right);
            lemma_arith_code_runs(st, *op.left, b, s);
            match eval_lit(*op.left) {
                Err(f) => {
                    let n = choose|n: nat|
                        n <= 2 * ll - 1 && #[trigger] run(s, n) == RunResult::Fault(f);
                    assert(run(s, n) == RunResult::Fault(f));
                    assert(eval_lit(e) == Err::<Value, RuntimeFault>(f));
                },
                Ok(vl) => {
                    let sl = VmState { pc: stl.code.len(), stack: s.stack.push(vl), ..s };
                    assert(run(s, (2 * ll - 1) as nat) == RunResult::Pending(sl));
                    lemma_arith_code_runs(stl, *op.right, b, sl);
                    match eval_lit(*op.right) {
                        Err(f) => {
                            let m = choose|m: nat|
                                m <= 2 * lr - 1 && #[trigger] run(sl, m) == RunResult::Fault(f);
                            lemma_run_add(s, (2 * ll - 1) as nat, m);
                            assert(run(s, (2 * ll - 1 + m) as nat) == RunResult::Fault(f));
                            assert(eval_lit(e) == Err::<Value, RuntimeFault>(f));
                        },
                        Ok(vr) => {
                            let sr = VmState {
                                pc: str2.code.len(),
                                stack: sl.stack.push(vr),
                                ..sl
                            };
                            assert(run(sl, (2 * lr - 1) as nat) == RunResult::Pending(sr));
                            lemma_run_add(s, (2 * ll - 1) as nat, (2 * lr - 1) as nat);
                            assert(run(s, (2 * ll - 1 + (2 * lr - 1)) as nat)
                                == RunResult::Pending(sr));
                            assert(b.code[sr.pc as int] == o);
                            assert(sr.stack.len() >= 2);
                            assert(sr.stack.last() == vr);
                            assert(sr.stack[sr.stack.len() - 2] == vl);
                            match crate::vm::eval_arith(o, vl, vr) {
                                Ok(v) => {
                                    let sf = VmState {
                                        pc: st1.code.len(),
                                        stack: s.stack.push(v),
                                        ..s
                                    };
                                    assert(sr.stack.drop_last().drop_last().push(v) =~= s.stack
                                        .push(v));
                                    assert(step(sr) == StepResult::Next(sf)) by {
                                        assert(crate::vm::step_arith(sr, o)
                                            == StepResult::Next(sf));
                                    }
                                    assert(run(sr, 1) == RunResult::Pending(sf));
                                    lemma_run_add(s, (2 * ll - 1 + (2 * lr - 1)) as nat, 1);
                                    assert(run(s, (2 * lit_count(e) - 1) as nat)
                                        == RunResult::Pending(sf));
                                },
                                Err(f) => {
                                    assert(step(sr) == StepResult::Fault(f)) by {
                                        assert(crate::vm::step_arith(sr, o)
                                            == StepResult::Fault(f));
                                    }
                                    assert(run(sr, 1) == RunResult::Fault(f));
                                    lemma_run_add(s, (2 * ll - 1 + (2 * lr - 1)) as nat, 1);
                                    assert(run(s, (2 * lit_count(e) - 1) as nat)
                                        == RunResult::Fault(f));
                                },
                            }
                        },
                    }
                },
            }
        },
        _ => {},
    }
}

/// LITERAL ARITHMETIC IS COMPUTED FAITHFULLY: a program consisting only
/// of literal arithmetic compiles, and executing the compiled block on a
/// fresh machine ends with exactly the value the coercion rules ascribe
/// to the program on the operand stack (the block's terminal result being
/// its final `Null`), prints nothing — or halts with precisely the fault,
/// division by zero, that evaluation ascribes.
pub proof fn theorem_literal_arithmetic(st: CState, e: Expression, m: MachineView)
    requires
        arith_expr(e),
        lit_count(e) <= 65535,
        st.code == Seq::<OpCode>::empty(),
        st.consts == Seq::<Value>::empty(),
        m.value_stack == Seq::<Value>::empty(),
        m.call_stack == Seq::<FrameView>::empty(),
    ensures
        sc_main(st, e) is Ok,
        ({
            let b = sc_main(st, e)->Ok_0.0;
            match eval_lit(e) {
                Ok(v) => run(init_state(m, b), STEP_BUDGET as nat) matches RunResult::Done(rv, t)
                    && rv == Value::Null && t.stack == seq![v] && t.output == m.output,
                Err(f) => run(init_state(m, b), STEP_BUDGET as nat) == RunResult::Fault(f),
            }
        }),
{
    reveal_with_fuel(run, 3);
    lemma_arith_compiles(st, e);
    let st1 = sc_expression(st, e)->Ok_0;
    let l = lit_count(e);
    assert(st1.consts.len() == l);
    let st2 = crate::compiler::sc_emit_load_const(st1, Value::Null)->Ok_0;
    let st3 = crate::compiler::sc_emit(st2, OpCode::Return);
    let b = sc_main(st, e)->Ok_0.0;
    assert(b.code == st3.code && b.consts == st3.consts);
    let s0 = init_state(m, b);
    lemma_arith_code_runs(st, e, b, s0);
    match eval_lit(e) {
        Ok(v) => {
            let s1 = VmState { pc: st1.code.len(), stack: s0.stack.push(v), ..s0 };
            assert(run(s0, (2 * l - 1) as nat) == RunResult::Pending(s1));
            assert(b.code[s1.pc as int] == OpCode::LoadConst(l as u16));
            assert(b.consts[l as int] == Value::Null);
            let s2 = VmState { pc: st1.code.len() + 1, stack: s1.stack.push(Value::Null), ..s1 };
            assert(step(s1) == StepResult::Next(s2));
            assert(b.code[s2.pc as int] == OpCode::Return);
            assert(s2.stack.last() == Value::Null);
            let t = VmState { stack: s2.stack.drop_last(), ..s2 };
            assert(step(s2) == StepResult::Done(Value::Null, t));
            assert(run(s1, 2) == RunResult::Done(Value::Null, t));
            lemma_run_add(s0, (2 * l - 1) as nat, 2);
            assert(run(s0, (2 * l + 1) as nat) == RunResult::Done(Value::Null, t));
            lemma_run_stable(s0, (2 * l + 1) as nat, STEP_BUDGET as nat);
            assert(t.stack =~= seq![v]);
        },
        Err(f) => {
            let n = choose|n: nat|
                n <= 2 * l - 1 && #[trigger] run(s0, n) == RunResult::Fault(f);
            lemma_run_stable(s0, n, STEP_BUDGET as nat);
        },
    }
}

} // verus!
