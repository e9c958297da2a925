//! The compiler: walks a validated AST and emits a `CompiledBlock` per
//! function scope, allocating local slots, pooling constants, and patching
//! jump targets.
//!
//! The spec functions `sc_*` are the mathematical account of compilation;
//! each executable method is proved to return exactly what its spec
//! function says. Argument counts travel solely as the `Call` operand;
//! nothing is pre-pushed on the machine's operand stack at compile time.

use vstd::prelude::*;

use crate::ast::{Expression, Operand, Statement};
use crate::ast::{expr_wf, stmt_wf};
use crate::bytecode::{BlockView, CompiledBlock, OpCode};
use crate::error::{CompileError, CompileErrorValue};
use crate::value::{HeapKind, HeapKindView, ObjectView, Value};
use crate::vm::VirtualMachine;

verus! {

/// The local table a vector of names stands for.
pub open spec fn names_view(v: Seq<String>) -> Seq<Seq<char>> {
    v.map_values(|s: String| s@)
}

/// Mathematical state of one compiling scope: the local table (slot index
/// to name), the code and constant pool emitted so far, and the heap that
/// strings and compiled arms are boxed into.
#[verifier::ext_equal]
pub ghost struct CState {
    pub locals: Seq<Seq<char>>,
    pub code: Seq<OpCode>,
    pub consts: Seq<Value>,
    pub heap: Seq<ObjectView>,
}

impl CState {
    /// The local table never outgrows the 16-bit slot index space.
    pub open spec fn wf(self) -> bool {
        self.locals.len() <= 65536
    }
}

/// The slot of the first occurrence of `name` in the local table.
pub open spec fn find_local(locals: Seq<Seq<char>>, name: Seq<char>) -> Option<int>
    decreases locals.len(),
{
    if locals.len() == 0 {
        None
    } else if locals[0] == name {
        Some(0)
    } else {
        match find_local(locals.drop_first(), name) {
            Some(j) => Some(j + 1),
            None => None,
        }
    }
}

/// `find_local` yields the first slot bearing the name, or reports that no
/// slot bears it.
pub proof fn lemma_find_local(locals: Seq<Seq<char>>, name: Seq<char>)
    ensures
        match find_local(locals, name) {
            Some(j) => 0 <= j < locals.len() && locals[j] == name && forall|k: int|
                0 <= k < j ==> #[trigger] locals[k] != name,
            None => forall|k: int| 0 <= k < locals.len() ==> #[trigger] locals[k] != name,
        },
    decreases locals.len(),
{
    if locals.len() > 0 && locals[0] != name {
        let rest = locals.drop_first();
        lemma_find_local(rest, name);
        assert(forall|k: int| 1 <= k < locals.len() ==> #[trigger] locals[k] == rest[k - 1]);
        match find_local(rest, name) {
            Some(j) => {
                assert forall|k: int| 0 <= k < j + 1 implies #[trigger] locals[k] != name by {
                    if k >= 1 {
                        assert(rest[k - 1] != name);
                    }
                }
            },
            None => {
                assert forall|k: int| 0 <= k < locals.len() implies #[trigger] locals[k]
                    != name by {
                    if k >= 1 {
                        assert(rest[k - 1] != name);
                    }
                }
            },
        }
    }
}

/// What `declare_local` does: hand the next free slot to the name, unless
/// the table is full (`LocalOverflow`) or the name already has a slot in
/// this scope (`RedeclaredLocal`).
pub open spec fn sc_declare_local(st: CState, name: Seq<char>) -> Result<(CState, u16), CompileError> {
    if st.locals.len() > 65535 {
        Err(CompileError { value: CompileErrorValue::LocalOverflow, position: None })
    } else if find_local(st.locals, name) is Some {
        Err(CompileError { value: CompileErrorValue::RedeclaredLocal, position: None })
    } else {
        Ok((CState { locals: st.locals.push(name), ..st }, st.locals.len() as u16))
    }
}

/// What `fetch_local` does: the slot of the name, or `UndeclaredLocal` if
/// no slot in the scope chain bears it.
pub open spec fn sc_fetch_local(st: CState, name: Seq<char>) -> Result<u16, CompileError> {
    match find_local(st.locals, name) {
        Some(j) => Ok(j as u16),
        None => Err(CompileError { value: CompileErrorValue::UndeclaredLocal, position: None }),
    }
}

/// Appending one instruction.
pub open spec fn sc_emit(st: CState, op: OpCode) -> CState {
    CState { code: st.code.push(op), ..st }
}

/// What `emit_load_const` does: append the value to the pool and emit
/// `LoadConst` of its slot, unless the pool is full (`ConstantOverflow`).
pub open spec fn sc_emit_load_const(st: CState, v: Value) -> Result<CState, CompileError> {
    if st.consts.len() > 65535 {
        Err(CompileError { value: CompileErrorValue::ConstantOverflow, position: None })
    } else {
        Ok(
            CState {
                consts: st.consts.push(v),
                code: st.code.push(OpCode::LoadConst(st.consts.len() as u16)),
                ..st
            },
        )
    }
}

/// What `patch_jump` does: overwrite the placeholder at `site` with the
/// displacement from the site to the current instruction count, unless
/// that does not fit a 16-bit signed integer (`BranchTooFar`).
pub open spec fn sc_patch_jump(st: CState, site: int) -> Result<CState, CompileError> {
    let diff = st.code.len() - site;
    if diff > 32767 || diff < -32768 {
        Err(CompileError { value: CompileErrorValue::BranchTooFar, position: None })
    } else {
        let op = match st.code[site] {
            OpCode::Jump(_) => OpCode::Jump(diff as i16),
            OpCode::BranchTrue(_) => OpCode::BranchTrue(diff as i16),
            OpCode::BranchFalse(_) => OpCode::BranchFalse(diff as i16),
            _ => arbitrary(),
        };
        Ok(CState { code: st.code.update(site, op), ..st })
    }
}

/// The local name an arm parameter binds: its identifier, or the empty
/// name for a parameter that is no identifier.
pub open spec fn arm_param_name(p: Expression) -> Seq<char> {
    match p {
        Expression::Identifier(id, _) => id@,
        _ => Seq::<char>::empty(),
    }
}

/// Writing a name into slot `i` of a table that has at least `i` slots.
pub open spec fn set_slot(table: Seq<Seq<char>>, i: int, name: Seq<char>) -> Seq<Seq<char>> {
    if i < table.len() {
        table.update(i, name)
    } else {
        table.push(name)
    }
}

/// The derived local table of an arm: the enclosing scope's table with
/// slots `i..` overwritten, one per parameter in order. Parameters take
/// the lowest slots, so they shadow what the enclosing scope kept there;
/// enclosing bindings at higher slots stay visible.
pub open spec fn arm_locals(table: Seq<Seq<char>>, params: Seq<Expression>, i: int) -> Seq<
    Seq<char>,
>
    decreases params.len() - i,
{
    if i < 0 || i >= params.len() {
        table
    } else {
        arm_locals(set_slot(table, i, arm_param_name(params[i])), params, i + 1)
    }
}

/// The opcode a binary operator compiles to. `Pow` has no opcode in this
/// design: compiling it emits nothing, an acknowledged gap.
pub open spec fn opcode_of(op: Operand) -> Option<OpCode> {
    match op {
        Operand::Pow => None,
        Operand::Mul => Some(OpCode::Mul),
        Operand::Div => Some(OpCode::Div),
        Operand::Mod => Some(OpCode::Rem),
        Operand::Add => Some(OpCode::Add),
        Operand::Sub => Some(OpCode::Sub),
        Operand::Equal => Some(OpCode::Eq),
        Operand::NEqual => Some(OpCode::NotEq),
        Operand::Lt => Some(OpCode::Lt),
        Operand::Gt => Some(OpCode::Gt),
        Operand::LtEqual => Some(OpCode::LtEq),
        Operand::GtEqual => Some(OpCode::GtEq),
    }
}

/// What compiling one expression does to the scope state.
pub open spec fn sc_expression(st: CState, e: Expression) -> Result<CState, CompileError>
    decreases e, 0int,
{
    match e {
        Expression::Int(n) => sc_emit_load_const(st, Value::Int(n)),
        Expression::Float(bits) => sc_emit_load_const(st, Value::Float(bits)),
        Expression::Bool(b) => sc_emit_load_const(st, Value::Bool(b)),
        Expression::Char(c) => sc_emit_load_const(st, Value::Char(c)),
        Expression::Str(s) => {
            let href = Value::HeapRef(st.heap.len() as usize);
            let st1 = CState {
                heap: st.heap.push(ObjectView { marked: false, kind: HeapKindView::Str(s@) }),
                ..st
            };
            sc_emit_load_const(st1, href)
        },
        Expression::Identifier(id, _) => match sc_fetch_local(st, id@) {
            Ok(i) => Ok(sc_emit(st, OpCode::LoadLocal(i))),
            Err(er) => Err(er),
        },
        Expression::Block(stmts) => sc_stmts(st, stmts@, 0),
        Expression::Print(inner) => match sc_expression(st, *inner) {
            Ok(st1) => sc_emit_load_const(sc_emit(st1, OpCode::Print), Value::Null),
            Err(er) => Err(er),
        },
        Expression::Arm(a) => {
            // The guard is a structural placeholder, an always-true
            // comparison of two fresh zero constants; arm selection by
            // pattern is a gap left open by this design.
            match sc_emit_load_const(st, Value::Int(0)) {
                Err(er) => Err(er),
                Ok(st1) => match sc_emit_load_const(st1, Value::Int(0)) {
                    Err(er) => Err(er),
                    Ok(st2) => {
                        let st3 = sc_emit(st2, OpCode::Eq);
                        let site = st3.code.len() as int;
                        let st4 = sc_emit(st3, OpCode::BranchFalse(0));
                        let nested = CState {
                            locals: arm_locals(st4.locals, a.params@, 0),
                            code: Seq::<OpCode>::empty(),
                            consts: Seq::<Value>::empty(),
                            heap: st4.heap,
                        };
                        match sc_main(nested, *a.body) {
                            Err(er) => Err(er),
                            Ok((block, heap1)) => {
                                let href = Value::HeapRef(heap1.len() as usize);
                                let st5 = CState {
                                    heap: heap1.push(
                                        ObjectView {
                                            marked: false,
                                            kind: HeapKindView::Function(block),
                                        },
                                    ),
                                    ..st4
                                };
                                match sc_emit_load_const(st5, href) {
                                    Err(er) => Err(er),
                                    Ok(st6) => sc_patch_jump(st6, site),
                                }
                            },
                        }
                    },
                },
            }
        },
        Expression::Function(f) => sc_exprs(st, f.arms@, 0),
        Expression::Operation(op) => match sc_expression(st, *op.left) {
            Err(er) => Err(er),
            Ok(st1) => match sc_expression(st1, *op.right) {
                Err(er) => Err(er),
                Ok(st2) => match opcode_of(op.op) {
                    Some(o) => Ok(sc_emit(st2, o)),
                    None => Ok(st2),
                },
            },
        },
        Expression::Call(c) => match sc_expression(st, *c.callee) {
            Err(er) => Err(er),
            Ok(st1) => match sc_exprs(st1, c.args@, 0) {
                Err(er) => Err(er),
                Ok(st2) => Ok(sc_emit(st2, OpCode::Call(c.args@.len() as u8))),
            },
        },
        _ => Ok(st),
    }
}

/// What compiling the statements from index `i` on does.
pub open spec fn sc_stmts(st: CState, stmts: Seq<Statement>, i: int) -> Result<
    CState,
    CompileError,
>
    decreases stmts, stmts.len() - i,
{
    if i < 0 || i >= stmts.len() {
        Ok(st)
    } else {
        match sc_statement(st, stmts[i]) {
            Ok(st1) => sc_stmts(st1, stmts, i + 1),
            Err(er) => Err(er),
        }
    }
}

/// What compiling the expressions from index `i` on does.
pub open spec fn sc_exprs(st: CState, es: Seq<Expression>, i: int) -> Result<CState, CompileError>
    decreases es, es.len() - i,
{
    if i < 0 || i >= es.len() {
        Ok(st)
    } else {
        match sc_expression(st, es[i]) {
            Ok(st1) => sc_exprs(st1, es, i + 1),
            Err(er) => Err(er),
        }
    }
}

/// What compiling one statement does to the scope state.
pub open spec fn sc_statement(st: CState, s: Statement) -> Result<CState, CompileError>
    decreases s, 1int,
{
    match s {
        Statement::Definition(d) => {
            let name = match *d.name {
                Expression::Identifier(id, _) => id@,
                _ => arbitrary(),
            };
            match d.right {
                Some(e) => match sc_expression(st, *e) {
                    Err(er) => Err(er),
                    Ok(st1) => match sc_declare_local(st1, name) {
                        Err(er) => Err(er),
                        Ok((st2, i)) => Ok(sc_emit(st2, OpCode::StoreLocal(i))),
                    },
                },
                None => match sc_declare_local(st, name) {
                    Err(er) => Err(er),
                    Ok((st1, _)) => Ok(st1),
                },
            }
        },
        Statement::Assignment(a) => {
            let name = match *a.left {
                Expression::Identifier(id, _) => id@,
                _ => arbitrary(),
            };
            match sc_expression(st, *a.right) {
                Err(er) => Err(er),
                Ok(st1) => match sc_fetch_local(st1, name) {
                    Err(er) => Err(er),
                    Ok(i) => Ok(sc_emit(st1, OpCode::StoreLocal(i))),
                },
            }
        },
        Statement::Expression(e) => match sc_expression(st, *e) {
            Err(er) => Err(er),
            Ok(st1) => Ok(sc_emit(st1, OpCode::Pop)),
        },
    }
}

/// What compiling a whole scope does: compile the body, emit a final
/// `Null` constant and `Return`, and package the block. The block's local
/// table is the scope's table, slot by slot.
pub open spec fn sc_main(st: CState, e: Expression) -> Result<
    (BlockView, Seq<ObjectView>),
    CompileError,
>
    decreases e, 1int,
{
    match sc_expression(st, e) {
        Err(er) => Err(er),
        Ok(st1) => match sc_emit_load_const(st1, Value::Null) {
            Err(er) => Err(er),
            Ok(st2) => {
                let st3 = sc_emit(st2, OpCode::Return);
                Ok((BlockView { code: st3.code, consts: st3.consts, locals: st3.locals }, st3.heap))
            },
        },
    }
}


/// A branch placeholder's instruction index, awaiting its displacement.
#[derive(Clone, Copy)]
struct JumpPatch {
    site: usize,
}

/// The compiler for one scope. It owns the virtual machine whose heap the
/// compiled code's boxed strings and callables live in; `into_vm` hands
/// the machine back once compilation is done.
pub struct Compiler {
    locals: Vec<String>,
    code: Vec<OpCode>,
    consts: Vec<Value>,
    vm: VirtualMachine,
}

impl Compiler {
    /// The scope state this compiler stands at.
    pub closed spec fn cstate(self) -> CState {
        CState {
            locals: names_view(self.locals@),
            code: self.code@,
            consts: self.consts@,
            heap: self.vm@.heap,
        }
    }

    /// The machine parts compilation never disturbs: the operand stack,
    /// the call stack, and the output record.
    pub closed spec fn vm_rest(self) -> (Seq<Value>, Seq<crate::vm::FrameView>, Seq<Value>) {
        (self.vm@.value_stack, self.vm@.call_stack, self.vm@.output)
    }

    /// A compiler with empty tables, boxing into `vm`'s heap.
    pub fn new(vm: VirtualMachine) -> (c: Compiler)
        ensures
            c.cstate() == (CState {
                locals: Seq::<Seq<char>>::empty(),
                code: Seq::<OpCode>::empty(),
                consts: Seq::<Value>::empty(),
                heap: vm@.heap,
            }),
            c.vm_rest() == (vm@.value_stack, vm@.call_stack, vm@.output),
            c.cstate().wf(),
    {
        let c = Compiler { locals: Vec::new(), code: Vec::new(), consts: Vec::new(), vm };
        proof {
            assert(c.cstate().locals =~= Seq::<Seq<char>>::empty());
        }
        c
    }

    /// Hands the machine back, heap and all.
    pub fn into_vm(self) -> (vm: VirtualMachine)
        ensures
            vm@.heap == self.cstate().heap,
            vm@.value_stack == self.vm_rest().0,
            vm@.call_stack == self.vm_rest().1,
            vm@.output == self.vm_rest().2,
    {
        self.vm
    }

    /// The slot of the first occurrence of `name`, if any slot bears it.
    fn find_slot(&self, name: &str) -> (r: Option<usize>)
        ensures
            match find_local(self.cstate().locals, name@) {
                Some(j) => r == Some(j as usize),
                None => r is None,
            },
    {
        let n = self.locals.len();
        let mut k: usize = 0;
        while k < n
            invariant
                k <= n,
                n == self.locals.len(),
                forall|j: int| 0 <= j < k ==> #[trigger] self.cstate().locals[j] != name@,
            decreases n - k,
        {
            if crate::ast::str_eq_str(self.locals[k].as_str(), name) {
                proof {
                    let ls = self.cstate().locals;
                    assert(ls[k as int] == self.locals@[k as int]@);
                    assert(ls[k as int] == name@);
                    lemma_find_local(ls, name@);
                    match find_local(ls, name@) {
                        Some(j) => {
                            assert(!(k < j)) by {
                                if (k as int) < j {
                                    assert(ls[k as int] != name@);
                                }
                            }
                            assert(j == k as int);
                        },
                        None => {
                            assert(ls[k as int] != name@);
                        },
                    }
                }
                return Some(k);
            }
            k = k + 1;
        }
        proof {
            lemma_find_local(self.cstate().locals, name@);
        }
        None
    }

    /// Hands the next free slot to `name`, or reports why it cannot.
    fn declare_local(&mut self, name: &str) -> (r: Result<u16, CompileError>)
        ensures
            final(self).vm_rest() == old(self).vm_rest(),
            match sc_declare_local(old(self).cstate(), name@) {
                Ok(pair) => r == Ok::<u16, CompileError>(pair.1) && final(self).cstate()
                    == pair.0,
                Err(er) => r == Err::<u16, CompileError>(er),
            },
    {
        let i = self.locals.len();
        if i > 65535 {
            return Err(CompileError::new(CompileErrorValue::LocalOverflow));
        }
        match self.find_slot(name) {
            Some(_) => Err(CompileError::new(CompileErrorValue::RedeclaredLocal)),
            None => {
                self.locals.push(name.to_owned());
                proof {
                    assert(self.cstate().locals =~= old(self).cstate().locals.push(name@));
                }
                Ok(i as u16)
            },
        }
    }

    /// The slot of `name`, or `UndeclaredLocal` if no slot bears it.
    fn fetch_local(&self, name: &str) -> (r: Result<u16, CompileError>)
        requires
            self.cstate().wf(),
        ensures
            r == sc_fetch_local(self.cstate(), name@),
    {
        proof {
            lemma_find_local(self.cstate().locals, name@);
        }
        match self.find_slot(name) {
            Some(j) => Ok(j as u16),
            None => Err(CompileError::new(CompileErrorValue::UndeclaredLocal)),
        }
    }

    /// Appends one instruction.
    fn emit(&mut self, op: OpCode)
        ensures
            final(self).cstate() == sc_emit(old(self).cstate(), op),
            final(self).vm_rest() == old(self).vm_rest(),
    {
        self.code.push(op);
    }

    /// Appends `value` to the pool and emits `LoadConst` of its slot.
    fn emit_load_const(&mut self, value: Value) -> (r: Result<(), CompileError>)
        ensures
            final(self).vm_rest() == old(self).vm_rest(),
            match sc_emit_load_const(old(self).cstate(), value) {
                Ok(st) => r is Ok && final(self).cstate() == st,
                Err(er) => r == Err::<(), CompileError>(er),
            },
    {
        let i = self.consts.len();
        if i > 65535 {
            Err(CompileError::new(CompileErrorValue::ConstantOverflow))
        } else {
            self.consts.push(value);
            self.code.push(OpCode::LoadConst(i as u16));
            Ok(())
        }
    }

    /// Emits a `BranchFalse` placeholder and records its patch site.
    fn emit_branch_false(&mut self) -> (r: JumpPatch)
        ensures
            final(self).cstate() == sc_emit(old(self).cstate(), OpCode::BranchFalse(0)),
            final(self).vm_rest() == old(self).vm_rest(),
            r.site == old(self).cstate().code.len(),
    {
        let site = self.code.len();
        self.emit(OpCode::BranchFalse(0));
        JumpPatch { site }
    }

    /// Overwrites the placeholder at the patch site with the displacement
    /// from the site to the current instruction count.
    fn patch_jump(&mut self, patch: JumpPatch) -> (r: Result<(), CompileError>)
        requires
            patch.site < old(self).cstate().code.len(),
            old(self).cstate().code[patch.site as int] matches OpCode::Jump(_)
                || old(self).cstate().code[patch.site as int] matches OpCode::BranchTrue(_)
                || old(self).cstate().code[patch.site as int] matches OpCode::BranchFalse(_),
        ensures
            final(self).vm_rest() == old(self).vm_rest(),
            match sc_patch_jump(old(self).cstate(), patch.site as int) {
                Ok(st) => r is Ok && final(self).cstate() == st,
                Err(er) => r == Err::<(), CompileError>(er),
            },
    {
        let cur = self.code.len();
        let diff: i128 = cur as i128 - patch.site as i128;
        if diff > 32767 || diff < -32768 {
            Err(CompileError::new(CompileErrorValue::BranchTooFar))
        } else {
            let d = diff as i16;
            let op = match self.code[patch.site] {
                OpCode::Jump(_) => OpCode::Jump(d),
                OpCode::BranchTrue(_) => OpCode::BranchTrue(d),
                OpCode::BranchFalse(_) => OpCode::BranchFalse(d),
                _ => {
                    proof {
                        assert(false);
                    }
                    OpCode::Jump(d)
                },
            };
            self.code.set(patch.site, op);
            Ok(())
        }
    }
}


impl Compiler {
    /// Compiles one statement into the current scope.
    fn compile_statement(&mut self, s: &Statement) -> (r: Result<(), CompileError>)
        requires
            stmt_wf(*s),
            old(self).cstate().wf(),
        ensures
            final(self).vm_rest() == old(self).vm_rest(),
            match sc_statement(old(self).cstate(), *s) {
                Ok(st) => r is Ok && final(self).cstate() == st && final(self).cstate().wf(),
                Err(er) => r == Err::<(), CompileError>(er),
            },
        decreases *s, 1int,
    {
        match s {
            Statement::Definition(d) => match &*d.name {
                Expression::Identifier(id, _) => match &d.right {
                    Some(e) => {
                        self.compile_expression(&**e)?;
                        let i = self.declare_local(id.as_str())?;
                        self.emit(OpCode::StoreLocal(i));
                        Ok(())
                    },
                    None => {
                        let _ = self.declare_local(id.as_str())?;
                        Ok(())
                    },
                },
                _ => {
                    proof {
                        assert(false);
                    }
                    Ok(())
                },
            },
            Statement::Assignment(a) => match &*a.left {
                Expression::Identifier(id, _) => {
                    self.compile_expression(&*a.right)?;
                    let i = self.fetch_local(id.as_str())?;
                    self.emit(OpCode::StoreLocal(i));
                    Ok(())
                },
                _ => {
                    proof {
                        assert(false);
                    }
                    Ok(())
                },
            },
            Statement::Expression(e) => {
                self.compile_expression(&**e)?;
                self.emit(OpCode::Pop);
                Ok(())
            },
        }
    }

    /// Compiles one expression into the current scope.
    #[verifier::loop_isolation(false)]
    fn compile_expression(&mut self, e: &Expression) -> (r: Result<(), CompileError>)
        requires
            expr_wf(*e),
            old(self).cstate().wf(),
        ensures
            final(self).vm_rest() == old(self).vm_rest(),
            match sc_expression(old(self).cstate(), *e) {
                Ok(st) => r is Ok && final(self).cstate() == st && final(self).cstate().wf(),
                Err(er) => r == Err::<(), CompileError>(er),
            },
        decreases *e, 0int,
    {
        match e {
            Expression::Int(n) => self.emit_load_const(Value::Int(*n)),
            Expression::Float(bits) => self.emit_load_const(Value::Float(*bits)),
            Expression::Bool(b) => self.emit_load_const(Value::Bool(*b)),
            Expression::Char(c) => self.emit_load_const(Value::Char(*c)),
            Expression::Str(s) => {
                let v = self.vm.allocate_object(HeapKind::Str(s.clone()));
                self.emit_load_const(v)
            },
            Expression::Identifier(id, _) => {
                let i = self.fetch_local(id.as_str())?;
                self.emit(OpCode::LoadLocal(i));
                Ok(())
            },
            Expression::Block(stmts) => {
                let ghost st0 = self.cstate();
                let ghost rest0 = self.vm_rest();
                let mut i: usize = 0;
                while i < stmts.len()
                    invariant
                        i <= stmts@.len(),
                        forall|j: int| 0 <= j < stmts@.len() ==> stmt_wf(#[trigger] stmts@[j]),
                        self.cstate().wf(),
                        self.vm_rest() == rest0,
                        sc_stmts(st0, stmts@, 0) == sc_stmts(self.cstate(), stmts@, i as int),
                    decreases stmts@.len() - i,
                {
                    match self.compile_statement(&stmts[i]) {
                        Ok(()) => {},
                        Err(er) => {
                            return Err(er);
                        },
                    }
                    i = i + 1;
                }
                Ok(())
            },
            Expression::Print(inner) => {
                self.compile_expression(&**inner)?;
                self.emit(OpCode::Print);
                self.emit_load_const(Value::Null)
            },
            Expression::Arm(a) => {
                self.emit_load_const(Value::Int(0))?;
                self.emit_load_const(Value::Int(0))?;
                self.emit(OpCode::Eq);
                let if_not = self.emit_branch_false();
                let ghost st4 = self.cstate();
                let ghost rest0 = self.vm_rest();
                // The arm's own table starts as a copy of this scope's.
                let n = self.locals.len();
                let mut derived: Vec<String> = Vec::new();
                let mut ci: usize = 0;
                while ci < n
                    invariant
                        ci <= n,
                        n == self.locals.len(),
                        names_view(derived@) == self.cstate().locals.subrange(
                            0,
                            ci as int,
                        ),
                    decreases n - ci,
                {
                    derived.push(self.locals[ci].clone());
                    proof {
                        assert(names_view(derived@) =~= self.cstate()
                            .locals.subrange(0, ci + 1));
                    }
                    ci = ci + 1;
                }
                proof {
                    assert(self.cstate().locals.subrange(0, n as int) =~= self.cstate().locals);
                }
                // Parameters take the lowest slots, in order.
                let ghost outer = self.cstate().locals;
                let np = a.params.len();
                let mut pi: usize = 0;
                while pi < np
                    invariant
                        pi <= np,
                        np == a.params@.len(),
                        np <= 65535,
                        self.cstate() == st4,
                        outer == st4.locals,
                        outer.len() <= 65536,
                        derived@.len() == if (pi as int) > outer.len() {
                            pi as int
                        } else {
                            outer.len() as int
                        },
                        arm_locals(outer, a.params@, 0) == arm_locals(
                            names_view(derived@),
                            a.params@,
                            pi as int,
                        ),
                    decreases np - pi,
                {
                    let ghost dv = names_view(derived@);
                    let pname: String = match &a.params[pi] {
                        Expression::Identifier(id, _) => id.clone(),
                        _ => String::new(),
                    };
                    proof {
                        assert(pname@ == arm_param_name(a.params@[pi as int]));
                    }
                    if pi < derived.len() {
                        derived.set(pi, pname);
                    } else {
                        derived.push(pname);
                    }
                    proof {
                        assert(names_view(derived@) =~= set_slot(
                            dv,
                            pi as int,
                            pname@,
                        ));
                    }
                    pi = pi + 1;
                }
                // The arm body compiles in a scope of its own, sharing the heap.
                let mut vmx = VirtualMachine::new();
                core::mem::swap(&mut vmx, &mut self.vm);
                let mut nested = Compiler {
                    locals: derived,
                    code: Vec::new(),
                    consts: Vec::new(),
                    vm: vmx,
                };
                proof {
                    assert(nested.cstate() =~= (CState {
                        locals: arm_locals(st4.locals, a.params@, 0),
                        code: Seq::<OpCode>::empty(),
                        consts: Seq::<Value>::empty(),
                        heap: st4.heap,
                    }));
                }
                let arm_block = match nested.compile_main(&*a.body) {
                    Ok(b) => b,
                    Err(er) => {
                        self.vm = nested.vm;
                        return Err(er);
                    },
                };
                self.vm = nested.vm;
                let arm_func = self.vm.allocate_object(HeapKind::Function(arm_block));
                self.emit_load_const(arm_func)?;
                self.patch_jump(if_not)
            },
            Expression::Function(f) => {
                let ghost st0 = self.cstate();
                let ghost rest0 = self.vm_rest();
                let mut i: usize = 0;
                while i < f.arms.len()
                    invariant
                        i <= f.arms@.len(),
                        forall|j: int| 0 <= j < f.arms@.len() ==> expr_wf(#[trigger] f.arms@[j]),
                        self.cstate().wf(),
                        self.vm_rest() == rest0,
                        sc_exprs(st0, f.arms@, 0) == sc_exprs(self.cstate(), f.arms@, i as int),
                    decreases f.arms@.len() - i,
                {
                    match self.compile_expression(&f.arms[i]) {
                        Ok(()) => {},
                        Err(er) => {
                            return Err(er);
                        },
                    }
                    i = i + 1;
                }
                Ok(())
            },
            Expression::Operation(op) => {
                self.compile_expression(&*op.left)?;
                self.compile_expression(&*op.right)?;
                match op.op {
                    Operand::Pow => {},
                    Operand::Mul => self.emit(OpCode::Mul),
                    Operand::Div => self.emit(OpCode::Div),
                    Operand::Mod => self.emit(OpCode::Rem),
                    Operand::Add => self.emit(OpCode::Add),
                    Operand::Sub => self.emit(OpCode::Sub),
                    Operand::Equal => self.emit(OpCode::Eq),
                    Operand::NEqual => self.emit(OpCode::NotEq),
                    Operand::Lt => self.emit(OpCode::Lt),
                    Operand::Gt => self.emit(OpCode::Gt),
                    Operand::LtEqual => self.emit(OpCode::LtEq),
                    Operand::GtEqual => self.emit(OpCode::GtEq),
                }
                Ok(())
            },
            Expression::Call(c) => {
                self.compile_expression(&*c.callee)?;
                let ghost st1 = self.cstate();
                let ghost rest0 = self.vm_rest();
                let mut i: usize = 0;
                while i < c.args.len()
                    invariant
                        i <= c.args@.len(),
                        c.args@.len() <= 255,
                        forall|j: int| 0 <= j < c.args@.len() ==> expr_wf(#[trigger] c.args@[j]),
                        self.cstate().wf(),
                        self.vm_rest() == rest0,
                        sc_exprs(st1, c.args@, 0) == sc_exprs(self.cstate(), c.args@, i as int),
                    decreases c.args@.len() - i,
                {
                    match self.compile_expression(&c.args[i]) {
                        Ok(()) => {},
                        Err(er) => {
                            return Err(er);
                        },
                    }
                    i = i + 1;
                }
                self.emit(OpCode::Call(c.args.len() as u8));
                Ok(())
            },
            _ => Ok(()),
        }
    }

    /// Compiles a whole scope: its body, then a final `Null` and `Return`,
    /// and packages the block, leaving this compiler's tables empty.
    fn compile_main(&mut self, block: &Expression) -> (r: Result<CompiledBlock, CompileError>)
        requires
            expr_wf(*block),
            old(self).cstate().wf(),
        ensures
            final(self).vm_rest() == old(self).vm_rest(),
            match sc_main(old(self).cstate(), *block) {
                Ok(pair) => r matches Ok(cb) && cb@ == pair.0 && final(self).cstate()
                    == (CState {
                    locals: Seq::<Seq<char>>::empty(),
                    code: Seq::<OpCode>::empty(),
                    consts: Seq::<Value>::empty(),
                    heap: pair.1,
                }),
                Err(er) => r matches Err(e2) && e2 == er,
            },
        decreases *block, 1int,
    {
        self.compile_expression(block)?;
        self.emit_load_const(Value::Null)?;
        self.emit(OpCode::Return);
        let mut code: Vec<OpCode> = Vec::new();
        let mut consts: Vec<Value> = Vec::new();
        let mut locals: Vec<String> = Vec::new();
        core::mem::swap(&mut code, &mut self.code);
        core::mem::swap(&mut consts, &mut self.consts);
        core::mem::swap(&mut locals, &mut self.locals);
        proof {
            assert(final(self).cstate().locals =~= Seq::<Seq<char>>::empty());
        }
        Ok(CompiledBlock { code, consts, locals })
    }

    /// Compiles a validated AST into one `CompiledBlock`. On an error no
    /// partial block is returned; the error says what went wrong.
    pub fn compile(&mut self, block: &Expression) -> (r: Result<CompiledBlock, CompileError>)
        requires
            expr_wf(*block),
            old(self).cstate().wf(),
        ensures
            final(self).vm_rest() == old(self).vm_rest(),
            match sc_main(old(self).cstate(), *block) {
                Ok(pair) => r matches Ok(cb) && cb@ == pair.0 && final(self).cstate()
                    == (CState {
                    locals: Seq::<Seq<char>>::empty(),
                    code: Seq::<OpCode>::empty(),
                    consts: Seq::<Value>::empty(),
                    heap: pair.1,
                }),
                Err(er) => r matches Err(e2) && e2 == er,
            },
    {
        self.compile_main(block)
    }
}



/// The instruction at `i` of a partly built scope addresses only what the
/// scope already has: constant and local indices lie inside the tables,
/// and a branch lands inside the code built so far (or just past it).
pub open spec fn op_ok(st: CState, i: int) -> bool {
    match st.code[i] {
        OpCode::LoadConst(c) => (c as int) < st.consts.len(),
        OpCode::LoadLocal(l) => (l as int) < st.locals.len(),
        OpCode::StoreLocal(l) => (l as int) < st.locals.len(),
        OpCode::BranchTrue(d) => 0 <= i + d <= st.code.len(),
        OpCode::BranchFalse(d) => 0 <= i + d <= st.code.len(),
        OpCode::Jump(d) => 0 <= i + d <= st.code.len(),
        _ => true,
    }
}

/// Every instruction built so far is in order, and the local table fits
/// the 16-bit slot space.
pub open spec fn cinv(st: CState) -> bool {
    st.locals.len() <= 65536 && forall|i: int| 0 <= i < st.code.len() ==> #[trigger] op_ok(st, i)
}

/// Every callable object in the heap is a well-formed block.
pub open spec fn heap_wf(heap: Seq<ObjectView>) -> bool {
    forall|i: int|
        0 <= i < heap.len() ==> ((#[trigger] heap[i].kind) matches HeapKindView::Function(b)
            ==> b.wf())
}

/// What the growth lemmas say a compilation step leaves behind.
pub open spec fn grows_to(st: CState, st1: CState) -> bool {
    &&& (cinv(st) && heap_wf(st.heap) ==> cinv(st1) && heap_wf(st1.heap))
    &&& st1.code.len() >= st.code.len()
    &&& st1.consts.len() >= st.consts.len()
    &&& st1.locals.len() >= st.locals.len()
    &&& st1.heap.len() >= st.heap.len()
    &&& (forall|i: int| 0 <= i < st.code.len() ==> st1.code[i] == st.code[i])
    &&& (forall|i: int| 0 <= i < st.heap.len() ==> st1.heap[i] == st.heap[i])
}

/// `grows_to` composes.
proof fn lemma_grows_trans(a: CState, b: CState, c: CState)
    requires
        grows_to(a, b),
        grows_to(b, c),
    ensures
        grows_to(a, c),
{
}

/// A state whose tables only grew and whose code is an extension keeps
/// its old instructions in order.
proof fn lemma_cinv_prefix(st: CState, st1: CState)
    requires
        cinv(st),
        st.code.len() <= st1.code.len(),
        st.consts.len() <= st1.consts.len(),
        st.locals.len() <= st1.locals.len(),
        forall|i: int| 0 <= i < st.code.len() ==> st1.code[i] == st.code[i],
    ensures
        forall|i: int| 0 <= i < st.code.len() ==> #[trigger] op_ok(st1, i),
{
    assert forall|i: int| 0 <= i < st.code.len() implies #[trigger] op_ok(st1, i) by {
        assert(op_ok(st, i));
        assert(st1.code[i] == st.code[i]);
    }
}

/// Emitting one instruction that addresses only what the scope has keeps
/// everything in order.
proof fn lemma_emit_ok(st: CState, op: OpCode)
    requires
        match op {
            OpCode::LoadConst(c) => (c as int) < st.consts.len(),
            OpCode::LoadLocal(l) => (l as int) < st.locals.len(),
            OpCode::StoreLocal(l) => (l as int) < st.locals.len(),
            OpCode::BranchTrue(d) => 0 <= st.code.len() + d <= st.code.len() + 1,
            OpCode::BranchFalse(d) => 0 <= st.code.len() + d <= st.code.len() + 1,
            OpCode::Jump(d) => 0 <= st.code.len() + d <= st.code.len() + 1,
            _ => true,
        },
    ensures
        grows_to(st, sc_emit(st, op)),
{
    let st1 = sc_emit(st, op);
    if cinv(st) {
        lemma_cinv_prefix(st, st1);
        assert(op_ok(st1, st.code.len() as int));
    }
}

/// Loading a fresh constant keeps everything in order.
proof fn lemma_emit_load_const_ok(st: CState, v: Value)
    ensures
        match sc_emit_load_const(st, v) {
            Ok(st1) => grows_to(st, st1) && st1.heap == st.heap && st1.locals == st.locals,
            Err(_) => true,
        },
{
    if st.consts.len() <= 65535 {
        let st1 = (match sc_emit_load_const(st, v) {
            Ok(x) => x,
            Err(_) => arbitrary(),
        });
        if cinv(st) {
            lemma_cinv_prefix(st, st1);
            assert(op_ok(st1, st.code.len() as int));
        }
    }
}

/// The derived table of an arm stays within the slot space, provided the
/// arm declares at most 65535 parameters.
proof fn lemma_arm_locals_len(table: Seq<Seq<char>>, params: Seq<Expression>, i: int)
    requires
        0 <= i <= table.len(),
        params.len() <= 65535,
        table.len() <= 65536,
    ensures
        arm_locals(table, params, i).len() <= 65536,
        arm_locals(table, params, i).len() >= table.len(),
    decreases params.len() - i,
{
    if i < params.len() {
        lemma_arm_locals_len(set_slot(table, i, arm_param_name(params[i])), params, i + 1);
    }
}

/// Compiling an expression keeps everything in order and only grows the
/// scope.
pub proof fn lemma_expression_wf(st: CState, e: Expression)
    requires
        expr_wf(e),
    ensures
        match sc_expression(st, e) {
            Ok(st1) => grows_to(st, st1),
            Err(_) => true,
        },
    decreases e, 0int,
{
    match e {
        Expression::Int(n) => {
            lemma_emit_load_const_ok(st, Value::Int(n));
        },
        Expression::Float(bits) => {
            lemma_emit_load_const_ok(st, Value::Float(bits));
        },
        Expression::Bool(b) => {
            lemma_emit_load_const_ok(st, Value::Bool(b));
        },
        Expression::Char(c) => {
            lemma_emit_load_const_ok(st, Value::Char(c));
        },
        Expression::Str(s) => {
            let st1 = CState {
                heap: st.heap.push(ObjectView { marked: false, kind: HeapKindView::Str(s@) }),
                ..st
            };
            assert(grows_to(st, st1)) by {
                if cinv(st) {
                    lemma_cinv_prefix(st, st1);
                }
                if heap_wf(st.heap) {
                    assert forall|i: int|
                        0 <= i < st1.heap.len() implies ((#[trigger] st1.heap[i].kind) matches
                        HeapKindView::Function(b) ==> b.wf()) by {
                        if i < st.heap.len() {
                            assert(st1.heap[i] == st.heap[i]);
                        }
                    };
                }
            }
            lemma_emit_load_const_ok(st1, Value::HeapRef(st.heap.len() as usize));
            match sc_emit_load_const(st1, Value::HeapRef(st.heap.len() as usize)) {
                Ok(st2) => {
                    lemma_grows_trans(st, st1, st2);
                },
                Err(_) => {},
            }
        },
        Expression::Identifier(id, _) => {
            match find_local(st.locals, id@) {
                Some(j) => {
                    lemma_find_local(st.locals, id@);
                    if cinv(st) {
                        lemma_emit_ok(st, OpCode::LoadLocal(j as u16));
                    } else {
                        let st1 = sc_emit(st, OpCode::LoadLocal(j as u16));
                        assert(grows_to(st, st1));
                    }
                },
                None => {},
            }
        },
        Expression::Block(stmts) => {
            lemma_stmts_wf(st, stmts@, 0);
        },
        Expression::Print(inner) => {
            lemma_expression_wf(st, *inner);
            match sc_expression(st, *inner) {
                Ok(st1) => {
                    lemma_emit_ok(st1, OpCode::Print);
                    let st2 = sc_emit(st1, OpCode::Print);
                    lemma_emit_load_const_ok(st2, Value::Null);
                    match sc_emit_load_const(st2, Value::Null) {
                        Ok(st3) => {
                            lemma_grows_trans(st, st1, st2);
                            lemma_grows_trans(st, st2, st3);
                        },
                        Err(_) => {},
                    }
                },
                Err(_) => {},
            }
        },
        Expression::Arm(a) => {
            lemma_emit_load_const_ok(st, Value::Int(0));
            match sc_emit_load_const(st, Value::Int(0)) {
                Err(_) => {},
                Ok(st1) => {
                    lemma_emit_load_const_ok(st1, Value::Int(0));
                    match sc_emit_load_const(st1, Value::Int(0)) {
                        Err(_) => {},
                        Ok(st2) => {
                            lemma_emit_ok(st2, OpCode::Eq);
                            let st3 = sc_emit(st2, OpCode::Eq);
                            let site = st3.code.len() as int;
                            lemma_emit_ok(st3, OpCode::BranchFalse(0));
                            let st4 = sc_emit(st3, OpCode::BranchFalse(0));
                            lemma_grows_trans(st, st1, st2);
                            lemma_grows_trans(st, st2, st3);
                            lemma_grows_trans(st, st3, st4);
                            let nested = CState {
                                locals: arm_locals(st4.locals, a.params@, 0),
                                code: Seq::<OpCode>::empty(),
                                consts: Seq::<Value>::empty(),
                                heap: st4.heap,
                            };
                            lemma_main_wf(nested, *a.body);
                            match sc_main(nested, *a.body) {
                                Err(_) => {},
                                Ok(pair) => {
                                    let block = pair.0;
                                    let heap1 = pair.1;
                                    let href = Value::HeapRef(heap1.len() as usize);
                                    let st5 = CState {
                                        heap: heap1.push(
                                            ObjectView {
                                                marked: false,
                                                kind: HeapKindView::Function(block),
                                            },
                                        ),
                                        ..st4
                                    };
                                    assert(grows_to(st4, st5)) by {
                                        if cinv(st4) && heap_wf(st4.heap) {
                                            lemma_cinv_prefix(st4, st5);
                                            assert(cinv(nested)) by {
                                                lemma_arm_locals_len(st4.locals, a.params@, 0);
                                            }
                                            assert(block.wf());
                                            assert forall|i: int|
                                                0 <= i < st5.heap.len() implies ((
                                            #[trigger] st5.heap[i].kind) matches
                                                HeapKindView::Function(b) ==> b.wf()) by {
                                                if i < heap1.len() {
                                                    assert(st5.heap[i] == heap1[i]);
                                                } else {
                                                    assert(st5.heap[i].kind
                                                        == HeapKindView::Function(block));
                                                }
                                            };
                                        }
                                    }
                                    lemma_emit_load_const_ok(st5, href);
                                    match sc_emit_load_const(st5, href) {
                                        Err(_) => {},
                                        Ok(st6) => {
                                            lemma_grows_trans(st, st4, st5);
                                            lemma_grows_trans(st, st5, st6);
                                            match sc_patch_jump(st6, site) {
                                                Err(_) => {},
                                                Ok(st7) => {
                                                    assert(grows_to(st, st7)) by {
                                                        assert(grows_to(st, st6));
                                                        assert(st4.code[site]
                                                            == OpCode::BranchFalse(0));
                                                        assert(st6.code[site]
                                                            == OpCode::BranchFalse(0));
                                                        assert(site >= st.code.len());
                                                        assert(forall|i: int|
                                                            0 <= i < st.code.len()
                                                                ==> st7.code[i] == st.code[i]);
                                                        if cinv(st) && heap_wf(st.heap) {
                                                            assert(cinv(st6) && heap_wf(
                                                                st6.heap,
                                                            ));
                                                            assert(st7.heap == st6.heap);
                                                            assert forall|i: int|
                                                                0 <= i
                                                                    < st7.code.len() implies #[trigger] op_ok(
                                                                st7,
                                                                i,
                                                            ) by {
                                                                if i != site {
                                                                    assert(st7.code[i]
                                                                        == st6.code[i]);
                                                                    assert(op_ok(st6, i));
                                                                } else {
                                                                    assert(st7.code[site]
                                                                        == OpCode::BranchFalse(
                                                                        (st6.code.len()
                                                                            - site) as i16,
                                                                    ));
                                                                }
                                                            };
                                                        }
                                                    }
                                                },
                                            }
                                        },
                                    }
                                },
                            }
                        },
                    }
                },
            }
        },
        Expression::Function(f) => {
            lemma_exprs_wf(st, f.arms@, 0);
        },
        Expression::Operation(op) => {
            lemma_expression_wf(st, *op.left);
            match sc_expression(st, *op.left) {
                Err(_) => {},
                Ok(st1) => {
                    lemma_expression_wf(st1, *op.right);
                    match sc_expression(st1, *op.right) {
                        Err(_) => {},
                        Ok(st2) => {
                            lemma_grows_trans(st, st1, st2);
                            match opcode_of(op.op) {
                                Some(o) => {
                                    lemma_emit_ok(st2, o);
                                    lemma_grows_trans(st, st2, sc_emit(st2, o));
                                },
                                None => {},
                            }
                        },
                    }
                },
            }
        },
        Expression::Call(c) => {
            lemma_expression_wf(st, *c.callee);
            match sc_expression(st, *c.callee) {
                Err(_) => {},
                Ok(st1) => {
                    lemma_exprs_wf(st1, c.args@, 0);
                    match sc_exprs(st1, c.args@, 0) {
                        Err(_) => {},
                        Ok(st2) => {
                            lemma_grows_trans(st, st1, st2);
                            lemma_emit_ok(st2, OpCode::Call(c.args@.len() as u8));
                            lemma_grows_trans(
                                st,
                                st2,
                                sc_emit(st2, OpCode::Call(c.args@.len() as u8)),
                            );
                        },
                    }
                },
            }
        },
        _ => {},
    }
}

/// Compiling statements from `i` on keeps everything in order.
pub proof fn lemma_stmts_wf(st: CState, stmts: Seq<Statement>, i: int)
    requires
        forall|k: int| 0 <= k < stmts.len() ==> stmt_wf(#[trigger] stmts[k]),
    ensures
        match sc_stmts(st, stmts, i) {
            Ok(st1) => grows_to(st, st1),
            Err(_) => true,
        },
    decreases stmts, stmts.len() - i,
{
    if 0 <= i < stmts.len() {
        lemma_statement_wf(st, stmts[i]);
        match sc_statement(st, stmts[i]) {
            Ok(st1) => {
                lemma_stmts_wf(st1, stmts, i + 1);
                match sc_stmts(st1, stmts, i + 1) {
                    Ok(st2) => {
                        lemma_grows_trans(st, st1, st2);
                    },
                    Err(_) => {},
                }
            },
            Err(_) => {},
        }
    }
}

/// Compiling expressions from `i` on keeps everything in order.
pub proof fn lemma_exprs_wf(st: CState, es: Seq<Expression>, i: int)
    requires
        forall|k: int| 0 <= k < es.len() ==> expr_wf(#[trigger] es[k]),
    ensures
        match sc_exprs(st, es, i) {
            Ok(st1) => grows_to(st, st1),
            Err(_) => true,
        },
    decreases es, es.len() - i,
{
    if 0 <= i < es.len() {
        lemma_expression_wf(st, es[i]);
        match sc_expression(st, es[i]) {
            Ok(st1) => {
                lemma_exprs_wf(st1, es, i + 1);
                match sc_exprs(st1, es, i + 1) {
                    Ok(st2) => {
                        lemma_grows_trans(st, st1, st2);
                    },
                    Err(_) => {},
                }
            },
            Err(_) => {},
        }
    }
}

/// Compiling one statement keeps everything in order.
pub proof fn lemma_statement_wf(st: CState, s: Statement)
    requires
        stmt_wf(s),
    ensures
        match sc_statement(st, s) {
            Ok(st1) => grows_to(st, st1),
            Err(_) => true,
        },
    decreases s, 1int,
{
    match s {
        Statement::Definition(d) => {
            let name = (match *d.name {
                Expression::Identifier(id, _) => id@,
                _ => arbitrary(),
            });
            match d.right {
                Some(e) => {
                    lemma_expression_wf(st, *e);
                    match sc_expression(st, *e) {
                        Err(_) => {},
                        Ok(st1) => {
                            match sc_declare_local(st1, name) {
                                Err(_) => {},
                                Ok(pair) => {
                                    let st2 = pair.0;
                                    assert(grows_to(st1, st2)) by {
                                        if cinv(st1) {
                                            lemma_cinv_prefix(st1, st2);
                                        }
                                    }
                                    lemma_emit_ok(st2, OpCode::StoreLocal(pair.1));
                                    lemma_grows_trans(st, st1, st2);
                                    lemma_grows_trans(
                                        st,
                                        st2,
                                        sc_emit(st2, OpCode::StoreLocal(pair.1)),
                                    );
                                },
                            }
                        },
                    }
                },
                None => {
                    match sc_declare_local(st, name) {
                        Err(_) => {},
                        Ok(pair) => {
                            assert(grows_to(st, pair.0)) by {
                                if cinv(st) {
                                    lemma_cinv_prefix(st, pair.0);
                                }
                            }
                        },
                    }
                },
            }
        },
        Statement::Assignment(a) => {
            let name = (match *a.left {
                Expression::Identifier(id, _) => id@,
                _ => arbitrary(),
            });
            lemma_expression_wf(st, *a.right);
            match sc_expression(st, *a.right) {
                Err(_) => {},
                Ok(st1) => {
                    lemma_find_local(st1.locals, name);
                    match find_local(st1.locals, name) {
                        Some(j) => {
                            if cinv(st1) {
                                lemma_emit_ok(st1, OpCode::LoadLocal(j as u16));
                            }
                            lemma_emit_ok(st1, OpCode::StoreLocal(j as u16));
                            lemma_grows_trans(
                                st,
                                st1,
                                sc_emit(st1, OpCode::StoreLocal(j as u16)),
                            );
                        },
                        None => {},
                    }
                },
            }
        },
        Statement::Expression(e) => {
            lemma_expression_wf(st, *e);
            match sc_expression(st, *e) {
                Err(_) => {},
                Ok(st1) => {
                    lemma_emit_ok(st1, OpCode::Pop);
                    lemma_grows_trans(st, st1, sc_emit(st1, OpCode::Pop));
                },
            }
        },
    }
}

/// THE BLOCK INVARIANT: a block that compilation yields on an orderly
/// scope is well formed — every constant index lies inside its pool,
/// every local index inside its table, every branch inside its code —
/// and so is every callable block the heap then holds.
pub proof fn lemma_main_wf(st: CState, e: Expression)
    requires
        expr_wf(e),
    ensures
        match sc_main(st, e) {
            Ok(pair) => (cinv(st) && heap_wf(st.heap) ==> pair.0.wf() && heap_wf(pair.1))
                && pair.1.len() >= st.heap.len() && (forall|i: int|
                0 <= i < st.heap.len() ==> pair.1[i] == st.heap[i]),
            Err(_) => true,
        },
    decreases e, 1int,
{
    lemma_expression_wf(st, e);
    match sc_expression(st, e) {
        Err(_) => {},
        Ok(st1) => {
            lemma_emit_load_const_ok(st1, Value::Null);
            match sc_emit_load_const(st1, Value::Null) {
                Err(_) => {},
                Ok(st2) => {
                    lemma_emit_ok(st2, OpCode::Return);
                    let st3 = sc_emit(st2, OpCode::Return);
                    lemma_grows_trans(st, st1, st2);
                    lemma_grows_trans(st, st2, st3);
                    if cinv(st) && heap_wf(st.heap) {
                        let b = (match sc_main(st, e) {
                            Ok(pair) => pair.0,
                            Err(_) => arbitrary(),
                        });
                        assert(b.wf()) by {
                            assert forall|i: int| 0 <= i < b.code.len() implies #[trigger] b.op_wf(
                                i,
                            ) by {
                                assert(op_ok(st3, i));
                            };
                        }
                    }
                },
            }
        },
    }
}

} // verus!
