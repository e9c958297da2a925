//! The stack-based virtual machine: its state, its heap arena, and the
//! execution engine that runs one compiled block to completion or fault.

use vstd::prelude::*;

use crate::bytecode::{BlockView, CompiledBlock, OpCode};
use crate::error::RuntimeFault;
use crate::value::{HeapKind, HeapKindView, HeapObject, ObjectView, Value};

verus! {

/// Caller state captured by a `Call` instruction and restored by `Return`:
/// the caller's program counter (pointing at the `Call` itself), the
/// caller's locals array (moved out while the callee runs), and the
/// caller's code.
#[derive(Debug)]
pub struct CallInfo {
    pub(crate) pc: usize,
    pub(crate) locals: Vec<Value>,
    pub(crate) func: CompiledBlock,
}

/// Mathematical model of a saved call frame.
#[verifier::ext_equal]
pub ghost struct FrameView {
    pub pc: nat,
    pub locals: Seq<Value>,
    pub block: BlockView,
}

impl View for CallInfo {
    type V = FrameView;

    closed spec fn view(&self) -> FrameView {
        FrameView { pc: self.pc as nat, locals: self.locals@, block: self.func@ }
    }
}

/// A virtual machine: an operand stack, a call-frame stack, a heap arena
/// of every object ever allocated, and the record of printed values.
#[derive(Debug)]
pub struct VirtualMachine {
    pub value_stack: Vec<Value>,
    pub call_stack: Vec<CallInfo>,
    pub heap: Vec<HeapObject>,
    pub output: Vec<Value>,
}

/// Mathematical model of a virtual machine.
#[verifier::ext_equal]
pub ghost struct MachineView {
    pub value_stack: Seq<Value>,
    pub call_stack: Seq<FrameView>,
    pub heap: Seq<ObjectView>,
    pub output: Seq<Value>,
}

impl View for VirtualMachine {
    type V = MachineView;

    open spec fn view(&self) -> MachineView {
        MachineView {
            value_stack: self.value_stack@,
            call_stack: self.call_stack@.map_values(|f: CallInfo| f@),
            heap: self.heap@.map_values(|o: HeapObject| o@),
            output: self.output@,
        }
    }
}

impl VirtualMachine {
    /// A machine with empty stacks, an empty heap, and no output.
    pub fn new() -> (vm: VirtualMachine)
        ensures
            vm@.value_stack == Seq::<Value>::empty(),
            vm@.call_stack == Seq::<FrameView>::empty(),
            vm@.heap == Seq::<ObjectView>::empty(),
            vm@.output == Seq::<Value>::empty(),
    {
        let vm = VirtualMachine {
            value_stack: Vec::new(),
            call_stack: Vec::new(),
            heap: Vec::new(),
            output: Vec::new(),
        };
        proof {
            assert(vm@.call_stack =~= Seq::<FrameView>::empty());
            assert(vm@.heap =~= Seq::<ObjectView>::empty());
        }
        vm
    }

    /// Constructs a heap object holding `kind`, adds it to the arena, and
    /// returns the reference value that names it. No deallocation
    /// operation exists in this core.
    pub fn allocate_object(&mut self, kind: HeapKind) -> (v: Value)
        ensures
            final(self)@.heap == old(self)@.heap.push(
                ObjectView { marked: false, kind: kind@ },
            ),
            v == Value::HeapRef(old(self).heap.len() as usize),
            final(self)@.value_stack == old(self)@.value_stack,
            final(self)@.call_stack == old(self)@.call_stack,
            final(self)@.output == old(self)@.output,
    {
        let idx = self.heap.len();
        self.heap.push(HeapObject { marked: false, kind });
        proof {
            assert(self@.heap =~= old(self)@.heap.push(
                ObjectView { marked: false, kind: kind@ },
            ));
            assert(self@.call_stack =~= old(self)@.call_stack);
        }
        Value::HeapRef(idx)
    }
}


/// Truncated integer division: the quotient of the magnitudes with the
/// sign of the exact quotient, the semantics of `/` on machine integers.
pub open spec fn div_trunc(x: int, y: int) -> int {
    let q = vstd::math::abs(x) as int / vstd::math::abs(y) as int;
    if (x < 0) != (y < 0) {
        -q
    } else {
        q
    }
}

/// Truncated remainder: the remainder of the magnitudes with the sign of
/// the dividend, pairing with `div_trunc`.
pub open spec fn rem_trunc(x: int, y: int) -> int {
    let m = vstd::math::abs(x) as int % vstd::math::abs(y) as int;
    if x < 0 {
        -m
    } else {
        m
    }
}

/// 64-bit truncated division, with the one wrapping case.
pub open spec fn div_i64(x: i64, y: i64) -> i64 {
    if x == i64::MIN && y == -1 {
        i64::MIN
    } else {
        div_trunc(x as int, y as int) as i64
    }
}

/// 64-bit truncated remainder, with the one wrapping case.
pub open spec fn rem_i64(x: i64, y: i64) -> i64 {
    if x == i64::MIN && y == -1 {
        0
    } else {
        rem_trunc(x as int, y as int) as i64
    }
}

/// 64-bit negation, wrapping on `i64::MIN`.
pub open spec fn neg_i64(x: i64) -> i64 {
    if x == i64::MIN {
        i64::MIN
    } else {
        (-(x as int)) as i64
    }
}

/// Decides `div_i64`.
fn div_wrap(x: i64, y: i64) -> (r: i64)
    requires
        y != 0,
    ensures
        r == div_i64(x, y),
{
    if x == i64::MIN && y == -1 {
        i64::MIN
    } else {
        let xa: u64 = if x >= 0 {
            x as u64
        } else {
            (-(x as i128)) as u64
        };
        let ya: u64 = if y >= 0 {
            y as u64
        } else {
            (-(y as i128)) as u64
        };
        proof {
            assert(xa == vstd::math::abs(x as int));
            assert(ya == vstd::math::abs(y as int));
            assert(xa <= 0x8000_0000_0000_0000u64);
        }
        let qa = xa / ya;
        proof {
            assert(qa <= xa) by (nonlinear_arith)
                requires
                    ya >= 1,
                    xa >= 0,
                    qa == xa as int / ya as int,
            ;
            if ya >= 2 {
                assert(qa * 2 <= xa) by (nonlinear_arith)
                    requires
                        ya >= 2,
                        xa >= 0,
                        qa == xa as int / ya as int,
                ;
            } else {
                assert(qa == xa) by (nonlinear_arith)
                    requires
                        ya == 1,
                        xa >= 0,
                        qa == xa as int / ya as int,
                ;
            }
        }
        if (x < 0) != (y < 0) {
            (-(qa as i128)) as i64
        } else {
            proof {
                if qa == 0x8000_0000_0000_0000u64 {
                    assert(ya == 1);
                    assert(xa == 0x8000_0000_0000_0000u64);
                    assert(x == i64::MIN);
                    assert(y == -1 || y == 1);
                    assert(false);
                }
            }
            qa as i64
        }
    }
}

/// Decides `rem_i64`.
fn rem_wrap(x: i64, y: i64) -> (r: i64)
    requires
        y != 0,
    ensures
        r == rem_i64(x, y),
{
    if x == i64::MIN && y == -1 {
        0
    } else {
        let xa: u64 = if x >= 0 {
            x as u64
        } else {
            (-(x as i128)) as u64
        };
        let ya: u64 = if y >= 0 {
            y as u64
        } else {
            (-(y as i128)) as u64
        };
        proof {
            assert(xa == vstd::math::abs(x as int));
            assert(ya == vstd::math::abs(y as int));
            assert(ya <= 0x8000_0000_0000_0000u64);
        }
        let ra = xa % ya;
        if x < 0 {
            (-(ra as i128)) as i64
        } else {
            ra as i64
        }
    }
}

/// Decides `neg_i64`.
fn neg_wrap(x: i64) -> (r: i64)
    ensures
        r == neg_i64(x),
{
    if x == i64::MIN {
        i64::MIN
    } else {
        -x
    }
}


/// The whole state of a running machine: the current program counter,
/// code, and locals; the operand stack; the saved frames; the heap; and
/// the values printed so far. The heap never changes during execution.
#[verifier::ext_equal]
pub ghost struct VmState {
    pub pc: nat,
    pub block: BlockView,
    pub locals: Seq<Value>,
    pub stack: Seq<Value>,
    pub frames: Seq<FrameView>,
    pub heap: Seq<ObjectView>,
    pub output: Seq<Value>,
}

/// What one instruction does: carry on in a new state, end execution with
/// a result, or halt with a fault.
pub ghost enum StepResult {
    Next(VmState),
    Done(Value, VmState),
    Fault(RuntimeFault),
}

/// The outcome of running for a bounded number of steps.
pub ghost enum RunResult {
    Done(Value, VmState),
    Fault(RuntimeFault),
    Pending(VmState),
}

/// A branch target, kept inside the block: a displacement that lands
/// before the block or past its end ends the block instead.
pub open spec fn clamp_pc(t: int, len: nat) -> nat {
    if 0 <= t <= len {
        t as nat
    } else {
        len
    }
}

/// The float operation an arithmetic opcode performs, on bit patterns.
pub open spec fn fbin_bits(op: OpCode, x: u64, y: u64) -> u64 {
    match op {
        OpCode::Add => crate::fbits::fadd_bits(x, y),
        OpCode::Sub => crate::fbits::fsub_bits(x, y),
        OpCode::Mul => crate::fbits::fmul_bits(x, y),
        OpCode::Div => crate::fbits::fdiv_bits(x, y),
        OpCode::Rem => crate::fbits::frem_bits(x, y),
        _ => arbitrary(),
    }
}

/// The value `l (+) r` computes to under the numeric coercion rule:
/// integer with integer wraps on overflow; float with float follows
/// IEEE 754; a float paired with an integer promotes the integer, on
/// either side; integer division or remainder by zero is a fault, while
/// float division by zero follows IEEE 754 and is none; any other operand
/// kinds are a type mismatch.
pub open spec fn eval_arith(op: OpCode, l: Value, r: Value) -> Result<Value, RuntimeFault> {
    match (l, r) {
        (Value::Int(x), Value::Int(y)) => match op {
            OpCode::Add => Ok(Value::Int(vstd::wrapping::i64_specs::wrapping_add(x, y))),
            OpCode::Sub => Ok(Value::Int(vstd::wrapping::i64_specs::wrapping_sub(x, y))),
            OpCode::Mul => Ok(Value::Int(vstd::wrapping::i64_specs::wrapping_mul(x, y))),
            OpCode::Div => if y == 0 {
                Err(RuntimeFault::DivisionByZero)
            } else {
                Ok(Value::Int(div_i64(x, y)))
            },
            OpCode::Rem => if y == 0 {
                Err(RuntimeFault::DivisionByZero)
            } else {
                Ok(Value::Int(rem_i64(x, y)))
            },
            _ => Err(RuntimeFault::TypeMismatch),
        },
        (Value::Float(x), Value::Float(y)) => Ok(Value::Float(fbin_bits(op, x, y))),
        (Value::Float(x), Value::Int(y)) => Ok(
            Value::Float(fbin_bits(op, x, crate::fbits::fint_bits(y))),
        ),
        (Value::Int(x), Value::Float(y)) => Ok(
            Value::Float(fbin_bits(op, crate::fbits::fint_bits(x), y)),
        ),
        _ => Err(RuntimeFault::TypeMismatch),
    }
}

/// The float comparison a comparison opcode performs, on bit patterns.
/// `Gt` and `GtEq` are the mirrored `Lt` and `LtEq`.
pub open spec fn fcmp_bits(op: OpCode, x: u64, y: u64) -> bool {
    match op {
        OpCode::Lt => crate::fbits::flt_bits(x, y),
        OpCode::Gt => crate::fbits::flt_bits(y, x),
        OpCode::LtEq => crate::fbits::fle_bits(x, y),
        OpCode::GtEq => crate::fbits::fle_bits(y, x),
        _ => arbitrary(),
    }
}

/// The boolean `l (?) r` computes to: integer with integer compares
/// directly; a float paired with anything numeric compares as floats,
/// promoting the integer side; other operand kinds are a type mismatch.
pub open spec fn eval_cmp(op: OpCode, l: Value, r: Value) -> Result<Value, RuntimeFault> {
    match (l, r) {
        (Value::Int(x), Value::Int(y)) => Ok(
            Value::Bool(
                match op {
                    OpCode::Lt => x < y,
                    OpCode::Gt => x > y,
                    OpCode::LtEq => x <= y,
                    OpCode::GtEq => x >= y,
                    _ => arbitrary(),
                },
            ),
        ),
        (Value::Float(x), Value::Float(y)) => Ok(Value::Bool(fcmp_bits(op, x, y))),
        (Value::Float(x), Value::Int(y)) => Ok(
            Value::Bool(fcmp_bits(op, x, crate::fbits::fint_bits(y))),
        ),
        (Value::Int(x), Value::Float(y)) => Ok(
            Value::Bool(fcmp_bits(op, crate::fbits::fint_bits(x), y)),
        ),
        _ => Err(RuntimeFault::TypeMismatch),
    }
}

/// The value `-v` computes to: integers wrap on `i64::MIN`, floats flip
/// their sign, anything else is a type mismatch.
pub open spec fn eval_neg(v: Value) -> Result<Value, RuntimeFault> {
    match v {
        Value::Int(x) => Ok(Value::Int(neg_i64(x))),
        Value::Float(x) => Ok(Value::Float(crate::fbits::fneg_bits(x))),
        _ => Err(RuntimeFault::TypeMismatch),
    }
}

/// What `Return` does, also the meaning of running past the end of the
/// block: pop the result; with no saved frame, execution ends and yields
/// it; otherwise restore the caller (resuming after its `Call`) and push
/// the result for it.
pub open spec fn step_return(s: VmState) -> StepResult {
    if s.stack.len() == 0 {
        StepResult::Fault(RuntimeFault::StackUnderflow)
    } else {
        let v = s.stack.last();
        let rest = s.stack.drop_last();
        if s.frames.len() == 0 {
            StepResult::Done(v, VmState { stack: rest, ..s })
        } else {
            let f = s.frames.last();
            StepResult::Next(
                VmState {
                    pc: clamp_pc(f.pc + 1int, f.block.code.len()),
                    block: f.block,
                    locals: f.locals,
                    stack: rest.push(v),
                    frames: s.frames.drop_last(),
                    ..s
                },
            )
        }
    }
}

/// What an arithmetic opcode does: pop the right then the left operand,
/// compute under the coercion rule, push the result.
pub open spec fn step_arith(s: VmState, op: OpCode) -> StepResult {
    if s.stack.len() < 2 {
        StepResult::Fault(RuntimeFault::StackUnderflow)
    } else {
        let r = s.stack.last();
        let l = s.stack[s.stack.len() - 2];
        match eval_arith(op, l, r) {
            Ok(v) => StepResult::Next(
                VmState {
                    pc: s.pc + 1,
                    stack: s.stack.drop_last().drop_last().push(v),
                    ..s
                },
            ),
            Err(f) => StepResult::Fault(f),
        }
    }
}

/// What a comparison opcode does (same operand order as arithmetic).
pub open spec fn step_cmp(s: VmState, op: OpCode) -> StepResult {
    if s.stack.len() < 2 {
        StepResult::Fault(RuntimeFault::StackUnderflow)
    } else {
        let r = s.stack.last();
        let l = s.stack[s.stack.len() - 2];
        match eval_cmp(op, l, r) {
            Ok(v) => StepResult::Next(
                VmState {
                    pc: s.pc + 1,
                    stack: s.stack.drop_last().drop_last().push(v),
                    ..s
                },
            ),
            Err(f) => StepResult::Fault(f),
        }
    }
}

/// What `Call(n)` does: the callee sits `n + 1` deep under the arguments;
/// it must be a reference to a callable heap object; a fresh locals array
/// sized to the callee's table takes the arguments in order; the caller's
/// state is saved as a frame and the callee starts at instruction 0.
pub open spec fn step_call(s: VmState, n: nat) -> StepResult {
    if s.stack.len() < n + 1 {
        StepResult::Fault(RuntimeFault::StackUnderflow)
    } else {
        let fi = (s.stack.len() - n - 1) as int;
        match s.stack[fi] {
            Value::HeapRef(h) => if h >= s.heap.len() {
                StepResult::Fault(RuntimeFault::IndexOutOfRange)
            } else {
                match s.heap[h as int].kind {
                    HeapKindView::Function(b) => if n > b.locals.len() {
                        StepResult::Fault(RuntimeFault::IndexOutOfRange)
                    } else {
                        let new_locals = Seq::new(
                            b.locals.len(),
                            |j: int|
                                if j < n {
                                    s.stack[fi + 1 + j]
                                } else {
                                    Value::Null
                                },
                        );
                        StepResult::Next(
                            VmState {
                                pc: 0,
                                block: b,
                                locals: new_locals,
                                stack: s.stack.subrange(0, fi),
                                frames: s.frames.push(
                                    FrameView { pc: s.pc, locals: s.locals, block: s.block },
                                ),
                                ..s
                            },
                        )
                    },
                    _ => StepResult::Fault(RuntimeFault::CallOnNonCallable),
                }
            },
            _ => StepResult::Fault(RuntimeFault::CallOnNonCallable),
        }
    }
}

/// One step of the fetch-decode-execute loop.
pub open spec fn step(s: VmState) -> StepResult {
    let len = s.block.code.len();
    if s.pc >= len {
        step_return(s)
    } else {
        match s.block.code[s.pc as int] {
            OpCode::LoadConst(i) => if (i as int) < s.block.consts.len() {
                StepResult::Next(
                    VmState { pc: s.pc + 1, stack: s.stack.push(s.block.consts[i as int]), ..s },
                )
            } else {
                StepResult::Fault(RuntimeFault::IndexOutOfRange)
            },
            OpCode::LoadLocal(i) => if (i as int) < s.locals.len() {
                StepResult::Next(
                    VmState { pc: s.pc + 1, stack: s.stack.push(s.locals[i as int]), ..s },
                )
            } else {
                StepResult::Fault(RuntimeFault::IndexOutOfRange)
            },
            OpCode::StoreLocal(i) => if s.stack.len() == 0 {
                StepResult::Fault(RuntimeFault::StackUnderflow)
            } else if (i as int) >= s.locals.len() {
                StepResult::Fault(RuntimeFault::IndexOutOfRange)
            } else {
                StepResult::Next(
                    VmState {
                        pc: s.pc + 1,
                        locals: s.locals.update(i as int, s.stack.last()),
                        stack: s.stack.drop_last(),
                        ..s
                    },
                )
            },
            OpCode::BranchTrue(d) => if s.stack.len() == 0 {
                StepResult::Fault(RuntimeFault::StackUnderflow)
            } else {
                let t = if s.stack.last().is_truthy() {
                    s.pc + d
                } else {
                    s.pc + 1int
                };
                StepResult::Next(
                    VmState { pc: clamp_pc(t, len), stack: s.stack.drop_last(), ..s },
                )
            },
            OpCode::BranchFalse(d) => if s.stack.len() == 0 {
                StepResult::Fault(RuntimeFault::StackUnderflow)
            } else {
                let t = if !s.stack.last().is_truthy() {
                    s.pc + d
                } else {
                    s.pc + 1int
                };
                StepResult::Next(
                    VmState { pc: clamp_pc(t, len), stack: s.stack.drop_last(), ..s },
                )
            },
            OpCode::Jump(d) => StepResult::Next(VmState { pc: clamp_pc(s.pc + d, len), ..s }),
            OpCode::Pop => if s.stack.len() == 0 {
                StepResult::Fault(RuntimeFault::StackUnderflow)
            } else {
                StepResult::Next(VmState { pc: s.pc + 1, stack: s.stack.drop_last(), ..s })
            },
            OpCode::Add => step_arith(s, OpCode::Add),
            OpCode::Sub => step_arith(s, OpCode::Sub),
            OpCode::Mul => step_arith(s, OpCode::Mul),
            OpCode::Div => step_arith(s, OpCode::Div),
            OpCode::Rem => step_arith(s, OpCode::Rem),
            OpCode::Lt => step_cmp(s, OpCode::Lt),
            OpCode::Gt => step_cmp(s, OpCode::Gt),
            OpCode::LtEq => step_cmp(s, OpCode::LtEq),
            OpCode::GtEq => step_cmp(s, OpCode::GtEq),
            OpCode::Eq => if s.stack.len() < 2 {
                StepResult::Fault(RuntimeFault::StackUnderflow)
            } else {
                let r = s.stack.last();
                let l = s.stack[s.stack.len() - 2];
                StepResult::Next(
                    VmState {
                        pc: s.pc + 1,
                        stack: s.stack.drop_last().drop_last().push(
                            Value::Bool(crate::value::eq_value(l, r)),
                        ),
                        ..s
                    },
                )
            },
            OpCode::NotEq => if s.stack.len() < 2 {
                StepResult::Fault(RuntimeFault::StackUnderflow)
            } else {
                let r = s.stack.last();
                let l = s.stack[s.stack.len() - 2];
                StepResult::Next(
                    VmState {
                        pc: s.pc + 1,
                        stack: s.stack.drop_last().drop_last().push(
                            Value::Bool(!crate::value::eq_value(l, r)),
                        ),
                        ..s
                    },
                )
            },
            OpCode::Neg => if s.stack.len() == 0 {
                StepResult::Fault(RuntimeFault::StackUnderflow)
            } else {
                match eval_neg(s.stack.last()) {
                    Ok(v) => StepResult::Next(
                        VmState { pc: s.pc + 1, stack: s.stack.drop_last().push(v), ..s },
                    ),
                    Err(f) => StepResult::Fault(f),
                }
            },
            OpCode::Print => if s.stack.len() == 0 {
                StepResult::Fault(RuntimeFault::StackUnderflow)
            } else {
                StepResult::Next(
                    VmState {
                        pc: s.pc + 1,
                        stack: s.stack.drop_last(),
                        output: s.output.push(s.stack.last()),
                        ..s
                    },
                )
            },
            OpCode::Return => step_return(s),
            OpCode::Call(n) => step_call(s, n as nat),
        }
    }
}

/// Running for at most `fuel` steps.
pub open spec fn run(s: VmState, fuel: nat) -> RunResult
    decreases fuel,
{
    if fuel == 0 {
        RunResult::Pending(s)
    } else {
        match step(s) {
            StepResult::Next(t) => run(t, (fuel - 1) as nat),
            StepResult::Done(v, t) => RunResult::Done(v, t),
            StepResult::Fault(f) => RunResult::Fault(f),
        }
    }
}

/// Unfolding one more step at the end of a pending run.
pub proof fn lemma_run_succ(s: VmState, n: nat)
    ensures
        match run(s, n) {
            RunResult::Pending(t) => run(s, n + 1) == (match step(t) {
                StepResult::Next(u) => RunResult::Pending(u),
                StepResult::Done(v, u) => RunResult::Done(v, u),
                StepResult::Fault(f) => RunResult::Fault(f),
            }),
            RunResult::Done(v, t) => run(s, n + 1) == RunResult::Done(v, t),
            RunResult::Fault(f) => run(s, n + 1) == RunResult::Fault(f),
        },
    decreases n,
{
    reveal_with_fuel(run, 3);
    if n > 0 {
        match step(s) {
            StepResult::Next(t) => lemma_run_succ(t, (n - 1) as nat),
            _ => {},
        }
    }
}

/// A finished or faulted run stays what it is under more fuel.
pub proof fn lemma_run_stable(s: VmState, n: nat, m: nat)
    requires
        n <= m,
        !(run(s, n) is Pending),
    ensures
        run(s, m) == run(s, n),
    decreases n,
{
    if n > 0 && m > 0 {
        match step(s) {
            StepResult::Next(t) => lemma_run_stable(t, (n - 1) as nat, (m - 1) as nat),
            _ => {},
        }
    }
}


/// The outcome of one executed instruction.
enum ExecStep {
    Continue,
    Finished(Value),
    Faulted(RuntimeFault),
}

/// The machine state an executing `VirtualMachine` stands at, given the
/// execution-local current code, counter, and locals.
pub open spec fn state_of(m: MachineView, pc: nat, block: BlockView, locals: Seq<Value>) -> VmState {
    VmState {
        pc,
        block,
        locals,
        stack: m.value_stack,
        frames: m.call_stack,
        heap: m.heap,
        output: m.output,
    }
}

/// A locals array of `n` `Null` slots.
fn null_locals(n: usize) -> (r: Vec<Value>)
    ensures
        r@ == Seq::new(n as nat, |i: int| Value::Null),
{
    let mut v: Vec<Value> = Vec::new();
    let mut i: usize = 0;
    while i < n
        invariant
            i <= n,
            v@ == Seq::new(i as nat, |k: int| Value::Null),
        decreases n - i,
    {
        v.push(Value::Null);
        proof {
            assert(v@ =~= Seq::new((i + 1) as nat, |k: int| Value::Null));
        }
        i = i + 1;
    }
    v
}

/// Computes an arithmetic opcode on two popped operands.
fn arith_vals(op: OpCode, l: Value, r: Value) -> (res: Result<Value, RuntimeFault>)
    requires
        op matches OpCode::Add || op matches OpCode::Sub || op matches OpCode::Mul || op matches
            OpCode::Div || op matches OpCode::Rem,
    ensures
        res == eval_arith(op, l, r),
{
    match (l, r) {
        (Value::Int(x), Value::Int(y)) => match op {
            OpCode::Add => Ok(Value::Int(x.wrapping_add(y))),
            OpCode::Sub => Ok(Value::Int(x.wrapping_sub(y))),
            OpCode::Mul => Ok(Value::Int(x.wrapping_mul(y))),
            OpCode::Div => if y == 0 {
                Err(RuntimeFault::DivisionByZero)
            } else {
                Ok(Value::Int(div_wrap(x, y)))
            },
            _ => if y == 0 {
                Err(RuntimeFault::DivisionByZero)
            } else {
                Ok(Value::Int(rem_wrap(x, y)))
            },
        },
        (Value::Float(x), Value::Float(y)) => Ok(Value::Float(fbin_exec(op, x, y))),
        (Value::Float(x), Value::Int(y)) => Ok(
            Value::Float(fbin_exec(op, x, crate::fbits::int_bits(y))),
        ),
        (Value::Int(x), Value::Float(y)) => Ok(
            Value::Float(fbin_exec(op, crate::fbits::int_bits(x), y)),
        ),
        _ => Err(RuntimeFault::TypeMismatch),
    }
}

/// Computes an arithmetic opcode on two float bit patterns.
fn fbin_exec(op: OpCode, x: u64, y: u64) -> (r: u64)
    requires
        op matches OpCode::Add || op matches OpCode::Sub || op matches OpCode::Mul || op matches
            OpCode::Div || op matches OpCode::Rem,
    ensures
        r == fbin_bits(op, x, y),
{
    match op {
        OpCode::Add => crate::fbits::add_bits(x, y),
        OpCode::Sub => crate::fbits::sub_bits(x, y),
        OpCode::Mul => crate::fbits::mul_bits(x, y),
        OpCode::Div => crate::fbits::div_bits(x, y),
        _ => crate::fbits::rem_bits(x, y),
    }
}

/// Computes a comparison opcode on two float bit patterns.
fn fcmp_exec(op: OpCode, x: u64, y: u64) -> (r: bool)
    requires
        op matches OpCode::Lt || op matches OpCode::Gt || op matches OpCode::LtEq || op matches
            OpCode::GtEq,
    ensures
        r == fcmp_bits(op, x, y),
{
    match op {
        OpCode::Lt => crate::fbits::lt_bits(x, y),
        OpCode::Gt => crate::fbits::lt_bits(y, x),
        OpCode::LtEq => crate::fbits::le_bits(x, y),
        _ => crate::fbits::le_bits(y, x),
    }
}

/// Computes a comparison opcode on two popped operands.
fn cmp_vals(op: OpCode, l: Value, r: Value) -> (res: Result<Value, RuntimeFault>)
    requires
        op matches OpCode::Lt || op matches OpCode::Gt || op matches OpCode::LtEq || op matches
            OpCode::GtEq,
    ensures
        res == eval_cmp(op, l, r),
{
    match (l, r) {
        (Value::Int(x), Value::Int(y)) => Ok(
            Value::Bool(
                match op {
                    OpCode::Lt => x < y,
                    OpCode::Gt => x > y,
                    OpCode::LtEq => x <= y,
                    _ => x >= y,
                },
            ),
        ),
        (Value::Float(x), Value::Float(y)) => Ok(Value::Bool(fcmp_exec(op, x, y))),
        (Value::Float(x), Value::Int(y)) => Ok(
            Value::Bool(fcmp_exec(op, x, crate::fbits::int_bits(y))),
        ),
        (Value::Int(x), Value::Float(y)) => Ok(
            Value::Bool(fcmp_exec(op, crate::fbits::int_bits(x), y)),
        ),
        _ => Err(RuntimeFault::TypeMismatch),
    }
}

/// Computes `Neg` on a popped operand.
fn neg_vals(v: Value) -> (res: Result<Value, RuntimeFault>)
    ensures
        res == eval_neg(v),
{
    match v {
        Value::Int(x) => Ok(Value::Int(neg_wrap(x))),
        Value::Float(x) => Ok(Value::Float(crate::fbits::neg_bits(x))),
        _ => Err(RuntimeFault::TypeMismatch),
    }
}

impl VirtualMachine {
    /// Executes the single instruction the machine stands at.
    #[verifier::loop_isolation(false)]
    #[verifier::rlimit(100)]
    fn step_exec(&mut self, pc: &mut usize, func: &mut CompiledBlock, locals: &mut Vec<Value>) -> (r:
        ExecStep)
        requires
            *old(pc) <= old(func).code.len(),
        ensures
            final(self)@.heap == old(self)@.heap,
            *final(pc) <= final(func).code.len(),
            ({
                let s0 = state_of(old(self)@, *old(pc) as nat, old(func)@, old(locals)@);
                let s1 = state_of(final(self)@, *final(pc) as nat, final(func)@, final(locals)@);
                match r {
                    ExecStep::Continue => step(s0) == StepResult::Next(s1),
                    ExecStep::Finished(v) => step(s0) == StepResult::Done(v, s1),
                    ExecStep::Faulted(f) => step(s0) == StepResult::Fault(f),
                }
            }),
    {
        let len = func.code.len();
        let op: OpCode = if *pc < len {
            func.code[*pc]
        } else {
            OpCode::Return
        };
        match op {
            OpCode::LoadConst(i) => {
                if (i as usize) < func.consts.len() {
                    self.value_stack.push(func.consts[i as usize]);
                    *pc = *pc + 1;
                    ExecStep::Continue
                } else {
                    ExecStep::Faulted(RuntimeFault::IndexOutOfRange)
                }
            },
            OpCode::LoadLocal(i) => {
                if (i as usize) < locals.len() {
                    self.value_stack.push(locals[i as usize]);
                    *pc = *pc + 1;
                    ExecStep::Continue
                } else {
                    ExecStep::Faulted(RuntimeFault::IndexOutOfRange)
                }
            },
            OpCode::StoreLocal(i) => match self.value_stack.pop() {
                None => ExecStep::Faulted(RuntimeFault::StackUnderflow),
                Some(v) => {
                    if (i as usize) < locals.len() {
                        locals.set(i as usize, v);
                        *pc = *pc + 1;
                        ExecStep::Continue
                    } else {
                        ExecStep::Faulted(RuntimeFault::IndexOutOfRange)
                    }
                },
            },
            OpCode::BranchTrue(d) => match self.value_stack.pop() {
                None => ExecStep::Faulted(RuntimeFault::StackUnderflow),
                Some(v) => {
                    let target: i128 = if v.truthy() {
                        *pc as i128 + d as i128
                    } else {
                        *pc as i128 + 1
                    };
                    if 0 <= target && target <= len as i128 {
                        *pc = target as usize;
                    } else {
                        *pc = len;
                    }
                    ExecStep::Continue
                },
            },
            OpCode::BranchFalse(d) => match self.value_stack.pop() {
                None => ExecStep::Faulted(RuntimeFault::StackUnderflow),
                Some(v) => {
                    let target: i128 = if !v.truthy() {
                        *pc as i128 + d as i128
                    } else {
                        *pc as i128 + 1
                    };
                    if 0 <= target && target <= len as i128 {
                        *pc = target as usize;
                    } else {
                        *pc = len;
                    }
                    ExecStep::Continue
                },
            },
            OpCode::Jump(d) => {
                let target: i128 = *pc as i128 + d as i128;
                if 0 <= target && target <= len as i128 {
                    *pc = target as usize;
                } else {
                    *pc = len;
                }
                ExecStep::Continue
            },
            OpCode::Pop => match self.value_stack.pop() {
                None => ExecStep::Faulted(RuntimeFault::StackUnderflow),
                Some(_) => {
                    *pc = *pc + 1;
                    ExecStep::Continue
                },
            },
            OpCode::Add | OpCode::Sub | OpCode::Mul | OpCode::Div | OpCode::Rem => {
                if self.value_stack.len() < 2 {
                    return ExecStep::Faulted(RuntimeFault::StackUnderflow);
                }
                let a = self.value_stack.pop().unwrap();
                let b = self.value_stack.pop().unwrap();
                match arith_vals(op, b, a) {
                    Ok(v) => {
                        self.value_stack.push(v);
                        *pc = *pc + 1;
                        ExecStep::Continue
                    },
                    Err(f) => ExecStep::Faulted(f),
                }
            },
            OpCode::Lt | OpCode::Gt | OpCode::LtEq | OpCode::GtEq => {
                if self.value_stack.len() < 2 {
                    return ExecStep::Faulted(RuntimeFault::StackUnderflow);
                }
                let a = self.value_stack.pop().unwrap();
                let b = self.value_stack.pop().unwrap();
                match cmp_vals(op, b, a) {
                    Ok(v) => {
                        self.value_stack.push(v);
                        *pc = *pc + 1;
                        ExecStep::Continue
                    },
                    Err(f) => ExecStep::Faulted(f),
                }
            },
            OpCode::Eq => {
                if self.value_stack.len() < 2 {
                    return ExecStep::Faulted(RuntimeFault::StackUnderflow);
                }
                let a = self.value_stack.pop().unwrap();
                let b = self.value_stack.pop().unwrap();
                self.value_stack.push(Value::Bool(crate::value::value_eq(b, a)));
                *pc = *pc + 1;
                ExecStep::Continue
            },
            OpCode::NotEq => {
                if self.value_stack.len() < 2 {
                    return ExecStep::Faulted(RuntimeFault::StackUnderflow);
                }
                let a = self.value_stack.pop().unwrap();
                let b = self.value_stack.pop().unwrap();
                self.value_stack.push(Value::Bool(!crate::value::value_eq(b, a)));
                *pc = *pc + 1;
                ExecStep::Continue
            },
            OpCode::Neg => match self.value_stack.pop() {
                None => ExecStep::Faulted(RuntimeFault::StackUnderflow),
                Some(v) => match neg_vals(v) {
                    Ok(w) => {
                        self.value_stack.push(w);
                        *pc = *pc + 1;
                        ExecStep::Continue
                    },
                    Err(f) => ExecStep::Faulted(f),
                },
            },
            OpCode::Print => match self.value_stack.pop() {
                None => ExecStep::Faulted(RuntimeFault::StackUnderflow),
                Some(v) => {
                    self.output.push(v);
                    *pc = *pc + 1;
                    ExecStep::Continue
                },
            },
            OpCode::Call(argc) => {
                let n = argc as usize;
                if self.value_stack.len() < n + 1 {
                    return ExecStep::Faulted(RuntimeFault::StackUnderflow);
                }
                let fi = self.value_stack.len() - n - 1;
                let fv = self.value_stack[fi];
                match fv {
                    Value::HeapRef(h) => {
                        if h >= self.heap.len() {
                            return ExecStep::Faulted(RuntimeFault::IndexOutOfRange);
                        }
                        let dup: CompiledBlock = match &self.heap[h].kind {
                            HeapKind::Function(fb) => fb.duplicate(),
                            _ => {
                                return ExecStep::Faulted(RuntimeFault::CallOnNonCallable);
                            },
                        };
                        if n > dup.locals.len() {
                            return ExecStep::Faulted(RuntimeFault::IndexOutOfRange);
                        }
                        let mut new_locals = null_locals(dup.locals.len());
                        let mut j: usize = 0;
                        while j < n
                            invariant
                                j <= n,
                                n <= new_locals.len(),
                                new_locals@.len() == dup.locals@.len(),
                                forall|i: int|
                                    0 <= i < j ==> #[trigger] new_locals@[i] == self.value_stack@[fi
                                        + 1 + i],
                                forall|i: int|
                                    j <= i < new_locals@.len() ==> #[trigger] new_locals@[i]
                                        == Value::Null,
                            decreases n - j,
                        {
                            new_locals.set(j, self.value_stack[fi + 1 + j]);
                            j = j + 1;
                        }
                        self.value_stack.truncate(fi);
                        let mut newf = dup;
                        core::mem::swap(&mut newf, func);
                        let mut newl = new_locals;
                        core::mem::swap(&mut newl, locals);
                        self.call_stack.push(CallInfo { pc: *pc, locals: newl, func: newf });
                        *pc = 0;
                        proof {
                            let s0 = state_of(
                                old(self)@,
                                *old(pc) as nat,
                                old(func)@,
                                old(locals)@,
                            );
                            let s1 = state_of(self@, 0nat, func@, locals@);
                            assert(self@.call_stack =~= old(self)@.call_stack.push(
                                FrameView {
                                    pc: *old(pc) as nat,
                                    locals: old(locals)@,
                                    block: old(func)@,
                                },
                            ));
                            assert(locals@ =~= Seq::new(
                                func@.locals.len(),
                                |i: int|
                                    if i < n {
                                        old(self)@.value_stack[fi + 1 + i]
                                    } else {
                                        Value::Null
                                    },
                            ));
                            assert(step(s0) == StepResult::Next(s1));
                        }
                        ExecStep::Continue
                    },
                    _ => ExecStep::Faulted(RuntimeFault::CallOnNonCallable),
                }
            },
            OpCode::Return => {
                let result = match self.value_stack.pop() {
                    None => {
                        return ExecStep::Faulted(RuntimeFault::StackUnderflow);
                    },
                    Some(v) => v,
                };
                match self.call_stack.pop() {
                    None => {
                        proof {
                            assert(self@.call_stack =~= old(self)@.call_stack);
                        }
                        ExecStep::Finished(result)
                    },
                    Some(frame) => {
                        let CallInfo { pc: fpc, locals: flocals, func: ffunc } = frame;
                        *func = ffunc;
                        *locals = flocals;
                        let len2 = func.code.len();
                        *pc = if fpc < len2 {
                            fpc + 1
                        } else {
                            len2
                        };
                        self.value_stack.push(result);
                        proof {
                            assert(self@.call_stack =~= old(self)@.call_stack.drop_last());
                        }
                        ExecStep::Continue
                    },
                }
            },
        }
    }

    /// Runs `block` on this machine until its program ends, a fault halts
    /// it, or the execution budget runs out, which a runaway program is
    /// reported as. The heap never changes: no allocation happens at run
    /// time. The result, the final stacks, and the printed output are
    /// exactly what the step semantics `run` ascribes to the starting
    /// state.
    #[verifier::loop_isolation(false)]
    pub fn execute(&mut self, block: &CompiledBlock) -> (r: Result<Value, RuntimeFault>)
        ensures
            final(self)@.heap == old(self)@.heap,
            ({
                let outcome = run(init_state(old(self)@, block@), STEP_BUDGET as nat);
                match outcome {
                    RunResult::Done(v, t) => r == Ok::<Value, RuntimeFault>(v)
                        && final(self)@.value_stack == t.stack
                        && final(self)@.call_stack == t.frames
                        && final(self)@.output == t.output,
                    RunResult::Fault(f) => r == Err::<Value, RuntimeFault>(f),
                    RunResult::Pending(_) => r == Err::<Value, RuntimeFault>(
                        RuntimeFault::StackOverflow,
                    ),
                }
            }),
    {
        let mut func: CompiledBlock = block.duplicate();
        let mut pc: usize = 0;
        let mut locals: Vec<Value> = null_locals(func.locals.len());
        let ghost init = init_state(old(self)@, block@);
        let mut fuel: u64 = STEP_BUDGET;
        proof {
            assert(state_of(self@, pc as nat, func@, locals@) =~= init);
        }
        loop
            invariant
                fuel <= STEP_BUDGET,
                pc <= func.code.len(),
                self@.heap == old(self)@.heap,
                run(init, (STEP_BUDGET - fuel) as nat) == RunResult::Pending(
                    state_of(self@, pc as nat, func@, locals@),
                ),
            decreases fuel,
        {
            if fuel == 0 {
                return Err(RuntimeFault::StackOverflow);
            }
            let ghost k = (STEP_BUDGET - fuel) as nat;
            proof {
                lemma_run_succ(init, k);
            }
            let stepped = self.step_exec(&mut pc, &mut func, &mut locals);
            fuel = fuel - 1;
            match stepped {
                ExecStep::Continue => {},
                ExecStep::Finished(v) => {
                    proof {
                        lemma_run_stable(init, k + 1, STEP_BUDGET as nat);
                    }
                    return Ok(v);
                },
                ExecStep::Faulted(f) => {
                    proof {
                        lemma_run_stable(init, k + 1, STEP_BUDGET as nat);
                    }
                    return Err(f);
                },
            }
        }
    }
}

/// The state `execute` starts from: instruction 0 of the block, locals
/// all `Null`, continuing on the machine's existing stacks and output.
pub open spec fn init_state(m: MachineView, b: BlockView) -> VmState {
    VmState {
        pc: 0,
        block: b,
        locals: Seq::new(b.locals.len(), |i: int| Value::Null),
        stack: m.value_stack,
        frames: m.call_stack,
        heap: m.heap,
        output: m.output,
    }
}

/// How many instructions one `execute` may run before a runaway program
/// is reported as a stack overflow.
pub const STEP_BUDGET: u64 = 1000000;

} // verus!
