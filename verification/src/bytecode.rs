//! The bytecode instruction set and the unit of compiled code.

use vstd::prelude::*;

use crate::value::Value;

verus! {

/// One instruction, carrying the minimal operand it needs: a 16-bit
/// unsigned index for constant and local slots, a 16-bit signed
/// displacement for branches (an instruction-count delta relative to the
/// branch's own position), and an 8-bit argument count for calls.
#[derive(Debug, Clone, Copy, PartialEq, Eq, Structural)]
pub enum OpCode {
    Add,
    Sub,
    Mul,
    Rem,
    Div,
    Neg,
    Lt,
    Gt,
    LtEq,
    GtEq,
    Eq,
    NotEq,
    LoadConst(u16),
    LoadLocal(u16),
    StoreLocal(u16),
    BranchTrue(i16),
    BranchFalse(i16),
    Jump(i16),
    Pop,
    Return,
    Call(u8),
    Print,
}

/// An immutable unit of compiled code: an instruction sequence, a constant
/// pool, and the table of local-slot names (index to name; the names serve
/// introspection, not execution).
#[derive(Debug, Clone)]
pub struct CompiledBlock {
    pub code: Vec<OpCode>,
    pub consts: Vec<Value>,
    pub locals: Vec<String>,
}

/// Mathematical model of a compiled block.
#[verifier::ext_equal]
pub ghost struct BlockView {
    pub code: Seq<OpCode>,
    pub consts: Seq<Value>,
    pub locals: Seq<Seq<char>>,
}

impl View for CompiledBlock {
    type V = BlockView;

    open spec fn view(&self) -> BlockView {
        BlockView {
            code: self.code@,
            consts: self.consts@,
            locals: self.locals@.map_values(|s: String| s@),
        }
    }
}

impl BlockView {
    /// The instruction at `i` addresses only slots its block has: constant
    /// and local indices lie inside their tables, and a branch lands inside
    /// the code (landing one past the last instruction ends the block).
    pub open spec fn op_wf(self, i: int) -> bool {
        match self.code[i] {
            OpCode::LoadConst(c) => (c as int) < self.consts.len(),
            OpCode::LoadLocal(l) => (l as int) < self.locals.len(),
            OpCode::StoreLocal(l) => (l as int) < self.locals.len(),
            OpCode::BranchTrue(d) => 0 <= i + d <= self.code.len(),
            OpCode::BranchFalse(d) => 0 <= i + d <= self.code.len(),
            OpCode::Jump(d) => 0 <= i + d <= self.code.len(),
            _ => true,
        }
    }

    /// Every instruction of the block is well formed.
    pub open spec fn wf(self) -> bool {
        forall|i: int| 0 <= i < self.code.len() ==> #[trigger] self.op_wf(i)
    }
}

impl CompiledBlock {
    /// An element-by-element copy of this block, equal to it in the model.
    pub fn duplicate(&self) -> (r: CompiledBlock)
        ensures
            r@ == self@,
    {
        let mut code: Vec<OpCode> = Vec::new();
        let mut i: usize = 0;
        while i < self.code.len()
            invariant
                i <= self.code.len(),
                code@ == self.code@.subrange(0, i as int),
            decreases self.code.len() - i,
        {
            code.push(self.code[i]);
            i = i + 1;
        }
        let mut consts: Vec<Value> = Vec::new();
        let mut j: usize = 0;
        while j < self.consts.len()
            invariant
                j <= self.consts.len(),
                consts@ == self.consts@.subrange(0, j as int),
            decreases self.consts.len() - j,
        {
            consts.push(self.consts[j]);
            j = j + 1;
        }
        let mut locals: Vec<String> = Vec::new();
        let mut k: usize = 0;
        while k < self.locals.len()
            invariant
                k <= self.locals.len(),
                locals@ == self.locals@.subrange(0, k as int),
            decreases self.locals.len() - k,
        {
            locals.push(self.locals[k].clone());
            k = k + 1;
        }
        let r = CompiledBlock { code, consts, locals };
        proof {
            assert(r.code@ =~= self.code@);
            assert(r.consts@ =~= self.consts@);
            assert(r.locals@ =~= self.locals@);
            assert(r@ =~= self@);
        }
        r
    }
}

} // verus!
