//! The tagged runtime value representation and the heap object model.
//!
//! Heap objects live in an arena: a dense array owned by one virtual
//! machine, indexed by `Value::HeapRef`. Every object ever allocated stays
//! in the arena for the lifetime of the machine; the `marked` bit is
//! bookkeeping reserved for a future collector and is never set or
//! consulted here.

use vstd::prelude::*;

use crate::bytecode::{BlockView, CompiledBlock};
use crate::fbits::feq_bits;

verus! {

/// A runtime value: a small tagged union, copyable.
///
/// `Float` carries the IEEE 754 binary64 bit pattern of its value.
/// `HeapRef` is the arena index of a heap object; two references are the
/// same value exactly when they name the same arena slot.
#[derive(Debug, Clone, Copy, PartialEq, Eq, Hash, Structural)]
pub enum Value {
    Bool(bool),
    Int(i64),
    Float(u64),
    Char(char),
    Null,
    HeapRef(usize),
}

/// The payload of a heap object: an immutable boxed string, or a compiled
/// callable block.
#[derive(Debug, Clone)]
pub enum HeapKind {
    Str(String),
    Function(CompiledBlock),
}

/// One heap-allocated record in a machine's arena.
#[derive(Debug, Clone)]
pub struct HeapObject {
    /// Reserved for a future mark-sweep collector; inert in this core.
    pub marked: bool,
    pub kind: HeapKind,
}

/// Mathematical model of a heap payload.
pub ghost enum HeapKindView {
    Str(Seq<char>),
    Function(BlockView),
}

/// Mathematical model of a heap object.
pub ghost struct ObjectView {
    pub marked: bool,
    pub kind: HeapKindView,
}

impl View for HeapKind {
    type V = HeapKindView;

    open spec fn view(&self) -> HeapKindView {
        match self {
            HeapKind::Str(s) => HeapKindView::Str(s@),
            HeapKind::Function(b) => HeapKindView::Function(b@),
        }
    }
}

impl View for HeapObject {
    type V = ObjectView;

    open spec fn view(&self) -> ObjectView {
        ObjectView { marked: self.marked, kind: self.kind@ }
    }
}

impl Value {
    /// A value is truthy unless it is `Null` or `Bool(false)`.
    pub open spec fn is_truthy(self) -> bool {
        !(self == Value::Null || self == Value::Bool(false))
    }

    /// Whether this value counts as true when a branch tests it.
    pub fn truthy(self) -> (r: bool)
        ensures
            r == self.is_truthy(),
    {
        match self {
            Value::Null => false,
            Value::Bool(b) => b,
            _ => true,
        }
    }
}

/// Structural equality per variant, the meaning of the `Eq` opcode:
/// values of different variants are unequal; `Float` payloads compare by
/// IEEE 754 equality; `HeapRef` compares identity (the arena slot), so two
/// separately allocated objects are unequal whatever they contain.
pub open spec fn eq_value(a: Value, b: Value) -> bool {
    match (a, b) {
        (Value::Float(x), Value::Float(y)) => feq_bits(x, y),
        _ => a == b,
    }
}

/// Decides `eq_value`.
pub fn value_eq(a: Value, b: Value) -> (r: bool)
    ensures
        r == eq_value(a, b),
{
    match (a, b) {
        (Value::Bool(x), Value::Bool(y)) => x == y,
        (Value::Int(x), Value::Int(y)) => x == y,
        (Value::Float(x), Value::Float(y)) => crate::fbits::eq_bits(x, y),
        (Value::Char(x), Value::Char(y)) => x == y,
        (Value::Null, Value::Null) => true,
        (Value::HeapRef(x), Value::HeapRef(y)) => x == y,
        _ => false,
    }
}

} // verus!
