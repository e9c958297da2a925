//! Error types of the toolchain core: compile-time errors with optional
//! source positions, and the typed run-time faults of the virtual machine.

use vstd::prelude::*;

verus! {

/// Line/column position of a token in the source text, carried through the
/// AST so that diagnostics can point back at the source.
#[derive(Debug, Clone, Copy, PartialEq, Eq, Structural)]
pub struct TokenPosition {
    pub line: usize,
    pub col: usize,
}

/// The reasons compilation of a block can fail.
#[derive(Debug, Clone, Copy, PartialEq, Eq, Structural)]
pub enum CompileErrorValue {
    /// The local-slot table would exceed the 16-bit index space.
    LocalOverflow,
    /// A local was declared twice in one compiling scope.
    RedeclaredLocal,
    /// A local was referenced but never declared in the scope chain.
    UndeclaredLocal,
    /// The constant pool would exceed the 16-bit index space.
    ConstantOverflow,
    /// A patched branch displacement does not fit a 16-bit signed integer.
    BranchTooFar,
}

/// A compile-time error: what went wrong, and where in the source, if known.
#[derive(Debug, Clone, Copy, PartialEq, Eq, Structural)]
pub struct CompileError {
    pub value: CompileErrorValue,
    pub position: Option<TokenPosition>,
}

impl CompileError {
    /// An error without a source position.
    pub fn new(value: CompileErrorValue) -> (r: CompileError)
        ensures
            r.value == value,
            r.position is None,
    {
        CompileError { value, position: None }
    }

    /// An error pointing at a source position.
    pub fn new_pos(value: CompileErrorValue, position: TokenPosition) -> (r: CompileError)
        ensures
            r.value == value,
            r.position == Some(position),
    {
        CompileError { value, position: Some(position) }
    }
}

/// The typed run-time faults: execution halts immediately when one arises,
/// and the fault is the terminal result of `execute`.
#[derive(Debug, Clone, Copy, PartialEq, Eq, Structural)]
pub enum RuntimeFault {
    /// A value was popped from an empty operand stack.
    StackUnderflow,
    /// A constant or local slot index lay outside its table.
    IndexOutOfRange,
    /// The callee of a `Call` was not a reference to a callable object.
    CallOnNonCallable,
    /// Operand kinds incompatible with an arithmetic or comparison opcode.
    TypeMismatch,
    /// Integer division or remainder by zero.
    DivisionByZero,
    /// A runaway program exhausted the machine's execution budget.
    StackOverflow,
}

} // verus!
