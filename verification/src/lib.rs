//! A small scripting-language toolchain core: a bytecode compiler and a
//! stack-machine interpreter with a minimal heap for boxed values.

pub mod ast;
pub mod bytecode;
pub mod compiler;
pub mod error;
pub mod fbits;
pub mod laws;
pub mod value;
pub mod vm;
