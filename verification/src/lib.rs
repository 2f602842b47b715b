//! A small expression language in two phases: a scanner and a single-pass
//! precedence-climbing compiler turn source text into bytecode, and a stack
//! machine executes the bytecode.
//!
//! The crate never computes with floating-point numbers itself. A
//! [`value::Value`] stands for a double-precision number, either as the
//! literal that the source holds or as the 64 bits of its encoding, and the
//! machine hands every arithmetic operation to its host as a
//! [`vm::Action`]: the host computes the result and pushes it.
//!
//! - [`value`]: the numbers, and the storage of a constant pool.
//! - [`chunk`]: the bytecode, with its lines and its constants.
//! - [`compiler`]: the tokens, the scanner, the rules of the parser and the
//!   compiler itself; [`compiler::grammar`] says what the compiler accepts
//!   and what code it writes, as a grammar of expression trees.
//! - [`vm`]: the stack machine.
//! - [`semantics`]: the value of an expression, and the proof that the code
//!   of an expression computes it.
//! - [`text`]: numbers in decimal notation.

pub mod chunk;
pub mod compiler;
pub mod semantics;
pub mod text;
pub mod value;
pub mod vm;
