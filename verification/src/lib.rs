//! A small dynamically typed scripting language: a single-pass compiler from
//! source text to bytecode, and a stack machine that runs the bytecode.
//!
//! Source text flows through the [`scanner`] into the [`compiler`], which
//! writes a [`chunk::Chunk`]; the [`vm`] then executes that chunk. Numbers are
//! IEEE 754 binary64 values held as their 64-bit patterns. The library orders,
//! compares and negates them itself; reading a literal, the four arithmetic
//! operations and printing are left to the host, which the machine asks
//! through [`vm::Pause`].
pub mod chunk;
pub mod compiler;
pub mod scanner;
pub mod token;
pub mod value;
pub mod vm;
