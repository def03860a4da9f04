//! Zyl: the back half of a compiler for the Zyl language — an SSA IR with an
//! x86_64 assembly generator and an LLVM IR printer, the compiler pipeline that
//! lowers a checked program to that IR and optimizes it, and the pass that turns
//! contract forms into runtime checks.

pub mod text;
pub mod error;
pub mod ir;
pub mod debug_text;
pub mod codegen;
pub mod contract_injection;
pub mod ast;
pub mod eval;
pub mod ffi;
pub mod symbols;
pub mod dce;
pub mod lowering;
pub mod straight_line;
pub mod compiler;
pub mod meaning;
