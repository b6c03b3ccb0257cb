//! Front-end bytecode compiler for expressions of a small dynamically typed
//! scripting language.
//!
//! A single-pass Pratt (operator-precedence) parser pulls tokens from a
//! pre-scanned stream and interleaves parsing with code generation: the
//! output is a bytecode chunk (instruction bytes, a parallel line-number
//! table, and a constant pool) for a stack-based virtual machine.  String
//! literals are routed through an interning table and enter the constant
//! pool as stable handles.

use vstd::prelude::*;

pub mod chunk;
pub mod compiler;
pub mod grammar;
pub mod interner;
pub mod parser;
pub mod rules;
pub mod token;
pub mod value;

pub use crate::chunk::Chunk;
pub use crate::compiler::CompileFailure;
pub use crate::compiler::Compiler;
pub use crate::interner::Interner;
pub use crate::parser::CompileError;
pub use crate::parser::ErrorContext;
pub use crate::parser::Parser;
pub use crate::token::Token;
pub use crate::token::TokenKind;
pub use crate::value::Value;

verus! {

/// `post` extends `pre`: everything already in `pre` is still there,
/// unchanged and in place; new entries may follow.
pub open spec fn is_extension_of<A>(post: Seq<A>, pre: Seq<A>) -> bool {
    &&& post.len() >= pre.len()
    &&& forall|i: int| 0 <= i < pre.len() ==> post[i] == pre[i]
}

} // verus!
