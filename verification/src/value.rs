//! Runtime values as they appear in a chunk's constant pool.

use vstd::prelude::*;

verus! {

/// A runtime value of the target machine.  The compiler places only
/// `Num` and `Str` values into a constant pool: booleans and nil are
/// cheap enough to get dedicated opcodes instead of pool entries.
///
/// A numeric constant is carried as its decimal source text, exactly as
/// the scanner delivered it; the evaluating machine converts it to its
/// number representation when the chunk is loaded.  A string constant is
/// an opaque handle into the interning table: the compiler never looks at
/// string contents again after interning.
#[derive(Debug)]
pub enum Value {
    Num(String),
    Bool(bool),
    Nil,
    Str(usize),
}

} // verus!
