//! The bytecode chunk: instruction bytes, a parallel line-number table,
//! and the constant pool.

use vstd::prelude::*;

use crate::value::Value;

verus! {

/// Load the constant whose pool index follows as a one-byte operand.
pub const OP_CONSTANT: u8 = 0;

pub const OP_NIL: u8 = 1;

pub const OP_TRUE: u8 = 2;

pub const OP_FALSE: u8 = 3;

pub const OP_EQUAL: u8 = 4;

pub const OP_GREATER: u8 = 5;

pub const OP_LESS: u8 = 6;

pub const OP_ADD: u8 = 7;

pub const OP_SUBTRACT: u8 = 8;

pub const OP_MULTIPLY: u8 = 9;

pub const OP_DIVIDE: u8 = 10;

pub const OP_NOT: u8 = 11;

pub const OP_NEGATE: u8 = 12;

pub const OP_RETURN: u8 = 13;

/// An opcode that takes no operand.
pub open spec fn simple_opcode(b: u8) -> bool {
    OP_NIL <= b <= OP_RETURN
}

/// The instruction bytes decode into whole instructions, and every
/// constant-load operand is a valid index into a pool of `npool` entries.
/// This is the shape the virtual machine relies on.
pub open spec fn code_wf(code: Seq<u8>, npool: int) -> bool
    decreases code.len(),
{
    ||| code.len() == 0
    ||| (if code[0] == OP_CONSTANT {
        &&& code.len() >= 2
        &&& (code[1] as int) < npool
        &&& code_wf(code.skip(2), npool)
    } else {
        &&& simple_opcode(code[0])
        &&& code_wf(code.skip(1), npool)
    })
}

/// Growing the constant pool never invalidates already-emitted operands.
pub proof fn lemma_code_wf_mono(code: Seq<u8>, n1: int, n2: int)
    requires
        code_wf(code, n1),
        n1 <= n2,
    ensures
        code_wf(code, n2),
    decreases code.len(),
{
    if code.len() != 0 {
        if code[0] == OP_CONSTANT {
            lemma_code_wf_mono(code.skip(2), n1, n2);
        } else {
            lemma_code_wf_mono(code.skip(1), n1, n2);
        }
    }
}

/// Well-formed instruction sequences stay well formed under concatenation.
pub proof fn lemma_code_wf_append(c1: Seq<u8>, c2: Seq<u8>, npool: int)
    requires
        code_wf(c1, npool),
        code_wf(c2, npool),
    ensures
        code_wf(c1 + c2, npool),
    decreases c1.len(),
{
    if c1.len() == 0 {
        assert(c1 + c2 =~= c2);
    } else if c1[0] == OP_CONSTANT {
        assert((c1 + c2).skip(2) =~= c1.skip(2) + c2);
        lemma_code_wf_append(c1.skip(2), c2, npool);
    } else {
        assert((c1 + c2).skip(1) =~= c1.skip(1) + c2);
        lemma_code_wf_append(c1.skip(1), c2, npool);
    }
}

/// A single zero-operand instruction is a well-formed sequence.
pub proof fn lemma_code_wf_simple(op: u8, npool: int)
    requires
        simple_opcode(op),
    ensures
        code_wf(seq![op], npool),
{
    assert(seq![op].skip(1) =~= Seq::<u8>::empty());
    assert(code_wf(Seq::<u8>::empty(), npool));
}

/// A two-byte instruction — two zero-operand opcodes, or a constant load
/// with an in-range operand — is a well-formed sequence.
pub proof fn lemma_code_wf_two(b1: u8, b2: u8, npool: int)
    requires
        (simple_opcode(b1) && simple_opcode(b2)) || (b1 == OP_CONSTANT && (b2 as int) < npool),
    ensures
        code_wf(seq![b1, b2], npool),
{
    if b1 == OP_CONSTANT {
        assert(seq![b1, b2].skip(2) =~= Seq::<u8>::empty());
        assert(code_wf(Seq::<u8>::empty(), npool));
    } else {
        assert(seq![b1, b2].skip(1) =~= seq![b2]);
        lemma_code_wf_simple(b2, npool);
    }
}

/// The compiled output: an ordered byte sequence of opcodes and one-byte
/// operands, one source line per emitted byte, and the constant pool that
/// the operand bytes index into.
#[derive(Debug)]
pub struct Chunk {
    pub code: Vec<u8>,
    pub lines: Vec<u32>,
    pub constants: Vec<Value>,
}

impl Chunk {
    /// An empty chunk.
    pub fn new() -> (c: Chunk)
        ensures
            c.code@ == Seq::<u8>::empty(),
            c.lines@ == Seq::<u32>::empty(),
            c.constants@ == Seq::<Value>::empty(),
    {
        Chunk { code: Vec::new(), lines: Vec::new(), constants: Vec::new() }
    }

    /// Append one byte to the instruction sequence, tagged with the source
    /// line it was emitted for.
    pub fn write_byte(&mut self, byte: u8, line: u32)
        ensures
            final(self).code@ == old(self).code@.push(byte),
            final(self).lines@ == old(self).lines@.push(line),
            final(self).constants == old(self).constants,
    {
        self.code.push(byte);
        self.lines.push(line);
    }

    /// Append a value to the constant pool and return its index.
    pub fn add_constant(&mut self, value: Value) -> (idx: usize)
        ensures
            final(self).constants@ == old(self).constants@.push(value),
            idx == old(self).constants@.len(),
            final(self).code == old(self).code,
            final(self).lines == old(self).lines,
    {
        let idx = self.constants.len();
        self.constants.push(value);
        idx
    }
}

} // verus!
