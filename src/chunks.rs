use vstd::prelude::*;

use crate::opcode::{decode_opcode, opcode_byte, Opcode};
use crate::raw::MAX_ALLOCATION_SIZE;
use crate::{lemma_length_within_capacity, DynamicSizeArray};

verus! {

/// A sequence of byte code.
pub struct Chunk {
    source: DynamicSizeArray<u8>,
}

/// Why no instruction could be read at an offset.
#[derive(Debug, Clone, Copy, PartialEq, Eq, Structural)]
pub enum DisassembleInstructionError {
    /// The byte at the offset encodes no opcode.
    InvalidOpcode(u8),
    /// The offset lies past the end of the chunk.
    IndexOutOfBounds { length: usize, index: usize },
}

/// The offset of the instruction after the one at `offset` in `code`, or
/// why none can be read there.
pub open spec fn instruction_step(code: Seq<u8>, offset: nat) -> Result<
    usize,
    DisassembleInstructionError,
> {
    if offset >= code.len() {
        Err(
            DisassembleInstructionError::IndexOutOfBounds {
                length: code.len() as usize,
                index: offset as usize,
            },
        )
    } else {
        match decode_opcode(code[offset as int]) {
            None => Err(DisassembleInstructionError::InvalidOpcode(code[offset as int])),
            Some(Opcode::Return) => Ok((offset + 1) as usize),
        }
    }
}

impl Chunk {
    /// The bytes of the chunk, in order.
    pub closed spec fn code(&self) -> Seq<u8> {
        self.source@
    }

    /// The underlying array is well formed.
    pub closed spec fn wf(&self) -> bool {
        self.source.wf()
    }

    /// Whether one more byte can be appended: either a slot is free, or
    /// the next block of the buffer has a valid layout.
    pub closed spec fn can_push(&self) -> bool {
        self.source.can_add()
    }

    /// A chunk shorter than half the largest block always has room for one
    /// more byte.
    proof fn lemma_room_for_byte(&self)
        requires
            self.wf(),
            self.code().len() < MAX_ALLOCATION_SIZE / 2,
        ensures
            self.can_push(),
    {
        lemma_length_within_capacity(&self.source);
        broadcast use vstd::layout::layout_of_primitives;

        assert(vstd::layout::size_of::<u8>() == 1);
    }

    /// An empty chunk.
    pub fn new() -> (r: Self)
        ensures
            r.wf(),
            r.code() == Seq::<u8>::empty(),
            r.can_push(),
    {
        let r = Chunk { source: DynamicSizeArray::new() };
        proof {
            r.lemma_room_for_byte();
        }
        r
    }

    /// The bytes of the chunk, in order.
    pub fn as_bytes(&self) -> (r: &[u8])
        requires
            self.wf(),
        ensures
            r@ == self.code(),
    {
        self.source.as_slice()
    }

    /// The number of bytes.
    pub fn length(&self) -> (r: usize)
        requires
            self.wf(),
        ensures
            r == self.code().len(),
    {
        self.source.length()
    }

    /// The bytes of the chunk, in order, for writing in place.
    pub fn as_bytes_mutable(&mut self) -> (r: &mut [u8])
        requires
            old(self).wf(),
        ensures
            r@ == old(self).code(),
            final(self).code() == final(r)@,
    {
        self.source.as_mutable_slice()
    }

    /// Appends the encoding of an instruction.
    pub fn push(&mut self, instruction: Opcode)
        requires
            old(self).wf(),
            old(self).can_push(),
        ensures
            final(self).wf(),
            final(self).code() == old(self).code().push(opcode_byte(instruction)),
            final(self).code().len() < MAX_ALLOCATION_SIZE / 2 ==> final(self).can_push(),
    {
        let byte = instruction.as_byte();
        self.push_byte(byte);
        proof {
            if self.code().len() < MAX_ALLOCATION_SIZE / 2 {
                self.lemma_room_for_byte();
            }
        }
    }

    fn push_byte(&mut self, byte: u8)
        requires
            old(self).wf(),
            old(self).can_push(),
        ensures
            final(self).wf(),
            final(self).code() == old(self).code().push(byte),
    {
        self.source.push(byte);
    }

    /// Reads the instruction at `offset` and returns the offset of the one
    /// after it.
    pub fn disassemble_instruction(&self, offset: usize) -> (r: Result<
        usize,
        DisassembleInstructionError,
    >)
        requires
            self.wf(),
        ensures
            r == instruction_step(self.code(), offset as nat),
    {
        let bytes = self.source.as_slice();
        if offset >= bytes.len() {
            return Err(
                DisassembleInstructionError::IndexOutOfBounds {
                    length: bytes.len(),
                    index: offset,
                },
            );
        }
        let byte = bytes[offset];
        match Opcode::new(byte) {
            None => Err(DisassembleInstructionError::InvalidOpcode(byte)),
            Some(Opcode::Return) => Ok(offset + 1),
        }
    }
}

impl Default for Chunk {
    fn default() -> (r: Self)
        ensures
            r.wf(),
            r.code() == Seq::<u8>::empty(),
    {
        Chunk::new()
    }
}

} // verus!
