use vstd::prelude::*;

verus! {

/// A single instruction to the VM.
#[derive(Debug, Clone, Copy, PartialEq, Eq, Structural)]
pub enum Opcode {
    /// Return from the current function.
    Return,
}

/// The byte that encodes an opcode.
pub open spec fn opcode_byte(op: Opcode) -> u8 {
    match op {
        Opcode::Return => 0,
    }
}

/// The opcode that a byte encodes, if any.
pub open spec fn decode_opcode(byte: u8) -> Option<Opcode> {
    if byte == 0 {
        Some(Opcode::Return)
    } else {
        None
    }
}

impl Opcode {
    /// Decodes one byte; `None` for a byte that encodes no opcode.
    pub fn new(byte: u8) -> (r: Option<Self>)
        ensures
            r == decode_opcode(byte),
    {
        match byte {
            0 => Some(Opcode::Return),
            _ => None,
        }
    }

    /// Encodes the opcode as one byte.
    pub fn as_byte(&self) -> (r: u8)
        ensures
            r == opcode_byte(*self),
            decode_opcode(r) == Some(*self),
    {
        match self {
            Opcode::Return => 0,
        }
    }

    /// The mnemonic under which the opcode is listed.
    pub fn mnemonic(&self) -> (r: &'static str)
        ensures
            r@ == opcode_mnemonic(*self),
    {
        match self {
            Opcode::Return => "OP_RETURN",
        }
    }
}

/// The mnemonic of an opcode.
pub open spec fn opcode_mnemonic(op: Opcode) -> Seq<char> {
    match op {
        Opcode::Return => "OP_RETURN"@,
    }
}

/// Decoding the encoding of an opcode gives the opcode back.
pub proof fn lemma_opcode_round_trip(op: Opcode)
    ensures
        decode_opcode(opcode_byte(op)) == Some(op),
{
}

} // verus!
