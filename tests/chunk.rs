use my_vec::chunks::{Chunk, DisassembleInstructionError};
use my_vec::Opcode;

#[test]
fn test_chunk() {
    let mut chunk = Chunk::new();
    chunk.push(Opcode::Return);
    let mut offset = 0;
    let mut names = vec![];
    while offset < chunk.length() {
        let opcode = Opcode::new(chunk.as_bytes()[offset]).unwrap();
        names.push(opcode.mnemonic());
        offset = chunk.disassemble_instruction(offset).unwrap();
    }
    assert_eq!(names, vec!["OP_RETURN"]);
}

#[test]
fn chunk_holds_pushed_opcodes() {
    let mut chunk = Chunk::default();
    assert_eq!(chunk.length(), 0);
    chunk.push(Opcode::Return);
    chunk.push(Opcode::Return);
    assert_eq!(chunk.as_bytes(), &[0, 0]);
    assert_eq!(chunk.length(), 2);
}

#[test]
fn disassemble_steps_and_errors() {
    let mut chunk = Chunk::new();
    chunk.push(Opcode::Return);
    chunk.push(Opcode::Return);
    assert_eq!(chunk.disassemble_instruction(1), Ok(2));
    assert_eq!(
        chunk.disassemble_instruction(2),
        Err(DisassembleInstructionError::IndexOutOfBounds { length: 2, index: 2 })
    );
    chunk.as_bytes_mutable()[0] = 7;
    assert_eq!(chunk.as_bytes(), &[7, 0]);
    assert_eq!(
        chunk.disassemble_instruction(0),
        Err(DisassembleInstructionError::InvalidOpcode(7))
    );
}

#[test]
fn opcode_byte_round_trip() {
    assert_eq!(Opcode::new(0), Some(Opcode::Return));
    assert_eq!(Opcode::new(1), None);
    assert_eq!(Opcode::new(255), None);
    assert_eq!(Opcode::Return.as_byte(), 0);
    assert_eq!(Opcode::new(Opcode::Return.as_byte()), Some(Opcode::Return));
    assert_eq!(Opcode::Return.mnemonic(), "OP_RETURN");
}
