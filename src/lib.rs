//! An instruction-level emulator core for a 6502-class 8-bit processor:
//! memory map, opcode table builder, execution engine and disassembler.

pub mod mmio;
pub mod cpu;
pub mod disassembler;
pub mod instr_set_parser;
