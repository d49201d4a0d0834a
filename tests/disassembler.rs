use emu6502::cpu::{AddrMode, Instruction, Op, OpInfo};
use emu6502::disassembler::{get_arg_count, get_op_fmt_string, render, DisasmError, Disassembler, Record};
use emu6502::instr_set_parser::InstrSetParser;

fn text(bytes: Vec<u8>) -> String {
    String::from_utf8(bytes).unwrap()
}

fn adc_table() -> Vec<Op> {
    InstrSetParser::new("").parse_text("0x69,ADC,IMM,2,2,NVZC")
}

#[test]
fn two_immediate_adcs() {
    let table = adc_table();
    let d = Disassembler::new(vec![0x69, 0xFF, 0x69, 0x80], &table);
    let recs = d.read(0).unwrap();
    let adc = OpInfo { address_mode: AddrMode::Imm, instruction: Instruction::Adc };
    assert_eq!(recs, vec![Record { offset: 0, info: adc, arg: 0xFF }, Record { offset: 2, info: adc, arg: 0x80 }]);
    let lines: Vec<String> = d.listing(0).unwrap().into_iter().map(text).collect();
    assert_eq!(lines, vec!["0x0000: ADC #0xff".to_string(), "0x0002: ADC #0x80".to_string()]);
}

#[test]
fn listing_from_offset() {
    let table = adc_table();
    let d = Disassembler::new(vec![0xEA, 0x69, 0x01], &table);
    let lines: Vec<String> = d.listing(1).unwrap().into_iter().map(text).collect();
    assert_eq!(lines, vec!["0x0001: ADC #0x01".to_string()]);
    assert_eq!(d.read(3).unwrap(), vec![]);
    assert_eq!(d.read(10).unwrap(), vec![]);
}

#[test]
fn truncated_operand_is_an_error() {
    let table = adc_table();
    let d = Disassembler::new(vec![0x69, 0x01, 0x69], &table);
    assert_eq!(d.read(0), Err(DisasmError::Truncated { offset: 2 }));
    assert_eq!(d.listing(0), Err(DisasmError::Truncated { offset: 2 }));
}

#[test]
fn two_byte_operands_are_little_endian() {
    let table = InstrSetParser::new("").parse_text("0x6D,ADC,ABS,3,4,\n0x6C,JMP,IND,3,5,");
    let d = Disassembler::new(vec![0x6D, 0x34, 0x12, 0x6C, 0xFF, 0x02], &table);
    let lines: Vec<String> = d.listing(0).unwrap().into_iter().map(text).collect();
    assert_eq!(lines, vec!["0x0000: ADC $0x1234".to_string(), "0x0003: JMP ($0x02ff)".to_string()]);
}

#[test]
fn operand_formats() {
    let f = |mode: AddrMode, instruction: Instruction, arg: u16| {
        text(get_op_fmt_string(&Op { cycles: 2, info: OpInfo { address_mode: mode, instruction } }, arg))
    };
    assert_eq!(f(AddrMode::Imp, Instruction::Nop, 0), "NOP");
    assert_eq!(f(AddrMode::Acc, Instruction::Asl, 0), "ASL A");
    assert_eq!(f(AddrMode::Imm, Instruction::Lda, 0x0A), "LDA #0x0a");
    assert_eq!(f(AddrMode::Zp, Instruction::Sta, 0x10), "STA $0x10");
    assert_eq!(f(AddrMode::Rel, Instruction::Bne, 0xFC), "BNE $0xfc");
    assert_eq!(f(AddrMode::Zpx, Instruction::Lda, 0x10), "LDA $0x10, X");
    assert_eq!(f(AddrMode::Zpy, Instruction::Ldx, 0x10), "LDX $0x10, Y");
    assert_eq!(f(AddrMode::Abs, Instruction::Jmp, 0xC000), "JMP $0xc000");
    assert_eq!(f(AddrMode::Absx, Instruction::Lda, 0x1234), "LDA $0x1234, X");
    assert_eq!(f(AddrMode::Absy, Instruction::Lda, 0x1234), "LDA $0x1234, Y");
    assert_eq!(f(AddrMode::Ind, Instruction::Jmp, 0x02FF), "JMP ($0x02ff)");
    assert_eq!(f(AddrMode::Indx, Instruction::Lda, 0x20), "LDA ($0x20, X)");
    assert_eq!(f(AddrMode::Indy, Instruction::Lda, 0x20), "LDA ($0x20), Y");
}

#[test]
fn offset_is_upper_case_hex() {
    let info = OpInfo { address_mode: AddrMode::Imp, instruction: Instruction::Clc };
    assert_eq!(text(render(&Record { offset: 0xABC, info, arg: 0 })), "0x0ABC: CLC");
    assert_eq!(text(render(&Record { offset: 0x12345, info, arg: 0 })), "0x12345: CLC");
}

#[test]
fn argument_counts() {
    let count = |mode| get_arg_count(&Op { cycles: 1, info: OpInfo { address_mode: mode, instruction: Instruction::Nop } });
    assert_eq!(count(AddrMode::Imp), 0);
    assert_eq!(count(AddrMode::Acc), 0);
    assert_eq!(count(AddrMode::Rel), 1);
    assert_eq!(count(AddrMode::Indy), 1);
    assert_eq!(count(AddrMode::Absy), 2);
    assert_eq!(count(AddrMode::Ind), 2);
}

#[test]
fn disassembling_twice_is_identical() {
    let table = adc_table();
    let d = Disassembler::new(vec![0x69, 0xFF, 0xEA, 0x69, 0x80], &table);
    assert_eq!(d.read(0), d.read(0));
    assert_eq!(d.listing(1), d.listing(1));
}
