use emu6502::cpu::{AddrMode, Instruction, Op, OpInfo};
use emu6502::instr_set_parser::{InstrSetParser, ParseError};

fn op(cycles: u8, address_mode: AddrMode, instruction: Instruction) -> Op {
    Op { cycles, info: OpInfo { address_mode, instruction } }
}

#[test]
fn unnamed_opcodes_get_default_entry() {
    let parser = InstrSetParser::new("ops.csv");
    let table = parser.parse_text("0x69,ADC,IMM,2,2,NVZC\n0x6D,ADC,ABS,3,4,NVZC\n");
    assert_eq!(table.len(), 256);
    for (i, entry) in table.iter().enumerate() {
        match i {
            0x69 => assert_eq!(*entry, op(2, AddrMode::Imm, Instruction::Adc)),
            0x6D => assert_eq!(*entry, op(4, AddrMode::Abs, Instruction::Adc)),
            _ => assert_eq!(*entry, Op::nop()),
        }
    }
}

#[test]
fn new_parser_holds_default_table() {
    let parser = InstrSetParser::new("resources/6502ops.csv");
    assert_eq!(parser.filepath, "resources/6502ops.csv");
    assert_eq!(parser.optable.len(), 256);
    assert!(parser.optable.iter().all(|o| *o == Op::nop()));
}

#[test]
fn empty_description_gives_default_table() {
    let table = InstrSetParser::new("").parse_text("");
    assert_eq!(table, vec![Op::nop(); 256]);
}

#[test]
fn last_record_for_opcode_wins() {
    let table = InstrSetParser::new("").parse_text("0xEA,NOP,IMP,1,2,\n0xEA,LDA,ZP,2,3,NZ");
    assert_eq!(table[0xEA], op(3, AddrMode::Zp, Instruction::Lda));
}

#[test]
fn permissive_mode_skips_bad_records() {
    let text = "0x69,ADC,IMM,2,2,NVZC\n0xZZ,ADC,IMM,2,2,\n0x01,FOO,IMM,2,2,\n0x02,ADC,BAR,2,2,\n0x03,ADC,IMM,2,x,\n0x04,ADC,IMM\n0xA9,LDA,IMM,2,2,NZ\n";
    let table = InstrSetParser::new("").parse_text(text);
    assert_eq!(table[0x69], op(2, AddrMode::Imm, Instruction::Adc));
    assert_eq!(table[0xA9], op(2, AddrMode::Imm, Instruction::Lda));
    for k in 1..5 {
        assert_eq!(table[k], Op::nop());
    }
}

#[test]
fn strict_mode_reports_first_error() {
    let p = InstrSetParser::new("");
    assert_eq!(p.parse_text_strict("0xZZ,ADC,IMM,2,2,"), Err(ParseError::InvalidOpcode));
    assert_eq!(p.parse_text_strict("69,ADC,IMM,2,2,"), Err(ParseError::InvalidOpcode));
    assert_eq!(p.parse_text_strict("0x100,ADC,IMM,2,2,"), Err(ParseError::InvalidOpcode));
    assert_eq!(p.parse_text_strict("0x01,FOO,IMM,2,2,"), Err(ParseError::InvalidInstruction));
    assert_eq!(p.parse_text_strict("0x01,ADC,BAR,2,2,"), Err(ParseError::InvalidAddrMode));
    assert_eq!(p.parse_text_strict("0x01,ADC,IMM,2,x,"), Err(ParseError::InvalidNumber));
    assert_eq!(p.parse_text_strict("0x01,ADC,IMM,,2,"), Err(ParseError::InvalidNumber));
    assert_eq!(p.parse_text_strict("0x01,ADC,IMM,2,256,"), Err(ParseError::InvalidNumber));
    assert_eq!(p.parse_text_strict("0x01,ADC,IMM,2"), Err(ParseError::InvalidLine));
    assert_eq!(p.parse_text_strict("0x01,ADC,IMM,2,2,NZ,extra"), Err(ParseError::InvalidLine));
    assert_eq!(
        p.parse_text_strict("0x69,ADC,IMM,2,2,\n0x01,FOO,IMM,2,2,\n0x02,ADC,BAR,2,2,"),
        Err(ParseError::InvalidInstruction)
    );
}

#[test]
fn strict_mode_accepts_good_description() {
    let p = InstrSetParser::new("");
    let text = "# opcode,mnemonic,mode,size,cycles,flags\r\n0x0a,ASL,ACC,1,2,NZC\r\n\r\n0xFF,ROR,ABSX,3,7,NZC\r\n";
    let strict = p.parse_text_strict(text).unwrap();
    assert_eq!(strict, p.parse_text(text));
    assert_eq!(strict[0x0A], op(2, AddrMode::Acc, Instruction::Asl));
    assert_eq!(strict[0xFF], op(7, AddrMode::Absx, Instruction::Ror));
}

#[test]
fn every_tag_and_mnemonic_parses() {
    let modes = [
        ("ACC", AddrMode::Acc), ("IMM", AddrMode::Imm), ("ABS", AddrMode::Abs), ("ZP", AddrMode::Zp),
        ("ZPX", AddrMode::Zpx), ("ZPY", AddrMode::Zpy), ("ABSX", AddrMode::Absx),
        ("ABSY", AddrMode::Absy), ("IMP", AddrMode::Imp), ("REL", AddrMode::Rel),
        ("INDX", AddrMode::Indx), ("INDY", AddrMode::Indy), ("IND", AddrMode::Ind),
    ];
    let p = InstrSetParser::new("");
    for (tag, mode) in modes {
        let t = p.parse_text_strict(&format!("0x10,BPL,{},2,2,", tag)).unwrap();
        assert_eq!(t[0x10].info.address_mode, mode);
    }
    let t = p.parse_text_strict("0x20,JSR,ABS,3,6,\n0x98,TYA,IMP,1,2,NZ\n0x4C,JMP,ABS,3,3,").unwrap();
    assert_eq!(t[0x20].info.instruction, Instruction::Jsr);
    assert_eq!(t[0x98].info.instruction, Instruction::Tya);
    assert_eq!(t[0x4C].info.instruction, Instruction::Jmp);
}

#[test]
fn building_twice_is_identical() {
    let p = InstrSetParser::new("");
    let text = "0x69,ADC,IMM,2,2,NVZC\n0xE9,SBC,IMM,2,2,NVZC\n0x69,AND,ZPX,2,4,NZ";
    assert_eq!(p.parse_text(text), p.parse_text(text));
    assert_eq!(p.parse_text_strict(text), p.parse_text_strict(text));
}
