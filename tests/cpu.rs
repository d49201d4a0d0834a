use emu6502::cpu::{AddrMode, Cpu, CpuError, Flag, Instruction, Op, OpInfo};
use emu6502::instr_set_parser::InstrSetParser;

fn table(text: &str) -> Vec<Op> {
    InstrSetParser::new("ops.csv").parse_text(text)
}

const PROGRAM: u16 = 0x0500;

fn cpu_with(text: &str, program: &[u8]) -> Cpu {
    let mut cpu = Cpu::with_optable(table(text));
    cpu.mmio.write(PROGRAM, program);
    cpu.regs.pc = PROGRAM;
    cpu
}

#[test]
fn adc_carry_out_to_zero() {
    let mut cpu = Cpu::new();
    cpu.regs.a = 0x50;
    cpu.operand = 0xB0;
    cpu.set_flag(Flag::C, false);
    cpu.adc();
    assert_eq!(cpu.regs.a, 0x00);
    assert!(cpu.get_flag(Flag::C));
    assert!(!cpu.get_flag(Flag::V));
    assert!(cpu.get_flag(Flag::Z));
    assert!(!cpu.get_flag(Flag::N));
}

#[test]
fn adc_signed_overflow() {
    let mut cpu = Cpu::new();
    cpu.regs.a = 0x50;
    cpu.operand = 0x50;
    cpu.adc();
    assert_eq!(cpu.regs.a, 0xA0);
    assert!(cpu.get_flag(Flag::V));
    assert!(cpu.get_flag(Flag::N));
    assert!(!cpu.get_flag(Flag::C));
    assert!(!cpu.get_flag(Flag::Z));
}

#[test]
fn adc_uses_carry_in() {
    let mut cpu = Cpu::new();
    cpu.regs.a = 0x01;
    cpu.operand = 0x01;
    cpu.set_flag(Flag::C, true);
    cpu.adc();
    assert_eq!(cpu.regs.a, 0x03);
    assert!(!cpu.get_flag(Flag::C));
}

#[test]
fn sbc_without_borrow() {
    let mut cpu = Cpu::new();
    cpu.regs.a = 0x50;
    cpu.operand = 0xB0;
    cpu.set_flag(Flag::C, true);
    cpu.sbc();
    let reference = (0x50i32 - 0xB0 - (1 - 1)).rem_euclid(256) as u8;
    assert_eq!(cpu.regs.a, 0xA0);
    assert_eq!(cpu.regs.a, reference);
    assert!(!cpu.get_flag(Flag::C));
    assert!(cpu.get_flag(Flag::N));
    assert!(cpu.get_flag(Flag::V));
}

#[test]
fn sbc_with_borrow() {
    let mut cpu = Cpu::new();
    cpu.regs.a = 0x50;
    cpu.operand = 0x10;
    cpu.set_flag(Flag::C, false);
    cpu.sbc();
    let reference = (0x50i32 - 0x10 - (1 - 0)).rem_euclid(256) as u8;
    assert_eq!(cpu.regs.a, 0x3F);
    assert_eq!(cpu.regs.a, reference);
    assert!(cpu.get_flag(Flag::C));
}

#[test]
fn flags_touch_only_their_bit() {
    let mut cpu = Cpu::new();
    cpu.regs.p = 0xFF;
    cpu.set_flag(Flag::V, false);
    assert_eq!(cpu.regs.p, 0xBF);
    cpu.set_flag(Flag::V, true);
    assert_eq!(cpu.regs.p, 0xFF);
    cpu.regs.p = 0x00;
    cpu.set_flag(Flag::D, true);
    assert_eq!(cpu.regs.p, 0x08);
    assert!(cpu.get_flag(Flag::D));
    assert!(!cpu.get_flag(Flag::I));
    cpu.clc();
    cpu.sec();
    assert_eq!(cpu.regs.p, 0x09);
    cpu.clc();
    assert_eq!(cpu.regs.p, 0x08);
}

#[test]
fn compare_sets_flags() {
    let mut cpu = Cpu::new();
    cpu.regs.a = 0x10;
    cpu.operand = 0x10;
    cpu.cmp();
    assert!(cpu.get_flag(Flag::Z) && cpu.get_flag(Flag::C) && !cpu.get_flag(Flag::N));
    cpu.regs.x = 0x05;
    cpu.cpx();
    assert!(!cpu.get_flag(Flag::Z) && !cpu.get_flag(Flag::C) && cpu.get_flag(Flag::N));
    cpu.regs.y = 0x20;
    cpu.cpy();
    assert!(!cpu.get_flag(Flag::Z) && cpu.get_flag(Flag::C) && !cpu.get_flag(Flag::N));
}

#[test]
fn absolute_indexed_page_cross_costs_a_cycle() {
    let ops = "0x3D,AND,ABSX,3,4,NZ";
    let mut crossing = cpu_with(ops, &[0x3D, 0xFF, 0x20]);
    crossing.regs.x = 1;
    crossing.step().unwrap();
    assert!(crossing.page_crossed);
    assert_eq!(crossing.addr, 0x2100);
    let mut flat = cpu_with(ops, &[0x3D, 0x00, 0x20]);
    flat.regs.x = 1;
    flat.step().unwrap();
    assert!(!flat.page_crossed);
    assert_eq!(flat.addr, 0x2001);
    assert_eq!(flat.cycles, 4);
    assert_eq!(crossing.cycles, flat.cycles + 1);
}

#[test]
fn indirect_jump_page_bug() {
    let mut cpu = cpu_with("0x6C,JMP,IND,3,5,", &[0x6C, 0xFF, 0x02]);
    cpu.mmio.write_byte(0x02FF, 0x34);
    cpu.mmio.write_byte(0x0200, 0x12);
    cpu.mmio.write_byte(0x0300, 0x56);
    cpu.step().unwrap();
    assert_eq!(cpu.addr, 0x1234);
    assert_eq!(cpu.regs.pc, 0x1234);
    assert_eq!(cpu.cycles, 5);
}

#[test]
fn indirect_jump_within_page() {
    let mut cpu = cpu_with("0x6C,JMP,IND,3,5,", &[0x6C, 0x10, 0x02]);
    cpu.mmio.write_byte(0x0210, 0xCD);
    cpu.mmio.write_byte(0x0211, 0xAB);
    cpu.step().unwrap();
    assert_eq!(cpu.regs.pc, 0xABCD);
}

#[test]
fn zero_page_indexed_wraps() {
    let mut cpu = cpu_with("0xB5,LDA,ZPX,2,4,NZ", &[0xB5, 0xFF]);
    cpu.regs.x = 0x02;
    cpu.mmio.write_byte(0x0001, 0x77);
    cpu.mmio.write_byte(0x0101, 0x99);
    cpu.step().unwrap();
    assert_eq!(cpu.addr, 0x0001);
    assert_eq!(cpu.regs.a, 0x77);
    assert_eq!(cpu.regs.pc, 0x0502);
}

#[test]
fn indirect_y_crosses_page() {
    let mut cpu = cpu_with("0xB1,LDA,INDY,2,5,NZ", &[0xB1, 0x40]);
    cpu.regs.y = 0x10;
    cpu.mmio.write_byte(0x0040, 0xF8);
    cpu.mmio.write_byte(0x0041, 0x03);
    cpu.mmio.write_byte(0x0408, 0x42);
    cpu.step().unwrap();
    assert_eq!(cpu.addr, 0x0408);
    assert!(cpu.page_crossed);
    assert_eq!(cpu.regs.a, 0x42);
    assert_eq!(cpu.cycles, 6);
}

#[test]
fn indirect_x_reads_pointer_in_zero_page() {
    let mut cpu = cpu_with("0xA1,LDA,INDX,2,6,NZ", &[0xA1, 0x20]);
    cpu.regs.x = 0x04;
    cpu.mmio.write_byte(0x0024, 0x74);
    cpu.mmio.write_byte(0x0025, 0x02);
    cpu.mmio.write_byte(0x0274, 0x80);
    cpu.step().unwrap();
    assert_eq!(cpu.addr, 0x0274);
    assert_eq!(cpu.regs.a, 0x80);
    assert!(cpu.get_flag(Flag::N));
}

#[test]
fn taken_branch_moves_pc_and_costs_cycles() {
    let mut cpu = cpu_with("0xD0,BNE,REL,2,2,", &[0xD0, 0x04]);
    cpu.step().unwrap();
    assert!(cpu.branch);
    assert_eq!(cpu.regs.pc, 0x0506);
    assert_eq!(cpu.cycles, 3);
}

#[test]
fn backward_branch_across_page() {
    let mut cpu = cpu_with("0xF0,BEQ,REL,2,2,", &[]);
    cpu.mmio.write(0x0100, &[0xF0, 0xFC]);
    cpu.regs.pc = 0x0100;
    cpu.set_flag(Flag::Z, true);
    cpu.step().unwrap();
    assert_eq!(cpu.regs.pc, 0x00FE);
    assert_eq!(cpu.cycles, 4);
}

#[test]
fn untaken_branch_costs_base() {
    let mut cpu = cpu_with("0xF0,BEQ,REL,2,2,", &[0xF0, 0x04]);
    cpu.step().unwrap();
    assert!(!cpu.branch);
    assert_eq!(cpu.regs.pc, 0x0502);
    assert_eq!(cpu.cycles, 2);
}

#[test]
fn default_entry_is_single_cycle_nop() {
    let mut cpu = Cpu::new();
    cpu.regs.a = 0x12;
    cpu.step().unwrap();
    assert_eq!(cpu.regs.pc, 1);
    assert_eq!(cpu.cycles, 1);
    assert_eq!(cpu.regs.a, 0x12);
    assert_eq!(cpu.addr_mode, AddrMode::Imp);
}

#[test]
fn brk_is_refused_without_change() {
    let mut cpu = cpu_with("0x00,BRK,IMP,1,7,", &[0x00]);
    assert_eq!(cpu.step(), Err(CpuError::Unimplemented(Instruction::Brk)));
    assert_eq!(cpu.regs.pc, PROGRAM);
    assert_eq!(cpu.cycles, 0);
    assert_eq!(cpu.brk(), Err(CpuError::Unimplemented(Instruction::Brk)));
    assert_eq!(cpu.rti(), Err(CpuError::Unimplemented(Instruction::Rti)));
}

#[test]
fn accumulator_shift_writes_register() {
    let mut cpu = cpu_with("0x0A,ASL,ACC,1,2,NZC", &[0x0A]);
    cpu.regs.a = 0x81;
    cpu.step().unwrap();
    assert_eq!(cpu.regs.a, 0x02);
    assert!(cpu.get_flag(Flag::C));
}

#[test]
fn memory_shift_writes_memory() {
    let mut cpu = cpu_with("0x06,ASL,ZP,2,5,NZC", &[0x06, 0x10]);
    cpu.regs.a = 0x01;
    cpu.mmio.write_byte(0x0010, 0x40);
    cpu.step().unwrap();
    assert_eq!(cpu.mmio.read_byte(0x0010), 0x80);
    assert_eq!(cpu.regs.a, 0x01);
    assert!(cpu.get_flag(Flag::N));
    assert!(!cpu.get_flag(Flag::C));
}

#[test]
fn rotates_and_logic() {
    let mut cpu = Cpu::new();
    cpu.addr_mode = AddrMode::Acc;
    cpu.regs.a = 0x01;
    cpu.set_flag(Flag::C, true);
    cpu.ror();
    assert_eq!(cpu.regs.a, 0x80);
    assert!(cpu.get_flag(Flag::C));
    cpu.rol();
    assert_eq!(cpu.regs.a, 0x01);
    assert!(cpu.get_flag(Flag::C));
    cpu.lsr();
    assert_eq!(cpu.regs.a, 0x00);
    assert!(cpu.get_flag(Flag::Z));
    cpu.regs.a = 0xF0;
    cpu.operand = 0x3C;
    cpu.and();
    assert_eq!(cpu.regs.a, 0x30);
    cpu.ora();
    assert_eq!(cpu.regs.a, 0x3C);
    cpu.eor();
    assert_eq!(cpu.regs.a, 0x00);
}

#[test]
fn bit_test_flags() {
    let mut cpu = Cpu::new();
    cpu.regs.a = 0x01;
    cpu.operand = 0xC0;
    cpu.bit();
    assert!(cpu.get_flag(Flag::Z));
    assert!(cpu.get_flag(Flag::V));
    assert!(cpu.get_flag(Flag::N));
}

#[test]
fn loads_transfers_and_counters() {
    let mut cpu = Cpu::new();
    cpu.operand = 0x00;
    cpu.ldx();
    assert!(cpu.get_flag(Flag::Z));
    cpu.dex();
    assert_eq!(cpu.regs.x, 0xFF);
    assert!(cpu.get_flag(Flag::N));
    cpu.inx();
    assert_eq!(cpu.regs.x, 0x00);
    cpu.operand = 0x7F;
    cpu.ldy();
    cpu.iny();
    assert_eq!(cpu.regs.y, 0x80);
    cpu.tya();
    assert_eq!(cpu.regs.a, 0x80);
    cpu.tax();
    assert_eq!(cpu.regs.x, 0x80);
    cpu.txs();
    assert_eq!(cpu.regs.s, 0x80);
    cpu.dey();
    cpu.tay();
    assert_eq!(cpu.regs.y, 0x80);
    cpu.operand = 0x05;
    cpu.lda();
    cpu.txa();
    assert_eq!(cpu.regs.a, 0x80);
    cpu.tsx();
    assert_eq!(cpu.regs.x, 0x80);
}

#[test]
fn stores_and_memory_counters() {
    let mut cpu = Cpu::new();
    cpu.addr_mode = AddrMode::Abs;
    cpu.addr = 0x0300;
    cpu.regs.a = 0x11;
    cpu.regs.x = 0x22;
    cpu.regs.y = 0x33;
    cpu.sta();
    assert_eq!(cpu.mmio.read_byte(0x0300), 0x11);
    cpu.addr = 0x0301;
    cpu.stx();
    cpu.addr = 0x0302;
    cpu.sty();
    assert_eq!(cpu.mmio.read_byte(0x0301), 0x22);
    assert_eq!(cpu.mmio.read_byte(0x0302), 0x33);
    cpu.operand = 0x33;
    cpu.inc();
    assert_eq!(cpu.mmio.read_byte(0x0302), 0x34);
    cpu.operand = 0x00;
    cpu.dec();
    assert_eq!(cpu.mmio.read_byte(0x0302), 0xFF);
    assert!(cpu.get_flag(Flag::N));
}

#[test]
fn stack_push_pull_and_subroutines() {
    let mut cpu = Cpu::new();
    cpu.regs.s = 0xFF;
    cpu.regs.a = 0x5A;
    cpu.pha();
    assert_eq!(cpu.regs.s, 0xFE);
    assert_eq!(cpu.mmio.read_byte(0x01FF), 0x5A);
    cpu.regs.a = 0;
    cpu.pla();
    assert_eq!(cpu.regs.a, 0x5A);
    assert_eq!(cpu.regs.s, 0xFF);
    cpu.regs.p = 0x41;
    cpu.php();
    cpu.regs.p = 0;
    cpu.plp();
    assert_eq!(cpu.regs.p, 0x41);
    cpu.regs.pc = 0x0203;
    cpu.addr = 0x0400;
    cpu.jsr();
    assert_eq!(cpu.regs.pc, 0x0400);
    assert_eq!(cpu.mmio.read_byte(0x01FF), 0x02);
    assert_eq!(cpu.mmio.read_byte(0x01FE), 0x02);
    cpu.rts();
    assert_eq!(cpu.regs.pc, 0x0203);
    assert_eq!(cpu.regs.s, 0xFF);
}

#[test]
fn flag_instructions_and_nop() {
    let mut cpu = Cpu::new();
    cpu.sed();
    cpu.sei();
    assert_eq!(cpu.regs.p, 0x0C);
    cpu.cld();
    cpu.cli();
    assert_eq!(cpu.regs.p, 0x00);
    cpu.regs.p = 0x40;
    cpu.clv();
    assert_eq!(cpu.regs.p, 0x00);
    cpu.nop();
    assert_eq!(cpu.regs.p, 0x00);
    cpu.regs.a = 0x80;
    cpu.update_nz_flags();
    assert!(cpu.get_flag(Flag::N));
}

#[test]
fn branch_conditions() {
    let mut cpu = Cpu::new();
    cpu.regs.p = 0x00;
    cpu.bcc();
    assert!(cpu.branch);
    cpu.bcs();
    assert!(!cpu.branch);
    cpu.bne();
    assert!(cpu.branch);
    cpu.beq();
    assert!(!cpu.branch);
    cpu.bpl();
    assert!(cpu.branch);
    cpu.bmi();
    assert!(!cpu.branch);
    cpu.bvc();
    assert!(cpu.branch);
    cpu.bvs();
    assert!(!cpu.branch);
}

#[test]
fn resolvers_consume_operand_bytes() {
    let mut cpu = Cpu::new();
    cpu.mmio.write(0x0000, &[0x34, 0x12, 0x80]);
    cpu.imm();
    assert_eq!(cpu.operand, 0x34);
    assert_eq!(cpu.regs.pc, 1);
    cpu.regs.pc = 0;
    cpu.abs();
    assert_eq!(cpu.addr, 0x1234);
    assert_eq!(cpu.regs.pc, 2);
    cpu.regs.pc = 0;
    cpu.zp();
    assert_eq!(cpu.addr, 0x0034);
    cpu.regs.pc = 0;
    cpu.regs.y = 0xF0;
    cpu.zpy();
    assert_eq!(cpu.addr, 0x0024);
    cpu.regs.pc = 0;
    cpu.absy();
    assert_eq!(cpu.addr, 0x1324);
    assert!(cpu.page_crossed);
    cpu.regs.pc = 0;
    cpu.regs.x = 0x01;
    cpu.absx();
    assert_eq!(cpu.addr, 0x1235);
    assert!(!cpu.page_crossed);
    cpu.regs.pc = 2;
    cpu.rel();
    assert_eq!(cpu.offset, -128);
    cpu.imp();
    cpu.acc();
    assert!(!cpu.page_crossed);
}

#[test]
fn execute_dispatches_an_opcode() {
    let mut cpu = cpu_with("0xA9,LDA,IMM,2,2,NZ", &[0x42]);
    cpu.execute(0xA9).unwrap();
    assert_eq!(cpu.regs.a, 0x42);
    assert_eq!(cpu.regs.pc, 0x0501);
    assert_eq!(cpu.cycles, 2);
}

#[test]
fn op_default_is_nop() {
    let op = Op::nop();
    assert_eq!(op.cycles, 1);
    assert_eq!(op.info, OpInfo { address_mode: AddrMode::Imp, instruction: Instruction::Nop });
}

#[test]
fn page_crossing_read_charges_its_own_cycle() {
    let mut cpu = Cpu::new();
    cpu.cycles = 7;
    cpu.page_crossed = true;
    cpu.regs.a = 0xF0;
    cpu.operand = 0x3C;
    cpu.and();
    assert_eq!(cpu.regs.a, 0x30);
    assert_eq!(cpu.cycles, 8);
    cpu.lda();
    assert_eq!(cpu.cycles, 9);
    cpu.page_crossed = false;
    cpu.ora();
    assert_eq!(cpu.cycles, 9);
    cpu.page_crossed = true;
    cpu.sta();
    assert_eq!(cpu.cycles, 9);
}
