use vstd::prelude::*;
use crate::mmio::{Mmio, RAM_SIZE, ROM_SIZE};

verus! {

/// The register file.
#[derive(Debug, Clone, Copy, PartialEq, Eq, Structural)]
pub struct Regs {
    pub a: u8,
    pub x: u8,
    pub y: u8,
    pub s: u8,
    pub p: u8,
    pub pc: u16,
}

impl Default for Regs {
    fn default() -> (r: Regs)
        ensures
            r == (Regs { a: 0, x: 0, y: 0, s: 0, p: 0, pc: 0 }),
    {
        Regs { a: 0, x: 0, y: 0, s: 0, p: 0, pc: 0 }
    }
}

/// Status flags, packed into the status byte as `NV..DIZC`.
#[derive(Debug, Clone, Copy, PartialEq, Eq, Structural)]
pub enum Flag {
    N,
    V,
    D,
    I,
    Z,
    C,
}

impl Flag {
    /// The value of this flag's bit in the status byte.
    pub open spec fn weight(self) -> u8 {
        match self {
            Flag::N => 0x80,
            Flag::V => 0x40,
            Flag::D => 0x08,
            Flag::I => 0x04,
            Flag::Z => 0x02,
            Flag::C => 0x01,
        }
    }

    pub fn mask(self) -> (m: u8)
        ensures
            m == self.weight(),
    {
        match self {
            Flag::N => 0x80,
            Flag::V => 0x40,
            Flag::D => 0x08,
            Flag::I => 0x04,
            Flag::Z => 0x02,
            Flag::C => 0x01,
        }
    }
}

/// Whether `flag` is set in the status byte `p`.
pub open spec fn flag_of(p: u8, flag: Flag) -> bool {
    match flag {
        Flag::N => (p / 0x80) % 2 == 1,
        Flag::V => (p / 0x40) % 2 == 1,
        Flag::D => (p / 0x08) % 2 == 1,
        Flag::I => (p / 0x04) % 2 == 1,
        Flag::Z => (p / 0x02) % 2 == 1,
        Flag::C => p % 2 == 1,
    }
}

/// The status byte `p` with `flag` set to `value` and every other bit kept.
pub open spec fn with_flag(p: u8, flag: Flag, value: bool) -> u8 {
    if flag_of(p, flag) == value {
        p
    } else if value {
        (p + flag.weight()) as u8
    } else {
        (p - flag.weight()) as u8
    }
}

pub open spec fn is_flag_weight(w: u8) -> bool {
    w == 0x80 || w == 0x40 || w == 0x08 || w == 0x04 || w == 0x02 || w == 0x01
}

/// Reading and writing a flag through its mask.
proof fn lemma_flag_bits(p: u8, flag: Flag)
    ensures
        flag_of(p, flag) == (p & flag.weight() != 0),
        with_flag(p, flag, true) == p | flag.weight(),
        with_flag(p, flag, false) == p & !flag.weight(),
{
    let w = flag.weight();
    assert(is_flag_weight(w));
    assert(flag_of(p, flag) == ((p / w) % 2 == 1));
    assert(((p / w) % 2 == 1) == (p & w != 0)) by (bit_vector)
        requires
            is_flag_weight(w),
    ;
    assert(p & w == 0 ==> (p | w) == (p + w) as u8 && p + w < 256) by (bit_vector)
        requires
            is_flag_weight(w),
    ;
    assert(p & w != 0 ==> (p | w) == p) by (bit_vector)
        requires
            is_flag_weight(w),
    ;
    assert(p & w != 0 ==> (p & !w) == (p - w) as u8 && p >= w) by (bit_vector)
        requires
            is_flag_weight(w),
    ;
    assert(p & w == 0 ==> (p & !w) == p) by (bit_vector);
}

/// Setting one flag reads back as the value written and leaves every other
/// flag as it was.
pub proof fn lemma_flag_isolation(p: u8, flag: Flag, value: bool, other: Flag)
    ensures
        flag_of(with_flag(p, flag, value), flag) == value,
        other != flag ==> flag_of(with_flag(p, flag, value), other) == flag_of(p, other),
{
    let a = flag.weight();
    let b = other.weight();
    lemma_flag_bits(p, flag);
    lemma_flag_bits(with_flag(p, flag, value), flag);
    lemma_flag_bits(p, other);
    lemma_flag_bits(with_flag(p, flag, value), other);
    assert(is_flag_weight(a) && is_flag_weight(b));
    assert((p | a) & a != 0) by (bit_vector)
        requires
            is_flag_weight(a),
    ;
    assert((p & !a) & a == 0) by (bit_vector);
    if other != flag {
        assert(a != b);
        assert(((p | a) & b != 0) == (p & b != 0)) by (bit_vector)
            requires
                is_flag_weight(a) && is_flag_weight(b) && a != b,
        ;
        assert(((p & !a) & b != 0) == (p & b != 0)) by (bit_vector)
            requires
                is_flag_weight(a) && is_flag_weight(b) && a != b,
        ;
    }
}

/// The status byte `p` with Negative and Zero taken from `v`.
pub open spec fn with_nz(p: u8, v: u8) -> u8 {
    with_flag(with_flag(p, Flag::N, v >= 0x80), Flag::Z, v == 0)
}

/// Per-step decode context: what the addressing mode resolved, for the
/// instruction routine to consume.
#[derive(Debug, Clone, Copy, PartialEq, Eq, Structural)]
pub struct Status {
    pub offset: i8,
    pub addr: u16,
    pub operand: u8,
    pub cycles: u8,
    pub page_crossed: bool,
}

impl Default for Status {
    fn default() -> (r: Status)
        ensures
            r == (Status { offset: 0, addr: 0, operand: 0, cycles: 0, page_crossed: false }),
    {
        Status { offset: 0, addr: 0, operand: 0, cycles: 0, page_crossed: false }
    }
}

/// The thirteen addressing modes.
#[derive(Debug, Clone, Copy, PartialEq, Eq, Structural)]
pub enum AddrMode {
    Acc,
    Imm,
    Abs,
    Zp,
    Zpx,
    Zpy,
    Absx,
    Absy,
    Imp,
    Rel,
    Indx,
    Indy,
    Ind,
}

/// The instruction set's mnemonics.
#[derive(Debug, Clone, Copy, PartialEq, Eq, Structural)]
pub enum Instruction {
    Adc,
    And,
    Asl,
    Bcc,
    Bcs,
    Beq,
    Bit,
    Bmi,
    Bne,
    Bpl,
    Brk,
    Bvc,
    Bvs,
    Clc,
    Cld,
    Cli,
    Clv,
    Cmp,
    Cpx,
    Cpy,
    Dec,
    Dex,
    Dey,
    Eor,
    Inc,
    Inx,
    Iny,
    Jmp,
    Jsr,
    Lda,
    Ldx,
    Ldy,
    Lsr,
    Nop,
    Ora,
    Pha,
    Php,
    Pla,
    Plp,
    Rol,
    Ror,
    Rti,
    Rts,
    Sbc,
    Sec,
    Sed,
    Sei,
    Sta,
    Stx,
    Sty,
    Tax,
    Tay,
    Tsx,
    Txa,
    Txs,
    Tya,
}

/// The instruction whose mnemonic is the text `f`, if any.
pub open spec fn instruction_of(f: Seq<u8>) -> Option<Instruction> {
    if exists|i: Instruction| i.mnemonic_text() == f {
        Some(choose|i: Instruction| i.mnemonic_text() == f)
    } else {
        None
    }
}

/// The addressing mode whose tag is the text `f`, if any.
pub open spec fn addr_mode_of(f: Seq<u8>) -> Option<AddrMode> {
    if exists|m: AddrMode| m.tag() == f {
        Some(choose|m: AddrMode| m.tag() == f)
    } else {
        None
    }
}

/// No two instructions share a mnemonic.
proof fn lemma_mnemonic_injective(i: Instruction, j: Instruction)
    requires
        i.mnemonic_text() == j.mnemonic_text(),
    ensures
        i == j,
{
    let (a, b) = (i.mnemonic_text(), j.mnemonic_text());
    assert(a[0] == b[0] && a[1] == b[1] && a[2] == b[2]);
    assert(i.spec_mnemonic() == j.spec_mnemonic());
}

/// `f` names exactly the instruction `i`.
proof fn lemma_names_instruction(i: Instruction, f: Seq<u8>)
    requires
        i.mnemonic_text() == f,
    ensures
        instruction_of(f) == Some(i),
{
    let c = choose|j: Instruction| j.mnemonic_text() == f;
    lemma_mnemonic_injective(c, i);
}

/// No two addressing modes share a tag.
proof fn lemma_tag_injective(m: AddrMode, n: AddrMode)
    requires
        m.tag() == n.tag(),
    ensures
        m == n,
{
    let (a, b) = (m.tag(), n.tag());
    assert(a.len() == b.len());
    if a.len() > 3 {
        assert(a[3] == b[3]);
    }
    if a.len() > 2 {
        assert(a[2] == b[2]);
    }
    assert(a[0] == b[0] && a[1] == b[1]);
}

/// `f` names exactly the addressing mode `m`.
proof fn lemma_names_mode(m: AddrMode, f: Seq<u8>)
    requires
        m.tag() == f,
    ensures
        addr_mode_of(f) == Some(m),
{
    let c = choose|n: AddrMode| n.tag() == f;
    lemma_tag_injective(c, m);
}

impl Instruction {
    /// The upper-case mnemonic, as three ASCII bytes.
    pub open spec fn spec_mnemonic(self) -> (u8, u8, u8) {
        match self {
            Instruction::Adc => (0x41, 0x44, 0x43),
            Instruction::And => (0x41, 0x4e, 0x44),
            Instruction::Asl => (0x41, 0x53, 0x4c),
            Instruction::Bcc => (0x42, 0x43, 0x43),
            Instruction::Bcs => (0x42, 0x43, 0x53),
            Instruction::Beq => (0x42, 0x45, 0x51),
            Instruction::Bit => (0x42, 0x49, 0x54),
            Instruction::Bmi => (0x42, 0x4d, 0x49),
            Instruction::Bne => (0x42, 0x4e, 0x45),
            Instruction::Bpl => (0x42, 0x50, 0x4c),
            Instruction::Brk => (0x42, 0x52, 0x4b),
            Instruction::Bvc => (0x42, 0x56, 0x43),
            Instruction::Bvs => (0x42, 0x56, 0x53),
            Instruction::Clc => (0x43, 0x4c, 0x43),
            Instruction::Cld => (0x43, 0x4c, 0x44),
            Instruction::Cli => (0x43, 0x4c, 0x49),
            Instruction::Clv => (0x43, 0x4c, 0x56),
            Instruction::Cmp => (0x43, 0x4d, 0x50),
            Instruction::Cpx => (0x43, 0x50, 0x58),
            Instruction::Cpy => (0x43, 0x50, 0x59),
            Instruction::Dec => (0x44, 0x45, 0x43),
            Instruction::Dex => (0x44, 0x45, 0x58),
            Instruction::Dey => (0x44, 0x45, 0x59),
            Instruction::Eor => (0x45, 0x4f, 0x52),
            Instruction::Inc => (0x49, 0x4e, 0x43),
            Instruction::Inx => (0x49, 0x4e, 0x58),
            Instruction::Iny => (0x49, 0x4e, 0x59),
            Instruction::Jmp => (0x4a, 0x4d, 0x50),
            Instruction::Jsr => (0x4a, 0x53, 0x52),
            Instruction::Lda => (0x4c, 0x44, 0x41),
            Instruction::Ldx => (0x4c, 0x44, 0x58),
            Instruction::Ldy => (0x4c, 0x44, 0x59),
            Instruction::Lsr => (0x4c, 0x53, 0x52),
            Instruction::Nop => (0x4e, 0x4f, 0x50),
            Instruction::Ora => (0x4f, 0x52, 0x41),
            Instruction::Pha => (0x50, 0x48, 0x41),
            Instruction::Php => (0x50, 0x48, 0x50),
            Instruction::Pla => (0x50, 0x4c, 0x41),
            Instruction::Plp => (0x50, 0x4c, 0x50),
            Instruction::Rol => (0x52, 0x4f, 0x4c),
            Instruction::Ror => (0x52, 0x4f, 0x52),
            Instruction::Rti => (0x52, 0x54, 0x49),
            Instruction::Rts => (0x52, 0x54, 0x53),
            Instruction::Sbc => (0x53, 0x42, 0x43),
            Instruction::Sec => (0x53, 0x45, 0x43),
            Instruction::Sed => (0x53, 0x45, 0x44),
            Instruction::Sei => (0x53, 0x45, 0x49),
            Instruction::Sta => (0x53, 0x54, 0x41),
            Instruction::Stx => (0x53, 0x54, 0x58),
            Instruction::Sty => (0x53, 0x54, 0x59),
            Instruction::Tax => (0x54, 0x41, 0x58),
            Instruction::Tay => (0x54, 0x41, 0x59),
            Instruction::Tsx => (0x54, 0x53, 0x58),
            Instruction::Txa => (0x54, 0x58, 0x41),
            Instruction::Txs => (0x54, 0x58, 0x53),
            Instruction::Tya => (0x54, 0x59, 0x41),
        }
    }

    /// The mnemonic as text.
    pub open spec fn mnemonic_text(self) -> Seq<u8> {
        seq![self.spec_mnemonic().0, self.spec_mnemonic().1, self.spec_mnemonic().2]
    }

    pub fn mnemonic(self) -> (r: (u8, u8, u8))
        ensures
            r == self.spec_mnemonic(),
    {
        match self {
            Instruction::Adc => (0x41, 0x44, 0x43),
            Instruction::And => (0x41, 0x4e, 0x44),
            Instruction::Asl => (0x41, 0x53, 0x4c),
            Instruction::Bcc => (0x42, 0x43, 0x43),
            Instruction::Bcs => (0x42, 0x43, 0x53),
            Instruction::Beq => (0x42, 0x45, 0x51),
            Instruction::Bit => (0x42, 0x49, 0x54),
            Instruction::Bmi => (0x42, 0x4d, 0x49),
            Instruction::Bne => (0x42, 0x4e, 0x45),
            Instruction::Bpl => (0x42, 0x50, 0x4c),
            Instruction::Brk => (0x42, 0x52, 0x4b),
            Instruction::Bvc => (0x42, 0x56, 0x43),
            Instruction::Bvs => (0x42, 0x56, 0x53),
            Instruction::Clc => (0x43, 0x4c, 0x43),
            Instruction::Cld => (0x43, 0x4c, 0x44),
            Instruction::Cli => (0x43, 0x4c, 0x49),
            Instruction::Clv => (0x43, 0x4c, 0x56),
            Instruction::Cmp => (0x43, 0x4d, 0x50),
            Instruction::Cpx => (0x43, 0x50, 0x58),
            Instruction::Cpy => (0x43, 0x50, 0x59),
            Instruction::Dec => (0x44, 0x45, 0x43),
            Instruction::Dex => (0x44, 0x45, 0x58),
            Instruction::Dey => (0x44, 0x45, 0x59),
            Instruction::Eor => (0x45, 0x4f, 0x52),
            Instruction::Inc => (0x49, 0x4e, 0x43),
            Instruction::Inx => (0x49, 0x4e, 0x58),
            Instruction::Iny => (0x49, 0x4e, 0x59),
            Instruction::Jmp => (0x4a, 0x4d, 0x50),
            Instruction::Jsr => (0x4a, 0x53, 0x52),
            Instruction::Lda => (0x4c, 0x44, 0x41),
            Instruction::Ldx => (0x4c, 0x44, 0x58),
            Instruction::Ldy => (0x4c, 0x44, 0x59),
            Instruction::Lsr => (0x4c, 0x53, 0x52),
            Instruction::Nop => (0x4e, 0x4f, 0x50),
            Instruction::Ora => (0x4f, 0x52, 0x41),
            Instruction::Pha => (0x50, 0x48, 0x41),
            Instruction::Php => (0x50, 0x48, 0x50),
            Instruction::Pla => (0x50, 0x4c, 0x41),
            Instruction::Plp => (0x50, 0x4c, 0x50),
            Instruction::Rol => (0x52, 0x4f, 0x4c),
            Instruction::Ror => (0x52, 0x4f, 0x52),
            Instruction::Rti => (0x52, 0x54, 0x49),
            Instruction::Rts => (0x52, 0x54, 0x53),
            Instruction::Sbc => (0x53, 0x42, 0x43),
            Instruction::Sec => (0x53, 0x45, 0x43),
            Instruction::Sed => (0x53, 0x45, 0x44),
            Instruction::Sei => (0x53, 0x45, 0x49),
            Instruction::Sta => (0x53, 0x54, 0x41),
            Instruction::Stx => (0x53, 0x54, 0x58),
            Instruction::Sty => (0x53, 0x54, 0x59),
            Instruction::Tax => (0x54, 0x41, 0x58),
            Instruction::Tay => (0x54, 0x41, 0x59),
            Instruction::Tsx => (0x54, 0x53, 0x58),
            Instruction::Txa => (0x54, 0x58, 0x41),
            Instruction::Txs => (0x54, 0x58, 0x53),
            Instruction::Tya => (0x54, 0x59, 0x41),
        }
    }

    /// The instruction whose mnemonic is the three bytes `a`, `b`, `c`.
    fn from_code(a: u8, b: u8, c: u8) -> (r: Option<Instruction>)
        ensures
            r matches Some(i) ==> i.spec_mnemonic() == (a, b, c),
            r is None ==> forall|i: Instruction| i.spec_mnemonic() != (a, b, c),
    {
        match (a, b, c) {
            (0x41, 0x44, 0x43) => Some(Instruction::Adc),
            (0x41, 0x4e, 0x44) => Some(Instruction::And),
            (0x41, 0x53, 0x4c) => Some(Instruction::Asl),
            (0x42, 0x43, 0x43) => Some(Instruction::Bcc),
            (0x42, 0x43, 0x53) => Some(Instruction::Bcs),
            (0x42, 0x45, 0x51) => Some(Instruction::Beq),
            (0x42, 0x49, 0x54) => Some(Instruction::Bit),
            (0x42, 0x4d, 0x49) => Some(Instruction::Bmi),
            (0x42, 0x4e, 0x45) => Some(Instruction::Bne),
            (0x42, 0x50, 0x4c) => Some(Instruction::Bpl),
            (0x42, 0x52, 0x4b) => Some(Instruction::Brk),
            (0x42, 0x56, 0x43) => Some(Instruction::Bvc),
            (0x42, 0x56, 0x53) => Some(Instruction::Bvs),
            (0x43, 0x4c, 0x43) => Some(Instruction::Clc),
            (0x43, 0x4c, 0x44) => Some(Instruction::Cld),
            (0x43, 0x4c, 0x49) => Some(Instruction::Cli),
            (0x43, 0x4c, 0x56) => Some(Instruction::Clv),
            (0x43, 0x4d, 0x50) => Some(Instruction::Cmp),
            (0x43, 0x50, 0x58) => Some(Instruction::Cpx),
            (0x43, 0x50, 0x59) => Some(Instruction::Cpy),
            (0x44, 0x45, 0x43) => Some(Instruction::Dec),
            (0x44, 0x45, 0x58) => Some(Instruction::Dex),
            (0x44, 0x45, 0x59) => Some(Instruction::Dey),
            (0x45, 0x4f, 0x52) => Some(Instruction::Eor),
            (0x49, 0x4e, 0x43) => Some(Instruction::Inc),
            (0x49, 0x4e, 0x58) => Some(Instruction::Inx),
            (0x49, 0x4e, 0x59) => Some(Instruction::Iny),
            (0x4a, 0x4d, 0x50) => Some(Instruction::Jmp),
            (0x4a, 0x53, 0x52) => Some(Instruction::Jsr),
            (0x4c, 0x44, 0x41) => Some(Instruction::Lda),
            (0x4c, 0x44, 0x58) => Some(Instruction::Ldx),
            (0x4c, 0x44, 0x59) => Some(Instruction::Ldy),
            (0x4c, 0x53, 0x52) => Some(Instruction::Lsr),
            (0x4e, 0x4f, 0x50) => Some(Instruction::Nop),
            (0x4f, 0x52, 0x41) => Some(Instruction::Ora),
            (0x50, 0x48, 0x41) => Some(Instruction::Pha),
            (0x50, 0x48, 0x50) => Some(Instruction::Php),
            (0x50, 0x4c, 0x41) => Some(Instruction::Pla),
            (0x50, 0x4c, 0x50) => Some(Instruction::Plp),
            (0x52, 0x4f, 0x4c) => Some(Instruction::Rol),
            (0x52, 0x4f, 0x52) => Some(Instruction::Ror),
            (0x52, 0x54, 0x49) => Some(Instruction::Rti),
            (0x52, 0x54, 0x53) => Some(Instruction::Rts),
            (0x53, 0x42, 0x43) => Some(Instruction::Sbc),
            (0x53, 0x45, 0x43) => Some(Instruction::Sec),
            (0x53, 0x45, 0x44) => Some(Instruction::Sed),
            (0x53, 0x45, 0x49) => Some(Instruction::Sei),
            (0x53, 0x54, 0x41) => Some(Instruction::Sta),
            (0x53, 0x54, 0x58) => Some(Instruction::Stx),
            (0x53, 0x54, 0x59) => Some(Instruction::Sty),
            (0x54, 0x41, 0x58) => Some(Instruction::Tax),
            (0x54, 0x41, 0x59) => Some(Instruction::Tay),
            (0x54, 0x53, 0x58) => Some(Instruction::Tsx),
            (0x54, 0x58, 0x41) => Some(Instruction::Txa),
            (0x54, 0x58, 0x53) => Some(Instruction::Txs),
            (0x54, 0x59, 0x41) => Some(Instruction::Tya),
            _ => None,
        }
    }

    /// Looks up a mnemonic.
    pub fn from_mnemonic(f: &Vec<u8>) -> (r: Option<Instruction>)
        ensures
            r == instruction_of(f@),
    {
        if f.len() != 3 {
            proof {
                assert forall|i: Instruction| i.mnemonic_text() != f@ by {
                    assert(i.mnemonic_text().len() == 3);
                }
            }
            return None;
        }
        let r = Instruction::from_code(f[0], f[1], f[2]);
        proof {
            match r {
                Some(i) => {
                    assert(f@ =~= i.mnemonic_text());
                    lemma_names_instruction(i, f@);
                },
                None => {
                    assert forall|i: Instruction| i.mnemonic_text() != f@ by {
                        if i.mnemonic_text() == f@ {
                            let t = i.mnemonic_text();
                            assert(t[0] == f@[0] && t[1] == f@[1] && t[2] == f@[2]);
                        }
                    }
                },
            }
        }
        r
    }
}

impl AddrMode {
    /// The tag that names this mode in an instruction-set description.
    pub open spec fn tag(self) -> Seq<u8> {
        match self {
            AddrMode::Acc => seq![0x41u8, 0x43u8, 0x43u8],
            AddrMode::Imm => seq![0x49u8, 0x4du8, 0x4du8],
            AddrMode::Abs => seq![0x41u8, 0x42u8, 0x53u8],
            AddrMode::Zp => seq![0x5au8, 0x50u8],
            AddrMode::Zpx => seq![0x5au8, 0x50u8, 0x58u8],
            AddrMode::Zpy => seq![0x5au8, 0x50u8, 0x59u8],
            AddrMode::Absx => seq![0x41u8, 0x42u8, 0x53u8, 0x58u8],
            AddrMode::Absy => seq![0x41u8, 0x42u8, 0x53u8, 0x59u8],
            AddrMode::Imp => seq![0x49u8, 0x4du8, 0x50u8],
            AddrMode::Rel => seq![0x52u8, 0x45u8, 0x4cu8],
            AddrMode::Indx => seq![0x49u8, 0x4eu8, 0x44u8, 0x58u8],
            AddrMode::Indy => seq![0x49u8, 0x4eu8, 0x44u8, 0x59u8],
            AddrMode::Ind => seq![0x49u8, 0x4eu8, 0x44u8],
        }
    }

    /// Looks up an addressing-mode tag.
    pub fn from_tag(f: &Vec<u8>) -> (r: Option<AddrMode>)
        ensures
            r == addr_mode_of(f@),
    {
        if f.len() == 3 && f[0] == 0x41 && f[1] == 0x43 && f[2] == 0x43 {
            proof {
                assert(f@ =~= AddrMode::Acc.tag());
                lemma_names_mode(AddrMode::Acc, f@);
            }
            Some(AddrMode::Acc)
        } else if f.len() == 3 && f[0] == 0x49 && f[1] == 0x4d && f[2] == 0x4d {
            proof {
                assert(f@ =~= AddrMode::Imm.tag());
                lemma_names_mode(AddrMode::Imm, f@);
            }
            Some(AddrMode::Imm)
        } else if f.len() == 3 && f[0] == 0x41 && f[1] == 0x42 && f[2] == 0x53 {
            proof {
                assert(f@ =~= AddrMode::Abs.tag());
                lemma_names_mode(AddrMode::Abs, f@);
            }
            Some(AddrMode::Abs)
        } else if f.len() == 2 && f[0] == 0x5a && f[1] == 0x50 {
            proof {
                assert(f@ =~= AddrMode::Zp.tag());
                lemma_names_mode(AddrMode::Zp, f@);
            }
            Some(AddrMode::Zp)
        } else if f.len() == 3 && f[0] == 0x5a && f[1] == 0x50 && f[2] == 0x58 {
            proof {
                assert(f@ =~= AddrMode::Zpx.tag());
                lemma_names_mode(AddrMode::Zpx, f@);
            }
            Some(AddrMode::Zpx)
        } else if f.len() == 3 && f[0] == 0x5a && f[1] == 0x50 && f[2] == 0x59 {
            proof {
                assert(f@ =~= AddrMode::Zpy.tag());
                lemma_names_mode(AddrMode::Zpy, f@);
            }
            Some(AddrMode::Zpy)
        } else if f.len() == 4 && f[0] == 0x41 && f[1] == 0x42 && f[2] == 0x53 && f[3] == 0x58 {
            proof {
                assert(f@ =~= AddrMode::Absx.tag());
                lemma_names_mode(AddrMode::Absx, f@);
            }
            Some(AddrMode::Absx)
        } else if f.len() == 4 && f[0] == 0x41 && f[1] == 0x42 && f[2] == 0x53 && f[3] == 0x59 {
            proof {
                assert(f@ =~= AddrMode::Absy.tag());
                lemma_names_mode(AddrMode::Absy, f@);
            }
            Some(AddrMode::Absy)
        } else if f.len() == 3 && f[0] == 0x49 && f[1] == 0x4d && f[2] == 0x50 {
            proof {
                assert(f@ =~= AddrMode::Imp.tag());
                lemma_names_mode(AddrMode::Imp, f@);
            }
            Some(AddrMode::Imp)
        } else if f.len() == 3 && f[0] == 0x52 && f[1] == 0x45 && f[2] == 0x4c {
            proof {
                assert(f@ =~= AddrMode::Rel.tag());
                lemma_names_mode(AddrMode::Rel, f@);
            }
            Some(AddrMode::Rel)
        } else if f.len() == 4 && f[0] == 0x49 && f[1] == 0x4e && f[2] == 0x44 && f[3] == 0x58 {
            proof {
                assert(f@ =~= AddrMode::Indx.tag());
                lemma_names_mode(AddrMode::Indx, f@);
            }
            Some(AddrMode::Indx)
        } else if f.len() == 4 && f[0] == 0x49 && f[1] == 0x4e && f[2] == 0x44 && f[3] == 0x59 {
            proof {
                assert(f@ =~= AddrMode::Indy.tag());
                lemma_names_mode(AddrMode::Indy, f@);
            }
            Some(AddrMode::Indy)
        } else if f.len() == 3 && f[0] == 0x49 && f[1] == 0x4e && f[2] == 0x44 {
            proof {
                assert(f@ =~= AddrMode::Ind.tag());
                lemma_names_mode(AddrMode::Ind, f@);
            }
            Some(AddrMode::Ind)
        } else {
            proof {
                assert forall|m: AddrMode| m.tag() != f@ by {
                    if m.tag() == f@ {
                        let t = m.tag();
                        assert(t.len() == f@.len());
                        assert(t[0] == f@[0] && t[1] == f@[1]);
                        if t.len() > 2 {
                            assert(t[2] == f@[2]);
                        }
                        if t.len() > 3 {
                            assert(t[3] == f@[3]);
                        }
                    }
                }
            }
            None
        }
    }
}

/// Each mnemonic reads back as the instruction it names.
pub proof fn lemma_mnemonic_round_trip(i: Instruction)
    ensures
        instruction_of(i.mnemonic_text()) == Some(i),
{
    lemma_names_instruction(i, i.mnemonic_text());
}

/// Which addressing mode and which instruction an opcode stands for.
#[derive(Debug, Clone, Copy, PartialEq, Eq, Structural)]
pub struct OpInfo {
    pub address_mode: AddrMode,
    pub instruction: Instruction,
}

/// One entry of the opcode table.
#[derive(Debug, Clone, Copy, PartialEq, Eq, Structural)]
pub struct Op {
    pub cycles: u8,
    pub info: OpInfo,
}

/// The entry of every opcode that the instruction-set description leaves out.
pub open spec fn spec_default_op() -> Op {
    Op { cycles: 1, info: OpInfo { address_mode: AddrMode::Imp, instruction: Instruction::Nop } }
}

impl Op {
    /// The single-cycle no-operation under implicit addressing.
    pub fn nop() -> (o: Op)
        ensures
            o == spec_default_op(),
    {
        Op { cycles: 1, info: OpInfo { address_mode: AddrMode::Imp, instruction: Instruction::Nop } }
    }
}

/// A table with every opcode bound to the default entry.
pub fn default_table() -> (t: Vec<Op>)
    ensures
        t@.len() == 256,
        forall|i: int| 0 <= i < 256 ==> #[trigger] t@[i] == spec_default_op(),
{
    let mut t: Vec<Op> = Vec::new();
    let mut i: usize = 0;
    while i < 256
        invariant
            i <= 256,
            t@.len() == i,
            forall|j: int| 0 <= j < i ==> #[trigger] t@[j] == spec_default_op(),
        decreases 256 - i,
    {
        t.push(Op::nop());
        i += 1;
    }
    t
}

/// `pc` advanced by `k`, modulo 65536.
pub open spec fn next(pc: u16, k: int) -> u16 {
    ((pc + k) % 0x10000) as u16
}

/// An 8-bit value read as two's complement.
pub open spec fn signed(b: u8) -> int {
    if b < 0x80 {
        b as int
    } else {
        b - 0x100
    }
}

/// The abstract processor: registers, the decode context, the cycle counter,
/// both memory regions and the opcode table.
pub struct CpuState {
    pub regs: Regs,
    pub offset: i8,
    pub addr: u16,
    pub operand: u8,
    pub cycles: u64,
    pub branch: bool,
    pub page_crossed: bool,
    pub addr_mode: AddrMode,
    pub ram: Seq<u8>,
    pub rom: Seq<u8>,
    pub table: Seq<Op>,
}

impl CpuState {
    pub open spec fn wf(self) -> bool {
        self.ram.len() == RAM_SIZE && self.rom.len() == ROM_SIZE && self.table.len() == 256
    }

    /// The byte seen at `addr` through the memory map.
    pub open spec fn byte(self, addr: u16) -> u8 {
        if addr <= 0x07FF {
            self.ram[addr as int]
        } else if 0x8000 <= addr {
            self.rom[addr - 0x8000]
        } else {
            0
        }
    }

    /// The state after storing `b` at `addr` through the memory map.
    pub open spec fn store(self, addr: u16, b: u8) -> CpuState {
        if addr <= 0x07FF {
            CpuState { ram: self.ram.update(addr as int, b), ..self }
        } else if 0x8000 <= addr {
            CpuState { rom: self.rom.update(addr - 0x8000, b), ..self }
        } else {
            self
        }
    }

    /// The `k`-th byte of the instruction stream from the program counter.
    pub open spec fn arg(self, k: int) -> u8 {
        self.byte(next(self.regs.pc, k))
    }

    pub open spec fn with_regs(self, regs: Regs) -> CpuState {
        CpuState { regs, ..self }
    }

    pub open spec fn with_pc(self, pc: u16) -> CpuState {
        self.with_regs(Regs { pc, ..self.regs })
    }

    /// The state after resolving an effective address (and the operand
    /// read from it) at `addr`, with `len` operand bytes consumed.
    pub open spec fn at_addr(self, addr: u16, len: int, crossed: bool) -> CpuState {
        CpuState {
            regs: Regs { pc: next(self.regs.pc, len), ..self.regs },
            addr,
            operand: self.byte(addr),
            page_crossed: crossed,
            ..self
        }
    }

    /// Absolute addressing offset by `index`: a 16-bit add that crosses a
    /// page when the high byte changes.
    pub open spec fn indexed(self, index: u8) -> CpuState {
        let base = self.arg(0) + 0x100 * self.arg(1);
        let addr = (base + index) % 0x10000;
        self.at_addr(addr as u16, 2, addr / 0x100 != base / 0x100)
    }

    pub open spec fn indirect_x(self) -> CpuState {
        let ptr = (self.arg(0) + self.regs.x) % 0x100;
        let lo = self.byte(ptr as u16);
        let hi = self.byte(((ptr + 1) % 0x100) as u16);
        self.at_addr((lo + 0x100 * hi) as u16, 1, false)
    }

    pub open spec fn indirect_y(self) -> CpuState {
        let b0 = self.arg(0);
        let lo = self.byte(b0 as u16) + self.regs.y;
        let hi = self.byte(((b0 + 1) % 0x100) as u16);
        self.at_addr(((lo + 0x100 * hi) % 0x10000) as u16, 1, lo > 0xFF)
    }

    /// Indirect addressing, including the hardware's failure to carry into
    /// the pointer's high byte.
    pub open spec fn indirect(self) -> CpuState {
        let b0 = self.arg(0);
        let ptr = b0 + 0x100 * self.arg(1);
        let hi_at = if b0 == 0xFF { ptr - 0xFF } else { ptr + 1 };
        let addr = self.byte(ptr as u16) + 0x100 * self.byte(hi_at as u16);
        CpuState {
            regs: Regs { pc: next(self.regs.pc, 2), ..self.regs },
            addr: addr as u16,
            page_crossed: false,
            ..self
        }
    }

    pub open spec fn relative(self) -> CpuState {
        let pc1 = next(self.regs.pc, 1);
        let off = signed(self.arg(0));
        let target = next(pc1, off);
        CpuState {
            regs: Regs { pc: pc1, ..self.regs },
            offset: off as i8,
            page_crossed: target / 0x100 != pc1 / 0x100,
            ..self
        }
    }

    /// Implicit and accumulator addressing: nothing to resolve.
    pub open spec fn implied(self) -> CpuState {
        CpuState { page_crossed: false, ..self }
    }

    /// Immediate addressing: the operand is the next byte.
    pub open spec fn immediate(self) -> CpuState {
        CpuState {
            regs: Regs { pc: next(self.regs.pc, 1), ..self.regs },
            operand: self.arg(0),
            page_crossed: false,
            ..self
        }
    }

    /// Absolute addressing: a little-endian 16-bit address.
    pub open spec fn absolute(self) -> CpuState {
        self.at_addr((self.arg(0) + 0x100 * self.arg(1)) as u16, 2, false)
    }

    /// Zero-page addressing offset by `index`, wrapping within the zero page.
    pub open spec fn zero_page(self, index: u8) -> CpuState {
        self.at_addr(((self.arg(0) + index) % 0x100) as u16, 1, false)
    }

    /// The state after the resolver of `mode` has run.
    #[verifier::opaque]
    pub open spec fn resolved(self, mode: AddrMode) -> CpuState {
        match mode {
            AddrMode::Imp | AddrMode::Acc => self.implied(),
            AddrMode::Imm => self.immediate(),
            AddrMode::Abs => self.absolute(),
            AddrMode::Zp => self.zero_page(0),
            AddrMode::Zpx => self.zero_page(self.regs.x),
            AddrMode::Zpy => self.zero_page(self.regs.y),
            AddrMode::Absx => self.indexed(self.regs.x),
            AddrMode::Absy => self.indexed(self.regs.y),
            AddrMode::Indx => self.indirect_x(),
            AddrMode::Indy => self.indirect_y(),
            AddrMode::Ind => self.indirect(),
            AddrMode::Rel => self.relative(),
        }
    }
}

/// Instruction semantics over the abstract processor.
impl CpuState {
    pub open spec fn flag(self, f: Flag) -> bool {
        flag_of(self.regs.p, f)
    }

    pub open spec fn with_p(self, p: u8) -> CpuState {
        self.with_regs(Regs { p, ..self.regs })
    }

    pub open spec fn set(self, f: Flag, v: bool) -> CpuState {
        self.with_p(with_flag(self.regs.p, f, v))
    }

    /// Negative and Zero refreshed from `v`.
    pub open spec fn nz(self, v: u8) -> CpuState {
        self.with_p(with_nz(self.regs.p, v))
    }

    /// The accumulator set to `v`, with Negative and Zero from it.
    pub open spec fn load_a(self, v: u8) -> CpuState {
        self.with_regs(Regs { a: v, p: with_nz(self.regs.p, v), ..self.regs })
    }

    pub open spec fn load_x(self, v: u8) -> CpuState {
        self.with_regs(Regs { x: v, p: with_nz(self.regs.p, v), ..self.regs })
    }

    pub open spec fn load_y(self, v: u8) -> CpuState {
        self.with_regs(Regs { y: v, p: with_nz(self.regs.p, v), ..self.regs })
    }

    /// The value a read-modify-write instruction works on: the accumulator
    /// under accumulator addressing, the operand otherwise.
    pub open spec fn source(self) -> u8 {
        if self.addr_mode == AddrMode::Acc {
            self.regs.a
        } else {
            self.operand
        }
    }

    /// Writes a read-modify-write result back where it came from, with
    /// Negative and Zero from it.
    pub open spec fn put(self, v: u8) -> CpuState {
        if self.addr_mode == AddrMode::Acc {
            self.load_a(v)
        } else {
            self.store(self.addr, v).nz(v)
        }
    }

    /// Add with carry: the 9-bit sum's low byte goes to the accumulator and
    /// its high bit to Carry; Overflow when both inputs share a sign that the
    /// result does not.
    pub open spec fn add(self, m: u8, c: bool) -> CpuState {
        let a = self.regs.a;
        let sum = a + m + if c { 1int } else { 0int };
        let res = (sum % 0x100) as u8;
        let v = ((a < 0x80) == (m < 0x80)) && ((res < 0x80) != (a < 0x80));
        self.with_regs(
            Regs {
                a: res,
                p: with_flag(with_nz(with_flag(self.regs.p, Flag::V, v), res), Flag::C, sum > 0xFF),
                ..self.regs
            },
        )
    }

    /// Compares `reg` with the operand.
    pub open spec fn compare(self, reg: u8) -> CpuState {
        let m = self.operand;
        self.with_p(
            with_flag(with_flag(with_flag(self.regs.p, Flag::Z, reg == m), Flag::C, reg >= m), Flag::N, reg < m),
        )
    }

    /// A shift or rotate result `v` written back, with Carry set to `c`.
    pub open spec fn shifted(self, v: u8, c: bool) -> CpuState {
        self.put(v).set(Flag::C, c)
    }

    pub open spec fn take_branch(self, cond: bool) -> CpuState {
        CpuState { branch: cond, ..self }
    }

    /// Pushes `v` onto the stack page.
    pub open spec fn push(self, v: u8) -> CpuState {
        let st = self.store((0x100 + self.regs.s) as u16, v);
        st.with_regs(Regs { s: ((self.regs.s + 0xFF) % 0x100) as u8, ..st.regs })
    }

    /// Stack pointer after a pull.
    pub open spec fn pulled_s(self) -> u8 {
        ((self.regs.s + 1) % 0x100) as u8
    }

    /// The byte a pull returns.
    pub open spec fn top(self) -> u8 {
        self.byte((0x100 + self.pulled_s()) as u16)
    }

    pub open spec fn pull(self) -> CpuState {
        self.with_regs(Regs { s: self.pulled_s(), ..self.regs })
    }


    /// One more cycle on the counter (wrapping) when reading the operand
    /// crossed a page.
    pub open spec fn charged(self) -> CpuState {
        if self.page_crossed {
            CpuState { cycles: ((self.cycles + 1) % 0x1_0000_0000_0000_0000) as u64, ..self }
        } else {
            self
        }
    }

    pub open spec fn adc(self) -> CpuState {
        self.add(self.operand, self.flag(Flag::C)).charged()

    }

    pub open spec fn and(self) -> CpuState {
        self.load_a(self.regs.a & self.operand).charged()

    }

    pub open spec fn asl(self) -> CpuState {
        self.shifted(((self.source() * 2) % 0x100) as u8, self.source() >= 0x80)
    }

    pub open spec fn bcc(self) -> CpuState {
        self.take_branch(!self.flag(Flag::C))
    }

    pub open spec fn bcs(self) -> CpuState {
        self.take_branch(self.flag(Flag::C))
    }

    pub open spec fn beq(self) -> CpuState {
        self.take_branch(self.flag(Flag::Z))
    }

    pub open spec fn bit(self) -> CpuState {
        self.with_p(with_flag(with_flag(with_flag(self.regs.p, Flag::Z, self.regs.a & self.operand == 0), Flag::V, (self.operand / 0x40) % 2 == 1), Flag::N, self.operand >= 0x80))
    }

    pub open spec fn bmi(self) -> CpuState {
        self.take_branch(self.flag(Flag::N))
    }

    pub open spec fn bne(self) -> CpuState {
        self.take_branch(!self.flag(Flag::Z))
    }

    pub open spec fn bpl(self) -> CpuState {
        self.take_branch(!self.flag(Flag::N))
    }

    pub open spec fn bvc(self) -> CpuState {
        self.take_branch(!self.flag(Flag::V))
    }

    pub open spec fn bvs(self) -> CpuState {
        self.take_branch(self.flag(Flag::V))
    }

    pub open spec fn clc(self) -> CpuState {
        self.set(Flag::C, false)
    }

    pub open spec fn cld(self) -> CpuState {
        self.set(Flag::D, false)
    }

    pub open spec fn cli(self) -> CpuState {
        self.set(Flag::I, false)
    }

    pub open spec fn clv(self) -> CpuState {
        self.set(Flag::V, false)
    }

    pub open spec fn cmp(self) -> CpuState {
        self.compare(self.regs.a).charged()

    }

    pub open spec fn cpx(self) -> CpuState {
        self.compare(self.regs.x)
    }

    pub open spec fn cpy(self) -> CpuState {
        self.compare(self.regs.y)
    }

    pub open spec fn dec(self) -> CpuState {
        self.put(((self.source() + 0xFF) % 0x100) as u8)
    }

    pub open spec fn dex(self) -> CpuState {
        self.load_x(((self.regs.x + 0xFF) % 0x100) as u8)
    }

    pub open spec fn dey(self) -> CpuState {
        self.load_y(((self.regs.y + 0xFF) % 0x100) as u8)
    }

    pub open spec fn eor(self) -> CpuState {
        self.load_a(self.regs.a ^ self.operand).charged()

    }

    pub open spec fn inc(self) -> CpuState {
        self.put(((self.source() + 1) % 0x100) as u8)
    }

    pub open spec fn inx(self) -> CpuState {
        self.load_x(((self.regs.x + 1) % 0x100) as u8)
    }

    pub open spec fn iny(self) -> CpuState {
        self.load_y(((self.regs.y + 1) % 0x100) as u8)
    }

    pub open spec fn jmp(self) -> CpuState {
        self.with_pc(self.addr)
    }

    pub open spec fn jsr(self) -> CpuState {
        {
            let ret = (self.regs.pc + 0xFFFF) % 0x10000;
            self.push((ret / 0x100) as u8).push((ret % 0x100) as u8).with_pc(self.addr)
        }
    }

    pub open spec fn lda(self) -> CpuState {
        self.load_a(self.operand).charged()

    }

    pub open spec fn ldx(self) -> CpuState {
        self.load_x(self.operand).charged()

    }

    pub open spec fn ldy(self) -> CpuState {
        self.load_y(self.operand).charged()

    }

    pub open spec fn lsr(self) -> CpuState {
        self.shifted((self.source() / 2) as u8, self.source() % 2 == 1)
    }

    pub open spec fn nop(self) -> CpuState {
        self
    }

    pub open spec fn ora(self) -> CpuState {
        self.load_a(self.regs.a | self.operand).charged()

    }

    pub open spec fn pha(self) -> CpuState {
        self.push(self.regs.a)
    }

    pub open spec fn php(self) -> CpuState {
        self.push(self.regs.p)
    }

    pub open spec fn pla(self) -> CpuState {
        self.pull().load_a(self.top())
    }

    pub open spec fn plp(self) -> CpuState {
        self.pull().with_p(self.top())
    }

    pub open spec fn rol(self) -> CpuState {
        self.shifted(((self.source() * 2 + if self.flag(Flag::C) { 1int } else { 0int }) % 0x100) as u8, self.source() >= 0x80)
    }

    pub open spec fn ror(self) -> CpuState {
        self.shifted((self.source() / 2 + if self.flag(Flag::C) { 0x80int } else { 0int }) as u8, self.source() % 2 == 1)
    }

    pub open spec fn rts(self) -> CpuState {
        {
            let lo = self.top();
            let st = self.pull();
            let hi = st.top();
            st.pull().with_pc(((lo + 0x100 * hi + 1) % 0x10000) as u16)
        }
    }

    pub open spec fn sbc(self) -> CpuState {
        self.add((0xFF - self.operand) as u8, self.flag(Flag::C)).charged()

    }

    pub open spec fn sec(self) -> CpuState {
        self.set(Flag::C, true)
    }

    pub open spec fn sed(self) -> CpuState {
        self.set(Flag::D, true)
    }

    pub open spec fn sei(self) -> CpuState {
        self.set(Flag::I, true)
    }

    pub open spec fn sta(self) -> CpuState {
        self.store(self.addr, self.regs.a)
    }

    pub open spec fn stx(self) -> CpuState {
        self.store(self.addr, self.regs.x)
    }

    pub open spec fn sty(self) -> CpuState {
        self.store(self.addr, self.regs.y)
    }

    pub open spec fn tax(self) -> CpuState {
        self.load_x(self.regs.a)
    }

    pub open spec fn tay(self) -> CpuState {
        self.load_y(self.regs.a)
    }

    pub open spec fn tsx(self) -> CpuState {
        self.load_x(self.regs.s)
    }

    pub open spec fn txa(self) -> CpuState {
        self.load_a(self.regs.x)
    }

    pub open spec fn txs(self) -> CpuState {
        self.with_regs(Regs { s: self.regs.x, ..self.regs })
    }

    pub open spec fn tya(self) -> CpuState {
        self.load_a(self.regs.y)
    }

    /// Whether `i` has semantics in this core; the interrupt instructions
    /// do not.
    pub open spec fn supported(i: Instruction) -> bool {
        i != Instruction::Brk && i != Instruction::Rti
    }

    /// The state after the routine of `i` has run. Interrupt instructions
    /// have no routine here: `execute` refuses them before dispatch.
    #[verifier::opaque]
    pub open spec fn performed(self, i: Instruction) -> CpuState
        recommends
            CpuState::supported(i),
    {
        match i {

            Instruction::Adc => self.adc(),
            Instruction::And => self.and(),
            Instruction::Asl => self.asl(),
            Instruction::Bcc => self.bcc(),
            Instruction::Bcs => self.bcs(),
            Instruction::Beq => self.beq(),
            Instruction::Bit => self.bit(),
            Instruction::Bmi => self.bmi(),
            Instruction::Bne => self.bne(),
            Instruction::Bpl => self.bpl(),
            Instruction::Brk => arbitrary(),
            Instruction::Bvc => self.bvc(),
            Instruction::Bvs => self.bvs(),
            Instruction::Clc => self.clc(),
            Instruction::Cld => self.cld(),
            Instruction::Cli => self.cli(),
            Instruction::Clv => self.clv(),
            Instruction::Cmp => self.cmp(),
            Instruction::Cpx => self.cpx(),
            Instruction::Cpy => self.cpy(),
            Instruction::Dec => self.dec(),
            Instruction::Dex => self.dex(),
            Instruction::Dey => self.dey(),
            Instruction::Eor => self.eor(),
            Instruction::Inc => self.inc(),
            Instruction::Inx => self.inx(),
            Instruction::Iny => self.iny(),
            Instruction::Jmp => self.jmp(),
            Instruction::Jsr => self.jsr(),
            Instruction::Lda => self.lda(),
            Instruction::Ldx => self.ldx(),
            Instruction::Ldy => self.ldy(),
            Instruction::Lsr => self.lsr(),
            Instruction::Nop => self.nop(),
            Instruction::Ora => self.ora(),
            Instruction::Pha => self.pha(),
            Instruction::Php => self.php(),
            Instruction::Pla => self.pla(),
            Instruction::Plp => self.plp(),
            Instruction::Rol => self.rol(),
            Instruction::Ror => self.ror(),
            Instruction::Rti => arbitrary(),
            Instruction::Rts => self.rts(),
            Instruction::Sbc => self.sbc(),
            Instruction::Sec => self.sec(),
            Instruction::Sed => self.sed(),
            Instruction::Sei => self.sei(),
            Instruction::Sta => self.sta(),
            Instruction::Stx => self.stx(),
            Instruction::Sty => self.sty(),
            Instruction::Tax => self.tax(),
            Instruction::Tay => self.tay(),
            Instruction::Tsx => self.tsx(),
            Instruction::Txa => self.txa(),
            Instruction::Txs => self.txs(),
            Instruction::Tya => self.tya(),
        }
    }
}

impl CpuState {
    /// Instructions that take one more cycle when reading their operand
    /// crossed a page.
    pub open spec fn page_penalty(i: Instruction) -> bool {
        matches!(
            i,
            Instruction::Adc | Instruction::And | Instruction::Cmp | Instruction::Eor | Instruction::Lda
                | Instruction::Ldx | Instruction::Ldy | Instruction::Ora | Instruction::Sbc
        )
    }

    /// Cycles added after the routine of `op` has run: one for a taken
    /// branch and one more if it crossed a page, and the entry's base cost.
    /// (A page-crossing operand read is charged by the routine itself.)
    pub open spec fn cycle_cost(self, op: Op) -> int {
        (if self.branch {
            1 + if self.page_crossed { 1int } else { 0int }
        } else {
            0int
        }) + op.cycles
    }

    /// Post-dispatch: a taken branch moves the program counter by the
    /// signed offset, and the cycle counter advances (wrapping).
    pub open spec fn finished(self, op: Op) -> CpuState {
        let pc = if self.branch {
            next(self.regs.pc, self.offset as int)
        } else {
            self.regs.pc
        };
        CpuState {
            regs: Regs { pc, ..self.regs },
            cycles: ((self.cycles + self.cycle_cost(op)) % 0x1_0000_0000_0000_0000) as u64,
            ..self
        }
    }

    /// The state after dispatching `opcode` through the table.
    #[verifier::opaque]
    pub open spec fn executed(self, opcode: u8) -> CpuState {
        let op = self.table[opcode as int];
        CpuState { addr_mode: op.info.address_mode, branch: false, ..self }.resolved(
            op.info.address_mode,
        ).performed(op.info.instruction).finished(op)
    }

    /// Whether the instruction at the program counter can run.
    pub open spec fn can_step(self) -> bool {
        CpuState::supported(self.table[self.arg(0) as int].info.instruction)
    }

    /// The state after one fetch-decode-execute step.
    pub open spec fn stepped(self) -> CpuState {
        self.with_pc(next(self.regs.pc, 1)).executed(self.arg(0))
    }
}

/// Subtract with carry computes `A - M - (1 - C)` modulo 256, and leaves
/// Carry set exactly when no borrow occurred.
pub proof fn lemma_sbc_subtracts(s: CpuState)
    ensures
        s.sbc().regs.a as int == (s.regs.a - s.operand - if s.flag(Flag::C) { 0int } else { 1int }) % 256,
        s.sbc().flag(Flag::C) == (s.regs.a - s.operand - if s.flag(Flag::C) { 0int } else { 1int } >= 0),
{
    let c = s.flag(Flag::C);
    let sum = s.regs.a + (0xFF - s.operand) + if c { 1int } else { 0int };
    let res = (sum % 0x100) as u8;
    let v = ((s.regs.a < 0x80) == (((0xFF - s.operand) as u8) < 0x80)) && ((res < 0x80) != (s.regs.a < 0x80));
    let p1 = with_nz(with_flag(s.regs.p, Flag::V, v), res);
    lemma_flag_isolation(p1, Flag::C, sum > 0xFF, Flag::C);
}

/// An absolute-indexed read that takes the page-crossing penalty costs its
/// base cycles plus one exactly when adding the index changes the high byte
/// of the address (the cycle counter wraps; short of that, plainly so).
#[verifier::spinoff_prover]
pub proof fn lemma_indexed_page_cost(s: CpuState, opcode: u8)
    requires
        s.wf(),
        s.table[opcode as int].info.address_mode == AddrMode::Absx,
        CpuState::page_penalty(s.table[opcode as int].info.instruction),
    ensures
        ({
            let base = s.arg(0) + 0x100 * s.arg(1);
            let crossed = (base + s.regs.x) % 0x10000 / 0x100 != base / 0x100;
            s.executed(opcode).cycles == (s.cycles + s.table[opcode as int].cycles + if crossed {
                1int
            } else {
                0int
            }) % 0x1_0000_0000_0000_0000
        }),
        ({
            let base = s.arg(0) + 0x100 * s.arg(1);
            let crossed = (base + s.regs.x) % 0x10000 / 0x100 != base / 0x100;
            s.cycles + s.table[opcode as int].cycles + 1 < 0x1_0000_0000_0000_0000 ==> s.executed(
                opcode,
            ).cycles == s.cycles + s.table[opcode as int].cycles + if crossed {
                1int
            } else {
                0int
            }
        }),
{
    reveal(CpuState::executed);
    let op = s.table[opcode as int];
    let s1 = CpuState { addr_mode: op.info.address_mode, branch: false, ..s };
    let r = s1.resolved(op.info.address_mode);
    assert(r == s1.indexed(s.regs.x)) by {
        reveal(CpuState::resolved);
    }
    let base = s.arg(0) + 0x100 * s.arg(1);
    assert(s1.arg(0) == s.arg(0) && s1.arg(1) == s.arg(1));
    assert(r.page_crossed == ((base + s.regs.x) % 0x10000 / 0x100 != base / 0x100));
    assert(!r.branch && r.cycles == s.cycles);
    lemma_penalty_keeps(r, op.info.instruction);
    let p = r.performed(op.info.instruction);
    assert(s.executed(opcode).cycles == p.finished(op).cycles);
    let c: int = if r.page_crossed { 1 } else { 0 };
    assert(p.cycles == (s.cycles + c) % 0x1_0000_0000_0000_0000);
    assert(p.cycle_cost(op) == op.cycles);
    lemma_wrap_add(s.cycles as int, c, op.cycles as int);
}

/// Adding in two wrapped steps is adding once, wrapped.
proof fn lemma_wrap_add(x: int, c: int, k: int)
    requires
        0 <= x < 0x1_0000_0000_0000_0000,
        0 <= c <= 1,
        0 <= k,
    ensures
        ((x + c) % 0x1_0000_0000_0000_0000 + k) % 0x1_0000_0000_0000_0000 == (x + k + c)
            % 0x1_0000_0000_0000_0000,
{
}

/// The instructions that pay the page-crossing penalty leave the branch
/// and page-crossed flags alone and charge the penalty cycle themselves.
proof fn lemma_penalty_keeps(r: CpuState, i: Instruction)
    requires
        CpuState::page_penalty(i),
    ensures
        r.performed(i).branch == r.branch,
        r.performed(i).page_crossed == r.page_crossed,
        r.performed(i).cycles == r.charged().cycles,
{
    reveal(CpuState::performed);
}

/// Why a step could not run.
#[derive(Debug, Clone, Copy, PartialEq, Eq, Structural)]
pub enum CpuError {
    /// The instruction has no semantics in this core (interrupt handling).
    Unimplemented(Instruction),
}

/// The processor: registers, per-step decode context, cycle counter, memory
/// and the opcode table it dispatches through.
pub struct Cpu {
    pub regs: Regs,
    pub offset: i8,
    pub addr: u16,
    pub operand: u8,
    pub cycles: u64,
    pub branch: bool,
    pub page_crossed: bool,
    /// Kept because accumulator-addressed instructions write their result to
    /// the accumulator instead of to memory.
    pub addr_mode: AddrMode,
    pub mmio: Mmio,
    /// The dispatch table; built once and only read afterwards.
    pub opcodes: Vec<Op>,
}

impl View for Cpu {
    type V = CpuState;

    open spec fn view(&self) -> CpuState {
        CpuState {
            regs: self.regs,
            offset: self.offset,
            addr: self.addr,
            operand: self.operand,
            cycles: self.cycles,
            branch: self.branch,
            page_crossed: self.page_crossed,
            addr_mode: self.addr_mode,
            ram: self.mmio.ram@,
            rom: self.mmio.rom@,
            table: self.opcodes@,
        }
    }
}

impl Cpu {
    /// A processor with zeroed registers and memory and every opcode bound
    /// to the default entry.
    pub fn new() -> (c: Cpu)
        ensures
            c@.wf(),
            c@.regs == (Regs { a: 0, x: 0, y: 0, s: 0, p: 0, pc: 0 }),
            c@.cycles == 0,
            !c@.branch,
            !c@.page_crossed,
            c@.offset == 0 && c@.addr == 0 && c@.operand == 0,
            forall|a: u16| #[trigger] c@.byte(a) == 0,
            forall|i: int| 0 <= i < 256 ==> #[trigger] c@.table[i] == spec_default_op(),
    {
        Cpu::with_optable(default_table())
    }

    /// A processor with zeroed registers and memory that dispatches through
    /// `table`.
    pub fn with_optable(table: Vec<Op>) -> (c: Cpu)
        requires
            table@.len() == 256,
        ensures
            c@.wf(),
            c@.regs == (Regs { a: 0, x: 0, y: 0, s: 0, p: 0, pc: 0 }),
            c@.cycles == 0,
            !c@.branch,
            !c@.page_crossed,
            c@.offset == 0 && c@.addr == 0 && c@.operand == 0,
            forall|a: u16| #[trigger] c@.byte(a) == 0,
            c@.table == table@,
    {
        let mmio = Mmio::new();
        let c = Cpu {
            regs: Regs::default(),
            offset: 0,
            addr: 0,
            operand: 0,
            cycles: 0,
            page_crossed: false,
            branch: false,
            addr_mode: AddrMode::Imm,
            mmio,
            opcodes: table,
        };
        assert forall|a: u16| #[trigger] c@.byte(a) == 0 by {
            assert(c.mmio.byte_at(a) == 0);
        }
        c
    }

    fn read_inst(&mut self) -> (b: u8)
        requires
            old(self)@.wf(),
        ensures
            b == old(self)@.arg(0),
            final(self)@ == old(self)@.with_pc(next(old(self)@.regs.pc, 1)),
    {
        let b = self.mmio.read_byte(self.regs.pc);
        self.regs.pc = self.regs.pc.wrapping_add(1);
        b
    }

    /// Consumes a little-endian 16-bit value from the instruction stream.
    fn read_word(&mut self) -> (w: u16)
        requires
            old(self)@.wf(),
        ensures
            w == old(self)@.arg(0) + 0x100 * old(self)@.arg(1),
            final(self)@ == old(self)@.with_pc(next(old(self)@.regs.pc, 2)),
    {
        let lo = self.read_inst() as u16;
        let hi = self.read_inst() as u16;
        lo + hi * 0x100
    }

    fn read_data(&self) -> (b: u8)
        requires
            self@.wf(),
        ensures
            b == self@.byte(self@.addr),
    {
        self.mmio.read_byte(self.addr)
    }
    /// `pc` moved by a signed offset, wrapping.
    fn offset_pc(pc: u16, off: i8) -> (r: u16)
        ensures
            r == next(pc, off as int),
    {
        let t: i32 = pc as i32 + off as i32;
        if t < 0 {
            (t + 0x10000) as u16
        } else if t >= 0x10000 {
            (t - 0x10000) as u16
        } else {
            t as u16
        }
    }

    fn resolve(&mut self, mode: AddrMode)
        requires
            old(self)@.wf(),
        ensures
            final(self)@ == old(self)@.resolved(mode),
            final(self)@.wf(),
    {
        proof {
            reveal(CpuState::resolved);
        }
        match mode {
            AddrMode::Acc => self.acc(),
            AddrMode::Imm => self.imm(),
            AddrMode::Abs => self.abs(),
            AddrMode::Zp => self.zp(),
            AddrMode::Zpx => self.zpx(),
            AddrMode::Zpy => self.zpy(),
            AddrMode::Absx => self.absx(),
            AddrMode::Absy => self.absy(),
            AddrMode::Imp => self.imp(),
            AddrMode::Rel => self.rel(),
            AddrMode::Indx => self.indx(),
            AddrMode::Indy => self.indy(),
            AddrMode::Ind => self.ind(),
        }
    }

    fn perform(&mut self, i: Instruction)
        requires
            old(self)@.wf(),
            CpuState::supported(i),
        ensures
            final(self)@ == old(self)@.performed(i),
            final(self)@.wf(),
    {
        proof {
            reveal(CpuState::performed);
        }
        match i {
            Instruction::Adc => self.adc(),
            Instruction::And => self.and(),
            Instruction::Asl => self.asl(),
            Instruction::Bcc => self.bcc(),
            Instruction::Bcs => self.bcs(),
            Instruction::Beq => self.beq(),
            Instruction::Bit => self.bit(),
            Instruction::Bmi => self.bmi(),
            Instruction::Bne => self.bne(),
            Instruction::Bpl => self.bpl(),
            Instruction::Brk => {},
            Instruction::Bvc => self.bvc(),
            Instruction::Bvs => self.bvs(),
            Instruction::Clc => self.clc(),
            Instruction::Cld => self.cld(),
            Instruction::Cli => self.cli(),
            Instruction::Clv => self.clv(),
            Instruction::Cmp => self.cmp(),
            Instruction::Cpx => self.cpx(),
            Instruction::Cpy => self.cpy(),
            Instruction::Dec => self.dec(),
            Instruction::Dex => self.dex(),
            Instruction::Dey => self.dey(),
            Instruction::Eor => self.eor(),
            Instruction::Inc => self.inc(),
            Instruction::Inx => self.inx(),
            Instruction::Iny => self.iny(),
            Instruction::Jmp => self.jmp(),
            Instruction::Jsr => self.jsr(),
            Instruction::Lda => self.lda(),
            Instruction::Ldx => self.ldx(),
            Instruction::Ldy => self.ldy(),
            Instruction::Lsr => self.lsr(),
            Instruction::Nop => self.nop(),
            Instruction::Ora => self.ora(),
            Instruction::Pha => self.pha(),
            Instruction::Php => self.php(),
            Instruction::Pla => self.pla(),
            Instruction::Plp => self.plp(),
            Instruction::Rol => self.rol(),
            Instruction::Ror => self.ror(),
            Instruction::Rti => {},
            Instruction::Rts => self.rts(),
            Instruction::Sbc => self.sbc(),
            Instruction::Sec => self.sec(),
            Instruction::Sed => self.sed(),
            Instruction::Sei => self.sei(),
            Instruction::Sta => self.sta(),
            Instruction::Stx => self.stx(),
            Instruction::Sty => self.sty(),
            Instruction::Tax => self.tax(),
            Instruction::Tay => self.tay(),
            Instruction::Tsx => self.tsx(),
            Instruction::Txa => self.txa(),
            Instruction::Txs => self.txs(),
            Instruction::Tya => self.tya(),
        }
    }

    fn finish(&mut self, op: Op)
        ensures
            final(self)@ == old(self)@.finished(op),
    {
        let mut extra: u64 = 0;
        if self.branch {
            extra = if self.page_crossed { 2 } else { 1 };
            self.regs.pc = Cpu::offset_pc(self.regs.pc, self.offset);
        }
        self.cycles = self.cycles.wrapping_add(extra + op.cycles as u64);
    }

    /// Dispatches `opcode` through the table: records its addressing mode,
    /// runs its resolver and its routine, then the branch and cycle logic.
    /// An opcode bound to an unimplemented instruction changes nothing.
    pub fn execute(&mut self, opcode: u8) -> (r: Result<(), CpuError>)
        requires
            old(self)@.wf(),
        ensures
            final(self)@.wf(),
            ({
                let i = old(self)@.table[opcode as int].info.instruction;
                if CpuState::supported(i) {
                    r is Ok && final(self)@ == old(self)@.executed(opcode)
                } else {
                    r == Err::<(), CpuError>(CpuError::Unimplemented(i)) && final(self)@ == old(self)@
                }
            }),
    {
        let op = self.opcodes[opcode as usize];
        let i = op.info.instruction;
        if i == Instruction::Brk || i == Instruction::Rti {
            return Err(CpuError::Unimplemented(i));
        }
        self.addr_mode = op.info.address_mode;
        self.branch = false;
        self.resolve(op.info.address_mode);
        self.perform(i);
        self.finish(op);
        proof {
            reveal(CpuState::executed);
        }
        Ok(())
    }

    /// Fetches the opcode at the program counter, advances past it and
    /// executes it. Refuses, changing nothing, when the opcode is bound to
    /// an unimplemented instruction.
    pub fn step(&mut self) -> (r: Result<(), CpuError>)
        requires
            old(self)@.wf(),
        ensures
            final(self)@.wf(),
            old(self)@.can_step() ==> r is Ok && final(self)@ == old(self)@.stepped(),
            !old(self)@.can_step() ==> r == Err::<(), CpuError>(
                CpuError::Unimplemented(old(self)@.table[old(self)@.arg(0) as int].info.instruction),
            ) && final(self)@ == old(self)@,
    {
        let opcode = self.mmio.read_byte(self.regs.pc);
        let i = self.opcodes[opcode as usize].info.instruction;
        if i == Instruction::Brk || i == Instruction::Rti {
            return Err(CpuError::Unimplemented(i));
        }
        let ghost s0 = self@;
        self.regs.pc = self.regs.pc.wrapping_add(1);
        assert(self@ == s0.with_pc(next(s0.regs.pc, 1)));
        assert(opcode == s0.arg(0));
        let r = self.execute(opcode);
        assert(s0.can_step());
        r
    }

    // Addressing modes

    pub fn imp(&mut self)
        requires
            old(self)@.wf(),
        ensures
            final(self)@ == old(self)@.implied(),
    {
        self.page_crossed = false;
    }

    pub fn acc(&mut self)
        requires
            old(self)@.wf(),
        ensures
            final(self)@ == old(self)@.implied(),
    {
        self.page_crossed = false;
    }

    pub fn imm(&mut self)
        requires
            old(self)@.wf(),
        ensures
            final(self)@ == old(self)@.immediate(),
    {
        self.operand = self.read_inst();
        self.page_crossed = false;
    }

    pub fn abs(&mut self)
        requires
            old(self)@.wf(),
        ensures
            final(self)@ == old(self)@.absolute(),
    {
        self.addr = self.read_word();
        self.operand = self.read_data();
        self.page_crossed = false;
    }

    pub fn zp(&mut self)
        requires
            old(self)@.wf(),
        ensures
            final(self)@ == old(self)@.zero_page(0),
    {
        self.addr = self.read_inst() as u16;
        self.operand = self.read_data();
        self.page_crossed = false;
    }

    pub fn zpx(&mut self)
        requires
            old(self)@.wf(),
        ensures
            final(self)@ == old(self)@.zero_page(old(self)@.regs.x),
    {
        let b = self.read_inst() as u16;
        // zero-page modes wrap within the zero page
        self.addr = (b + self.regs.x as u16) % 0x100;
        self.operand = self.read_data();
        self.page_crossed = false;
    }

    pub fn zpy(&mut self)
        requires
            old(self)@.wf(),
        ensures
            final(self)@ == old(self)@.zero_page(old(self)@.regs.y),
    {
        let b = self.read_inst() as u16;
        // zero-page modes wrap within the zero page
        self.addr = (b + self.regs.y as u16) % 0x100;
        self.operand = self.read_data();
        self.page_crossed = false;
    }

    pub fn absx(&mut self)
        requires
            old(self)@.wf(),
        ensures
            final(self)@ == old(self)@.indexed(old(self)@.regs.x),
    {
        let ghost s0 = self@;
        let base = self.read_word();
        let sum: u32 = base as u32 + self.regs.x as u32;
        self.addr = (sum % 0x10000) as u16;
        self.operand = self.read_data();
        self.page_crossed = self.addr / 0x100 != base / 0x100;
        assert(self@ == s0.indexed(s0.regs.x));
    }

    pub fn absy(&mut self)
        requires
            old(self)@.wf(),
        ensures
            final(self)@ == old(self)@.indexed(old(self)@.regs.y),
    {
        let ghost s0 = self@;
        let base = self.read_word();
        let sum: u32 = base as u32 + self.regs.y as u32;
        self.addr = (sum % 0x10000) as u16;
        self.operand = self.read_data();
        self.page_crossed = self.addr / 0x100 != base / 0x100;
        assert(self@ == s0.indexed(s0.regs.y));
    }

    pub fn indx(&mut self)
        requires
            old(self)@.wf(),
        ensures
            final(self)@ == old(self)@.indirect_x(),
    {
        let b = self.read_inst() as u16;
        let ptr: u16 = (b + self.regs.x as u16) % 0x100;
        let lo = self.mmio.read_byte(ptr) as u16;
        let hi = self.mmio.read_byte((ptr + 1) % 0x100) as u16;
        self.addr = lo + hi * 0x100;
        self.operand = self.read_data();
        self.page_crossed = false;
    }

    pub fn indy(&mut self)
        requires
            old(self)@.wf(),
        ensures
            final(self)@ == old(self)@.indirect_y(),
    {
        let ghost s0 = self@;
        let zp = self.read_inst() as u16;
        let lo: u16 = self.mmio.read_byte(zp) as u16 + self.regs.y as u16;
        self.page_crossed = lo > 0xFF;
        let hi = self.mmio.read_byte((zp + 1) % 0x100) as u16;
        let sum: u32 = lo as u32 + hi as u32 * 0x100;
        self.addr = (sum % 0x10000) as u16;
        self.operand = self.read_data();
        assert(self@ == s0.indirect_y());
    }

    pub fn ind(&mut self)
        requires
            old(self)@.wf(),
        ensures
            final(self)@ == old(self)@.indirect(),
    {
        let ghost s0 = self@;
        let ptr_lo = self.read_inst() as u16;
        let ptr_hi = self.read_inst() as u16;
        let ptr: u16 = ptr_lo + ptr_hi * 0x100;
        // the hardware never carries into the pointer's high byte: a pointer
        // at the end of a page takes its high byte from the start of that page
        let hi_at: u16 = if ptr_lo == 0xFF { ptr - 0xFF } else { ptr + 1 };
        let lo = self.mmio.read_byte(ptr) as u16;
        let hi = self.mmio.read_byte(hi_at) as u16;
        self.addr = lo + hi * 0x100;
        self.page_crossed = false;
        assert(self@ == s0.indirect());
    }

    pub fn rel(&mut self)
        requires
            old(self)@.wf(),
        ensures
            final(self)@ == old(self)@.relative(),
    {
        let ghost s0 = self@;
        let b = self.read_inst();
        let off: i8 = if b < 0x80 { b as i8 } else { (b as i16 - 0x100) as i8 };
        assert(off as int == signed(b));
        self.offset = off;
        let pc1 = self.regs.pc;
        assert(pc1 == next(s0.regs.pc, 1));
        let t: i32 = pc1 as i32 + off as i32;
        let target: u16 = if t < 0 {
            (t + 0x10000) as u16
        } else if t >= 0x10000 {
            (t - 0x10000) as u16
        } else {
            t as u16
        };
        assert(target == next(pc1, signed(b)));
        self.page_crossed = target / 0x100 != pc1 / 0x100;
        assert(b == s0.arg(0));
        assert(self@ == s0.relative());
    }


    // Flags and shared steps of the instruction routines

    pub fn set_flag(&mut self, flag: Flag, value: bool)
        ensures
            final(self)@ == old(self)@.set(flag, value),
    {
        let m = flag.mask();
        proof {
            lemma_flag_bits(self.regs.p, flag);
        }
        if value {
            self.regs.p = self.regs.p | m;
        } else {
            self.regs.p = self.regs.p & !m;
        }
    }

    pub fn get_flag(&self, flag: Flag) -> (r: bool)
        ensures
            r == self@.flag(flag),
    {
        proof {
            lemma_flag_bits(self.regs.p, flag);
        }
        self.regs.p & flag.mask() != 0
    }

    /// Refreshes Negative and Zero from the accumulator.
    pub fn update_nz_flags(&mut self)
        ensures
            final(self)@ == old(self)@.nz(old(self)@.regs.a),
    {
        let a = self.regs.a;
        self.update_nz(a);
    }

    fn update_nz(&mut self, v: u8)
        ensures
            final(self)@ == old(self)@.nz(v),
    {
        self.set_flag(Flag::N, v >= 0x80);
        self.set_flag(Flag::Z, v == 0);
    }

    fn load_a(&mut self, v: u8)
        ensures
            final(self)@ == old(self)@.load_a(v),
    {
        self.regs.a = v;
        self.update_nz(v);
    }

    fn load_x(&mut self, v: u8)
        ensures
            final(self)@ == old(self)@.load_x(v),
    {
        self.regs.x = v;
        self.update_nz(v);
    }

    fn load_y(&mut self, v: u8)
        ensures
            final(self)@ == old(self)@.load_y(v),
    {
        self.regs.y = v;
        self.update_nz(v);
    }

    fn store(&mut self, addr: u16, v: u8)
        requires
            old(self)@.wf(),
        ensures
            final(self)@ == old(self)@.store(addr, v),
            final(self)@.wf(),
    {
        self.mmio.write_byte(addr, v);
        assert(self.mmio.ram@ =~= old(self)@.store(addr, v).ram);
        assert(self.mmio.rom@ =~= old(self)@.store(addr, v).rom);
    }

    fn source(&self) -> (v: u8)
        ensures
            v == self@.source(),
    {
        if self.addr_mode == AddrMode::Acc {
            self.regs.a
        } else {
            self.operand
        }
    }

    fn put(&mut self, v: u8)
        requires
            old(self)@.wf(),
        ensures
            final(self)@ == old(self)@.put(v),
            final(self)@.wf(),
    {
        if self.addr_mode == AddrMode::Acc {
            self.load_a(v);
        } else {
            let addr = self.addr;
            self.store(addr, v);
            self.update_nz(v);
        }
    }

    fn shifted(&mut self, v: u8, c: bool)
        requires
            old(self)@.wf(),
        ensures
            final(self)@ == old(self)@.shifted(v, c),
            final(self)@.wf(),
    {
        self.put(v);
        self.set_flag(Flag::C, c);
    }

    /// Adds the cycle that a page-crossing operand read costs.
    fn charge_page_cross(&mut self)
        ensures
            final(self)@ == old(self)@.charged(),
    {
        if self.page_crossed {
            self.cycles = self.cycles.wrapping_add(1);
        }
    }

    fn add_with_carry(&mut self, m: u8, c: bool)
        ensures
            final(self)@ == old(self)@.add(m, c),
    {
        let a = self.regs.a;
        let sum: u16 = a as u16 + m as u16 + if c { 1u16 } else { 0u16 };
        let res = (sum % 0x100) as u8;
        // overflow: both inputs share a sign that the result does not
        let v = ((a < 0x80) == (m < 0x80)) && ((res < 0x80) != (a < 0x80));
        self.regs.a = res;
        self.set_flag(Flag::V, v);
        self.update_nz(res);
        self.set_flag(Flag::C, sum > 0xFF);
    }

    fn compare(&mut self, reg: u8)
        ensures
            final(self)@ == old(self)@.compare(reg),
    {
        let m = self.operand;
        self.set_flag(Flag::Z, reg == m);
        self.set_flag(Flag::C, reg >= m);
        self.set_flag(Flag::N, reg < m);
    }

    fn push(&mut self, v: u8)
        requires
            old(self)@.wf(),
        ensures
            final(self)@ == old(self)@.push(v),
            final(self)@.wf(),
    {
        let addr: u16 = 0x100 + self.regs.s as u16;
        self.store(addr, v);
        self.regs.s = ((self.regs.s as u16 + 0xFF) % 0x100) as u8;
    }

    fn pull(&mut self) -> (v: u8)
        requires
            old(self)@.wf(),
        ensures
            v == old(self)@.top(),
            final(self)@ == old(self)@.pull(),
    {
        self.regs.s = ((self.regs.s as u16 + 1) % 0x100) as u8;
        self.mmio.read_byte(0x100 + self.regs.s as u16)
    }

    // Instructions

    pub fn adc(&mut self)
        requires
            old(self)@.wf(),
        ensures
            final(self)@ == old(self)@.adc(),
            final(self)@.wf(),
    {
        let m = self.operand;
        let c = self.get_flag(Flag::C);
        self.add_with_carry(m, c);
        self.charge_page_cross();
    }

    pub fn and(&mut self)
        requires
            old(self)@.wf(),
        ensures
            final(self)@ == old(self)@.and(),
            final(self)@.wf(),
    {
        let v = self.regs.a & self.operand;
        self.load_a(v);
        self.charge_page_cross();
    }

    pub fn asl(&mut self)
        requires
            old(self)@.wf(),
        ensures
            final(self)@ == old(self)@.asl(),
            final(self)@.wf(),
    {
        let v = self.source();
        self.shifted(((v as u16 * 2) % 0x100) as u8, v >= 0x80);
    }

    pub fn bcc(&mut self)
        requires
            old(self)@.wf(),
        ensures
            final(self)@ == old(self)@.bcc(),
            final(self)@.wf(),
    {
        self.branch = !self.get_flag(Flag::C);
    }

    pub fn bcs(&mut self)
        requires
            old(self)@.wf(),
        ensures
            final(self)@ == old(self)@.bcs(),
            final(self)@.wf(),
    {
        self.branch = self.get_flag(Flag::C);
    }

    pub fn beq(&mut self)
        requires
            old(self)@.wf(),
        ensures
            final(self)@ == old(self)@.beq(),
            final(self)@.wf(),
    {
        self.branch = self.get_flag(Flag::Z);
    }

    pub fn bit(&mut self)
        requires
            old(self)@.wf(),
        ensures
            final(self)@ == old(self)@.bit(),
            final(self)@.wf(),
    {
        let m = self.operand;
        let res = self.regs.a & m;
        self.set_flag(Flag::Z, res == 0);
        self.set_flag(Flag::V, (m / 0x40) % 2 == 1);
        self.set_flag(Flag::N, m >= 0x80);
    }

    pub fn bmi(&mut self)
        requires
            old(self)@.wf(),
        ensures
            final(self)@ == old(self)@.bmi(),
            final(self)@.wf(),
    {
        self.branch = self.get_flag(Flag::N);
    }

    pub fn bne(&mut self)
        requires
            old(self)@.wf(),
        ensures
            final(self)@ == old(self)@.bne(),
            final(self)@.wf(),
    {
        self.branch = !self.get_flag(Flag::Z);
    }

    pub fn bpl(&mut self)
        requires
            old(self)@.wf(),
        ensures
            final(self)@ == old(self)@.bpl(),
            final(self)@.wf(),
    {
        self.branch = !self.get_flag(Flag::N);
    }

    /// Interrupt handling is not part of this core: the routine refuses and
    /// leaves the processor untouched.
    pub fn brk(&mut self) -> (r: Result<(), CpuError>)
        ensures
            r == Err::<(), CpuError>(CpuError::Unimplemented(Instruction::Brk)),
            final(self)@ == old(self)@,
    {
        Err(CpuError::Unimplemented(Instruction::Brk))
    }

    pub fn bvc(&mut self)
        requires
            old(self)@.wf(),
        ensures
            final(self)@ == old(self)@.bvc(),
            final(self)@.wf(),
    {
        self.branch = !self.get_flag(Flag::V);
    }

    pub fn bvs(&mut self)
        requires
            old(self)@.wf(),
        ensures
            final(self)@ == old(self)@.bvs(),
            final(self)@.wf(),
    {
        self.branch = self.get_flag(Flag::V);
    }

    pub fn clc(&mut self)
        requires
            old(self)@.wf(),
        ensures
            final(self)@ == old(self)@.clc(),
            final(self)@.wf(),
    {
        self.set_flag(Flag::C, false);
    }

    pub fn cld(&mut self)
        requires
            old(self)@.wf(),
        ensures
            final(self)@ == old(self)@.cld(),
            final(self)@.wf(),
    {
        self.set_flag(Flag::D, false);
    }

    pub fn cli(&mut self)
        requires
            old(self)@.wf(),
        ensures
            final(self)@ == old(self)@.cli(),
            final(self)@.wf(),
    {
        self.set_flag(Flag::I, false);
    }

    pub fn clv(&mut self)
        requires
            old(self)@.wf(),
        ensures
            final(self)@ == old(self)@.clv(),
            final(self)@.wf(),
    {
        self.set_flag(Flag::V, false);
    }

    pub fn cmp(&mut self)
        requires
            old(self)@.wf(),
        ensures
            final(self)@ == old(self)@.cmp(),
            final(self)@.wf(),
    {
        let r = self.regs.a;
        self.compare(r);
        self.charge_page_cross();
    }

    pub fn cpx(&mut self)
        requires
            old(self)@.wf(),
        ensures
            final(self)@ == old(self)@.cpx(),
            final(self)@.wf(),
    {
        let r = self.regs.x;
        self.compare(r);
    }

    pub fn cpy(&mut self)
        requires
            old(self)@.wf(),
        ensures
            final(self)@ == old(self)@.cpy(),
            final(self)@.wf(),
    {
        let r = self.regs.y;
        self.compare(r);
    }

    pub fn dec(&mut self)
        requires
            old(self)@.wf(),
        ensures
            final(self)@ == old(self)@.dec(),
            final(self)@.wf(),
    {
        let v = self.source();
        self.put(((v as u16 + 0xFF) % 0x100) as u8);
    }

    pub fn dex(&mut self)
        requires
            old(self)@.wf(),
        ensures
            final(self)@ == old(self)@.dex(),
            final(self)@.wf(),
    {
        let v = ((self.regs.x as u16 + 0xFF) % 0x100) as u8;
        self.load_x(v);
    }

    pub fn dey(&mut self)
        requires
            old(self)@.wf(),
        ensures
            final(self)@ == old(self)@.dey(),
            final(self)@.wf(),
    {
        let v = ((self.regs.y as u16 + 0xFF) % 0x100) as u8;
        self.load_y(v);
    }

    pub fn eor(&mut self)
        requires
            old(self)@.wf(),
        ensures
            final(self)@ == old(self)@.eor(),
            final(self)@.wf(),
    {
        let v = self.regs.a ^ self.operand;
        self.load_a(v);
        self.charge_page_cross();
    }

    pub fn inc(&mut self)
        requires
            old(self)@.wf(),
        ensures
            final(self)@ == old(self)@.inc(),
            final(self)@.wf(),
    {
        let v = self.source();
        self.put(((v as u16 + 1) % 0x100) as u8);
    }

    pub fn inx(&mut self)
        requires
            old(self)@.wf(),
        ensures
            final(self)@ == old(self)@.inx(),
            final(self)@.wf(),
    {
        let v = ((self.regs.x as u16 + 1) % 0x100) as u8;
        self.load_x(v);
    }

    pub fn iny(&mut self)
        requires
            old(self)@.wf(),
        ensures
            final(self)@ == old(self)@.iny(),
            final(self)@.wf(),
    {
        let v = ((self.regs.y as u16 + 1) % 0x100) as u8;
        self.load_y(v);
    }

    pub fn jmp(&mut self)
        requires
            old(self)@.wf(),
        ensures
            final(self)@ == old(self)@.jmp(),
            final(self)@.wf(),
    {
        self.regs.pc = self.addr;
    }

    pub fn jsr(&mut self)
        requires
            old(self)@.wf(),
        ensures
            final(self)@ == old(self)@.jsr(),
            final(self)@.wf(),
    {
        // the return address pushed is that of the last operand byte
        let ret: u16 = ((self.regs.pc as u32 + 0xFFFF) % 0x10000) as u16;
        self.push((ret / 0x100) as u8);
        self.push((ret % 0x100) as u8);
        self.regs.pc = self.addr;
    }

    pub fn lda(&mut self)
        requires
            old(self)@.wf(),
        ensures
            final(self)@ == old(self)@.lda(),
            final(self)@.wf(),
    {
        let v = self.operand;
        self.load_a(v);
        self.charge_page_cross();
    }

    pub fn ldx(&mut self)
        requires
            old(self)@.wf(),
        ensures
            final(self)@ == old(self)@.ldx(),
            final(self)@.wf(),
    {
        let v = self.operand;
        self.load_x(v);
        self.charge_page_cross();
    }

    pub fn ldy(&mut self)
        requires
            old(self)@.wf(),
        ensures
            final(self)@ == old(self)@.ldy(),
            final(self)@.wf(),
    {
        let v = self.operand;
        self.load_y(v);
        self.charge_page_cross();
    }

    pub fn lsr(&mut self)
        requires
            old(self)@.wf(),
        ensures
            final(self)@ == old(self)@.lsr(),
            final(self)@.wf(),
    {
        let v = self.source();
        self.shifted(v / 2, v % 2 == 1);
    }

    pub fn nop(&mut self)
        requires
            old(self)@.wf(),
        ensures
            final(self)@ == old(self)@.nop(),
            final(self)@.wf(),
    {
        
    }

    pub fn ora(&mut self)
        requires
            old(self)@.wf(),
        ensures
            final(self)@ == old(self)@.ora(),
            final(self)@.wf(),
    {
        let v = self.regs.a | self.operand;
        self.load_a(v);
        self.charge_page_cross();
    }

    pub fn pha(&mut self)
        requires
            old(self)@.wf(),
        ensures
            final(self)@ == old(self)@.pha(),
            final(self)@.wf(),
    {
        let v = self.regs.a;
        self.push(v);
    }

    pub fn php(&mut self)
        requires
            old(self)@.wf(),
        ensures
            final(self)@ == old(self)@.php(),
            final(self)@.wf(),
    {
        let v = self.regs.p;
        self.push(v);
    }

    pub fn pla(&mut self)
        requires
            old(self)@.wf(),
        ensures
            final(self)@ == old(self)@.pla(),
            final(self)@.wf(),
    {
        let v = self.pull();
        self.load_a(v);
    }

    pub fn plp(&mut self)
        requires
            old(self)@.wf(),
        ensures
            final(self)@ == old(self)@.plp(),
            final(self)@.wf(),
    {
        let v = self.pull();
        self.regs.p = v;
    }

    pub fn rol(&mut self)
        requires
            old(self)@.wf(),
        ensures
            final(self)@ == old(self)@.rol(),
            final(self)@.wf(),
    {
        let v = self.source();
        let c: u16 = if self.get_flag(Flag::C) { 1 } else { 0 };
        self.shifted(((v as u16 * 2 + c) % 0x100) as u8, v >= 0x80);
    }

    pub fn ror(&mut self)
        requires
            old(self)@.wf(),
        ensures
            final(self)@ == old(self)@.ror(),
            final(self)@.wf(),
    {
        let v = self.source();
        let c: u8 = if self.get_flag(Flag::C) { 0x80 } else { 0 };
        self.shifted(v / 2 + c, v % 2 == 1);
    }

    /// Interrupt handling is not part of this core: the routine refuses and
    /// leaves the processor untouched.
    pub fn rti(&mut self) -> (r: Result<(), CpuError>)
        ensures
            r == Err::<(), CpuError>(CpuError::Unimplemented(Instruction::Rti)),
            final(self)@ == old(self)@,
    {
        Err(CpuError::Unimplemented(Instruction::Rti))
    }

    pub fn rts(&mut self)
        requires
            old(self)@.wf(),
        ensures
            final(self)@ == old(self)@.rts(),
            final(self)@.wf(),
    {
        let lo = self.pull();
        let hi = self.pull();
        self.regs.pc = ((lo as u32 + 0x100 * hi as u32 + 1) % 0x10000) as u16;
    }

    pub fn sbc(&mut self)
        requires
            old(self)@.wf(),
        ensures
            final(self)@ == old(self)@.sbc(),
            final(self)@.wf(),
    {
        // one's complement of the operand through the same adder, with the
        // carry flag as carry-in (a clear carry is a borrow)
        let m = 0xFF - self.operand;
        let c = self.get_flag(Flag::C);
        self.add_with_carry(m, c);
        self.charge_page_cross();
    }

    pub fn sec(&mut self)
        requires
            old(self)@.wf(),
        ensures
            final(self)@ == old(self)@.sec(),
            final(self)@.wf(),
    {
        self.set_flag(Flag::C, true);
    }

    pub fn sed(&mut self)
        requires
            old(self)@.wf(),
        ensures
            final(self)@ == old(self)@.sed(),
            final(self)@.wf(),
    {
        self.set_flag(Flag::D, true);
    }

    pub fn sei(&mut self)
        requires
            old(self)@.wf(),
        ensures
            final(self)@ == old(self)@.sei(),
            final(self)@.wf(),
    {
        self.set_flag(Flag::I, true);
    }

    pub fn sta(&mut self)
        requires
            old(self)@.wf(),
        ensures
            final(self)@ == old(self)@.sta(),
            final(self)@.wf(),
    {
        let (addr, v) = (self.addr, self.regs.a);
        self.store(addr, v);
    }

    pub fn stx(&mut self)
        requires
            old(self)@.wf(),
        ensures
            final(self)@ == old(self)@.stx(),
            final(self)@.wf(),
    {
        let (addr, v) = (self.addr, self.regs.x);
        self.store(addr, v);
    }

    pub fn sty(&mut self)
        requires
            old(self)@.wf(),
        ensures
            final(self)@ == old(self)@.sty(),
            final(self)@.wf(),
    {
        let (addr, v) = (self.addr, self.regs.y);
        self.store(addr, v);
    }

    pub fn tax(&mut self)
        requires
            old(self)@.wf(),
        ensures
            final(self)@ == old(self)@.tax(),
            final(self)@.wf(),
    {
        let v = self.regs.a;
        self.load_x(v);
    }

    pub fn tay(&mut self)
        requires
            old(self)@.wf(),
        ensures
            final(self)@ == old(self)@.tay(),
            final(self)@.wf(),
    {
        let v = self.regs.a;
        self.load_y(v);
    }

    pub fn tsx(&mut self)
        requires
            old(self)@.wf(),
        ensures
            final(self)@ == old(self)@.tsx(),
            final(self)@.wf(),
    {
        let v = self.regs.s;
        self.load_x(v);
    }

    pub fn txa(&mut self)
        requires
            old(self)@.wf(),
        ensures
            final(self)@ == old(self)@.txa(),
            final(self)@.wf(),
    {
        let v = self.regs.x;
        self.load_a(v);
    }

    pub fn txs(&mut self)
        requires
            old(self)@.wf(),
        ensures
            final(self)@ == old(self)@.txs(),
            final(self)@.wf(),
    {
        self.regs.s = self.regs.x;
    }

    pub fn tya(&mut self)
        requires
            old(self)@.wf(),
        ensures
            final(self)@ == old(self)@.tya(),
            final(self)@.wf(),
    {
        let v = self.regs.y;
        self.load_a(v);
    }
}

} // verus!
