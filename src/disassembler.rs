use vstd::prelude::*;
use crate::cpu::{AddrMode, Op, OpInfo};

verus! {

/// Operand bytes that follow an opcode under `mode`.
pub open spec fn arg_count(mode: AddrMode) -> int {
    match mode {
        AddrMode::Imp | AddrMode::Acc => 0,
        AddrMode::Zp | AddrMode::Imm | AddrMode::Indx | AddrMode::Indy | AddrMode::Zpx
        | AddrMode::Zpy | AddrMode::Rel => 1,
        AddrMode::Ind | AddrMode::Abs | AddrMode::Absx | AddrMode::Absy => 2,
    }
}

pub fn get_arg_count(op: &Op) -> (n: u32)
    ensures
        n == arg_count(op.info.address_mode),
{
    match op.info.address_mode {
        AddrMode::Imp | AddrMode::Acc => 0,
        AddrMode::Zp | AddrMode::Imm | AddrMode::Indx | AddrMode::Indy | AddrMode::Zpx
        | AddrMode::Zpy | AddrMode::Rel => 1,
        AddrMode::Ind | AddrMode::Abs | AddrMode::Absx | AddrMode::Absy => 2,
    }
}

/// One decoded instruction: where it starts, what it is, and its operand
/// (little-endian when two bytes, zero when none).
#[derive(Debug, Clone, Copy, PartialEq, Eq, Structural)]
pub struct Record {
    pub offset: usize,
    pub info: OpInfo,
    pub arg: u16,
}

/// The listing stopped on an instruction whose operand runs past the end
/// of the buffer.
#[derive(Debug, Clone, Copy, PartialEq, Eq, Structural)]
pub enum DisasmError {
    Truncated { offset: usize },
}

/// The record of the instruction at `pc`, whose operand bytes are there.
pub open spec fn record_at(data: Seq<u8>, table: Seq<Op>, pc: int) -> Record {
    let op = table[data[pc] as int];
    let n = arg_count(op.info.address_mode);
    Record {
        offset: pc as usize,
        info: op.info,
        arg: if n == 0 {
            0
        } else if n == 1 {
            data[pc + 1] as u16
        } else {
            (data[pc + 1] + 0x100 * data[pc + 2]) as u16
        },
    }
}

/// Decodes `data` from `pc` to its end, after the records `acc`.
pub open spec fn decode_from(data: Seq<u8>, table: Seq<Op>, pc: int, acc: Seq<Record>) -> Result<
    Seq<Record>,
    DisasmError,
>
    decreases data.len() - pc,
{
    if pc >= data.len() || pc < 0 {
        Ok(acc)
    } else {
        let n = arg_count(table[data[pc] as int].info.address_mode);
        if pc + n >= data.len() {
            Err(DisasmError::Truncated { offset: pc as usize })
        } else {
            decode_from(data, table, pc + 1 + n, acc.push(record_at(data, table, pc)))
        }
    }
}

/// The listing of `data` from `offset`.
pub open spec fn decode(data: Seq<u8>, table: Seq<Op>, offset: int) -> Result<Seq<Record>, DisasmError> {
    decode_from(data, table, offset, Seq::empty())
}

pub struct Disassembler<'a> {
    pub data: Vec<u8>,
    pub optable: &'a Vec<Op>,
}

impl<'a> Disassembler<'a> {
    pub fn new(data: Vec<u8>, optable: &'a Vec<Op>) -> (d: Disassembler<'a>)
        ensures
            d.data@ == data@,
            d.optable@ == optable@,
    {
        Disassembler { data, optable }
    }

    /// Decodes the buffer from `offset` to its end, one record per
    /// instruction in increasing offset order, failing on an instruction
    /// whose operand would run past the end.
    pub fn read(&self, offset: usize) -> (r: Result<Vec<Record>, DisasmError>)
        requires
            self.optable@.len() == 256,
        ensures
            match decode(self.data@, self.optable@, offset as int) {
                Ok(recs) => (r matches Ok(v) && v@ == recs),
                Err(e) => r == Err::<Vec<Record>, DisasmError>(e),
            },
    {
        let data = &self.data;
        let mut out: Vec<Record> = Vec::new();
        let mut pc = offset;
        while pc < data.len()
            invariant
                self.optable@.len() == 256,
                data@ == self.data@,
                decode(data@, self.optable@, offset as int) == decode_from(
                    data@,
                    self.optable@,
                    pc as int,
                    out@,
                ),
            decreases data@.len() - pc,
        {
            let op = self.optable[data[pc] as usize];
            let n = get_arg_count(&op) as usize;
            if n >= data.len() - pc {
                return Err(DisasmError::Truncated { offset: pc });
            }
            let arg: u16 = if n == 0 {
                0
            } else if n == 1 {
                data[pc + 1] as u16
            } else {
                data[pc + 1] as u16 + 0x100 * data[pc + 2] as u16
            };
            out.push(Record { offset: pc, info: op.info, arg });
            pc = pc + 1 + n;
        }
        Ok(out)
    }

    /// The text listing from `offset`: one rendered line per record of `read`.
    pub fn listing(&self, offset: usize) -> (r: Result<Vec<Vec<u8>>, DisasmError>)
        requires
            self.optable@.len() == 256,
        ensures
            match decode(self.data@, self.optable@, offset as int) {
                Ok(recs) => (r matches Ok(v) && v@.len() == recs.len() && forall|i: int|
                    0 <= i < recs.len() ==> #[trigger] v@[i]@ == line_text(recs[i])),
                Err(e) => r == Err::<Vec<Vec<u8>>, DisasmError>(e),
            },
    {
        let recs = self.read(offset)?;
        let mut lines: Vec<Vec<u8>> = Vec::new();
        let mut i: usize = 0;
        while i < recs.len()
            invariant
                i <= recs@.len(),
                lines@.len() == i,
                forall|j: int| 0 <= j < i ==> #[trigger] lines@[j]@ == line_text(recs@[j]),
            decreases recs@.len() - i,
        {
            lines.push(render(&recs[i]));
            i += 1;
        }
        Ok(lines)
    }
}

// Text

pub open spec fn hex_char(d: int, upper: bool) -> u8 {
    if d < 10 {
        (0x30 + d) as u8
    } else if upper {
        (0x41 + d - 10) as u8
    } else {
        (0x61 + d - 10) as u8
    }
}

/// `v` in hexadecimal, most significant digit first, padded with zeros to
/// at least `w` digits.
pub open spec fn hex_text(v: nat, w: nat, upper: bool) -> Seq<u8>
    decreases v + w,
{
    if v < 16 && w <= 1 {
        seq![hex_char(v as int, upper)]
    } else {
        hex_text(v / 16, if w > 0 { (w - 1) as nat } else { 0 }, upper).push(hex_char((v % 16) as int, upper))
    }
}

/// `0x` followed by `v` in lower-case hexadecimal of at least `w` digits.
pub open spec fn hex_lit(v: nat, w: nat) -> Seq<u8> {
    seq![0x30u8, 0x78u8] + hex_text(v, w, false)
}

/// The operand as written under `mode`: `#0xff` immediate, `$0xff` zero
/// page, `$0x1234` absolute, `, X` / `, Y` for indexing, parentheses for
/// indirection, `A` for the accumulator.
pub open spec fn operand_text(mode: AddrMode, arg: u16) -> Seq<u8> {
    let b = hex_lit(arg as nat, 2);
    let w = hex_lit(arg as nat, 4);
    match mode {
        AddrMode::Imp => Seq::empty(),
        AddrMode::Acc => seq![0x20u8, 0x41u8],
        AddrMode::Imm => seq![0x20u8, 0x23u8] + b,
        AddrMode::Rel | AddrMode::Zp => seq![0x20u8, 0x24u8] + b,
        AddrMode::Zpx => seq![0x20u8, 0x24u8] + b + seq![0x2cu8, 0x20u8, 0x58u8],
        AddrMode::Zpy => seq![0x20u8, 0x24u8] + b + seq![0x2cu8, 0x20u8, 0x59u8],
        AddrMode::Abs => seq![0x20u8, 0x24u8] + w,
        AddrMode::Absx => seq![0x20u8, 0x24u8] + w + seq![0x2cu8, 0x20u8, 0x58u8],
        AddrMode::Absy => seq![0x20u8, 0x24u8] + w + seq![0x2cu8, 0x20u8, 0x59u8],
        AddrMode::Ind => seq![0x20u8, 0x28u8, 0x24u8] + w + seq![0x29u8],
        AddrMode::Indx => seq![0x20u8, 0x28u8, 0x24u8] + b + seq![0x2cu8, 0x20u8, 0x58u8, 0x29u8],
        AddrMode::Indy => seq![0x20u8, 0x28u8, 0x24u8] + b + seq![0x29u8, 0x2cu8, 0x20u8, 0x59u8],
    }
}

/// The upper-case mnemonic followed by the operand.
pub open spec fn op_text(info: OpInfo, arg: u16) -> Seq<u8> {
    let m = info.instruction.spec_mnemonic();
    seq![m.0, m.1, m.2] + operand_text(info.address_mode, arg)
}

/// One listing line: `0x0000: ADC #0xff`, the offset in upper-case hex.
pub open spec fn line_text(r: Record) -> Seq<u8> {
    seq![0x30u8, 0x78u8] + hex_text(r.offset as nat, 4, true) + seq![0x3au8, 0x20u8] + op_text(
        r.info,
        r.arg,
    )
}

fn hex_char_of(d: u8, upper: bool) -> (c: u8)
    requires
        d < 16,
    ensures
        c == hex_char(d as int, upper),
{
    if d < 10 {
        0x30 + d
    } else if upper {
        0x41 + d - 10
    } else {
        0x61 + d - 10
    }
}

fn push_hex(out: &mut Vec<u8>, v: usize, w: usize, upper: bool)
    ensures
        final(out)@ == old(out)@ + hex_text(v as nat, w as nat, upper),
    decreases v + w,
{
    if v < 16 && w <= 1 {
        out.push(hex_char_of(v as u8, upper));
        assert(final(out)@ =~= old(out)@ + hex_text(v as nat, w as nat, upper));
    } else {
        let nw = if w > 0 { w - 1 } else { 0 };
        push_hex(out, v / 16, nw, upper);
        out.push(hex_char_of((v % 16) as u8, upper));
        assert(out@ =~= old(out)@ + hex_text(v as nat, w as nat, upper));
    }
}

fn push_bytes(out: &mut Vec<u8>, bytes: &[u8])
    ensures
        final(out)@ == old(out)@ + bytes@,
{
    let mut i: usize = 0;
    while i < bytes.len()
        invariant
            i <= bytes@.len(),
            out@ == old(out)@ + bytes@.subrange(0, i as int),
        decreases bytes@.len() - i,
    {
        out.push(bytes[i]);
        i += 1;
        assert(out@ =~= old(out)@ + bytes@.subrange(0, i as int));
    }
    assert(bytes@.subrange(0, bytes@.len() as int) =~= bytes@);
}

fn push_hex_lit(out: &mut Vec<u8>, v: u16, w: usize)
    ensures
        final(out)@ == old(out)@ + hex_lit(v as nat, w as nat),
{
    out.push(0x30);
    out.push(0x78);
    push_hex(out, v as usize, w, false);
    assert(out@ =~= old(out)@ + hex_lit(v as nat, w as nat));
}

/// The mnemonic and operand of `op` with operand value `arg`, as text.
pub fn get_op_fmt_string(op: &Op, arg: u16) -> (v: Vec<u8>)
    ensures
        v@ == op_text(op.info, arg),
{
    let m = op.info.instruction.mnemonic();
    let mut out: Vec<u8> = Vec::new();
    out.push(m.0);
    out.push(m.1);
    out.push(m.2);
    match op.info.address_mode {
        AddrMode::Imp => {},
        AddrMode::Acc => {
            push_bytes(&mut out, &[0x20u8, 0x41u8]);
        },
        AddrMode::Imm => {
            push_bytes(&mut out, &[0x20u8, 0x23u8]);
            push_hex_lit(&mut out, arg, 2);
        },
        AddrMode::Rel | AddrMode::Zp => {
            push_bytes(&mut out, &[0x20u8, 0x24u8]);
            push_hex_lit(&mut out, arg, 2);
        },
        AddrMode::Zpx => {
            push_bytes(&mut out, &[0x20u8, 0x24u8]);
            push_hex_lit(&mut out, arg, 2);
            push_bytes(&mut out, &[0x2cu8, 0x20u8, 0x58u8]);
        },
        AddrMode::Zpy => {
            push_bytes(&mut out, &[0x20u8, 0x24u8]);
            push_hex_lit(&mut out, arg, 2);
            push_bytes(&mut out, &[0x2cu8, 0x20u8, 0x59u8]);
        },
        AddrMode::Abs => {
            push_bytes(&mut out, &[0x20u8, 0x24u8]);
            push_hex_lit(&mut out, arg, 4);
        },
        AddrMode::Absx => {
            push_bytes(&mut out, &[0x20u8, 0x24u8]);
            push_hex_lit(&mut out, arg, 4);
            push_bytes(&mut out, &[0x2cu8, 0x20u8, 0x58u8]);
        },
        AddrMode::Absy => {
            push_bytes(&mut out, &[0x20u8, 0x24u8]);
            push_hex_lit(&mut out, arg, 4);
            push_bytes(&mut out, &[0x2cu8, 0x20u8, 0x59u8]);
        },
        AddrMode::Ind => {
            push_bytes(&mut out, &[0x20u8, 0x28u8, 0x24u8]);
            push_hex_lit(&mut out, arg, 4);
            push_bytes(&mut out, &[0x29u8]);
        },
        AddrMode::Indx => {
            push_bytes(&mut out, &[0x20u8, 0x28u8, 0x24u8]);
            push_hex_lit(&mut out, arg, 2);
            push_bytes(&mut out, &[0x2cu8, 0x20u8, 0x58u8, 0x29u8]);
        },
        AddrMode::Indy => {
            push_bytes(&mut out, &[0x20u8, 0x28u8, 0x24u8]);
            push_hex_lit(&mut out, arg, 2);
            push_bytes(&mut out, &[0x29u8, 0x2cu8, 0x20u8, 0x59u8]);
        },
    }
    assert(out@ =~= op_text(op.info, arg));
    out
}

/// One listing line for `r`.
pub fn render(r: &Record) -> (v: Vec<u8>)
    ensures
        v@ == line_text(*r),
{
    let mut out: Vec<u8> = Vec::new();
    out.push(0x30);
    out.push(0x78);
    push_hex(&mut out, r.offset, 4, true);
    out.push(0x3a);
    out.push(0x20);
    let op = Op { cycles: 0, info: r.info };
    let text = get_op_fmt_string(&op, r.arg);
    push_bytes(&mut out, text.as_slice());
    assert(out@ =~= line_text(*r));
    out
}

/// Decoding is a function of the buffer, the table and the offset: running
/// it twice gives identical listings.
pub proof fn lemma_decode_idempotent(
    data: Seq<u8>,
    table: Seq<Op>,
    offset: int,
    first: Result<Seq<Record>, DisasmError>,
    second: Result<Seq<Record>, DisasmError>,
)
    requires
        first == decode(data, table, offset),
        second == decode(data, table, offset),
    ensures
        first == second,
{
}

} // verus!
