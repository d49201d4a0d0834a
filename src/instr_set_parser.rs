use vstd::prelude::*;
use vstd::string::StringSliceAdditionalSpecFns;
use crate::cpu::{
    addr_mode_of, default_table, instruction_of, spec_default_op, AddrMode, Instruction, Op,
    OpInfo,
};

verus! {

pub const NEWLINE: u8 = 0x0A;

pub const CARRIAGE_RETURN: u8 = 0x0D;

pub const COMMA: u8 = 0x2C;

pub const HASH: u8 = 0x23;

/// Why a record of the instruction-set description was rejected.
#[derive(Debug, Clone, Copy, PartialEq, Eq, Structural)]
pub enum ParseError {
    /// The record does not have exactly six comma-separated fields.
    InvalidLine,
    /// The opcode is not `0x` followed by hexadecimal digits worth at most 0xFF.
    InvalidOpcode,
    InvalidInstruction,
    InvalidAddrMode,
    /// The size or cycle count is not a decimal number worth at most 255.
    InvalidNumber,
}

// Lexical structure

/// End of the line that starts at `i`: the next newline, or the end of `t`.
pub open spec fn line_end(t: Seq<u8>, i: int) -> int
    decreases t.len() - i,
{
    if i >= t.len() || t[i] == NEWLINE {
        i
    } else {
        line_end(t, i + 1)
    }
}

/// End of the field that starts at `i`: the next comma, or the end of `l`.
pub open spec fn field_end(l: Seq<u8>, i: int) -> int
    decreases l.len() - i,
{
    if i >= l.len() || l[i] == COMMA {
        i
    } else {
        field_end(l, i + 1)
    }
}

/// A line without the carriage return of a CRLF ending.
pub open spec fn trim_cr(l: Seq<u8>) -> Seq<u8> {
    if l.len() > 0 && l.last() == CARRIAGE_RETURN {
        l.drop_last()
    } else {
        l
    }
}

/// Blank lines and lines starting with `#` hold no record.
pub open spec fn is_skipped(l: Seq<u8>) -> bool {
    l.len() == 0 || l[0] == HASH
}

// Numbers

pub open spec fn is_dec_digit(c: u8) -> bool {
    0x30 <= c <= 0x39
}

pub open spec fn is_hex_digit(c: u8) -> bool {
    is_dec_digit(c) || (0x41 <= c <= 0x46) || (0x61 <= c <= 0x66)
}

pub open spec fn hex_digit_value(c: u8) -> int {
    if is_dec_digit(c) {
        c - 0x30
    } else if 0x41 <= c <= 0x46 {
        c - 0x41 + 10
    } else {
        c - 0x61 + 10
    }
}

/// The number written by the digits `f` in base `radix`.
pub open spec fn digits_value(f: Seq<u8>, radix: int) -> int
    decreases f.len(),
{
    if f.len() == 0 {
        0
    } else {
        digits_value(f.drop_last(), radix) * radix + hex_digit_value(f.last())
    }
}

/// `c` is a digit of base `radix` (10 or 16).
pub open spec fn is_digit(c: u8, radix: int) -> bool {
    if radix == 10 {
        is_dec_digit(c)
    } else {
        is_hex_digit(c)
    }
}

/// `f` is a non-empty run of base-`radix` digits worth at most 0xFF.
pub open spec fn is_byte_digits(f: Seq<u8>, radix: int) -> bool {
    f.len() > 0 && (forall|k: int| 0 <= k < f.len() ==> is_digit(#[trigger] f[k], radix))
        && digits_value(f, radix) <= 0xFF
}

/// `f` is `0x` followed by hexadecimal digits worth at most 0xFF.
pub open spec fn is_byte_hex(f: Seq<u8>) -> bool {
    f.len() >= 2 && f[0] == 0x30 && f[1] == 0x78 && is_byte_digits(f.subrange(2, f.len() as int), 16)
}

/// The opcode a field names.
pub open spec fn opcode_of(f: Seq<u8>) -> Result<u8, ParseError> {
    if is_byte_hex(f) {
        Ok(digits_value(f.subrange(2, f.len() as int), 16) as u8)
    } else {
        Err(ParseError::InvalidOpcode)
    }
}

/// A decimal byte field.
pub open spec fn number_of(f: Seq<u8>) -> Result<u8, ParseError> {
    if is_byte_digits(f, 10) {
        Ok(digits_value(f, 10) as u8)
    } else {
        Err(ParseError::InvalidNumber)
    }
}

fn digit(c: u8, radix: u16) -> (r: Option<u16>)
    requires
        radix == 10 || radix == 16,
    ensures
        r.is_some() == is_digit(c, radix as int),
        r matches Some(v) ==> v == hex_digit_value(c) && v < radix,
{
    if 0x30 <= c && c <= 0x39 {
        Some((c - 0x30) as u16)
    } else if radix == 16 && 0x41 <= c && c <= 0x46 {
        Some((c - 0x41 + 10) as u16)
    } else if radix == 16 && 0x61 <= c && c <= 0x66 {
        Some((c - 0x61 + 10) as u16)
    } else {
        None
    }
}

/// Reads the digits of `f` from `start` to its end as a byte.
fn parse_digits(f: &Vec<u8>, start: usize, radix: u16) -> (r: Option<u8>)
    requires
        start <= f@.len(),
        radix == 10 || radix == 16,
    ensures
        r.is_some() == is_byte_digits(f@.subrange(start as int, f@.len() as int), radix as int),
        r matches Some(v) ==> v == digits_value(f@.subrange(start as int, f@.len() as int), radix as int),
{
    if start >= f.len() {
        return None;
    }
    let ghost rd = radix as int;
    let mut acc: u16 = 0;
    let mut i: usize = start;
    while i < f.len()
        invariant
            start <= i <= f@.len(),
            radix == 10 || radix == 16,
            rd == radix as int,
            forall|k: int| start <= k < i ==> is_digit(#[trigger] f@[k], rd),
            acc as int == if digits_value(f@.subrange(start as int, i as int), rd) < 256 {
                digits_value(f@.subrange(start as int, i as int), rd)
            } else {
                256
            },
        decreases f@.len() - i,
    {
        let c = f[i];
        let d = match digit(c, radix) {
            Some(d) => d,
            None => {
                proof {
                    let sub = f@.subrange(start as int, f@.len() as int);
                    assert(sub[i - start] == c);
                }
                return None;
            },
        };
        let ghost prev = digits_value(f@.subrange(start as int, i as int), rd);
        proof {
            let nxt = f@.subrange(start as int, i + 1);
            assert(nxt.drop_last() =~= f@.subrange(start as int, i as int));
            assert(nxt.last() == c);
            assert(digits_value(nxt, rd) == prev * rd + d);
            assert(prev >= 0) by {
                lemma_digits_nonneg(f@.subrange(start as int, i as int), rd);
            }
            if radix == 10 {
                assert(prev * 10 >= prev);
            } else {
                assert(prev * 16 >= prev);
            }
        }
        if acc >= 256 {
            acc = 256;
        } else {
            let v = acc * radix + d;
            acc = if v >= 256 { 256 } else { v };
        }
        i += 1;
    }
    proof {
        let sub = f@.subrange(start as int, f@.len() as int);
        assert forall|k: int| 0 <= k < sub.len() implies is_digit(#[trigger] sub[k], rd) by {
            assert(sub[k] == f@[start + k]);
        }
    }
    if acc > 255 {
        None
    } else {
        Some(acc as u8)
    }
}

proof fn lemma_digits_nonneg(f: Seq<u8>, radix: int)
    requires
        radix == 10 || radix == 16,
        forall|k: int| 0 <= k < f.len() ==> is_digit(#[trigger] f[k], radix),
    ensures
        digits_value(f, radix) >= 0,
    decreases f.len(),
{
    if f.len() > 0 {
        let g = f.drop_last();
        assert forall|k: int| 0 <= k < g.len() implies is_digit(#[trigger] g[k], radix) by {
            assert(g[k] == f[k]);
        }
        lemma_digits_nonneg(g, radix);
        assert(is_digit(f[f.len() - 1], radix));
        if radix == 10 {
            assert(digits_value(g, radix) * 10 >= 0);
        } else {
            assert(digits_value(g, radix) * 16 >= 0);
        }
    }
}

fn parse_opcode(f: &Vec<u8>) -> (r: Result<u8, ParseError>)
    ensures
        r == opcode_of(f@),
{
    if f.len() < 2 || f[0] != 0x30 || f[1] != 0x78 {
        return Err(ParseError::InvalidOpcode);
    }
    match parse_digits(f, 2, 16) {
        Some(v) => Ok(v),
        None => Err(ParseError::InvalidOpcode),
    }
}

fn parse_number(f: &Vec<u8>) -> (r: Result<u8, ParseError>)
    ensures
        r == number_of(f@),
{
    let ghost whole = f@.subrange(0, f@.len() as int);
    assert(whole =~= f@);
    match parse_digits(f, 0, 10) {
        Some(v) => Ok(v),
        None => Err(ParseError::InvalidNumber),
    }
}

// Records and tables

/// The record held by one line, fields `opcode,mnemonic,mode,size,cycles,flags`.
pub open spec fn record_of(l: Seq<u8>) -> Result<(u8, Op), ParseError> {
    let e0 = field_end(l, 0);
    let e1 = field_end(l, e0 + 1);
    let e2 = field_end(l, e1 + 1);
    let e3 = field_end(l, e2 + 1);
    let e4 = field_end(l, e3 + 1);
    let e5 = field_end(l, e4 + 1);
    if !(e4 < l.len() && e5 >= l.len()) {
        Err(ParseError::InvalidLine)
    } else {
        match opcode_of(l.subrange(0, e0)) {
            Err(e) => Err(e),
            Ok(opcode) => match instruction_of(l.subrange(e0 + 1, e1)) {
                None => Err(ParseError::InvalidInstruction),
                Some(instruction) => match addr_mode_of(l.subrange(e1 + 1, e2)) {
                    None => Err(ParseError::InvalidAddrMode),
                    Some(address_mode) => match number_of(l.subrange(e2 + 1, e3)) {
                        Err(e) => Err(e),
                        Ok(_size) => match number_of(l.subrange(e3 + 1, e4)) {
                            Err(e) => Err(e),
                            Ok(cycles) => Ok(
                                (opcode, Op { cycles, info: OpInfo { address_mode, instruction } }),
                            ),
                        },
                    },
                },
            },
        }
    }
}

/// What a raw line holds: nothing (blank or comment) or a record.
pub open spec fn line_record(l: Seq<u8>) -> Option<Result<(u8, Op), ParseError>> {
    if is_skipped(trim_cr(l)) {
        None
    } else {
        Some(record_of(trim_cr(l)))
    }
}

/// A table with a line applied: a good record overwrites its opcode's
/// entry, anything else leaves the table as it is.
pub open spec fn apply_line(tab: Seq<Op>, l: Seq<u8>) -> Seq<Op> {
    match line_record(l) {
        Some(Ok((opcode, op))) => tab.update(opcode as int, op),
        _ => tab,
    }
}

/// Like `apply_line`, but a bad record is an error.
pub open spec fn apply_line_strict(tab: Seq<Op>, l: Seq<u8>) -> Result<Seq<Op>, ParseError> {
    match line_record(l) {
        Some(Err(e)) => Err(e),
        Some(Ok((opcode, op))) => Ok(tab.update(opcode as int, op)),
        None => Ok(tab),
    }
}

/// Applies the lines of `t` from the line starting at `start`, of which
/// `i` is the next byte to look at, in order.
pub open spec fn scan(t: Seq<u8>, start: int, i: int, tab: Seq<Op>) -> Seq<Op>
    decreases t.len() - i,
{
    if i >= t.len() {
        apply_line(tab, t.subrange(start, t.len() as int))
    } else if t[i] == NEWLINE {
        scan(t, i + 1, i + 1, apply_line(tab, t.subrange(start, i)))
    } else {
        scan(t, start, i + 1, tab)
    }
}

/// Like `scan`, stopping at the first bad record.
pub open spec fn scan_strict(t: Seq<u8>, start: int, i: int, tab: Seq<Op>) -> Result<Seq<Op>, ParseError>
    decreases t.len() - i,
{
    if i >= t.len() {
        apply_line_strict(tab, t.subrange(start, t.len() as int))
    } else if t[i] == NEWLINE {
        match apply_line_strict(tab, t.subrange(start, i)) {
            Err(e) => Err(e),
            Ok(next) => scan_strict(t, i + 1, i + 1, next),
        }
    } else {
        scan_strict(t, start, i + 1, tab)
    }
}

/// A table with every opcode bound to the default entry.
pub open spec fn default_ops() -> Seq<Op> {
    Seq::new(256, |i: int| spec_default_op())
}

/// The table a description builds, skipping bad records.
pub open spec fn table_of(t: Seq<u8>) -> Seq<Op> {
    scan(t, 0, 0, default_ops())
}

/// The table a description builds, or its first bad record's error.
pub open spec fn table_of_strict(t: Seq<u8>) -> Result<Seq<Op>, ParseError> {
    scan_strict(t, 0, 0, default_ops())
}

proof fn lemma_scan_len(t: Seq<u8>, start: int, i: int, tab: Seq<Op>)
    requires
        0 <= start <= i <= t.len(),
        tab.len() == 256,
    ensures
        scan(t, start, i, tab).len() == 256,
    decreases t.len() - i,
{
    if i < t.len() {
        if t[i] == NEWLINE {
            lemma_scan_len(t, i + 1, i + 1, apply_line(tab, t.subrange(start, i)));
        } else {
            lemma_scan_len(t, start, i + 1, tab);
        }
    }
}

/// Every table built has exactly one entry per opcode.
pub proof fn lemma_table_len(t: Seq<u8>)
    ensures
        table_of(t).len() == 256,
{
    lemma_scan_len(t, 0, 0, default_ops());
}

/// The line `l` holds a good record for opcode `k`.
pub open spec fn names_opcode(l: Seq<u8>, k: int) -> bool {
    match line_record(l) {
        Some(Ok((opcode, _))) => opcode == k,
        _ => false,
    }
}

/// Some line of `t`, from the one starting at `start`, holds a good record
/// for opcode `k`.
pub open spec fn mentions(t: Seq<u8>, start: int, i: int, k: int) -> bool
    decreases t.len() - i,
{
    if i >= t.len() {
        names_opcode(t.subrange(start, t.len() as int), k)
    } else if t[i] == NEWLINE {
        names_opcode(t.subrange(start, i), k) || mentions(t, i + 1, i + 1, k)
    } else {
        mentions(t, start, i + 1, k)
    }
}

proof fn lemma_apply_keeps(tab: Seq<Op>, l: Seq<u8>, k: int)
    requires
        0 <= k < tab.len(),
        tab.len() == 256,
        !names_opcode(l, k),
    ensures
        apply_line(tab, l)[k] == tab[k],
        apply_line(tab, l).len() == 256,
{
}

proof fn lemma_scan_keeps(t: Seq<u8>, start: int, i: int, tab: Seq<Op>, k: int)
    requires
        0 <= start <= i <= t.len(),
        0 <= k < tab.len(),
        tab.len() == 256,
        !mentions(t, start, i, k),
    ensures
        scan(t, start, i, tab)[k] == tab[k],
        scan(t, start, i, tab).len() == tab.len(),
    decreases t.len() - i,
{
    if i >= t.len() {
        lemma_apply_keeps(tab, t.subrange(start, t.len() as int), k);
    } else {
        if t[i] == NEWLINE {
            lemma_apply_keeps(tab, t.subrange(start, i), k);
            lemma_scan_keeps(t, i + 1, i + 1, apply_line(tab, t.subrange(start, i)), k);
        } else {
            lemma_scan_keeps(t, start, i + 1, tab, k);
        }
    }
}

/// A built table has exactly one entry per opcode, and every opcode that no
/// good record of the description names holds the default entry.
pub proof fn lemma_table_total(t: Seq<u8>, k: int)
    requires
        0 <= k < 256,
        !mentions(t, 0, 0, k),
    ensures
        table_of(t).len() == 256,
        table_of(t)[k] == spec_default_op(),
{
    lemma_table_len(t);
    lemma_scan_keeps(t, 0, 0, default_ops(), k);
}

/// Building a table is a function of the description: two builds from the
/// same text give identical tables, in either mode.
pub proof fn lemma_build_idempotent(
    t: Seq<u8>,
    first: Seq<Op>,
    second: Seq<Op>,
    first_strict: Result<Seq<Op>, ParseError>,
    second_strict: Result<Seq<Op>, ParseError>,
)
    requires
        first == table_of(t),
        second == table_of(t),
        first_strict == table_of_strict(t),
        second_strict == table_of_strict(t),
    ensures
        first == second,
        first_strict == second_strict,
{
}

fn next_field(l: &Vec<u8>, i: usize) -> (e: usize)
    requires
        i <= l@.len(),
    ensures
        e == field_end(l@, i as int),
        i <= e <= l@.len(),
{
    let mut j = i;
    while j < l.len() && l[j] != COMMA
        invariant
            i <= j <= l@.len(),
            field_end(l@, i as int) == field_end(l@, j as int),
        decreases l@.len() - j,
    {
        j += 1;
    }
    j
}

fn copy_range(t: &[u8], lo: usize, hi: usize) -> (v: Vec<u8>)
    requires
        lo <= hi <= t@.len(),
    ensures
        v@ == t@.subrange(lo as int, hi as int),
{
    let mut v: Vec<u8> = Vec::new();
    let mut i = lo;
    while i < hi
        invariant
            lo <= i <= hi <= t@.len(),
            v@ == t@.subrange(lo as int, i as int),
        decreases hi - i,
    {
        v.push(t[i]);
        i += 1;
        assert(v@ =~= t@.subrange(lo as int, i as int));
    }
    v
}

/// Builds opcode tables from an instruction-set description file.
pub struct InstrSetParser {
    pub optable: Vec<Op>,
    pub filepath: String,
}

impl InstrSetParser {
    pub fn new(filepath: &str) -> (p: InstrSetParser)
        ensures
            p.filepath@ == filepath@,
            p.optable@ == default_ops(),
    {
        let optable = default_table();
        assert(optable@ =~= default_ops());
        InstrSetParser { optable, filepath: filepath.to_owned() }
    }

    fn parse_line(&self, l: &Vec<u8>) -> (r: Result<(u8, Op), ParseError>)
        ensures
            r == record_of(l@),
    {
        let e0 = next_field(l, 0);
        if e0 >= l.len() {
            return Err(ParseError::InvalidLine);
        }
        let e1 = next_field(l, e0 + 1);
        if e1 >= l.len() {
            return Err(ParseError::InvalidLine);
        }
        let e2 = next_field(l, e1 + 1);
        if e2 >= l.len() {
            return Err(ParseError::InvalidLine);
        }
        let e3 = next_field(l, e2 + 1);
        if e3 >= l.len() {
            return Err(ParseError::InvalidLine);
        }
        let e4 = next_field(l, e3 + 1);
        if e4 >= l.len() {
            return Err(ParseError::InvalidLine);
        }
        let e5 = next_field(l, e4 + 1);
        if e5 < l.len() {
            return Err(ParseError::InvalidLine);
        }
        let opcode = parse_opcode(&copy_range(l.as_slice(), 0, e0))?;
        let instruction = match Instruction::from_mnemonic(&copy_range(l.as_slice(), e0 + 1, e1)) {
            Some(i) => i,
            None => {
                return Err(ParseError::InvalidInstruction);
            },
        };
        let address_mode = match AddrMode::from_tag(&copy_range(l.as_slice(), e1 + 1, e2)) {
            Some(m) => m,
            None => {
                return Err(ParseError::InvalidAddrMode);
            },
        };
        let _size = parse_number(&copy_range(l.as_slice(), e2 + 1, e3))?;
        let cycles = parse_number(&copy_range(l.as_slice(), e3 + 1, e4))?;
        Ok((opcode, Op { cycles, info: OpInfo { address_mode, instruction } }))
    }

    fn record_at(&self, t: &[u8], start: usize, end: usize) -> (r: Option<Result<(u8, Op), ParseError>>)
        requires
            start <= end <= t@.len(),
        ensures
            r == line_record(t@.subrange(start as int, end as int)),
    {
        let mut hi = end;
        if hi > start && t[hi - 1] == CARRIAGE_RETURN {
            hi = hi - 1;
        }
        assert(t@.subrange(start as int, hi as int) =~= trim_cr(t@.subrange(start as int, end as int)));
        if hi == start || t[start] == HASH {
            return None;
        }
        let line = copy_range(t, start, hi);
        Some(self.parse_line(&line))
    }

    /// Applies the line `t[start..end]` to `tab`; in strict mode a bad
    /// record is returned as an error and `tab` is left as it was.
    fn apply(&self, t: &[u8], start: usize, end: usize, tab: &mut Vec<Op>, strict: bool) -> (r: Result<(), ParseError>)
        requires
            start <= end <= t@.len(),
            old(tab)@.len() == 256,
        ensures
            final(tab)@.len() == 256,
            !strict ==> r is Ok && final(tab)@ == apply_line(old(tab)@, t@.subrange(start as int, end as int)),
            strict ==> match apply_line_strict(old(tab)@, t@.subrange(start as int, end as int)) {
                Ok(next) => r is Ok && final(tab)@ == next,
                Err(e) => r == Err::<(), ParseError>(e),
            },
    {
        match self.record_at(t, start, end) {
            Some(Ok((opcode, op))) => {
                tab.set(opcode as usize, op);
                Ok(())
            },
            Some(Err(e)) => {
                if strict {
                    Err(e)
                } else {
                    Ok(())
                }
            },
            None => Ok(()),
        }
    }

    fn build(&self, t: &[u8], strict: bool) -> (r: Result<Vec<Op>, ParseError>)
        ensures
            !strict ==> (r matches Ok(v) && v@ == table_of(t@)),
            strict ==> match table_of_strict(t@) {
                Ok(tab) => (r matches Ok(v) && v@ == tab),
                Err(e) => r == Err::<Vec<Op>, ParseError>(e),
            },
    {
        let mut tab = default_table();
        assert(tab@ =~= default_ops());
        let mut start: usize = 0;
        let mut i: usize = 0;
        while i < t.len()
            invariant
                start <= i <= t@.len(),
                tab@.len() == 256,
                !strict ==> table_of(t@) == scan(t@, start as int, i as int, tab@),
                strict ==> table_of_strict(t@) == scan_strict(t@, start as int, i as int, tab@),
            decreases t@.len() - i,
        {
            if t[i] == NEWLINE {
                self.apply(t, start, i, &mut tab, strict)?;
                start = i + 1;
            }
            i += 1;
        }
        self.apply(t, start, t.len(), &mut tab, strict)?;
        Ok(tab)
    }

    /// Builds the table described by `text`, one record per line; blank
    /// lines and `#` comments are skipped, and so is every bad record
    /// (the default loader's mode). Later records for an opcode win.
    pub fn parse_text(&self, text: &str) -> (r: Vec<Op>)
        ensures
            r@ == table_of(text.spec_bytes()),
            r@.len() == 256,
    {
        let r = self.build(text.as_bytes(), false);
        match r {
            Ok(v) => {
                proof {
                    lemma_table_len(text.spec_bytes());
                }
                v
            },
            // the permissive build never fails
            Err(_) => default_table(),
        }
    }

    /// Builds the table described by `text`, failing on the first bad record.
    pub fn parse_text_strict(&self, text: &str) -> (r: Result<Vec<Op>, ParseError>)
        ensures
            match table_of_strict(text.spec_bytes()) {
                Ok(tab) => (r matches Ok(v) && v@ == tab),
                Err(e) => r == Err::<Vec<Op>, ParseError>(e),
            },
    {
        self.build(text.as_bytes(), true)
    }

}

} // verus!
