use crate::cpu_state::Reg;
use crate::cursor::ByteCursor;
use crate::operand::{
    base_table, decode_register_field, decode_rm_field_at_mod_00,
    decode_rm_field_at_mod_10_and_mod_01, decode_rm_field_at_mod_11, register_table, AddressBase,
    Immediate, MemoryOperand, Operand, Width,
};
use vstd::prelude::*;

verus! {

/// Why decoding stopped.
#[derive(Debug, Clone, Copy, PartialEq, Eq, Structural)]
pub enum DecodeError {
    /// The input ended inside the instruction that begins at `offset`.
    TruncatedInput { offset: usize },
    /// The instruction that begins at `offset` holds a field value with no
    /// meaning for its form.
    MalformedInstruction { offset: usize },
}

/// The supported instruction mnemonics.
#[derive(Debug, Clone, Copy, PartialEq, Eq, Structural)]
pub enum Mnemonic {
    Mov,
    Add,
    Sub,
    Cmp,
    Je,
    Jl,
    Jle,
    Jb,
    Jbe,
}

/// A decoded instruction: its mnemonic, its first operand, its second
/// operand if it has one, and where its bytes lie in the input.
#[derive(Debug, Clone, Copy, PartialEq, Eq, Structural)]
pub struct Instruction {
    pub mnemonic: Mnemonic,
    pub first: Operand,
    pub second: Option<Operand>,
    pub offset: usize,
    pub length: usize,
}

/// What one step of decoding yields: an instruction, or a leading byte that
/// no form matches, which is skipped.
#[derive(Debug, Clone, Copy, PartialEq, Eq, Structural)]
pub enum Step {
    Instruction(Instruction),
    Unrecognized { offset: usize, byte: u8 },
}

/// How many bytes a step consumes.
pub open spec fn step_len(s: Step) -> int {
    match s {
        Step::Instruction(i) => i.length as int,
        Step::Unrecognized { .. } => 1,
    }
}

/// The unsigned value of two little-endian bytes.
pub open spec fn word_unsigned(lo: u8, hi: u8) -> u16 {
    (lo + 256 * hi) as u16
}

/// The two's-complement value of two little-endian bytes.
pub open spec fn word_signed(lo: u8, hi: u8) -> i16 {
    let u = lo + 256 * hi;
    if u >= 0x8000 {
        (u - 0x10000) as i16
    } else {
        u as i16
    }
}

/// The two's-complement value of a byte.
pub open spec fn byte_signed(b: u8) -> i8 {
    if b >= 0x80 {
        (b - 0x100) as i8
    } else {
        b as i8
    }
}

/// The mod field of a ModRM byte (bits 7-6).
pub open spec fn mod_field(m: u8) -> u8 {
    (m / 64) as u8
}

/// The reg field of a ModRM byte (bits 5-3).
pub open spec fn reg_field(m: u8) -> u8 {
    ((m / 8) % 8) as u8
}

/// The r/m field of a ModRM byte (bits 2-0).
pub open spec fn rm_field(m: u8) -> u8 {
    (m % 8) as u8
}

/// The W bit of an opcode byte (bit 0).
pub open spec fn w_bit(op: u8) -> bool {
    op % 2 == 1
}

/// The D bit, or the S bit, of an opcode byte (bit 1).
pub open spec fn d_bit(op: u8) -> bool {
    (op / 2) % 2 == 1
}

/// A memory operand with no size hint.
pub open spec fn memory(base: AddressBase, displacement: Option<i16>) -> Operand {
    Operand::Memory(MemoryOperand { base, displacement, size_hint: None })
}

/// The operand with a size hint of width `w` when it is a memory operand.
pub open spec fn with_size_hint(op: Operand, w: Width) -> Operand {
    match op {
        Operand::Memory(m) => Operand::Memory(MemoryOperand { size_hint: Some(w), ..m }),
        _ => op,
    }
}

/// The width that a W bit selects.
pub open spec fn width_of(wide: bool) -> Width {
    if wide {
        Width::Word
    } else {
        Width::Byte
    }
}

/// The r/m operand of ModRM byte `m` whose displacement bytes, if any, begin
/// at `q`, with the offset after them; `None` when the input ends first.
pub open spec fn rm_operand(b: Seq<u8>, q: int, m: u8, wide: bool) -> Option<(Operand, int)> {
    let rm = rm_field(m);
    if mod_field(m) == 3 {
        Some((Operand::Register(register_table(rm, wide)), q))
    } else if mod_field(m) == 0 && rm == 6 {
        if q + 2 <= b.len() {
            Some((memory(AddressBase::Direct, Some(word_signed(b[q], b[q + 1]))), q + 2))
        } else {
            None
        }
    } else if mod_field(m) == 0 {
        Some((memory(base_table(rm), None), q))
    } else if mod_field(m) == 1 {
        if q + 1 <= b.len() {
            Some((memory(base_table(rm), Some(byte_signed(b[q]) as i16)), q + 1))
        } else {
            None
        }
    } else {
        if q + 2 <= b.len() {
            Some((memory(base_table(rm), Some(word_signed(b[q], b[q + 1]))), q + 2))
        } else {
            None
        }
    }
}

/// The immediate whose bytes begin at `q`: one byte, or two little-endian
/// bytes when `wide`, read as two's complement when `signed`; with the offset
/// after it, or `None` when the input ends first.
pub open spec fn immediate_at(b: Seq<u8>, q: int, wide: bool, signed: bool) -> Option<
    (Immediate, int),
> {
    if wide {
        if q + 2 <= b.len() {
            let v = if signed {
                word_signed(b[q], b[q + 1]) as i32
            } else {
                word_unsigned(b[q], b[q + 1]) as i32
            };
            Some((Immediate { value: v, width: Width::Word }, q + 2))
        } else {
            None
        }
    } else {
        if q + 1 <= b.len() {
            let v = if signed {
                byte_signed(b[q]) as i32
            } else {
                b[q] as i32
            };
            Some((Immediate { value: v, width: Width::Byte }, q + 1))
        } else {
            None
        }
    }
}

/// The error for an instruction at `p` that the input ends inside.
pub open spec fn truncated(p: int) -> Result<Step, DecodeError> {
    Err(DecodeError::TruncatedInput { offset: p as usize })
}

/// The error for a malformed instruction at `p`.
pub open spec fn malformed(p: int) -> Result<Step, DecodeError> {
    Err(DecodeError::MalformedInstruction { offset: p as usize })
}

/// The instruction that spans offsets `p` up to `end`.
pub open spec fn decoded(
    mnemonic: Mnemonic,
    first: Operand,
    second: Option<Operand>,
    p: int,
    end: int,
) -> Result<Step, DecodeError> {
    Ok(
        Step::Instruction(
            Instruction { mnemonic, first, second, offset: p as usize, length: (end - p) as usize },
        ),
    )
}

/// The mnemonic of a two-operand register/memory form, by bits 7-2.
pub open spec fn reg_rm_mnemonic(top6: u8) -> Option<Mnemonic> {
    if top6 == 0b100010 {
        Some(Mnemonic::Mov)
    } else if top6 == 0b000000 {
        Some(Mnemonic::Add)
    } else if top6 == 0b001010 {
        Some(Mnemonic::Sub)
    } else if top6 == 0b001110 {
        Some(Mnemonic::Cmp)
    } else {
        None
    }
}

/// The mnemonic of an immediate-to-accumulator form, by bits 7-1.
pub open spec fn accumulator_mnemonic(top7: u8) -> Option<Mnemonic> {
    if top7 == 0b0000010 {
        Some(Mnemonic::Add)
    } else if top7 == 0b0010110 {
        Some(Mnemonic::Sub)
    } else if top7 == 0b0011110 {
        Some(Mnemonic::Cmp)
    } else {
        None
    }
}

/// The mnemonic that the reg field selects in the immediate-to-register/memory
/// arithmetic form.
pub open spec fn arithmetic_mnemonic(code: u8) -> Option<Mnemonic> {
    if code == 0 {
        Some(Mnemonic::Add)
    } else if code == 5 {
        Some(Mnemonic::Sub)
    } else if code == 7 {
        Some(Mnemonic::Cmp)
    } else {
        None
    }
}

/// The conditional jump that an opcode byte is, if any.
pub open spec fn jump_mnemonic(op: u8) -> Option<Mnemonic> {
    if op == 0x74 {
        Some(Mnemonic::Je)
    } else if op == 0x7C {
        Some(Mnemonic::Jl)
    } else if op == 0x7E {
        Some(Mnemonic::Jle)
    } else if op == 0x72 {
        Some(Mnemonic::Jb)
    } else if op == 0x76 {
        Some(Mnemonic::Jbe)
    } else {
        None
    }
}

/// Immediate to register (`1011 w reg`): a byte immediate is unsigned, a
/// word immediate signed.
pub open spec fn decode_mov_immediate_to_register(b: Seq<u8>, p: int) -> Result<Step, DecodeError> {
    let op = b[p];
    let wide = (op / 8) % 2 == 1;
    let reg = Operand::Register(register_table((op % 8) as u8, wide));
    match immediate_at(b, p + 1, wide, wide) {
        Some((imm, end)) => decoded(Mnemonic::Mov, reg, Some(Operand::Immediate(imm)), p, end),
        None => truncated(p),
    }
}

/// A register/memory form with a register (`xxxxxx d w`, ModRM): D set
/// makes the REG operand the first one.
pub open spec fn decode_reg_rm(b: Seq<u8>, p: int, mnemonic: Mnemonic) -> Result<Step, DecodeError> {
    let op = b[p];
    let wide = w_bit(op);
    if p + 2 > b.len() {
        truncated(p)
    } else {
        let m = b[p + 1];
        let reg = Operand::Register(register_table(reg_field(m), wide));
        match rm_operand(b, p + 2, m, wide) {
            Some((rm, end)) => if d_bit(op) {
                decoded(mnemonic, reg, Some(rm), p, end)
            } else {
                decoded(mnemonic, rm, Some(reg), p, end)
            },
            None => truncated(p),
        }
    }
}

/// Immediate to register/memory arithmetic (`100000 s w`, ModRM, then the
/// immediate): the reg field picks add, sub or cmp, and S reads the
/// immediate signed.
pub open spec fn decode_arithmetic_immediate(b: Seq<u8>, p: int) -> Result<Step, DecodeError> {
    let op = b[p];
    let wide = w_bit(op);
    if p + 2 > b.len() {
        truncated(p)
    } else {
        let m = b[p + 1];
        match arithmetic_mnemonic(reg_field(m)) {
            None => malformed(p),
            Some(mnemonic) => match rm_operand(b, p + 2, m, wide) {
                None => truncated(p),
                Some((rm, q)) => match immediate_at(b, q, wide, d_bit(op)) {
                    None => truncated(p),
                    Some((imm, end)) => decoded(
                        mnemonic,
                        with_size_hint(rm, width_of(wide)),
                        Some(Operand::Immediate(imm)),
                        p,
                        end,
                    ),
                },
            },
        }
    }
}

/// Immediate to accumulator (`xxxxxxx w`, then the immediate): a byte
/// immediate is unsigned, a word immediate signed.
pub open spec fn decode_accumulator_immediate(b: Seq<u8>, p: int, mnemonic: Mnemonic) -> Result<
    Step,
    DecodeError,
> {
    let wide = w_bit(b[p]);
    let acc = Operand::Register(if wide {
        Reg::Ax
    } else {
        Reg::Al
    });
    match immediate_at(b, p + 1, wide, wide) {
        Some((imm, end)) => decoded(mnemonic, acc, Some(Operand::Immediate(imm)), p, end),
        None => truncated(p),
    }
}

/// Immediate to register/memory move (`1100011 w`, ModRM with reg 000,
/// then the immediate): a byte immediate is unsigned, a word immediate
/// signed.
pub open spec fn decode_mov_immediate_to_rm(b: Seq<u8>, p: int) -> Result<Step, DecodeError> {
    let wide = w_bit(b[p]);
    if p + 2 > b.len() {
        truncated(p)
    } else {
        let m = b[p + 1];
        if reg_field(m) != 0 {
            malformed(p)
        } else {
            match rm_operand(b, p + 2, m, wide) {
                None => truncated(p),
                Some((rm, q)) => match immediate_at(b, q, wide, wide) {
                    None => truncated(p),
                    Some((imm, end)) => decoded(
                        Mnemonic::Mov,
                        with_size_hint(rm, width_of(wide)),
                        Some(Operand::Immediate(imm)),
                        p,
                        end,
                    ),
                },
            }
        }
    }
}

/// Memory to accumulator (`1010000 w`) or accumulator to memory
/// (`1010001 w`), with a two-byte direct address.
pub open spec fn decode_accumulator_memory(b: Seq<u8>, p: int, to_memory: bool) -> Result<
    Step,
    DecodeError,
> {
    let acc = Operand::Register(if w_bit(b[p]) {
        Reg::Ax
    } else {
        Reg::Al
    });
    if p + 3 > b.len() {
        truncated(p)
    } else {
        let mem = memory(AddressBase::Direct, Some(word_signed(b[p + 1], b[p + 2])));
        if to_memory {
            decoded(Mnemonic::Mov, mem, Some(acc), p, p + 3)
        } else {
            decoded(Mnemonic::Mov, acc, Some(mem), p, p + 3)
        }
    }
}

/// A conditional jump: the opcode, then a signed displacement byte, kept as
/// it stands.
pub open spec fn decode_jump(b: Seq<u8>, p: int, mnemonic: Mnemonic) -> Result<Step, DecodeError> {
    if p + 2 > b.len() {
        truncated(p)
    } else {
        let disp = Immediate { value: byte_signed(b[p + 1]) as i32, width: Width::Byte };
        decoded(mnemonic, Operand::Immediate(disp), None, p, p + 2)
    }
}

/// The step that decoding makes at offset `p`. The opcode byte is matched
/// on its top 4 bits, then 6, then 7, then all 8; the first match decides.
pub open spec fn decode_at(b: Seq<u8>, p: int) -> Result<Step, DecodeError>
    recommends
        0 <= p < b.len(),
{
    let op = b[p];
    if op / 16 == 0b1011 {
        decode_mov_immediate_to_register(b, p)
    } else if reg_rm_mnemonic(op / 4) is Some {
        decode_reg_rm(b, p, reg_rm_mnemonic(op / 4)->0)
    } else if op / 4 == 0b100000 {
        decode_arithmetic_immediate(b, p)
    } else if accumulator_mnemonic(op / 2) is Some {
        decode_accumulator_immediate(b, p, accumulator_mnemonic(op / 2)->0)
    } else if op / 2 == 0b1100011 {
        decode_mov_immediate_to_rm(b, p)
    } else if op / 2 == 0b1010000 {
        decode_accumulator_memory(b, p, false)
    } else if op / 2 == 0b1010001 {
        decode_accumulator_memory(b, p, true)
    } else if jump_mnemonic(op) is Some {
        decode_jump(b, p, jump_mnemonic(op)->0)
    } else {
        Ok(Step::Unrecognized { offset: p as usize, byte: op })
    }
}


/// Lemma: shifts and masks on a byte are the field arithmetic of the spec.
proof fn lemma_fields(b: u8)
    by (bit_vector)
    ensures
        b >> 4 == b / 16,
        b >> 2 == b / 4,
        b >> 1 == b / 2,
        b & 1 == b % 2,
        (b >> 1) & 1 == (b / 2) % 2,
        (b >> 3) & 1 == (b / 8) % 2,
        b & 7 == b % 8,
        (b >> 3) & 7 == (b / 8) % 8,
        (b >> 6) & 3 == b / 64,
{
}

/// Lemma: a little-endian word is the low byte or-ed with the high byte
/// shifted left by eight, and its casts are the spec's readings.
proof fn lemma_word(lo: u8, hi: u8)
    ensures
        (lo as u16 | ((hi as u16) << 8)) == word_unsigned(lo, hi),
        (lo as u16 | ((hi as u16) << 8)) as i16 == word_signed(lo, hi),
        lo as i8 == byte_signed(lo),
{
    assert((lo as u16 | ((hi as u16) << 8)) == (lo + 256 * hi) as u16) by (bit_vector);
    assert(lo + 256 * hi >= 0x8000 ==> (lo as u16 | ((hi as u16) << 8)) as i16 == (lo + 256 * hi
        - 0x10000) as i16) by (bit_vector);
    assert(lo + 256 * hi < 0x8000 ==> (lo as u16 | ((hi as u16) << 8)) as i16 == (lo + 256
        * hi) as i16) by (bit_vector);
    assert(lo >= 0x80 ==> lo as i8 == (lo - 0x100) as i8) by (bit_vector);
    assert(lo < 0x80 ==> lo as i8 == lo as i8) by (bit_vector);
}

/// The unsigned value of two little-endian bytes.
fn word_from_bytes(lo: u8, hi: u8) -> (r: u16)
    ensures
        r == word_unsigned(lo, hi),
        r as i16 == word_signed(lo, hi),
{
    proof {
        lemma_word(lo, hi);
    }
    (lo as u16) | ((hi as u16) << 8)
}

/// The cursor moved on within the same bytes and the same instruction.
pub open spec fn advanced(before: ByteCursor, after: ByteCursor) -> bool {
    &&& after.wf()
    &&& after.data() == before.data()
    &&& after.instruction_start() == before.instruction_start()
}

/// Reads the r/m operand of ModRM byte `m`, with its displacement bytes.
fn read_rm_operand(cur: &mut ByteCursor, m: u8, wide: bool) -> (r: Result<Operand, DecodeError>)
    requires
        old(cur).wf(),
    ensures
        advanced(*old(cur), *final(cur)),
        match rm_operand(old(cur).data(), old(cur).position(), m, wide) {
            Some((op, end)) => r == Ok::<Operand, DecodeError>(op) && final(cur).position() == end,
            None => r == Err::<Operand, DecodeError>(
                DecodeError::TruncatedInput { offset: old(cur).instruction_start() as usize },
            ),
        },
{
    proof {
        lemma_fields(m);
    }
    let md = (m >> 6) & 0b11;
    let rm = m & 0b111;
    if md == 0b11 {
        Ok(Operand::Register(decode_rm_field_at_mod_11(rm, wide)))
    } else if md == 0b00 {
        let base = decode_rm_field_at_mod_00(rm);
        if rm == 0b110 {
            let lo = cur.next()?;
            let hi = cur.next()?;
            let address = word_from_bytes(lo, hi) as i16;
            Ok(Operand::Memory(MemoryOperand { base, displacement: Some(address), size_hint: None }))
        } else {
            Ok(Operand::Memory(MemoryOperand { base, displacement: None, size_hint: None }))
        }
    } else if md == 0b01 {
        let base = decode_rm_field_at_mod_10_and_mod_01(rm);
        let d = cur.next()?;
        proof {
            lemma_word(d, 0);
        }
        let disp = (d as i8) as i16;
        Ok(Operand::Memory(MemoryOperand { base, displacement: Some(disp), size_hint: None }))
    } else {
        let base = decode_rm_field_at_mod_10_and_mod_01(rm);
        let lo = cur.next()?;
        let hi = cur.next()?;
        let disp = word_from_bytes(lo, hi) as i16;
        Ok(Operand::Memory(MemoryOperand { base, displacement: Some(disp), size_hint: None }))
    }
}

/// Reads an immediate: one byte, or two little-endian bytes when `wide`,
/// read as two's complement when `signed`.
fn read_immediate(cur: &mut ByteCursor, wide: bool, signed: bool) -> (r: Result<
    Immediate,
    DecodeError,
>)
    requires
        old(cur).wf(),
    ensures
        advanced(*old(cur), *final(cur)),
        match immediate_at(old(cur).data(), old(cur).position(), wide, signed) {
            Some((imm, end)) => r == Ok::<Immediate, DecodeError>(imm) && final(cur).position()
                == end,
            None => r == Err::<Immediate, DecodeError>(
                DecodeError::TruncatedInput { offset: old(cur).instruction_start() as usize },
            ),
        },
{
    if wide {
        let lo = cur.next()?;
        let hi = cur.next()?;
        let w = word_from_bytes(lo, hi);
        let value = if signed {
            (w as i16) as i32
        } else {
            w as i32
        };
        Ok(Immediate { value, width: Width::Word })
    } else {
        let b = cur.next()?;
        proof {
            lemma_word(b, 0);
        }
        let value = if signed {
            (b as i8) as i32
        } else {
            b as i32
        };
        Ok(Immediate { value, width: Width::Byte })
    }
}


/// The cursor has just consumed opcode byte `op` of a new instruction.
pub open spec fn after_opcode(cur: ByteCursor, op: u8) -> bool {
    &&& cur.wf()
    &&& cur.position() == cur.instruction_start() + 1
    &&& cur.data()[cur.instruction_start()] == op
}

/// The outcome of reading one instruction form, against its spec `expected`.
pub open spec fn read_as(
    before: ByteCursor,
    after: ByteCursor,
    r: Result<Step, DecodeError>,
    expected: Result<Step, DecodeError>,
) -> bool {
    &&& advanced(before, after)
    &&& r == expected
    &&& r matches Ok(s) ==> after.position() == before.instruction_start() + step_len(s)
}

/// The instruction from where the current one began up to the cursor.
fn finish(cur: &ByteCursor, mnemonic: Mnemonic, first: Operand, second: Option<Operand>) -> (r:
    Step)
    requires
        cur.wf(),
    ensures
        r == Step::Instruction(
            Instruction {
                mnemonic,
                first,
                second,
                offset: cur.instruction_start() as usize,
                length: (cur.position() - cur.instruction_start()) as usize,
            },
        ),
{
    let offset = cur.instruction_offset();
    Step::Instruction(
        Instruction { mnemonic, first, second, offset, length: cur.offset() - offset },
    )
}

fn read_mov_immediate_to_register(cur: &mut ByteCursor, op: u8) -> (r: Result<Step, DecodeError>)
    requires
        after_opcode(*old(cur), op),
    ensures
        read_as(
            *old(cur),
            *final(cur),
            r,
            decode_mov_immediate_to_register(old(cur).data(), old(cur).instruction_start()),
        ),
{
    proof {
        lemma_fields(op);
    }
    let wide = (op >> 3) & 1 == 1;
    let reg = decode_register_field(op & 0b111, wide);
    let imm = read_immediate(cur, wide, wide)?;
    Ok(finish(cur, Mnemonic::Mov, Operand::Register(reg), Some(Operand::Immediate(imm))))
}

fn read_reg_rm(cur: &mut ByteCursor, op: u8, mnemonic: Mnemonic) -> (r: Result<Step, DecodeError>)
    requires
        after_opcode(*old(cur), op),
    ensures
        read_as(
            *old(cur),
            *final(cur),
            r,
            decode_reg_rm(old(cur).data(), old(cur).instruction_start(), mnemonic),
        ),
{
    proof {
        lemma_fields(op);
    }
    let reg_is_dest = (op >> 1) & 1 == 1;
    let wide = op & 1 == 1;
    let m = cur.next()?;
    proof {
        lemma_fields(m);
    }
    let reg = Operand::Register(decode_register_field((m >> 3) & 0b111, wide));
    let rm = read_rm_operand(cur, m, wide)?;
    if reg_is_dest {
        Ok(finish(cur, mnemonic, reg, Some(rm)))
    } else {
        Ok(finish(cur, mnemonic, rm, Some(reg)))
    }
}

/// The mnemonic that the reg field selects in the immediate arithmetic form.
fn arithmetic_kind(code: u8) -> (r: Option<Mnemonic>)
    ensures
        r == arithmetic_mnemonic(code),
{
    match code {
        0b000 => Some(Mnemonic::Add),
        0b101 => Some(Mnemonic::Sub),
        0b111 => Some(Mnemonic::Cmp),
        _ => None,
    }
}

/// A memory operand with the size hint of width `w`; other operands as they are.
fn hinted(op: Operand, w: Width) -> (r: Operand)
    ensures
        r == with_size_hint(op, w),
{
    match op {
        Operand::Memory(m) => Operand::Memory(MemoryOperand { size_hint: Some(w), ..m }),
        _ => op,
    }
}

fn read_arithmetic_immediate(cur: &mut ByteCursor, op: u8) -> (r: Result<Step, DecodeError>)
    requires
        after_opcode(*old(cur), op),
    ensures
        read_as(
            *old(cur),
            *final(cur),
            r,
            decode_arithmetic_immediate(old(cur).data(), old(cur).instruction_start()),
        ),
{
    proof {
        lemma_fields(op);
    }
    let signed = (op >> 1) & 1 == 1;
    let wide = op & 1 == 1;
    let m = cur.next()?;
    proof {
        lemma_fields(m);
    }
    let mnemonic = match arithmetic_kind((m >> 3) & 0b111) {
        Some(x) => x,
        None => {
            return Err(DecodeError::MalformedInstruction { offset: cur.instruction_offset() });
        },
    };
    let rm = read_rm_operand(cur, m, wide)?;
    let imm = read_immediate(cur, wide, signed)?;
    let width = if wide {
        Width::Word
    } else {
        Width::Byte
    };
    Ok(finish(cur, mnemonic, hinted(rm, width), Some(Operand::Immediate(imm))))
}

fn read_accumulator_immediate(cur: &mut ByteCursor, op: u8, mnemonic: Mnemonic) -> (r: Result<
    Step,
    DecodeError,
>)
    requires
        after_opcode(*old(cur), op),
    ensures
        read_as(
            *old(cur),
            *final(cur),
            r,
            decode_accumulator_immediate(old(cur).data(), old(cur).instruction_start(), mnemonic),
        ),
{
    proof {
        lemma_fields(op);
    }
    let wide = op & 1 == 1;
    let acc = if wide {
        Reg::Ax
    } else {
        Reg::Al
    };
    let imm = read_immediate(cur, wide, wide)?;
    Ok(finish(cur, mnemonic, Operand::Register(acc), Some(Operand::Immediate(imm))))
}

fn read_mov_immediate_to_rm(cur: &mut ByteCursor, op: u8) -> (r: Result<Step, DecodeError>)
    requires
        after_opcode(*old(cur), op),
    ensures
        read_as(
            *old(cur),
            *final(cur),
            r,
            decode_mov_immediate_to_rm(old(cur).data(), old(cur).instruction_start()),
        ),
{
    proof {
        lemma_fields(op);
    }
    let wide = op & 1 == 1;
    let m = cur.next()?;
    proof {
        lemma_fields(m);
    }
    if (m >> 3) & 0b111 != 0 {
        return Err(DecodeError::MalformedInstruction { offset: cur.instruction_offset() });
    }
    let rm = read_rm_operand(cur, m, wide)?;
    let imm = read_immediate(cur, wide, wide)?;
    let width = if wide {
        Width::Word
    } else {
        Width::Byte
    };
    Ok(finish(cur, Mnemonic::Mov, hinted(rm, width), Some(Operand::Immediate(imm))))
}

fn read_accumulator_memory(cur: &mut ByteCursor, op: u8, to_memory: bool) -> (r: Result<
    Step,
    DecodeError,
>)
    requires
        after_opcode(*old(cur), op),
    ensures
        read_as(
            *old(cur),
            *final(cur),
            r,
            decode_accumulator_memory(old(cur).data(), old(cur).instruction_start(), to_memory),
        ),
{
    proof {
        lemma_fields(op);
    }
    let acc = Operand::Register(
        if op & 1 == 1 {
            Reg::Ax
        } else {
            Reg::Al
        },
    );
    let lo = cur.next()?;
    let hi = cur.next()?;
    let address = word_from_bytes(lo, hi) as i16;
    let mem = Operand::Memory(
        MemoryOperand { base: AddressBase::Direct, displacement: Some(address), size_hint: None },
    );
    if to_memory {
        Ok(finish(cur, Mnemonic::Mov, mem, Some(acc)))
    } else {
        Ok(finish(cur, Mnemonic::Mov, acc, Some(mem)))
    }
}

fn read_jump(cur: &mut ByteCursor, op: u8, mnemonic: Mnemonic) -> (r: Result<Step, DecodeError>)
    requires
        after_opcode(*old(cur), op),
    ensures
        read_as(
            *old(cur),
            *final(cur),
            r,
            decode_jump(old(cur).data(), old(cur).instruction_start(), mnemonic),
        ),
{
    let d = cur.next()?;
    proof {
        lemma_word(d, 0);
    }
    let disp = Immediate { value: (d as i8) as i32, width: Width::Byte };
    Ok(finish(cur, mnemonic, Operand::Immediate(disp), None))
}

/// The mnemonic of a two-operand register/memory form, by bits 7-2.
fn reg_rm_kind(top6: u8) -> (r: Option<Mnemonic>)
    ensures
        r == reg_rm_mnemonic(top6),
{
    match top6 {
        0b100010 => Some(Mnemonic::Mov),
        0b000000 => Some(Mnemonic::Add),
        0b001010 => Some(Mnemonic::Sub),
        0b001110 => Some(Mnemonic::Cmp),
        _ => None,
    }
}

/// The mnemonic of an immediate-to-accumulator form, by bits 7-1.
fn accumulator_kind(top7: u8) -> (r: Option<Mnemonic>)
    ensures
        r == accumulator_mnemonic(top7),
{
    match top7 {
        0b0000010 => Some(Mnemonic::Add),
        0b0010110 => Some(Mnemonic::Sub),
        0b0011110 => Some(Mnemonic::Cmp),
        _ => None,
    }
}

/// The conditional jump that an opcode byte is, if any.
fn jump_kind(op: u8) -> (r: Option<Mnemonic>)
    ensures
        r == jump_mnemonic(op),
{
    match op {
        0x74 => Some(Mnemonic::Je),
        0x7C => Some(Mnemonic::Jl),
        0x7E => Some(Mnemonic::Jle),
        0x72 => Some(Mnemonic::Jb),
        0x76 => Some(Mnemonic::Jbe),
        _ => None,
    }
}

/// Decodes the instruction at the cursor, consuming exactly its bytes. A
/// leading byte that no form matches is consumed alone and reported.
pub fn decode_next(cur: &mut ByteCursor) -> (r: Result<Step, DecodeError>)
    requires
        old(cur).wf(),
        old(cur).position() < old(cur).data().len(),
    ensures
        final(cur).wf(),
        final(cur).data() == old(cur).data(),
        r == decode_at(old(cur).data(), old(cur).position()),
        r matches Ok(s) ==> final(cur).position() == old(cur).position() + step_len(s),
{
    cur.begin_instruction();
    let op = cur.next()?;
    proof {
        lemma_fields(op);
    }
    if op >> 4 == 0b1011 {
        return read_mov_immediate_to_register(cur, op);
    }
    if let Some(mnemonic) = reg_rm_kind(op >> 2) {
        return read_reg_rm(cur, op, mnemonic);
    }
    if op >> 2 == 0b100000 {
        return read_arithmetic_immediate(cur, op);
    }
    if let Some(mnemonic) = accumulator_kind(op >> 1) {
        return read_accumulator_immediate(cur, op, mnemonic);
    }
    if op >> 1 == 0b1100011 {
        return read_mov_immediate_to_rm(cur, op);
    }
    if op >> 1 == 0b1010000 {
        return read_accumulator_memory(cur, op, false);
    }
    if op >> 1 == 0b1010001 {
        return read_accumulator_memory(cur, op, true);
    }
    if let Some(mnemonic) = jump_kind(op) {
        return read_jump(cur, op, mnemonic);
    }
    Ok(Step::Unrecognized { offset: cur.instruction_offset(), byte: op })
}


/// Lemma: a step consumes at least one byte and stays within the input.
pub proof fn lemma_step_advances(b: Seq<u8>, p: int)
    requires
        0 <= p < b.len(),
    ensures
        decode_at(b, p) matches Ok(s) ==> 1 <= step_len(s) && p + step_len(s) <= b.len(),
{
}

/// The steps that decoding makes from offset `p` to the end of the input,
/// or the first error.
pub open spec fn decode_from(b: Seq<u8>, p: int) -> Result<Seq<Step>, DecodeError>
    decreases b.len() - p,
    when 0 <= p
{
    if p >= b.len() {
        Ok(Seq::empty())
    } else {
        match decode_at(b, p) {
            Err(e) => Err(e),
            Ok(s) => {
                proof {
                    lemma_step_advances(b, p);
                }
                match decode_from(b, p + step_len(s)) {
                    Ok(rest) => Ok(seq![s] + rest),
                    Err(e) => Err(e),
                }
            },
        }
    }
}

/// The steps `done` followed by those of `rest`, or the error of `rest`.
pub open spec fn followed_by(done: Seq<Step>, rest: Result<Seq<Step>, DecodeError>) -> Result<
    Seq<Step>,
    DecodeError,
> {
    match rest {
        Ok(r) => Ok(done + r),
        Err(e) => Err(e),
    }
}

/// Decodes the whole input, from its first byte to its end. Unrecognized
/// leading bytes are skipped and recorded; a truncated or malformed
/// instruction stops decoding with its error.
pub fn decode_all(bytes: &[u8]) -> (r: Result<Vec<Step>, DecodeError>)
    ensures
        match r {
            Ok(steps) => decode_from(bytes@, 0) == Ok::<Seq<Step>, DecodeError>(steps@),
            Err(e) => decode_from(bytes@, 0) == Err::<Seq<Step>, DecodeError>(e),
        },
{
    let mut cur = ByteCursor::new(bytes);
    let mut steps: Vec<Step> = Vec::new();
    assert(followed_by(steps@, decode_from(bytes@, 0)) == decode_from(bytes@, 0)) by {
        if let Ok(r) = decode_from(bytes@, 0) {
            assert(steps@ + r =~= r);
        }
    }
    while cur.peek().is_some()
        invariant
            cur.wf(),
            cur.data() == bytes@,
            decode_from(bytes@, 0) == followed_by(steps@, decode_from(bytes@, cur.position())),
        decreases bytes@.len() - cur.position(),
    {
        let ghost p = cur.position();
        let s = decode_next(&mut cur)?;
        proof {
            lemma_step_advances(bytes@, p);
            if let Ok(r) = decode_from(bytes@, cur.position()) {
                assert(steps@ + (seq![s] + r) =~= steps@.push(s) + r);
            }
        }
        steps.push(s);
    }
    assert(steps@ + Seq::<Step>::empty() =~= steps@);
    Ok(steps)
}


/// A word immediate is its low byte or-ed with its high byte shifted left by
/// eight, read as two's complement when signed and as unsigned otherwise.
pub proof fn word_immediate_is_little_endian(b: Seq<u8>, q: int, signed: bool)
    requires
        0 <= q,
        q + 2 <= b.len(),
    ensures
        ({
            let composed = b[q] as u16 | ((b[q + 1] as u16) << 8);
            &&& immediate_at(b, q, true, signed) matches Some((imm, end))
            &&& end == q + 2
            &&& imm.width == Width::Word
            &&& imm.value == if signed {
                composed as i16 as i32
            } else {
                composed as i32
            }
        }),
{
    lemma_word(b[q], b[q + 1]);
}

} // verus!
