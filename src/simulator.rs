use crate::cpu_state::{read_word, write_word, CpuState, Reg};
use crate::decoder::{Instruction, Mnemonic};
use crate::operand::Operand;
use vstd::prelude::*;

verus! {

/// A register change made by an instruction: the register, and what it read
/// before and after.
#[derive(Debug, Clone, Copy, PartialEq, Eq, Structural)]
pub struct Effect {
    pub register: Reg,
    pub before: u16,
    pub after: u16,
}

/// The register that an instruction writes, and the value written to it,
/// given the register file `words`. Only a move into a register writes one:
/// an immediate source gives its value, a register source what that register
/// reads. Every other instruction leaves the register file alone.
pub open spec fn effect_of(i: Instruction, words: Seq<u16>) -> Option<(Reg, u16)> {
    if i.mnemonic is Mov {
        match (i.first, i.second) {
            (Operand::Register(r), Some(Operand::Immediate(imm))) => Some((r, imm.value as u16)),
            (Operand::Register(r), Some(Operand::Register(s))) => Some((r, read_word(words, s))),
            _ => None,
        }
    } else {
        None
    }
}

/// Writes `value` to `r` and reports what `r` read before and after.
fn write_traced(cpu: &mut CpuState, r: Reg, value: u16) -> (e: Effect)
    ensures
        final(cpu).words() == write_word(old(cpu).words(), r, value),
        e == (Effect {
            register: r,
            before: read_word(old(cpu).words(), r),
            after: read_word(final(cpu).words(), r),
        }),
{
    let before = cpu.read(r);
    cpu.write(r, value);
    let after = cpu.read(r);
    Effect { register: r, before, after }
}

/// Applies the register effect of an instruction, if it has one, and
/// reports it.
pub fn apply_effect(cpu: &mut CpuState, i: &Instruction) -> (r: Option<Effect>)
    ensures
        match effect_of(*i, old(cpu).words()) {
            None => r is None && final(cpu).words() == old(cpu).words(),
            Some((reg, v)) => final(cpu).words() == write_word(old(cpu).words(), reg, v) && r
                == Some(
                Effect {
                    register: reg,
                    before: read_word(old(cpu).words(), reg),
                    after: read_word(final(cpu).words(), reg),
                },
            ),
        },
{
    if !matches!(i.mnemonic, Mnemonic::Mov) {
        return None;
    }
    match (i.first, i.second) {
        (Operand::Register(r), Some(Operand::Immediate(imm))) => Some(
            write_traced(cpu, r, imm.value as u16),
        ),
        (Operand::Register(r), Some(Operand::Register(s))) => {
            let v = cpu.read(s);
            Some(write_traced(cpu, r, v))
        },
        _ => None,
    }
}

} // verus!
