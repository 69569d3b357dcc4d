use crate::cpu_state::{read_word, reg_name, write_word, CpuState};
use crate::decoder::{
    d_bit, decode_all, decode_at, decode_from, mod_field, reg_field, rm_field, rm_operand, w_bit,
    DecodeError, Instruction, Mnemonic, Step,
};
use crate::operand::{
    base_table, base_text, operand_text, push_operand, register_table, Operand, Width,
};
use crate::simulator::{apply_effect, effect_of, Effect};
use crate::text::{hex2_text, push_hex2};
use vstd::prelude::*;
use vstd::string::StringExecFns;

verus! {

/// The text of a mnemonic.
pub open spec fn mnemonic_text(m: Mnemonic) -> Seq<char> {
    match m {
        Mnemonic::Mov => "mov"@,
        Mnemonic::Add => "add"@,
        Mnemonic::Sub => "sub"@,
        Mnemonic::Cmp => "cmp"@,
        Mnemonic::Je => "je"@,
        Mnemonic::Jl => "jl"@,
        Mnemonic::Jle => "jle"@,
        Mnemonic::Jb => "jb"@,
        Mnemonic::Jbe => "jbe"@,
    }
}

/// The size keyword written before an immediate second operand when the
/// first operand is memory with a size hint; otherwise nothing.
pub open spec fn size_keyword(first: Operand, second: Operand) -> Seq<char> {
    match (first, second) {
        (Operand::Memory(m), Operand::Immediate(_)) => match m.size_hint {
            Some(Width::Byte) => "byte "@,
            Some(Width::Word) => "word "@,
            None => Seq::empty(),
        },
        _ => Seq::empty(),
    }
}

/// The assembly text of an instruction: `<mnemonic> <operand>[, <operand>]`.
pub open spec fn instruction_text(i: Instruction) -> Seq<char> {
    mnemonic_text(i.mnemonic) + " "@ + operand_text(i.first) + match i.second {
        None => Seq::empty(),
        Some(s) => ", "@ + size_keyword(i.first, s) + operand_text(s),
    }
}

/// The comment line that reports a register change.
pub open spec fn effect_text(e: Effect) -> Seq<char> {
    "; "@ + reg_name(e.register) + ": 0x"@ + hex2_text(e.before as nat) + " -> 0x"@ + hex2_text(
        e.after as nat,
    ) + "\n"@
}

/// The text emitted for a sequence of steps, and the register file after
/// them, starting from the register file `words`. Each instruction gives
/// one line; with `simulate`, one that changes a register is followed by a
/// comment line on the change. Unrecognized bytes give nothing.
pub open spec fn emit_steps(steps: Seq<Step>, simulate: bool, words: Seq<u16>) -> (
    Seq<char>,
    Seq<u16>,
)
    decreases steps.len(),
{
    if steps.len() == 0 {
        (Seq::empty(), words)
    } else {
        let (text, w) = emit_steps(steps.drop_last(), simulate, words);
        match steps.last() {
            Step::Unrecognized { .. } => (text, w),
            Step::Instruction(i) => {
                let line = text + instruction_text(i) + "\n"@;
                if simulate && effect_of(i, w) is Some {
                    let (r, v) = effect_of(i, w)->0;
                    let after = write_word(w, r, v);
                    let e = Effect {
                        register: r,
                        before: read_word(w, r),
                        after: read_word(after, r),
                    };
                    (line + effect_text(e), after)
                } else {
                    (line, w)
                }
            },
        }
    }
}

/// The first line of every listing, and the blank line after it.
pub open spec fn listing_header() -> Seq<char> {
    "bits 16\n\n"@
}

/// The text of a mnemonic.
fn mnemonic_str(m: Mnemonic) -> (r: &'static str)
    ensures
        r@ == mnemonic_text(m),
{
    match m {
        Mnemonic::Mov => "mov",
        Mnemonic::Add => "add",
        Mnemonic::Sub => "sub",
        Mnemonic::Cmp => "cmp",
        Mnemonic::Je => "je",
        Mnemonic::Jl => "jl",
        Mnemonic::Jle => "jle",
        Mnemonic::Jb => "jb",
        Mnemonic::Jbe => "jbe",
    }
}

/// Appends the assembly text of an instruction, without a line end.
pub fn push_instruction(s: &mut String, i: &Instruction)
    ensures
        final(s)@ == old(s)@ + instruction_text(*i),
{
    s.append(mnemonic_str(i.mnemonic));
    s.append(" ");
    push_operand(s, &i.first);
    if let Some(second) = &i.second {
        s.append(", ");
        if let (Operand::Memory(m), Operand::Immediate(_)) = (&i.first, second) {
            match m.size_hint {
                Some(Width::Byte) => s.append("byte "),
                Some(Width::Word) => s.append("word "),
                None => {},
            }
        }
        push_operand(s, second);
    }
    assert(final(s)@ =~= old(s)@ + instruction_text(*i));
}

/// Appends the comment line that reports a register change.
pub fn push_effect(s: &mut String, e: &Effect)
    ensures
        final(s)@ == old(s)@ + effect_text(*e),
{
    s.append("; ");
    s.append(e.register.name());
    s.append(": 0x");
    push_hex2(s, e.before as u32);
    s.append(" -> 0x");
    push_hex2(s, e.after as u32);
    s.append("\n");
    assert(final(s)@ =~= old(s)@ + effect_text(*e));
}

/// Renders the listing of decoded steps: the header, then one line per
/// instruction in order. With `simulate`, each instruction's register effect
/// is applied to `cpu` and reported in a comment line after it.
pub fn render_listing(steps: &Vec<Step>, simulate: bool, cpu: &mut CpuState) -> (r: String)
    ensures
        r@ == listing_header() + emit_steps(steps@, simulate, old(cpu).words()).0,
        final(cpu).words() == emit_steps(steps@, simulate, old(cpu).words()).1,
{
    let mut s = String::new();
    s.append("bits 16\n\n");
    let mut k: usize = 0;
    assert(steps@.take(0) =~= Seq::<Step>::empty());
    while k < steps.len()
        invariant
            k <= steps@.len(),
            s@ == listing_header() + emit_steps(steps@.take(k as int), simulate, old(cpu).words()).0,
            cpu.words() == emit_steps(steps@.take(k as int), simulate, old(cpu).words()).1,
        decreases steps.len() - k,
    {
        let ghost before = s@;
        assert(steps@.take(k + 1).drop_last() =~= steps@.take(k as int));
        if let Step::Instruction(i) = &steps[k] {
            push_instruction(&mut s, i);
            s.append("\n");
            if simulate {
                if let Some(e) = apply_effect(cpu, i) {
                    push_effect(&mut s, &e);
                }
            }
        }
        k = k + 1;
        proof {
            assert(s@ =~= listing_header() + emit_steps(steps@.take(k as int), simulate, old(cpu).words()).0);
        }
    }
    assert(steps@.take(k as int) =~= steps@);
    s
}

/// Decodes the input and renders its listing. With `simulate`, register
/// effects are applied to `cpu` as the listing is rendered. A truncated or
/// malformed instruction makes the whole run fail and leaves `cpu` as it
/// was.
pub fn disassemble(bytes: &[u8], simulate: bool, cpu: &mut CpuState) -> (r: Result<
    String,
    DecodeError,
>)
    ensures
        match decode_from(bytes@, 0) {
            Ok(steps) => {
                &&& r matches Ok(s) && s@ == listing_header() + emit_steps(
                    steps,
                    simulate,
                    old(cpu).words(),
                ).0
                &&& final(cpu).words() == emit_steps(steps, simulate, old(cpu).words()).1
            },
            Err(e) => r == Err::<String, DecodeError>(e) && final(cpu).words() == old(
                cpu,
            ).words(),
        },
{
    let steps = decode_all(bytes)?;
    Ok(render_listing(&steps, simulate, cpu))
}


/// In a register-to-register move, the D bit sets the operand order: when
/// set, the REG field's register is written first and the r/m field's
/// second; when clear, the other way round.
pub proof fn direction_bit_orders_operands(b: Seq<u8>, p: int)
    requires
        0 <= p,
        p + 2 <= b.len(),
        b[p] / 4 == 0b100010,
        mod_field(b[p + 1]) == 3,
    ensures
        ({
            let wide = w_bit(b[p]);
            let reg = reg_name(register_table(reg_field(b[p + 1]), wide));
            let rm = reg_name(register_table(rm_field(b[p + 1]), wide));
            &&& decode_at(b, p) matches Ok(Step::Instruction(i))
            &&& i.length == 2
            &&& instruction_text(i) == if d_bit(b[p]) {
                "mov "@ + reg + ", "@ + rm
            } else {
                "mov "@ + rm + ", "@ + reg
            }
        }),
{
    reveal_strlit("mov");
    reveal_strlit(" ");
    reveal_strlit("mov ");
    let wide = w_bit(b[p]);
    let reg = Operand::Register(register_table(reg_field(b[p + 1]), wide));
    let rm = Operand::Register(register_table(rm_field(b[p + 1]), wide));
    let (first, second) = if d_bit(b[p]) {
        (reg, rm)
    } else {
        (rm, reg)
    };
    let i = decode_at(b, p)->Ok_0->Instruction_0;
    assert(i.first == first && i.second == Some(second));
    assert(size_keyword(first, second) =~= Seq::<char>::empty());
    assert(instruction_text(i) =~= "mov "@ + operand_text(first) + ", "@ + operand_text(second));
}

/// A memory operand with a displacement (mod 01 or mod 10) whose
/// displacement is zero is still written with an explicit `+0`.
pub proof fn zero_displacement_is_written(b: Seq<u8>, q: int, m: u8, wide: bool)
    requires
        0 <= q,
        mod_field(m) == 1 ==> q + 1 <= b.len() && b[q] == 0,
        mod_field(m) == 2 ==> q + 2 <= b.len() && b[q] == 0 && b[q + 1] == 0,
        mod_field(m) == 1 || mod_field(m) == 2,
    ensures
        rm_operand(b, q, m, wide) matches Some((op, _)) && operand_text(op) == "["@ + base_text(
            base_table(rm_field(m)),
        ) + "+0]"@,
{
    reveal_strlit("+0]");
    reveal_strlit("+");
    reveal_strlit("]");
    let (op, _) = rm_operand(b, q, m, wide)->0;
    assert(crate::text::decimal_text(0) =~= seq!['0']);
    assert(operand_text(op) =~= "["@ + base_text(base_table(rm_field(m))) + "+0]"@);
}

} // verus!
