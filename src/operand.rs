use crate::cpu_state::{reg_name, Reg};
use crate::text::{push_signed, signed_text};
use vstd::prelude::*;
use vstd::string::StringExecFns;

verus! {

/// Operand width, selected by an instruction's W bit.
#[derive(Debug, Clone, Copy, PartialEq, Eq, Structural)]
pub enum Width {
    Byte,
    Word,
}

/// The base expression of a memory operand, or a direct address.
#[derive(Debug, Clone, Copy, PartialEq, Eq, Structural)]
pub enum AddressBase {
    BxSi,
    BxDi,
    BpSi,
    BpDi,
    Si,
    Di,
    Bp,
    Bx,
    Direct,
}

/// A memory operand. For a direct address the displacement is the address
/// itself; otherwise it is absent when the encoding has none. The size hint
/// is set where the other operand is an immediate, whose width it names.
#[derive(Debug, Clone, Copy, PartialEq, Eq, Structural)]
pub struct MemoryOperand {
    pub base: AddressBase,
    pub displacement: Option<i16>,
    pub size_hint: Option<Width>,
}

/// An immediate value: a byte or word, read signed or unsigned.
#[derive(Debug, Clone, Copy, PartialEq, Eq, Structural)]
pub struct Immediate {
    pub value: i32,
    pub width: Width,
}

/// An instruction operand.
#[derive(Debug, Clone, Copy, PartialEq, Eq, Structural)]
pub enum Operand {
    Register(Reg),
    Memory(MemoryOperand),
    Immediate(Immediate),
}

/// The register that a 3-bit register code names at a width.
pub open spec fn register_table(code: u8, wide: bool) -> Reg {
    if wide {
        seq![Reg::Ax, Reg::Cx, Reg::Dx, Reg::Bx, Reg::Sp, Reg::Bp, Reg::Si, Reg::Di][code as int]
    } else {
        seq![Reg::Al, Reg::Cl, Reg::Dl, Reg::Bl, Reg::Ah, Reg::Ch, Reg::Dh, Reg::Bh][code as int]
    }
}

/// The base expression that a 3-bit r/m code names in a memory mode.
pub open spec fn base_table(code: u8) -> AddressBase {
    seq![
        AddressBase::BxSi,
        AddressBase::BxDi,
        AddressBase::BpSi,
        AddressBase::BpDi,
        AddressBase::Si,
        AddressBase::Di,
        AddressBase::Bp,
        AddressBase::Bx,
    ][code as int]
}

/// The register that a REG field names.
pub fn decode_register_field(reg_field: u8, w_field: bool) -> (r: Reg)
    requires
        reg_field < 8,
    ensures
        r == register_table(reg_field, w_field),
{
    if w_field {
        match reg_field {
            0 => Reg::Ax,
            1 => Reg::Cx,
            2 => Reg::Dx,
            3 => Reg::Bx,
            4 => Reg::Sp,
            5 => Reg::Bp,
            6 => Reg::Si,
            _ => Reg::Di,
        }
    } else {
        match reg_field {
            0 => Reg::Al,
            1 => Reg::Cl,
            2 => Reg::Dl,
            3 => Reg::Bl,
            4 => Reg::Ah,
            5 => Reg::Ch,
            6 => Reg::Dh,
            _ => Reg::Bh,
        }
    }
}

/// The register that an r/m field names in register mode (mod 11).
pub fn decode_rm_field_at_mod_11(rm_field: u8, w_field: bool) -> (r: Reg)
    requires
        rm_field < 8,
    ensures
        r == register_table(rm_field, w_field),
{
    decode_register_field(rm_field, w_field)
}

/// The base expression that an r/m field names in the displacement modes
/// (mod 01 and mod 10).
pub fn decode_rm_field_at_mod_10_and_mod_01(rm_field: u8) -> (r: AddressBase)
    requires
        rm_field < 8,
    ensures
        r == base_table(rm_field),
{
    match rm_field {
        0 => AddressBase::BxSi,
        1 => AddressBase::BxDi,
        2 => AddressBase::BpSi,
        3 => AddressBase::BpDi,
        4 => AddressBase::Si,
        5 => AddressBase::Di,
        6 => AddressBase::Bp,
        _ => AddressBase::Bx,
    }
}

/// The base expression that an r/m field names in mod 00, where code 110
/// stands for a direct address.
pub fn decode_rm_field_at_mod_00(rm_field: u8) -> (r: AddressBase)
    requires
        rm_field < 8,
    ensures
        r == (if rm_field == 6 {
            AddressBase::Direct
        } else {
            base_table(rm_field)
        }),
{
    if rm_field == 6 {
        AddressBase::Direct
    } else {
        decode_rm_field_at_mod_10_and_mod_01(rm_field)
    }
}

/// The text of a base expression; a direct address has none.
pub open spec fn base_text(b: AddressBase) -> Seq<char> {
    match b {
        AddressBase::BxSi => "bx+si"@,
        AddressBase::BxDi => "bx+di"@,
        AddressBase::BpSi => "bp+si"@,
        AddressBase::BpDi => "bp+di"@,
        AddressBase::Si => "si"@,
        AddressBase::Di => "di"@,
        AddressBase::Bp => "bp"@,
        AddressBase::Bx => "bx"@,
        AddressBase::Direct => Seq::empty(),
    }
}

/// The text of a memory operand. A displacement that is not negative is
/// written with a `+`, zero included; a negative one brings its own sign.
pub open spec fn memory_text(m: MemoryOperand) -> Seq<char> {
    match m.displacement {
        None => "["@ + base_text(m.base) + "]"@,
        Some(d) => if m.base is Direct {
            "["@ + signed_text(d as int) + "]"@
        } else if d < 0 {
            "["@ + base_text(m.base) + signed_text(d as int) + "]"@
        } else {
            "["@ + base_text(m.base) + "+"@ + signed_text(d as int) + "]"@
        },
    }
}

/// The text of an operand.
pub open spec fn operand_text(op: Operand) -> Seq<char> {
    match op {
        Operand::Register(r) => reg_name(r),
        Operand::Memory(m) => memory_text(m),
        Operand::Immediate(i) => signed_text(i.value as int),
    }
}

/// The text of a base expression.
fn base_str(b: AddressBase) -> (r: &'static str)
    ensures
        r@ == base_text(b),
{
    match b {
            AddressBase::BxSi => "bx+si",
            AddressBase::BxDi => "bx+di",
            AddressBase::BpSi => "bp+si",
            AddressBase::BpDi => "bp+di",
            AddressBase::Si => "si",
            AddressBase::Di => "di",
            AddressBase::Bp => "bp",
            AddressBase::Bx => "bx",
        AddressBase::Direct => {
            proof {
                reveal_strlit("");
            }
            ""
        },
    }
}

/// Appends the text of an operand.
pub fn push_operand(s: &mut String, op: &Operand)
    ensures
        final(s)@ == old(s)@ + operand_text(*op),
{
    match op {
        Operand::Register(r) => {
            s.append(r.name());
        },
        Operand::Immediate(i) => {
            push_signed(s, i.value);
        },
        Operand::Memory(m) => {
            s.append("[");
            match m.displacement {
                None => {
                    s.append(base_str(m.base));
                },
                Some(d) => {
                    s.append(base_str(m.base));
                    if d >= 0 && !matches!(m.base, AddressBase::Direct) {
                        s.append("+");
                    }
                    push_signed(s, d as i32);
                },
            }
            s.append("]");
            assert(final(s)@ =~= old(s)@ + operand_text(*op));
        },
    }
}

} // verus!
