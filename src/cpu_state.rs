use vstd::prelude::*;
use vstd::string::StrSliceExecFns;

verus! {

/// The low byte of a 16-bit value.
pub open spec fn low_byte(v: u16) -> u8 {
    (v % 256) as u8
}

/// The high byte of a 16-bit value.
pub open spec fn high_byte(v: u16) -> u8 {
    (v / 256) as u8
}

/// The 16-bit value made of a high and a low byte.
pub open spec fn compose(high: u8, low: u8) -> u16 {
    (high * 256 + low) as u16
}

proof fn lemma_byte_ops(v: u16, b: u8)
    ensures
        (v & 0xFF) as u8 == low_byte(v),
        ((v >> 8) & 0xFF) as u8 == high_byte(v),
        (v & 0xFF00) | (b as u16) == compose(high_byte(v), b),
        (v & 0x00FF) | ((b as u16) << 8) == compose(b, low_byte(v)),
{
    assert((v & 0xFF) as u8 == (v % 256) as u8) by (bit_vector);
    assert(((v >> 8) & 0xFF) as u8 == (v / 256) as u8) by (bit_vector);
    assert((v & 0xFF00) | (b as u16) == (((v / 256) as u8) * 256 + b) as u16) by (bit_vector);
    assert((v & 0x00FF) | ((b as u16) << 8) == (b * 256 + ((v % 256) as u8)) as u16)
        by (bit_vector);
}

/// A 16-bit register.
#[derive(Debug)]
pub struct Register {
    value: u16,
}

impl View for Register {
    type V = u16;

    closed spec fn view(&self) -> u16 {
        self.value
    }
}

impl Register {
    /// A register holding zero.
    pub fn new() -> (r: Self)
        ensures
            r@ == 0,
    {
        Register { value: 0 }
    }

    /// The full 16-bit value.
    pub fn get(&self) -> (r: u16)
        ensures
            r == self@,
    {
        self.value
    }

    /// Overwrites both bytes.
    pub fn set(&mut self, value: u16)
        ensures
            final(self)@ == value,
    {
        self.value = value;
    }

    /// The low byte.
    pub fn get_low(&self) -> (r: u8)
        ensures
            r == low_byte(self@),
    {
        proof {
            lemma_byte_ops(self.value, 0);
        }
        (self.value & 0xFF) as u8
    }

    /// The high byte.
    pub fn get_high(&self) -> (r: u8)
        ensures
            r == high_byte(self@),
    {
        proof {
            lemma_byte_ops(self.value, 0);
        }
        ((self.value >> 8) & 0xFF) as u8
    }

    /// Overwrites the low byte; the high byte is kept.
    pub fn set_low(&mut self, value: u8)
        ensures
            final(self)@ == compose(high_byte(old(self)@), value),
    {
        proof {
            lemma_byte_ops(self.value, value);
        }
        self.value = (self.value & 0xFF00) | (value as u16);
    }

    /// Overwrites the high byte; the low byte is kept.
    pub fn set_high(&mut self, value: u8)
        ensures
            final(self)@ == compose(value, low_byte(old(self)@)),
    {
        proof {
            lemma_byte_ops(self.value, value);
        }
        self.value = (self.value & 0x00FF) | ((value as u16) << 8);
    }
}


/// Lemma: splitting a word into bytes and composing them back are inverse.
proof fn lemma_compose(high: u8, low: u8, v: u16)
    ensures
        low_byte(compose(high, low)) == low,
        high_byte(compose(high, low)) == high,
        compose(high_byte(v), low_byte(v)) == v,
        v as u8 == low_byte(v),
{
    assert(((high * 256 + low) as u16 % 256) as u8 == low) by (bit_vector);
    assert(((high * 256 + low) as u16 / 256) as u8 == high) by (bit_vector);
    assert((((v / 256) as u8) * 256 + ((v % 256) as u8)) as u16 == v) by (bit_vector);
    assert(v as u8 == (v % 256) as u8) by (bit_vector);
}

/// The registers and byte aliases of the register file.
#[derive(Debug, Clone, Copy, PartialEq, Eq, Structural)]
pub enum Reg {
    Al,
    Cl,
    Dl,
    Bl,
    Ah,
    Ch,
    Dh,
    Bh,
    Ax,
    Cx,
    Dx,
    Bx,
    Sp,
    Bp,
    Si,
    Di,
    Ip,
}

/// The assembly name of a register.
pub open spec fn reg_name(r: Reg) -> Seq<char> {
    match r {
        Reg::Al => "al"@,
        Reg::Cl => "cl"@,
        Reg::Dl => "dl"@,
        Reg::Bl => "bl"@,
        Reg::Ah => "ah"@,
        Reg::Ch => "ch"@,
        Reg::Dh => "dh"@,
        Reg::Bh => "bh"@,
        Reg::Ax => "ax"@,
        Reg::Cx => "cx"@,
        Reg::Dx => "dx"@,
        Reg::Bx => "bx"@,
        Reg::Sp => "sp"@,
        Reg::Bp => "bp"@,
        Reg::Si => "si"@,
        Reg::Di => "di"@,
        Reg::Ip => "ip"@,
    }
}

/// Whether a register is one of the eight byte aliases.
pub open spec fn is_byte_reg(r: Reg) -> bool {
    match r {
        Reg::Al | Reg::Cl | Reg::Dl | Reg::Bl | Reg::Ah | Reg::Ch | Reg::Dh | Reg::Bh => true,
        _ => false,
    }
}

/// Which of the nine 16-bit registers holds a register or alias.
pub open spec fn storage(r: Reg) -> int {
    match r {
        Reg::Al | Reg::Ah | Reg::Ax => 0,
        Reg::Cl | Reg::Ch | Reg::Cx => 1,
        Reg::Dl | Reg::Dh | Reg::Dx => 2,
        Reg::Bl | Reg::Bh | Reg::Bx => 3,
        Reg::Sp => 4,
        Reg::Bp => 5,
        Reg::Si => 6,
        Reg::Di => 7,
        Reg::Ip => 8,
    }
}

/// Whether a register is the low byte of one of the first four registers.
pub open spec fn is_low_byte_reg(r: Reg) -> bool {
    match r {
        Reg::Al | Reg::Cl | Reg::Dl | Reg::Bl => true,
        _ => false,
    }
}

/// The other byte alias of the same register.
pub open spec fn sibling(r: Reg) -> Reg {
    match r {
        Reg::Al => Reg::Ah,
        Reg::Ah => Reg::Al,
        Reg::Cl => Reg::Ch,
        Reg::Ch => Reg::Cl,
        Reg::Dl => Reg::Dh,
        Reg::Dh => Reg::Dl,
        Reg::Bl => Reg::Bh,
        Reg::Bh => Reg::Bl,
        _ => r,
    }
}

/// The full register that holds a register or alias.
pub open spec fn full_register(r: Reg) -> Reg {
    match r {
        Reg::Al | Reg::Ah => Reg::Ax,
        Reg::Cl | Reg::Ch => Reg::Cx,
        Reg::Dl | Reg::Dh => Reg::Dx,
        Reg::Bl | Reg::Bh => Reg::Bx,
        _ => r,
    }
}

/// What register `r` reads in a register file of nine words, indexed by
/// `storage`.
pub open spec fn read_word(words: Seq<u16>, r: Reg) -> u16 {
    let w = words[storage(r)];
    if is_low_byte_reg(r) {
        low_byte(w) as u16
    } else if is_byte_reg(r) {
        high_byte(w) as u16
    } else {
        w
    }
}

/// The register file after `v` is written to `r`: a byte alias takes the
/// low byte of `v` and keeps the other byte of its register.
pub open spec fn write_word(words: Seq<u16>, r: Reg, v: u16) -> Seq<u16> {
    let w = words[storage(r)];
    let new = if is_low_byte_reg(r) {
        compose(high_byte(w), low_byte(v))
    } else if is_byte_reg(r) {
        compose(low_byte(v), low_byte(w))
    } else {
        v
    };
    words.update(storage(r), new)
}

/// What a register reads after `v` is written to it: a byte alias keeps the
/// low byte of `v`.
pub open spec fn written(r: Reg, v: u16) -> u16 {
    if is_byte_reg(r) {
        low_byte(v) as u16
    } else {
        v
    }
}

/// Writing a byte alias leaves the other byte of its register unchanged, and
/// the full register then reads as the composition of its high and low
/// bytes.
pub proof fn byte_write_keeps_sibling(words: Seq<u16>, r: Reg, v: u16)
    requires
        words.len() == 9,
        is_byte_reg(r),
    ensures
        read_word(write_word(words, r, v), r) == low_byte(v) as u16,
        read_word(write_word(words, r, v), sibling(r)) == read_word(words, sibling(r)),
        ({
            let after = write_word(words, r, v);
            let (high, low) = if is_low_byte_reg(r) {
                (sibling(r), r)
            } else {
                (r, sibling(r))
            };
            read_word(after, full_register(r)) == compose(
                read_word(after, high) as u8,
                read_word(after, low) as u8,
            )
        }),
{
    let w = words[storage(r)];
    lemma_compose(high_byte(w), low_byte(v), w);
    lemma_compose(low_byte(v), low_byte(w), w);
    let n = write_word(words, r, v)[storage(r)];
    lemma_compose(high_byte(n), low_byte(n), n);
}

/// The error of a register lookup by a name that no register has.
#[derive(Debug, Clone, Copy, PartialEq, Eq, Structural)]
pub struct UnknownRegister;

impl Reg {
    /// The assembly name of the register.
    pub fn name(self) -> (r: &'static str)
        ensures
            r@ == reg_name(self),
    {
        match self {
            Reg::Al => "al",
            Reg::Cl => "cl",
            Reg::Dl => "dl",
            Reg::Bl => "bl",
            Reg::Ah => "ah",
            Reg::Ch => "ch",
            Reg::Dh => "dh",
            Reg::Bh => "bh",
            Reg::Ax => "ax",
            Reg::Cx => "cx",
            Reg::Dx => "dx",
            Reg::Bx => "bx",
            Reg::Sp => "sp",
            Reg::Bp => "bp",
            Reg::Si => "si",
            Reg::Di => "di",
            Reg::Ip => "ip",
        }
    }

    /// The register with the given assembly name, if there is one.
    pub fn from_name(name: &str) -> (r: Option<Reg>)
        ensures
            r matches Some(x) ==> reg_name(x) == name@,
            r is None ==> forall|x: Reg| reg_name(x) != name@,
    {
        proof {
        reveal_strlit("al");
        reveal_strlit("cl");
        reveal_strlit("dl");
        reveal_strlit("bl");
        reveal_strlit("ah");
        reveal_strlit("ch");
        reveal_strlit("dh");
        reveal_strlit("bh");
        reveal_strlit("ax");
        reveal_strlit("cx");
        reveal_strlit("dx");
        reveal_strlit("bx");
        reveal_strlit("sp");
        reveal_strlit("bp");
        reveal_strlit("si");
        reveal_strlit("di");
        reveal_strlit("ip");
        }
        let n = name.unicode_len();
        if n != 2 {
            return None;
        }
        let a = name.get_char(0);
        let b = name.get_char(1);
        assert(name@ =~= seq![a, b]);
        let r = match (a, b) {
            ('a', 'l') => Some(Reg::Al),
            ('c', 'l') => Some(Reg::Cl),
            ('d', 'l') => Some(Reg::Dl),
            ('b', 'l') => Some(Reg::Bl),
            ('a', 'h') => Some(Reg::Ah),
            ('c', 'h') => Some(Reg::Ch),
            ('d', 'h') => Some(Reg::Dh),
            ('b', 'h') => Some(Reg::Bh),
            ('a', 'x') => Some(Reg::Ax),
            ('c', 'x') => Some(Reg::Cx),
            ('d', 'x') => Some(Reg::Dx),
            ('b', 'x') => Some(Reg::Bx),
            ('s', 'p') => Some(Reg::Sp),
            ('b', 'p') => Some(Reg::Bp),
            ('s', 'i') => Some(Reg::Si),
            ('d', 'i') => Some(Reg::Di),
            ('i', 'p') => Some(Reg::Ip),
            _ => None,
        };
        r
    }
}

/// The register file: nine 16-bit registers, the first four of which also
/// expose their high and low bytes.
#[derive(Debug)]
pub struct CpuState {
    pub ax: Register,
    pub bx: Register,
    pub cx: Register,
    pub dx: Register,
    pub si: Register,
    pub di: Register,
    pub bp: Register,
    pub sp: Register,
    pub ip: Register,
}

impl CpuState {
    /// The nine 16-bit registers, in the order of `storage`.
    pub open spec fn words(&self) -> Seq<u16> {
        seq![
            self.ax@,
            self.cx@,
            self.dx@,
            self.bx@,
            self.sp@,
            self.bp@,
            self.si@,
            self.di@,
            self.ip@,
        ]
    }

    /// What register `r` reads in this state.
    pub open spec fn value(&self, r: Reg) -> u16 {
        read_word(self.words(), r)
    }

    /// A register file with every register zero.
    pub fn new() -> (s: Self)
        ensures
            s.words() == Seq::new(9, |i: int| 0u16),
    {
        let s = CpuState {
            ax: Register::new(),
            bx: Register::new(),
            cx: Register::new(),
            dx: Register::new(),
            si: Register::new(),
            di: Register::new(),
            bp: Register::new(),
            sp: Register::new(),
            ip: Register::new(),
        };
        assert(s.words() =~= Seq::new(9, |i: int| 0u16));
        s
    }

    /// Reads a register or byte alias.
    pub fn read(&self, r: Reg) -> (v: u16)
        ensures
            v == self.value(r),
    {
        match r {
            Reg::Al => self.ax.get_low() as u16,
            Reg::Ah => self.ax.get_high() as u16,
            Reg::Ax => self.ax.get(),
            Reg::Cl => self.cx.get_low() as u16,
            Reg::Ch => self.cx.get_high() as u16,
            Reg::Cx => self.cx.get(),
            Reg::Dl => self.dx.get_low() as u16,
            Reg::Dh => self.dx.get_high() as u16,
            Reg::Dx => self.dx.get(),
            Reg::Bl => self.bx.get_low() as u16,
            Reg::Bh => self.bx.get_high() as u16,
            Reg::Bx => self.bx.get(),
            Reg::Sp => self.sp.get(),
            Reg::Bp => self.bp.get(),
            Reg::Si => self.si.get(),
            Reg::Di => self.di.get(),
            Reg::Ip => self.ip.get(),
        }
    }

    /// Writes a register or byte alias. A byte alias takes the low byte of
    /// `value` and leaves the other byte of its register as it was.
    pub fn write(&mut self, r: Reg, value: u16)
        ensures
            final(self).words() == write_word(old(self).words(), r, value),
            final(self).value(r) == written(r, value),
    {
        let b = value as u8;
        proof {
            lemma_compose(b, 0, value);
            lemma_compose(high_byte(self.ax@), b, self.ax@);
            lemma_compose(b, low_byte(self.ax@), self.ax@);
            lemma_compose(high_byte(self.bx@), b, self.bx@);
            lemma_compose(b, low_byte(self.bx@), self.bx@);
            lemma_compose(high_byte(self.cx@), b, self.cx@);
            lemma_compose(b, low_byte(self.cx@), self.cx@);
            lemma_compose(high_byte(self.dx@), b, self.dx@);
            lemma_compose(b, low_byte(self.dx@), self.dx@);
        }
        match r {
            Reg::Al => self.ax.set_low(b),
            Reg::Ah => self.ax.set_high(b),
            Reg::Ax => self.ax.set(value),
            Reg::Cl => self.cx.set_low(b),
            Reg::Ch => self.cx.set_high(b),
            Reg::Cx => self.cx.set(value),
            Reg::Dl => self.dx.set_low(b),
            Reg::Dh => self.dx.set_high(b),
            Reg::Dx => self.dx.set(value),
            Reg::Bl => self.bx.set_low(b),
            Reg::Bh => self.bx.set_high(b),
            Reg::Bx => self.bx.set(value),
            Reg::Sp => self.sp.set(value),
            Reg::Bp => self.bp.set(value),
            Reg::Si => self.si.set(value),
            Reg::Di => self.di.set(value),
            Reg::Ip => self.ip.set(value),
        }
        assert(self.words() =~= write_word(old(self).words(), r, value));
    }

    /// Reads the register with the given assembly name; a name that no
    /// register has is an error.
    pub fn get_register_value(&self, register: &str) -> (r: Result<u16, UnknownRegister>)
        ensures
            r matches Ok(v) ==> exists|x: Reg| reg_name(x) == register@ && v == self.value(x),
            r is Err <==> forall|x: Reg| reg_name(x) != register@,
    {
        match Reg::from_name(register) {
            Some(x) => Ok(self.read(x)),
            None => Err(UnknownRegister),
        }
    }

    /// Writes the register with the given assembly name; a name that no
    /// register has is an error and leaves the state unchanged.
    pub fn set_new_register_value(&mut self, register: &str, value: u16) -> (r: Result<
        (),
        UnknownRegister,
    >)
        ensures
            r is Err <==> forall|x: Reg| reg_name(x) != register@,
            r is Err ==> *final(self) == *old(self),
            r is Ok ==> exists|x: Reg|
                reg_name(x) == register@ && final(self).words() == write_word(
                    old(self).words(),
                    x,
                    value,
                ),
    {
        match Reg::from_name(register) {
            Some(x) => {
                self.write(x, value);
                Ok(())
            },
            None => Err(UnknownRegister),
        }
    }
}

} // verus!
