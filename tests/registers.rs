use sim8086::{CpuState, Reg, Register, UnknownRegister};

#[test]
fn register_bytes() {
    let mut r = Register::new();
    assert_eq!(r.get(), 0);
    r.set(0x1234);
    assert_eq!(r.get(), 0x1234);
    assert_eq!(r.get_low(), 0x34);
    assert_eq!(r.get_high(), 0x12);
    r.set_low(0xFF);
    assert_eq!(r.get(), 0x12FF);
    r.set_high(0xAB);
    assert_eq!(r.get(), 0xABFF);
    assert_eq!(r.get_low(), 0xFF);
}

#[test]
fn byte_writes_keep_the_other_half() {
    let mut cpu = CpuState::new();
    cpu.write(Reg::Dx, 0x1234);
    cpu.write(Reg::Dl, 0x00AB);
    assert_eq!(cpu.read(Reg::Dh), 0x12);
    assert_eq!(cpu.read(Reg::Dx), 0x12AB);
    cpu.write(Reg::Dh, 0x0156);
    assert_eq!(cpu.read(Reg::Dl), 0xAB);
    assert_eq!(cpu.read(Reg::Dh), 0x56);
    assert_eq!(cpu.read(Reg::Dx), 0x56AB);
}

#[test]
fn registers_by_name() {
    let mut cpu = CpuState::new();
    for name in [
        "al", "ah", "ax", "bl", "bh", "bx", "cl", "ch", "cx", "dl", "dh", "dx", "si", "di", "bp",
        "sp", "ip",
    ] {
        assert_eq!(cpu.get_register_value(name), Ok(0));
    }
    assert_eq!(cpu.set_new_register_value("al", 0x1FF), Ok(()));
    assert_eq!(cpu.get_register_value("al"), Ok(0xFF));
    assert_eq!(cpu.get_register_value("ax"), Ok(0x00FF));
    assert_eq!(cpu.set_new_register_value("sp", 0xFFFE), Ok(()));
    assert_eq!(cpu.sp.get(), 0xFFFE);
    assert_eq!(cpu.set_new_register_value("ip", 7), Ok(()));
    assert_eq!(cpu.ip.get(), 7);
}

#[test]
fn unknown_register_names_are_errors() {
    let mut cpu = CpuState::new();
    assert_eq!(cpu.get_register_value("xx"), Err(UnknownRegister));
    assert_eq!(cpu.get_register_value("AX"), Err(UnknownRegister));
    assert_eq!(cpu.get_register_value(""), Err(UnknownRegister));
    assert_eq!(cpu.set_new_register_value("eax", 1), Err(UnknownRegister));
    assert_eq!(cpu.ax.get(), 0);
}

#[test]
fn register_names_round_trip() {
    for r in [Reg::Al, Reg::Bh, Reg::Cx, Reg::Sp, Reg::Ip] {
        assert_eq!(Reg::from_name(r.name()), Some(r));
    }
    assert_eq!(Reg::Bh.name(), "bh");
}
