use sim8086::decoder::decode_all;
use sim8086::operand::{
    decode_register_field, decode_rm_field_at_mod_00, decode_rm_field_at_mod_10_and_mod_01,
    decode_rm_field_at_mod_11,
};
use sim8086::text::{push_decimal, push_hex2, push_signed};
use sim8086::{
    apply_effect, decode_next, AddressBase, ByteCursor, CpuState, Effect, Immediate, Instruction,
    MemoryOperand, Mnemonic, Operand, Reg, Step, Width,
};

#[test]
fn field_tables() {
    assert_eq!(decode_register_field(4, false), Reg::Ah);
    assert_eq!(decode_register_field(4, true), Reg::Sp);
    assert_eq!(decode_rm_field_at_mod_11(7, false), Reg::Bh);
    assert_eq!(decode_rm_field_at_mod_11(7, true), Reg::Di);
    assert_eq!(decode_rm_field_at_mod_10_and_mod_01(6), AddressBase::Bp);
    assert_eq!(decode_rm_field_at_mod_00(6), AddressBase::Direct);
    assert_eq!(decode_rm_field_at_mod_00(2), AddressBase::BpSi);
}

#[test]
fn decode_next_consumes_exact_bytes() {
    let bytes = [0xC6, 0x46, 0xFE, 0x07, 0x90];
    let mut cur = ByteCursor::new(&bytes);
    let step = decode_next(&mut cur).expect("decodes");
    assert_eq!(
        step,
        Step::Instruction(Instruction {
            mnemonic: Mnemonic::Mov,
            first: Operand::Memory(MemoryOperand {
                base: AddressBase::Bp,
                displacement: Some(-2),
                size_hint: Some(Width::Byte),
            }),
            second: Some(Operand::Immediate(Immediate { value: 7, width: Width::Byte })),
            offset: 0,
            length: 4,
        })
    );
    assert_eq!(cur.offset(), 4);
    assert_eq!(cur.peek(), Some(0x90));
    assert_eq!(decode_next(&mut cur), Ok(Step::Unrecognized { offset: 4, byte: 0x90 }));
    assert_eq!(cur.peek(), None);
}

#[test]
fn decode_all_records_unrecognized_bytes() {
    let steps = decode_all(&[0x90, 0x74, 0x02]).expect("decodes");
    assert_eq!(steps.len(), 2);
    assert_eq!(steps[0], Step::Unrecognized { offset: 0, byte: 0x90 });
    assert_eq!(
        steps[1],
        Step::Instruction(Instruction {
            mnemonic: Mnemonic::Je,
            first: Operand::Immediate(Immediate { value: 2, width: Width::Byte }),
            second: None,
            offset: 1,
            length: 2,
        })
    );
}

#[test]
fn effects_only_for_moves_into_registers() {
    let mut cpu = CpuState::new();
    let mov = Instruction {
        mnemonic: Mnemonic::Mov,
        first: Operand::Register(Reg::Cl),
        second: Some(Operand::Immediate(Immediate { value: 0x1AB, width: Width::Word })),
        offset: 0,
        length: 2,
    };
    assert_eq!(
        apply_effect(&mut cpu, &mov),
        Some(Effect { register: Reg::Cl, before: 0, after: 0xAB })
    );
    let add = Instruction { mnemonic: Mnemonic::Add, ..mov };
    assert_eq!(apply_effect(&mut cpu, &add), None);
    assert_eq!(cpu.read(Reg::Cx), 0x00AB);
    let neg = Instruction {
        first: Operand::Register(Reg::Dx),
        second: Some(Operand::Immediate(Immediate { value: -2, width: Width::Word })),
        ..mov
    };
    assert_eq!(
        apply_effect(&mut cpu, &neg),
        Some(Effect { register: Reg::Dx, before: 0, after: 0xFFFE })
    );
}

#[test]
fn number_text() {
    let mut s = String::new();
    push_decimal(&mut s, 0);
    s.push(' ');
    push_decimal(&mut s, 4294967295);
    s.push(' ');
    push_signed(&mut s, -32768);
    s.push(' ');
    push_hex2(&mut s, 5);
    s.push(' ');
    push_hex2(&mut s, 0xABC);
    s.push(' ');
    push_hex2(&mut s, 0);
    assert_eq!(s, "0 4294967295 -32768 05 abc 00");
}
