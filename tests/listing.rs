use sim8086::{disassemble, CpuState, DecodeError, Reg};

fn listing(bytes: &[u8]) -> String {
    let mut cpu = CpuState::new();
    disassemble(bytes, false, &mut cpu).expect("decodes")
}

fn body(bytes: &[u8]) -> String {
    let text = listing(bytes);
    text.strip_prefix("bits 16\n\n").expect("header").to_string()
}

#[test]
fn scenario_mov_word_immediate_to_register() {
    assert_eq!(listing(&[0xB8, 0x01, 0x00]), "bits 16\n\nmov ax, 1\n");
}

#[test]
fn scenario_mov_register_to_register_d_clear() {
    assert_eq!(body(&[0x89, 0xD9]), "mov cx, bx\n");
}

#[test]
fn scenario_conditional_jump_keeps_raw_displacement() {
    assert_eq!(body(&[0x74, 0xFE]), "je -2\n");
}

#[test]
fn scenario_simulated_byte_moves_compose_ax() {
    let mut cpu = CpuState::new();
    let text = disassemble(&[0xB0, 0x05, 0xB4, 0x03], true, &mut cpu).expect("decodes");
    assert_eq!(
        text,
        "bits 16\n\nmov al, 5\n; al: 0x00 -> 0x05\nmov ah, 3\n; ah: 0x00 -> 0x03\n"
    );
    assert_eq!(cpu.read(Reg::Ax), 0x0305);
    assert_eq!(cpu.ax.get(), 0x0305);
}

#[test]
fn scenario_truncated_after_opcode_names_its_offset() {
    let mut cpu = CpuState::new();
    assert_eq!(
        disassemble(&[0x89], false, &mut cpu),
        Err(DecodeError::TruncatedInput { offset: 0 })
    );
    assert_eq!(
        disassemble(&[0x04, 0x09, 0x89], false, &mut cpu),
        Err(DecodeError::TruncatedInput { offset: 2 })
    );
}

#[test]
fn direction_bit_sets_operand_order() {
    assert_eq!(body(&[0x8B, 0xD9]), "mov bx, cx\n");
    assert_eq!(body(&[0x89, 0xD9]), "mov cx, bx\n");
    assert_eq!(body(&[0x88, 0xE0]), "mov al, ah\n");
    assert_eq!(body(&[0x8A, 0xE0]), "mov ah, al\n");
}

#[test]
fn word_immediates_are_little_endian() {
    assert_eq!(body(&[0xB9, 0x34, 0x12]), "mov cx, 4660\n");
    assert_eq!(body(&[0xBA, 0x6C, 0xF0]), "mov dx, -3988\n");
    assert_eq!(body(&[0x81, 0xC3, 0x6C, 0xF0]), "add bx, 61548\n");
    assert_eq!(body(&[0x83, 0xC3, 0x6C, 0xF0]), "add bx, -3988\n");
}

#[test]
fn zero_displacement_keeps_plus_zero() {
    assert_eq!(body(&[0x8B, 0x46, 0x00]), "mov ax, [bp+0]\n");
    assert_eq!(body(&[0x8B, 0x86, 0x00, 0x00]), "mov ax, [bp+0]\n");
}

#[test]
fn memory_modes() {
    assert_eq!(body(&[0x8A, 0x00]), "mov al, [bx+si]\n");
    assert_eq!(body(&[0x8B, 0x5E, 0xFC]), "mov bx, [bp-4]\n");
    assert_eq!(body(&[0x89, 0x87, 0x10, 0x27]), "mov [bx+10000], ax\n");
    assert_eq!(body(&[0x8B, 0x97, 0x00, 0x80]), "mov dx, [bx-32768]\n");
    assert_eq!(body(&[0x8B, 0x2E, 0x05, 0x00]), "mov bp, [5]\n");
    assert_eq!(body(&[0x89, 0x2E, 0x05, 0x00]), "mov [5], bp\n");
}

#[test]
fn add_sub_cmp_register_forms() {
    assert_eq!(body(&[0x03, 0x18]), "add bx, [bx+si]\n");
    assert_eq!(body(&[0x29, 0xD8]), "sub ax, bx\n");
    assert_eq!(body(&[0x39, 0xD8]), "cmp ax, bx\n");
    assert_eq!(body(&[0x02, 0x7A, 0x04]), "add bh, [bp+si+4]\n");
}

#[test]
fn arithmetic_immediate_forms() {
    assert_eq!(body(&[0x83, 0xC6, 0x02, 0x00]), "add si, 2\n");
    assert_eq!(body(&[0x80, 0x2F, 0xFF]), "sub [bx], byte 255\n");
    assert_eq!(body(&[0x82, 0x2F, 0xFF]), "sub [bx], byte -1\n");
    assert_eq!(body(&[0x81, 0x7E, 0x02, 0x10, 0x27]), "cmp [bp+2], word 10000\n");
    assert_eq!(body(&[0x83, 0x3E, 0xE2, 0x12, 0x1D, 0x00]), "cmp [4834], word 29\n");
}

#[test]
fn arithmetic_immediate_unknown_sub_opcode_is_malformed() {
    let mut cpu = CpuState::new();
    assert_eq!(
        disassemble(&[0xB0, 0x01, 0x80, 0x08, 0x01], false, &mut cpu),
        Err(DecodeError::MalformedInstruction { offset: 2 })
    );
}

#[test]
fn accumulator_immediate_forms() {
    assert_eq!(body(&[0x04, 0x09]), "add al, 9\n");
    assert_eq!(body(&[0x05, 0xE8, 0x03]), "add ax, 1000\n");
    assert_eq!(body(&[0x2C, 0x05]), "sub al, 5\n");
    assert_eq!(body(&[0x3D, 0xFF, 0xFF]), "cmp ax, -1\n");
    assert_eq!(body(&[0x3C, 0xFF]), "cmp al, 255\n");
}

#[test]
fn mov_immediate_to_register_or_memory() {
    assert_eq!(body(&[0xC6, 0x03, 0x07]), "mov [bp+di], byte 7\n");
    assert_eq!(body(&[0xC7, 0x85, 0x85, 0x03, 0x5B, 0x01]), "mov [di+901], word 347\n");
    assert_eq!(body(&[0xC7, 0xC0, 0x01, 0x00]), "mov ax, 1\n");
    assert_eq!(body(&[0xB1, 0xFF]), "mov cl, 255\n");
}

#[test]
fn mov_immediate_to_memory_with_nonzero_reg_is_malformed() {
    let mut cpu = CpuState::new();
    assert_eq!(
        disassemble(&[0xC6, 0x08, 0x01], false, &mut cpu),
        Err(DecodeError::MalformedInstruction { offset: 0 })
    );
}

#[test]
fn accumulator_memory_forms() {
    assert_eq!(body(&[0xA1, 0xFB, 0x09]), "mov ax, [2555]\n");
    assert_eq!(body(&[0xA2, 0xFA, 0x09]), "mov [2554], al\n");
    assert_eq!(body(&[0xA0, 0xFF, 0xFF]), "mov al, [-1]\n");
}

#[test]
fn conditional_jumps() {
    assert_eq!(
        body(&[0x7C, 0x05, 0x7E, 0x80, 0x72, 0x00, 0x76, 0x7F]),
        "jl 5\njle -128\njb 0\njbe 127\n"
    );
}

#[test]
fn unrecognized_bytes_are_skipped() {
    assert_eq!(body(&[0x90, 0xB8, 0x01, 0x00, 0xF4]), "mov ax, 1\n");
    assert_eq!(listing(&[]), "bits 16\n\n");
}

#[test]
fn truncation_inside_operands() {
    let mut cpu = CpuState::new();
    assert_eq!(
        disassemble(&[0x8B, 0x46], false, &mut cpu),
        Err(DecodeError::TruncatedInput { offset: 0 })
    );
    assert_eq!(
        disassemble(&[0xB0], false, &mut cpu),
        Err(DecodeError::TruncatedInput { offset: 0 })
    );
    assert_eq!(
        disassemble(&[0x90, 0xC7, 0x85, 0x85, 0x03, 0x5B], false, &mut cpu),
        Err(DecodeError::TruncatedInput { offset: 1 })
    );
    assert_eq!(
        disassemble(&[0x74], false, &mut cpu),
        Err(DecodeError::TruncatedInput { offset: 0 })
    );
}

#[test]
fn simulation_copies_registers_and_ignores_other_instructions() {
    let mut cpu = CpuState::new();
    let text = disassemble(
        &[0xB8, 0x34, 0x12, 0x89, 0xC3, 0x04, 0x09, 0xB4, 0x03, 0x89, 0x07],
        true,
        &mut cpu,
    )
    .expect("decodes");
    assert_eq!(
        text,
        "bits 16\n\nmov ax, 4660\n; ax: 0x00 -> 0x1234\nmov bx, ax\n; bx: 0x00 -> 0x1234\n\
         add al, 9\nmov ah, 3\n; ah: 0x12 -> 0x03\nmov [bx], ax\n"
    );
    assert_eq!(cpu.read(Reg::Ax), 0x0334);
    assert_eq!(cpu.read(Reg::Bx), 0x1234);
}

#[test]
fn failed_run_leaves_registers_alone() {
    let mut cpu = CpuState::new();
    assert!(disassemble(&[0xB8, 0x34, 0x12, 0x89], true, &mut cpu).is_err());
    assert_eq!(cpu.read(Reg::Ax), 0);
}
