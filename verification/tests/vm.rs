use lc3_vm::decode::{encode, Instruction, JsrTarget, Operand};
use lc3_vm::machine::{CondFlag, StepOutcome, Vm, VmErrorKind};
use lc3_vm::trap::TrapCode;

#[test]
fn new_machine_is_zeroed() {
    let vm = Vm::new();
    assert_eq!(vm.regs.len(), 8);
    assert_eq!(vm.mem.len(), 0x10000);
    assert_eq!(vm.pc, 0);
    assert_eq!(vm.cond, CondFlag::Zro);
    assert!(vm.regs.iter().all(|&r| r == 0));
    assert_eq!(vm.mem[0x3000], 0);
}

#[test]
fn set_flags_zero_negative_positive() {
    let mut vm = Vm::new();
    vm.set_flags(0);
    assert_eq!(vm.cond, CondFlag::Zro);
    vm.set_flags(0xFFFF); // -1 as a signed word
    assert_eq!(vm.cond, CondFlag::Neg);
    vm.set_flags(1);
    assert_eq!(vm.cond, CondFlag::Pos);
    // The flag state is a single tagged value: setting one flag leaves
    // exactly one active.
    assert!(vm.cond == CondFlag::Pos && vm.cond != CondFlag::Zro && vm.cond != CondFlag::Neg);
}

#[test]
fn mem_write_then_read_is_plain_storage() {
    let mut vm = Vm::new();
    vm.mem_write(0x1234, 0xBEEF);
    assert_eq!(vm.mem_read(0x1234, None), 0xBEEF);
    vm.mem_write(0x0000, 7);
    vm.mem_write(0xFFFF, 8);
    assert_eq!(vm.mem_read(0x0000, None), 7);
    assert_eq!(vm.mem_read(0xFFFF, None), 8);
}

#[test]
fn keyboard_status_poll_protocol() {
    let mut vm = Vm::new();
    // A keystroke pending: the status register's high bit is set and the
    // data register holds the keystroke.
    assert_eq!(vm.mem_read(0xFE00, Some(65)), 0x8000);
    assert_eq!(vm.mem_read(0xFE02, None), 65);
    // No keystroke pending: the status register reads clear.
    assert_eq!(vm.mem_read(0xFE00, None), 0);
}

#[test]
fn increment_pc_wraps() {
    let mut vm = Vm::new();
    vm.pc = 0xFFFF;
    vm.increment_pc();
    assert_eq!(vm.pc, 0);
    vm.increment_pc();
    assert_eq!(vm.pc, 1);
}

#[test]
fn add_immediate_sets_register_and_flag() {
    // R1 = 5; ADD R0, R1, #3 leaves R0 = 8 and the POS flag.
    let mut vm = Vm::new();
    vm.regs[1] = 5;
    vm.pc = 0x3000;
    let w = encode(Instruction::Add { dr: 0, sr1: 1, operand: Operand::Imm(3) });
    vm.mem_write(0x3000, w);
    let mut out = Vec::new();
    let r = vm.step(None, &mut out);
    assert_eq!(r, StepOutcome::Continue);
    assert_eq!(vm.regs[0], 8);
    assert_eq!(vm.cond, CondFlag::Pos);
    assert_eq!(vm.pc, 0x3001);
    assert!(out.is_empty());
}

#[test]
fn add_wraps_and_sets_zero_flag() {
    let mut vm = Vm::new();
    vm.regs[1] = 0xFFFF;
    vm.pc = 0x3000;
    let w = encode(Instruction::Add { dr: 0, sr1: 1, operand: Operand::Imm(1) });
    vm.mem_write(0x3000, w);
    let mut out = Vec::new();
    vm.step(None, &mut out);
    assert_eq!(vm.regs[0], 0);
    assert_eq!(vm.cond, CondFlag::Zro);
}

#[test]
fn and_not_semantics() {
    let mut vm = Vm::new();
    vm.regs[1] = 0b1100;
    vm.regs[2] = 0b1010;
    vm.pc = 0x3000;
    vm.mem_write(0x3000, encode(Instruction::And { dr: 0, sr1: 1, operand: Operand::Reg(2) }));
    vm.mem_write(0x3001, encode(Instruction::Not { dr: 3, sr: 0 }));
    let mut out = Vec::new();
    vm.step(None, &mut out);
    assert_eq!(vm.regs[0], 0b1000);
    assert_eq!(vm.cond, CondFlag::Pos);
    vm.step(None, &mut out);
    assert_eq!(vm.regs[3], !0b1000u16);
    assert_eq!(vm.cond, CondFlag::Neg);
}

#[test]
fn ld_st_ldr_str_lea() {
    let mut vm = Vm::new();
    vm.pc = 0x3000;
    vm.mem_write(0x3005, 1234);
    // LD R1, #4 -> reads 0x3001 + 4
    vm.mem_write(0x3000, encode(Instruction::Ld { dr: 1, pc_offset: 4 }));
    // ST R1, #5 -> writes 0x3002 + 5
    vm.mem_write(0x3001, encode(Instruction::St { sr: 1, pc_offset: 5 }));
    // LEA R2, #1 -> R2 = 0x3003 + 1
    vm.mem_write(0x3002, encode(Instruction::Lea { dr: 2, pc_offset: 1 }));
    // LDR R3, R2, #3 -> reads R2 + 3 = 0x3007
    vm.mem_write(0x3003, encode(Instruction::Ldr { dr: 3, base: 2, offset: 3 }));
    // STR R3, R2, #4 -> writes R2 + 4 = 0x3008
    vm.mem_write(0x3004, encode(Instruction::Str { sr: 3, base: 2, offset: 4 }));
    let mut out = Vec::new();
    vm.step(None, &mut out);
    assert_eq!(vm.regs[1], 1234);
    assert_eq!(vm.cond, CondFlag::Pos);
    vm.step(None, &mut out);
    assert_eq!(vm.mem[0x3007], 1234);
    vm.step(None, &mut out);
    assert_eq!(vm.regs[2], 0x3004);
    vm.step(None, &mut out);
    assert_eq!(vm.regs[3], 1234);
    vm.step(None, &mut out);
    assert_eq!(vm.mem[0x3008], 1234);
}

#[test]
fn ldi_follows_one_indirection() {
    // Memory[100] = 200, Memory[200] = 42: the PC-relative read lands on
    // address 100, and the loaded register receives 42.
    let mut vm = Vm::new();
    vm.mem_write(100, 200);
    vm.mem_write(200, 42);
    vm.pc = 90;
    // Fetched at 90, the offset is taken from 91: 91 + 9 = 100.
    vm.mem_write(90, encode(Instruction::Ldi { dr: 3, pc_offset: 9 }));
    let mut out = Vec::new();
    let r = vm.step(None, &mut out);
    assert_eq!(r, StepOutcome::Continue);
    assert_eq!(vm.regs[3], 42);
    assert_eq!(vm.cond, CondFlag::Pos);
}

#[test]
fn sti_stores_through_indirection() {
    let mut vm = Vm::new();
    vm.mem_write(100, 200);
    vm.regs[5] = 777;
    vm.pc = 90;
    vm.mem_write(90, encode(Instruction::Sti { sr: 5, pc_offset: 9 }));
    let mut out = Vec::new();
    vm.step(None, &mut out);
    assert_eq!(vm.mem[200], 777);
}

#[test]
fn br_taken_and_not_taken() {
    let mut vm = Vm::new();
    vm.pc = 0x3000;
    vm.cond = CondFlag::Zro;
    vm.mem_write(
        0x3000,
        encode(Instruction::Br { n: false, z: true, p: false, pc_offset: 5 }),
    );
    let mut out = Vec::new();
    vm.step(None, &mut out);
    assert_eq!(vm.pc, 0x3006); // 0x3001 + 5
    // A branch whose condition bits miss the active flag falls through.
    vm.pc = 0x3000;
    vm.cond = CondFlag::Pos;
    vm.step(None, &mut out);
    assert_eq!(vm.pc, 0x3001);
}

#[test]
fn jsr_then_jmp_returns_past_the_jsr() {
    // JSR to address A, then JMP through R7, lands on the instruction after
    // the JSR.
    let mut vm = Vm::new();
    vm.pc = 0x3000;
    // JSR #4: jumps to 0x3001 + 4 = 0x3005, R7 = 0x3001.
    vm.mem_write(0x3000, encode(Instruction::Jsr { target: JsrTarget::Offset(4) }));
    vm.mem_write(0x3005, encode(Instruction::Jmp { base: 7 }));
    let mut out = Vec::new();
    vm.step(None, &mut out);
    assert_eq!(vm.pc, 0x3005);
    assert_eq!(vm.regs[7], 0x3001);
    vm.step(None, &mut out);
    assert_eq!(vm.pc, 0x3001);
}

#[test]
fn jsr_register_form_saves_link_first() {
    let mut vm = Vm::new();
    vm.pc = 0x3000;
    vm.regs[4] = 0x4000;
    vm.mem_write(0x3000, encode(Instruction::Jsr { target: JsrTarget::Reg(4) }));
    let mut out = Vec::new();
    vm.step(None, &mut out);
    assert_eq!(vm.pc, 0x4000);
    assert_eq!(vm.regs[7], 0x3001);
}

#[test]
fn trap_halt_stops_before_anything_else_runs() {
    // A two-instruction program whose first word is TRAP HALT executes no
    // other instruction and ends normally.
    let mut vm = Vm::new();
    vm.pc = 0x3000;
    vm.mem_write(0x3000, 0xF025);
    vm.mem_write(0x3001, encode(Instruction::Add { dr: 0, sr1: 0, operand: Operand::Imm(1) }));
    let mut out = Vec::new();
    let r = vm.run(10, &mut out);
    assert_eq!(r, StepOutcome::Halted);
    assert_eq!(vm.pc, 0x3001);
    assert_eq!(vm.regs[0], 0); // the ADD after the HALT never ran
    assert!(out.is_empty());
}

#[test]
fn trap_puts_writes_exactly_the_string() {
    // Memory from 3000 holds 72, 73, 0: PUTS writes exactly "HI".
    let mut vm = Vm::new();
    vm.mem_write(3000, 72);
    vm.mem_write(3001, 73);
    vm.mem_write(3002, 0);
    vm.regs[0] = 3000;
    vm.pc = 500;
    vm.mem_write(500, 0xF022);
    let mut out = Vec::new();
    let r = vm.step(None, &mut out);
    assert_eq!(r, StepOutcome::Continue);
    assert_eq!(out, b"HI".to_vec());
}

#[test]
fn trap_putsp_unpacks_two_chars_per_word() {
    let mut vm = Vm::new();
    // "HI": H = 0x48 in the low byte, I = 0x49 in the high byte.
    vm.mem_write(400, 0x4948);
    vm.mem_write(401, 0);
    vm.regs[0] = 400;
    vm.pc = 500;
    vm.mem_write(500, 0xF024);
    let mut out = Vec::new();
    vm.step(None, &mut out);
    assert_eq!(out, b"HI".to_vec());
}

#[test]
fn trap_putsp_stops_at_zero_high_byte() {
    let mut vm = Vm::new();
    vm.mem_write(400, 0x4241); // "AB"
    vm.mem_write(401, 0x0058); // "X" then a zero high byte
    vm.mem_write(402, 0x5A59); // never reached
    vm.regs[0] = 400;
    vm.pc = 500;
    vm.mem_write(500, 0xF024);
    let mut out = Vec::new();
    vm.step(None, &mut out);
    assert_eq!(out, b"ABX".to_vec());
}

#[test]
fn trap_out_writes_low_byte() {
    let mut vm = Vm::new();
    vm.regs[0] = 0x0141; // low byte is 'A'
    vm.pc = 500;
    vm.mem_write(500, 0xF021);
    let mut out = Vec::new();
    vm.step(None, &mut out);
    assert_eq!(out, b"A".to_vec());
}

#[test]
fn trap_getc_stores_keystroke_without_echo() {
    let mut vm = Vm::new();
    vm.pc = 500;
    vm.mem_write(500, 0xF020);
    let mut out = Vec::new();
    let r = vm.step(Some(b'x'), &mut out);
    assert_eq!(r, StepOutcome::Continue);
    assert_eq!(vm.regs[0], b'x' as u16);
    assert!(out.is_empty());
}

#[test]
fn trap_getc_without_keystroke_waits() {
    let mut vm = Vm::new();
    vm.pc = 500;
    vm.mem_write(500, 0xF020);
    let mut out = Vec::new();
    let r = vm.step(None, &mut out);
    assert_eq!(r, StepOutcome::NeedInput);
    // The program counter has not moved: the step is retried with a key.
    assert_eq!(vm.pc, 500);
    assert!(out.is_empty());
    let r = vm.step(Some(b'q'), &mut out);
    assert_eq!(r, StepOutcome::Continue);
    assert_eq!(vm.regs[0], b'q' as u16);
    assert_eq!(vm.pc, 501);
}

#[test]
fn trap_in_prompts_and_echoes() {
    let mut vm = Vm::new();
    vm.pc = 500;
    vm.mem_write(500, 0xF023);
    let mut out = Vec::new();
    let r = vm.step(Some(b'k'), &mut out);
    assert_eq!(r, StepOutcome::Continue);
    assert_eq!(vm.regs[0], b'k' as u16);
    assert_eq!(out, b"Enter a character: k".to_vec());
}

#[test]
fn undefined_trap_vector_is_fatal() {
    let mut vm = Vm::new();
    vm.pc = 500;
    vm.mem_write(500, 0xF026);
    let mut out = Vec::new();
    let r = vm.step(None, &mut out);
    assert_eq!(
        r,
        StepOutcome::Fatal { kind: VmErrorKind::UndefinedTrapVector, pc: 501 }
    );
}

#[test]
fn reserved_opcodes_fault_fatally() {
    // Tag 8 (RTI) and tag 13 (RES) halt with a ReservedOpcode diagnostic,
    // not a silent no-op.
    for raw in [0x8000u16, 0xD000u16] {
        let mut vm = Vm::new();
        vm.pc = 0x3000;
        vm.mem_write(0x3000, raw);
        let mut out = Vec::new();
        let r = vm.run(10, &mut out);
        assert_eq!(
            r,
            StepOutcome::Fatal { kind: VmErrorKind::ReservedOpcode, pc: 0x3001 }
        );
    }
}

#[test]
fn run_executes_a_small_program() {
    // R0 = 1 + 2 + 3 via three ADD immediates, then HALT.
    let mut vm = Vm::new();
    vm.pc = 0x3000;
    for (i, imm) in [1i32, 2, 3].iter().enumerate() {
        let w = encode(Instruction::Add { dr: 0, sr1: 0, operand: Operand::Imm(*imm as u16) });
        vm.mem_write(0x3000 + i as u16, w);
    }
    vm.mem_write(0x3003, 0xF025);
    let mut out = Vec::new();
    let r = vm.run(100, &mut out);
    assert_eq!(r, StepOutcome::Halted);
    assert_eq!(vm.regs[0], 6);
    assert_eq!(vm.cond, CondFlag::Pos);
}

#[test]
fn run_out_of_fuel_continues() {
    // An endless branch-to-self: the budget runs out and the machine still
    // signals Continue.
    let mut vm = Vm::new();
    vm.pc = 0x3000;
    vm.mem_write(
        0x3000,
        encode(Instruction::Br { n: true, z: true, p: true, pc_offset: 0xFFFF }),
    );
    let mut out = Vec::new();
    let r = vm.run(5, &mut out);
    assert_eq!(r, StepOutcome::Continue);
    assert_eq!(vm.pc, 0x3000);
}

#[test]
fn load_image_sets_origin_and_memory() {
    let mut vm = Vm::new();
    let image = vec![0x30, 0x00, 0x12, 0x34, 0xF0, 0x25];
    let r = vm.load_image(&image);
    assert_eq!(r, Some(0x3000));
    assert_eq!(vm.pc, 0x3000);
    assert_eq!(vm.mem[0x3000], 0x1234);
    assert_eq!(vm.mem[0x3001], 0xF025);
    assert_eq!(vm.mem[0x3002], 0);
}

#[test]
fn load_image_odd_tail_is_a_high_byte() {
    let mut vm = Vm::new();
    let image = vec![0x40, 0x00, 0xAB];
    let r = vm.load_image(&image);
    assert_eq!(r, Some(0x4000));
    assert_eq!(vm.mem[0x4000], 0xAB00);
}

#[test]
fn load_image_rejects_short_or_oversized() {
    let mut vm = Vm::new();
    assert_eq!(vm.load_image(&vec![0x30]), None);
    // Two data words starting at 0xFFFF would run past the top of memory.
    assert_eq!(vm.load_image(&vec![0xFF, 0xFF, 1, 2, 3, 4]), None);
    assert_eq!(vm.pc, 0); // untouched
}

#[test]
fn trapcode_from_u16_mapping() {
    assert!(matches!(TrapCode::from_u16(0xF020), TrapCode::GETC));
    assert!(matches!(TrapCode::from_u16(0xF021), TrapCode::OUT));
    assert!(matches!(TrapCode::from_u16(0xF022), TrapCode::PUTS));
    assert!(matches!(TrapCode::from_u16(0xF023), TrapCode::IN));
    assert!(matches!(TrapCode::from_u16(0xF024), TrapCode::PUTSP));
    assert!(matches!(TrapCode::from_u16(0xF025), TrapCode::HALT));
    assert!(matches!(TrapCode::from_u16(0xF026), TrapCode::ERR));
}

#[test]
fn fetch_from_keyboard_status_register_polls() {
    // Executing code at the status register's address is absurd but defined:
    // the fetch itself polls the keyboard.
    let mut vm = Vm::new();
    vm.pc = 0xFE00;
    let mut out = Vec::new();
    // No key pending: the fetched word is 0, which decodes as BR with no
    // condition bits — a no-op.
    let r = vm.step(None, &mut out);
    assert_eq!(r, StepOutcome::Continue);
    assert_eq!(vm.pc, 0xFE01);
    assert_eq!(vm.mem[0xFE00], 0);
}
