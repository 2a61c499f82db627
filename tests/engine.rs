use chip8::{Cpu, Error, Instruction, Opcode};

fn machine_with(program: &[u8]) -> Cpu {
    let mut cpu = Cpu::new();
    cpu.load_program(program).unwrap();
    cpu
}

fn run_steps(cpu: &mut Cpu, n: usize) {
    for _ in 0..n {
        cpu.step().unwrap();
    }
}

#[test]
fn decode_unlisted_words_carry_their_value() {
    for w in 0u32..=0xFFFF {
        let w = w as u16;
        let ins = Instruction::decode(Opcode((w >> 8) as u8, w as u8));
        if let Instruction::NotImplemented(v) = ins {
            assert_eq!(v, w);
        }
    }
    assert_eq!(Instruction::decode(Opcode(0x00, 0x00)), Instruction::NotImplemented(0x0000));
    assert_eq!(Instruction::decode(Opcode(0x05, 0xEE)), Instruction::NotImplemented(0x05EE));
    assert_eq!(Instruction::decode(Opcode(0x80, 0x16)), Instruction::NotImplemented(0x8016));
    assert_eq!(Instruction::decode(Opcode(0x5A, 0xB0)), Instruction::NotImplemented(0x5AB0));
    assert_eq!(Instruction::decode(Opcode(0xE3, 0x9E)), Instruction::NotImplemented(0xE39E));
    assert_eq!(Instruction::decode(Opcode(0xF2, 0x0A)), Instruction::NotImplemented(0xF20A));
}

#[test]
fn decode_each_family() {
    let d = |hi: u8, lo: u8| Instruction::decode(Opcode(hi, lo));
    assert_eq!(d(0x00, 0xEE), Instruction::Return);
    assert_eq!(d(0x1A, 0xBC), Instruction::Jump(0xABC));
    assert_eq!(d(0x2F, 0x01), Instruction::Call(0xF01));
    assert_eq!(d(0x33, 0x44), Instruction::SkipIfEqual(3, 0x44));
    assert_eq!(d(0x4E, 0x01), Instruction::SkipIfNotEqual(0xE, 0x01));
    assert_eq!(d(0x6A, 0x3C), Instruction::LoadConstant(0xA, 0x3C));
    assert_eq!(d(0x71, 0xFF), Instruction::AddConstant(1, 0xFF));
    assert_eq!(d(0x81, 0x20), Instruction::Load(1, 2));
    assert_eq!(d(0x81, 0x22), Instruction::And(1, 2));
    assert_eq!(d(0x81, 0x24), Instruction::Add(1, 2));
    assert_eq!(d(0x81, 0x25), Instruction::Sub(1, 2));
    assert_eq!(d(0xA3, 0x00), Instruction::SetAddress(0x300));
    assert_eq!(d(0xC2, 0x0F), Instruction::RandomAnd(2, 0x0F));
    assert_eq!(d(0xD1, 0x2F), Instruction::Draw(1, 2, 0xF));
    assert_eq!(d(0xE5, 0xA1), Instruction::SkipIfNotPressed(5));
    assert_eq!(d(0xF6, 0x07), Instruction::LoadDelay(6));
    assert_eq!(d(0xF6, 0x15), Instruction::SetDelay(6));
    assert_eq!(d(0xF6, 0x29), Instruction::SetFontLocation(6));
    assert_eq!(d(0xF6, 0x33), Instruction::SetBCD(6));
    assert_eq!(d(0xF6, 0x65), Instruction::LoadRegisters(6));
}

#[test]
fn fresh_machine() {
    let cpu = Cpu::new();
    assert_eq!(cpu.pc(), 0x200);
    assert_eq!(cpu.sp(), 0);
    assert_eq!(cpu.index(), 0);
    assert_eq!(cpu.memory_at(0), 0xF0);
    assert_eq!(cpu.memory_at(5), 0x20);
    assert_eq!(cpu.memory_at(79), 0x80);
    assert_eq!(cpu.memory_at(80), 0);
    for x in 0..16 {
        assert_eq!(cpu.register(x), 0);
        assert!(!cpu.key_pressed(x));
    }
    assert_eq!(cpu.delay_timer(), 0);
    assert_eq!(cpu.sound_timer(), 0);
    assert!(cpu.vram.iter().all(|&c| c == 0));
}

#[test]
fn empty_program_fails_on_zero_word() {
    let mut cpu = Cpu::new();
    assert_eq!(cpu.step(), Err(Error::InstructionNotImplemented(0x0000)));
    assert_eq!(cpu.pc(), 0x200);
}

#[test]
fn load_constant_sets_register_and_advances() {
    let mut cpu = machine_with(&[0x6A, 0x3C]);
    cpu.step().unwrap();
    assert_eq!(cpu.register(0xA), 0x3C);
    assert_eq!(cpu.pc(), 0x202);
}

#[test]
fn add_with_carry() {
    let mut cpu = machine_with(&[0x60, 250, 0x61, 10, 0x80, 0x14]);
    run_steps(&mut cpu, 3);
    assert_eq!(cpu.register(0), 4);
    assert_eq!(cpu.register(0xF), 1);
}

#[test]
fn add_without_carry() {
    let mut cpu = machine_with(&[0x60, 25, 0x61, 10, 0x80, 0x14]);
    run_steps(&mut cpu, 3);
    assert_eq!(cpu.register(0), 35);
    assert_eq!(cpu.register(0xF), 0);
}

#[test]
fn sub_borrow_flag() {
    let mut cpu = machine_with(&[0x60, 5, 0x61, 10, 0x80, 0x15]);
    run_steps(&mut cpu, 3);
    assert_eq!(cpu.register(0), 251);
    assert_eq!(cpu.register(0xF), 0);
}

#[test]
fn sub_without_borrow() {
    let mut cpu = machine_with(&[0x60, 10, 0x61, 5, 0x80, 0x15]);
    run_steps(&mut cpu, 3);
    assert_eq!(cpu.register(0), 5);
    assert_eq!(cpu.register(0xF), 1);
}

#[test]
fn bcd_decomposition() {
    let mut cpu = machine_with(&[0x60, 234, 0xA3, 0x00, 0xF0, 0x33]);
    run_steps(&mut cpu, 3);
    assert_eq!(cpu.memory_at(0x300), 2);
    assert_eq!(cpu.memory_at(0x301), 3);
    assert_eq!(cpu.memory_at(0x302), 4);
}

#[test]
fn draw_twice_restores_screen() {
    // glyph 0 at column 62, row 30: wraps on both axes
    let mut cpu = machine_with(&[0x63, 62, 0x64, 30, 0xA0, 0x00, 0xD3, 0x45, 0xD3, 0x45]);
    run_steps(&mut cpu, 4);
    assert_eq!(cpu.register(0xF), 0);
    assert!(cpu.pixel_lit(62, 30));
    assert!(cpu.pixel_lit(1, 30));
    assert!(!cpu.pixel_lit(2, 30));
    assert!(cpu.pixel_lit(62, 2));
    assert!(!cpu.pixel_lit(63, 31));
    let lit = cpu.vram.iter().filter(|&&c| c & 1 == 1).count();
    assert_eq!(lit, 14);
    cpu.step().unwrap();
    assert_eq!(cpu.register(0xF), 1);
    assert!(cpu.vram.iter().all(|&c| c == 0));
    assert_eq!(cpu.pc(), 0x20A);
}

#[test]
fn draw_on_dark_screen_has_no_collision() {
    let mut cpu = machine_with(&[0x6F, 1, 0xA0, 0x05, 0xD0, 0x01]);
    run_steps(&mut cpu, 3);
    assert_eq!(cpu.register(0xF), 0);
    // glyph 1 starts with 0x20: one pixel at column 2
    assert!(cpu.pixel_lit(2, 0));
    assert!(!cpu.pixel_lit(3, 0));
}

#[test]
fn call_return_round_trip() {
    let mut program = vec![0u8; 0x202];
    program[0] = 0x24;
    program[1] = 0x00;
    program[0x200] = 0x00;
    program[0x201] = 0xEE;
    let mut cpu = machine_with(&program);
    cpu.step().unwrap();
    assert_eq!(cpu.sp(), 1);
    assert_eq!(cpu.stack_entry(0), 0x200);
    assert_eq!(cpu.pc(), 0x400);
    cpu.step().unwrap();
    assert_eq!(cpu.sp(), 0);
    assert_eq!(cpu.pc(), 0x200);
}

#[test]
fn skip_if_equal_taken_and_not() {
    let mut cpu = machine_with(&[0x63, 0x05, 0x33, 0x05]);
    run_steps(&mut cpu, 2);
    assert_eq!(cpu.pc(), 0x202 + 4);
    let mut cpu = machine_with(&[0x63, 0x05, 0x33, 0x06]);
    run_steps(&mut cpu, 2);
    assert_eq!(cpu.pc(), 0x202 + 2);
}

#[test]
fn skip_if_not_equal_taken_and_not() {
    let mut cpu = machine_with(&[0x43, 0x05]);
    cpu.step().unwrap();
    assert_eq!(cpu.pc(), 0x204);
    let mut cpu = machine_with(&[0x43, 0x00]);
    cpu.step().unwrap();
    assert_eq!(cpu.pc(), 0x202);
}

#[test]
fn skip_if_not_pressed() {
    let mut cpu = machine_with(&[0xE7, 0xA1]);
    cpu.step().unwrap();
    assert_eq!(cpu.pc(), 0x204);
    let mut cpu = machine_with(&[0xE7, 0xA1]);
    cpu.set_key(7, true);
    assert!(cpu.key_pressed(7));
    cpu.step().unwrap();
    assert_eq!(cpu.pc(), 0x202);
}

#[test]
fn jump_sets_pc() {
    let mut cpu = machine_with(&[0x13, 0x45]);
    cpu.step().unwrap();
    assert_eq!(cpu.pc(), 0x345);
}

#[test]
fn add_constant_wraps() {
    let mut cpu = machine_with(&[0x60, 0xFF, 0x70, 0x02]);
    run_steps(&mut cpu, 2);
    assert_eq!(cpu.register(0), 1);
    assert_eq!(cpu.register(0xF), 0);
}

#[test]
fn load_and_and() {
    let mut cpu = machine_with(&[0x60, 0b1100, 0x61, 0b1010, 0x82, 0x10, 0x80, 0x12]);
    run_steps(&mut cpu, 4);
    assert_eq!(cpu.register(2), 0b1010);
    assert_eq!(cpu.register(0), 0b1000);
}

#[test]
fn delay_timer_counts_down_per_step() {
    let mut cpu = machine_with(&[0x60, 5, 0xF0, 0x15, 0xF1, 0x07]);
    run_steps(&mut cpu, 2);
    assert_eq!(cpu.delay_timer(), 4);
    cpu.step().unwrap();
    assert_eq!(cpu.register(1), 4);
    assert_eq!(cpu.delay_timer(), 3);
    assert_eq!(cpu.sound_timer(), 0);
}

#[test]
fn font_location_of_digit() {
    let mut cpu = machine_with(&[0x6A, 0x0A, 0xFA, 0x29]);
    run_steps(&mut cpu, 2);
    assert_eq!(cpu.index(), 50);
}

#[test]
fn load_registers_from_memory() {
    let mut cpu = machine_with(&[0x6F, 9, 0xA2, 0x08, 0xF2, 0x65, 0x00, 0x00, 7, 8, 9, 10]);
    run_steps(&mut cpu, 3);
    assert_eq!(cpu.register(0), 7);
    assert_eq!(cpu.register(1), 8);
    assert_eq!(cpu.register(2), 9);
    assert_eq!(cpu.register(3), 0);
    assert_eq!(cpu.register(0xF), 9);
}

#[test]
fn random_and_masks() {
    for _ in 0..32 {
        let mut cpu = machine_with(&[0xC0, 0x0F]);
        cpu.step().unwrap();
        assert_eq!(cpu.register(0) & 0xF0, 0);
        assert_eq!(cpu.pc(), 0x202);
    }
}

#[test]
fn execute_with_given_byte() {
    let mut cpu = Cpu::new();
    cpu.execute_with(Instruction::RandomAnd(4, 0x3C), 0xF5).unwrap();
    assert_eq!(cpu.register(4), 0x34);
    assert_eq!(cpu.pc(), 0x202);
}

#[test]
fn step_with_given_byte() {
    let mut cpu = machine_with(&[0xC1, 0xF0]);
    cpu.step_with(0xAB).unwrap();
    assert_eq!(cpu.register(1), 0xA0);
}

#[test]
fn execute_leaves_timers() {
    let mut cpu = Cpu::new();
    cpu.execute(Instruction::LoadConstant(0, 9)).unwrap();
    cpu.execute(Instruction::SetDelay(0)).unwrap();
    assert_eq!(cpu.delay_timer(), 9);
    assert_eq!(cpu.pc(), 0x204);
}

#[test]
fn stack_overflow_is_reported() {
    let mut cpu = machine_with(&[0x22, 0x00]);
    run_steps(&mut cpu, 16);
    assert_eq!(cpu.sp(), 16);
    assert_eq!(cpu.step(), Err(Error::StackOverflow));
    assert_eq!(cpu.sp(), 16);
    assert_eq!(cpu.pc(), 0x200);
}

#[test]
fn stack_underflow_is_reported() {
    let mut cpu = machine_with(&[0x00, 0xEE]);
    assert_eq!(cpu.step(), Err(Error::StackUnderflow));
    assert_eq!(cpu.pc(), 0x200);
}

#[test]
fn draw_past_memory_end_is_reported() {
    let mut cpu = machine_with(&[0xAF, 0xFF, 0xD0, 0x02]);
    cpu.step().unwrap();
    assert_eq!(cpu.step(), Err(Error::AddressOutOfRange));
    assert_eq!(cpu.pc(), 0x202);
    assert!(cpu.vram.iter().all(|&c| c == 0));
}

#[test]
fn bcd_past_memory_end_is_reported() {
    let mut cpu = machine_with(&[0xAF, 0xFE, 0xF0, 0x33]);
    cpu.step().unwrap();
    assert_eq!(cpu.step(), Err(Error::AddressOutOfRange));
    assert_eq!(cpu.memory_at(0xFFE), 0);
}

#[test]
fn load_registers_past_memory_end_is_reported() {
    let mut cpu = machine_with(&[0xAF, 0xFF, 0xF1, 0x65]);
    cpu.step().unwrap();
    assert_eq!(cpu.step(), Err(Error::AddressOutOfRange));
    let mut cpu = machine_with(&[0xAF, 0xFF, 0xF0, 0x65]);
    run_steps(&mut cpu, 2);
}

#[test]
fn pc_past_memory_end_is_reported() {
    let mut cpu = machine_with(&[0x1F, 0xFF]);
    cpu.step().unwrap();
    assert_eq!(cpu.pc(), 0xFFF);
    assert_eq!(cpu.step(), Err(Error::ProgramCounterOutOfRange));
}

#[test]
fn oversized_program_is_truncated() {
    let mut cpu = Cpu::new();
    let program = vec![0xAB; 0xE00];
    assert_eq!(cpu.load_program(&program), Err(Error::ProgramTooLarge));
    assert_eq!(cpu.memory_at(0x200), 0xAB);
    assert_eq!(cpu.memory_at(0xFFE), 0xAB);
    assert_eq!(cpu.memory_at(0xFFF), 0);
    assert_eq!(cpu.memory_at(0x1FF), 0);
}

#[test]
fn largest_program_fits() {
    let mut cpu = Cpu::new();
    let program = vec![0x11; 0xDFF];
    assert_eq!(cpu.load_program(&program), Ok(()));
    assert_eq!(cpu.memory_at(0xFFE), 0x11);
    assert_eq!(cpu.memory_at(0xFFF), 0);
}

#[test]
fn load_font_replaces_first_bytes() {
    let mut cpu = Cpu::new();
    cpu.load_font([7u8; 80]);
    assert_eq!(cpu.memory_at(0), 7);
    assert_eq!(cpu.memory_at(79), 7);
    assert_eq!(cpu.memory_at(80), 0);
    assert_eq!(chip8::font()[0], 0xF0);
}

#[test]
fn fetch_reads_two_bytes() {
    let cpu = machine_with(&[0x12, 0x34]);
    let Opcode(hi, lo) = cpu.fetch();
    assert_eq!((hi, lo), (0x12, 0x34));
    assert_eq!(cpu.pc(), 0x200);
}
