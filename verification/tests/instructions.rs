use chip8::{Cpu, CpuError, KeyState, Opcode, Pixel};

fn with_registers(values: &[(u16, u16)]) -> Cpu {
    let mut cpu = Cpu::new();
    cpu.load_fontset();
    for (r, value) in values {
        cpu.execute(Opcode::SetRegister { addr: *r, value: *value }, 0).unwrap();
    }
    cpu
}

#[test]
fn decode_examples() {
    let cpu = Cpu::new();
    assert_eq!(cpu.decode(0x00E0), Ok(Opcode::ClearDisplay));
    assert_eq!(cpu.decode(0x00EE), Ok(Opcode::ReturnFromSubroutine));
    assert_eq!(cpu.decode(0x0123), Ok(Opcode::CallRCAProgram(0x123)));
    assert_eq!(cpu.decode(0x1ABC), Ok(Opcode::JumpToAddr(0xABC)));
    assert_eq!(cpu.decode(0x2FFF), Ok(Opcode::CallSubroutine(0xFFF)));
    assert_eq!(cpu.decode(0x3A42), Ok(Opcode::SkipIfRegisterSet { addr: 0xA, value: 0x42 }));
    assert_eq!(cpu.decode(0x4B01), Ok(Opcode::SkipIfRegisterNotSet { addr: 0xB, value: 0x01 }));
    assert_eq!(cpu.decode(0x5120), Ok(Opcode::SkipIfRegistersEqual { first: 1, second: 2 }));
    assert_eq!(cpu.decode(0x512F), Ok(Opcode::SkipIfRegistersEqual { first: 1, second: 2 }));
    assert_eq!(cpu.decode(0x6A05), Ok(Opcode::SetRegister { addr: 0xA, value: 0x05 }));
    assert_eq!(cpu.decode(0x7CFF), Ok(Opcode::AddToRegister { addr: 0xC, value: 0xFF }));
    assert_eq!(cpu.decode(0x8120), Ok(Opcode::AssignRegister { first: 1, second: 2 }));
    assert_eq!(cpu.decode(0x8121), Ok(Opcode::AssignRegisterBitwiseOr { first: 1, second: 2 }));
    assert_eq!(cpu.decode(0x8122), Ok(Opcode::AssignRegisterBitwiseAnd { first: 1, second: 2 }));
    assert_eq!(cpu.decode(0x8123), Ok(Opcode::AssignRegisterBitwiseXor { first: 1, second: 2 }));
    assert_eq!(cpu.decode(0x8124), Ok(Opcode::AddRegisters { first: 1, second: 2 }));
    assert_eq!(cpu.decode(0x8125), Ok(Opcode::SubtractRegisters { first: 1, second: 2 }));
    assert_eq!(cpu.decode(0x8126), Ok(Opcode::AssignRegisterBitshiftRight { first: 1, second: 2 }));
    assert_eq!(cpu.decode(0x8127), Ok(Opcode::SubtractFirstRegister { first: 1, second: 2 }));
    assert_eq!(cpu.decode(0x812E), Ok(Opcode::AssignRegistersBitshiftLeft { first: 1, second: 2 }));
    assert_eq!(cpu.decode(0x9AB0), Ok(Opcode::SkipIfRegistersNotEqual { first: 0xA, second: 0xB }));
    assert_eq!(cpu.decode(0xA123), Ok(Opcode::SetIndexRegister(0x123)));
    assert_eq!(cpu.decode(0xB456), Ok(Opcode::SetProgramCounter(0x456)));
    assert_eq!(cpu.decode(0xC70F), Ok(Opcode::AssignRandomValue { addr: 7, value: 0x0F }));
    assert_eq!(cpu.decode(0xD125), Ok(Opcode::Draw { x: 1, y: 2, height: 5 }));
    assert_eq!(cpu.decode(0xE39E), Ok(Opcode::SkipIfKeyPressed(3)));
    assert_eq!(cpu.decode(0xE3A1), Ok(Opcode::SkipIfKeyNotPressed(3)));
    assert_eq!(cpu.decode(0xF407), Ok(Opcode::AssignToDelayTime(4)));
    assert_eq!(cpu.decode(0xF40A), Ok(Opcode::AssignOnKeyPress(4)));
    assert_eq!(cpu.decode(0xF415), Ok(Opcode::SetDelayTimer(4)));
    assert_eq!(cpu.decode(0xF418), Ok(Opcode::SetSoundTimer(4)));
    assert_eq!(cpu.decode(0xF41E), Ok(Opcode::AddToIndexRegister(4)));
    assert_eq!(cpu.decode(0xF429), Ok(Opcode::SetIndexRegisterToSpriteAddr(4)));
    assert_eq!(cpu.decode(0xF433), Ok(Opcode::SetBCD(4)));
    assert_eq!(cpu.decode(0xF455), Ok(Opcode::DumpRegister(4)));
    assert_eq!(cpu.decode(0xF465), Ok(Opcode::LoadRegister(4)));
}

#[test]
fn decode_rejects_unknown_words() {
    let cpu = Cpu::new();
    assert_eq!(cpu.decode(0xE100), Err(CpuError::IllegalInstruction(0xE100)));
    assert_eq!(cpu.decode(0x8128), Err(CpuError::IllegalInstruction(0x8128)));
    assert_eq!(cpu.decode(0x812F), Err(CpuError::IllegalInstruction(0x812F)));
    assert_eq!(cpu.decode(0xF000), Err(CpuError::IllegalInstruction(0xF000)));
    assert_eq!(cpu.decode(0xFFFF), Err(CpuError::IllegalInstruction(0xFFFF)));
}

#[test]
fn illegal_instruction_ends_the_step_without_effect() {
    let mut cpu = Cpu::new();
    cpu.load_rom(&[0xE1, 0x00]).unwrap();
    assert_eq!(cpu.step(), Err(CpuError::IllegalInstruction(0xE100)));
    assert_eq!(cpu.program_counter(), 0x200);
}

#[test]
fn fetch_reads_high_byte_first() {
    let mut cpu = Cpu::new();
    cpu.load_rom(&[0x12, 0x34]).unwrap();
    assert_eq!(cpu.fetch(), Ok(0x1234));
}

#[test]
fn fetch_beyond_memory_is_an_error() {
    let mut cpu = Cpu::new();
    cpu.execute(Opcode::JumpToAddr(0xFFF), 0).unwrap();
    assert_eq!(cpu.program_counter(), 0xFFF);
    assert_eq!(cpu.fetch(), Err(CpuError::MemoryOutOfBounds(0xFFF)));
    assert_eq!(cpu.step(), Err(CpuError::MemoryOutOfBounds(0xFFF)));
    assert_eq!(cpu.execute(Opcode::ClearDisplay, 0), Err(CpuError::MemoryOutOfBounds(0xFFF)));
    assert_eq!(cpu.program_counter(), 0xFFF);
}

#[test]
fn last_instruction_of_memory_executes() {
    let mut cpu = Cpu::new();
    cpu.execute(Opcode::JumpToAddr(0xFFE), 0).unwrap();
    assert_eq!(cpu.fetch(), Ok(0));
    assert_eq!(cpu.execute(Opcode::SetRegister { addr: 0, value: 1 }, 0), Ok(()));
    assert_eq!(cpu.program_counter(), 0x1000);
}

#[test]
fn call_rca_program_changes_nothing() {
    let mut cpu = Cpu::new();
    assert_eq!(cpu.execute(Opcode::CallRCAProgram(0x345), 0), Ok(()));
    assert_eq!(cpu.program_counter(), 0x200);
    assert_eq!(cpu.stack_depth(), 0);
}

#[test]
fn jump_sets_the_program_counter() {
    let mut cpu = Cpu::new();
    cpu.load_rom(&[0x1A, 0xBC]).unwrap();
    assert_eq!(cpu.step(), Ok(()));
    assert_eq!(cpu.program_counter(), 0xABC);
}

#[test]
fn indexed_jump_adds_register_zero() {
    let mut cpu = with_registers(&[(0, 0x10), (5, 0x77)]);
    assert_eq!(cpu.execute(Opcode::SetProgramCounter(0x300), 0), Ok(()));
    assert_eq!(cpu.program_counter(), 0x310);
}

#[test]
fn call_and_return() {
    // 0x200: call 0x206; 0x202: V1 = 1; 0x206: return.
    let mut cpu = Cpu::new();
    cpu.load_rom(&[0x22, 0x06, 0x61, 0x01, 0x00, 0x00, 0x00, 0xEE]).unwrap();
    assert_eq!(cpu.step(), Ok(()));
    assert_eq!(cpu.program_counter(), 0x206);
    assert_eq!(cpu.stack_depth(), 1);
    assert_eq!(cpu.step(), Ok(()));
    assert_eq!(cpu.program_counter(), 0x202);
    assert_eq!(cpu.stack_depth(), 0);
    assert_eq!(cpu.step(), Ok(()));
    assert_eq!(cpu.register(1), Ok(1));
}

#[test]
fn nested_calls_return_in_reverse_order() {
    let mut cpu = Cpu::new();
    cpu.execute(Opcode::CallSubroutine(0x300), 0).unwrap();
    cpu.execute(Opcode::CallSubroutine(0x400), 0).unwrap();
    assert_eq!(cpu.stack_depth(), 2);
    cpu.execute(Opcode::ReturnFromSubroutine, 0).unwrap();
    assert_eq!(cpu.program_counter(), 0x302);
    cpu.execute(Opcode::ReturnFromSubroutine, 0).unwrap();
    assert_eq!(cpu.program_counter(), 0x202);
}

#[test]
fn return_on_empty_stack_is_an_underflow() {
    let mut cpu = Cpu::new();
    cpu.load_rom(&[0x00, 0xEE]).unwrap();
    assert_eq!(cpu.step(), Err(CpuError::StackUnderflow));
    assert_eq!(cpu.program_counter(), 0x200);
    assert_eq!(cpu.stack_depth(), 0);
}

#[test]
fn seventeenth_call_is_an_overflow() {
    // A subroutine that calls itself.
    let mut cpu = Cpu::new();
    cpu.load_rom(&[0x22, 0x00]).unwrap();
    for depth in 1..=16u16 {
        assert_eq!(cpu.step(), Ok(()));
        assert_eq!(cpu.stack_depth(), depth);
    }
    assert_eq!(cpu.step(), Err(CpuError::StackOverflow));
    assert_eq!(cpu.stack_depth(), 16);
    assert_eq!(cpu.program_counter(), 0x200);
}

#[test]
fn skips_advance_by_four_when_taken() {
    let mut cpu = with_registers(&[(1, 0x42), (2, 0x42), (3, 0x43)]);
    let mut pc: u16 = cpu.program_counter();
    let cases: Vec<(Opcode, u16)> = vec![
        (Opcode::SkipIfRegisterSet { addr: 1, value: 0x42 }, 4),
        (Opcode::SkipIfRegisterSet { addr: 1, value: 0x43 }, 2),
        (Opcode::SkipIfRegisterNotSet { addr: 1, value: 0x42 }, 2),
        (Opcode::SkipIfRegisterNotSet { addr: 1, value: 0x43 }, 4),
        (Opcode::SkipIfRegistersEqual { first: 1, second: 2 }, 4),
        (Opcode::SkipIfRegistersEqual { first: 1, second: 3 }, 2),
        (Opcode::SkipIfRegistersNotEqual { first: 1, second: 2 }, 2),
        (Opcode::SkipIfRegistersNotEqual { first: 1, second: 3 }, 4),
    ];
    for (op, by) in cases {
        assert_eq!(cpu.execute(op, 0), Ok(()));
        pc += by;
        assert_eq!(cpu.program_counter(), pc);
    }
}

#[test]
fn add_to_register_wraps_without_a_flag() {
    let mut cpu = with_registers(&[(4, 0xF0), (0xF, 7)]);
    assert_eq!(cpu.execute(Opcode::AddToRegister { addr: 4, value: 0x20 }, 0), Ok(()));
    assert_eq!(cpu.register(4), Ok(0x10));
    assert_eq!(cpu.register(0xF), Ok(7));
}

#[test]
fn register_moves_and_bitwise_operations() {
    let mut cpu = with_registers(&[(1, 0b1100_1010), (2, 0b1010_0110), (0xF, 9)]);
    cpu.execute(Opcode::AssignRegister { first: 3, second: 1 }, 0).unwrap();
    assert_eq!(cpu.register(3), Ok(0b1100_1010));
    cpu.execute(Opcode::AssignRegisterBitwiseOr { first: 3, second: 2 }, 0).unwrap();
    assert_eq!(cpu.register(3), Ok(0b1110_1110));
    cpu.execute(Opcode::AssignRegister { first: 4, second: 1 }, 0).unwrap();
    cpu.execute(Opcode::AssignRegisterBitwiseAnd { first: 4, second: 2 }, 0).unwrap();
    assert_eq!(cpu.register(4), Ok(0b1000_0010));
    cpu.execute(Opcode::AssignRegister { first: 5, second: 1 }, 0).unwrap();
    cpu.execute(Opcode::AssignRegisterBitwiseXor { first: 5, second: 2 }, 0).unwrap();
    assert_eq!(cpu.register(5), Ok(0b0110_1100));
    assert_eq!(cpu.register(0xF), Ok(9));
    assert_eq!(cpu.register(1), Ok(0b1100_1010));
    assert_eq!(cpu.register(2), Ok(0b1010_0110));
}

#[test]
fn add_registers_examples() {
    let mut cpu = with_registers(&[(1, 200), (2, 100)]);
    cpu.execute(Opcode::AddRegisters { first: 1, second: 2 }, 0).unwrap();
    assert_eq!(cpu.register(1), Ok(44));
    assert_eq!(cpu.register(0xF), Ok(1));
    let mut cpu = with_registers(&[(1, 200), (2, 55)]);
    cpu.execute(Opcode::AddRegisters { first: 1, second: 2 }, 0).unwrap();
    assert_eq!(cpu.register(1), Ok(255));
    assert_eq!(cpu.register(0xF), Ok(0));
}

#[test]
fn flag_wins_when_the_destination_is_the_flag_register() {
    let mut cpu = with_registers(&[(0xF, 200), (2, 100)]);
    cpu.execute(Opcode::AddRegisters { first: 0xF, second: 2 }, 0).unwrap();
    assert_eq!(cpu.register(0xF), Ok(1));
    let mut cpu = with_registers(&[(0xF, 3), (2, 5)]);
    cpu.execute(Opcode::SubtractRegisters { first: 0xF, second: 2 }, 0).unwrap();
    assert_eq!(cpu.register(0xF), Ok(0));
    let mut cpu = with_registers(&[(2, 0b0000_0110)]);
    cpu.execute(Opcode::AssignRegisterBitshiftRight { first: 0xF, second: 2 }, 0).unwrap();
    assert_eq!(cpu.register(0xF), Ok(0));
}

#[test]
fn subtract_registers_examples() {
    let mut cpu = with_registers(&[(1, 5), (2, 5)]);
    cpu.execute(Opcode::SubtractRegisters { first: 1, second: 2 }, 0).unwrap();
    assert_eq!(cpu.register(1), Ok(0));
    assert_eq!(cpu.register(0xF), Ok(1));
    let mut cpu = with_registers(&[(1, 5), (2, 6)]);
    cpu.execute(Opcode::SubtractRegisters { first: 1, second: 2 }, 0).unwrap();
    assert_eq!(cpu.register(1), Ok(255));
    assert_eq!(cpu.register(0xF), Ok(0));
}

#[test]
fn subtract_first_register_examples() {
    let mut cpu = with_registers(&[(1, 5), (2, 7)]);
    cpu.execute(Opcode::SubtractFirstRegister { first: 1, second: 2 }, 0).unwrap();
    assert_eq!(cpu.register(1), Ok(2));
    assert_eq!(cpu.register(2), Ok(7));
    assert_eq!(cpu.register(0xF), Ok(1));
    let mut cpu = with_registers(&[(1, 7), (2, 5)]);
    cpu.execute(Opcode::SubtractFirstRegister { first: 1, second: 2 }, 0).unwrap();
    assert_eq!(cpu.register(1), Ok(254));
    assert_eq!(cpu.register(0xF), Ok(0));
}

#[test]
fn shift_right_takes_the_second_register_and_flags_the_low_bit() {
    let mut cpu = with_registers(&[(1, 0xFF), (2, 0b0000_0101)]);
    cpu.execute(Opcode::AssignRegisterBitshiftRight { first: 1, second: 2 }, 0).unwrap();
    assert_eq!(cpu.register(1), Ok(0b0000_0010));
    assert_eq!(cpu.register(2), Ok(0b0000_0101));
    assert_eq!(cpu.register(0xF), Ok(1));
    let mut cpu = with_registers(&[(2, 0b1000_0100)]);
    cpu.execute(Opcode::AssignRegisterBitshiftRight { first: 1, second: 2 }, 0).unwrap();
    assert_eq!(cpu.register(1), Ok(0b0100_0010));
    assert_eq!(cpu.register(0xF), Ok(0));
}

#[test]
fn shift_left_takes_the_second_register_and_flags_the_high_bit() {
    let mut cpu = with_registers(&[(1, 0xFF), (2, 0b1000_0101)]);
    cpu.execute(Opcode::AssignRegistersBitshiftLeft { first: 1, second: 2 }, 0).unwrap();
    assert_eq!(cpu.register(1), Ok(0b0000_1010));
    assert_eq!(cpu.register(2), Ok(0b1000_0101));
    assert_eq!(cpu.register(0xF), Ok(1));
    let mut cpu = with_registers(&[(2, 0b0100_0001)]);
    cpu.execute(Opcode::AssignRegistersBitshiftLeft { first: 1, second: 2 }, 0).unwrap();
    assert_eq!(cpu.register(1), Ok(0b1000_0010));
    assert_eq!(cpu.register(0xF), Ok(0));
}

#[test]
fn random_value_is_masked() {
    let mut cpu = Cpu::new();
    assert_eq!(cpu.execute(Opcode::AssignRandomValue { addr: 3, value: 0x0F }, 0xAB), Ok(()));
    assert_eq!(cpu.register(3), Ok(0x0B));
    assert_eq!(cpu.execute(Opcode::AssignRandomValue { addr: 3, value: 0xF0 }, 0xAB), Ok(()));
    assert_eq!(cpu.register(3), Ok(0xA0));
    assert_eq!(cpu.execute(Opcode::AssignRandomValue { addr: 3, value: 0xFF }, 0xFF), Ok(()));
    assert_eq!(cpu.register(3), Ok(0xFF));
    assert_eq!(cpu.program_counter(), 0x206);
}

#[test]
fn random_step_stays_under_its_mask() {
    // 0x200: V3 = random & 0x0F; 0x202: jump to 0x200.
    let mut cpu = Cpu::new();
    cpu.load_rom(&[0xC3, 0x0F, 0x12, 0x00]).unwrap();
    let mut seen: [bool; 16] = [false; 16];
    for _ in 0..2000 {
        assert_eq!(cpu.step(), Ok(()));
        let value: u8 = cpu.register(3).unwrap();
        assert!(value <= 0x0F);
        seen[value as usize] = true;
        assert_eq!(cpu.step(), Ok(()));
    }
    // Two thousand draws that never leave one value would not be random.
    assert!(seen.iter().filter(|s| **s).count() > 1);
}

#[test]
fn step_with_uses_the_given_byte() {
    let mut cpu = Cpu::new();
    cpu.load_rom(&[0xC3, 0x3C]).unwrap();
    assert_eq!(cpu.step_with(0xFF), Ok(()));
    assert_eq!(cpu.register(3), Ok(0x3C));
}

#[test]
fn immediates_count_as_far_as_they_are_encoded() {
    let mut cpu = Cpu::new();
    cpu.execute(Opcode::SetRegister { addr: 1, value: 0x1234 }, 0).unwrap();
    assert_eq!(cpu.register(1), Ok(0x34));
    cpu.execute(Opcode::SetIndexRegister(0xF123), 0).unwrap();
    assert_eq!(cpu.index_register(), 0x123);
    cpu.execute(Opcode::JumpToAddr(0xFABC), 0).unwrap();
    assert_eq!(cpu.program_counter(), 0xABC);
}

#[test]
fn register_numbers_are_checked_before_any_effect() {
    let mut cpu = with_registers(&[(1, 1)]);
    let pc: u16 = cpu.program_counter();
    let cases: Vec<(Opcode, u16)> = vec![
        (Opcode::SetRegister { addr: 16, value: 1 }, 16),
        (Opcode::AddRegisters { first: 0x20, second: 0x30 }, 0x20),
        (Opcode::AddRegisters { first: 1, second: 0x30 }, 0x30),
        (Opcode::Draw { x: 1, y: 0xFFFF, height: 1 }, 0xFFFF),
        (Opcode::SetBCD(99), 99),
        (Opcode::DumpRegister(16), 16),
        (Opcode::LoadRegister(16), 16),
        (Opcode::AssignOnKeyPress(17), 17),
        (Opcode::SkipIfKeyPressed(18), 18),
    ];
    for (op, r) in cases {
        assert_eq!(cpu.execute(op, 0), Err(CpuError::InvalidRegisterIndex(r)));
        assert_eq!(cpu.program_counter(), pc);
    }
    assert_eq!(cpu.register(16), Err(CpuError::InvalidRegisterIndex(16)));
    assert_eq!(cpu.register(1), Ok(1));
}

#[test]
fn key_skips_read_the_keypad() {
    let mut cpu = with_registers(&[(1, 0xB), (2, 0x3)]);
    cpu.set_key(0xB, KeyState::Pressed).unwrap();
    let mut pc: u16 = cpu.program_counter();
    let cases: Vec<(Opcode, u16)> = vec![
        (Opcode::SkipIfKeyPressed(1), 4),
        (Opcode::SkipIfKeyPressed(2), 2),
        (Opcode::SkipIfKeyNotPressed(1), 2),
        (Opcode::SkipIfKeyNotPressed(2), 4),
    ];
    for (op, by) in cases {
        assert_eq!(cpu.execute(op, 0), Ok(()));
        pc += by;
        assert_eq!(cpu.program_counter(), pc);
    }
}

#[test]
fn key_skips_reject_values_that_are_no_key() {
    let mut cpu = with_registers(&[(1, 16), (2, 255)]);
    let pc: u16 = cpu.program_counter();
    assert_eq!(cpu.execute(Opcode::SkipIfKeyPressed(1), 0), Err(CpuError::InvalidKeyIndex(16)));
    assert_eq!(cpu.execute(Opcode::SkipIfKeyNotPressed(2), 0), Err(CpuError::InvalidKeyIndex(255)));
    assert_eq!(cpu.program_counter(), pc);
}

#[test]
fn wait_for_key_blocks_until_a_key_is_pressed() {
    let mut cpu = Cpu::new();
    cpu.load_rom(&[0xF5, 0x0A]).unwrap();
    for _ in 0..5 {
        assert_eq!(cpu.step(), Ok(()));
        assert_eq!(cpu.program_counter(), 0x200);
        assert_eq!(cpu.register(5), Ok(0));
    }
    cpu.set_key(0xC, KeyState::Pressed).unwrap();
    cpu.set_key(0x7, KeyState::Pressed).unwrap();
    assert_eq!(cpu.step(), Ok(()));
    assert_eq!(cpu.program_counter(), 0x202);
    assert_eq!(cpu.register(5), Ok(7));
}

#[test]
fn wait_for_key_sees_key_zero() {
    let mut cpu = with_registers(&[(5, 9)]);
    cpu.set_key(0, KeyState::Pressed).unwrap();
    cpu.set_key(0xF, KeyState::Pressed).unwrap();
    assert_eq!(cpu.execute(Opcode::AssignOnKeyPress(5), 0), Ok(()));
    assert_eq!(cpu.register(5), Ok(0));
}

#[test]
fn timers_are_set_and_read_through_registers() {
    let mut cpu = with_registers(&[(1, 42), (2, 17)]);
    cpu.execute(Opcode::SetDelayTimer(1), 0).unwrap();
    cpu.execute(Opcode::SetSoundTimer(2), 0).unwrap();
    assert_eq!(cpu.delay_timer(), 42);
    assert_eq!(cpu.sound_timer(), 17);
    cpu.execute(Opcode::AssignToDelayTime(3), 0).unwrap();
    assert_eq!(cpu.register(3), Ok(42));
    assert_eq!(cpu.register(1), Ok(42));
}

#[test]
fn add_to_index_register_wraps_at_sixteen_bits() {
    let mut cpu = with_registers(&[(1, 0x10), (2, 0xFF)]);
    cpu.execute(Opcode::SetIndexRegister(0xFF8), 0).unwrap();
    cpu.execute(Opcode::AddToIndexRegister(1), 0).unwrap();
    assert_eq!(cpu.index_register(), 0x1008);
    assert_eq!(cpu.register(0xF), Ok(0));
    for _ in 0..0xF0 {
        cpu.execute(Opcode::JumpToAddr(0x200), 0).unwrap();
        cpu.execute(Opcode::AddToIndexRegister(2), 0).unwrap();
    }
    // 0x1008 + 240 * 255 = 65304
    assert_eq!(cpu.index_register(), 65304);
    cpu.execute(Opcode::JumpToAddr(0x200), 0).unwrap();
    cpu.execute(Opcode::AddToIndexRegister(2), 0).unwrap();
    assert_eq!(cpu.index_register(), 23);
}

#[test]
fn glyph_address_is_five_times_the_digit() {
    for digit in 0..16u16 {
        let mut cpu = with_registers(&[(1, digit)]);
        assert_eq!(cpu.execute(Opcode::SetIndexRegisterToSpriteAddr(1), 0), Ok(()));
        assert_eq!(cpu.index_register(), 5 * digit);
    }
}

#[test]
fn glyph_address_rejects_values_that_are_no_digit() {
    let mut cpu = with_registers(&[(1, 16), (2, 200)]);
    cpu.execute(Opcode::SetIndexRegister(0x321), 0).unwrap();
    let pc: u16 = cpu.program_counter();
    assert_eq!(
        cpu.execute(Opcode::SetIndexRegisterToSpriteAddr(1), 0),
        Err(CpuError::InvalidDigit(16))
    );
    assert_eq!(
        cpu.execute(Opcode::SetIndexRegisterToSpriteAddr(2), 0),
        Err(CpuError::InvalidDigit(200))
    );
    assert_eq!(cpu.index_register(), 0x321);
    assert_eq!(cpu.program_counter(), pc);
}

#[test]
fn bcd_at_the_end_of_memory() {
    let mut cpu = with_registers(&[(1, 255)]);
    cpu.execute(Opcode::SetIndexRegister(0xFFD), 0).unwrap();
    assert_eq!(cpu.execute(Opcode::SetBCD(1), 0), Ok(()));
    assert_eq!(cpu.memory_byte(0xFFD), Ok(2));
    assert_eq!(cpu.memory_byte(0xFFE), Ok(5));
    assert_eq!(cpu.memory_byte(0xFFF), Ok(5));
    cpu.execute(Opcode::SetIndexRegister(0xFFE), 0).unwrap();
    let pc: u16 = cpu.program_counter();
    assert_eq!(cpu.execute(Opcode::SetBCD(1), 0), Err(CpuError::MemoryOutOfBounds(0xFFE)));
    assert_eq!(cpu.memory_byte(0xFFE), Ok(5));
    assert_eq!(cpu.memory_byte(0xFFF), Ok(5));
    assert_eq!(cpu.program_counter(), pc);
}

#[test]
fn dump_and_load_keep_the_index_register() {
    let mut cpu = with_registers(&[(0, 10), (1, 11), (2, 12), (3, 13)]);
    cpu.execute(Opcode::SetIndexRegister(0x500), 0).unwrap();
    assert_eq!(cpu.execute(Opcode::DumpRegister(2), 0), Ok(()));
    assert_eq!(cpu.index_register(), 0x500);
    assert_eq!(cpu.memory_byte(0x500), Ok(10));
    assert_eq!(cpu.memory_byte(0x501), Ok(11));
    assert_eq!(cpu.memory_byte(0x502), Ok(12));
    assert_eq!(cpu.memory_byte(0x503), Ok(0));
    assert_eq!(cpu.memory_byte(0x4FF), Ok(0));

    let mut other = with_registers(&[(0, 1), (1, 2), (2, 3), (3, 4)]);
    other.load_rom(&[7, 8, 9, 10]).unwrap();
    other.execute(Opcode::SetIndexRegister(0x200), 0).unwrap();
    assert_eq!(other.execute(Opcode::LoadRegister(2), 0), Ok(()));
    assert_eq!(other.index_register(), 0x200);
    assert_eq!(other.register(0), Ok(7));
    assert_eq!(other.register(1), Ok(8));
    assert_eq!(other.register(2), Ok(9));
    assert_eq!(other.register(3), Ok(4));
}

#[test]
fn dump_and_load_of_all_registers() {
    let mut cpu = Cpu::new();
    for r in 0..16u16 {
        cpu.execute(Opcode::SetRegister { addr: r, value: 0xA0 + r }, 0).unwrap();
    }
    cpu.execute(Opcode::SetIndexRegister(0xFF0), 0).unwrap();
    assert_eq!(cpu.execute(Opcode::DumpRegister(0xF), 0), Ok(()));
    for r in 0..16u16 {
        assert_eq!(cpu.memory_byte(0xFF0 + r), Ok((0xA0 + r) as u8));
    }
    let mut fresh = Cpu::new();
    fresh.execute(Opcode::SetIndexRegister(0xFF0), 0).unwrap();
    fresh.execute(Opcode::DumpRegister(0), 0).unwrap();
    cpu.execute(Opcode::SetIndexRegister(0xFF1), 0).unwrap();
    let pc: u16 = cpu.program_counter();
    assert_eq!(cpu.execute(Opcode::DumpRegister(0xF), 0), Err(CpuError::MemoryOutOfBounds(0xFF1)));
    assert_eq!(cpu.execute(Opcode::LoadRegister(0xF), 0), Err(CpuError::MemoryOutOfBounds(0xFF1)));
    assert_eq!(cpu.execute(Opcode::LoadRegister(0xE), 0), Ok(()));
    assert_eq!(cpu.register(0), Ok(0xA1));
    assert_eq!(cpu.register(0xE), Ok(0xAF));
    assert_eq!(cpu.register(0xF), Ok(0xAF));
    assert_eq!(cpu.program_counter(), pc + 2);
}

#[test]
fn draw_wraps_around_the_right_edge() {
    let mut cpu = with_registers(&[(0, 62), (1, 0)]);
    cpu.load_rom(&[0xFF]).unwrap();
    cpu.execute(Opcode::SetIndexRegister(0x200), 0).unwrap();
    assert_eq!(cpu.execute(Opcode::Draw { x: 0, y: 1, height: 1 }, 0), Ok(()));
    for cell in 0..2048usize {
        let lit: bool = cell == 62 || cell == 63 || cell < 6;
        assert_eq!(cpu.display()[cell] == Pixel::White, lit, "cell {}", cell);
    }
    assert_eq!(cpu.register(0xF), Ok(0));
}

#[test]
fn draw_wraps_around_the_bottom_edge() {
    let mut cpu = with_registers(&[(0, 8), (1, 31)]);
    cpu.load_rom(&[0x80, 0x40]).unwrap();
    cpu.execute(Opcode::SetIndexRegister(0x200), 0).unwrap();
    assert_eq!(cpu.execute(Opcode::Draw { x: 0, y: 1, height: 2 }, 0), Ok(()));
    for cell in 0..2048usize {
        let lit: bool = cell == 31 * 64 + 8 || cell == 9;
        assert_eq!(cpu.display()[cell] == Pixel::White, lit, "cell {}", cell);
    }
}

#[test]
fn draw_takes_coordinates_modulo_the_screen() {
    let mut cpu = with_registers(&[(0, 64 + 3), (1, 32 * 7 + 2)]);
    cpu.load_rom(&[0x80]).unwrap();
    cpu.execute(Opcode::SetIndexRegister(0x200), 0).unwrap();
    assert_eq!(cpu.execute(Opcode::Draw { x: 0, y: 1, height: 1 }, 0), Ok(()));
    for cell in 0..2048usize {
        assert_eq!(cpu.display()[cell] == Pixel::White, cell == 2 * 64 + 3, "cell {}", cell);
    }
}

#[test]
fn draw_reports_a_collision_in_any_row() {
    let mut cpu = with_registers(&[(0, 0), (1, 0), (2, 1)]);
    // A one-row sprite, then a three-row sprite whose first row hits it.
    cpu.load_rom(&[0x80, 0x80, 0x01, 0x01]).unwrap();
    cpu.execute(Opcode::SetIndexRegister(0x200), 0).unwrap();
    cpu.execute(Opcode::Draw { x: 0, y: 1, height: 1 }, 0).unwrap();
    assert_eq!(cpu.register(0xF), Ok(0));
    cpu.execute(Opcode::SetIndexRegister(0x201), 0).unwrap();
    assert_eq!(cpu.execute(Opcode::Draw { x: 0, y: 1, height: 3 }, 0), Ok(()));
    assert_eq!(cpu.register(0xF), Ok(1));
    assert_eq!(cpu.display()[0], Pixel::Black);
    assert_eq!(cpu.display()[64 + 7], Pixel::White);
    assert_eq!(cpu.display()[128 + 7], Pixel::White);
    // A draw that hits nothing resets the flag.
    cpu.execute(Opcode::SetRegister { addr: 1, value: 10 }, 0).unwrap();
    cpu.execute(Opcode::Draw { x: 0, y: 1, height: 1 }, 0).unwrap();
    assert_eq!(cpu.register(0xF), Ok(0));
}

#[test]
fn draw_of_no_rows_changes_no_cell() {
    let mut cpu = with_registers(&[(0xF, 1)]);
    assert_eq!(cpu.execute(Opcode::Draw { x: 0, y: 0, height: 0 }, 0), Ok(()));
    assert!(cpu.display().iter().all(|p| *p == Pixel::Black));
    assert_eq!(cpu.register(0xF), Ok(0));
    assert!(cpu.draw_screen());
}

#[test]
fn draw_beyond_memory_is_an_error() {
    let mut cpu = with_registers(&[(0, 0)]);
    cpu.execute(Opcode::SetIndexRegister(0xFFE), 0).unwrap();
    let pc: u16 = cpu.program_counter();
    assert_eq!(
        cpu.execute(Opcode::Draw { x: 0, y: 0, height: 3 }, 0),
        Err(CpuError::MemoryOutOfBounds(0xFFE))
    );
    assert!(!cpu.draw_screen());
    assert_eq!(cpu.program_counter(), pc);
    assert_eq!(cpu.execute(Opcode::Draw { x: 0, y: 0, height: 2 }, 0), Ok(()));
}

#[test]
fn draw_a_font_glyph() {
    let mut cpu = with_registers(&[(0, 4), (1, 2), (2, 0xA)]);
    cpu.execute(Opcode::SetIndexRegisterToSpriteAddr(2), 0).unwrap();
    cpu.execute(Opcode::Draw { x: 0, y: 1, height: 5 }, 0).unwrap();
    // The glyph "A": F0 90 F0 90 90.
    let rows: [u8; 5] = [0xF0, 0x90, 0xF0, 0x90, 0x90];
    for cell in 0..2048usize {
        let x: usize = cell % 64;
        let y: usize = cell / 64;
        let lit: bool = (2..7).contains(&y)
            && (4..12).contains(&x)
            && rows[y - 2] & (0x80 >> (x - 4)) != 0;
        assert_eq!(cpu.display()[cell] == Pixel::White, lit, "cell {}", cell);
    }
}
