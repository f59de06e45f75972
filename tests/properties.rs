use rusty_chip::interpreter::{CycleError, Interpreter};
use rusty_chip::machine::{RunState, StackFault, PROGRAM_START_ADDRESS, REGISTER_F, SCREEN_WIDTH};
use rusty_chip::opcodes::Opcode;
use rusty_chip::quirks::{ClippingQuirk, DisplayWaitQuirk, JumpingQuirk, MemoryIncrementQuirk, QuirkConfig, ResetVfQuirk, ShiftingQuirk};

fn pixel(interpreter: &Interpreter, x: usize, y: usize) -> bool {
    interpreter.drawing_buffer[y * SCREEN_WIDTH + x]
}

#[test]
fn add_registers_wraps_and_flags_carry() {
    for (a, b) in [(0u8, 0u8), (255, 1), (128, 128), (200, 55), (200, 56), (255, 255)] {
        let mut interpreter = Interpreter::new();
        interpreter.registers[2] = a;
        interpreter.registers[9] = b;
        interpreter.apply_opcode(&Opcode::AddRegisters(2, 9), 0).unwrap();
        let sum = a as u16 + b as u16;
        assert_eq!(interpreter.registers[2], (sum % 256) as u8);
        assert_eq!(interpreter.registers[REGISTER_F], if sum > 255 { 1 } else { 0 });
        assert_eq!(interpreter.registers[9], b);
    }
}

#[test]
fn subtract_registers_examples() {
    let mut interpreter = Interpreter::new();
    interpreter.registers[1] = 0x02;
    interpreter.registers[2] = 0x0E;
    interpreter.apply_opcode(&Opcode::SubtractFromFirstRegister(1, 2), 0).unwrap();
    assert_eq!(interpreter.registers[1], 0xF4);
    assert_eq!(interpreter.registers[REGISTER_F], 0);

    interpreter.registers[1] = 0x0F;
    interpreter.registers[2] = 0x02;
    interpreter.apply_opcode(&Opcode::SubtractFromFirstRegister(1, 2), 0).unwrap();
    assert_eq!(interpreter.registers[1], 0x0D);
    assert_eq!(interpreter.registers[REGISTER_F], 1);

    interpreter.registers[1] = 0x0E;
    interpreter.registers[2] = 0x02;
    interpreter.apply_opcode(&Opcode::SubtractFromSecondRegister(1, 2), 0).unwrap();
    assert_eq!(interpreter.registers[1], 0xF4);
    assert_eq!(interpreter.registers[REGISTER_F], 0);
}

#[test]
fn fresh_machine_uses_default_quirks() {
    let quirk_config = QuirkConfig::new();
    assert_eq!(quirk_config.reset_vf, ResetVfQuirk::Reset);
    assert_eq!(quirk_config.memory, MemoryIncrementQuirk::Increment);
    assert_eq!(quirk_config.display_wait, DisplayWaitQuirk::Wait);
    assert_eq!(quirk_config.clipping, ClippingQuirk::Clip);
    assert_eq!(quirk_config.shifting, ShiftingQuirk::Vy);
    assert_eq!(quirk_config.jumping, JumpingQuirk::V0);
    assert_eq!(QuirkConfig::default(), quirk_config);
}

#[test]
fn load_game_over_running_program() {
    let mut interpreter = Interpreter::new();
    interpreter.load_game(&[0x60, 0x05, 0x22, 0x08]);
    interpreter.handle_cycle().unwrap();
    interpreter.handle_cycle().unwrap();
    assert_eq!(interpreter.registers[0], 5);
    assert_eq!(interpreter.stack_pointer, 1);
    interpreter.ram[0x100] = 0x77;
    interpreter.state = RunState::WaitingForKey { register: 3, latched: Some(2) };

    interpreter.load_game(&[0xA1, 0x23]);
    assert_eq!(interpreter.registers, [0; 16]);
    assert_eq!(interpreter.stack, [0; 16]);
    assert_eq!(interpreter.stack_pointer, 0);
    assert_eq!(interpreter.state, RunState::Running);
    assert_eq!(interpreter.ram[0x100], 0);
    assert_eq!(interpreter.ram[0x200], 0xA1);
    assert_eq!(interpreter.ram[0x201], 0x23);
    assert_eq!(interpreter.ram[0x202], 0);
    assert_eq!(interpreter.ram[0x203], 0);
    assert_eq!(interpreter.program_counter, PROGRAM_START_ADDRESS);
}

#[test]
fn load_largest_game() {
    let mut interpreter = Interpreter::new();
    let game = vec![0xAB; 3584];
    interpreter.load_game(&game);
    assert_eq!(interpreter.ram[0x200], 0xAB);
    assert_eq!(interpreter.ram[0xFFF], 0xAB);
    assert_eq!(interpreter.ram[0x1FF], 0);
}

#[test]
fn binary_coded_decimal_of_218() {
    let mut interpreter = Interpreter::new();
    interpreter.registers[4] = 218;
    interpreter.register_i = 0x783;
    interpreter.apply_opcode(&Opcode::BinaryCodedDecimal(4), 0).unwrap();
    assert_eq!(&interpreter.ram[0x783..0x786], &[2, 1, 8]);
}

#[test]
fn binary_coded_decimal_wraps_around_memory() {
    let mut interpreter = Interpreter::new();
    interpreter.registers[0] = 7;
    interpreter.register_i = 0xFFF;
    interpreter.apply_opcode(&Opcode::BinaryCodedDecimal(0), 0).unwrap();
    assert_eq!(interpreter.ram[0xFFF], 0);
    assert_eq!(interpreter.ram[0x000], 0);
    assert_eq!(interpreter.ram[0x001], 7);
}

#[test]
fn draw_glyph_twice_collides_and_clears() {
    let mut quirk_config = QuirkConfig::new();
    quirk_config.display_wait = DisplayWaitQuirk::NoWait;
    let mut interpreter = Interpreter::new_with_sdl(quirk_config);
    interpreter.register_i = 0;
    interpreter.apply_opcode(&Opcode::Draw(0, 1, 5), 0).unwrap();
    assert_eq!(interpreter.registers[REGISTER_F], 0);
    let rows = [0xF0u8, 0x90, 0x90, 0x90, 0xF0];
    for y in 0..32 {
        for x in 0..64 {
            let expected = y < 5 && x < 8 && (rows[y] >> (7 - x)) & 1 == 1;
            assert_eq!(pixel(&interpreter, x, y), expected);
        }
    }
    interpreter.apply_opcode(&Opcode::Draw(0, 1, 5), 0).unwrap();
    assert_eq!(interpreter.registers[REGISTER_F], 1);
    assert!(interpreter.drawing_buffer.iter().all(|p| !p));
}

#[test]
fn draw_at_right_edge_wraps_or_clips() {
    for clipping in [ClippingQuirk::Wrap, ClippingQuirk::Clip] {
        let mut quirk_config = QuirkConfig::new();
        quirk_config.clipping = clipping;
        let mut interpreter = Interpreter::new_with_sdl(quirk_config);
        interpreter.registers[0] = 63;
        interpreter.registers[1] = 4;
        interpreter.ram[0x300] = 0xFF;
        interpreter.register_i = 0x300;
        interpreter.complete_draw(0, 1, 1);
        assert!(pixel(&interpreter, 63, 4));
        for x in 0..7 {
            assert_eq!(pixel(&interpreter, x, 4), clipping == ClippingQuirk::Wrap);
        }
        assert!(!pixel(&interpreter, 7, 4));
    }
}

#[test]
fn draw_coordinates_taken_modulo_screen() {
    let mut interpreter = Interpreter::new();
    interpreter.registers[0] = 64 + 3;
    interpreter.registers[1] = 32 + 2;
    interpreter.ram[0x300] = 0x80;
    interpreter.register_i = 0x300;
    interpreter.complete_draw(0, 1, 1);
    assert!(pixel(&interpreter, 3, 2));
    assert_eq!(interpreter.drawing_buffer.iter().filter(|p| **p).count(), 1);
}

#[test]
fn timers_never_go_below_zero() {
    let mut interpreter = Interpreter::new();
    interpreter.delay_timer = 3;
    interpreter.sound_timer = 1;
    assert!(interpreter.is_tone_on());
    for frame in 1..=10u8 {
        interpreter.handle_frame();
        assert_eq!(interpreter.delay_timer, 3u8.saturating_sub(frame));
        assert_eq!(interpreter.sound_timer, 0);
    }
    assert!(!interpreter.is_tone_on());
}

#[test]
fn stopped_machine_ignores_frames_and_cycles() {
    let mut interpreter = Interpreter::new_with_sdl(QuirkConfig::new());
    interpreter.delay_timer = 3;
    interpreter.ram[0] = 0x12;
    interpreter.handle_frame();
    interpreter.handle_cycle().unwrap();
    assert_eq!(interpreter.delay_timer, 3);
    assert_eq!(interpreter.program_counter, 0);
}

#[test]
fn frame_performs_pending_draw() {
    let mut interpreter = Interpreter::new();
    interpreter.load_game(&[0xD0, 0x15]);
    interpreter.handle_cycle().unwrap();
    assert_eq!(interpreter.state, RunState::WaitingForDisplayRefresh { x_register: 0, y_register: 1, height: 5 });
    assert!(!pixel(&interpreter, 0, 0));
    interpreter.handle_cycle().unwrap();
    assert_eq!(interpreter.program_counter, 0x202);
    interpreter.handle_frame();
    assert_eq!(interpreter.state, RunState::Running);
    assert!(pixel(&interpreter, 0, 0));
    assert!(!pixel(&interpreter, 1, 1));
}

#[test]
fn key_wait_ignores_other_releases() {
    let mut interpreter = Interpreter::new();
    interpreter.load_game(&[0xF5, 0x0A, 0x60, 0x01]);
    interpreter.handle_cycle().unwrap();
    assert_eq!(interpreter.program_counter, 0x202);
    interpreter.handle_key_press('w');
    interpreter.handle_key_press('e');
    assert_eq!(interpreter.registers[5], 0x6);
    interpreter.handle_key_release('w');
    interpreter.handle_cycle().unwrap();
    interpreter.handle_frame();
    assert_eq!(interpreter.program_counter, 0x202);
    interpreter.handle_key_release('e');
    interpreter.handle_cycle().unwrap();
    assert_eq!(interpreter.program_counter, 0x204);
    assert_eq!(interpreter.registers[0], 1);
}

#[test]
fn key_wait_needs_a_press_during_the_wait() {
    let mut interpreter = Interpreter::new();
    interpreter.load_game(&[0xF1, 0x0A]);
    interpreter.handle_key_press('x');
    interpreter.handle_cycle().unwrap();
    interpreter.handle_key_release('x');
    assert_eq!(interpreter.state, RunState::WaitingForKey { register: 1, latched: None });
}

#[test]
fn cycle_reports_unrecognized_word() {
    let mut interpreter = Interpreter::new();
    interpreter.load_game(&[0x51, 0xC7]);
    assert_eq!(
        interpreter.handle_cycle(),
        Err(CycleError::UnrecognizedOpcode { address: 0x200, first_byte: 0x51, second_byte: 0xC7 })
    );
    assert_eq!(interpreter.program_counter, 0x200);
}

#[test]
fn cycle_reports_stack_overflow_and_underflow() {
    let mut interpreter = Interpreter::new();
    interpreter.load_game(&[0x22, 0x00]);
    for _ in 0..16 {
        interpreter.handle_cycle().unwrap();
    }
    assert_eq!(interpreter.stack_pointer, 16);
    assert_eq!(
        interpreter.handle_cycle(),
        Err(CycleError::StackFault { address: 0x200, fault: StackFault::Overflow })
    );
    assert_eq!(interpreter.program_counter, 0x200);
    assert_eq!(interpreter.stack_pointer, 16);

    let mut interpreter = Interpreter::new();
    interpreter.load_game(&[0x00, 0xEE]);
    assert_eq!(
        interpreter.handle_cycle(),
        Err(CycleError::StackFault { address: 0x200, fault: StackFault::Underflow })
    );
    assert_eq!(interpreter.program_counter, 0x200);
}

#[test]
fn random_is_masked() {
    let mut interpreter = Interpreter::new();
    interpreter.registers[3] = 0xFF;
    interpreter.handle_opcode(&Opcode::Random(3, 0x00)).unwrap();
    assert_eq!(interpreter.registers[3], 0);
    interpreter.apply_opcode(&Opcode::Random(3, 0x0F), 0xAB).unwrap();
    assert_eq!(interpreter.registers[3], 0x0B);
    for _ in 0..20 {
        interpreter.handle_opcode(&Opcode::Random(3, 0x0F)).unwrap();
        assert!(interpreter.registers[3] <= 0x0F);
    }
}

#[test]
fn program_counter_wraps_at_end_of_memory() {
    let mut interpreter = Interpreter::new();
    interpreter.program_counter = 0xFFFF;
    interpreter.ram[0xFFF] = 0x6A;
    interpreter.ram[0x000] = 0x42;
    interpreter.handle_cycle().unwrap();
    assert_eq!(interpreter.registers[0xA], 0x42);
    assert_eq!(interpreter.program_counter, 0x0001);
}

#[test]
fn store_policies_write_the_same_memory() {
    let mut images = Vec::new();
    for memory in [MemoryIncrementQuirk::Increment, MemoryIncrementQuirk::NoIncrement] {
        let mut quirk_config = QuirkConfig::new();
        quirk_config.memory = memory;
        let mut interpreter = Interpreter::new_with_sdl(quirk_config);
        for r in 0..16 {
            interpreter.registers[r] = (r as u8) * 3 + 1;
        }
        interpreter.register_i = 0xFFA;
        interpreter.apply_opcode(&Opcode::StoreRegisters(15), 0).unwrap();
        images.push(interpreter.ram);
    }
    assert_eq!(images[0], images[1]);
    assert_eq!(images[0][0xFFA], 1);
    assert_eq!(images[0][0x009], 46);
}
