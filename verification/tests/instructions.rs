use chip8::cpu_state::ComputerState;
use chip8::machine::InvalidInstruction;

fn boot(program: &[u8]) -> Box<ComputerState> {
    ComputerState::new(program)
}

fn cycles(state: &mut ComputerState, count: usize) {
    for _ in 0..count {
        assert_eq!(state.cpu_cycle_with(0), None);
    }
}

#[test]
fn new_machine_is_zeroed_with_font_and_program() {
    let state = boot(&[0x12, 0x34, 0x56]);
    assert_eq!(state.pc(), 512);
    assert_eq!(state.sp(), 4096 - 256);
    assert_eq!(state.idx(), 0);
    assert_eq!(state.delay_timer(), 0);
    assert_eq!(state.sound_timer(), 0);
    assert_eq!(state.pressed_keys(), 0);
    assert_eq!(state.registers(), &[0u8; 16]);
    assert_eq!(state.display(), &[0u64; 32]);
    assert!(!state.is_beeping());
    let memory = state.memory();
    assert_eq!(&memory[0..5], &[0xF0, 0x90, 0x90, 0x90, 0xF0]);
    assert_eq!(&memory[75..80], &[0xF0, 0x80, 0xF0, 0x80, 0x80]);
    assert!(memory[80..512].iter().all(|&cell| cell == 0));
    assert_eq!(&memory[512..515], &[0x12, 0x34, 0x56]);
    assert!(memory[515..].iter().all(|&cell| cell == 0));
}

#[test]
fn new_machine_holds_the_whole_font() {
    let state = boot(&[]);
    assert_eq!(&state.memory()[0..80], &chip8::font::FONT[..]);
}

#[test]
fn program_that_fills_memory_exactly() {
    let program = vec![0xAB; 4096 - 512];
    let state = boot(&program);
    assert!(state.memory()[512..].iter().all(|&cell| cell == 0xAB));
    assert_eq!(state.memory()[511], 0);
}

#[test]
fn program_reaches_into_the_stack_region() {
    let program = vec![0xCD; 3400];
    let state = boot(&program);
    assert_eq!(state.memory()[3840], 0xCD);
    assert_eq!(state.memory()[512 + 3399], 0xCD);
    assert_eq!(state.memory()[512 + 3400], 0);
}

#[test]
fn program_bytes_past_the_end_of_memory_are_left_out() {
    let mut program = vec![0x11; 5000];
    program[3583] = 0x22;
    program[3584] = 0x33;
    let state = boot(&program);
    assert_eq!(state.memory()[4095], 0x22);
    assert_eq!(&state.memory()[0..5], &[0xF0, 0x90, 0x90, 0x90, 0xF0]);
    assert_eq!(state.memory()[511], 0);
    assert_eq!(state.pc(), 512);
}

#[test]
fn jump_sets_pc() {
    let mut state = boot(&[0x12, 0x34]);
    cycles(&mut state, 1);
    assert_eq!(state.pc(), 0x234);
}

#[test]
fn jump_to_highest_address() {
    let mut state = boot(&[0x1F, 0xFF]);
    cycles(&mut state, 1);
    assert_eq!(state.pc(), 0xFFF);
}

#[test]
fn load_immediate_sets_register() {
    let mut state = boot(&[0x6A, 0x42]);
    cycles(&mut state, 1);
    assert_eq!(state.registers()[10], 0x42);
    assert_eq!(state.pc(), 514);
}

#[test]
fn add_immediate_wraps_and_leaves_flag() {
    let mut state = boot(&[0x6F, 0x07, 0x60, 0xFF, 0x70, 0x01]);
    cycles(&mut state, 3);
    assert_eq!(state.registers()[0], 0x00);
    assert_eq!(state.registers()[15], 0x07);
}

#[test]
fn add_immediate_without_wrap() {
    let mut state = boot(&[0x63, 0x10, 0x73, 0x22]);
    cycles(&mut state, 2);
    assert_eq!(state.registers()[3], 0x32);
}

#[test]
fn add_registers_with_carry() {
    let mut state = boot(&[0x60, 0xFF, 0x61, 0x01, 0x80, 0x14]);
    cycles(&mut state, 3);
    assert_eq!(state.registers()[0], 0x00);
    assert_eq!(state.registers()[1], 0x01);
    assert_eq!(state.registers()[15], 1);
}

#[test]
fn add_registers_without_carry() {
    let mut state = boot(&[0x6F, 0x09, 0x60, 0x10, 0x61, 0x20, 0x80, 0x14]);
    cycles(&mut state, 4);
    assert_eq!(state.registers()[0], 0x30);
    assert_eq!(state.registers()[15], 0);
}

#[test]
fn add_registers_highest_sum_without_carry() {
    let mut state = boot(&[0x60, 0xFE, 0x61, 0x01, 0x80, 0x14]);
    cycles(&mut state, 3);
    assert_eq!(state.registers()[0], 0xFF);
    assert_eq!(state.registers()[15], 0);
}

#[test]
fn add_into_flag_register_keeps_the_flag() {
    let mut state = boot(&[0x6F, 0xF0, 0x61, 0x20, 0x8F, 0x14]);
    cycles(&mut state, 3);
    assert_eq!(state.registers()[15], 1);
}

#[test]
fn subtract_registers_with_borrow() {
    let mut state = boot(&[0x60, 0x01, 0x61, 0x02, 0x80, 0x15]);
    cycles(&mut state, 3);
    assert_eq!(state.registers()[0], 0xFF);
    assert_eq!(state.registers()[15], 0);
}

#[test]
fn subtract_registers_without_borrow() {
    let mut state = boot(&[0x60, 0x05, 0x61, 0x03, 0x80, 0x15]);
    cycles(&mut state, 3);
    assert_eq!(state.registers()[0], 0x02);
    assert_eq!(state.registers()[15], 1);
}

#[test]
fn subtract_equal_registers_sets_flag() {
    let mut state = boot(&[0x60, 0x05, 0x61, 0x05, 0x80, 0x15]);
    cycles(&mut state, 3);
    assert_eq!(state.registers()[0], 0x00);
    assert_eq!(state.registers()[15], 1);
}

#[test]
fn reverse_subtract_with_and_without_borrow() {
    let mut state = boot(&[0x60, 0x02, 0x61, 0x01, 0x80, 0x17]);
    cycles(&mut state, 3);
    assert_eq!(state.registers()[0], 0xFF);
    assert_eq!(state.registers()[15], 0);

    let mut state = boot(&[0x60, 0x02, 0x61, 0x09, 0x80, 0x17]);
    cycles(&mut state, 3);
    assert_eq!(state.registers()[0], 0x07);
    assert_eq!(state.registers()[15], 1);
}

#[test]
fn move_or_and_xor() {
    let mut state = boot(&[0x60, 0b1100, 0x61, 0b1010, 0x82, 0x10, 0x83, 0x00, 0x83, 0x11]);
    cycles(&mut state, 5);
    assert_eq!(state.registers()[2], 0b1010);
    assert_eq!(state.registers()[3], 0b1110);

    let mut state = boot(&[0x60, 0b1100, 0x61, 0b1010, 0x80, 0x12]);
    cycles(&mut state, 3);
    assert_eq!(state.registers()[0], 0b1000);

    let mut state = boot(&[0x60, 0b1100, 0x61, 0b1010, 0x80, 0x13]);
    cycles(&mut state, 3);
    assert_eq!(state.registers()[0], 0b0110);
    assert_eq!(state.registers()[15], 0);
}

#[test]
fn shift_right_reports_the_bit_shifted_out() {
    let mut state = boot(&[0x60, 0x05, 0x80, 0x06]);
    cycles(&mut state, 2);
    assert_eq!(state.registers()[0], 0x02);
    assert_eq!(state.registers()[15], 1);

    let mut state = boot(&[0x6F, 0x01, 0x60, 0x04, 0x80, 0x06]);
    cycles(&mut state, 3);
    assert_eq!(state.registers()[0], 0x02);
    assert_eq!(state.registers()[15], 0);
}

#[test]
fn shift_left_reports_the_bit_shifted_out() {
    let mut state = boot(&[0x60, 0x81, 0x80, 0x0E]);
    cycles(&mut state, 2);
    assert_eq!(state.registers()[0], 0x02);
    assert_eq!(state.registers()[15], 1);

    let mut state = boot(&[0x6F, 0x01, 0x60, 0x41, 0x80, 0x0E]);
    cycles(&mut state, 3);
    assert_eq!(state.registers()[0], 0x82);
    assert_eq!(state.registers()[15], 0);
}

#[test]
fn shift_of_the_flag_register_leaves_the_flag() {
    let mut state = boot(&[0x6F, 0x03, 0x8F, 0x06]);
    cycles(&mut state, 2);
    assert_eq!(state.registers()[15], 1);
}

#[test]
fn skip_if_equal_immediate() {
    let mut state = boot(&[0x60, 0x11, 0x30, 0x11]);
    cycles(&mut state, 2);
    assert_eq!(state.pc(), 518);

    let mut state = boot(&[0x60, 0x11, 0x30, 0x12]);
    cycles(&mut state, 2);
    assert_eq!(state.pc(), 516);
}

#[test]
fn skip_if_not_equal_immediate() {
    let mut state = boot(&[0x60, 0x11, 0x40, 0x11]);
    cycles(&mut state, 2);
    assert_eq!(state.pc(), 516);

    let mut state = boot(&[0x60, 0x11, 0x40, 0x12]);
    cycles(&mut state, 2);
    assert_eq!(state.pc(), 518);
}

#[test]
fn skip_if_registers_equal() {
    let mut state = boot(&[0x60, 0x11, 0x61, 0x11, 0x50, 0x10]);
    cycles(&mut state, 3);
    assert_eq!(state.pc(), 520);

    let mut state = boot(&[0x60, 0x11, 0x61, 0x12, 0x50, 0x10]);
    cycles(&mut state, 3);
    assert_eq!(state.pc(), 518);
}

#[test]
fn skip_if_registers_differ() {
    let mut state = boot(&[0x60, 0x11, 0x61, 0x11, 0x90, 0x10]);
    cycles(&mut state, 3);
    assert_eq!(state.pc(), 518);

    let mut state = boot(&[0x60, 0x11, 0x61, 0x12, 0x90, 0x10]);
    cycles(&mut state, 3);
    assert_eq!(state.pc(), 520);
}

#[test]
fn load_index() {
    let mut state = boot(&[0xAF, 0xED]);
    cycles(&mut state, 1);
    assert_eq!(state.idx(), 0xFED);
    assert_eq!(state.pc(), 514);
}

#[test]
fn jump_with_offset() {
    let mut state = boot(&[0x60, 0x10, 0xB3, 0x00]);
    cycles(&mut state, 2);
    assert_eq!(state.pc(), 0x310);

    let mut state = boot(&[0x60, 0xFF, 0xBF, 0xFF]);
    cycles(&mut state, 2);
    assert_eq!(state.pc(), 0x10FE);
}

#[test]
fn random_byte_is_masked() {
    let mut state = boot(&[0xC0, 0x3C]);
    assert_eq!(state.cpu_cycle_with(0xAB), None);
    assert_eq!(state.registers()[0], 0xAB & 0x3C);
    assert_eq!(state.pc(), 514);
}

#[test]
fn random_byte_with_zero_mask_is_zero() {
    let mut state = boot(&[0x65, 0x77, 0xC5, 0x00]);
    assert_eq!(state.cpu_cycle(), None);
    assert_eq!(state.cpu_cycle(), None);
    assert_eq!(state.registers()[5], 0);
}

#[test]
fn random_byte_comes_from_the_generator() {
    fastrand::seed(0x5EED);
    let first = fastrand::u8(..);
    let second = fastrand::u8(..);
    fastrand::seed(0x5EED);
    let mut state = boot(&[0xC0, 0xFF, 0x61, 0x00, 0xC2, 0x0F]);
    assert_eq!(state.cpu_cycle(), None);
    assert_eq!(state.cpu_cycle(), None);
    assert_eq!(state.cpu_cycle(), None);
    assert_eq!(state.registers()[0], first);
    assert_eq!(state.registers()[2], second & 0x0F);
}

#[test]
fn random_bytes_vary() {
    fastrand::seed(1);
    let mut state = boot(&[0xC0, 0xFF, 0x12, 0x00]);
    let mut seen = [false; 256];
    for _ in 0..2000 {
        assert_eq!(state.cpu_cycle(), None);
        seen[state.registers()[0] as usize] = true;
    }
    assert!(seen.iter().filter(|&&hit| hit).count() > 128);
}

#[test]
fn timers_are_set_and_read() {
    let mut state = boot(&[0x60, 0x2A, 0xF0, 0x15, 0xF0, 0x18, 0xF1, 0x07]);
    cycles(&mut state, 4);
    assert_eq!(state.delay_timer(), 0x2A);
    assert_eq!(state.sound_timer(), 0x2A);
    assert_eq!(state.registers()[1], 0x2A);
    assert!(state.is_beeping());
}

#[test]
fn add_to_index() {
    let mut state = boot(&[0xA1, 0x00, 0x60, 0x23, 0xF0, 0x1E]);
    cycles(&mut state, 3);
    assert_eq!(state.idx(), 0x123);
}

#[test]
fn add_to_index_wraps_at_sixteen_bits() {
    let mut state = boot(&[0xAF, 0xFF, 0x60, 0xFF, 0xF0, 0x1E, 0x12, 0x04]);
    cycles(&mut state, 2);
    for _ in 0..300 {
        cycles(&mut state, 2);
    }
    assert_eq!(state.idx(), ((4095u32 + 255 * 300) % 65536) as u16);
    assert_eq!(state.idx(), 15059);
}

#[test]
fn font_address_for_every_digit() {
    for digit in 0u8..16 {
        let mut state = boot(&[0x64, 0xA0 | digit, 0xF4, 0x29]);
        cycles(&mut state, 2);
        assert_eq!(state.idx(), 5 * digit as u16);
        let at = state.idx() as usize;
        assert_eq!(
            &state.memory()[at..at + 5],
            &chip8::font::FONT[5 * digit as usize..5 * digit as usize + 5]
        );
    }
}

#[test]
fn decimal_digits() {
    let mut state = boot(&[0x60, 234, 0xA3, 0x00, 0xF0, 0x33]);
    cycles(&mut state, 3);
    assert_eq!(&state.memory()[0x300..0x303], &[2, 3, 4]);
    assert_eq!(state.idx(), 0x300);

    let mut state = boot(&[0x60, 7, 0xA3, 0x00, 0xF0, 0x33]);
    cycles(&mut state, 3);
    assert_eq!(&state.memory()[0x300..0x303], &[0, 0, 7]);

    let mut state = boot(&[0x60, 255, 0xA3, 0x00, 0xF0, 0x33]);
    cycles(&mut state, 3);
    assert_eq!(&state.memory()[0x300..0x303], &[2, 5, 5]);
}

#[test]
fn store_registers() {
    let mut state = boot(&[0x60, 0x0A, 0x61, 0x0B, 0x62, 0x0C, 0x63, 0x0D, 0xA3, 0x00, 0xF2, 0x55]);
    cycles(&mut state, 6);
    assert_eq!(&state.memory()[0x300..0x304], &[0x0A, 0x0B, 0x0C, 0x00]);
    assert_eq!(state.idx(), 0x300);
    assert_eq!(state.registers()[3], 0x0D);
}

#[test]
fn store_all_registers() {
    let mut program = Vec::new();
    for x in 0u8..16 {
        program.push(0x60 | x);
        program.push(0x10 + x);
    }
    program.extend_from_slice(&[0xA4, 0x00, 0xFF, 0x55]);
    let mut state = boot(&program);
    cycles(&mut state, 18);
    let expected: Vec<u8> = (0u8..16).map(|x| 0x10 + x).collect();
    assert_eq!(&state.memory()[0x400..0x410], &expected[..]);
    assert_eq!(state.memory()[0x410], 0);
    assert_eq!(state.memory()[0x3FF], 0);
}

#[test]
fn load_registers() {
    let mut state = boot(&[0x63, 0x99, 0xA0, 0x00, 0xF2, 0x65]);
    cycles(&mut state, 3);
    assert_eq!(&state.registers()[0..4], &[0xF0, 0x90, 0x90, 0x99]);
    assert_eq!(state.idx(), 0);
}

#[test]
fn store_then_load_round_trip() {
    let mut state = boot(&[
        0x60, 0x11, 0x61, 0x22, 0xA5, 0x00, 0xF1, 0x55, 0x60, 0x00, 0x61, 0x00, 0xF1, 0x65,
    ]);
    cycles(&mut state, 7);
    assert_eq!(&state.registers()[0..2], &[0x11, 0x22]);
}

#[test]
fn machine_routine_does_nothing() {
    let mut state = boot(&[0x01, 0x23]);
    cycles(&mut state, 1);
    assert_eq!(state.pc(), 514);
    assert_eq!(state.registers(), &[0u8; 16]);
    assert_eq!(state.sp(), 3840);
    assert_eq!(state.idx(), 0);
}

#[test]
fn invalid_instruction_is_reported_and_skipped() {
    let mut state = boot(&[0x5A, 0xB1, 0x60, 0x01]);
    let fault = state.cpu_cycle_with(0);
    assert_eq!(fault, Some(InvalidInstruction { pc: 514, instruction: 0x5AB1 }));
    assert_eq!(state.pc(), 514);
    assert_eq!(state.registers(), &[0u8; 16]);
    assert_eq!(state.display(), &[0u64; 32]);
    assert_eq!(state.cpu_cycle(), None);
    assert_eq!(state.registers()[0], 1);
}

#[test]
fn invalid_instruction_leaves_memory_alone() {
    let mut state = boot(&[0xFF, 0xFF]);
    let before = *state.memory();
    assert_eq!(
        state.cpu_cycle(),
        Some(InvalidInstruction { pc: 514, instruction: 0xFFFF })
    );
    assert_eq!(state.memory(), &before);
    assert_eq!(state.sp(), 3840);
    assert_eq!(state.idx(), 0);
}

#[test]
fn call_then_return() {
    let mut state = boot(&[0x22, 0x06, 0x00, 0x00, 0x00, 0x00, 0x00, 0xEE]);
    cycles(&mut state, 1);
    assert_eq!(state.pc(), 0x206);
    assert_eq!(state.sp(), 3838);
    assert_eq!(&state.memory()[3838..3840], &[0x02, 0x02]);
    cycles(&mut state, 1);
    assert_eq!(state.pc(), 0x202);
    assert_eq!(state.sp(), 3840);
}

#[test]
fn nested_calls_return_in_reverse_order() {
    let mut state = boot(&[
        0x22, 0x04, 0x12, 0x02, 0x22, 0x08, 0x00, 0xEE, 0x00, 0xEE,
    ]);
    cycles(&mut state, 2);
    assert_eq!(state.pc(), 0x208);
    assert_eq!(state.sp(), 3836);
    cycles(&mut state, 1);
    assert_eq!(state.pc(), 0x206);
    cycles(&mut state, 1);
    assert_eq!(state.pc(), 0x202);
    assert_eq!(state.sp(), 3840);
}

#[test]
fn return_on_an_empty_stack_reads_above_it() {
    let mut state = boot(&[0x00, 0xEE]);
    cycles(&mut state, 1);
    assert_eq!(state.pc(), 0);
    assert_eq!(state.sp(), 3842);
}

#[test]
fn key_skips() {
    let mut state = boot(&[0x60, 0x07, 0xE0, 0x9E]);
    state.set_pressed_keys(1 << 7);
    cycles(&mut state, 2);
    assert_eq!(state.pc(), 518);

    let mut state = boot(&[0x60, 0x07, 0xE0, 0x9E]);
    state.set_pressed_keys(!(1 << 7));
    cycles(&mut state, 2);
    assert_eq!(state.pc(), 516);

    let mut state = boot(&[0x60, 0x07, 0xE0, 0xA1]);
    state.set_pressed_keys(1 << 7);
    cycles(&mut state, 2);
    assert_eq!(state.pc(), 516);

    let mut state = boot(&[0x60, 0x07, 0xE0, 0xA1]);
    state.set_pressed_keys(0);
    cycles(&mut state, 2);
    assert_eq!(state.pc(), 518);
}

#[test]
fn key_skips_with_a_key_that_does_not_exist() {
    let mut state = boot(&[0x60, 0x10, 0xE0, 0x9E]);
    state.set_pressed_keys(0xFFFF);
    cycles(&mut state, 2);
    assert_eq!(state.pc(), 516);

    let mut state = boot(&[0x60, 0xF3, 0xE0, 0xA1]);
    state.set_pressed_keys(0xFFFF);
    cycles(&mut state, 2);
    assert_eq!(state.pc(), 518);
}

#[test]
fn wait_for_key_blocks_until_a_key_is_down() {
    let mut state = boot(&[0xF3, 0x0A]);
    for _ in 0..5 {
        assert!(state.advance_tick(10).is_empty());
        assert_eq!(state.pc(), 512);
    }
    assert_eq!(state.registers(), &[0u8; 16]);
    state.set_pressed_keys(0b1010_0000);
    cycles(&mut state, 1);
    assert_eq!(state.pc(), 514);
    assert_eq!(state.registers()[3], 5);
}

#[test]
fn wait_for_key_takes_the_lowest_key() {
    for key in 0u8..16 {
        let mut state = boot(&[0xF0, 0x0A]);
        state.set_pressed_keys(0x8000 | (1 << key));
        cycles(&mut state, 1);
        assert_eq!(state.registers()[0], key);
        assert_eq!(state.pc(), 514);
    }
}

#[test]
fn addresses_wrap_at_the_end_of_memory() {
    let mut state = boot(&[0x60, 0x12, 0x61, 0x34, 0xAF, 0xFF, 0xF1, 0x55, 0x1F, 0xFF]);
    cycles(&mut state, 4);
    assert_eq!(state.memory()[4095], 0x12);
    assert_eq!(state.memory()[0], 0x34);
    cycles(&mut state, 1);
    assert_eq!(state.pc(), 0xFFF);
    cycles(&mut state, 1);
    assert_eq!(state.pc(), 0x234);
}

#[test]
fn load_wraps_at_the_end_of_memory() {
    let mut state = boot(&[0x60, 0x77, 0xAF, 0xFF, 0xF0, 0x55, 0xF1, 0x65]);
    cycles(&mut state, 4);
    assert_eq!(&state.registers()[0..2], &[0x77, 0xF0]);
}
