use chip8::driver::{beep_transition, cycles_per_tick, keys_from_layout, BeepAction, KEY_LAYOUT};

#[test]
fn no_key_down_gives_an_empty_snapshot() {
    assert_eq!(keys_from_layout(&[false; 16]), 0);
}

#[test]
fn every_key_down_gives_a_full_snapshot() {
    assert_eq!(keys_from_layout(&[true; 16]), 0xFFFF);
}

#[test]
fn each_position_sets_its_own_key() {
    let keys_by_position = [
        0x1u8, 0x2, 0x3, 0xC, 0x4, 0x5, 0x6, 0xD, 0x7, 0x8, 0x9, 0xE, 0xA, 0x0, 0xB, 0xF,
    ];
    assert_eq!(KEY_LAYOUT, keys_by_position);
    for position in 0..16 {
        let mut down = [false; 16];
        down[position] = true;
        assert_eq!(keys_from_layout(&down), 1u16 << keys_by_position[position]);
    }
}

#[test]
fn several_keys_down() {
    let mut down = [false; 16];
    down[0] = true;
    down[3] = true;
    down[13] = true;
    assert_eq!(keys_from_layout(&down), (1 << 0x1) | (1 << 0xC) | (1 << 0x0));
}

#[test]
fn snapshot_feeds_the_key_instructions() {
    let mut down = [false; 16];
    down[15] = true;
    let mut state = chip8::cpu_state::ComputerState::new(&[0xF2, 0x0A]);
    state.set_pressed_keys(keys_from_layout(&down));
    assert_eq!(state.cpu_cycle(), None);
    assert_eq!(state.registers()[2], 0xF);
}

#[test]
fn cycles_per_tick_divides_the_clock_by_sixty() {
    assert_eq!(cycles_per_tick(0), 0);
    assert_eq!(cycles_per_tick(59), 0);
    assert_eq!(cycles_per_tick(60), 1);
    assert_eq!(cycles_per_tick(700), 11);
    assert_eq!(cycles_per_tick(u32::MAX), 71_582_788);
}

#[test]
fn tone_starts_and_stops_on_transitions() {
    assert_eq!(beep_transition(false, true), BeepAction::Start);
    assert_eq!(beep_transition(true, false), BeepAction::Stop);
    assert_eq!(beep_transition(false, false), BeepAction::Keep);
    assert_eq!(beep_transition(true, true), BeepAction::Keep);
}
