use rusty8_core::{Fault, Rusty, SCREEN_HEIGHT, SCREEN_WIDTH};

const GLYPH_A: [u8; 5] = [0xF0, 0x90, 0xF0, 0x90, 0x90];

#[test]
fn new_machine_starts_at_load_address_with_everything_zero() {
    let machine = Rusty::new();
    assert_eq!(machine.program_counter(), 0x200);
    assert_eq!(machine.index_register(), 0);
    assert_eq!(machine.delay_timer(), 0);
    assert_eq!(machine.sound_timer(), 0);
    for reg in 0..16 {
        assert_eq!(machine.register(reg), 0);
    }
    for addr in 80..4096 {
        assert_eq!(machine.memory_at(addr), 0);
    }
}

#[test]
fn new_machine_holds_the_font_at_the_bottom_of_memory() {
    let machine = Rusty::new();
    let zero = [0xF0, 0x90, 0x90, 0x90, 0xF0];
    let last = [0xF0, 0x80, 0xF0, 0x80, 0x80];
    for row in 0..5 {
        assert_eq!(machine.memory_at(row), zero[row]);
        assert_eq!(machine.memory_at(0xA * 5 + row), GLYPH_A[row]);
        assert_eq!(machine.memory_at(0xF * 5 + row), last[row]);
    }
}

#[test]
fn new_machine_has_a_dark_display_of_full_size() {
    let machine = Rusty::new();
    let display = machine.get_display();
    assert_eq!(display.len(), SCREEN_WIDTH * SCREEN_HEIGHT);
    assert_eq!(display.len(), 2048);
    assert!(display.iter().all(|pixel| !pixel));
}

#[test]
fn load_rom_copies_the_bytes_to_the_load_address() {
    let mut machine = Rusty::new();
    assert_eq!(machine.load_rom(&[0x12, 0x34, 0x56]), Ok(()));
    assert_eq!(machine.memory_at(0x1FF), 0);
    assert_eq!(machine.memory_at(0x200), 0x12);
    assert_eq!(machine.memory_at(0x201), 0x34);
    assert_eq!(machine.memory_at(0x202), 0x56);
    assert_eq!(machine.memory_at(0x203), 0);
    assert_eq!(machine.program_counter(), 0x200);
}

#[test]
fn load_rom_leaves_the_font_alone() {
    let mut machine = Rusty::new();
    assert_eq!(machine.load_rom(&[0xFF; 16]), Ok(()));
    for row in 0..5 {
        assert_eq!(machine.memory_at(0xA * 5 + row), GLYPH_A[row]);
    }
}

#[test]
fn load_rom_takes_a_program_that_fills_memory_to_the_end() {
    let mut machine = Rusty::new();
    let mut program = vec![0u8; 4096 - 0x200];
    program[0] = 0xAA;
    program[4096 - 0x200 - 1] = 0xBB;
    assert_eq!(machine.load_rom(&program), Ok(()));
    assert_eq!(machine.memory_at(0x200), 0xAA);
    assert_eq!(machine.memory_at(4095), 0xBB);
}

#[test]
fn load_rom_refuses_a_program_that_is_one_byte_too_long() {
    let mut machine = Rusty::new();
    let program = vec![0xAAu8; 4096 - 0x200 + 1];
    assert_eq!(machine.load_rom(&program), Err(Fault::ProgramTooLarge));
    for addr in 0x200..4096 {
        assert_eq!(machine.memory_at(addr), 0);
    }
    assert_eq!(machine.program_counter(), 0x200);
}

#[test]
fn load_rom_takes_an_empty_program() {
    let mut machine = Rusty::new();
    assert_eq!(machine.load_rom(&[]), Ok(()));
    assert_eq!(machine.memory_at(0x200), 0);
}

#[test]
fn reset_restores_the_state_of_a_new_machine() {
    let mut machine = Rusty::new();
    // V3 = 7; I = 5; delay = V3; sound = V3; draw the glyph at I; call 0x20C
    let program = [0x63, 0x07, 0xA0, 0x05, 0xF3, 0x15, 0xF3, 0x18, 0xD3, 0x35, 0x22, 0x0C];
    assert_eq!(machine.load_rom(&program), Ok(()));
    machine.keypress(4, true);
    for _ in 0..6 {
        assert_eq!(machine.tick_with(0), Ok(()));
    }
    assert_eq!(machine.program_counter(), 0x20C);
    assert!(machine.get_display().iter().any(|pixel| *pixel));

    machine.reset();

    assert_eq!(machine.program_counter(), 0x200);
    assert_eq!(machine.index_register(), 0);
    assert_eq!(machine.delay_timer(), 0);
    assert_eq!(machine.sound_timer(), 0);
    for reg in 0..16 {
        assert_eq!(machine.register(reg), 0);
    }
    assert!(machine.get_display().iter().all(|pixel| !pixel));
    for addr in 80..4096 {
        assert_eq!(machine.memory_at(addr), 0);
    }
    for row in 0..5 {
        assert_eq!(machine.memory_at(0xA * 5 + row), GLYPH_A[row]);
    }
    // the call stack is empty again: a return finds nothing
    assert_eq!(machine.load_rom(&[0x00, 0xEE]), Ok(()));
    assert_eq!(machine.tick_with(0), Err(Fault::StackUnderflow));
    // no key is down any more: waiting stands still
    assert_eq!(machine.load_rom(&[0xF0, 0x0A]), Ok(()));
    assert_eq!(machine.tick_with(0), Ok(()));
    assert_eq!(machine.program_counter(), 0x200);
}

#[test]
fn reset_twice_is_reset_once() {
    let mut machine = Rusty::new();
    assert_eq!(machine.load_rom(&[0x60, 0x01]), Ok(()));
    assert_eq!(machine.tick_with(0), Ok(()));
    machine.reset();
    let once: Vec<u8> = (0..4096).map(|addr| machine.memory_at(addr)).collect();
    machine.reset();
    let twice: Vec<u8> = (0..4096).map(|addr| machine.memory_at(addr)).collect();
    assert_eq!(once, twice);
    assert_eq!(machine.program_counter(), 0x200);
    assert_eq!(machine.register(0), 0);
}

#[test]
fn fetch_reads_the_high_byte_first_and_advances_by_two() {
    let mut machine = Rusty::new();
    assert_eq!(machine.load_rom(&[0x12, 0x34, 0xAB, 0xCD]), Ok(()));
    assert_eq!(machine.fetch(), Ok(0x1234));
    assert_eq!(machine.program_counter(), 0x202);
    assert_eq!(machine.fetch(), Ok(0xABCD));
    assert_eq!(machine.program_counter(), 0x204);
}

#[test]
fn fetch_stops_at_the_end_of_memory() {
    let mut machine = Rusty::new();
    let mut program = vec![0u8; 4096 - 0x200];
    program[0] = 0x1F; // jump to 0xFFE
    program[1] = 0xFE;
    program[4096 - 0x200 - 2] = 0xBE;
    program[4096 - 0x200 - 1] = 0xEF;
    assert_eq!(machine.load_rom(&program), Ok(()));
    assert_eq!(machine.tick_with(0), Ok(()));
    assert_eq!(machine.program_counter(), 0xFFE);
    assert_eq!(machine.fetch(), Ok(0xBEEF));
    assert_eq!(machine.program_counter(), 0x1000);
    assert_eq!(machine.fetch(), Err(Fault::ProgramCounterOutOfBounds));
    assert_eq!(machine.program_counter(), 0x1000);
}

#[test]
fn tick_timers_counts_down_to_zero_and_stays_there() {
    let mut machine = Rusty::new();
    // V0 = 3; delay = V0
    assert_eq!(machine.load_rom(&[0x60, 0x03, 0xF0, 0x15]), Ok(()));
    assert_eq!(machine.tick_with(0), Ok(()));
    assert_eq!(machine.tick_with(0), Ok(()));
    assert_eq!(machine.delay_timer(), 3);
    assert!(!machine.tick_timers());
    assert_eq!(machine.delay_timer(), 2);
    assert!(!machine.tick_timers());
    assert!(!machine.tick_timers());
    assert_eq!(machine.delay_timer(), 0);
    assert!(!machine.tick_timers());
    assert_eq!(machine.delay_timer(), 0);
    assert_eq!(machine.sound_timer(), 0);
}

#[test]
fn tick_timers_signals_when_the_sound_timer_reaches_zero() {
    let mut machine = Rusty::new();
    // V0 = 2; sound = V0
    assert_eq!(machine.load_rom(&[0x60, 0x02, 0xF0, 0x18]), Ok(()));
    assert_eq!(machine.tick_with(0), Ok(()));
    assert_eq!(machine.tick_with(0), Ok(()));
    assert_eq!(machine.sound_timer(), 2);
    assert!(!machine.tick_timers());
    assert_eq!(machine.sound_timer(), 1);
    assert!(machine.tick_timers());
    assert_eq!(machine.sound_timer(), 0);
    assert!(!machine.tick_timers());
    assert_eq!(machine.sound_timer(), 0);
}

#[test]
fn timers_do_not_move_with_instructions() {
    let mut machine = Rusty::new();
    // V0 = 9; delay = V0; then four no-ops
    assert_eq!(machine.load_rom(&[0x60, 0x09, 0xF0, 0x15, 0, 0, 0, 0, 0, 0, 0, 0]), Ok(()));
    for _ in 0..6 {
        assert_eq!(machine.tick_with(0), Ok(()));
    }
    assert_eq!(machine.delay_timer(), 9);
}

#[test]
fn stepping_through_empty_memory_does_nothing_but_advance() {
    let mut machine = Rusty::new();
    for step in 1..=10u16 {
        assert_eq!(machine.tick_with(0), Ok(()));
        assert_eq!(machine.program_counter(), 0x200 + 2 * step);
    }
    for reg in 0..16 {
        assert_eq!(machine.register(reg), 0);
    }
    assert!(machine.get_display().iter().all(|pixel| !pixel));
}
