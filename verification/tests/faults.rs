use rusty8_core::{Fault, Rusty};

fn machine_with(program: &[u8]) -> Rusty {
    let mut machine = Rusty::new();
    assert_eq!(machine.load_rom(program), Ok(()));
    machine
}

fn run(machine: &mut Rusty, cycles: usize) {
    for _ in 0..cycles {
        assert_eq!(machine.tick_with(0), Ok(()));
    }
}

fn snapshot(machine: &Rusty) -> (u16, u16, Vec<u8>, Vec<u8>, Vec<bool>, u8, u8) {
    (
        machine.program_counter(),
        machine.index_register(),
        (0..16).map(|reg| machine.register(reg)).collect(),
        (0..4096).map(|addr| machine.memory_at(addr)).collect(),
        machine.get_display().to_vec(),
        machine.delay_timer(),
        machine.sound_timer(),
    )
}

#[test]
fn unknown_instruction_halts_with_address_and_word() {
    // V0 = 1; then a word outside the table
    let mut machine = machine_with(&[0x60, 0x01, 0x5A, 0xB1]);
    run(&mut machine, 1);
    let before = snapshot(&machine);
    assert_eq!(
        machine.tick_with(0),
        Err(Fault::UnknownInstruction { pc: 0x202, word: 0x5AB1 })
    );
    assert_eq!(snapshot(&machine), before);
    // and it halts again on the next cycle
    assert_eq!(
        machine.tick_with(0),
        Err(Fault::UnknownInstruction { pc: 0x202, word: 0x5AB1 })
    );
}

#[test]
fn program_counter_beyond_memory_is_a_fault() {
    // jump to the last byte of memory
    let mut machine = machine_with(&[0x1F, 0xFF]);
    run(&mut machine, 1);
    let before = snapshot(&machine);
    assert_eq!(machine.tick_with(0), Err(Fault::ProgramCounterOutOfBounds));
    assert_eq!(snapshot(&machine), before);
    assert_eq!(machine.program_counter(), 0xFFF);
}

#[test]
fn jump_with_offset_beyond_memory_is_a_fault_at_the_next_fetch() {
    // V0 = 0xFF; jump to 0xFFF + V0
    let mut machine = machine_with(&[0x60, 0xFF, 0xBF, 0xFF]);
    run(&mut machine, 2);
    assert_eq!(machine.program_counter(), 0xFFF + 0xFF);
    assert_eq!(machine.tick_with(0), Err(Fault::ProgramCounterOutOfBounds));
}

#[test]
fn return_without_call_is_a_stack_underflow() {
    let mut machine = machine_with(&[0x00, 0xEE]);
    let before = snapshot(&machine);
    assert_eq!(machine.tick_with(0), Err(Fault::StackUnderflow));
    assert_eq!(snapshot(&machine), before);
}

#[test]
fn seventeenth_nested_call_is_a_stack_overflow() {
    // call 0x200, for ever
    let mut machine = machine_with(&[0x22, 0x00]);
    run(&mut machine, 16);
    let before = snapshot(&machine);
    assert_eq!(machine.tick_with(0), Err(Fault::StackOverflow));
    assert_eq!(snapshot(&machine), before);
    assert_eq!(machine.program_counter(), 0x200);
}

#[test]
fn full_stack_unwinds_completely() {
    // 0x200: call 0x200 ... ; then returns are patched in by a second program
    let mut machine = machine_with(&[0x22, 0x00]);
    run(&mut machine, 16);
    assert_eq!(machine.load_rom(&[0x00, 0xEE, 0x00, 0xEE]), Ok(()));
    // every return address is 0x202, where the second return sits
    run(&mut machine, 16);
    assert_eq!(machine.program_counter(), 0x202);
    assert_eq!(machine.tick_with(0), Err(Fault::StackUnderflow));
}

#[test]
fn bcd_beyond_memory_is_a_fault() {
    // V0 = 123; I = 0xFFE; store BCD
    let mut machine = machine_with(&[0x60, 123, 0xAF, 0xFE, 0xF0, 0x33]);
    run(&mut machine, 2);
    let before = snapshot(&machine);
    assert_eq!(machine.tick_with(0), Err(Fault::MemoryOutOfBounds));
    assert_eq!(snapshot(&machine), before);
}

#[test]
fn draw_beyond_memory_is_a_fault() {
    // I = 0xFFF; draw 2 rows
    let mut machine = machine_with(&[0xAF, 0xFF, 0xD0, 0x02]);
    run(&mut machine, 1);
    let before = snapshot(&machine);
    assert_eq!(machine.tick_with(0), Err(Fault::MemoryOutOfBounds));
    assert_eq!(snapshot(&machine), before);
}

#[test]
fn store_registers_beyond_memory_is_a_fault() {
    // V0 = 0xEE; I = 0xFFF; store below V2
    let mut machine = machine_with(&[0x60, 0xEE, 0xAF, 0xFF, 0xF2, 0x55]);
    run(&mut machine, 2);
    let before = snapshot(&machine);
    assert_eq!(machine.tick_with(0), Err(Fault::MemoryOutOfBounds));
    assert_eq!(snapshot(&machine), before);
    // one register fits
    let mut machine = machine_with(&[0x60, 0xEE, 0xAF, 0xFF, 0xF1, 0x55]);
    run(&mut machine, 3);
    assert_eq!(machine.memory_at(0xFFF), 0xEE);
}

#[test]
fn load_registers_beyond_memory_is_a_fault() {
    // I = 0xFFF; load below V2
    let mut machine = machine_with(&[0xAF, 0xFF, 0xF2, 0x56]);
    run(&mut machine, 1);
    let before = snapshot(&machine);
    assert_eq!(machine.tick_with(0), Err(Fault::MemoryOutOfBounds));
    assert_eq!(snapshot(&machine), before);
}

#[test]
fn index_beyond_memory_is_a_fault_only_when_used() {
    // V0 = 0xFF; I = 0xFFF; I += V0; V1 = 1; store BCD
    let mut machine = machine_with(&[0x60, 0xFF, 0xAF, 0xFF, 0xF0, 0x1E, 0x61, 0x01, 0xF1, 0x33]);
    run(&mut machine, 4);
    assert_eq!(machine.index_register(), 0xFFF + 0xFF);
    assert_eq!(machine.tick_with(0), Err(Fault::MemoryOutOfBounds));
}

#[test]
fn key_index_above_fifteen_is_a_fault() {
    // V0 = 0x10; skip if key V0 is down
    let mut machine = machine_with(&[0x60, 0x10, 0xE0, 0x9E]);
    run(&mut machine, 1);
    let before = snapshot(&machine);
    assert_eq!(machine.tick_with(0), Err(Fault::KeyOutOfRange));
    assert_eq!(snapshot(&machine), before);
    // V0 = 0xFF; skip if key V0 is up
    let mut machine = machine_with(&[0x60, 0xFF, 0xE0, 0xA1]);
    run(&mut machine, 1);
    assert_eq!(machine.tick_with(0), Err(Fault::KeyOutOfRange));
    assert_eq!(machine.program_counter(), 0x202);
}

#[test]
fn program_too_large_is_refused_before_anything_runs() {
    let mut machine = Rusty::new();
    // a jump at the start, which must not get into memory
    let mut program = vec![0u8; 4000];
    program[0] = 0x1A;
    program[1] = 0xBC;
    let before = snapshot(&machine);
    assert_eq!(machine.load_rom(&program), Err(Fault::ProgramTooLarge));
    assert_eq!(snapshot(&machine), before);
    assert_eq!(machine.tick_with(0), Ok(()));
    assert_eq!(machine.program_counter(), 0x202);
}

#[test]
fn machine_goes_on_after_a_fault_is_mended() {
    let mut machine = machine_with(&[0x00, 0xE0, 0x63, 0x2A]);
    assert_eq!(
        machine.tick_with(0),
        Err(Fault::UnknownInstruction { pc: 0x200, word: 0x00E0 })
    );
    assert_eq!(machine.load_rom(&[0x00, 0x00]), Ok(()));
    run(&mut machine, 2);
    assert_eq!(machine.register(3), 0x2A);
}
