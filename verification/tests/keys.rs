use rusty8_core::Rusty;

fn machine_with(program: &[u8]) -> Rusty {
    let mut machine = Rusty::new();
    assert_eq!(machine.load_rom(program), Ok(()));
    machine
}

#[test]
fn wait_for_key_stands_still_while_no_key_is_down() {
    // wait for a key into V5; V1 = 1
    let mut machine = machine_with(&[0xF5, 0x0A, 0x61, 0x01]);
    assert_eq!(machine.tick_with(0), Ok(()));
    assert_eq!(machine.program_counter(), 0x200);
    for _ in 0..100 {
        assert_eq!(machine.tick_with(0), Ok(()));
        assert_eq!(machine.program_counter(), 0x200);
    }
    assert_eq!(machine.register(5), 0);
    assert_eq!(machine.register(1), 0);
}

#[test]
fn wait_for_key_goes_on_once_a_key_is_down() {
    let mut machine = machine_with(&[0xF5, 0x0A, 0x61, 0x01]);
    for _ in 0..3 {
        assert_eq!(machine.tick_with(0), Ok(()));
    }
    machine.keypress(7, true);
    assert_eq!(machine.tick_with(0), Ok(()));
    assert_eq!(machine.program_counter(), 0x202);
    assert_eq!(machine.register(5), 7);
    assert_eq!(machine.tick_with(0), Ok(()));
    assert_eq!(machine.register(1), 1);
}

#[test]
fn wait_for_key_takes_the_lowest_key_that_is_down() {
    let mut machine = machine_with(&[0xF5, 0x0A]);
    machine.keypress(0xF, true);
    machine.keypress(9, true);
    machine.keypress(3, true);
    assert_eq!(machine.tick_with(0), Ok(()));
    assert_eq!(machine.register(5), 3);
}

#[test]
fn wait_for_key_sees_key_zero() {
    // V5 = 9; wait for a key into V5
    let mut machine = machine_with(&[0x65, 0x09, 0xF5, 0x0A]);
    machine.keypress(0, true);
    assert_eq!(machine.tick_with(0), Ok(()));
    assert_eq!(machine.tick_with(0), Ok(()));
    assert_eq!(machine.register(5), 0);
    assert_eq!(machine.program_counter(), 0x204);
}

#[test]
fn wait_for_key_waits_again_after_release() {
    let mut machine = machine_with(&[0xF5, 0x0A]);
    machine.keypress(2, true);
    machine.keypress(2, false);
    assert_eq!(machine.tick_with(0), Ok(()));
    assert_eq!(machine.program_counter(), 0x200);
}

#[test]
fn skip_if_key_pressed_follows_the_key() {
    // V0 = 0xB; skip if key V0 is down
    let mut machine = machine_with(&[0x60, 0x0B, 0xE0, 0x9E]);
    assert_eq!(machine.tick_with(0), Ok(()));
    assert_eq!(machine.tick_with(0), Ok(()));
    assert_eq!(machine.program_counter(), 0x204);

    let mut machine = machine_with(&[0x60, 0x0B, 0xE0, 0x9E]);
    machine.keypress(0xB, true);
    assert_eq!(machine.tick_with(0), Ok(()));
    assert_eq!(machine.tick_with(0), Ok(()));
    assert_eq!(machine.program_counter(), 0x206);
}

#[test]
fn skip_if_key_not_pressed_follows_the_key() {
    // V0 = 0xB; skip if key V0 is up
    let mut machine = machine_with(&[0x60, 0x0B, 0xE0, 0xA1]);
    assert_eq!(machine.tick_with(0), Ok(()));
    assert_eq!(machine.tick_with(0), Ok(()));
    assert_eq!(machine.program_counter(), 0x206);

    let mut machine = machine_with(&[0x60, 0x0B, 0xE0, 0xA1]);
    machine.keypress(0xB, true);
    assert_eq!(machine.tick_with(0), Ok(()));
    assert_eq!(machine.tick_with(0), Ok(()));
    assert_eq!(machine.program_counter(), 0x204);
}

#[test]
fn keypress_changes_one_key_only() {
    let mut machine = machine_with(&[0x60, 0x0A, 0xE0, 0x9E]);
    machine.keypress(0xB, true);
    machine.keypress(0x9, true);
    assert_eq!(machine.tick_with(0), Ok(()));
    assert_eq!(machine.tick_with(0), Ok(()));
    assert_eq!(machine.program_counter(), 0x204);
}
