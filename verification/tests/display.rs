use rusty8_core::{Rusty, SCREEN_HEIGHT, SCREEN_WIDTH};

fn machine_with(program: &[u8]) -> Rusty {
    let mut machine = Rusty::new();
    assert_eq!(machine.load_rom(program), Ok(()));
    machine
}

fn run(machine: &mut Rusty, cycles: usize) {
    for _ in 0..cycles {
        assert_eq!(machine.tick_with(0), Ok(()));
    }
}

fn lit_cells(machine: &Rusty) -> Vec<(usize, usize)> {
    let display = machine.get_display();
    let mut cells = Vec::new();
    for y in 0..SCREEN_HEIGHT {
        for x in 0..SCREEN_WIDTH {
            if display[x + SCREEN_WIDTH * y] {
                cells.push((x, y));
            }
        }
    }
    cells
}

#[test]
fn draw_puts_the_high_bit_leftmost_and_rows_downwards() {
    // V0 = 2; V1 = 3; I = 0x20A; draw 2 rows at (V0, V1); data: 0xA0, 0x01
    let mut machine =
        machine_with(&[0x60, 0x02, 0x61, 0x03, 0xA2, 0x0A, 0xD0, 0x12, 0x00, 0x00, 0xA0, 0x01]);
    run(&mut machine, 4);
    assert_eq!(lit_cells(&machine), vec![(2, 3), (4, 3), (9, 4)]);
    assert_eq!(machine.register(0xF), 0);
    assert_eq!(machine.index_register(), 0x20A);
}

#[test]
fn draw_of_the_glyph_for_a_lights_its_pixels() {
    // V0 = 0xA; I = glyph of V0; V1 = 0; draw 5 rows at (V1, V1)
    let mut machine = machine_with(&[0x60, 0x0A, 0xF0, 0x29, 0x61, 0x00, 0xD1, 0x15]);
    run(&mut machine, 4);
    let expected = vec![
        (0, 0), (1, 0), (2, 0), (3, 0),
        (0, 1), (3, 1),
        (0, 2), (1, 2), (2, 2), (3, 2),
        (0, 3), (3, 3),
        (0, 4), (3, 4),
    ];
    assert_eq!(lit_cells(&machine), expected);
}

#[test]
fn draw_wraps_around_the_right_and_the_bottom_edge() {
    // V0 = 60; V1 = 31; I = 0x20A; draw 2 rows at (V0, V1); data: 0xFF, 0xFF
    let mut machine =
        machine_with(&[0x60, 0x3C, 0x61, 0x1F, 0xA2, 0x0A, 0xD0, 0x12, 0x00, 0x00, 0xFF, 0xFF]);
    run(&mut machine, 4);
    let expected = vec![
        (0, 0), (1, 0), (2, 0), (3, 0), (60, 0), (61, 0), (62, 0), (63, 0),
        (0, 31), (1, 31), (2, 31), (3, 31), (60, 31), (61, 31), (62, 31), (63, 31),
    ];
    assert_eq!(lit_cells(&machine), expected);
    assert_eq!(machine.register(0xF), 0);
}

#[test]
fn draw_reduces_coordinates_beyond_the_display() {
    // V0 = 70; V1 = 100; I = 0x20A; draw 1 row at (V0, V1); data: 0x80
    let mut machine =
        machine_with(&[0x60, 70, 0x61, 100, 0xA2, 0x0A, 0xD0, 0x11, 0x00, 0x00, 0x80]);
    run(&mut machine, 4);
    assert_eq!(lit_cells(&machine), vec![(70 % 64, 100 % 32)]);
    // V0 = 255; V1 = 255
    let mut machine =
        machine_with(&[0x60, 255, 0x61, 255, 0xA2, 0x0A, 0xD0, 0x11, 0x00, 0x00, 0xC0]);
    run(&mut machine, 4);
    assert_eq!(lit_cells(&machine), vec![(0, 31), (63, 31)]);
}

#[test]
fn draw_twice_restores_the_display_and_reports_the_collision() {
    // V0 = 5; V1 = 9; I = 0x20C; draw 3 rows; draw 3 rows; data
    let mut machine = machine_with(&[
        0x60, 0x05, 0x61, 0x09, 0xA2, 0x0C, 0xD0, 0x13, 0xD0, 0x13, 0x00, 0x00, 0x3C, 0x00, 0xC3,
    ]);
    run(&mut machine, 3);
    let before: Vec<bool> = machine.get_display().to_vec();
    run(&mut machine, 1);
    assert_eq!(machine.register(0xF), 0);
    assert_eq!(lit_cells(&machine).len(), 8);
    run(&mut machine, 1);
    assert_eq!(machine.get_display(), &before[..]);
    assert_eq!(machine.register(0xF), 1);
}

#[test]
fn draw_twice_over_a_picture_restores_the_picture() {
    // glyph 8 at (0, 0), then twice glyph 1 at (1, 0)
    // V0 = 8; I = glyph; V1 = 0; draw; V0 = 1; I = glyph; draw at (V0, V1) twice
    let mut machine = machine_with(&[
        0x60, 0x08, 0xF0, 0x29, 0x61, 0x00, 0xD1, 0x15, 0x60, 0x01, 0xF0, 0x29, 0xD0, 0x15, 0xD0,
        0x15,
    ]);
    run(&mut machine, 4);
    let picture: Vec<bool> = machine.get_display().to_vec();
    run(&mut machine, 3);
    assert_ne!(machine.get_display(), &picture[..]);
    // glyph 1 has pixels on and off the glyph 8: the first drawing collides
    assert_eq!(machine.register(0xF), 1);
    run(&mut machine, 1);
    assert_eq!(machine.get_display(), &picture[..]);
    // the first drawing lit pixels, which the second one puts out
    assert_eq!(machine.register(0xF), 1);
}

#[test]
fn draw_twice_of_a_sprite_that_only_erased_reports_no_collision() {
    // V0 = 0; I = 0x20C; draw 1 row 0xF0; I = 0x20D; draw 1 row 0x60 twice
    let mut machine = machine_with(&[
        0x60, 0x00, 0xA2, 0x0C, 0xD0, 0x01, 0xA2, 0x0D, 0xD0, 0x01, 0xD0, 0x01, 0xF0, 0x60,
    ]);
    run(&mut machine, 3);
    assert_eq!(lit_cells(&machine), vec![(0, 0), (1, 0), (2, 0), (3, 0)]);
    run(&mut machine, 2);
    // the first drawing only put pixels out
    assert_eq!(lit_cells(&machine), vec![(0, 0), (3, 0)]);
    assert_eq!(machine.register(0xF), 1);
    run(&mut machine, 1);
    assert_eq!(lit_cells(&machine), vec![(0, 0), (1, 0), (2, 0), (3, 0)]);
    assert_eq!(machine.register(0xF), 0);
}

#[test]
fn collision_is_reported_once_for_the_whole_sprite() {
    // a lit pixel under the first row only; later rows must not reset the flag
    // V0 = 0; I = 0x20E; draw 1 row 0x80; I = 0x20F; draw 3 rows 0x80, 0x80, 0x80
    let mut machine = machine_with(&[
        0x60, 0x00, 0xA2, 0x0E, 0xD0, 0x01, 0xA2, 0x0F, 0xD0, 0x03, 0x00, 0x00, 0x00, 0x00, 0x80,
        0x80, 0x80, 0x80,
    ]);
    run(&mut machine, 5);
    assert_eq!(lit_cells(&machine), vec![(0, 1), (0, 2)]);
    assert_eq!(machine.register(0xF), 1);
}

#[test]
fn draw_without_collision_clears_the_flag() {
    // VF = 1; V0 = 0; I = 0x20A; draw 1 row at (V0, V0); data 0x80
    let mut machine =
        machine_with(&[0x6F, 0x01, 0x60, 0x00, 0xA2, 0x0A, 0xD0, 0x01, 0x00, 0x00, 0x80]);
    run(&mut machine, 4);
    assert_eq!(machine.register(0xF), 0);
}

#[test]
fn draw_of_zero_rows_changes_only_the_flag() {
    // VF = 1; I = 0xFFF; draw 0 rows
    let mut machine = machine_with(&[0x6F, 0x01, 0xAF, 0xFF, 0xD0, 0x00]);
    run(&mut machine, 3);
    assert!(lit_cells(&machine).is_empty());
    assert_eq!(machine.register(0xF), 0);
}

#[test]
fn draw_reads_the_last_byte_of_memory() {
    let mut program = vec![0u8; 4096 - 0x200];
    // V0 = 0; I = 0xFFF; draw 1 row at (V0, V0)
    program[..6].copy_from_slice(&[0x60, 0x00, 0xAF, 0xFF, 0xD0, 0x01]);
    program[4096 - 0x200 - 1] = 0x81;
    let mut machine = machine_with(&program);
    run(&mut machine, 3);
    assert_eq!(lit_cells(&machine), vec![(0, 0), (7, 0)]);
}

#[test]
fn clear_screen_puts_every_pixel_out() {
    // V0 = 8; I = glyph; draw; clear
    let mut machine = machine_with(&[0x60, 0x08, 0xF0, 0x29, 0xD0, 0x05, 0x0E, 0x00]);
    run(&mut machine, 3);
    assert!(!lit_cells(&machine).is_empty());
    run(&mut machine, 1);
    assert!(lit_cells(&machine).is_empty());
    assert_eq!(machine.get_display().len(), 2048);
}

#[test]
fn blank_sprites_leave_a_cleared_display_dark() {
    // V0 = 8; I = glyph; draw; clear; I = 0x300 (zeros); then draws all over
    let mut machine = machine_with(&[
        0x60, 0x08, 0xF0, 0x29, 0xD0, 0x05, 0x0E, 0x00, 0xA3, 0x00, 0xD0, 0x0F, 0x60, 0x3E, 0x61,
        0x1F, 0xD0, 0x1F, 0xD1, 0x08, 0xD1, 0x11,
    ]);
    run(&mut machine, 11);
    assert!(lit_cells(&machine).is_empty());
    assert_eq!(machine.register(0xF), 0);
}

#[test]
fn sprite_bit_order_covers_all_eight_columns() {
    for col in 0..8usize {
        // V0 = 10; V1 = 20; I = 0x20A; draw 1 row; data: one bit
        let row = 0x80u8 >> col;
        let mut machine =
            machine_with(&[0x60, 10, 0x61, 20, 0xA2, 0x0A, 0xD0, 0x11, 0x00, 0x00, row]);
        run(&mut machine, 4);
        assert_eq!(lit_cells(&machine), vec![(10 + col, 20)]);
    }
}
