//! What holds of the machine whatever its state: relations between
//! operations, proved from their definitions.

use crate::fault::Fault;
use crate::font::{glyph, FONTSET, FONTSET_SIZE, GLYPH_SIZE};
use crate::model::{flag_of, low_byte, Machine, FLAG, INSTRUCTION_SIZE, NUM_KEYS, NUM_REGS};
use crate::operation::{decode_spec, decoded_is_well_formed, Operation};
use crate::sprite::{Sprite, SCREEN_SIZE};
use vstd::prelude::*;

verus! {

/// Executing a well-formed operation keeps every part of the machine at its
/// size and the call stack within its capacity.
pub proof fn execute_keeps_well_formed(m: Machine, op: Operation, random: u8)
    requires
        m.wf(),
        op.well_formed(),
    ensures
        m.execute(op, random) matches Ok(next) ==> next.wf(),
{
}

/// A cycle keeps every part of the machine at its size and the call stack
/// within its capacity.
pub proof fn step_keeps_well_formed(m: Machine, random: u8)
    requires
        m.wf(),
    ensures
        m.step(random) matches Ok(next) ==> next.wf(),
{
    if m.can_fetch() {
        let op = decode_spec(m.instruction_word());
        decoded_is_well_formed(m.instruction_word());
        execute_keeps_well_formed(m.with_pc_moved(INSTRUCTION_SIZE as int), op, random);
    }
}

/// Addition with carry and subtraction with borrow are inverse to each
/// other: after `dst += src` and then `dst -= src`, register `dst` holds
/// what it held before. After the addition the flag register holds the
/// carry, after the subtraction it tells that the sum was not below what was
/// taken from it.
///
/// This needs the sum to be kept in `dst`, so `dst` is not the flag
/// register, and the subtraction to find in `src` what the addition found
/// there. Both hold whenever `dst`, `src` and the flag register are three
/// different registers.
pub proof fn add_then_sub_restores_register(m: Machine, dst: u8, src: u8, random: u8)
    requires
        m.wf(),
        dst < NUM_REGS,
        src < NUM_REGS,
        dst != FLAG,
        m.with_sum(dst as int, src as int).registers[src as int] == m.registers[src as int],
    ensures
        ({
            let before = m.registers[dst as int];
            let added = m.registers[src as int];
            &&& m.execute(Operation::AddRegistersWithCarry { dst, src }, random) matches Ok(summed)
            &&& summed.registers[dst as int] == low_byte(before + added)
            &&& summed.registers[FLAG as int] == flag_of(before + added > 255)
            &&& summed.execute(Operation::SubRegistersWithBorrow { dst, src }, random) matches Ok(
                restored,
            )
            &&& restored.registers[dst as int] == before
            &&& restored.registers[FLAG as int] == flag_of(low_byte(before + added) >= added)
        }),
{
}

/// The three registers being different is enough for
/// [`add_then_sub_restores_register`].
pub proof fn distinct_registers_keep_operands(m: Machine, dst: u8, src: u8)
    requires
        m.wf(),
        dst < NUM_REGS,
        src < NUM_REGS,
        dst != src,
        dst != FLAG,
        src != FLAG,
    ensures
        m.with_sum(dst as int, src as int).registers[src as int] == m.registers[src as int],
{
}

/// Whether `op` draws a sprite whose rows, read at the index register of
/// `m`, lie in memory and are all zero.
pub open spec fn draws_blank_sprite(m: Machine, op: Operation) -> bool {
    &&& op matches Operation::DrawSprite { rows, .. }
    &&& op.well_formed()
    &&& m.index_in_bounds(rows as int)
    &&& forall|row: int| 0 <= row < rows ==> #[trigger] m.memory[m.index + row] == 0
}

/// A sprite without a set pixel covers no cell.
proof fn lemma_blank_sprite_covers_nothing(sprite: Sprite, cell: int)
    requires
        forall|row: int| 0 <= row < sprite.rows.len() ==> #[trigger] sprite.rows[row] == 0,
    ensures
        !sprite.covers(cell),
{
    assert forall|col: u8| 0u8 & (0x80u8 >> col) == 0 by {
        assert(0u8 & (0x80u8 >> col) == 0) by (bit_vector);
    }
}

/// Drawing blank sprites on a dark display leaves it dark.
proof fn lemma_blank_sprites_keep_screen_dark(
    m: Machine,
    start: Machine,
    draws: Seq<Operation>,
    random: u8,
)
    requires
        m.wf(),
        start.wf(),
        start.memory == m.memory,
        start.index == m.index,
        forall|cell: int| 0 <= cell < SCREEN_SIZE ==> !#[trigger] start.screen[cell],
        forall|i: int| 0 <= i < draws.len() ==> draws_blank_sprite(m, #[trigger] draws[i]),
    ensures
        start.execute_all(draws, random) matches Ok(end) && forall|cell: int|
            0 <= cell < SCREEN_SIZE ==> !#[trigger] end.screen[cell],
    decreases draws.len(),
{
    if draws.len() > 0 {
        let op = draws[0];
        assert(draws_blank_sprite(m, op));
        let rows = op->DrawSprite_rows;
        let next = start.with_sprite(op->reg_x as int, op->reg_y as int, rows as int);
        let sprite = start.sprite_at(op->reg_x as int, op->reg_y as int, rows as int);
        assert forall|row: int| 0 <= row < sprite.rows.len() implies #[trigger] sprite.rows[row]
            == 0 by {
            assert(sprite.rows[row] == m.memory[m.index + row]);
        }
        assert forall|cell: int| 0 <= cell < SCREEN_SIZE implies !#[trigger] next.screen[cell] by {
            lemma_blank_sprite_covers_nothing(sprite, cell);
        }
        let rest = draws.drop_first();
        assert forall|i: int| 0 <= i < rest.len() implies draws_blank_sprite(
            m,
            #[trigger] rest[i],
        ) by {
            assert(rest[i] == draws[i + 1]);
        }
        lemma_blank_sprites_keep_screen_dark(m, next, rest, random);
    }
}

/// After the display was cleared, drawing sprites whose rows are all zero,
/// however many and wherever, leaves every pixel dark.
pub proof fn blank_sprites_leave_cleared_screen_dark(
    m: Machine,
    draws: Seq<Operation>,
    random: u8,
)
    requires
        m.wf(),
        forall|i: int| 0 <= i < draws.len() ==> draws_blank_sprite(m, #[trigger] draws[i]),
    ensures
        m.execute(Operation::ClearScreen, random) matches Ok(cleared) && cleared.execute_all(
            draws,
            random,
        ) matches Ok(end) && forall|cell: int|
            0 <= cell < SCREEN_SIZE ==> !#[trigger] end.screen[cell],
{
    lemma_blank_sprites_keep_screen_dark(m, m.with_screen_cleared(), draws, random);
}

/// Drawing a sprite twice at the same position gives back the display as
/// it was, and the second drawing reports a collision exactly if the first
/// one had lit a pixel.
///
/// Drawing writes the flag register; the position is the same in both
/// drawings if neither coordinate register is the flag register, or if the
/// first drawing left the flag as it found it.
pub proof fn drawing_twice_restores_screen(
    m: Machine,
    reg_x: u8,
    reg_y: u8,
    rows: u8,
    random: u8,
)
    requires
        m.wf(),
        (Operation::DrawSprite { reg_x, reg_y, rows }).well_formed(),
        m.index_in_bounds(rows as int),
        ({
            let once = m.with_sprite(reg_x as int, reg_y as int, rows as int);
            &&& once.registers[reg_x as int] == m.registers[reg_x as int]
            &&& once.registers[reg_y as int] == m.registers[reg_y as int]
        }),
    ensures
        ({
            let draw = Operation::DrawSprite { reg_x, reg_y, rows };
            &&& m.execute(draw, random) matches Ok(once)
            &&& once.execute(draw, random) matches Ok(twice)
            &&& twice.screen == m.screen
            &&& twice.registers[FLAG as int] == flag_of(
                exists|cell: int|
                    0 <= cell < SCREEN_SIZE && !m.screen[cell] && #[trigger] once.screen[cell],
            )
        }),
{
    let sprite = m.sprite_at(reg_x as int, reg_y as int, rows as int);
    let once = m.with_sprite(reg_x as int, reg_y as int, rows as int);
    let twice = once.with_sprite(reg_x as int, reg_y as int, rows as int);
    assert(once.sprite_at(reg_x as int, reg_y as int, rows as int) == sprite);
    assert(twice.screen =~= m.screen);
    let lit_by_first = exists|cell: int|
        0 <= cell < SCREEN_SIZE && !m.screen[cell] && #[trigger] once.screen[cell];
    if lit_by_first {
        let cell = choose|cell: int|
            0 <= cell < SCREEN_SIZE && !m.screen[cell] && #[trigger] once.screen[cell];
        assert(once.screen[cell] && sprite.covers(cell));
    }
    if sprite.collides_with(once.screen) {
        let cell = choose|cell: int|
            0 <= cell < SCREEN_SIZE && once.screen[cell] && #[trigger] sprite.covers(cell);
        assert(!m.screen[cell] && once.screen[cell]);
    }
}

/// Coordinate registers other than the flag register are enough for
/// [`drawing_twice_restores_screen`].
pub proof fn other_registers_keep_position(m: Machine, reg_x: u8, reg_y: u8, rows: u8)
    requires
        m.wf(),
        reg_x < NUM_REGS,
        reg_y < NUM_REGS,
        reg_x != FLAG,
        reg_y != FLAG,
    ensures
        ({
            let once = m.with_sprite(reg_x as int, reg_y as int, rows as int);
            &&& once.registers[reg_x as int] == m.registers[reg_x as int]
            &&& once.registers[reg_y as int] == m.registers[reg_y as int]
        }),
{
}

/// While no key is down, a cycle on a `WaitForKey` instruction changes
/// nothing: the program counter is still on the instruction.
pub proof fn waiting_without_key_changes_nothing(m: Machine, random: u8)
    requires
        m.wf(),
        m.can_fetch(),
        decode_spec(m.instruction_word()) is WaitForKey,
        !m.any_key_down(),
    ensures
        m.step(random) == Ok::<Machine, Fault>(m),
{
    let back = m.with_pc_moved(INSTRUCTION_SIZE as int).with_pc_moved(-(INSTRUCTION_SIZE as int));
    assert(back =~= m);
}

/// While no key is down, no number of cycles takes the machine past a
/// `WaitForKey` instruction.
pub proof fn waiting_without_key_never_advances(m: Machine, randoms: Seq<u8>)
    requires
        m.wf(),
        m.can_fetch(),
        decode_spec(m.instruction_word()) is WaitForKey,
        !m.any_key_down(),
    ensures
        m.run(randoms) == Ok::<Machine, Fault>(m),
    decreases randoms.len(),
{
    if randoms.len() > 0 {
        waiting_without_key_changes_nothing(m, randoms[0]);
        waiting_without_key_never_advances(m, randoms.drop_first());
    }
}

/// With a key down, a cycle on a `WaitForKey` instruction stores the lowest
/// such key in the register and goes on to the next instruction.
pub proof fn waiting_ends_with_key(m: Machine, random: u8)
    requires
        m.wf(),
        m.can_fetch(),
        decode_spec(m.instruction_word()) is WaitForKey,
        m.any_key_down(),
    ensures
        ({
            let reg = decode_spec(m.instruction_word())->WaitForKey_reg;
            &&& m.step(random) matches Ok(next)
            &&& next.pc == m.pc + INSTRUCTION_SIZE
            &&& m.is_lowest_key_down(next.registers[reg as int] as int)
        }),
{
    let fetched = m.with_pc_moved(INSTRUCTION_SIZE as int);
    decoded_is_well_formed(m.instruction_word());
    assert(fetched.any_key_down()) by {
        let key = choose|key: int| 0 <= key < NUM_KEYS && #[trigger] m.keys[key];
        assert(fetched.keys[key]);
    }
    lemma_lowest_key_exists(fetched);
    assert(m.is_lowest_key_down(fetched.lowest_key_down()));
}

/// If any key is down, one of them is the lowest.
proof fn lemma_lowest_key_exists(m: Machine)
    requires
        m.wf(),
        m.any_key_down(),
    ensures
        m.is_lowest_key_down(m.lowest_key_down()),
{
    let some = choose|key: int| 0 <= key < NUM_KEYS && #[trigger] m.keys[key];
    lemma_lowest_key_below(m, some);
}

/// At or below a key that is down there is a lowest key that is down.
proof fn lemma_lowest_key_below(m: Machine, key: int)
    requires
        0 <= key < NUM_KEYS,
        m.keys[key],
    ensures
        exists|lowest: int| m.is_lowest_key_down(lowest),
    decreases key,
{
    if exists|lower: int| 0 <= lower < key && #[trigger] m.keys[lower] {
        let lower = choose|lower: int| 0 <= lower < key && #[trigger] m.keys[lower];
        lemma_lowest_key_below(m, lower);
    } else {
        assert(m.is_lowest_key_down(key));
    }
}

/// The three bytes that `StoreBcd` writes are decimal digits, and they spell
/// the value of the register.
pub proof fn bcd_spells_register(m: Machine, reg: u8, random: u8)
    requires
        m.wf(),
        reg < NUM_REGS,
        m.index_in_bounds(3),
    ensures
        ({
            let at = m.index as int;
            &&& m.execute(Operation::StoreBcd { reg }, random) matches Ok(next)
            &&& next.memory[at] <= 9
            &&& next.memory[at + 1] <= 9
            &&& next.memory[at + 2] <= 9
            &&& 100 * next.memory[at] + 10 * next.memory[at + 1] + next.memory[at + 2]
                == m.registers[reg as int]
        }),
{
}

/// Whether the font is in memory where a new machine has it.
pub open spec fn font_intact(m: Machine) -> bool {
    m.memory.subrange(0, FONTSET_SIZE as int) == FONTSET@
}

/// A new machine has the font in memory.
pub proof fn initial_font_is_intact()
    ensures
        font_intact(Machine::initial()),
{
    assert(Machine::initial().memory.subrange(0, FONTSET_SIZE as int) =~= FONTSET@);
}

/// With the font intact and a digit in the register, `SetIndexToFontGlyph`
/// points the index register at the five rows of the digit's glyph.
pub proof fn glyph_is_at_index(m: Machine, reg: u8, random: u8)
    requires
        m.wf(),
        reg < NUM_REGS,
        m.registers[reg as int] < 16,
        font_intact(m),
    ensures
        ({
            let digit = m.registers[reg as int] as int;
            &&& m.execute(Operation::SetIndexToFontGlyph { reg }, random) matches Ok(next)
            &&& next.index == GLYPH_SIZE * digit
            &&& next.memory.subrange(next.index as int, next.index + GLYPH_SIZE) == glyph(digit)
        }),
{
    let digit = m.registers[reg as int] as int;
    let at = GLYPH_SIZE * digit;
    let font = m.memory.subrange(0, FONTSET_SIZE as int);
    let found = m.memory.subrange(at, at + GLYPH_SIZE);
    assert forall|row: int| 0 <= row < GLYPH_SIZE implies #[trigger] found[row] == glyph(
        digit,
    )[row] by {
        assert(font[at + row] == m.memory[at + row]);
    }
    assert(found =~= glyph(digit));
}

} // verus!
