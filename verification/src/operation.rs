//! Instruction words and the operations they stand for.
//!
//! An instruction word is sixteen bits, read as four nibbles `c x y n`:
//! `c` selects the class of the instruction, `x` and `y` usually name
//! registers, and the low nibble, the low byte or the low twelve bits carry
//! an immediate operand.
//!
//! Two rows of the table are not where most CHIP-8 interpreters have them:
//! the display is cleared by `0E00`, and registers are loaded from memory by
//! `Fx56`. The words `00E0` and `Fx65` stand for no instruction here.

use vstd::prelude::*;

verus! {

/// One decoded instruction with its operands.
#[derive(Clone, Copy, Debug, PartialEq, Eq, Structural)]
pub enum Operation {
    /// `0000`: do nothing.
    NoOp,
    /// `0E00`: switch every pixel off.
    ClearScreen,
    /// `00EE`: return to the address on top of the call stack.
    ReturnFromSubroutine,
    /// `1nnn`: continue at `addr`.
    Jump { addr: u16 },
    /// `2nnn`: remember the address of the next instruction, continue at `addr`.
    CallSubroutine { addr: u16 },
    /// `3xkk`: skip the next instruction if register `reg` holds `val`.
    SkipIfEqualImmediate { reg: u8, val: u8 },
    /// `4xkk`: skip the next instruction if register `reg` does not hold `val`.
    SkipIfNotEqualImmediate { reg: u8, val: u8 },
    /// `5xy0`: skip the next instruction if the two registers are equal.
    SkipIfRegistersEqual { reg_a: u8, reg_b: u8 },
    /// `6xkk`: load `val` into register `reg`.
    SetImmediate { reg: u8, val: u8 },
    /// `7xkk`: add `val` to register `reg`, modulo 256, flag untouched.
    AddImmediate { reg: u8, val: u8 },
    /// `8xy0`: copy register `src` into register `dst`.
    CopyRegister { dst: u8, src: u8 },
    /// `8xy1`: `dst |= src`.
    OrRegisters { dst: u8, src: u8 },
    /// `8xy2`: `dst &= src`.
    AndRegisters { dst: u8, src: u8 },
    /// `8xy3`: `dst ^= src`.
    XorRegisters { dst: u8, src: u8 },
    /// `8xy4`: `dst += src` modulo 256; the flag register becomes the carry.
    AddRegistersWithCarry { dst: u8, src: u8 },
    /// `8xy5`: `dst -= src` modulo 256; the flag register becomes 1 if no
    /// borrow was needed, else 0.
    SubRegistersWithBorrow { dst: u8, src: u8 },
    /// `8xy6`: the flag register takes the lowest bit of `reg`, which is
    /// then shifted right by one.
    ShiftRightIntoFlag { reg: u8 },
    /// `8xy7`: `dst = src - dst` modulo 256; the flag register becomes 1 if
    /// no borrow was needed, else 0.
    SubRegistersWithBorrowReversed { dst: u8, src: u8 },
    /// `8xyE`: the flag register takes the highest bit of `reg`, which is
    /// then shifted left by one.
    ShiftLeftIntoFlag { reg: u8 },
    /// `9xy0`: skip the next instruction if the two registers differ.
    SkipIfRegistersNotEqual { reg_a: u8, reg_b: u8 },
    /// `Annn`: load `addr` into the index register.
    SetIndex { addr: u16 },
    /// `Bnnn`: continue at `addr` plus the value of register 0.
    JumpWithOffset { addr: u16 },
    /// `Cxkk`: load a random byte, masked with `mask`, into register `reg`.
    SetRandomMasked { reg: u8, mask: u8 },
    /// `Dxyn`: draw the sprite of `rows` rows found at the index register,
    /// at the position held by registers `reg_x` and `reg_y`.
    DrawSprite { reg_x: u8, reg_y: u8, rows: u8 },
    /// `Ex9E`: skip the next instruction if the key named by register `reg`
    /// is down.
    SkipIfKeyPressed { reg: u8 },
    /// `ExA1`: skip the next instruction if the key named by register `reg`
    /// is up.
    SkipIfKeyNotPressed { reg: u8 },
    /// `Fx07`: copy the delay timer into register `reg`.
    StoreDelayTimer { reg: u8 },
    /// `Fx0A`: wait until a key is down, and store its index in register `reg`.
    WaitForKey { reg: u8 },
    /// `Fx15`: copy register `reg` into the delay timer.
    SetDelayTimer { reg: u8 },
    /// `Fx18`: copy register `reg` into the sound timer.
    SetSoundTimer { reg: u8 },
    /// `Fx1E`: add register `reg` to the index register, modulo 65536.
    AddToIndex { reg: u8 },
    /// `Fx29`: point the index register at the glyph of the digit held by
    /// register `reg`.
    SetIndexToFontGlyph { reg: u8 },
    /// `Fx33`: store the three decimal digits of register `reg` at the
    /// index register.
    StoreBcd { reg: u8 },
    /// `Fx55`: store the registers below `reg` at the index register.
    StoreRegistersToMemory { reg: u8 },
    /// `Fx56`: load the registers below `reg` from the index register.
    LoadRegistersFromMemory { reg: u8 },
    /// Any other word.
    Unknown { word: u16 },
}

/// The class nibble `c` of an instruction word `cxyn`.
pub open spec fn class_of(word: u16) -> u8 {
    (word / 0x1000) as u8
}

/// The nibble `x` of an instruction word `cxyn`.
pub open spec fn x_of(word: u16) -> u8 {
    ((word / 0x100) % 0x10) as u8
}

/// The nibble `y` of an instruction word `cxyn`.
pub open spec fn y_of(word: u16) -> u8 {
    ((word / 0x10) % 0x10) as u8
}

/// The nibble `n` of an instruction word `cxyn`.
pub open spec fn n_of(word: u16) -> u8 {
    (word % 0x10) as u8
}

/// The low byte `kk` of an instruction word.
pub open spec fn byte_of(word: u16) -> u8 {
    (word % 0x100) as u8
}

/// The low twelve bits `nnn` of an instruction word.
pub open spec fn addr_of(word: u16) -> u16 {
    (word % 0x1000) as u16
}

impl Operation {
    /// Every register operand names one of the sixteen registers, every
    /// address has twelve bits, and a sprite has at most fifteen rows.
    pub open spec fn well_formed(self) -> bool {
        match self {
            Operation::NoOp
            | Operation::ClearScreen
            | Operation::ReturnFromSubroutine
            | Operation::Unknown { .. } => true,
            Operation::Jump { addr }
            | Operation::CallSubroutine { addr }
            | Operation::SetIndex { addr }
            | Operation::JumpWithOffset { addr } => addr < 0x1000,
            Operation::SkipIfEqualImmediate { reg, .. }
            | Operation::SkipIfNotEqualImmediate { reg, .. }
            | Operation::SetImmediate { reg, .. }
            | Operation::AddImmediate { reg, .. }
            | Operation::SetRandomMasked { reg, .. }
            | Operation::ShiftRightIntoFlag { reg }
            | Operation::ShiftLeftIntoFlag { reg }
            | Operation::SkipIfKeyPressed { reg }
            | Operation::SkipIfKeyNotPressed { reg }
            | Operation::StoreDelayTimer { reg }
            | Operation::WaitForKey { reg }
            | Operation::SetDelayTimer { reg }
            | Operation::SetSoundTimer { reg }
            | Operation::AddToIndex { reg }
            | Operation::SetIndexToFontGlyph { reg }
            | Operation::StoreBcd { reg }
            | Operation::StoreRegistersToMemory { reg }
            | Operation::LoadRegistersFromMemory { reg } => reg < 16,
            Operation::SkipIfRegistersEqual { reg_a, reg_b }
            | Operation::SkipIfRegistersNotEqual { reg_a, reg_b } => reg_a < 16 && reg_b < 16,
            Operation::CopyRegister { dst, src }
            | Operation::OrRegisters { dst, src }
            | Operation::AndRegisters { dst, src }
            | Operation::XorRegisters { dst, src }
            | Operation::AddRegistersWithCarry { dst, src }
            | Operation::SubRegistersWithBorrow { dst, src }
            | Operation::SubRegistersWithBorrowReversed { dst, src } => dst < 16 && src < 16,
            Operation::DrawSprite { reg_x, reg_y, rows } => reg_x < 16 && reg_y < 16 && rows < 16,
        }
    }
}

impl Operation {
    /// The instruction word that is written for this operation. A shift
    /// names one register only; the nibble it leaves unused is written as
    /// zero.
    pub open spec fn encoding(self) -> u16 {
        match self {
            Operation::NoOp => 0x0000,
            Operation::ClearScreen => 0x0E00,
            Operation::ReturnFromSubroutine => 0x00EE,
            Operation::Jump { addr } => (0x1000 + addr) as u16,
            Operation::CallSubroutine { addr } => (0x2000 + addr) as u16,
            Operation::SkipIfEqualImmediate { reg, val } => (0x3000 + 0x100 * reg + val) as u16,
            Operation::SkipIfNotEqualImmediate { reg, val } => (0x4000 + 0x100 * reg + val) as u16,
            Operation::SkipIfRegistersEqual { reg_a, reg_b } => (0x5000 + 0x100 * reg_a + 0x10
                * reg_b) as u16,
            Operation::SetImmediate { reg, val } => (0x6000 + 0x100 * reg + val) as u16,
            Operation::AddImmediate { reg, val } => (0x7000 + 0x100 * reg + val) as u16,
            Operation::CopyRegister { dst, src } => (0x8000 + 0x100 * dst + 0x10 * src) as u16,
            Operation::OrRegisters { dst, src } => (0x8001 + 0x100 * dst + 0x10 * src) as u16,
            Operation::AndRegisters { dst, src } => (0x8002 + 0x100 * dst + 0x10 * src) as u16,
            Operation::XorRegisters { dst, src } => (0x8003 + 0x100 * dst + 0x10 * src) as u16,
            Operation::AddRegistersWithCarry { dst, src } => (0x8004 + 0x100 * dst + 0x10
                * src) as u16,
            Operation::SubRegistersWithBorrow { dst, src } => (0x8005 + 0x100 * dst + 0x10
                * src) as u16,
            Operation::ShiftRightIntoFlag { reg } => (0x8006 + 0x100 * reg) as u16,
            Operation::SubRegistersWithBorrowReversed { dst, src } => (0x8007 + 0x100 * dst + 0x10
                * src) as u16,
            Operation::ShiftLeftIntoFlag { reg } => (0x800E + 0x100 * reg) as u16,
            Operation::SkipIfRegistersNotEqual { reg_a, reg_b } => (0x9000 + 0x100 * reg_a + 0x10
                * reg_b) as u16,
            Operation::SetIndex { addr } => (0xA000 + addr) as u16,
            Operation::JumpWithOffset { addr } => (0xB000 + addr) as u16,
            Operation::SetRandomMasked { reg, mask } => (0xC000 + 0x100 * reg + mask) as u16,
            Operation::DrawSprite { reg_x, reg_y, rows } => (0xD000 + 0x100 * reg_x + 0x10 * reg_y
                + rows) as u16,
            Operation::SkipIfKeyPressed { reg } => (0xE09E + 0x100 * reg) as u16,
            Operation::SkipIfKeyNotPressed { reg } => (0xE0A1 + 0x100 * reg) as u16,
            Operation::StoreDelayTimer { reg } => (0xF007 + 0x100 * reg) as u16,
            Operation::WaitForKey { reg } => (0xF00A + 0x100 * reg) as u16,
            Operation::SetDelayTimer { reg } => (0xF015 + 0x100 * reg) as u16,
            Operation::SetSoundTimer { reg } => (0xF018 + 0x100 * reg) as u16,
            Operation::AddToIndex { reg } => (0xF01E + 0x100 * reg) as u16,
            Operation::SetIndexToFontGlyph { reg } => (0xF029 + 0x100 * reg) as u16,
            Operation::StoreBcd { reg } => (0xF033 + 0x100 * reg) as u16,
            Operation::StoreRegistersToMemory { reg } => (0xF055 + 0x100 * reg) as u16,
            Operation::LoadRegistersFromMemory { reg } => (0xF056 + 0x100 * reg) as u16,
            Operation::Unknown { word } => word,
        }
    }
}

/// The operation that an instruction word stands for: the instruction
/// table, one row per instruction, read from the top. A nibble written `_`
/// belongs to an operand; a word that fits no row is `Unknown`.
pub open spec fn decode_spec(word: u16) -> Operation {
    let x = x_of(word);
    let y = y_of(word);
    let n = n_of(word);
    let kk = byte_of(word);
    let nnn = addr_of(word);
    match (class_of(word), x, y, n) {
        (0x0, 0x0, 0x0, 0x0) => Operation::NoOp,
        (0x0, 0xE, 0x0, 0x0) => Operation::ClearScreen,
        (0x0, 0x0, 0xE, 0xE) => Operation::ReturnFromSubroutine,
        (0x1, _, _, _) => Operation::Jump { addr: nnn },
        (0x2, _, _, _) => Operation::CallSubroutine { addr: nnn },
        (0x3, _, _, _) => Operation::SkipIfEqualImmediate { reg: x, val: kk },
        (0x4, _, _, _) => Operation::SkipIfNotEqualImmediate { reg: x, val: kk },
        (0x5, _, _, 0x0) => Operation::SkipIfRegistersEqual { reg_a: x, reg_b: y },
        (0x6, _, _, _) => Operation::SetImmediate { reg: x, val: kk },
        (0x7, _, _, _) => Operation::AddImmediate { reg: x, val: kk },
        (0x8, _, _, 0x0) => Operation::CopyRegister { dst: x, src: y },
        (0x8, _, _, 0x1) => Operation::OrRegisters { dst: x, src: y },
        (0x8, _, _, 0x2) => Operation::AndRegisters { dst: x, src: y },
        (0x8, _, _, 0x3) => Operation::XorRegisters { dst: x, src: y },
        (0x8, _, _, 0x4) => Operation::AddRegistersWithCarry { dst: x, src: y },
        (0x8, _, _, 0x5) => Operation::SubRegistersWithBorrow { dst: x, src: y },
        (0x8, _, _, 0x6) => Operation::ShiftRightIntoFlag { reg: x },
        (0x8, _, _, 0x7) => Operation::SubRegistersWithBorrowReversed { dst: x, src: y },
        (0x8, _, _, 0xE) => Operation::ShiftLeftIntoFlag { reg: x },
        (0x9, _, _, 0x0) => Operation::SkipIfRegistersNotEqual { reg_a: x, reg_b: y },
        (0xA, _, _, _) => Operation::SetIndex { addr: nnn },
        (0xB, _, _, _) => Operation::JumpWithOffset { addr: nnn },
        (0xC, _, _, _) => Operation::SetRandomMasked { reg: x, mask: kk },
        (0xD, _, _, _) => Operation::DrawSprite { reg_x: x, reg_y: y, rows: n },
        (0xE, _, 0x9, 0xE) => Operation::SkipIfKeyPressed { reg: x },
        (0xE, _, 0xA, 0x1) => Operation::SkipIfKeyNotPressed { reg: x },
        (0xF, _, 0x0, 0x7) => Operation::StoreDelayTimer { reg: x },
        (0xF, _, 0x0, 0xA) => Operation::WaitForKey { reg: x },
        (0xF, _, 0x1, 0x5) => Operation::SetDelayTimer { reg: x },
        (0xF, _, 0x1, 0x8) => Operation::SetSoundTimer { reg: x },
        (0xF, _, 0x1, 0xE) => Operation::AddToIndex { reg: x },
        (0xF, _, 0x2, 0x9) => Operation::SetIndexToFontGlyph { reg: x },
        (0xF, _, 0x3, 0x3) => Operation::StoreBcd { reg: x },
        (0xF, _, 0x5, 0x5) => Operation::StoreRegistersToMemory { reg: x },
        (0xF, _, 0x5, 0x6) => Operation::LoadRegistersFromMemory { reg: x },
        _ => Operation::Unknown { word },
    }
}

/// Decoding yields operands in range: register numbers below sixteen,
/// addresses of twelve bits, sprites of at most fifteen rows.
pub proof fn decoded_is_well_formed(word: u16)
    ensures
        decode_spec(word).well_formed(),
{
}

/// A word is made of its four nibbles, its low byte of the two low nibbles,
/// and its low twelve bits of the three low nibbles.
proof fn lemma_word_of_nibbles(word: u16)
    ensures
        word == 0x1000 * class_of(word) + 0x100 * x_of(word) + 0x10 * y_of(word) + n_of(word),
        byte_of(word) == 0x10 * y_of(word) + n_of(word),
        addr_of(word) == 0x100 * x_of(word) + 0x10 * y_of(word) + n_of(word),
        class_of(word) < 0x10,
        x_of(word) < 0x10,
        y_of(word) < 0x10,
        n_of(word) < 0x10,
{
    assert(word == 0x1000 * (word / 0x1000) + 0x100 * ((word / 0x100) % 0x10) + 0x10 * ((word
        / 0x10) % 0x10) + word % 0x10) by (bit_vector);
    assert(word % 0x100 == 0x10 * ((word / 0x10) % 0x10) + word % 0x10) by (bit_vector);
    assert(word % 0x1000 == 0x100 * ((word / 0x100) % 0x10) + 0x10 * ((word / 0x10) % 0x10) + word
        % 0x10) by (bit_vector);
}

/// The word made of four nibbles has these nibbles.
proof fn lemma_nibbles_of_word(c: u16, x: u16, y: u16, n: u16)
    requires
        c < 0x10,
        x < 0x10,
        y < 0x10,
        n < 0x10,
    ensures
        ({
            let word = (0x1000 * c + 0x100 * x + 0x10 * y + n) as u16;
            &&& word == 0x1000 * c + 0x100 * x + 0x10 * y + n
            &&& class_of(word) == c
            &&& x_of(word) == x
            &&& y_of(word) == y
            &&& n_of(word) == n
            &&& byte_of(word) == 0x10 * y + n
            &&& addr_of(word) == 0x100 * x + 0x10 * y + n
        }),
{
    let word = (0x1000 * c + 0x100 * x + 0x10 * y + n) as u16;
    assert(word / 0x1000 == c && (word / 0x100) % 0x10 == x && (word / 0x10) % 0x10 == y && word
        % 0x10 == n && word % 0x100 == 0x10 * y + n && word % 0x1000 == 0x100 * x + 0x10 * y + n)
        by (bit_vector)
        requires
            word == 0x1000 * c + 0x100 * x + 0x10 * y + n,
            c < 0x10,
            x < 0x10,
            y < 0x10,
            n < 0x10,
    ;
}

/// Every operation with operands in range is what its instruction word
/// decodes to.
pub proof fn decode_inverts_encoding(op: Operation)
    requires
        op.well_formed(),
        !(op is Unknown),
    ensures
        decode_spec(op.encoding()) == op,
{
    match op {
        Operation::NoOp => lemma_nibbles_of_word(0x0, 0x0, 0x0, 0x0),
        Operation::ClearScreen => lemma_nibbles_of_word(0x0, 0xE, 0x0, 0x0),
        Operation::ReturnFromSubroutine => lemma_nibbles_of_word(0x0, 0x0, 0xE, 0xE),
        Operation::Jump { addr } => lemma_addressed(0x1, addr),
        Operation::CallSubroutine { addr } => lemma_addressed(0x2, addr),
        Operation::SkipIfEqualImmediate { reg, val } => lemma_immediate(0x3, reg, val),
        Operation::SkipIfNotEqualImmediate { reg, val } => lemma_immediate(0x4, reg, val),
        Operation::SkipIfRegistersEqual { reg_a, reg_b } => lemma_nibbles_of_word(
            0x5,
            reg_a as u16,
            reg_b as u16,
            0x0,
        ),
        Operation::SetImmediate { reg, val } => lemma_immediate(0x6, reg, val),
        Operation::AddImmediate { reg, val } => lemma_immediate(0x7, reg, val),
        Operation::CopyRegister { dst, src } => lemma_nibbles_of_word(
            0x8,
            dst as u16,
            src as u16,
            0x0,
        ),
        Operation::OrRegisters { dst, src } => lemma_nibbles_of_word(
            0x8,
            dst as u16,
            src as u16,
            0x1,
        ),
        Operation::AndRegisters { dst, src } => lemma_nibbles_of_word(
            0x8,
            dst as u16,
            src as u16,
            0x2,
        ),
        Operation::XorRegisters { dst, src } => lemma_nibbles_of_word(
            0x8,
            dst as u16,
            src as u16,
            0x3,
        ),
        Operation::AddRegistersWithCarry { dst, src } => lemma_nibbles_of_word(
            0x8,
            dst as u16,
            src as u16,
            0x4,
        ),
        Operation::SubRegistersWithBorrow { dst, src } => lemma_nibbles_of_word(
            0x8,
            dst as u16,
            src as u16,
            0x5,
        ),
        Operation::ShiftRightIntoFlag { reg } => lemma_nibbles_of_word(0x8, reg as u16, 0x0, 0x6),
        Operation::SubRegistersWithBorrowReversed { dst, src } => lemma_nibbles_of_word(
            0x8,
            dst as u16,
            src as u16,
            0x7,
        ),
        Operation::ShiftLeftIntoFlag { reg } => lemma_nibbles_of_word(0x8, reg as u16, 0x0, 0xE),
        Operation::SkipIfRegistersNotEqual { reg_a, reg_b } => lemma_nibbles_of_word(
            0x9,
            reg_a as u16,
            reg_b as u16,
            0x0,
        ),
        Operation::SetIndex { addr } => lemma_addressed(0xA, addr),
        Operation::JumpWithOffset { addr } => lemma_addressed(0xB, addr),
        Operation::SetRandomMasked { reg, mask } => lemma_immediate(0xC, reg, mask),
        Operation::DrawSprite { reg_x, reg_y, rows } => lemma_nibbles_of_word(
            0xD,
            reg_x as u16,
            reg_y as u16,
            rows as u16,
        ),
        Operation::SkipIfKeyPressed { reg } => lemma_nibbles_of_word(0xE, reg as u16, 0x9, 0xE),
        Operation::SkipIfKeyNotPressed { reg } => lemma_nibbles_of_word(0xE, reg as u16, 0xA, 0x1),
        Operation::StoreDelayTimer { reg } => lemma_nibbles_of_word(0xF, reg as u16, 0x0, 0x7),
        Operation::WaitForKey { reg } => lemma_nibbles_of_word(0xF, reg as u16, 0x0, 0xA),
        Operation::SetDelayTimer { reg } => lemma_nibbles_of_word(0xF, reg as u16, 0x1, 0x5),
        Operation::SetSoundTimer { reg } => lemma_nibbles_of_word(0xF, reg as u16, 0x1, 0x8),
        Operation::AddToIndex { reg } => lemma_nibbles_of_word(0xF, reg as u16, 0x1, 0xE),
        Operation::SetIndexToFontGlyph { reg } => lemma_nibbles_of_word(0xF, reg as u16, 0x2, 0x9),
        Operation::StoreBcd { reg } => lemma_nibbles_of_word(0xF, reg as u16, 0x3, 0x3),
        Operation::StoreRegistersToMemory { reg } => lemma_nibbles_of_word(
            0xF,
            reg as u16,
            0x5,
            0x5,
        ),
        Operation::LoadRegistersFromMemory { reg } => lemma_nibbles_of_word(
            0xF,
            reg as u16,
            0x5,
            0x6,
        ),
        Operation::Unknown { .. } => {},
    }
}

/// The word made of a class nibble and an address has that class and that
/// address.
proof fn lemma_addressed(class: u16, addr: u16)
    requires
        class < 0x10,
        addr < 0x1000,
    ensures
        ({
            let word = (0x1000 * class + addr) as u16;
            &&& word == 0x1000 * class + addr
            &&& class_of(word) == class
            &&& addr_of(word) == addr
        }),
{
    let word = (0x1000 * class + addr) as u16;
    assert(word / 0x1000 == class && word % 0x1000 == addr) by (bit_vector)
        requires
            word == 0x1000 * class + addr,
            class < 0x10,
            addr < 0x1000,
    ;
}

/// The word made of a class nibble, a register and a byte has that class,
/// that register and that byte.
proof fn lemma_immediate(class: u16, reg: u8, val: u8)
    requires
        class < 0x10,
        reg < 0x10,
    ensures
        ({
            let word = (0x1000 * class + 0x100 * reg + val) as u16;
            &&& word == 0x1000 * class + 0x100 * reg + val
            &&& class_of(word) == class
            &&& x_of(word) == reg
            &&& byte_of(word) == val
        }),
{
    let word = (0x1000 * class + 0x100 * reg + val) as u16;
    assert(word / 0x1000 == class && (word / 0x100) % 0x10 == reg && word % 0x100 == val)
        by (bit_vector)
        requires
            word == 0x1000 * class + 0x100 * reg + val,
            class < 0x10,
            reg < 0x10,
    ;
}

/// A word decodes to one operation only, and that operation is written as
/// the word itself. The one exception is the `y` nibble of a shift, which
/// decoding drops.
pub proof fn encoding_of_decoded(word: u16)
    ensures
        decode_spec(word) is ShiftRightIntoFlag || decode_spec(word) is ShiftLeftIntoFlag
            ==> decode_spec(word).encoding() == word - 0x10 * y_of(word),
        !(decode_spec(word) is ShiftRightIntoFlag || decode_spec(word) is ShiftLeftIntoFlag)
            ==> decode_spec(word).encoding() == word,
{
    lemma_word_of_nibbles(word);
}

/// Splits an instruction word into its four nibbles, highest first.
fn nibbles(word: u16) -> (parts: (u8, u8, u8, u8))
    ensures
        parts.0 == class_of(word),
        parts.1 == x_of(word),
        parts.2 == y_of(word),
        parts.3 == n_of(word),
{
    let c = (word & 0xF000) >> 12;
    let x = (word & 0x0F00) >> 8;
    let y = (word & 0x00F0) >> 4;
    let n = word & 0x000F;
    assert((word & 0xF000) >> 12 == word / 0x1000) by (bit_vector);
    assert((word & 0x0F00) >> 8 == (word / 0x100) % 0x10) by (bit_vector);
    assert((word & 0x00F0) >> 4 == (word / 0x10) % 0x10) by (bit_vector);
    assert(word & 0x000F == word % 0x10) by (bit_vector);
    (c as u8, x as u8, y as u8, n as u8)
}

/// Decodes an instruction word. Decoding never fails: a word outside the
/// instruction table comes back as `Operation::Unknown` and it is for the
/// executor to refuse it.
pub fn decode(word: u16) -> (op: Operation)
    ensures
        op == decode_spec(word),
        op.well_formed(),
{
    let (c, x, y, n) = nibbles(word);
    assert(word & 0x00FF == word % 0x100) by (bit_vector);
    assert(word & 0x0FFF == word % 0x1000) by (bit_vector);
    let kk = (word & 0x00FF) as u8;
    let nnn = word & 0x0FFF;
    match (c, x, y, n) {
        (0x0, 0x0, 0x0, 0x0) => Operation::NoOp,
        (0x0, 0xE, 0x0, 0x0) => Operation::ClearScreen,
        (0x0, 0x0, 0xE, 0xE) => Operation::ReturnFromSubroutine,
        (0x1, _, _, _) => Operation::Jump { addr: nnn },
        (0x2, _, _, _) => Operation::CallSubroutine { addr: nnn },
        (0x3, _, _, _) => Operation::SkipIfEqualImmediate { reg: x, val: kk },
        (0x4, _, _, _) => Operation::SkipIfNotEqualImmediate { reg: x, val: kk },
        (0x5, _, _, 0x0) => Operation::SkipIfRegistersEqual { reg_a: x, reg_b: y },
        (0x6, _, _, _) => Operation::SetImmediate { reg: x, val: kk },
        (0x7, _, _, _) => Operation::AddImmediate { reg: x, val: kk },
        (0x8, _, _, 0x0) => Operation::CopyRegister { dst: x, src: y },
        (0x8, _, _, 0x1) => Operation::OrRegisters { dst: x, src: y },
        (0x8, _, _, 0x2) => Operation::AndRegisters { dst: x, src: y },
        (0x8, _, _, 0x3) => Operation::XorRegisters { dst: x, src: y },
        (0x8, _, _, 0x4) => Operation::AddRegistersWithCarry { dst: x, src: y },
        (0x8, _, _, 0x5) => Operation::SubRegistersWithBorrow { dst: x, src: y },
        (0x8, _, _, 0x6) => Operation::ShiftRightIntoFlag { reg: x },
        (0x8, _, _, 0x7) => Operation::SubRegistersWithBorrowReversed { dst: x, src: y },
        (0x8, _, _, 0xE) => Operation::ShiftLeftIntoFlag { reg: x },
        (0x9, _, _, 0x0) => Operation::SkipIfRegistersNotEqual { reg_a: x, reg_b: y },
        (0xA, _, _, _) => Operation::SetIndex { addr: nnn },
        (0xB, _, _, _) => Operation::JumpWithOffset { addr: nnn },
        (0xC, _, _, _) => Operation::SetRandomMasked { reg: x, mask: kk },
        (0xD, _, _, _) => Operation::DrawSprite { reg_x: x, reg_y: y, rows: n },
        (0xE, _, 0x9, 0xE) => Operation::SkipIfKeyPressed { reg: x },
        (0xE, _, 0xA, 0x1) => Operation::SkipIfKeyNotPressed { reg: x },
        (0xF, _, 0x0, 0x7) => Operation::StoreDelayTimer { reg: x },
        (0xF, _, 0x0, 0xA) => Operation::WaitForKey { reg: x },
        (0xF, _, 0x1, 0x5) => Operation::SetDelayTimer { reg: x },
        (0xF, _, 0x1, 0x8) => Operation::SetSoundTimer { reg: x },
        (0xF, _, 0x1, 0xE) => Operation::AddToIndex { reg: x },
        (0xF, _, 0x2, 0x9) => Operation::SetIndexToFontGlyph { reg: x },
        (0xF, _, 0x3, 0x3) => Operation::StoreBcd { reg: x },
        (0xF, _, 0x5, 0x5) => Operation::StoreRegistersToMemory { reg: x },
        (0xF, _, 0x5, 0x6) => Operation::LoadRegistersFromMemory { reg: x },
        _ => Operation::Unknown { word },
    }
}

} // verus!
