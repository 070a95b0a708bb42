//! The machine as a value: what every operation of the virtual machine
//! means, stated on sequences and integers.
//!
//! [`Machine`] is the view of the executable machine. The functions here say
//! what each instruction does to it; the executable code is proved to do the
//! same.

use crate::fault::Fault;
use crate::font::{FONTSET, FONTSET_SIZE, GLYPH_SIZE};
use crate::operation::{decode_spec, Operation};
use crate::sprite::{Sprite, SCREEN_SIZE};
use vstd::prelude::*;

verus! {

/// Bytes of memory.
pub const RAM_SIZE: usize = 4096;

/// General-purpose registers.
pub const NUM_REGS: usize = 16;

/// Return addresses that the call stack can hold.
pub const STACK_SIZE: usize = 16;

/// Keys of the key pad.
pub const NUM_KEYS: usize = 16;

/// Where a program is loaded and where execution starts.
pub const START_ADDRESS: u16 = 0x0200;

/// The register that doubles as carry, borrow and collision flag.
pub const FLAG: usize = 0xF;

/// Bytes that each instruction takes.
pub const INSTRUCTION_SIZE: u16 = 2;

/// The whole state of the virtual machine.
#[verifier::ext_equal]
pub struct Machine {
    /// Address of the next instruction.
    pub pc: u16,
    /// The memory, font first.
    pub memory: Seq<u8>,
    /// The display, row-major, `true` for a lit pixel.
    pub screen: Seq<bool>,
    /// The general-purpose registers; the last one is the flag.
    pub registers: Seq<u8>,
    /// The index register.
    pub index: u16,
    /// The return addresses of the calls in progress, oldest first.
    pub stack: Seq<u16>,
    /// The key pad, `true` for a key that is down.
    pub keys: Seq<bool>,
    /// The delay timer.
    pub delay: u8,
    /// The sound timer.
    pub sound: u8,
}

/// `value` reduced to eight bits.
pub open spec fn low_byte(value: int) -> u8 {
    (value % 256) as u8
}

/// The flag value for a condition.
pub open spec fn flag_of(condition: bool) -> u8 {
    if condition {
        1
    } else {
        0
    }
}

impl Machine {
    /// Every part has its fixed size and the call stack is within its
    /// capacity.
    pub open spec fn wf(self) -> bool {
        &&& self.memory.len() == RAM_SIZE
        &&& self.screen.len() == SCREEN_SIZE
        &&& self.registers.len() == NUM_REGS
        &&& self.keys.len() == NUM_KEYS
        &&& self.stack.len() <= STACK_SIZE
    }

    /// The machine as it is created: the font at the bottom of memory, the
    /// program counter at the start address, everything else zero.
    pub open spec fn initial() -> Machine {
        Machine {
            pc: START_ADDRESS,
            memory: Seq::new(
                RAM_SIZE as nat,
                |a: int|
                    if a < FONTSET_SIZE {
                        FONTSET[a]
                    } else {
                        0u8
                    },
            ),
            screen: Seq::new(SCREEN_SIZE as nat, |cell: int| false),
            registers: Seq::new(NUM_REGS as nat, |r: int| 0u8),
            index: 0,
            stack: Seq::empty(),
            keys: Seq::new(NUM_KEYS as nat, |k: int| false),
            delay: 0,
            sound: 0,
        }
    }

    /// Whether a program of `len` bytes fits between the start address and
    /// the end of memory.
    pub open spec fn program_fits(len: int) -> bool {
        START_ADDRESS + len <= RAM_SIZE
    }

    /// The machine with `program` copied to the start address.
    pub open spec fn with_program(self, program: Seq<u8>) -> Machine {
        Machine {
            memory: Seq::new(
                RAM_SIZE as nat,
                |a: int|
                    if START_ADDRESS <= a < START_ADDRESS + program.len() {
                        program[a - START_ADDRESS]
                    } else {
                        self.memory[a]
                    },
            ),
            ..self
        }
    }

    /// The machine with key `key` down or up.
    pub open spec fn with_key(self, key: int, pressed: bool) -> Machine {
        Machine { keys: self.keys.update(key, pressed), ..self }
    }

    /// The machine after one tick of the timers: each timer that is not yet
    /// zero has gone down by one.
    pub open spec fn with_timers_ticked(self) -> Machine {
        Machine {
            delay: if self.delay > 0 {
                (self.delay - 1) as u8
            } else {
                0
            },
            sound: if self.sound > 0 {
                (self.sound - 1) as u8
            } else {
                0
            },
            ..self
        }
    }

    /// Whether the next tick of the timers takes the sound timer from one to
    /// zero.
    pub open spec fn sound_ends(self) -> bool {
        self.sound == 1
    }

    /// Whether the program counter addresses two bytes inside memory.
    pub open spec fn can_fetch(self) -> bool {
        self.pc + 1 < RAM_SIZE
    }

    /// The instruction word at the program counter, high byte first.
    pub open spec fn instruction_word(self) -> u16 {
        (self.memory[self.pc as int] * 256 + self.memory[self.pc + 1]) as u16
    }

    /// The machine with the program counter moved by `offset`.
    pub open spec fn with_pc_moved(self, offset: int) -> Machine {
        Machine { pc: (self.pc + offset) as u16, ..self }
    }

    /// The machine with the program counter on `addr`.
    pub open spec fn with_pc(self, addr: u16) -> Machine {
        Machine { pc: addr, ..self }
    }

    /// The machine with the next instruction skipped if `condition` holds.
    pub open spec fn skip_if(self, condition: bool) -> Machine {
        if condition {
            self.with_pc_moved(INSTRUCTION_SIZE as int)
        } else {
            self
        }
    }

    /// The machine with `value` in register `reg`.
    pub open spec fn with_register(self, reg: int, value: u8) -> Machine {
        Machine { registers: self.registers.update(reg, value), ..self }
    }

    /// The machine with `value` in the flag register.
    pub open spec fn with_flag(self, value: u8) -> Machine {
        self.with_register(FLAG as int, value)
    }

    /// The machine with `addr` in the index register.
    pub open spec fn with_index(self, addr: u16) -> Machine {
        Machine { index: addr, ..self }
    }

    /// The machine with a dark display.
    pub open spec fn with_screen_cleared(self) -> Machine {
        Machine { screen: Seq::new(SCREEN_SIZE as nat, |cell: int| false), ..self }
    }

    /// The machine after a call to `addr`: the program counter is pushed.
    pub open spec fn with_call(self, addr: u16) -> Machine {
        Machine { pc: addr, stack: self.stack.push(self.pc), ..self }
    }

    /// The machine after a return: the newest return address is popped into
    /// the program counter.
    pub open spec fn with_return(self) -> Machine {
        Machine { pc: self.stack.last(), stack: self.stack.drop_last(), ..self }
    }

    /// `dst += src` with the carry in the flag register. The flag is written
    /// last.
    pub open spec fn with_sum(self, dst: int, src: int) -> Machine {
        let sum = self.registers[dst] + self.registers[src];
        self.with_register(dst, low_byte(sum)).with_flag(flag_of(sum > 255))
    }

    /// `dst -= src` with "no borrow" in the flag register. The flag is
    /// written last.
    pub open spec fn with_difference(self, dst: int, src: int) -> Machine {
        let difference = self.registers[dst] - self.registers[src];
        self.with_register(dst, low_byte(difference)).with_flag(flag_of(difference >= 0))
    }

    /// `dst = src - dst` with "no borrow" in the flag register. The flag is
    /// written last.
    pub open spec fn with_reversed_difference(self, dst: int, src: int) -> Machine {
        let difference = self.registers[src] - self.registers[dst];
        self.with_register(dst, low_byte(difference)).with_flag(flag_of(difference >= 0))
    }

    /// `reg` halved, with the bit that fell out in the flag register. The
    /// flag is written last.
    pub open spec fn with_shift_right(self, reg: int) -> Machine {
        let value = self.registers[reg];
        self.with_register(reg, (value / 2) as u8).with_flag((value % 2) as u8)
    }

    /// `reg` doubled modulo 256, with the bit that fell out in the flag
    /// register. The flag is written last.
    pub open spec fn with_shift_left(self, reg: int) -> Machine {
        let value = self.registers[reg];
        self.with_register(reg, low_byte(value * 2)).with_flag((value / 128) as u8)
    }

    /// Whether the `count` bytes from the index register on lie inside
    /// memory.
    pub open spec fn index_in_bounds(self, count: int) -> bool {
        self.index + count <= RAM_SIZE
    }

    /// The sprite of `rows` rows found at the index register, placed where
    /// the registers `reg_x` and `reg_y` say.
    pub open spec fn sprite_at(self, reg_x: int, reg_y: int, rows: int) -> Sprite {
        Sprite {
            rows: self.memory.subrange(self.index as int, self.index + rows),
            x: self.registers[reg_x] as int,
            y: self.registers[reg_y] as int,
        }
    }

    /// The machine after that sprite was drawn. The flag register tells
    /// whether a lit pixel went dark; it is written last.
    pub open spec fn with_sprite(self, reg_x: int, reg_y: int, rows: int) -> Machine {
        let sprite = self.sprite_at(reg_x, reg_y, rows);
        Machine { screen: sprite.drawn_on(self.screen), ..self }.with_flag(
            flag_of(sprite.collides_with(self.screen)),
        )
    }

    /// Whether the register `reg` names a key.
    pub open spec fn names_key(self, reg: int) -> bool {
        self.registers[reg] < NUM_KEYS
    }

    /// Whether the key named by register `reg` is down.
    pub open spec fn key_down(self, reg: int) -> bool {
        self.keys[self.registers[reg] as int]
    }

    /// Whether `key` is down and no key with a lower index is.
    pub open spec fn is_lowest_key_down(self, key: int) -> bool {
        &&& 0 <= key < NUM_KEYS
        &&& self.keys[key]
        &&& forall|lower: int| 0 <= lower < key ==> !#[trigger] self.keys[lower]
    }

    /// Whether any key is down.
    pub open spec fn any_key_down(self) -> bool {
        exists|key: int| 0 <= key < NUM_KEYS && #[trigger] self.keys[key]
    }

    /// The lowest key that is down, if any is.
    pub open spec fn lowest_key_down(self) -> int {
        choose|key: int| self.is_lowest_key_down(key)
    }

    /// The machine after waiting for a key: with a key down, its index goes
    /// to register `reg`; with none, the program counter goes back to the
    /// waiting instruction.
    pub open spec fn with_key_awaited(self, reg: int) -> Machine {
        if self.any_key_down() {
            self.with_register(reg, self.lowest_key_down() as u8)
        } else {
            self.with_pc_moved(-(INSTRUCTION_SIZE as int))
        }
    }

    /// The machine with the hundreds, tens and ones of register `reg`
    /// stored at the index register.
    pub open spec fn with_bcd(self, reg: int) -> Machine {
        let value = self.registers[reg] as int;
        let at = self.index as int;
        Machine {
            memory: self.memory.update(at, (value / 100) as u8).update(
                at + 1,
                ((value / 10) % 10) as u8,
            ).update(at + 2, (value % 10) as u8),
            ..self
        }
    }

    /// The machine with the first `count` registers stored at the index
    /// register.
    pub open spec fn with_registers_stored(self, count: int) -> Machine {
        Machine {
            memory: Seq::new(
                RAM_SIZE as nat,
                |a: int|
                    if self.index <= a < self.index + count {
                        self.registers[a - self.index]
                    } else {
                        self.memory[a]
                    },
            ),
            ..self
        }
    }

    /// The machine with the first `count` registers loaded from the index
    /// register.
    pub open spec fn with_registers_loaded(self, count: int) -> Machine {
        Machine {
            registers: Seq::new(
                NUM_REGS as nat,
                |r: int|
                    if r < count {
                        self.memory[self.index + r]
                    } else {
                        self.registers[r]
                    },
            ),
            ..self
        }
    }

    /// What executing `op` makes of the machine, or why it is refused.
    /// `random` is the byte that `SetRandomMasked` draws. The program
    /// counter is taken to be past the instruction already.
    pub open spec fn execute(self, op: Operation, random: u8) -> Result<Machine, Fault> {
        match op {
            Operation::NoOp => Ok(self),
            Operation::ClearScreen => Ok(self.with_screen_cleared()),
            Operation::ReturnFromSubroutine => if self.stack.len() > 0 {
                Ok(self.with_return())
            } else {
                Err(Fault::StackUnderflow)
            },
            Operation::Jump { addr } => Ok(self.with_pc(addr)),
            Operation::CallSubroutine { addr } => if self.stack.len() < STACK_SIZE {
                Ok(self.with_call(addr))
            } else {
                Err(Fault::StackOverflow)
            },
            Operation::SkipIfEqualImmediate { reg, val } => Ok(
                self.skip_if(self.registers[reg as int] == val),
            ),
            Operation::SkipIfNotEqualImmediate { reg, val } => Ok(
                self.skip_if(self.registers[reg as int] != val),
            ),
            Operation::SkipIfRegistersEqual { reg_a, reg_b } => Ok(
                self.skip_if(self.registers[reg_a as int] == self.registers[reg_b as int]),
            ),
            Operation::SetImmediate { reg, val } => Ok(self.with_register(reg as int, val)),
            Operation::AddImmediate { reg, val } => Ok(
                self.with_register(reg as int, low_byte(self.registers[reg as int] + val)),
            ),
            Operation::CopyRegister { dst, src } => Ok(
                self.with_register(dst as int, self.registers[src as int]),
            ),
            Operation::OrRegisters { dst, src } => Ok(
                self.with_register(
                    dst as int,
                    self.registers[dst as int] | self.registers[src as int],
                ),
            ),
            Operation::AndRegisters { dst, src } => Ok(
                self.with_register(
                    dst as int,
                    self.registers[dst as int] & self.registers[src as int],
                ),
            ),
            Operation::XorRegisters { dst, src } => Ok(
                self.with_register(
                    dst as int,
                    self.registers[dst as int] ^ self.registers[src as int],
                ),
            ),
            Operation::AddRegistersWithCarry { dst, src } => Ok(
                self.with_sum(dst as int, src as int),
            ),
            Operation::SubRegistersWithBorrow { dst, src } => Ok(
                self.with_difference(dst as int, src as int),
            ),
            Operation::ShiftRightIntoFlag { reg } => Ok(self.with_shift_right(reg as int)),
            Operation::SubRegistersWithBorrowReversed { dst, src } => Ok(
                self.with_reversed_difference(dst as int, src as int),
            ),
            Operation::ShiftLeftIntoFlag { reg } => Ok(self.with_shift_left(reg as int)),
            Operation::SkipIfRegistersNotEqual { reg_a, reg_b } => Ok(
                self.skip_if(self.registers[reg_a as int] != self.registers[reg_b as int]),
            ),
            Operation::SetIndex { addr } => Ok(self.with_index(addr)),
            Operation::JumpWithOffset { addr } => Ok(
                self.with_pc((addr + self.registers[0]) as u16),
            ),
            Operation::SetRandomMasked { reg, mask } => Ok(
                self.with_register(reg as int, random & mask),
            ),
            Operation::DrawSprite { reg_x, reg_y, rows } => if self.index_in_bounds(rows as int) {
                Ok(self.with_sprite(reg_x as int, reg_y as int, rows as int))
            } else {
                Err(Fault::MemoryOutOfBounds)
            },
            Operation::SkipIfKeyPressed { reg } => if self.names_key(reg as int) {
                Ok(self.skip_if(self.key_down(reg as int)))
            } else {
                Err(Fault::KeyOutOfRange)
            },
            Operation::SkipIfKeyNotPressed { reg } => if self.names_key(reg as int) {
                Ok(self.skip_if(!self.key_down(reg as int)))
            } else {
                Err(Fault::KeyOutOfRange)
            },
            Operation::StoreDelayTimer { reg } => Ok(self.with_register(reg as int, self.delay)),
            Operation::WaitForKey { reg } => Ok(self.with_key_awaited(reg as int)),
            Operation::SetDelayTimer { reg } => Ok(
                Machine { delay: self.registers[reg as int], ..self },
            ),
            Operation::SetSoundTimer { reg } => Ok(
                Machine { sound: self.registers[reg as int], ..self },
            ),
            Operation::AddToIndex { reg } => Ok(
                self.with_index(((self.index + self.registers[reg as int]) % 0x10000) as u16),
            ),
            Operation::SetIndexToFontGlyph { reg } => Ok(
                self.with_index((self.registers[reg as int] * GLYPH_SIZE) as u16),
            ),
            Operation::StoreBcd { reg } => if self.index_in_bounds(3) {
                Ok(self.with_bcd(reg as int))
            } else {
                Err(Fault::MemoryOutOfBounds)
            },
            Operation::StoreRegistersToMemory { reg } => if self.index_in_bounds(reg as int) {
                Ok(self.with_registers_stored(reg as int))
            } else {
                Err(Fault::MemoryOutOfBounds)
            },
            Operation::LoadRegistersFromMemory { reg } => if self.index_in_bounds(reg as int) {
                Ok(self.with_registers_loaded(reg as int))
            } else {
                Err(Fault::MemoryOutOfBounds)
            },
            Operation::Unknown { word } => Err(
                Fault::UnknownInstruction { pc: (self.pc - INSTRUCTION_SIZE) as u16, word },
            ),
        }
    }

    /// One whole cycle: fetch the word at the program counter, move the
    /// program counter past it, decode the word and execute the operation.
    pub open spec fn step(self, random: u8) -> Result<Machine, Fault> {
        if self.can_fetch() {
            self.with_pc_moved(INSTRUCTION_SIZE as int).execute(
                decode_spec(self.instruction_word()),
                random,
            )
        } else {
            Err(Fault::ProgramCounterOutOfBounds)
        }
    }

    /// Whether a machine that was `self` and is now `after`, having reported
    /// `outcome`, has done what `expected` asks for: on success it is the
    /// expected machine; on a fault it reports that fault and is unchanged.
    pub open spec fn settles(
        self,
        expected: Result<Machine, Fault>,
        outcome: Result<(), Fault>,
        after: Machine,
    ) -> bool {
        match expected {
            Ok(next) => outcome is Ok && after == next,
            Err(fault) => outcome == Err::<(), Fault>(fault) && after == self,
        }
    }

    /// The machine after the operations `ops` were executed one after the
    /// other, or the first fault among them.
    pub open spec fn execute_all(self, ops: Seq<Operation>, random: u8) -> Result<Machine, Fault>
        decreases ops.len(),
    {
        if ops.len() == 0 {
            Ok(self)
        } else {
            match self.execute(ops[0], random) {
                Ok(next) => next.execute_all(ops.drop_first(), random),
                Err(fault) => Err(fault),
            }
        }
    }

    /// The machine after one cycle for each byte of `randoms`, the cycle
    /// drawing that byte, or the first fault among them.
    pub open spec fn run(self, randoms: Seq<u8>) -> Result<Machine, Fault>
        decreases randoms.len(),
    {
        if randoms.len() == 0 {
            Ok(self)
        } else {
            match self.step(randoms[0]) {
                Ok(next) => next.run(randoms.drop_first()),
                Err(fault) => Err(fault),
            }
        }
    }
}

} // verus!
