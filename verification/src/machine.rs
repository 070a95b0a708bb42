//! The executable machine.
//!
//! [`Rusty`] keeps the state in fixed-size arrays. Its view is a
//! [`Machine`], and the contract of every function here says what the
//! function does to that view.

use crate::entropy::random_byte;
use crate::fault::Fault;
use crate::font::{FONTSET, FONTSET_SIZE, GLYPH_SIZE};
use crate::model::{
    low_byte, Machine, FLAG, INSTRUCTION_SIZE, NUM_KEYS, NUM_REGS, RAM_SIZE, STACK_SIZE,
    START_ADDRESS,
};
use crate::operation::{decode, Operation};
use crate::sprite::{sprite_bit, SCREEN_HEIGHT, SCREEN_SIZE, SCREEN_WIDTH, SPRITE_WIDTH};
use vstd::prelude::*;

verus! {

/// The virtual machine.
pub struct Rusty {
    pc: u16,
    ram: [u8; RAM_SIZE],
    screen: [bool; SCREEN_SIZE],
    v_regs: [u8; NUM_REGS],
    i_reg: u16,
    sp: u16,
    stack: [u16; STACK_SIZE],
    keys: [bool; NUM_KEYS],
    delay: u8,
    sound: u8,
}

impl View for Rusty {
    type V = Machine;

    /// The state as a value. Of the stack array only the entries below the
    /// stack pointer are part of it.
    closed spec fn view(&self) -> Machine {
        Machine {
            pc: self.pc,
            memory: self.ram@,
            screen: self.screen@,
            registers: self.v_regs@,
            index: self.i_reg,
            stack: self.stack@.take(self.sp as int),
            keys: self.keys@,
            delay: self.delay,
            sound: self.sound,
        }
    }
}

/// Memory as it is before any program is loaded: the font, then zeros.
fn fresh_memory() -> (ram: [u8; RAM_SIZE])
    ensures
        ram@ == Machine::initial().memory,
{
    let mut ram = [0u8; RAM_SIZE];
    let mut at: usize = 0;
    while at < FONTSET_SIZE
        invariant
            at <= FONTSET_SIZE,
            forall|a: int| 0 <= a < at ==> ram[a] == FONTSET[a],
            forall|a: int| at <= a < RAM_SIZE ==> ram[a] == 0,
        decreases FONTSET_SIZE - at,
    {
        ram[at] = FONTSET[at];
        at += 1;
    }
    ram
}

impl Rusty {
    #[verifier::type_invariant]
    spec fn stack_pointer_in_range(self) -> bool {
        self.sp <= STACK_SIZE
    }

    /// A machine with the font in memory and the program counter on the
    /// start address.
    pub fn new() -> (machine: Self)
        ensures
            machine@ == Machine::initial(),
            machine@.wf(),
    {
        Self {
            pc: START_ADDRESS,
            ram: fresh_memory(),
            screen: [false; SCREEN_SIZE],
            v_regs: [0u8; NUM_REGS],
            i_reg: 0,
            sp: 0,
            stack: [0u16; STACK_SIZE],
            keys: [false; NUM_KEYS],
            delay: 0,
            sound: 0,
        }
    }

    /// Puts the machine back into the state in which `new` made it. A
    /// program that was loaded is gone with the rest of memory.
    pub fn reset(&mut self)
        ensures
            final(self)@ == Machine::initial(),
            final(self)@.wf(),
    {
        proof {
            use_type_invariant(&*self);
        }
        self.pc = START_ADDRESS;
        self.ram = fresh_memory();
        self.screen = [false; SCREEN_SIZE];
        self.v_regs = [0u8; NUM_REGS];
        self.i_reg = 0;
        self.sp = 0;
        self.stack = [0u16; STACK_SIZE];
        self.keys = [false; NUM_KEYS];
        self.delay = 0;
        self.sound = 0;
    }

    /// The display, row by row, `true` for a lit pixel.
    pub fn get_display(&self) -> (pixels: &[bool])
        ensures
            pixels@ == self@.screen,
            pixels@.len() == SCREEN_SIZE,
    {
        &self.screen
    }

    /// Records that key `index` went down or up.
    pub fn keypress(&mut self, index: usize, pressed: bool)
        requires
            index < NUM_KEYS,
        ensures
            final(self)@ == old(self)@.with_key(index as int, pressed),
            final(self)@.wf(),
    {
        proof {
            use_type_invariant(&*self);
        }
        self.keys[index] = pressed;
    }

    /// Copies a program to the start address. A program that does not fit
    /// into memory is refused and nothing is copied.
    pub fn load_rom(&mut self, data: &[u8]) -> (outcome: Result<(), Fault>)
        ensures
            Machine::program_fits(data@.len() as int) ==> outcome is Ok && final(self)@ == old(
                self,
            )@.with_program(data@),
            !Machine::program_fits(data@.len() as int) ==> outcome == Err::<(), Fault>(
                Fault::ProgramTooLarge,
            ) && final(self)@ == old(self)@,
            final(self)@.wf(),
    {
        proof {
            use_type_invariant(&*self);
        }
        let start = START_ADDRESS as usize;
        if data.len() > RAM_SIZE - start {
            return Err(Fault::ProgramTooLarge);
        }
        let mut copied: usize = 0;
        while copied < data.len()
            invariant
                copied <= data@.len() <= RAM_SIZE - start,
                start == START_ADDRESS,
                *self == (Rusty { ram: self.ram, ..*old(self) }),
                self.sp <= STACK_SIZE,
                forall|a: int|
                    start <= a < start + copied ==> self.ram[a] == data@[a - start],
                forall|a: int|
                    0 <= a < RAM_SIZE && !(start <= a < start + copied) ==> self.ram[a] == old(
                        self,
                    ).ram[a],
            decreases data@.len() - copied,
        {
            self.ram[start + copied] = data[copied];
            copied += 1;
        }
        Ok(())
    }

    /// The program counter.
    pub fn program_counter(&self) -> (pc: u16)
        ensures
            pc == self@.pc,
    {
        self.pc
    }

    /// The index register.
    pub fn index_register(&self) -> (index: u16)
        ensures
            index == self@.index,
    {
        self.i_reg
    }

    /// The value of register `index`.
    pub fn register(&self, index: usize) -> (value: u8)
        requires
            index < NUM_REGS,
        ensures
            value == self@.registers[index as int],
    {
        self.v_regs[index]
    }

    /// The byte of memory at `addr`.
    pub fn memory_at(&self, addr: usize) -> (byte: u8)
        requires
            addr < RAM_SIZE,
        ensures
            byte == self@.memory[addr as int],
    {
        self.ram[addr]
    }

    /// The delay timer.
    pub fn delay_timer(&self) -> (value: u8)
        ensures
            value == self@.delay,
    {
        self.delay
    }

    /// The sound timer. A tone is due while it is not zero.
    pub fn sound_timer(&self) -> (value: u8)
        ensures
            value == self@.sound,
    {
        self.sound
    }

    /// Counts both timers down by one, each unless it is zero already.
    /// Returns whether the sound timer reached zero with this tick, which is
    /// when the tone ends.
    pub fn tick_timers(&mut self) -> (sound_ended: bool)
        ensures
            final(self)@ == old(self)@.with_timers_ticked(),
            sound_ended == old(self)@.sound_ends(),
            final(self)@.wf(),
    {
        proof {
            use_type_invariant(&*self);
        }
        if self.delay > 0 {
            self.delay -= 1;
        }
        let mut sound_ended = false;
        if self.sound > 0 {
            if self.sound == 1 {
                sound_ended = true;
            }
            self.sound -= 1;
        }
        sound_ended
    }

    /// Reads the instruction word at the program counter, high byte first,
    /// and moves the program counter past it. Without two bytes of memory
    /// at the program counter nothing is read.
    pub fn fetch(&mut self) -> (outcome: Result<u16, Fault>)
        ensures
            old(self)@.can_fetch() ==> outcome == Ok::<u16, Fault>(
                old(self)@.instruction_word(),
            ) && final(self)@ == old(self)@.with_pc_moved(INSTRUCTION_SIZE as int),
            !old(self)@.can_fetch() ==> outcome == Err::<u16, Fault>(
                Fault::ProgramCounterOutOfBounds,
            ) && final(self)@ == old(self)@,
            final(self)@.wf(),
    {
        proof {
            use_type_invariant(&*self);
        }
        let at = self.pc as usize;
        if at + 1 >= RAM_SIZE {
            return Err(Fault::ProgramCounterOutOfBounds);
        }
        let high = self.ram[at] as u16;
        let low = self.ram[at + 1] as u16;
        let word = (high << 8) | low;
        assert((high << 8) | low == high * 256 + low) by (bit_vector)
            requires
                high < 256,
                low < 256,
        ;
        self.pc += INSTRUCTION_SIZE;
        Ok(word)
    }

    /// Pushes a return address, unless the stack is full.
    fn push(&mut self, val: u16) -> (outcome: Result<(), Fault>)
        ensures
            old(self)@.stack.len() < STACK_SIZE ==> outcome is Ok && final(self)@ == (Machine {
                stack: old(self)@.stack.push(val),
                ..old(self)@
            }),
            old(self)@.stack.len() >= STACK_SIZE ==> outcome == Err::<(), Fault>(
                Fault::StackOverflow,
            ) && final(self)@ == old(self)@,
    {
        proof {
            use_type_invariant(&*self);
        }
        if self.sp as usize >= STACK_SIZE {
            return Err(Fault::StackOverflow);
        }
        self.stack[self.sp as usize] = val;
        self.sp += 1;
        Ok(())
    }

    /// Pops the newest return address, unless the stack is empty.
    fn pop(&mut self) -> (outcome: Result<u16, Fault>)
        ensures
            old(self)@.stack.len() > 0 ==> outcome == Ok::<u16, Fault>(old(self)@.stack.last())
                && final(self)@ == (Machine {
                stack: old(self)@.stack.drop_last(),
                ..old(self)@
            }),
            old(self)@.stack.len() == 0 ==> outcome == Err::<u16, Fault>(Fault::StackUnderflow)
                && final(self)@ == old(self)@,
    {
        proof {
            use_type_invariant(&*self);
        }
        if self.sp == 0 {
            return Err(Fault::StackUnderflow);
        }
        self.sp -= 1;
        Ok(self.stack[self.sp as usize])
    }

    /// Switches every pixel off.
    fn clear_screen(&mut self)
        ensures
            final(self)@ == old(self)@.with_screen_cleared(),
    {
        proof {
            use_type_invariant(&*self);
        }
        self.screen = [false; SCREEN_SIZE];
    }

    /// Returns from a subroutine: continues at the newest return address.
    fn ret_sub(&mut self) -> (outcome: Result<(), Fault>)
        ensures
            old(self)@.stack.len() > 0 ==> outcome is Ok && final(self)@ == old(
                self,
            )@.with_return(),
            old(self)@.stack.len() == 0 ==> outcome == Err::<(), Fault>(Fault::StackUnderflow)
                && final(self)@ == old(self)@,
    {
        match self.pop() {
            Ok(ret_address) => {
                proof {
                    use_type_invariant(&*self);
                }
                self.pc = ret_address;
                Ok(())
            },
            Err(fault) => Err(fault),
        }
    }

    /// Continues at `val`.
    fn jp_addr(&mut self, val: u16)
        ensures
            final(self)@ == old(self)@.with_pc(val),
    {
        proof {
            use_type_invariant(&*self);
        }
        self.pc = val;
    }

    /// Calls the subroutine at `val`: remembers the program counter, which
    /// is on the next instruction, and continues at `val`.
    fn call_addr(&mut self, val: u16) -> (outcome: Result<(), Fault>)
        ensures
            old(self)@.stack.len() < STACK_SIZE ==> outcome is Ok && final(self)@ == old(
                self,
            )@.with_call(val),
            old(self)@.stack.len() >= STACK_SIZE ==> outcome == Err::<(), Fault>(
                Fault::StackOverflow,
            ) && final(self)@ == old(self)@,
    {
        match self.push(self.pc) {
            Ok(()) => {
                proof {
                    use_type_invariant(&*self);
                }
                self.pc = val;
                Ok(())
            },
            Err(fault) => Err(fault),
        }
    }

    /// Moves the program counter past the next instruction.
    fn skip(&mut self)
        requires
            old(self)@.pc <= RAM_SIZE,
        ensures
            final(self)@ == old(self)@.with_pc_moved(INSTRUCTION_SIZE as int),
    {
        proof {
            use_type_invariant(&*self);
        }
        self.pc += INSTRUCTION_SIZE;
    }

    /// Skips the next instruction if register `reg` holds `val`.
    fn skip_eq(&mut self, reg: usize, val: u8)
        requires
            reg < NUM_REGS,
            old(self)@.pc <= RAM_SIZE,
        ensures
            final(self)@ == old(self)@.skip_if(old(self)@.registers[reg as int] == val),
    {
        let reg_val = self.v_regs[reg];
        if reg_val == val {
            self.skip();
        }
    }

    /// Skips the next instruction if register `reg` does not hold `val`.
    fn skip_neq(&mut self, reg: usize, val: u8)
        requires
            reg < NUM_REGS,
            old(self)@.pc <= RAM_SIZE,
        ensures
            final(self)@ == old(self)@.skip_if(old(self)@.registers[reg as int] != val),
    {
        let reg_val = self.v_regs[reg];
        if reg_val != val {
            self.skip();
        }
    }

    /// Skips the next instruction if the two registers hold the same value.
    fn skip_reg_eq(&mut self, reg_1: usize, reg_2: usize)
        requires
            reg_1 < NUM_REGS,
            reg_2 < NUM_REGS,
            old(self)@.pc <= RAM_SIZE,
        ensures
            final(self)@ == old(self)@.skip_if(
                old(self)@.registers[reg_1 as int] == old(self)@.registers[reg_2 as int],
            ),
    {
        if self.v_regs[reg_1] == self.v_regs[reg_2] {
            self.skip();
        }
    }

    /// Loads `val` into register `reg`.
    fn set_reg(&mut self, reg: usize, val: u8)
        requires
            reg < NUM_REGS,
        ensures
            final(self)@ == old(self)@.with_register(reg as int, val),
    {
        proof {
            use_type_invariant(&*self);
        }
        self.v_regs[reg] = val;
    }

    /// Adds `val` to register `reg`, modulo 256. The flag is not touched.
    fn add_to_reg(&mut self, reg: usize, val: u8)
        requires
            reg < NUM_REGS,
        ensures
            final(self)@ == old(self)@.with_register(
                reg as int,
                low_byte(old(self)@.registers[reg as int] + val),
            ),
    {
        let sum = self.v_regs[reg].wrapping_add(val);
        self.set_reg(reg, sum);
    }

    /// Copies register `reg_2` into register `reg_1`.
    fn ld_reg_to_reg(&mut self, reg_1: usize, reg_2: usize)
        requires
            reg_1 < NUM_REGS,
            reg_2 < NUM_REGS,
        ensures
            final(self)@ == old(self)@.with_register(
                reg_1 as int,
                old(self)@.registers[reg_2 as int],
            ),
    {
        let val = self.v_regs[reg_2];
        self.set_reg(reg_1, val);
    }

    /// Ors register `reg_2` into register `reg_1`.
    fn or_reg(&mut self, reg_1: usize, reg_2: usize)
        requires
            reg_1 < NUM_REGS,
            reg_2 < NUM_REGS,
        ensures
            final(self)@ == old(self)@.with_register(
                reg_1 as int,
                old(self)@.registers[reg_1 as int] | old(self)@.registers[reg_2 as int],
            ),
    {
        let val = self.v_regs[reg_1] | self.v_regs[reg_2];
        self.set_reg(reg_1, val);
    }

    /// Ands register `reg_2` into register `reg_1`.
    fn and_reg(&mut self, reg_1: usize, reg_2: usize)
        requires
            reg_1 < NUM_REGS,
            reg_2 < NUM_REGS,
        ensures
            final(self)@ == old(self)@.with_register(
                reg_1 as int,
                old(self)@.registers[reg_1 as int] & old(self)@.registers[reg_2 as int],
            ),
    {
        let val = self.v_regs[reg_1] & self.v_regs[reg_2];
        self.set_reg(reg_1, val);
    }

    /// Exclusive-ors register `reg_2` into register `reg_1`.
    fn xor_reg(&mut self, reg_1: usize, reg_2: usize)
        requires
            reg_1 < NUM_REGS,
            reg_2 < NUM_REGS,
        ensures
            final(self)@ == old(self)@.with_register(
                reg_1 as int,
                old(self)@.registers[reg_1 as int] ^ old(self)@.registers[reg_2 as int],
            ),
    {
        let val = self.v_regs[reg_1] ^ self.v_regs[reg_2];
        self.set_reg(reg_1, val);
    }

    /// Adds register `reg_2` to register `reg_1`, modulo 256, and then sets
    /// the flag register to the carry.
    fn add_w_carry(&mut self, reg_1: usize, reg_2: usize)
        requires
            reg_1 < NUM_REGS,
            reg_2 < NUM_REGS,
        ensures
            final(self)@ == old(self)@.with_sum(reg_1 as int, reg_2 as int),
    {
        let left = self.v_regs[reg_1];
        let right = self.v_regs[reg_2];
        let new_reg_1 = left.wrapping_add(right);
        let vf: u8 = if right > u8::MAX - left {
            1
        } else {
            0
        };
        self.set_reg(reg_1, new_reg_1);
        self.set_reg(FLAG, vf);
    }

    /// Subtracts register `reg_2` from register `reg_1`, modulo 256, and
    /// then sets the flag register to 1 if nothing was borrowed, else to 0.
    fn sub_w_borrow(&mut self, reg_1: usize, reg_2: usize)
        requires
            reg_1 < NUM_REGS,
            reg_2 < NUM_REGS,
        ensures
            final(self)@ == old(self)@.with_difference(reg_1 as int, reg_2 as int),
    {
        let left = self.v_regs[reg_1];
        let right = self.v_regs[reg_2];
        let new_reg_1 = left.wrapping_sub(right);
        let vf: u8 = if right > left {
            0
        } else {
            1
        };
        self.set_reg(reg_1, new_reg_1);
        self.set_reg(FLAG, vf);
    }

    /// Shifts register `reg` right by one bit, and then sets the flag
    /// register to the bit that fell out.
    fn sr(&mut self, reg: usize)
        requires
            reg < NUM_REGS,
        ensures
            final(self)@ == old(self)@.with_shift_right(reg as int),
    {
        let value = self.v_regs[reg];
        let lsb = value & 0x1;
        assert(value & 0x1 == value % 2) by (bit_vector);
        assert(value >> 1 == value / 2) by (bit_vector);
        self.set_reg(reg, value >> 1);
        self.set_reg(FLAG, lsb);
    }

    /// Sets register `reg_1` to register `reg_2` minus register `reg_1`,
    /// modulo 256, and then sets the flag register to 1 if nothing was
    /// borrowed, else to 0.
    fn sub_w_borrow_rev(&mut self, reg_1: usize, reg_2: usize)
        requires
            reg_1 < NUM_REGS,
            reg_2 < NUM_REGS,
        ensures
            final(self)@ == old(self)@.with_reversed_difference(reg_1 as int, reg_2 as int),
    {
        let left = self.v_regs[reg_2];
        let right = self.v_regs[reg_1];
        let new_reg_1 = left.wrapping_sub(right);
        let vf: u8 = if right > left {
            0
        } else {
            1
        };
        self.set_reg(reg_1, new_reg_1);
        self.set_reg(FLAG, vf);
    }

    /// Shifts register `reg` left by one bit, and then sets the flag register
    /// to the bit that fell out.
    fn sl(&mut self, reg: usize)
        requires
            reg < NUM_REGS,
        ensures
            final(self)@ == old(self)@.with_shift_left(reg as int),
    {
        let value = self.v_regs[reg];
        let msb = (value & 0x80) >> 7;
        assert((value & 0x80) >> 7 == value / 128) by (bit_vector);
        assert(value << 1 == (value * 2) % 256) by (bit_vector);
        self.set_reg(reg, value << 1);
        self.set_reg(FLAG, msb);
    }

    /// Skips the next instruction if the two registers hold different
    /// values.
    fn skip_reg_neq(&mut self, reg_1: usize, reg_2: usize)
        requires
            reg_1 < NUM_REGS,
            reg_2 < NUM_REGS,
            old(self)@.pc <= RAM_SIZE,
        ensures
            final(self)@ == old(self)@.skip_if(
                old(self)@.registers[reg_1 as int] != old(self)@.registers[reg_2 as int],
            ),
    {
        if self.v_regs[reg_1] != self.v_regs[reg_2] {
            self.skip();
        }
    }

    /// Loads `val` into the index register.
    fn ld_i(&mut self, val: u16)
        ensures
            final(self)@ == old(self)@.with_index(val),
    {
        proof {
            use_type_invariant(&*self);
        }
        self.i_reg = val;
    }

    /// Continues at `val` plus the value of register 0.
    fn jp(&mut self, val: u16)
        requires
            val < 0x1000,
        ensures
            final(self)@ == old(self)@.with_pc((val + old(self)@.registers[0]) as u16),
    {
        proof {
            use_type_invariant(&*self);
        }
        self.pc = (self.v_regs[0x0] as u16) + val;
    }

    /// Stores the random byte `byte`, masked with `val`, in register `reg`.
    fn rand(&mut self, reg: usize, val: u8, byte: u8)
        requires
            reg < NUM_REGS,
        ensures
            final(self)@ == old(self)@.with_register(reg as int, byte & val),
    {
        self.set_reg(reg, byte & val);
    }

    /// Skips the next instruction if the key named by register `reg` is
    /// down. A register value that names no key is a fault.
    fn skip_if_press(&mut self, reg: usize) -> (outcome: Result<(), Fault>)
        requires
            reg < NUM_REGS,
            old(self)@.pc <= RAM_SIZE,
        ensures
            old(self)@.names_key(reg as int) ==> outcome is Ok && final(self)@ == old(
                self,
            )@.skip_if(old(self)@.key_down(reg as int)),
            !old(self)@.names_key(reg as int) ==> outcome == Err::<(), Fault>(
                Fault::KeyOutOfRange,
            ) && final(self)@ == old(self)@,
    {
        let index = self.v_regs[reg] as usize;
        if index >= NUM_KEYS {
            return Err(Fault::KeyOutOfRange);
        }
        let key = self.keys[index];
        if key {
            self.skip();
        }
        Ok(())
    }

    /// Skips the next instruction if the key named by register `reg` is up.
    /// A register value that names no key is a fault.
    fn skip_not_press(&mut self, reg: usize) -> (outcome: Result<(), Fault>)
        requires
            reg < NUM_REGS,
            old(self)@.pc <= RAM_SIZE,
        ensures
            old(self)@.names_key(reg as int) ==> outcome is Ok && final(self)@ == old(
                self,
            )@.skip_if(!old(self)@.key_down(reg as int)),
            !old(self)@.names_key(reg as int) ==> outcome == Err::<(), Fault>(
                Fault::KeyOutOfRange,
            ) && final(self)@ == old(self)@,
    {
        let index = self.v_regs[reg] as usize;
        if index >= NUM_KEYS {
            return Err(Fault::KeyOutOfRange);
        }
        let key = self.keys[index];
        if !key {
            self.skip();
        }
        Ok(())
    }

    /// Copies the delay timer into register `reg`.
    fn store_delay(&mut self, reg: usize)
        requires
            reg < NUM_REGS,
        ensures
            final(self)@ == old(self)@.with_register(reg as int, old(self)@.delay),
    {
        let val = self.delay;
        self.set_reg(reg, val);
    }

    /// Copies register `reg` into the delay timer.
    fn set_delay(&mut self, reg: usize)
        requires
            reg < NUM_REGS,
        ensures
            final(self)@ == (Machine {
                delay: old(self)@.registers[reg as int],
                ..old(self)@
            }),
    {
        proof {
            use_type_invariant(&*self);
        }
        self.delay = self.v_regs[reg];
    }

    /// Copies register `reg` into the sound timer.
    fn set_sound(&mut self, reg: usize)
        requires
            reg < NUM_REGS,
        ensures
            final(self)@ == (Machine {
                sound: old(self)@.registers[reg as int],
                ..old(self)@
            }),
    {
        proof {
            use_type_invariant(&*self);
        }
        self.sound = self.v_regs[reg];
    }

    /// Adds register `reg` to the index register, modulo 65536.
    fn add_i_reg(&mut self, reg: usize)
        requires
            reg < NUM_REGS,
        ensures
            final(self)@ == old(self)@.with_index(
                ((old(self)@.index + old(self)@.registers[reg as int]) % 0x10000) as u16,
            ),
    {
        proof {
            use_type_invariant(&*self);
        }
        self.i_reg = self.i_reg.wrapping_add(self.v_regs[reg] as u16);
    }

    /// Points the index register at the glyph for the digit in register
    /// `reg`.
    fn set_i_to_x(&mut self, reg: usize)
        requires
            reg < NUM_REGS,
        ensures
            final(self)@ == old(self)@.with_index(
                (old(self)@.registers[reg as int] * GLYPH_SIZE) as u16,
            ),
    {
        proof {
            use_type_invariant(&*self);
        }
        let reg_value = self.v_regs[reg] as u16;
        assert(reg_value * GLYPH_SIZE <= 255 * 5) by (nonlinear_arith)
            requires
                reg_value <= 255,
                GLYPH_SIZE == 5,
        ;
        self.i_reg = reg_value * (GLYPH_SIZE as u16);
    }

    /// Stores the hundreds, tens and ones of register `reg` in the three
    /// bytes at the index register. If they do not all lie in memory nothing
    /// is stored.
    fn bcd(&mut self, reg: usize) -> (outcome: Result<(), Fault>)
        requires
            reg < NUM_REGS,
        ensures
            old(self)@.index_in_bounds(3) ==> outcome is Ok && final(self)@ == old(
                self,
            )@.with_bcd(reg as int),
            !old(self)@.index_in_bounds(3) ==> outcome == Err::<(), Fault>(
                Fault::MemoryOutOfBounds,
            ) && final(self)@ == old(self)@,
    {
        proof {
            use_type_invariant(&*self);
        }
        let at = self.i_reg as usize;
        if at + 3 > RAM_SIZE {
            return Err(Fault::MemoryOutOfBounds);
        }
        let reg_value = self.v_regs[reg];
        let hundreds = reg_value / 100;
        let tens = (reg_value / 10) % 10;
        let ones = reg_value % 10;
        self.ram[at] = hundreds;
        self.ram[at + 1] = tens;
        self.ram[at + 2] = ones;
        Ok(())
    }

    /// Waits for a key: with a key down, stores the lowest such key in
    /// register `reg`; with none, moves the program counter back onto the
    /// instruction, which the next cycle then executes again.
    fn wait_key(&mut self, reg: usize)
        requires
            reg < NUM_REGS,
            old(self)@.pc >= INSTRUCTION_SIZE,
        ensures
            final(self)@ == old(self)@.with_key_awaited(reg as int),
    {
        proof {
            use_type_invariant(&*self);
        }
        let mut key: usize = 0;
        while key < NUM_KEYS && !self.keys[key]
            invariant
                key <= NUM_KEYS,
                *self == *old(self),
                forall|lower: int| 0 <= lower < key ==> !#[trigger] self.keys@[lower],
            decreases NUM_KEYS - key,
        {
            key += 1;
        }
        if key < NUM_KEYS {
            proof {
                assert(self@.is_lowest_key_down(key as int));
                let chosen = self@.lowest_key_down();
                assert(self@.is_lowest_key_down(chosen));
                assert(chosen == key) by {
                    if chosen < key {
                        assert(!self.keys@[chosen]);
                    } else if key < chosen {
                        assert(!self@.keys[key as int]);
                    }
                }
            }
            self.v_regs[reg] = key as u8;
        } else {
            assert(!self@.any_key_down());
            self.pc -= INSTRUCTION_SIZE;
        }
    }

    /// Stores the registers below `reg` at the index register. If the bytes
    /// do not all lie in memory nothing is stored.
    fn store_vreg(&mut self, reg: usize) -> (outcome: Result<(), Fault>)
        requires
            reg <= NUM_REGS,
        ensures
            old(self)@.index_in_bounds(reg as int) ==> outcome is Ok && final(self)@ == old(
                self,
            )@.with_registers_stored(reg as int),
            !old(self)@.index_in_bounds(reg as int) ==> outcome == Err::<(), Fault>(
                Fault::MemoryOutOfBounds,
            ) && final(self)@ == old(self)@,
    {
        proof {
            use_type_invariant(&*self);
        }
        let base = self.i_reg as usize;
        if base + reg > RAM_SIZE {
            return Err(Fault::MemoryOutOfBounds);
        }
        let mut index: usize = 0;
        while index < reg
            invariant
                index <= reg <= NUM_REGS,
                base == old(self).i_reg,
                base + reg <= RAM_SIZE,
                *self == (Rusty { ram: self.ram, ..*old(self) }),
                self.sp <= STACK_SIZE,
                forall|a: int| base <= a < base + index ==> self.ram[a] == self.v_regs[a - base],
                forall|a: int|
                    0 <= a < RAM_SIZE && !(base <= a < base + index) ==> self.ram[a] == old(
                        self,
                    ).ram[a],
            decreases reg - index,
        {
            self.ram[base + index] = self.v_regs[index];
            index += 1;
        }
        Ok(())
    }

    /// Loads the registers below `reg` from the index register. If the
    /// bytes do not all lie in memory nothing is loaded.
    fn load_vreg(&mut self, reg: usize) -> (outcome: Result<(), Fault>)
        requires
            reg <= NUM_REGS,
        ensures
            old(self)@.index_in_bounds(reg as int) ==> outcome is Ok && final(self)@ == old(
                self,
            )@.with_registers_loaded(reg as int),
            !old(self)@.index_in_bounds(reg as int) ==> outcome == Err::<(), Fault>(
                Fault::MemoryOutOfBounds,
            ) && final(self)@ == old(self)@,
    {
        proof {
            use_type_invariant(&*self);
        }
        let base = self.i_reg as usize;
        if base + reg > RAM_SIZE {
            return Err(Fault::MemoryOutOfBounds);
        }
        let mut index: usize = 0;
        while index < reg
            invariant
                index <= reg <= NUM_REGS,
                base == old(self).i_reg,
                base + reg <= RAM_SIZE,
                *self == (Rusty { v_regs: self.v_regs, ..*old(self) }),
                self.sp <= STACK_SIZE,
                forall|r: int| 0 <= r < index ==> self.v_regs[r] == self.ram[base + r],
                forall|r: int| index <= r < NUM_REGS ==> self.v_regs[r] == old(self).v_regs[r],
            decreases reg - index,
        {
            self.v_regs[index] = self.ram[base + index];
            index += 1;
        }
        Ok(())
    }

    /// Draws the sprite of `rows` rows at the index register on the display,
    /// at the column in register `reg_1` and the row in register `reg_2`,
    /// and then sets the flag register to 1 if a lit pixel went dark, else
    /// to 0. If the rows do not all lie in memory nothing is drawn.
    fn draw_sprite(&mut self, reg_1: usize, reg_2: usize, rows: u16) -> (outcome: Result<
        (),
        Fault,
    >)
        requires
            reg_1 < NUM_REGS,
            reg_2 < NUM_REGS,
            rows < 16,
        ensures
            old(self)@.index_in_bounds(rows as int) ==> outcome is Ok && final(self)@ == old(
                self,
            )@.with_sprite(reg_1 as int, reg_2 as int, rows as int),
            !old(self)@.index_in_bounds(rows as int) ==> outcome == Err::<(), Fault>(
                Fault::MemoryOutOfBounds,
            ) && final(self)@ == old(self)@,
    {
        proof {
            use_type_invariant(&*self);
        }
        let base = self.i_reg as usize;
        if base + rows as usize > RAM_SIZE {
            return Err(Fault::MemoryOutOfBounds);
        }
        let x = self.v_regs[reg_1] as usize;
        let y = self.v_regs[reg_2] as usize;
        let ghost sprite = self@.sprite_at(reg_1 as int, reg_2 as int, rows as int);
        let ghost before = self.screen@;

        proof {
            sprite.lemma_nothing_done(before);
        }
        let mut pixel_flipped = false;
        let mut y_line: u16 = 0;
        while y_line < rows
            invariant
                y_line <= rows < 16,
                base + rows <= RAM_SIZE,
                x < 256,
                y < 256,
                sprite.x == x,
                sprite.y == y,
                sprite.rows == self.ram@.subrange(base as int, base + rows),
                before.len() == SCREEN_SIZE,
                *self == (Rusty { screen: self.screen, ..*old(self) }),
                self.sp <= STACK_SIZE,
                forall|cell: int|
                    0 <= cell < SCREEN_SIZE ==> self.screen@[cell] == (before[cell]
                        != sprite.covers_within(y_line as int, 0, cell)),
                pixel_flipped == sprite.collides_within(y_line as int, 0, before),
            decreases rows - y_line,
        {
            let pixels = self.ram[base + y_line as usize];
            let mut x_line: u8 = 0;
            while x_line < SPRITE_WIDTH as u8
                invariant
                    y_line < rows < 16,
                    x_line <= SPRITE_WIDTH,
                    x < 256,
                    y < 256,
                    sprite.x == x,
                    sprite.y == y,
                    sprite.rows.len() == rows,
                    pixels == sprite.rows[y_line as int],
                    before.len() == SCREEN_SIZE,
                    *self == (Rusty { screen: self.screen, ..*old(self) }),
                    self.sp <= STACK_SIZE,
                    forall|cell: int|
                        0 <= cell < SCREEN_SIZE ==> self.screen@[cell] == (before[cell]
                            != sprite.covers_within(y_line as int, x_line as int, cell)),
                    pixel_flipped == sprite.collides_within(y_line as int, x_line as int, before),
                decreases SPRITE_WIDTH - x_line,
            {
                let pixel_x = (x + x_line as usize) % SCREEN_WIDTH;
                let pixel_y = (y + y_line as usize) % SCREEN_HEIGHT;
                let index = pixel_x + SCREEN_WIDTH * pixel_y;
                proof {
                    sprite.lemma_pixel_step(y_line as int, x_line as int);
                }
                if pixels & (0x80u8 >> x_line) != 0 {
                    if self.screen[index] {
                        pixel_flipped = true;
                    }
                    self.screen[index] = !self.screen[index];
                }
                proof {
                    sprite.lemma_collision_grows(
                        (y_line as int, x_line as int),
                        (y_line as int, x_line + 1),
                        before,
                        index as int,
                        sprite_bit(pixels, x_line as int),
                    );
                }
                x_line += 1;
            }
            proof {
                sprite.lemma_row_done(y_line as int, before);
            }
            y_line += 1;
        }
        proof {
            sprite.lemma_sprite_done(before);
            assert(self.screen@ =~= sprite.drawn_on(before));
        }
        if pixel_flipped {
            self.v_regs[FLAG] = 1;
        } else {
            self.v_regs[FLAG] = 0;
        }
        Ok(())
    }

    /// Executes one decoded operation. The program counter is past the
    /// instruction already, as `fetch` leaves it. `random` is the byte that
    /// `SetRandomMasked` uses; no other operation looks at it.
    fn execute(&mut self, op: Operation, random: u8) -> (outcome: Result<(), Fault>)
        requires
            op.well_formed(),
            INSTRUCTION_SIZE <= old(self)@.pc <= RAM_SIZE,
        ensures
            old(self)@.settles(old(self)@.execute(op, random), outcome, final(self)@),
    {
        match op {
            Operation::NoOp => {},
            Operation::ClearScreen => self.clear_screen(),
            Operation::ReturnFromSubroutine => return self.ret_sub(),
            Operation::Jump { addr } => self.jp_addr(addr),
            Operation::CallSubroutine { addr } => return self.call_addr(addr),
            Operation::SkipIfEqualImmediate { reg, val } => self.skip_eq(reg as usize, val),
            Operation::SkipIfNotEqualImmediate { reg, val } => self.skip_neq(reg as usize, val),
            Operation::SkipIfRegistersEqual { reg_a, reg_b } => self.skip_reg_eq(
                reg_a as usize,
                reg_b as usize,
            ),
            Operation::SetImmediate { reg, val } => self.set_reg(reg as usize, val),
            Operation::AddImmediate { reg, val } => self.add_to_reg(reg as usize, val),
            Operation::CopyRegister { dst, src } => self.ld_reg_to_reg(dst as usize, src as usize),
            Operation::OrRegisters { dst, src } => self.or_reg(dst as usize, src as usize),
            Operation::AndRegisters { dst, src } => self.and_reg(dst as usize, src as usize),
            Operation::XorRegisters { dst, src } => self.xor_reg(dst as usize, src as usize),
            Operation::AddRegistersWithCarry { dst, src } => self.add_w_carry(
                dst as usize,
                src as usize,
            ),
            Operation::SubRegistersWithBorrow { dst, src } => self.sub_w_borrow(
                dst as usize,
                src as usize,
            ),
            Operation::ShiftRightIntoFlag { reg } => self.sr(reg as usize),
            Operation::SubRegistersWithBorrowReversed { dst, src } => self.sub_w_borrow_rev(
                dst as usize,
                src as usize,
            ),
            Operation::ShiftLeftIntoFlag { reg } => self.sl(reg as usize),
            Operation::SkipIfRegistersNotEqual { reg_a, reg_b } => self.skip_reg_neq(
                reg_a as usize,
                reg_b as usize,
            ),
            Operation::SetIndex { addr } => self.ld_i(addr),
            Operation::JumpWithOffset { addr } => self.jp(addr),
            Operation::SetRandomMasked { reg, mask } => self.rand(reg as usize, mask, random),
            Operation::DrawSprite { reg_x, reg_y, rows } => return self.draw_sprite(
                reg_x as usize,
                reg_y as usize,
                rows as u16,
            ),
            Operation::SkipIfKeyPressed { reg } => return self.skip_if_press(reg as usize),
            Operation::SkipIfKeyNotPressed { reg } => return self.skip_not_press(reg as usize),
            Operation::StoreDelayTimer { reg } => self.store_delay(reg as usize),
            Operation::WaitForKey { reg } => self.wait_key(reg as usize),
            Operation::SetDelayTimer { reg } => self.set_delay(reg as usize),
            Operation::SetSoundTimer { reg } => self.set_sound(reg as usize),
            Operation::AddToIndex { reg } => self.add_i_reg(reg as usize),
            Operation::SetIndexToFontGlyph { reg } => self.set_i_to_x(reg as usize),
            Operation::StoreBcd { reg } => return self.bcd(reg as usize),
            Operation::StoreRegistersToMemory { reg } => return self.store_vreg(reg as usize),
            Operation::LoadRegistersFromMemory { reg } => return self.load_vreg(reg as usize),
            Operation::Unknown { word } => return Err(
                Fault::UnknownInstruction { pc: self.pc - INSTRUCTION_SIZE, word },
            ),
        }
        Ok(())
    }

    /// Executes the operation that was fetched at `start`. On a fault the
    /// program counter goes back to `start`, so that the machine is as it
    /// was before the fetch.
    fn execute_fetched(&mut self, start: u16, op: Operation, random: u8) -> (outcome: Result<
        (),
        Fault,
    >)
        requires
            op.well_formed(),
            start + 1 < RAM_SIZE,
            old(self)@.pc == start + INSTRUCTION_SIZE,
        ensures
            old(self)@.with_pc(start).settles(
                old(self)@.execute(op, random),
                outcome,
                final(self)@,
            ),
            final(self)@.wf(),
    {
        let outcome = self.execute(op, random);
        proof {
            use_type_invariant(&*self);
        }
        if outcome.is_err() {
            self.pc = start;
        }
        outcome
    }

    /// Runs one cycle with `random` as the byte that a `SetRandomMasked`
    /// instruction would draw: fetches the word at the program counter,
    /// decodes it and executes the operation. On a fault the machine is left
    /// as it was, the program counter still on the instruction that failed.
    pub fn tick_with(&mut self, random: u8) -> (outcome: Result<(), Fault>)
        ensures
            old(self)@.settles(old(self)@.step(random), outcome, final(self)@),
            final(self)@.wf(),
    {
        let start = self.pc;
        match self.fetch() {
            Ok(op_code) => self.execute_fetched(start, decode(op_code), random),
            Err(fault) => Err(fault),
        }
    }

    /// Runs one cycle: fetch, decode, execute. A `SetRandomMasked`
    /// instruction draws its byte from the thread's random number generator,
    /// so the cycle is one of those that `tick_with` can run.
    pub fn tick(&mut self) -> (outcome: Result<(), Fault>)
        ensures
            exists|random: u8|
                old(self)@.settles(#[trigger] old(self)@.step(random), outcome, final(self)@),
            final(self)@.wf(),
    {
        let start = self.pc;
        match self.fetch() {
            Ok(op_code) => {
                let op = decode(op_code);
                let random = match op {
                    Operation::SetRandomMasked { .. } => random_byte(),
                    _ => 0,
                };
                let outcome = self.execute_fetched(start, op, random);
                assert(old(self)@.settles(old(self)@.step(random), outcome, self@));
                outcome
            },
            Err(fault) => {
                assert(old(self)@.settles(old(self)@.step(0), Err(fault), self@));
                Err(fault)
            },
        }
    }
}

} // verus!
