//! The core of a CHIP-8 style virtual machine: sixteen 8-bit registers, 4 KiB
//! of memory, a call stack, a 64 x 32 monochrome display, a sixteen-key pad
//! and two countdown timers, driven one instruction at a time.
//!
//! * [`machine`] holds the executable machine, [`Rusty`]. Its caller loads a
//!   program, then calls [`Rusty::tick`] for every instruction and
//!   [`Rusty::tick_timers`] for every frame, sets keys with
//!   [`Rusty::keypress`] and reads the picture with [`Rusty::get_display`].
//! * [`operation`] holds the instruction table: [`decode`] turns an
//!   instruction word into an [`Operation`].
//! * [`model`] holds the machine as a mathematical value, [`Machine`], and
//!   says what every operation does to it. [`sprite`] does the same for the
//!   display and [`font`] holds the built-in glyphs.
//! * [`laws`] holds what follows for every machine.
//! * [`fault`] lists the conditions under which the machine stops instead of
//!   going on with a corrupted state.

mod entropy;
pub mod fault;
pub mod font;
pub mod laws;
pub mod machine;
pub mod model;
pub mod operation;
pub mod sprite;

pub use crate::fault::Fault;
pub use crate::machine::Rusty;
pub use crate::model::Machine;
pub use crate::operation::{decode, Operation};
pub use crate::sprite::{SCREEN_HEIGHT, SCREEN_WIDTH};
