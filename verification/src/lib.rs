//! A CHIP-8 virtual machine whose behaviour is stated as a mathematical model
//! and proved against it.
//!
//! What the machine cannot do it refuses with an
//! [`state::EmuError`], and a refused operation leaves it as it was: an
//! instruction word that is no instruction, a memory access outside memory,
//! a call with the call stack full, a return with it empty, a key that is
//! not on the keypad, a program image that does not fit.
//!
//! * [`specs`] holds the geometry of the machine and its font table.
//! * [`state`] is the mathematical model of a machine: what every contract speaks of.
//! * [`sprite`] tells where on the display the bits of a sprite fall.
//! * [`isa`] defines, over that model, what each instruction does.
//! * [`emu`] is the executable machine.
//! * [`laws`] states and proves properties of the instruction set.
//! * [`host`] holds the arithmetic a front end needs to present the machine.
pub mod specs;
pub mod state;
pub mod sprite;
pub mod isa;
pub mod emu;
pub mod laws;
pub mod host;
