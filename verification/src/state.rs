use vstd::prelude::*;
use crate::specs::{
    FONTSET, FONTSET_SIZE, KEYS_COUNT, RAM_SIZE, REGISTERS_COUNT, SCREEN_SIZE, STACK_SIZE,
    START_ADDR,
};

verus! {

/// The mathematical model of a machine: every contract of the library is
/// stated over values of this type.
#[verifier::ext_equal]
pub struct State {
    /// Program counter: the address of the next instruction. Nothing keeps
    /// it within memory: where it leaves no room for an instruction word,
    /// the next cycle fails.
    pub pc: u16,
    /// Memory, `RAM_SIZE` bytes.
    pub ram: Seq<u8>,
    /// Display, row by row: the pixel at column `x` of row `y` is `screen[x + SCREEN_W * y]`.
    pub screen: Seq<bool>,
    /// Registers V0 to VF.
    pub v: Seq<u8>,
    /// Index register.
    pub i: u16,
    /// Stack pointer: the number of return addresses on the call stack,
    /// which is also the next free slot of it.
    pub sp: u16,
    /// The slots of the call stack; those below `sp` hold return addresses.
    pub stack: Seq<u16>,
    /// Keypad: whether each key is held down.
    pub keys: Seq<bool>,
    /// Delay timer.
    pub dt: u8,
    /// Sound timer.
    pub st: u8,
}

impl State {
    /// The shape every machine has: its fixed sizes, and a stack pointer within the stack.
    pub open spec fn wf(self) -> bool {
        &&& self.ram.len() == RAM_SIZE
        &&& self.screen.len() == SCREEN_SIZE
        &&& self.v.len() == REGISTERS_COUNT
        &&& self.stack.len() == STACK_SIZE
        &&& self.keys.len() == KEYS_COUNT
        &&& self.sp <= STACK_SIZE
    }

    /// The machine as it is when built or reset: the font table at the start
    /// of memory, the program counter at `START_ADDR`, everything else zero.
    pub open spec fn initial() -> State {
        State {
            pc: START_ADDR,
            ram: Seq::new(RAM_SIZE as nat, |a: int| if a < FONTSET_SIZE { FONTSET@[a] } else { 0u8 }),
            screen: blank_screen(),
            v: Seq::new(REGISTERS_COUNT as nat, |r: int| 0u8),
            i: 0,
            sp: 0,
            stack: Seq::new(STACK_SIZE as nat, |k: int| 0u16),
            keys: Seq::new(KEYS_COUNT as nat, |k: int| false),
            dt: 0,
            st: 0,
        }
    }
}

/// A display with no pixel lit.
pub open spec fn blank_screen() -> Seq<bool> {
    Seq::new(SCREEN_SIZE as nat, |p: int| false)
}

/// The ways in which an operation on the machine can fail. A failed
/// operation leaves the machine as it was.
#[derive(Clone, Copy, Debug, PartialEq, Eq)]
pub enum EmuError {
    /// A memory access would fall outside memory, or a program image does
    /// not fit between `START_ADDR` and the end of memory.
    OutOfBounds,
    /// The instruction word, carried here, is not an instruction of the machine.
    UnknownOpcode(u16),
    /// A subroutine call with the call stack full: the stack holds
    /// `STACK_SIZE` return addresses and no more.
    StackOverflow,
    /// A return with the call stack empty.
    StackUnderflow,
    /// A key index that is not on the keypad.
    InvalidKey,
}

/// What one operation did, against what it was to do: on success the machine
/// is the expected one, on failure the error is the expected one and the
/// machine is unchanged.
pub open spec fn outcome_is(
    before: State,
    after: State,
    result: Result<(), EmuError>,
    expected: Result<State, EmuError>,
) -> bool {
    match expected {
        Ok(next) => result is Ok && after =~= next,
        Err(e) => result == Err::<(), EmuError>(e) && after =~= before,
    }
}

} // verus!
