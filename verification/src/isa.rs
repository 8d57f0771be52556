use vstd::prelude::*;
use crate::specs::{
    GLYPH_SIZE, KEYS_COUNT, RAM_SIZE, REGISTERS_COUNT, SCREEN_SIZE, STACK_SIZE, START_ADDR,
};
use crate::sprite::{sprite_col, sprite_row};
use crate::state::{EmuError, State, blank_screen};

verus! {

/// The four 4-bit fields of an instruction word, most significant first.
pub open spec fn nibbles(op: u16) -> (int, int, int, int) {
    (op as int / 0x1000, (op as int / 0x100) % 16, (op as int / 0x10) % 16, op as int % 16)
}

/// The low byte of an instruction word: an immediate operand.
pub open spec fn low_byte(op: u16) -> u8 {
    (op as int % 0x100) as u8
}

/// The low twelve bits of an instruction word: an address operand.
pub open spec fn address(op: u16) -> u16 {
    (op as int % 0x1000) as u16
}

/// Whether bit `col` of `byte` is set, counting from the most significant bit.
pub open spec fn bit_is_set(byte: u8, col: int) -> bool {
    byte & (0x80u8 >> (col as u8)) != 0
}

/// Whether `k` is the lowest key that is held down.
pub open spec fn is_first_pressed(keys: Seq<bool>, k: int) -> bool {
    &&& 0 <= k < keys.len()
    &&& keys[k]
    &&& forall|j: int| 0 <= j < k ==> !keys[j]
}

/// Whether any key is held down.
pub open spec fn any_pressed(keys: Seq<bool>) -> bool {
    exists|k: int| 0 <= k < keys.len() && keys[k]
}

impl State {
    /// Register `x` receives `value`.
    pub open spec fn set_reg(self, x: int, value: u8) -> State {
        State { v: self.v.update(x, value), ..self }
    }

    /// Register `x` receives `value`, then VF receives `flag`: where `x` is
    /// VF itself, the flag is what stays.
    pub open spec fn set_reg_flag(self, x: int, value: u8, flag: u8) -> State {
        State { v: self.v.update(x, value).update(0xF, flag), ..self }
    }

    /// The next instruction is skipped where `skip` holds.
    pub open spec fn skip_if(self, skip: bool) -> State {
        if skip {
            State { pc: (self.pc + 2) as u16, ..self }
        } else {
            self
        }
    }

    /// The subroutine call: the program counter goes onto the call stack and
    /// execution continues at `target`.
    pub open spec fn call(self, target: u16) -> Result<State, EmuError> {
        if self.sp >= STACK_SIZE {
            Err(EmuError::StackOverflow)
        } else {
            Ok(
                State {
                    pc: target,
                    sp: (self.sp + 1) as u16,
                    stack: self.stack.update(self.sp as int, self.pc),
                    ..self
                },
            )
        }
    }

    /// The return: execution continues at the address on top of the call
    /// stack, which leaves the stack.
    pub open spec fn ret(self) -> Result<State, EmuError> {
        if self.sp == 0 {
            Err(EmuError::StackUnderflow)
        } else {
            Ok(State { pc: self.stack[self.sp - 1], sp: (self.sp - 1) as u16, ..self })
        }
    }

    /// The register-to-register instructions, told apart by `n`. `op` is the
    /// whole instruction word, reported where `n` names none of them.
    pub open spec fn alu(self, x: int, y: int, n: int, op: u16) -> Result<State, EmuError> {
        let a = self.v[x];
        let b = self.v[y];
        if n == 0 {
            Ok(self.set_reg(x, b))
        } else if n == 1 {
            Ok(self.set_reg(x, a | b))
        } else if n == 2 {
            Ok(self.set_reg(x, a & b))
        } else if n == 3 {
            Ok(self.set_reg(x, a ^ b))
        } else if n == 4 {
            Ok(self.set_reg_flag(x, ((a + b) % 256) as u8, if a + b > 255 { 1 } else { 0 }))
        } else if n == 5 {
            Ok(self.set_reg_flag(x, ((a - b) % 256) as u8, if a < b { 0 } else { 1 }))
        } else if n == 6 {
            Ok(self.set_reg_flag(x, a / 2, a % 2))
        } else if n == 7 {
            Ok(self.set_reg_flag(x, ((b - a) % 256) as u8, if b < a { 0 } else { 1 }))
        } else if n == 0xE {
            Ok(self.set_reg_flag(x, ((a * 2) % 256) as u8, a / 128))
        } else {
            Err(EmuError::UnknownOpcode(op))
        }
    }

    /// Whether the sprite of `n` rows that starts at the index register,
    /// drawn with its top left corner at column `vx` and row `vy` and
    /// wrapping round both edges of the display, has a set bit on pixel `p`.
    pub open spec fn sprite_covers(self, vx: int, vy: int, n: int, p: int) -> bool {
        let col = sprite_col(vx, p);
        let row = sprite_row(vy, p);
        &&& col < 8
        &&& row < n
        &&& bit_is_set(self.ram[self.i + row], col)
    }

    /// Whether drawing that sprite turns off a pixel that is lit.
    pub open spec fn sprite_collides(self, vx: int, vy: int, n: int) -> bool {
        exists|p: int|
            0 <= p < SCREEN_SIZE && self.screen[p] && #[trigger] self.sprite_covers(vx, vy, n, p)
    }

    /// The draw instruction: every pixel that the sprite covers is toggled,
    /// and VF tells whether one of them went off.
    pub open spec fn draw(self, x: int, y: int, n: int) -> Result<State, EmuError> {
        let vx = self.v[x] as int;
        let vy = self.v[y] as int;
        if n > 0 && self.i + n > RAM_SIZE {
            Err(EmuError::OutOfBounds)
        } else {
            Ok(
                State {
                    screen: Seq::new(
                        SCREEN_SIZE as nat,
                        |p: int| self.screen[p] != self.sprite_covers(vx, vy, n, p),
                    ),
                    v: self.v.update(0xF, if self.sprite_collides(vx, vy, n) { 1 } else { 0 }),
                    ..self
                },
            )
        }
    }

    /// The two instructions that skip on the state of the key named by
    /// register `x`: the next instruction is skipped where that key is held
    /// down, for `pressed`, or is not, for `!pressed`.
    pub open spec fn skip_on_key(self, x: int, pressed: bool) -> Result<State, EmuError> {
        let key = self.v[x] as int;
        if key >= KEYS_COUNT {
            Err(EmuError::InvalidKey)
        } else {
            Ok(self.skip_if(self.keys[key] == pressed))
        }
    }

    /// The key wait: register `x` receives the lowest key that is held down;
    /// where none is, the program counter goes back to this instruction.
    pub open spec fn wait_key(self, x: int) -> State {
        if any_pressed(self.keys) {
            self.set_reg(x, (choose|k: int| is_first_pressed(self.keys, k)) as u8)
        } else {
            State { pc: (self.pc - 2) as u16, ..self }
        }
    }

    /// The decimal digits of register `x` go to the three bytes at the index register.
    pub open spec fn bcd(self, x: int) -> Result<State, EmuError> {
        let value = self.v[x];
        let at = self.i as int;
        if at + 2 >= RAM_SIZE {
            Err(EmuError::OutOfBounds)
        } else {
            Ok(
                State {
                    ram: self.ram.update(at, value / 100).update(at + 1, (value / 10) % 10).update(
                        at + 2,
                        value % 10,
                    ),
                    ..self
                },
            )
        }
    }

    /// Registers V0 to `x`, inclusive, go to memory from the index register on.
    pub open spec fn store_regs(self, x: int) -> Result<State, EmuError> {
        let at = self.i as int;
        if at + x >= RAM_SIZE {
            Err(EmuError::OutOfBounds)
        } else {
            Ok(
                State {
                    ram: Seq::new(
                        RAM_SIZE as nat,
                        |a: int| if at <= a <= at + x { self.v[a - at] } else { self.ram[a] },
                    ),
                    ..self
                },
            )
        }
    }

    /// Registers V0 to `x`, inclusive, are read from memory from the index register on.
    pub open spec fn load_regs(self, x: int) -> Result<State, EmuError> {
        let at = self.i as int;
        if at + x >= RAM_SIZE {
            Err(EmuError::OutOfBounds)
        } else {
            Ok(
                State {
                    v: Seq::new(
                        REGISTERS_COUNT as nat,
                        |r: int| if r <= x { self.ram[at + r] } else { self.v[r] },
                    ),
                    ..self
                },
            )
        }
    }

    /// The instructions on timers, keys, the index register and memory
    /// blocks, told apart by the low byte `nn` of the instruction word `op`.
    pub open spec fn misc(self, x: int, nn: u8, op: u16) -> Result<State, EmuError> {
        if nn == 0x07 {
            Ok(self.set_reg(x, self.dt))
        } else if nn == 0x0A {
            Ok(self.wait_key(x))
        } else if nn == 0x15 {
            Ok(State { dt: self.v[x], ..self })
        } else if nn == 0x18 {
            Ok(State { st: self.v[x], ..self })
        } else if nn == 0x1E {
            Ok(State { i: ((self.i + self.v[x]) % 0x10000) as u16, ..self })
        } else if nn == 0x29 {
            Ok(State { i: (self.v[x] * GLYPH_SIZE) as u16, ..self })
        } else if nn == 0x33 {
            self.bcd(x)
        } else if nn == 0x55 {
            self.store_regs(x)
        } else if nn == 0x65 {
            self.load_regs(x)
        } else {
            Err(EmuError::UnknownOpcode(op))
        }
    }

    /// What the instruction word `op` does to a machine whose program
    /// counter is already past it. `rnd` is the byte that the random
    /// instruction draws; no other instruction reads it.
    pub open spec fn execute(self, op: u16, rnd: u8) -> Result<State, EmuError> {
        let (h, x, y, n) = nibbles(op);
        let nn = low_byte(op);
        let nnn = address(op);
        if h == 0 && x == 0 && y == 0 && n == 0 {
            Ok(self)
        } else if h == 0 && x == 0 && y == 0xE && n == 0 {
            Ok(State { screen: blank_screen(), ..self })
        } else if h == 0 && x == 0 && y == 0xE && n == 0xE {
            self.ret()
        } else if h == 1 {
            Ok(State { pc: nnn, ..self })
        } else if h == 2 {
            self.call(nnn)
        } else if h == 3 {
            Ok(self.skip_if(self.v[x] == nn))
        } else if h == 4 {
            Ok(self.skip_if(self.v[x] != nn))
        } else if h == 5 && n == 0 {
            Ok(self.skip_if(self.v[x] == self.v[y]))
        } else if h == 6 {
            Ok(self.set_reg(x, nn))
        } else if h == 7 {
            Ok(self.set_reg(x, ((self.v[x] + nn) % 256) as u8))
        } else if h == 8 {
            self.alu(x, y, n, op)
        } else if h == 9 && n == 0 {
            Ok(self.skip_if(self.v[x] != self.v[y]))
        } else if h == 0xA {
            Ok(State { i: nnn, ..self })
        } else if h == 0xB {
            Ok(State { pc: (self.v[0] + nnn) as u16, ..self })
        } else if h == 0xC {
            Ok(self.set_reg(x, rnd & nn))
        } else if h == 0xD {
            self.draw(x, y, n)
        } else if h == 0xE && nn == 0x9E {
            self.skip_on_key(x, true)
        } else if h == 0xE && nn == 0xA1 {
            self.skip_on_key(x, false)
        } else if h == 0xF {
            self.misc(x, nn, op)
        } else {
            Err(EmuError::UnknownOpcode(op))
        }
    }

    /// Whether the two bytes of an instruction word can be read at the program counter.
    pub open spec fn can_fetch(self) -> bool {
        self.pc + 1 < RAM_SIZE
    }

    /// The instruction word at the program counter, high byte first.
    pub open spec fn opcode(self) -> u16 {
        (self.ram[self.pc as int] * 256 + self.ram[self.pc + 1]) as u16
    }

    /// Whether the next cycle draws a random byte.
    pub open spec fn draws_random(self) -> bool {
        self.can_fetch() && nibbles(self.opcode()).0 == 0xC
    }

    /// One cycle: the instruction word at the program counter is read, the
    /// program counter moves past it, and the instruction is executed.
    pub open spec fn step(self, rnd: u8) -> Result<State, EmuError> {
        if !self.can_fetch() {
            Err(EmuError::OutOfBounds)
        } else {
            State { pc: (self.pc + 2) as u16, ..self }.execute(self.opcode(), rnd)
        }
    }

    /// One tick of the timers: each goes down by one unless it is zero.
    pub open spec fn timer_tick(self) -> State {
        State {
            dt: if self.dt > 0 { (self.dt - 1) as u8 } else { 0 },
            st: if self.st > 0 { (self.st - 1) as u8 } else { 0 },
            ..self
        }
    }

    /// Whether the next tick of the timers brings the sound timer to zero.
    pub open spec fn sound_due(self) -> bool {
        self.st == 1
    }

    /// The program image `data` is copied to memory from `START_ADDR` on.
    pub open spec fn load(self, data: Seq<u8>) -> Result<State, EmuError> {
        if data.len() > RAM_SIZE - START_ADDR {
            Err(EmuError::OutOfBounds)
        } else {
            Ok(
                State {
                    ram: Seq::new(
                        RAM_SIZE as nat,
                        |a: int|
                            if START_ADDR <= a < START_ADDR + data.len() {
                                data[a - START_ADDR]
                            } else {
                                self.ram[a]
                            },
                    ),
                    ..self
                },
            )
        }
    }

    /// Key `idx` goes down, for `pressed`, or up.
    pub open spec fn keypress(self, idx: int, pressed: bool) -> Result<State, EmuError> {
        if idx >= KEYS_COUNT {
            Err(EmuError::InvalidKey)
        } else {
            Ok(State { keys: self.keys.update(idx, pressed), ..self })
        }
    }
}

} // verus!
