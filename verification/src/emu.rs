use vstd::prelude::*;
use crate::isa::{address, any_pressed, bit_is_set, is_first_pressed, low_byte, nibbles};
use crate::sprite::{lemma_pixel_at, pixel_at, sprite_col, sprite_row};
use crate::specs::{
    FONTSET, FONTSET_SIZE, KEYS_COUNT, RAM_SIZE, REGISTERS_COUNT, SCREEN_H, SCREEN_SIZE,
    SCREEN_W, STACK_SIZE, START_ADDR,
};
use crate::state::{EmuError, State, blank_screen, outcome_is};

verus! {

/// The machine: memory, registers, call stack, display, keypad and timers.
///
/// Its contracts speak of its view, a [`State`]. The stack pointer never
/// exceeds the size of the call stack, so the view of every machine is
/// well formed.
pub struct Emu {
    /// Program counter
    pc: u16,
    ram: [u8; RAM_SIZE],
    screen: [bool; SCREEN_SIZE],
    /// Registers
    v_reg: [u8; REGISTERS_COUNT],
    /// Ram index register
    i_reg: u16,
    /// Stack pointer
    sp: u16,
    stack: [u16; STACK_SIZE],
    keys: [bool; KEYS_COUNT],
    /// Delay timer
    dt: u8,
    /// Sound timer
    st: u8,
}

impl View for Emu {
    type V = State;

    closed spec fn view(&self) -> State {
        State {
            pc: self.pc,
            ram: self.ram@,
            screen: self.screen@,
            v: self.v_reg@,
            i: self.i_reg,
            sp: self.sp,
            stack: self.stack@,
            keys: self.keys@,
            dt: self.dt,
            st: self.st,
        }
    }
}

impl Emu {
    #[verifier::type_invariant]
    spec fn stack_pointer_in_range(&self) -> bool {
        self.sp <= STACK_SIZE
    }

    /// Whether `self` is `other` but for memory.
    spec fn same_but_ram(self, other: Emu) -> bool {
        &&& self.pc == other.pc
        &&& self.screen == other.screen
        &&& self.v_reg == other.v_reg
        &&& self.i_reg == other.i_reg
        &&& self.sp == other.sp
        &&& self.stack == other.stack
        &&& self.keys == other.keys
        &&& self.dt == other.dt
        &&& self.st == other.st
    }

    /// Whether `self` is `other` but for the registers.
    spec fn same_but_regs(self, other: Emu) -> bool {
        &&& self.pc == other.pc
        &&& self.ram == other.ram
        &&& self.screen == other.screen
        &&& self.i_reg == other.i_reg
        &&& self.sp == other.sp
        &&& self.stack == other.stack
        &&& self.keys == other.keys
        &&& self.dt == other.dt
        &&& self.st == other.st
    }

    /// Whether `self` is `other` but for the display.
    spec fn same_but_screen(self, other: Emu) -> bool {
        &&& self.pc == other.pc
        &&& self.ram == other.ram
        &&& self.v_reg == other.v_reg
        &&& self.i_reg == other.i_reg
        &&& self.sp == other.sp
        &&& self.stack == other.stack
        &&& self.keys == other.keys
        &&& self.dt == other.dt
        &&& self.st == other.st
    }
}

impl Emu {
    /// A machine in its initial state.
    pub fn new() -> (emu: Emu)
        ensures
            emu@ == State::initial(),
    {
        let mut emu = Emu {
            pc: START_ADDR,
            ram: [0; RAM_SIZE],
            screen: [false; SCREEN_SIZE],
            v_reg: [0; REGISTERS_COUNT],
            i_reg: 0,
            sp: 0,
            stack: [0; STACK_SIZE],
            keys: [false; KEYS_COUNT],
            dt: 0,
            st: 0,
        };
        emu.load_font();
        emu
    }

    /// Puts the machine back into its initial state.
    pub fn reset(&mut self)
        ensures
            final(self)@ == State::initial(),
    {
        proof {
            use_type_invariant(&*self);
        }
        self.pc = START_ADDR;
        self.ram = [0; RAM_SIZE];
        self.screen = [false; SCREEN_SIZE];
        self.v_reg = [0; REGISTERS_COUNT];
        self.i_reg = 0;
        self.sp = 0;
        self.stack = [0; STACK_SIZE];
        self.keys = [false; KEYS_COUNT];
        self.dt = 0;
        self.st = 0;
        self.load_font();
    }

    /// Copies the program image `data` to memory from `START_ADDR` on. An
    /// image that does not fit is refused, and memory is left as it was.
    pub fn load(&mut self, data: &[u8]) -> (res: Result<(), EmuError>)
        ensures
            outcome_is(old(self)@, final(self)@, res, old(self)@.load(data@)),
            old(self)@.wf(),
            final(self)@.wf(),
    {
        proof {
            use_type_invariant(&*self);
        }
        let start = START_ADDR as usize;
        if data.len() > RAM_SIZE - start {
            return Err(EmuError::OutOfBounds);
        }
        let mut k: usize = 0;
        while k < data.len()
            invariant
                k <= data.len(),
                start == START_ADDR,
                data.len() <= RAM_SIZE - start,
                forall|a: int|
                    0 <= a < RAM_SIZE ==> self.ram@[a] == if start <= a < start + k {
                        data@[a - start]
                    } else {
                        old(self).ram@[a]
                    },
                self.same_but_ram(*old(self)),
                self.sp <= STACK_SIZE,
            decreases data.len() - k,
        {
            self.ram[start + k] = data[k];
            k += 1;
        }
        Ok(())
    }

    /// Performs one cycle: the instruction word at the program counter is
    /// read, the program counter moves past it, the instruction is executed.
    /// The random instruction draws its byte from the thread-local generator
    /// of the `rand` crate, of which the contract says only that it is some
    /// byte; [`Emu::tick_with`] is the same cycle with the byte given. On an
    /// error the machine is left as it was.
    pub fn tick(&mut self) -> (res: Result<(), EmuError>)
        ensures
            exists|rnd: u8| outcome_is(old(self)@, final(self)@, res, #[trigger] old(self)@.step(rnd)),
            !old(self)@.draws_random() ==> outcome_is(
                old(self)@,
                final(self)@,
                res,
                old(self)@.step(0),
            ),
            old(self)@.wf(),
            final(self)@.wf(),
    {
        let rnd = if self.next_draws_random() {
            random_byte()
        } else {
            0
        };
        self.tick_with(rnd)
    }

    /// Performs one cycle, in which the random instruction, if it is the
    /// one at the program counter, draws `rnd`: the instruction word is
    /// read, the program counter moves past it, the instruction is executed.
    /// On an error the machine is left as it was.
    pub fn tick_with(&mut self, rnd: u8) -> (res: Result<(), EmuError>)
        ensures
            outcome_is(old(self)@, final(self)@, res, old(self)@.step(rnd)),
            old(self)@.wf(),
            final(self)@.wf(),
    {
        proof {
            use_type_invariant(&*self);
        }
        let op = match self.fetch() {
            Ok(op) => op,
            Err(e) => {
                return Err(e);
            },
        };
        let res = self.exec(op, rnd);
        proof {
            use_type_invariant(&*self);
        }
        if res.is_err() {
            // Back to the instruction that failed
            self.pc -= 2;
        }
        res
    }

    /// Counts both timers down by one, unless they are zero, and tells
    /// whether the sound is due: whether the sound timer has gone from one
    /// to zero in this call.
    pub fn tick_timer(&mut self) -> (beep: bool)
        ensures
            final(self)@ == old(self)@.timer_tick(),
            beep == old(self)@.sound_due(),
            old(self)@.wf(),
            final(self)@.wf(),
    {
        proof {
            use_type_invariant(&*self);
        }
        let mut beep = false;
        if self.dt > 0 {
            self.dt -= 1;
        }
        if self.st > 0 {
            if self.st == 1 {
                beep = true;
            }
            self.st -= 1;
        }
        beep
    }

    /// Records that key `idx` went down, for `pressed`, or up. An index
    /// that is not on the keypad is refused.
    pub fn keypress(&mut self, idx: usize, pressed: bool) -> (res: Result<(), EmuError>)
        ensures
            outcome_is(old(self)@, final(self)@, res, old(self)@.keypress(idx as int, pressed)),
            old(self)@.wf(),
            final(self)@.wf(),
    {
        proof {
            use_type_invariant(&*self);
        }
        if idx >= KEYS_COUNT {
            return Err(EmuError::InvalidKey);
        }
        self.keys[idx] = pressed;
        Ok(())
    }

    /// The display, row by row.
    pub fn get_display(&self) -> (display: &[bool])
        ensures
            display@ == self@.screen,
            self@.wf(),
    {
        proof {
            use_type_invariant(self);
        }
        &self.screen
    }

    /// The program counter.
    pub fn pc(&self) -> (pc: u16)
        ensures
            pc == self@.pc,
    {
        self.pc
    }

    /// The index register.
    pub fn index_register(&self) -> (i: u16)
        ensures
            i == self@.i,
    {
        self.i_reg
    }

    /// The registers V0 to VF.
    pub fn registers(&self) -> (v: &[u8])
        ensures
            v@ == self@.v,
    {
        &self.v_reg
    }

    /// Memory.
    pub fn memory(&self) -> (ram: &[u8])
        ensures
            ram@ == self@.ram,
    {
        &self.ram
    }

    /// The number of return addresses on the call stack.
    pub fn stack_pointer(&self) -> (sp: u16)
        ensures
            sp == self@.sp,
            sp <= STACK_SIZE,
    {
        proof {
            use_type_invariant(self);
        }
        self.sp
    }

    /// The slots of the call stack.
    pub fn stack(&self) -> (stack: &[u16])
        ensures
            stack@ == self@.stack,
    {
        &self.stack
    }

    /// The keypad: whether each key is held down.
    pub fn keys(&self) -> (keys: &[bool])
        ensures
            keys@ == self@.keys,
    {
        &self.keys
    }

    /// The delay timer.
    pub fn delay_timer(&self) -> (dt: u8)
        ensures
            dt == self@.dt,
    {
        self.dt
    }

    /// The sound timer.
    pub fn sound_timer(&self) -> (st: u8)
        ensures
            st == self@.st,
    {
        self.st
    }
}

/// A byte from `rand::random`, which draws it from the thread-local
/// generator of the `rand` crate. Nothing is claimed of the byte: every
/// value of a `u8` may come back, and two calls may differ. The generator
/// panics where the operating system gives it no seed on its first use in
/// a thread; no argument decides that, so no precondition can rule it out.
#[verifier::external_body]
fn random_byte() -> (byte: u8) {
    rand::random::<u8>()
}

impl Emu {
    /// Copies the font table to the start of memory.
    fn load_font(&mut self)
        ensures
            final(self)@ == (State {
                ram: Seq::new(
                    RAM_SIZE as nat,
                    |a: int| if a < FONTSET_SIZE { FONTSET@[a] } else { old(self)@.ram[a] },
                ),
                ..old(self)@
            }),
    {
        proof {
            use_type_invariant(&*self);
        }
        let mut a: usize = 0;
        while a < FONTSET_SIZE
            invariant
                a <= FONTSET_SIZE,
                self.sp <= STACK_SIZE,
                forall|b: int| 0 <= b < a ==> self.ram@[b] == FONTSET@[b],
                forall|b: int| a <= b < RAM_SIZE ==> self.ram@[b] == old(self).ram@[b],
                self.same_but_ram(*old(self)),
            decreases FONTSET_SIZE - a,
        {
            self.ram[a] = FONTSET[a];
            a += 1;
        }
    }

    /// Whether the instruction at the program counter draws a random byte.
    fn next_draws_random(&self) -> (yes: bool)
        ensures
            yes == self@.draws_random(),
    {
        let pc = self.pc as usize;
        if pc + 1 >= RAM_SIZE {
            return false;
        }
        let high_byte = self.ram[pc];
        let low_byte = self.ram[pc + 1];
        let hbhn = high_byte >> 4;
        assert(hbhn == (high_byte as int * 256 + low_byte as int) / 0x1000) by {
            assert(hbhn == high_byte / 16) by (bit_vector)
                requires
                    hbhn == high_byte >> 4,
            ;
        }
        hbhn == 0xC
    }

    /// Reads the instruction word at the program counter and moves the
    /// program counter past it.
    fn fetch(&mut self) -> (res: Result<u16, EmuError>)
        ensures
            match res {
                Ok(op) => {
                    &&& old(self)@.can_fetch()
                    &&& op == old(self)@.opcode()
                    &&& final(self)@ =~= (State { pc: (old(self)@.pc + 2) as u16, ..old(self)@ })
                },
                Err(e) => {
                    &&& !old(self)@.can_fetch()
                    &&& e == EmuError::OutOfBounds
                    &&& final(self)@ =~= old(self)@
                },
            },
    {
        proof {
            use_type_invariant(&*self);
        }
        let pc = self.pc as usize;
        if pc + 1 >= RAM_SIZE {
            return Err(EmuError::OutOfBounds);
        }
        let high_byte = self.ram[pc] as u16;
        let low_byte = self.ram[pc + 1] as u16;
        let op = (high_byte << 8) | low_byte;
        assert(op == high_byte * 256 + low_byte) by (bit_vector)
            requires
                op == (high_byte << 8) | low_byte,
                high_byte < 256,
                low_byte < 256,
        ;
        self.pc += 2;
        Ok(op)
    }

    /// Reads the fields of the instruction word `op`: its four nibbles,
    /// its low byte and its low twelve bits.
    fn decode(op: u16) -> (fields: (u16, u16, u16, u16, u8, u16))
        ensures
            nibbles(op) == (fields.0 as int, fields.1 as int, fields.2 as int, fields.3 as int),
            low_byte(op) == fields.4,
            address(op) == fields.5,
    {
        // h -> high, l -> low, b -> byte
        // e.g: hbln -> high byte low nibble
        let hbhn = (op & 0xF000) >> 12;
        let hbln = (op & 0x0F00) >> 8;
        let lbhn = (op & 0x00F0) >> 4;
        let lbln = op & 0x000F;
        let nn = (op & 0xFF) as u8;
        let nnn = op & 0xFFF;
        assert(hbhn == op / 0x1000 && hbln == (op / 0x100) % 16 && lbhn == (op / 0x10) % 16 && lbln
            == op % 16 && nn == op % 0x100 && nnn == op % 0x1000) by (bit_vector)
            requires
                hbhn == (op & 0xF000) >> 12,
                hbln == (op & 0x0F00) >> 8,
                lbhn == (op & 0x00F0) >> 4,
                lbln == op & 0x000F,
                nn == (op & 0xFF) as u8,
                nnn == op & 0xFFF,
        ;
        (hbhn, hbln, lbhn, lbln, nn, nnn)
    }

    /// Executes the instruction word `op`, the program counter being past
    /// it already. `rnd` is the byte that the random instruction draws.
    fn exec(&mut self, op: u16, rnd: u8) -> (res: Result<(), EmuError>)
        requires
            2 <= old(self)@.pc <= RAM_SIZE,
        ensures
            outcome_is(old(self)@, final(self)@, res, old(self)@.execute(op, rnd)),
    {
        let (hbhn, hbln, lbhn, lbln, nn, nnn) = Self::decode(op);
        let x = hbln as usize;
        let y = lbhn as usize;

        if hbhn == 0 && hbln == 0 && lbhn == 0 && lbln == 0 {
            /* Noop */
            Ok(())
        } else if hbhn == 0 && hbln == 0 && lbhn == 0xE && lbln == 0 {
            /* CLS */
            self.cls();
            Ok(())
        } else if hbhn == 0 && hbln == 0 && lbhn == 0xE && lbln == 0xE {
            /* RET */
            self.ret()
        } else if hbhn == 1 {
            /* JMP NNN */
            self.jump(nnn);
            Ok(())
        } else if hbhn == 2 {
            /* CALL NNN */
            self.call(nnn)
        } else if hbhn == 3 {
            /* SKIP VX == NN */
            self.skip_if(self.v_reg[x] == nn);
            Ok(())
        } else if hbhn == 4 {
            /* SKIP VX != NN */
            self.skip_if(self.v_reg[x] != nn);
            Ok(())
        } else if hbhn == 5 && lbln == 0 {
            /* SKIP VX == VY */
            self.skip_if(self.v_reg[x] == self.v_reg[y]);
            Ok(())
        } else if hbhn == 6 {
            /* VX = NN */
            self.set_reg(x, nn);
            Ok(())
        } else if hbhn == 7 {
            /* VX += NN */
            self.set_reg(x, self.v_reg[x].wrapping_add(nn));
            Ok(())
        } else if hbhn == 8 {
            /* VX op= VY */
            self.alu(x, y, lbln, op)
        } else if hbhn == 9 && lbln == 0 {
            /* SKIP VX != VY */
            self.skip_if(self.v_reg[x] != self.v_reg[y]);
            Ok(())
        } else if hbhn == 0xA {
            /* I = NNN */
            self.set_index(nnn);
            Ok(())
        } else if hbhn == 0xB {
            /* JMP V0 + NNN */
            self.jump((self.v_reg[0] as u16) + nnn);
            Ok(())
        } else if hbhn == 0xC {
            /* VX = rand() & NN */
            self.set_reg(x, rnd & nn);
            Ok(())
        } else if hbhn == 0xD {
            /* Draw */
            self.draw(hbln, lbhn, lbln)
        } else if hbhn == 0xE && nn == 0x9E {
            /* SKIP KEY PRESS */
            self.skip_on_key(x, true)
        } else if hbhn == 0xE && nn == 0xA1 {
            /* SKIP KEY RELEASE */
            self.skip_on_key(x, false)
        } else if hbhn == 0xF {
            /* Timers, key wait, index register, memory blocks */
            self.misc(hbln, nn, op)
        } else {
            Err(EmuError::UnknownOpcode(op))
        }
    }
}

/// A key that is the lowest one held down is the only such key.
proof fn lemma_first_pressed_unique(keys: Seq<bool>, a: int, b: int)
    requires
        is_first_pressed(keys, a),
        is_first_pressed(keys, b),
    ensures
        a == b,
{
}

impl Emu {
    /// Turns every pixel off.
    fn cls(&mut self)
        ensures
            final(self)@ =~= (State { screen: blank_screen(), ..old(self)@ }),
    {
        proof {
            use_type_invariant(&*self);
        }
        self.screen = [false; SCREEN_SIZE];
    }

    /// Returns from a subroutine.
    fn ret(&mut self) -> (res: Result<(), EmuError>)
        ensures
            outcome_is(old(self)@, final(self)@, res, old(self)@.ret()),
    {
        proof {
            use_type_invariant(&*self);
        }
        match self.pop() {
            Ok(ret_addr) => {
                proof {
                    use_type_invariant(&*self);
                }
                self.pc = ret_addr;
                Ok(())
            },
            Err(e) => Err(e),
        }
    }

    /// Continues at `target`.
    fn jump(&mut self, target: u16)
        ensures
            final(self)@ =~= (State { pc: target, ..old(self)@ }),
    {
        proof {
            use_type_invariant(&*self);
        }
        self.pc = target;
    }

    /// Calls the subroutine at `target`.
    fn call(&mut self, target: u16) -> (res: Result<(), EmuError>)
        ensures
            outcome_is(old(self)@, final(self)@, res, old(self)@.call(target)),
    {
        proof {
            use_type_invariant(&*self);
        }
        let pc = self.pc;
        match self.push(pc) {
            Ok(_) => {
                proof {
                    use_type_invariant(&*self);
                }
                self.pc = target;
                Ok(())
            },
            Err(e) => Err(e),
        }
    }

    /// Puts `val` on the call stack.
    fn push(&mut self, val: u16) -> (res: Result<(), EmuError>)
        ensures
            match res {
                Ok(_) => {
                    &&& old(self)@.sp < STACK_SIZE
                    &&& final(self)@ =~= (State {
                        sp: (old(self)@.sp + 1) as u16,
                        stack: old(self)@.stack.update(old(self)@.sp as int, val),
                        ..old(self)@
                    })
                },
                Err(e) => {
                    &&& old(self)@.sp >= STACK_SIZE
                    &&& e == EmuError::StackOverflow
                    &&& final(self)@ =~= old(self)@
                },
            },
    {
        proof {
            use_type_invariant(&*self);
        }
        if self.sp as usize >= STACK_SIZE {
            return Err(EmuError::StackOverflow);
        }
        self.stack[self.sp as usize] = val;
        self.sp += 1;
        Ok(())
    }

    /// Takes the top of the call stack.
    fn pop(&mut self) -> (res: Result<u16, EmuError>)
        ensures
            match res {
                Ok(val) => {
                    &&& old(self)@.sp > 0
                    &&& val == old(self)@.stack[old(self)@.sp - 1]
                    &&& final(self)@ =~= (State { sp: (old(self)@.sp - 1) as u16, ..old(self)@ })
                },
                Err(e) => {
                    &&& old(self)@.sp == 0
                    &&& e == EmuError::StackUnderflow
                    &&& final(self)@ =~= old(self)@
                },
            },
    {
        proof {
            use_type_invariant(&*self);
        }
        if self.sp == 0 {
            return Err(EmuError::StackUnderflow);
        }
        self.sp -= 1;
        Ok(self.stack[self.sp as usize])
    }

    /// Skips the next instruction where `skip` holds.
    fn skip_if(&mut self, skip: bool)
        requires
            old(self)@.pc <= RAM_SIZE,
        ensures
            final(self)@ =~= old(self)@.skip_if(skip),
    {
        proof {
            use_type_invariant(&*self);
        }
        if skip {
            self.pc += 2;
        }
    }

    /// Writes `value` to register `x`.
    fn set_reg(&mut self, x: usize, value: u8)
        requires
            x < REGISTERS_COUNT,
        ensures
            final(self)@ =~= old(self)@.set_reg(x as int, value),
    {
        proof {
            use_type_invariant(&*self);
        }
        self.v_reg[x] = value;
    }

    /// Writes `value` to register `x`, then `flag` to VF.
    fn set_reg_flag(&mut self, x: usize, value: u8, flag: u8)
        requires
            x < REGISTERS_COUNT,
        ensures
            final(self)@ =~= old(self)@.set_reg_flag(x as int, value, flag),
    {
        proof {
            use_type_invariant(&*self);
        }
        self.v_reg[x] = value;
        self.v_reg[0xF] = flag;
    }

    /// Writes `value` to the index register.
    fn set_index(&mut self, value: u16)
        ensures
            final(self)@ =~= (State { i: value, ..old(self)@ }),
    {
        proof {
            use_type_invariant(&*self);
        }
        self.i_reg = value;
    }

    /// Writes `value` to the delay timer.
    fn set_delay(&mut self, value: u8)
        ensures
            final(self)@ =~= (State { dt: value, ..old(self)@ }),
    {
        proof {
            use_type_invariant(&*self);
        }
        self.dt = value;
    }

    /// Writes `value` to the sound timer.
    fn set_sound(&mut self, value: u8)
        ensures
            final(self)@ =~= (State { st: value, ..old(self)@ }),
    {
        proof {
            use_type_invariant(&*self);
        }
        self.st = value;
    }

    /// The register-to-register instructions: `lbln` tells which.
    fn alu(&mut self, x: usize, y: usize, lbln: u16, op: u16) -> (res: Result<(), EmuError>)
        requires
            x < REGISTERS_COUNT,
            y < REGISTERS_COUNT,
        ensures
            outcome_is(
                old(self)@,
                final(self)@,
                res,
                old(self)@.alu(x as int, y as int, lbln as int, op),
            ),
    {
        let vx = self.v_reg[x];
        let vy = self.v_reg[y];
        if lbln == 0 {
            /* VX = VY */
            self.set_reg(x, vy);
        } else if lbln == 1 {
            /* VX |= VY */
            self.set_reg(x, vx | vy);
        } else if lbln == 2 {
            /* VX &= VY */
            self.set_reg(x, vx & vy);
        } else if lbln == 3 {
            /* VX ^= VY */
            self.set_reg(x, vx ^ vy);
        } else if lbln == 4 {
            /* VX += VY */
            let has_carry = vx as u16 + vy as u16 > 0xFF;
            let new_vf: u8 = if has_carry { 1 } else { 0 };
            self.set_reg_flag(x, vx.wrapping_add(vy), new_vf);
        } else if lbln == 5 {
            /* VX -= VY */
            let has_borrow = vx < vy;
            let new_vf: u8 = if has_borrow { 0 } else { 1 };
            self.set_reg_flag(x, vx.wrapping_sub(vy), new_vf);
        } else if lbln == 6 {
            /* VX >>= 1 */
            let lsb = vx & 1;
            let new_vx = vx >> 1;
            assert(lsb == vx % 2 && new_vx == vx / 2) by (bit_vector)
                requires
                    lsb == vx & 1,
                    new_vx == vx >> 1,
            ;
            self.set_reg_flag(x, new_vx, lsb);
        } else if lbln == 7 {
            /* VX = VY - VX */
            let has_borrow = vy < vx;
            let new_vf: u8 = if has_borrow { 0 } else { 1 };
            self.set_reg_flag(x, vy.wrapping_sub(vx), new_vf);
        } else if lbln == 0xE {
            /* VX <<= 1 */
            let msb = (vx >> 7) & 1;
            let new_vx = vx << 1;
            assert(msb == vx / 128 && new_vx == (vx * 2) % 256) by (bit_vector)
                requires
                    msb == (vx >> 7) & 1,
                    new_vx == vx << 1,
            ;
            self.set_reg_flag(x, new_vx, msb);
        } else {
            return Err(EmuError::UnknownOpcode(op));
        }
        Ok(())
    }

    /// Skips the next instruction on the state of the key that register `x` names.
    fn skip_on_key(&mut self, x: usize, pressed: bool) -> (res: Result<(), EmuError>)
        requires
            x < REGISTERS_COUNT,
            old(self)@.pc <= RAM_SIZE,
        ensures
            outcome_is(old(self)@, final(self)@, res, old(self)@.skip_on_key(x as int, pressed)),
    {
        let vx = self.v_reg[x] as usize;
        if vx >= KEYS_COUNT {
            return Err(EmuError::InvalidKey);
        }
        let key = self.keys[vx];
        self.skip_if(key == pressed);
        Ok(())
    }

    /// The lowest key that is held down, if any is.
    fn first_pressed(&self) -> (res: Option<u8>)
        ensures
            match res {
                Some(k) => is_first_pressed(self@.keys, k as int),
                None => !any_pressed(self@.keys),
            },
    {
        let mut idx: usize = 0;
        while idx < KEYS_COUNT
            invariant
                idx <= KEYS_COUNT,
                forall|j: int| 0 <= j < idx ==> !self.keys@[j],
            decreases KEYS_COUNT - idx,
        {
            if self.keys[idx] {
                return Some(idx as u8);
            }
            idx += 1;
        }
        None
    }

    /// Waits for a key: register `x` receives the lowest key held down, or
    /// the program counter goes back to the instruction.
    fn wait_key(&mut self, x: usize)
        requires
            x < REGISTERS_COUNT,
            old(self)@.pc >= 2,
        ensures
            final(self)@ =~= old(self)@.wait_key(x as int),
    {
        proof {
            use_type_invariant(&*self);
        }
        match self.first_pressed() {
            Some(idx) => {
                proof {
                    let k = choose|k: int| is_first_pressed(self@.keys, k);
                    lemma_first_pressed_unique(self@.keys, k, idx as int);
                }
                self.v_reg[x] = idx;
            },
            None => {
                // Redo opcode
                self.pc -= 2;
            },
        }
    }

    /// The instructions on timers, keys, the index register and memory
    /// blocks: the low byte `nn` tells which.
    fn misc(&mut self, hbln: u16, nn: u8, op: u16) -> (res: Result<(), EmuError>)
        requires
            hbln < REGISTERS_COUNT,
            old(self)@.pc >= 2,
        ensures
            outcome_is(old(self)@, final(self)@, res, old(self)@.misc(hbln as int, nn, op)),
    {
        let x = hbln as usize;
        let vx = self.v_reg[x];
        if nn == 0x07 {
            /* VX = DT */
            self.set_reg(x, self.dt);
            Ok(())
        } else if nn == 0x0A {
            /* WAIT KEY */
            self.wait_key(x);
            Ok(())
        } else if nn == 0x15 {
            /* DT = VX */
            self.set_delay(vx);
            Ok(())
        } else if nn == 0x18 {
            /* ST = VX */
            self.set_sound(vx);
            Ok(())
        } else if nn == 0x1E {
            /* I += VX */
            self.set_index(self.i_reg.wrapping_add(vx as u16));
            Ok(())
        } else if nn == 0x29 {
            /* I = FONT */
            self.set_index(vx as u16 * 5);
            Ok(())
        } else if nn == 0x33 {
            /* BCD */
            self.bcd(hbln)
        } else if nn == 0x55 {
            /* STORE V0 -> VX (inclusive) into I */
            self.store_regs(x)
        } else if nn == 0x65 {
            /* LOAD V0 -> VX (inclusive) from I */
            self.load_regs(x)
        } else {
            Err(EmuError::UnknownOpcode(op))
        }
    }

    /// Writes the decimal digits of a register to memory at the index register.
    fn bcd(&mut self, hbln: u16) -> (res: Result<(), EmuError>)
        requires
            hbln < REGISTERS_COUNT,
        ensures
            outcome_is(old(self)@, final(self)@, res, old(self)@.bcd(hbln as int)),
    {
        proof {
            use_type_invariant(&*self);
        }
        let x = hbln as usize;
        let vx = self.v_reg[x];
        let at = self.i_reg as usize;
        if at + 2 >= RAM_SIZE {
            return Err(EmuError::OutOfBounds);
        }
        self.ram[at] = vx / 100;
        self.ram[at + 1] = (vx / 10) % 10;
        self.ram[at + 2] = vx % 10;
        Ok(())
    }

    /// Copies registers V0 to `x`, inclusive, to memory at the index register.
    fn store_regs(&mut self, x: usize) -> (res: Result<(), EmuError>)
        requires
            x < REGISTERS_COUNT,
        ensures
            outcome_is(old(self)@, final(self)@, res, old(self)@.store_regs(x as int)),
    {
        proof {
            use_type_invariant(&*self);
        }
        let i = self.i_reg as usize;
        if i + x >= RAM_SIZE {
            return Err(EmuError::OutOfBounds);
        }
        let mut idx: usize = 0;
        while idx <= x
            invariant
                idx <= x + 1,
                x < REGISTERS_COUNT,
                i + x < RAM_SIZE,
                forall|a: int| 0 <= a < RAM_SIZE ==> self.ram@[a] == if i <= a < i + idx {
                    old(self).v_reg@[a - i]
                } else {
                    old(self).ram@[a]
                },
                self.same_but_ram(*old(self)),
                self.sp <= STACK_SIZE,
            decreases x + 1 - idx,
        {
            self.ram[i + idx] = self.v_reg[idx];
            idx += 1;
        }
        Ok(())
    }

    /// Reads registers V0 to `x`, inclusive, from memory at the index register.
    fn load_regs(&mut self, x: usize) -> (res: Result<(), EmuError>)
        requires
            x < REGISTERS_COUNT,
        ensures
            outcome_is(old(self)@, final(self)@, res, old(self)@.load_regs(x as int)),
    {
        proof {
            use_type_invariant(&*self);
        }
        let i = self.i_reg as usize;
        if i + x >= RAM_SIZE {
            return Err(EmuError::OutOfBounds);
        }
        let mut idx: usize = 0;
        while idx <= x
            invariant
                idx <= x + 1,
                x < REGISTERS_COUNT,
                i + x < RAM_SIZE,
                forall|r: int| 0 <= r < REGISTERS_COUNT ==> self.v_reg@[r] == if r < idx {
                    old(self).ram@[i + r]
                } else {
                    old(self).v_reg@[r]
                },
                self.same_but_regs(*old(self)),
                self.sp <= STACK_SIZE,
            decreases x + 1 - idx,
        {
            self.v_reg[idx] = self.ram[i + idx];
            idx += 1;
        }
        Ok(())
    }
}

/// Whether the sprite covers pixel `p` with a bit that comes before row
/// `row`, column `col`, in the order in which the sprite is drawn.
#[verifier::opaque]
spec fn covered_before(s: State, vx: int, vy: int, n: int, p: int, row: int, col: int) -> bool {
    let c = sprite_col(vx, p);
    let r = sprite_row(vy, p);
    s.sprite_covers(vx, vy, n, p) && (r < row || (r == row && c < col))
}

/// Before the first bit nothing is covered.
proof fn lemma_covered_start(s: State, vx: int, vy: int, n: int)
    ensures
        forall|p: int| !#[trigger] covered_before(s, vx, vy, n, p, 0, 0),
{
    reveal(covered_before);
    reveal(sprite_col);
    reveal(sprite_row);
}

/// Going past one bit of the sprite adds its pixel, where the bit is set,
/// to what is covered, and nothing else.
proof fn lemma_covered_step(s: State, vx: int, vy: int, n: int, row: int, col: int)
    requires
        0 <= row < n <= SCREEN_H,
        0 <= col < 8,
    ensures
        0 <= pixel_at(vx, vy, row, col) < SCREEN_SIZE,
        !covered_before(s, vx, vy, n, pixel_at(vx, vy, row, col), row, col),
        bit_is_set(s.ram[s.i + row], col) ==> s.sprite_covers(
            vx,
            vy,
            n,
            pixel_at(vx, vy, row, col),
        ),
        forall|p: int|
            0 <= p < SCREEN_SIZE ==> #[trigger] covered_before(s, vx, vy, n, p, row, col + 1) == (
            covered_before(s, vx, vy, n, p, row, col) || (p == pixel_at(vx, vy, row, col)
                && bit_is_set(s.ram[s.i + row], col))),
{
    reveal(covered_before);
    lemma_pixel_at(vx, vy, row, col);
    let q = pixel_at(vx, vy, row, col);
    assert forall|p: int| 0 <= p < SCREEN_SIZE implies #[trigger] covered_before(
        s,
        vx,
        vy,
        n,
        p,
        row,
        col + 1,
    ) == (covered_before(s, vx, vy, n, p, row, col) || (p == q && bit_is_set(
        s.ram[s.i + row],
        col,
    ))) by {
        if sprite_col(vx, p) == col && sprite_row(vy, p) == row {
            assert(p == q);
        }
    }
}

/// Past the last column of a row comes the first column of the next.
proof fn lemma_covered_row_end(s: State, vx: int, vy: int, n: int, row: int)
    ensures
        forall|p: int|
            covered_before(s, vx, vy, n, p, row, 8) == #[trigger] covered_before(
                s,
                vx,
                vy,
                n,
                p,
                row + 1,
                0,
            ),
{
    reveal(covered_before);
    reveal(sprite_col);
}

/// Past the last row the whole sprite has been drawn.
proof fn lemma_covered_all(s: State, vx: int, vy: int, n: int)
    ensures
        forall|p: int|
            #[trigger] covered_before(s, vx, vy, n, p, n, 0) == s.sprite_covers(vx, vy, n, p),
{
    reveal(covered_before);
}

impl Emu {
    /// Draws the sprite at the index register, `lbln` rows high, at the
    /// position held in registers `hbln` and `lbhn`.
    fn draw(&mut self, hbln: u16, lbhn: u16, lbln: u16) -> (res: Result<(), EmuError>)
        requires
            hbln < REGISTERS_COUNT,
            lbhn < REGISTERS_COUNT,
            lbln < 16,
        ensures
            outcome_is(
                old(self)@,
                final(self)@,
                res,
                old(self)@.draw(hbln as int, lbhn as int, lbln as int),
            ),
    {
        proof {
            use_type_invariant(&*self);
        }
        let x = hbln as usize;
        let y = lbhn as usize;

        let x_coord = self.v_reg[x] as usize;
        let y_coord = self.v_reg[y] as usize;

        // The last nibble is the height of the sprite
        let num_rows = lbln;
        if num_rows > 0 && self.i_reg as usize + num_rows as usize > RAM_SIZE {
            return Err(EmuError::OutOfBounds);
        }
        let ghost s0 = self@;
        let ghost vx = x_coord as int;
        let ghost vy = y_coord as int;
        let ghost n = num_rows as int;
        // Whether a lit pixel went off
        let mut flipped = false;
        proof {
            lemma_covered_start(s0, vx, vy, n);
        }

        let mut y_line: u16 = 0;
        while y_line < num_rows
            invariant
                y_line <= num_rows,
                num_rows == n,
                n < 16,
                x_coord == vx,
                y_coord == vy,
                vx < 256,
                vy < 256,
                n > 0 ==> s0.i + n <= RAM_SIZE,
                s0 == old(self)@,
                forall|p: int|
                    0 <= p < SCREEN_SIZE ==> self.screen@[p] == (s0.screen[p] != covered_before(
                        s0,
                        vx,
                        vy,
                        n,
                        p,
                        y_line as int,
                        0,
                    )),
                flipped ==> s0.sprite_collides(vx, vy, n),
                forall|p: int|
                    0 <= p < SCREEN_SIZE && s0.screen[p] && covered_before(
                        s0,
                        vx,
                        vy,
                        n,
                        p,
                        y_line as int,
                        0,
                    ) ==> flipped,
                self.same_but_screen(*old(self)),
                self.sp <= STACK_SIZE,
            decreases num_rows - y_line,
        {
            // i_reg holds the address of the first row of the sprite
            let addr = self.i_reg + y_line;
            let pixels = self.ram[addr as usize];
            let mut x_line: u8 = 0;
            while x_line < 8
                invariant
                    x_line <= 8,
                    y_line < num_rows,
                    num_rows == n,
                    n < 16,
                    x_coord == vx,
                    y_coord == vy,
                    vx < 256,
                    vy < 256,
                    s0.i + n <= RAM_SIZE,
                    s0 == old(self)@,
                    pixels == s0.ram[s0.i + y_line],
                    forall|p: int|
                        0 <= p < SCREEN_SIZE ==> self.screen@[p] == (s0.screen[p]
                            != covered_before(s0, vx, vy, n, p, y_line as int, x_line as int)),
                    flipped ==> s0.sprite_collides(vx, vy, n),
                    forall|p: int|
                        0 <= p < SCREEN_SIZE && s0.screen[p] && covered_before(
                            s0,
                            vx,
                            vy,
                            n,
                            p,
                            y_line as int,
                            x_line as int,
                        ) ==> flipped,
                    self.same_but_screen(*old(self)),
                    self.sp <= STACK_SIZE,
                decreases 8 - x_line,
            {
                proof {
                    lemma_covered_step(s0, vx, vy, n, y_line as int, x_line as int);
                }
                // Only a set bit toggles its pixel
                if (pixels & (0b1000_0000u8 >> x_line)) != 0 {
                    // Sprites wrap round the edges of the display
                    let px = (x_coord + x_line as usize) % SCREEN_W;
                    let py = (y_coord + y_line as usize) % SCREEN_H;

                    let idx = px + SCREEN_W * py;
                    assert(idx == pixel_at(vx, vy, y_line as int, x_line as int));
                    if self.screen[idx] {
                        flipped = true;
                    }
                    self.screen[idx] = !self.screen[idx];
                }
                x_line += 1;
            }
            proof {
                lemma_covered_row_end(s0, vx, vy, n, y_line as int);
            }
            y_line += 1;
        }
        proof {
            lemma_covered_all(s0, vx, vy, n);
        }

        if flipped {
            self.v_reg[0xF] = 1;
        } else {
            self.v_reg[0xF] = 0;
        }
        Ok(())
    }
}

} // verus!
