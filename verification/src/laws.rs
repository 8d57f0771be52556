use vstd::prelude::*;
use crate::isa::{any_pressed, bit_is_set, is_first_pressed, low_byte, nibbles};
use crate::sprite::{lemma_pixel_at, lemma_place_wraps, pixel_at, sprite_col, sprite_row};
use crate::specs::{
    FONTSET, FONTSET_SIZE, KEYS_COUNT, RAM_SIZE, REGISTERS_COUNT, SCREEN_H, SCREEN_SIZE,
    STACK_SIZE, START_ADDR,
};
use crate::state::{EmuError, State, blank_screen};

verus! {

impl State {
    /// As many cycles as `rnds` is long, one after the other, the cycle
    /// numbered `k` drawing `rnds[k]` if it draws a random byte. The first
    /// error ends the run.
    pub open spec fn run(self, rnds: Seq<u8>) -> Result<State, EmuError>
        decreases rnds.len(),
    {
        if rnds.len() == 0 {
            Ok(self)
        } else {
            match self.step(rnds[0]) {
                Ok(next) => next.run(rnds.skip(1)),
                Err(e) => Err(e),
            }
        }
    }
}

/// The initial machine is well formed.
pub proof fn law_initial_shape()
    ensures
        State::initial().wf(),
{
}

/// A cycle takes a well-formed machine to a well-formed machine.
pub proof fn law_step_keeps_shape(s: State, rnd: u8)
    requires
        s.wf(),
    ensures
        s.step(rnd) matches Ok(t) ==> t.wf(),
{
}

/// Only the random instruction reads the random byte: whatever else is at
/// the program counter, the cycle is the same for every byte.
pub proof fn law_random_byte_unread(s: State, rnd1: u8, rnd2: u8)
    requires
        !s.draws_random(),
    ensures
        s.step(rnd1) == s.step(rnd2),
{
}

/// The addition of register `y` to register `x` leaves in VF whether the
/// sum went beyond a byte, and in register `x`, unless that is VF, the sum
/// modulo 256.
pub proof fn law_add_carry(s: State, x: int, y: int, rnd: u8)
    requires
        s.wf(),
        s.can_fetch(),
        nibbles(s.opcode()) == (8int, x, y, 4int),
    ensures
        s.step(rnd) matches Ok(t) && {
            &&& t.v[0xF] == (if s.v[x] + s.v[y] > 255 { 1u8 } else { 0u8 })
            &&& x != 0xF ==> t.v[x] == (s.v[x] + s.v[y]) % 256
            &&& t.pc == s.pc + 2
        },
{
}

/// The subtraction of register `y` from register `x` leaves in VF zero
/// where it borrowed and one where it did not, and in register `x`, unless
/// that is VF, the difference modulo 256.
pub proof fn law_sub_borrow(s: State, x: int, y: int, rnd: u8)
    requires
        s.wf(),
        s.can_fetch(),
        nibbles(s.opcode()) == (8int, x, y, 5int),
    ensures
        s.step(rnd) matches Ok(t) && {
            &&& t.v[0xF] == (if s.v[x] < s.v[y] { 0u8 } else { 1u8 })
            &&& x != 0xF ==> t.v[x] == (s.v[x] - s.v[y]) % 256
            &&& t.pc == s.pc + 2
        },
{
}

/// A program image that fits, loaded into a machine in its initial state,
/// lies in memory from `START_ADDR` on; the font table below it is intact
/// and the program counter is at `START_ADDR`.
pub proof fn law_load_after_reset(data: Seq<u8>)
    requires
        data.len() <= RAM_SIZE - START_ADDR,
    ensures
        State::initial().load(data) matches Ok(t) && {
            &&& t.pc == START_ADDR
            &&& t.ram.subrange(START_ADDR as int, START_ADDR + data.len()) == data
            &&& t.ram.subrange(0, FONTSET_SIZE as int) == FONTSET@
            &&& forall|a: int| START_ADDR + data.len() <= a < RAM_SIZE ==> t.ram[a] == 0
            &&& t.wf()
        },
{
    let t = State::initial().load(data)->Ok_0;
    assert(t.ram.subrange(START_ADDR as int, START_ADDR + data.len()) =~= data);
    assert(t.ram.subrange(0, FONTSET_SIZE as int) =~= FONTSET@);
}

/// A program image that does not fit is refused.
pub proof fn law_load_too_large(s: State, data: Seq<u8>)
    requires
        data.len() > RAM_SIZE - START_ADDR,
    ensures
        s.load(data) == Err::<State, EmuError>(EmuError::OutOfBounds),
{
}

/// A pixel is covered by a sprite exactly where a set bit of the sprite
/// falls on it.
pub proof fn law_sprite_covers_where_bits_fall(s: State, vx: int, vy: int, n: int, p: int)
    requires
        0 <= p < SCREEN_SIZE,
        0 <= n <= SCREEN_H,
    ensures
        s.sprite_covers(vx, vy, n, p) <==> exists|row: int, col: int|
            0 <= row < n && 0 <= col < 8 && bit_is_set(s.ram[s.i + row], col) && #[trigger] pixel_at(
                vx,
                vy,
                row,
                col,
            ) == p,
{
    if s.sprite_covers(vx, vy, n, p) {
        let row = sprite_row(vy, p);
        let col = sprite_col(vx, p);
        assert(0 <= row && 0 <= col) by {
            reveal(sprite_row);
            reveal(sprite_col);
        }
        lemma_pixel_at(vx, vy, row, col);
        assert(pixel_at(vx, vy, row, col) == p);
    }
    if exists|row: int, col: int|
        0 <= row < n && 0 <= col < 8 && bit_is_set(s.ram[s.i + row], col) && #[trigger] pixel_at(
            vx,
            vy,
            row,
            col,
        ) == p {
        let (row, col) = choose|row: int, col: int|
            0 <= row < n && 0 <= col < 8 && bit_is_set(s.ram[s.i + row], col) && #[trigger] pixel_at(
                vx,
                vy,
                row,
                col,
            ) == p;
        lemma_pixel_at(vx, vy, row, col);
    }
}

/// A sprite drawn twice at the same place leaves the display as it was,
/// and the second draw reports a collision exactly where the first lit a
/// pixel. "The same place" is a condition: the first draw writes VF, so a
/// position read from VF may have moved. A place is a column modulo the
/// width of the display and a row modulo its height.
pub proof fn law_draw_twice(s: State, x: int, y: int, n: int)
    requires
        s.wf(),
        0 <= x < REGISTERS_COUNT,
        0 <= y < REGISTERS_COUNT,
        0 <= n < 16,
        s.draw(x, y, n) is Ok,
        s.draw(x, y, n)->Ok_0.v[x] % 64 == s.v[x] % 64,
        s.draw(x, y, n)->Ok_0.v[y] % 32 == s.v[y] % 32,
    ensures
        s.draw(x, y, n)->Ok_0.draw(x, y, n) matches Ok(t) && {
            &&& t.screen == s.screen
            &&& t.v[0xF] == (if exists|p: int|
                0 <= p < SCREEN_SIZE && !s.screen[p] && #[trigger] s.sprite_covers(
                    s.v[x] as int,
                    s.v[y] as int,
                    n,
                    p,
                ) { 1u8 } else { 0u8 })
        },
{
    let vx = s.v[x] as int;
    let vy = s.v[y] as int;
    let s1 = s.draw(x, y, n)->Ok_0;
    let t = s1.draw(x, y, n)->Ok_0;
    let vx1 = s1.v[x] as int;
    let vy1 = s1.v[y] as int;
    assert forall|p: int| 0 <= p < SCREEN_SIZE implies #[trigger] s1.sprite_covers(vx1, vy1, n, p)
        == s.sprite_covers(vx, vy, n, p) by {
        lemma_place_wraps(vx, vy, vx1, vy1, p);
    }
    assert(t.screen =~= s.screen);
    let lit = exists|p: int|
        0 <= p < SCREEN_SIZE && !s.screen[p] && #[trigger] s.sprite_covers(vx, vy, n, p);
    if s1.sprite_collides(vx1, vy1, n) {
        let p = choose|p: int|
            0 <= p < SCREEN_SIZE && s1.screen[p] && #[trigger] s1.sprite_covers(vx1, vy1, n, p);
        assert(s.sprite_covers(vx, vy, n, p));
        assert(!s.screen[p]);
        assert(lit);
    }
    if lit {
        let p = choose|p: int|
            0 <= p < SCREEN_SIZE && !s.screen[p] && #[trigger] s.sprite_covers(vx, vy, n, p);
        assert(s1.sprite_covers(vx1, vy1, n, p));
        assert(s1.screen[p]);
        assert(s1.sprite_collides(vx1, vy1, n));
    }
}

/// A subroutine call followed by a return leaves the machine just past
/// the call: only the slot of the call stack that held the return address
/// tells that anything happened.
pub proof fn law_call_then_return(s: State, target: u16)
    requires
        s.wf(),
        s.sp < STACK_SIZE,
    ensures
        s.call(target) matches Ok(t) && t.ret() == Ok::<State, EmuError>(
            State { stack: s.stack.update(s.sp as int, s.pc), ..s },
        ),
{
    let t = s.call(target)->Ok_0;
    assert(t.ret()->Ok_0 =~= (State { stack: s.stack.update(s.sp as int, s.pc), ..s }));
}

/// The three bytes that the decimal conversion writes are the decimal
/// digits of the register: each is below ten, and they make up its value.
pub proof fn law_bcd_digits(s: State, x: int)
    requires
        s.wf(),
        0 <= x < REGISTERS_COUNT,
        s.i + 2 < RAM_SIZE,
    ensures
        s.bcd(x) matches Ok(t) && {
            &&& t.ram[s.i as int] < 10
            &&& t.ram[s.i + 1] < 10
            &&& t.ram[s.i + 2] < 10
            &&& 100 * t.ram[s.i as int] + 10 * t.ram[s.i + 1] + t.ram[s.i + 2] == s.v[x]
            &&& forall|a: int| 0 <= a < RAM_SIZE && !(s.i <= a <= s.i + 2) ==> t.ram[a] == s.ram[a]
        },
{
}

/// Registers stored to memory and loaded back are what they were.
pub proof fn law_store_then_load(s: State, x: int)
    requires
        s.wf(),
        0 <= x < REGISTERS_COUNT,
        s.i + x < RAM_SIZE,
    ensures
        s.store_regs(x) matches Ok(t) && t.load_regs(x) == Ok::<State, EmuError>(t),
{
    let t = s.store_regs(x)->Ok_0;
    assert(t.load_regs(x)->Ok_0 =~= t);
}

/// No instruction counts a timer down: a cycle changes a timer only by
/// the instruction that sets it.
pub proof fn law_cycle_leaves_timers(s: State, rnd: u8)
    requires
        s.wf(),
    ensures
        s.step(rnd) matches Ok(t) ==> {
            &&& t.dt == s.dt || (nibbles(s.opcode()).0 == 0xF && low_byte(s.opcode()) == 0x15
                && t.dt == s.v[nibbles(s.opcode()).1])
            &&& t.st == s.st || (nibbles(s.opcode()).0 == 0xF && low_byte(s.opcode()) == 0x18
                && t.st == s.v[nibbles(s.opcode()).1])
        },
{
}

/// A tick of the timers changes nothing but the timers.
pub proof fn law_timer_tick_leaves_the_rest(s: State)
    ensures
        s.timer_tick() == (State { dt: s.timer_tick().dt, st: s.timer_tick().st, ..s }),
        s.timer_tick().dt <= s.dt,
        s.timer_tick().st <= s.st,
{
}

/// With the sound timer at one, a tick of the timers signals the sound and
/// leaves the timer at zero; the tick after that signals nothing.
pub proof fn law_sound_once(s: State)
    requires
        s.st == 1,
    ensures
        s.sound_due(),
        s.timer_tick().st == 0,
        !s.timer_tick().sound_due(),
        s.timer_tick().timer_tick().st == 0,
{
}

/// The sound is signalled by no tick of the timers but the one that takes
/// the sound timer from one to zero.
pub proof fn law_sound_edge(s: State)
    ensures
        s.sound_due() <==> s.st != 0 && s.timer_tick().st == 0,
{
}

/// The clear instruction leaves no pixel lit and the program counter just
/// past it.
pub proof fn law_clear_screen(s: State, rnd: u8)
    requires
        s.wf(),
        s.can_fetch(),
        s.opcode() == 0x00E0,
    ensures
        s.step(rnd) matches Ok(t) && {
            &&& forall|p: int| 0 <= p < SCREEN_SIZE ==> !t.screen[p]
            &&& t.screen.len() == SCREEN_SIZE
            &&& t.pc == s.pc + 2
            &&& t == (State { screen: blank_screen(), pc: t.pc, ..s })
        },
{
}

/// With no key held down, the key wait changes nothing: the program
/// counter is back at the instruction, and the next cycle finds it again.
pub proof fn law_key_wait_holds(s: State, x: int, rnd: u8)
    requires
        s.wf(),
        s.can_fetch(),
        nibbles(s.opcode()) == (0xFint, x, 0int, 0xAint),
        !any_pressed(s.keys),
    ensures
        s.step(rnd) == Ok::<State, EmuError>(s),
{
    assert(s.step(rnd)->Ok_0 =~= s);
}

/// With no key held down, any number of cycles on the key wait changes
/// nothing.
pub proof fn law_key_wait_holds_on(s: State, x: int, rnds: Seq<u8>)
    requires
        s.wf(),
        s.can_fetch(),
        nibbles(s.opcode()) == (0xFint, x, 0int, 0xAint),
        !any_pressed(s.keys),
    ensures
        s.run(rnds) == Ok::<State, EmuError>(s),
    decreases rnds.len(),
{
    if rnds.len() > 0 {
        law_key_wait_holds(s, x, rnds[0]);
        law_key_wait_holds_on(s, x, rnds.skip(1));
    }
}

/// With a key held down, the key wait leaves in register `x` the lowest
/// such key, and the program counter just past the instruction.
pub proof fn law_key_wait_captures(s: State, x: int, k: int, rnd: u8)
    requires
        s.wf(),
        s.can_fetch(),
        nibbles(s.opcode()) == (0xFint, x, 0int, 0xAint),
        is_first_pressed(s.keys, k),
    ensures
        s.step(rnd) == Ok::<State, EmuError>(
            State { pc: (s.pc + 2) as u16, v: s.v.update(x, k as u8), ..s },
        ),
{
    let c = choose|c: int| is_first_pressed(s.keys, c);
    assert(c == k);
    assert(s.step(rnd)->Ok_0 =~= (State { pc: (s.pc + 2) as u16, v: s.v.update(x, k as u8), ..s }));
}

/// With no key held down, the key wait holds; once a key has gone down,
/// the next cycle leaves that key in register `x` and goes on.
pub proof fn law_keypress_ends_key_wait(s: State, x: int, k: int, rnd: u8)
    requires
        s.wf(),
        s.can_fetch(),
        nibbles(s.opcode()) == (0xFint, x, 0int, 0xAint),
        !any_pressed(s.keys),
        0 <= k < KEYS_COUNT,
    ensures
        s.step(rnd) == Ok::<State, EmuError>(s),
        s.keypress(k, true) matches Ok(t) && t.step(rnd) == Ok::<State, EmuError>(
            State { pc: (s.pc + 2) as u16, v: s.v.update(x, k as u8), ..t },
        ),
{
    law_key_wait_holds(s, x, rnd);
    let t = s.keypress(k, true)->Ok_0;
    assert(is_first_pressed(t.keys, k)) by {
        assert forall|j: int| 0 <= j < k implies !t.keys[j] by {
            assert(!s.keys[j]);
        }
    }
    law_key_wait_captures(t, x, k, rnd);
}

} // verus!
