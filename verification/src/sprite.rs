use vstd::prelude::*;
use vstd::arithmetic::div_mod::{
    lemma_fundamental_div_mod, lemma_fundamental_div_mod_converse, lemma_mod_multiples_vanish,
};
use crate::specs::{SCREEN_H, SCREEN_SIZE, SCREEN_W};

verus! {

/// The column of a sprite that falls on pixel `p` of the display, where the
/// sprite's left edge is at column `vx` and the sprite wraps round the edge.
#[verifier::opaque]
pub open spec fn sprite_col(vx: int, p: int) -> int {
    (p % (SCREEN_W as int) - vx) % (SCREEN_W as int)
}

/// The row of a sprite that falls on pixel `p` of the display, where the
/// sprite's top edge is at row `vy` and the sprite wraps round the edge.
#[verifier::opaque]
pub open spec fn sprite_row(vy: int, p: int) -> int {
    (p / (SCREEN_W as int) - vy) % (SCREEN_H as int)
}

/// The pixel on which the bit at row `row`, column `col` of a sprite falls,
/// where the sprite's top left corner is at column `vx`, row `vy`: both
/// coordinates wrap round the display, each on its own.
pub open spec fn pixel_at(vx: int, vy: int, row: int, col: int) -> int {
    (vx + col) % (SCREEN_W as int) + SCREEN_W * ((vy + row) % (SCREEN_H as int))
}

/// Going `c` steps on from `v` round a ring of `m` places, and then back
/// by `v`, leaves `c`.
proof fn lemma_wrap_there(v: int, c: int, m: int)
    requires
        m > 0,
        0 <= c < m,
    ensures
        ((v + c) % m - v) % m == c,
{
    let k = (v + c) / m;
    lemma_fundamental_div_mod(v + c, m);
    assert((v + c) % m - v == (-k) * m + c) by (nonlinear_arith)
        requires
            v + c == m * k + (v + c) % m,
    ;
    lemma_fundamental_div_mod_converse((v + c) % m - v, m, -k, c);
}

/// The place `a` of a ring of `m` places is the one reached from `v` by
/// as many steps as `a` lies past `v`.
proof fn lemma_wrap_back(v: int, a: int, m: int)
    requires
        m > 0,
        0 <= a < m,
    ensures
        (v + (a - v) % m) % m == a,
{
    let k = (a - v) / m;
    lemma_fundamental_div_mod(a - v, m);
    assert(v + (a - v) % m == (-k) * m + a) by (nonlinear_arith)
        requires
            a - v == m * k + (a - v) % m,
    ;
    lemma_fundamental_div_mod_converse(v + (a - v) % m, m, -k, a);
}

/// Each bit of a sprite falls on one pixel of the display, from which its
/// row and column can be told; no other pixel tells the same.
pub proof fn lemma_pixel_at(vx: int, vy: int, row: int, col: int)
    requires
        0 <= row < SCREEN_H,
        0 <= col < SCREEN_W,
    ensures
        0 <= pixel_at(vx, vy, row, col) < SCREEN_SIZE,
        sprite_col(vx, pixel_at(vx, vy, row, col)) == col,
        sprite_row(vy, pixel_at(vx, vy, row, col)) == row,
        forall|p: int|
            0 <= p < SCREEN_SIZE && #[trigger] sprite_col(vx, p) == col && sprite_row(vy, p) == row
                ==> p == pixel_at(vx, vy, row, col),
{
    reveal(sprite_col);
    reveal(sprite_row);
    let px = (vx + col) % 64;
    let py = (vy + row) % 32;
    let q = pixel_at(vx, vy, row, col);
    assert(q == py * 64 + px);
    lemma_fundamental_div_mod_converse(q, 64, py, px);
    lemma_wrap_there(vx, col, 64);
    lemma_wrap_there(vy, row, 32);
    assert forall|p: int|
        0 <= p < SCREEN_SIZE && #[trigger] sprite_col(vx, p) == col && sprite_row(vy, p)
            == row implies p == q by {
        lemma_wrap_back(vx, p % 64, 64);
        lemma_wrap_back(vy, p / 64, 32);
    }
}

/// Columns that are whole widths of the display apart are the same place
/// to a sprite, and so are rows that are whole heights apart.
pub proof fn lemma_place_wraps(vx: int, vy: int, vx1: int, vy1: int, p: int)
    requires
        vx % 64 == vx1 % 64,
        vy % 32 == vy1 % 32,
    ensures
        sprite_col(vx, p) == sprite_col(vx1, p),
        sprite_row(vy, p) == sprite_row(vy1, p),
{
    reveal(sprite_col);
    reveal(sprite_row);
    let c = p % 64;
    let r = p / 64;
    lemma_fundamental_div_mod(vx, 64);
    lemma_fundamental_div_mod(vx1, 64);
    assert(c - vx == 64 * (vx1 / 64 - vx / 64) + (c - vx1));
    lemma_mod_multiples_vanish(vx1 / 64 - vx / 64, c - vx1, 64);
    lemma_fundamental_div_mod(vy, 32);
    lemma_fundamental_div_mod(vy1, 32);
    assert(r - vy == 32 * (vy1 / 32 - vy / 32) + (r - vy1));
    lemma_mod_multiples_vanish(vy1 / 32 - vy / 32, r - vy1, 32);
}

} // verus!
