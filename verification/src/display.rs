//! The 64 by 32 monochrome framebuffer: clearing, XOR sprite compositing
//! with wraparound and collision detection, and the dirty flag that drives
//! presentation.

use vstd::prelude::*;

use vstd::arithmetic::div_mod::lemma_fundamental_div_mod;
use vstd::arithmetic::div_mod::lemma_mod_multiples_vanish;
use vstd::arithmetic::div_mod::lemma_small_mod;

verus! {

/// Width of the framebuffer in pixels.
pub const DISPLAY_WIDTH: usize = 64;

/// Height of the framebuffer in pixels.
pub const DISPLAY_HEIGHT: usize = 32;

/// Number of cells in the flattened framebuffer.
pub const DISPLAY_CELLS: usize = 2048;

/// Index of column `x`, row `y` in the flattened framebuffer.
pub open spec fn pix(x: int, y: int) -> int {
    x * 32 + y
}

/// Bit `k` of a sprite row, counted from the left: bit 0 is the most
/// significant bit and lands leftmost on the screen.
pub open spec fn sprite_row_bit(row: u8, k: int) -> bool {
    (row >> ((7 - k) as u8)) & 1 == 1
}

/// The framebuffer with every pixel off.
pub open spec fn blank_grid() -> Seq<bool> {
    Seq::new(2048, |i: int| false)
}

/// The value of flattened cell `i` after compositing the first `rows` full
/// sprite rows and the first `bits` bits of row `rows`, for a sprite drawn
/// at `(x0, y0)`. A cell is hit by row `r`, bit `k` of the sprite exactly
/// when its column is `(x0 + k) % 64` and its row is `(y0 + r) % 32`; a hit
/// XORs the sprite bit into the cell.
pub open spec fn pixel_upto(
    grid: Seq<bool>,
    x0: u8,
    y0: u8,
    sprite: Seq<u8>,
    rows: int,
    bits: int,
    i: int,
) -> bool {
    let k = (i / 32 - x0 as int) % 64;
    let r = (i % 32 - y0 as int) % 32;
    if (r < rows || (r == rows && k < bits)) && k < 8 && r < sprite.len() {
        grid[i] != sprite_row_bit(sprite[r], k)
    } else {
        grid[i]
    }
}

/// The framebuffer after the whole sprite has been composited at `(x0, y0)`.
pub open spec fn draw_result(grid: Seq<bool>, x0: u8, y0: u8, sprite: Seq<u8>) -> Seq<bool> {
    Seq::new(2048, |i: int| pixel_upto(grid, x0, y0, sprite, sprite.len() as int, 0, i))
}

/// Whether any of the first `rows` full rows, or of the first `bits` bits
/// of row `rows`, has a set sprite bit landing on a set pixel: the pixel
/// such a hit erases.
pub open spec fn collides_upto(
    grid: Seq<bool>,
    x0: u8,
    y0: u8,
    sprite: Seq<u8>,
    rows: int,
    bits: int,
) -> bool {
    exists|r: int, k: int|
        0 <= r < sprite.len() && 0 <= k < 8 && (r < rows || (r == rows && k < bits))
            && sprite_row_bit(sprite[r], k) && grid[pix(
            (x0 + k) % 64,
            (y0 + r) % 32,
        )]
}

/// Whether drawing the sprite at `(x0, y0)` erases any set pixel: the
/// collision outcome the flag register records.
pub open spec fn draw_collides(grid: Seq<bool>, x0: u8, y0: u8, sprite: Seq<u8>) -> bool {
    collides_upto(grid, x0, y0, sprite, sprite.len() as int, 0)
}

/// Whether any of the first `rows` full rows, or of the first `bits` bits
/// of row `rows`, has a set bit at all.
pub open spec fn any_set_upto(sprite: Seq<u8>, rows: int, bits: int) -> bool {
    exists|r: int, k: int|
        0 <= r < sprite.len() && 0 <= k < 8 && (r < rows || (r == rows && k < bits))
            && sprite_row_bit(sprite[r], k)
}

/// Whether the sprite has any set bit: drawing it then changes some pixel.
pub open spec fn sprite_any_set(sprite: Seq<u8>) -> bool {
    any_set_upto(sprite, sprite.len() as int, 0)
}

/// With `x` the wrapped landing spot of offset `k` from `x0`, the offset
/// recovered from `x` is `k` again.
proof fn lemma_wrap_offset(x0: int, k: int, m: int)
    requires
        0 <= x0,
        0 <= k < m,
    ensures
        ((x0 + k) % m - x0) % m == k,
{
    let s = x0 + k;
    lemma_fundamental_div_mod(s, m);
    assert(s % m - x0 == m * (-(s / m)) + k) by {
        assert(m * (-(s / m)) == -(m * (s / m))) by (nonlinear_arith);
    }
    lemma_mod_multiples_vanish(-(s / m), k, m);
    lemma_small_mod(k as nat, m as nat);
}

/// A column (or row) in range is recovered from its own wrapped offset:
/// the map from offsets to cells is a bijection.
proof fn lemma_wrap_bijection(x0: int, m: int, x: int)
    requires
        0 <= x0,
        0 <= x < m,
    ensures
        (x0 + ((x - x0) % m)) % m == x,
{
    let d = (x - x0) % m;
    lemma_fundamental_div_mod(x - x0, m);
    let q = (x - x0) / m;
    assert(x0 + d == x - m * q);
    assert(x - m * q == m * (-q) + x) by {
        assert(m * (-q) == -(m * q)) by (nonlinear_arith);
    }
    lemma_mod_multiples_vanish(-q, x, m);
    lemma_small_mod(x as nat, m as nat);
}

/// XOR compositing is an involution: drawing the same sprite at the same
/// spot twice restores every pixel.
pub proof fn lemma_draw_twice_restores(grid: Seq<bool>, x0: u8, y0: u8, sprite: Seq<u8>)
    requires
        grid.len() == 2048,
    ensures
        draw_result(draw_result(grid, x0, y0, sprite), x0, y0, sprite) == grid,
{
    let g1 = draw_result(grid, x0, y0, sprite);
    assert(draw_result(g1, x0, y0, sprite) =~= grid);
}

/// Mathematical model of the framebuffer.
#[verifier::ext_equal]
pub ghost struct DisplayView {
    /// The flattened pixel grid: cell `pix(x, y)` is column `x`, row `y`.
    pub grid: Seq<bool>,
    /// Whether the framebuffer changed since it was last presented.
    pub dirty: bool,
}

impl DisplayView {
    /// The grid always holds exactly 64 by 32 cells.
    pub open spec fn wf(self) -> bool {
        self.grid.len() == 2048
    }
}

pub struct Display {
    grid: Vec<bool>,
    dirty: bool,
}

impl View for Display {
    type V = DisplayView;

    closed spec fn view(&self) -> DisplayView {
        DisplayView { grid: self.grid@, dirty: self.dirty }
    }
}

impl Display {
    /// A framebuffer with every pixel off and nothing to present.
    pub fn new() -> (r: Display)
        ensures
            r@.grid == blank_grid(),
            !r@.dirty,
    {
        let mut grid: Vec<bool> = Vec::new();
        let mut k: usize = 0;
        while k < DISPLAY_CELLS
            invariant
                k <= 2048,
                grid@.len() == k,
                forall|i: int| 0 <= i < k ==> !grid@[i],
            decreases 2048 - k,
        {
            grid.push(false);
            k = k + 1;
        }
        proof {
            assert(grid@ =~= blank_grid());
        }
        Display { grid, dirty: false }
    }

    /// Switch every pixel off and mark the framebuffer for presentation.
    pub fn clear(&mut self)
        requires
            old(self)@.wf(),
        ensures
            final(self)@.grid == blank_grid(),
            final(self)@.dirty,
    {
        let mut k: usize = 0;
        while k < DISPLAY_CELLS
            invariant
                k <= 2048,
                self@.grid.len() == 2048,
                forall|i: int| 0 <= i < k ==> !self@.grid[i],
            decreases 2048 - k,
        {
            self.grid[k] = false;
            k = k + 1;
        }
        self.dirty = true;
        proof {
            assert(self@.grid =~= blank_grid());
        }
    }

    /// Whether the framebuffer changed since it was last presented.
    pub fn is_dirty(&self) -> (r: bool)
        ensures
            r == self@.dirty,
    {
        self.dirty
    }

    /// Record that the framebuffer has been presented.
    pub fn mark_presented(&mut self)
        ensures
            final(self)@ == (DisplayView { dirty: false, ..old(self)@ }),
    {
        self.dirty = false;
    }

    /// The pixel at column `x`, row `y`.
    pub fn pixel(&self, x: usize, y: usize) -> (r: bool)
        requires
            self@.wf(),
            x < 64,
            y < 32,
        ensures
            r == self@.grid[pix(x as int, y as int)],
    {
        self.grid[x * 32 + y]
    }

    /// A copy of the flattened pixel grid, for the presenter.
    pub fn snapshot(&self) -> (r: Vec<bool>)
        requires
            self@.wf(),
        ensures
            r@ == self@.grid,
    {
        let mut out: Vec<bool> = Vec::new();
        let mut k: usize = 0;
        while k < DISPLAY_CELLS
            invariant
                self@.grid.len() == 2048,
                k <= 2048,
                out@.len() == k,
                forall|i: int| 0 <= i < k ==> out@[i] == self@.grid[i],
            decreases 2048 - k,
        {
            out.push(self.grid[k]);
            k = k + 1;
        }
        proof {
            assert(out@ =~= self@.grid);
        }
        out
    }

    /// XOR-composite an up-to-fifteen-row sprite at `(x0, y0)`, wrapping
    /// columns modulo 64 and rows modulo 32. Returns whether any set pixel
    /// was erased; the framebuffer is marked for presentation exactly when
    /// some pixel changed.
    pub fn draw_sprite(&mut self, x0: u8, y0: u8, sprite: &Vec<u8>) -> (collision: bool)
        requires
            old(self)@.wf(),
            sprite@.len() <= 15,
        ensures
            final(self)@.grid == draw_result(old(self)@.grid, x0, y0, sprite@),
            collision == draw_collides(old(self)@.grid, x0, y0, sprite@),
            final(self)@.dirty == (old(self)@.dirty || sprite_any_set(sprite@)),
    {
        let ghost g0 = old(self)@.grid;
        let mut collision = false;
        let mut drew = false;
        let mut r: usize = 0;
        while r < sprite.len()
            invariant
                old(self)@.wf(),
                sprite@.len() <= 15,
                r <= sprite@.len(),
                self@.grid.len() == 2048,
                self@.dirty == old(self)@.dirty,
                g0 == old(self)@.grid,
                forall|i: int|
                    0 <= i < 2048 ==> self@.grid[i] == pixel_upto(
                        g0,
                        x0,
                        y0,
                        sprite@,
                        r as int,
                        0,
                        i,
                    ),
                collision == collides_upto(g0, x0, y0, sprite@, r as int, 0),
                drew == any_set_upto(sprite@, r as int, 0),
            decreases sprite@.len() - r,
        {
            let row = sprite[r];
            let mut k: usize = 0;
            while k < 8
                invariant
                    old(self)@.wf(),
                    sprite@.len() <= 15,
                    r < sprite@.len(),
                    row == sprite@[r as int],
                    k <= 8,
                    self@.grid.len() == 2048,
                    self@.dirty == old(self)@.dirty,
                    g0 == old(self)@.grid,
                    forall|i: int|
                        0 <= i < 2048 ==> self@.grid[i] == pixel_upto(
                            g0,
                            x0,
                            y0,
                            sprite@,
                            r as int,
                            k as int,
                            i,
                        ),
                    collision == collides_upto(g0, x0, y0, sprite@, r as int, k as int),
                    drew == any_set_upto(sprite@, r as int, k as int),
                decreases 8 - k,
            {
                let shift: u8 = (7 - k) as u8;
                let bit = ((row >> shift) & 1) == 1;
                proof {
                    assert(bit == sprite_row_bit(sprite@[r as int], k as int));
                }
                let x = ((x0 as usize) + k) % 64;
                let y = ((y0 as usize) + r) % 32;
                let idx = x * 32 + y;
                proof {
                    lemma_wrap_offset(x0 as int, k as int, 64);
                    lemma_wrap_offset(y0 as int, r as int, 32);
                    assert(idx / 32 == x && idx % 32 == y);
                    assert(pix(x as int, y as int) == idx);
                }
                if bit {
                    let old_pix = self.grid[idx];
                    if old_pix {
                        collision = true;
                    }
                    self.grid[idx] = !old_pix;
                    drew = true;
                    proof {
                        assert(old_pix == g0[idx as int]);
                        assert forall|i: int| 0 <= i < 2048 implies self@.grid[i] == pixel_upto(
                            g0,
                            x0,
                            y0,
                            sprite@,
                            r as int,
                            k + 1,
                            i,
                        ) by {
                            let xi = i / 32;
                            let yi = i % 32;
                            if i != idx {
                                if (yi - y0 as int) % 32 == r && (xi - x0 as int) % 64 == k {
                                    lemma_wrap_bijection(x0 as int, 64, xi);
                                    lemma_wrap_bijection(y0 as int, 32, yi);
                                    assert(xi == x && yi == y);
                                    assert(i == idx);
                                }
                            }
                        }
                        assert(collision == collides_upto(
                            g0,
                            x0,
                            y0,
                            sprite@,
                            r as int,
                            k + 1,
                        )) by {
                            if collides_upto(g0, x0, y0, sprite@, r as int, k + 1) {
                            } else {
                                assert(!(sprite_row_bit(sprite@[r as int], k as int) && g0[pix(
                                    (x0 + k) % 64,
                                    (y0 + r) % 32,
                                )]));
                            }
                        }
                        assert(any_set_upto(sprite@, r as int, k + 1)) by {
                            assert(sprite_row_bit(sprite@[r as int], k as int));
                        }
                    }
                } else {
                    proof {
                        assert forall|i: int| 0 <= i < 2048 implies self@.grid[i] == pixel_upto(
                            g0,
                            x0,
                            y0,
                            sprite@,
                            r as int,
                            k + 1,
                            i,
                        ) by {
                            let xi = i / 32;
                            let yi = i % 32;
                            if (yi - y0 as int) % 32 == r && (xi - x0 as int) % 64 == k {
                                lemma_wrap_bijection(x0 as int, 64, xi);
                                lemma_wrap_bijection(y0 as int, 32, yi);
                                assert(xi == x && yi == y);
                                assert(i == idx);
                            }
                        }
                        assert(collision == collides_upto(
                            g0,
                            x0,
                            y0,
                            sprite@,
                            r as int,
                            k + 1,
                        )) by {
                            if collides_upto(g0, x0, y0, sprite@, r as int, k + 1) {
                                let (rr, kk) = choose|rr: int, kk: int|
                                    0 <= rr < sprite@.len() && 0 <= kk < 8 && (rr < r || (rr == r
                                        && kk < k + 1)) && sprite_row_bit(sprite@[rr], kk)
                                        && g0[pix((x0 + kk) % 64, (y0 + rr) % 32)];
                                assert(rr < r || (rr == r && kk < k));
                                assert(collides_upto(g0, x0, y0, sprite@, r as int, k as int));
                            }
                        }
                        assert(drew == any_set_upto(sprite@, r as int, k + 1)) by {
                            if any_set_upto(sprite@, r as int, k + 1) {
                                let (rr, kk) = choose|rr: int, kk: int|
                                    0 <= rr < sprite@.len() && 0 <= kk < 8 && (rr < r || (rr == r
                                        && kk < k + 1)) && sprite_row_bit(sprite@[rr], kk);
                                assert(rr < r || (rr == r && kk < k));
                                assert(any_set_upto(sprite@, r as int, k as int));
                            }
                        }
                    }
                }
                k = k + 1;
            }
            proof {
                assert forall|i: int| 0 <= i < 2048 implies pixel_upto(
                    g0,
                    x0,
                    y0,
                    sprite@,
                    r as int,
                    8,
                    i,
                ) == pixel_upto(g0, x0, y0, sprite@, r + 1, 0, i) by {}
                assert(collides_upto(g0, x0, y0, sprite@, r as int, 8) == collides_upto(
                    g0,
                    x0,
                    y0,
                    sprite@,
                    r + 1,
                    0,
                )) by {
                    if collides_upto(g0, x0, y0, sprite@, r as int, 8) {
                        let (rr, kk) = choose|rr: int, kk: int|
                            0 <= rr < sprite@.len() && 0 <= kk < 8 && (rr < r || (rr == r && kk
                                < 8)) && sprite_row_bit(sprite@[rr], kk) && g0[pix(
                                (x0 + kk) % 64,
                                (y0 + rr) % 32,
                            )];
                        assert(rr < r + 1);
                        assert(collides_upto(g0, x0, y0, sprite@, r + 1, 0));
                    }
                    if collides_upto(g0, x0, y0, sprite@, r + 1, 0) {
                        let (rr, kk) = choose|rr: int, kk: int|
                            0 <= rr < sprite@.len() && 0 <= kk < 8 && rr < r + 1
                                && sprite_row_bit(sprite@[rr], kk) && g0[pix(
                                (x0 + kk) % 64,
                                (y0 + rr) % 32,
                            )];
                        assert(rr < r || (rr == r && kk < 8));
                        assert(collides_upto(g0, x0, y0, sprite@, r as int, 8));
                    }
                }
                assert(any_set_upto(sprite@, r as int, 8) == any_set_upto(sprite@, r + 1, 0)) by {
                    if any_set_upto(sprite@, r as int, 8) {
                        let (rr, kk) = choose|rr: int, kk: int|
                            0 <= rr < sprite@.len() && 0 <= kk < 8 && (rr < r || (rr == r && kk
                                < 8)) && sprite_row_bit(sprite@[rr], kk);
                        assert(rr < r + 1);
                        assert(any_set_upto(sprite@, r + 1, 0));
                    }
                    if any_set_upto(sprite@, r + 1, 0) {
                        let (rr, kk) = choose|rr: int, kk: int|
                            0 <= rr < sprite@.len() && 0 <= kk < 8 && rr < r + 1
                                && sprite_row_bit(sprite@[rr], kk);
                        assert(rr < r || (rr == r && kk < 8));
                        assert(any_set_upto(sprite@, r as int, 8));
                    }
                }
            }
            r = r + 1;
        }
        if drew {
            self.dirty = true;
        }
        proof {
            assert(self@.grid =~= draw_result(g0, x0, y0, sprite@));
        }
        collision
    }
}

} // verus!
