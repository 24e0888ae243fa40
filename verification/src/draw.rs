//! Sprite drawing: XOR of an 8-bit-wide sprite onto the wrapped 64x32 frame
//! buffer, with collision detection accumulated across every toggled pixel.

use vstd::prelude::*;
use crate::view::EmuView;
use crate::machine::Emu;

verus! {

/// Whether the sprite row byte has its pixel for column `col` set
/// (bit 7 is column 0, bit 0 is column 7).
pub open spec fn sprite_bit(pixels: u8, col: int) -> bool {
    (pixels >> ((7 - col) as u8)) & 1 == 1
}

/// Frame buffer index of screen coordinates (x, y), wrapped onto the screen.
pub open spec fn pixel_index(x: int, y: int) -> int {
    x % 64 + 64 * (y % 32)
}

/// The frame buffer and accumulated collision flag after drawing the first
/// `cols` columns of one sprite row byte at row `y` (already wrapped),
/// starting from column coordinate `x0`. A set sprite bit toggles its pixel;
/// the flag records whether any toggled pixel was set before its toggle.
pub open spec fn draw_row(screen: Seq<bool>, pixels: u8, x0: int, y: int, cols: int)
    -> (Seq<bool>, bool)
    decreases cols,
{
    if cols <= 0 {
        (screen, false)
    } else {
        let prev = draw_row(screen, pixels, x0, y, cols - 1);
        if sprite_bit(pixels, cols - 1) {
            let idx = (x0 + cols - 1) % 64 + 64 * y;
            (prev.0.update(idx, !prev.0[idx]), prev.1 || prev.0[idx])
        } else {
            prev
        }
    }
}

/// The frame buffer and accumulated collision flag after drawing the first
/// `rows` rows of the sprite stored at memory address `i`, with top-left
/// register coordinates (x0, y0).
pub open spec fn draw_sprite(screen: Seq<bool>, ram: Seq<u8>, i: int, x0: int, y0: int, rows: int)
    -> (Seq<bool>, bool)
    decreases rows,
{
    if rows <= 0 {
        (screen, false)
    } else {
        let prev = draw_sprite(screen, ram, i, x0, y0, rows - 1);
        let row = draw_row(prev.0, ram[i + rows - 1], x0, (y0 + rows - 1) % 32, 8);
        (row.0, prev.1 || row.1)
    }
}

/// Whether some set bit among the first `cols` columns of one sprite row at
/// (wrapped) row `y` lands on frame-buffer index `idx`.
pub open spec fn row_touches(pixels: u8, x0: int, y: int, cols: int, idx: int) -> bool {
    exists|c: int| 0 <= c < cols && sprite_bit(pixels, c) && idx == (x0 + c) % 64 + 64 * y
}

/// Whether some set bit of the first `rows` rows of the sprite stored at
/// memory address `i` lands on frame-buffer index `idx`.
pub open spec fn sprite_touches(ram: Seq<u8>, i: int, x0: int, y0: int, rows: int, idx: int) -> bool {
    exists|r: int| 0 <= r < rows && #[trigger] row_touches(ram[i + r], x0, (y0 + r) % 32, 8, idx)
}

/// Two distinct offsets less than the modulus land on distinct wrapped
/// positions.
proof fn lemma_wrap_distinct(x0: int, m: int, c1: int, c2: int)
    requires
        0 <= x0,
        0 < m,
        0 <= c1 < m,
        0 <= c2 < m,
        c1 != c2,
    ensures
        (x0 + c1) % m != (x0 + c2) % m,
{
    let a = x0 + c1;
    let b = x0 + c2;
    vstd::arithmetic::div_mod::lemma_fundamental_div_mod(a, m);
    vstd::arithmetic::div_mod::lemma_fundamental_div_mod(b, m);
    if a % m == b % m {
        let qa = a / m;
        let qb = b / m;
        assert(a - b == m * (qa - qb)) by (nonlinear_arith)
            requires
                a == m * qa + a % m,
                b == m * qb + b % m,
                a % m == b % m,
        ;
        assert(a != b);
        assert(qa != qb);
        assert(m * (qa - qb) >= m || m * (qa - qb) <= -m) by (nonlinear_arith)
            requires
                m > 0,
                qa != qb,
        ;
        assert(false);
    }
}

/// Per-cell characterization of one sprite row: a cell ends toggled exactly
/// when some set bit lands on it, and the collision flag is set exactly when
/// some set bit lands on a cell that was set before the row was drawn.
pub proof fn lemma_draw_row_cells(screen: Seq<bool>, pixels: u8, x0: int, y: int, cols: int)
    requires
        screen.len() == 2048,
        0 <= x0,
        0 <= y < 32,
        0 <= cols <= 8,
    ensures
        draw_row(screen, pixels, x0, y, cols).0.len() == 2048,
        forall|idx: int| 0 <= idx < 2048 ==> draw_row(screen, pixels, x0, y, cols).0[idx] == (
            if row_touches(pixels, x0, y, cols, idx) { !screen[idx] } else { screen[idx] }
        ),
        draw_row(screen, pixels, x0, y, cols).1 == exists|idx: int|
            0 <= idx < 2048 && row_touches(pixels, x0, y, cols, idx) && screen[idx],
    decreases cols,
{
    if cols > 0 {
        lemma_draw_row_cells(screen, pixels, x0, y, cols - 1);
        let prev = draw_row(screen, pixels, x0, y, cols - 1);
        let cur = draw_row(screen, pixels, x0, y, cols);
        if sprite_bit(pixels, cols - 1) {
            let tidx = (x0 + cols - 1) % 64 + 64 * y;
            vstd::arithmetic::div_mod::lemma_mod_bound(x0 + cols - 1, 64);
            assert(0 <= tidx < 2048);
            // no earlier column lands on the same cell
            assert forall|c: int| 0 <= c < cols - 1 implies
                #[trigger] ((x0 + c) % 64) + 64 * y != tidx by {
                lemma_wrap_distinct(x0, 64, c, cols - 1);
            }
            assert(!row_touches(pixels, x0, y, cols - 1, tidx));
            assert(prev.0[tidx] == screen[tidx]);
            // the newly drawn column marks its cell as touched
            assert(row_touches(pixels, x0, y, cols, tidx));
            assert forall|idx: int| 0 <= idx < 2048 implies cur.0[idx] == (
                if row_touches(pixels, x0, y, cols, idx) { !screen[idx] } else { screen[idx] }
            ) by {
                if idx != tidx {
                    // a witness for `cols` columns that is not the last one
                    // is a witness for `cols - 1` columns, and conversely
                    assert(row_touches(pixels, x0, y, cols, idx)
                        == row_touches(pixels, x0, y, cols - 1, idx)) by {
                        if row_touches(pixels, x0, y, cols, idx) {
                            let c = choose|c: int| 0 <= c < cols && sprite_bit(pixels, c)
                                && idx == (x0 + c) % 64 + 64 * y;
                            assert(c != cols - 1);
                            assert(row_touches(pixels, x0, y, cols - 1, idx));
                        }
                        if row_touches(pixels, x0, y, cols - 1, idx) {
                            let c = choose|c: int| 0 <= c < cols - 1 && sprite_bit(pixels, c)
                                && idx == (x0 + c) % 64 + 64 * y;
                            assert(row_touches(pixels, x0, y, cols, idx));
                        }
                    }
                }
            }
            // collision flag
            assert(cur.1 == (prev.1 || screen[tidx]));
            if prev.1 {
                let w = choose|idx: int| 0 <= idx < 2048
                    && row_touches(pixels, x0, y, cols - 1, idx) && screen[idx];
                assert(row_touches(pixels, x0, y, cols, w)) by {
                    let c = choose|c: int| 0 <= c < cols - 1 && sprite_bit(pixels, c)
                        && w == (x0 + c) % 64 + 64 * y;
                    assert(0 <= c < cols && sprite_bit(pixels, c)
                        && w == (x0 + c) % 64 + 64 * y);
                }
            }
            if !prev.1 && !screen[tidx] {
                assert forall|idx: int| 0 <= idx < 2048 && row_touches(pixels, x0, y, cols, idx)
                    implies !screen[idx] by {
                    if idx != tidx {
                        let c = choose|c: int| 0 <= c < cols && sprite_bit(pixels, c)
                            && idx == (x0 + c) % 64 + 64 * y;
                        assert(c != cols - 1);
                        assert(row_touches(pixels, x0, y, cols - 1, idx));
                    }
                }
            }
        } else {
            // column `cols - 1` contributes nothing
            assert forall|idx: int| 0 <= idx < 2048 implies
                row_touches(pixels, x0, y, cols, idx)
                    == row_touches(pixels, x0, y, cols - 1, idx) by {
                if row_touches(pixels, x0, y, cols, idx) {
                    let c = choose|c: int| 0 <= c < cols && sprite_bit(pixels, c)
                        && idx == (x0 + c) % 64 + 64 * y;
                    assert(c != cols - 1);
                    assert(row_touches(pixels, x0, y, cols - 1, idx));
                }
                if row_touches(pixels, x0, y, cols - 1, idx) {
                    let c = choose|c: int| 0 <= c < cols - 1 && sprite_bit(pixels, c)
                        && idx == (x0 + c) % 64 + 64 * y;
                    assert(row_touches(pixels, x0, y, cols, idx));
                }
            }
        }
    } else {
        assert forall|idx: int| 0 <= idx < 2048 implies
            !row_touches(pixels, x0, y, cols, idx) by {
            if row_touches(pixels, x0, y, cols, idx) {
                let c = choose|c: int| 0 <= c < cols && sprite_bit(pixels, c)
                    && idx == (x0 + c) % 64 + 64 * y;
                assert(false);
            }
        }
    }
}

/// Per-cell characterization of a whole sprite of fewer than 33 rows (the
/// draw instruction draws at most 15): a cell ends toggled exactly when some
/// set sprite bit lands on it, and the collision flag is set exactly when
/// some set sprite bit lands on a cell that was set before the draw.
pub proof fn lemma_draw_sprite_cells(
    screen: Seq<bool>, ram: Seq<u8>, i: int, x0: int, y0: int, rows: int,
)
    requires
        screen.len() == 2048,
        0 <= x0,
        0 <= y0,
        0 <= rows <= 32,
    ensures
        draw_sprite(screen, ram, i, x0, y0, rows).0.len() == 2048,
        forall|idx: int| 0 <= idx < 2048 ==> draw_sprite(screen, ram, i, x0, y0, rows).0[idx] == (
            if sprite_touches(ram, i, x0, y0, rows, idx) { !screen[idx] } else { screen[idx] }
        ),
        draw_sprite(screen, ram, i, x0, y0, rows).1 == exists|idx: int|
            0 <= idx < 2048 && sprite_touches(ram, i, x0, y0, rows, idx) && screen[idx],
    decreases rows,
{
    if rows > 0 {
        lemma_draw_sprite_cells(screen, ram, i, x0, y0, rows - 1);
        let prev = draw_sprite(screen, ram, i, x0, y0, rows - 1);
        let cur = draw_sprite(screen, ram, i, x0, y0, rows);
        let pixels = ram[i + rows - 1];
        let y = (y0 + rows - 1) % 32;
        vstd::arithmetic::div_mod::lemma_mod_bound(y0 + rows - 1, 32);
        lemma_draw_row_cells(prev.0, pixels, x0, y, 8);
        // a cell the last row touches is touched by no earlier row: earlier
        // rows land in other horizontal bands of the frame buffer
        assert forall|idx: int|
            0 <= idx < 2048 && #[trigger] row_touches(pixels, x0, y, 8, idx) implies
            !sprite_touches(ram, i, x0, y0, rows - 1, idx) by {
            if sprite_touches(ram, i, x0, y0, rows - 1, idx) {
                let r = choose|r: int| 0 <= r < rows - 1
                    && #[trigger] row_touches(ram[i + r], x0, (y0 + r) % 32, 8, idx);
                let yr = (y0 + r) % 32;
                lemma_wrap_distinct(y0, 32, r, rows - 1);
                let c1 = choose|c: int| 0 <= c < 8 && #[trigger] sprite_bit(pixels, c)
                    && idx == (x0 + c) % 64 + 64 * y;
                let c2 = choose|c: int| 0 <= c < 8 && #[trigger] sprite_bit(ram[i + r], c)
                    && idx == (x0 + c) % 64 + 64 * yr;
                vstd::arithmetic::div_mod::lemma_mod_bound(x0 + c1, 64);
                vstd::arithmetic::div_mod::lemma_mod_bound(x0 + c2, 64);
                assert(false);
            }
        }
        // the cells themselves
        assert forall|idx: int| 0 <= idx < 2048 implies cur.0[idx] == (
            if sprite_touches(ram, i, x0, y0, rows, idx) { !screen[idx] } else { screen[idx] }
        ) by {
            if row_touches(pixels, x0, y, 8, idx) {
                assert(prev.0[idx] == screen[idx]);
                assert(cur.0[idx] == !screen[idx]);
                assert(row_touches(ram[i + rows - 1], x0, (y0 + rows - 1) % 32, 8, idx));
                assert(sprite_touches(ram, i, x0, y0, rows, idx));
            } else {
                assert(cur.0[idx] == prev.0[idx]);
                if sprite_touches(ram, i, x0, y0, rows, idx) {
                    let r = choose|r: int| 0 <= r < rows
                        && #[trigger] row_touches(ram[i + r], x0, (y0 + r) % 32, 8, idx);
                    assert(r != rows - 1);
                    assert(sprite_touches(ram, i, x0, y0, rows - 1, idx));
                }
                if sprite_touches(ram, i, x0, y0, rows - 1, idx) {
                    let r = choose|r: int| 0 <= r < rows - 1
                        && #[trigger] row_touches(ram[i + r], x0, (y0 + r) % 32, 8, idx);
                    assert(sprite_touches(ram, i, x0, y0, rows, idx));
                }
            }
        }
        // the collision flag
        let rowflag = draw_row(prev.0, pixels, x0, y, 8).1;
        assert(cur.1 == (prev.1 || rowflag));
        if prev.1 {
            let w = choose|idx: int| 0 <= idx < 2048
                && #[trigger] sprite_touches(ram, i, x0, y0, rows - 1, idx) && screen[idx];
            let r = choose|r: int| 0 <= r < rows - 1
                && #[trigger] row_touches(ram[i + r], x0, (y0 + r) % 32, 8, w);
            assert(sprite_touches(ram, i, x0, y0, rows, w));
            assert(exists|idx: int| 0 <= idx < 2048
                && #[trigger] sprite_touches(ram, i, x0, y0, rows, idx) && screen[idx]);
        } else if rowflag {
            let w = choose|idx: int| 0 <= idx < 2048
                && #[trigger] row_touches(pixels, x0, y, 8, idx) && prev.0[idx];
            assert(prev.0[w] == screen[w]);
            assert(row_touches(ram[i + rows - 1], x0, (y0 + rows - 1) % 32, 8, w));
            assert(sprite_touches(ram, i, x0, y0, rows, w));
            assert(exists|idx: int| 0 <= idx < 2048
                && #[trigger] sprite_touches(ram, i, x0, y0, rows, idx) && screen[idx]);
        } else {
            if exists|idx: int| 0 <= idx < 2048
                && #[trigger] sprite_touches(ram, i, x0, y0, rows, idx) && screen[idx] {
                let w = choose|idx: int| 0 <= idx < 2048
                    && #[trigger] sprite_touches(ram, i, x0, y0, rows, idx) && screen[idx];
                let r = choose|r: int| 0 <= r < rows
                    && #[trigger] row_touches(ram[i + r], x0, (y0 + r) % 32, 8, w);
                if r == rows - 1 {
                    assert(prev.0[w] == screen[w]);
                    assert(exists|idx: int| 0 <= idx < 2048
                        && #[trigger] row_touches(pixels, x0, y, 8, idx) && prev.0[idx]);
                    assert(false);
                } else {
                    assert(sprite_touches(ram, i, x0, y0, rows - 1, w));
                    assert(false);
                }
            }
        }
    } else {
        assert forall|idx: int| 0 <= idx < 2048 implies
            !sprite_touches(ram, i, x0, y0, rows, idx) by {
            if sprite_touches(ram, i, x0, y0, rows, idx) {
                let r = choose|r: int| 0 <= r < rows
                    && #[trigger] row_touches(ram[i + r], x0, (y0 + r) % 32, 8, idx);
                assert(false);
            }
        }
    }
}

impl Emu {
    /// Draws an `n`-row sprite read from memory at the index register, with
    /// top-left corner at the (wrapped) coordinates (x0, y0), and reports
    /// whether any pixel was toggled from set to clear.
    pub(crate) fn op_draw(&mut self, x0: usize, y0: usize, n: usize) -> (collision: bool)
        requires
            old(self).wf(),
            old(self)@.i_reg + n <= 4096,
            n <= 15,
            x0 <= 255,
            y0 <= 255,
        ensures
            final(self).wf(),
            final(self)@ == (EmuView {
                screen: draw_sprite(
                    old(self)@.screen, old(self)@.ram, old(self)@.i_reg as int,
                    x0 as int, y0 as int, n as int,
                ).0,
                ..old(self)@
            }),
            collision == draw_sprite(
                old(self)@.screen, old(self)@.ram, old(self)@.i_reg as int,
                x0 as int, y0 as int, n as int,
            ).1,
    {
        let ghost s0 = old(self)@;
        let mut flipped = false;
        let mut row: usize = 0;
        while row < n
            invariant
                old(self).wf(),
                self.wf(),
                row <= n <= 15,
                x0 <= 255,
                y0 <= 255,
                s0 == old(self)@,
                self@.i_reg + n <= 4096,
                self@.pc == s0.pc,
                self@.ram == s0.ram,
                self@.v_regs == s0.v_regs,
                self@.i_reg == s0.i_reg,
                self@.sp == s0.sp,
                self@.stack == s0.stack,
                self@.keys == s0.keys,
                self@.dt == s0.dt,
                self@.st == s0.st,
                self@.screen == draw_sprite(
                    s0.screen, s0.ram, s0.i_reg as int, x0 as int, y0 as int, row as int,
                ).0,
                flipped == draw_sprite(
                    s0.screen, s0.ram, s0.i_reg as int, x0 as int, y0 as int, row as int,
                ).1,
                self@.screen.len() == 2048,
            decreases n - row,
        {
            let pixels = self.ram[self.i_reg as usize + row];
            let yy = (y0 + row) % 32;
            let ghost screen_at_row = self@.screen;
            let ghost flipped_at_row = flipped;
            let mut col: usize = 0;
            while col < 8
                invariant
                    old(self).wf(),
                    self.wf(),
                    col <= 8,
                    x0 <= 255,
                    row < n <= 15,
                    y0 <= 255,
                    s0 == old(self)@,
                    self@.pc == s0.pc,
                    self@.ram == s0.ram,
                    self@.v_regs == s0.v_regs,
                    self@.i_reg == s0.i_reg,
                    self@.sp == s0.sp,
                    self@.stack == s0.stack,
                    self@.keys == s0.keys,
                    self@.dt == s0.dt,
                    self@.st == s0.st,
                    yy == (y0 + row as int) % 32,
                    self@.screen == draw_row(
                        screen_at_row, pixels, x0 as int, yy as int, col as int,
                    ).0,
                    flipped == (flipped_at_row || draw_row(
                        screen_at_row, pixels, x0 as int, yy as int, col as int,
                    ).1),
                decreases 8 - col,
            {
                let sh: u8 = (7 - col) as u8;
                if (pixels >> sh) & 1 == 1 {
                    let px = (x0 + col) % 64;
                    let idx = px + 64 * yy;
                    let cur = self.screen[idx];
                    flipped = flipped || cur;
                    self.screen.set(idx, !cur);
                }
                col = col + 1;
            }
            proof {
                assert(draw_sprite(
                    s0.screen, s0.ram, s0.i_reg as int, x0 as int, y0 as int, row + 1,
                ).0 == draw_row(screen_at_row, pixels, x0 as int, yy as int, 8).0);
            }
            row = row + 1;
        }
        flipped
    }
}

} // verus!
