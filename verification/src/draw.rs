//! Sprite drawing: the collision-aware XOR blit onto the 64 x 32 one-bit grid.
//!
//! A sprite is `n` consecutive memory bytes starting at address `i`; byte `r`
//! is sprite row `r`, and its most significant bit is sprite column 0. Each
//! sprite pixel lands on grid cell `((vy + r) % 32, (vx + c) % 64)`: the
//! wraparound is per pixel and per axis, never a single wrap of the whole
//! sprite. The new cell value is the XOR of the old value and the sprite
//! pixel; a collision is a 1 pixel landing on a cell that already holds 1.

use vstd::prelude::*;
use vstd::arithmetic::div_mod::{
    lemma_fundamental_div_mod, lemma_fundamental_div_mod_converse, lemma_mod_multiples_vanish,
};

verus! {

/// Every cell of a one-bit grid holds 0 or 1.
pub open spec fn cells01(g: Seq<u8>) -> bool {
    forall|k: int| 0 <= k < g.len() ==> g[k] == 0 || g[k] == 1
}

/// Sprite pixel at row `r`, column `c` of the sprite stored at memory address
/// `i`: bit `7 - c` of the `r`-th sprite byte, so column 0 is the byte's most
/// significant bit.
pub open spec fn sprite_pixel(mem: Seq<u8>, i: int, r: int, c: int) -> u8 {
    (mem[i + r] >> ((7 - c) as u8)) & 1
}

/// Grid index of the cell that sprite pixel (`r`, `c`) lands on when the
/// sprite is drawn at (`vx`, `vy`); both coordinates wrap independently.
pub open spec fn target_idx(vx: int, vy: int, r: int, c: int) -> int {
    ((vy + r) % 32) * 64 + ((vx + c) % 64)
}

/// The sprite column that lands on grid column `idx % 64`.
pub open spec fn hit_col(vx: int, idx: int) -> int {
    (idx % 64 - vx) % 64
}

/// The sprite row that lands on grid row `idx / 64`.
pub open spec fn hit_row(vy: int, idx: int) -> int {
    (idx / 64 - vy) % 32
}

/// Does an `n`-row sprite drawn at (`vx`, `vy`) touch grid cell `idx`?
pub open spec fn hits(vx: int, vy: int, n: int, idx: int) -> bool {
    hit_col(vx, idx) < 8 && hit_row(vy, idx) < n
}

/// Value of grid cell `idx` after the draw: the XOR of its old value with the
/// sprite pixel that lands on it, or the old value where none does.
pub open spec fn draw_cell(
    gfx: Seq<u8>,
    mem: Seq<u8>,
    i: int,
    vx: int,
    vy: int,
    n: int,
    idx: int,
) -> u8 {
    if hits(vx, vy, n, idx) {
        gfx[idx] ^ sprite_pixel(mem, i, hit_row(vy, idx), hit_col(vx, idx))
    } else {
        gfx[idx]
    }
}

/// The whole grid after drawing the `n`-row sprite at address `i` at
/// position (`vx`, `vy`).
pub open spec fn draw_gfx(gfx: Seq<u8>, mem: Seq<u8>, i: int, vx: int, vy: int, n: int) -> Seq<
    u8,
> {
    Seq::new(2048, |idx: int| draw_cell(gfx, mem, i, vx, vy, n, idx))
}

/// Does the draw collide: some 1 sprite pixel lands on a cell already 1.
/// Cells touched only by 0 sprite pixels never count.
pub open spec fn draw_collision(
    gfx: Seq<u8>,
    mem: Seq<u8>,
    i: int,
    vx: int,
    vy: int,
    n: int,
) -> bool {
    exists|r: int, c: int|
        0 <= r < n && 0 <= c < 8 && #[trigger] sprite_pixel(mem, i, r, c) == 1 && gfx[target_idx(
            vx,
            vy,
            r,
            c,
        )] == 1
}

/// A shifted-out bit is 0 or 1, XOR by it is self-inverse, and on one-bit
/// values XOR is inequality.
proof fn lemma_bit_ops(a: u8, b: u8)
    by (bit_vector)
    ensures
        (a >> b) & 1 == 0 || (a >> b) & 1 == 1,
        (a ^ b) ^ b == a,
        a ^ 0 == a,
        (a == 0 || a == 1) && (b == 0 || b == 1) ==> a ^ b == (if a == b {
            0u8
        } else {
            1u8
        }),
{
}

/// The cell a sprite pixel lands on is inside the grid, and the pixel's own
/// row and column are recovered from that cell's index.
pub proof fn lemma_target_recover(vx: int, vy: int, r: int, c: int)
    requires
        0 <= vx,
        0 <= vy,
        0 <= r < 32,
        0 <= c < 8,
    ensures
        0 <= target_idx(vx, vy, r, c) < 2048,
        hit_col(vx, target_idx(vx, vy, r, c)) == c,
        hit_row(vy, target_idx(vx, vy, r, c)) == r,
{
    let tc = (vx + c) % 64;
    let tr = (vy + r) % 32;
    let idx = target_idx(vx, vy, r, c);
    lemma_fundamental_div_mod(vx + c, 64);
    lemma_fundamental_div_mod(vy + r, 32);
    assert(0 <= tc < 64 && 0 <= tr < 32) by {
        lemma_fundamental_div_mod_converse(vx + c, 64, (vx + c) / 64, tc);
        lemma_fundamental_div_mod_converse(vy + r, 32, (vy + r) / 32, tr);
    };
    assert(idx == tr * 64 + tc);
    assert(0 <= idx < 2048) by (nonlinear_arith)
        requires
            idx == tr * 64 + tc,
            0 <= tc < 64,
            0 <= tr < 32,
    ;
    lemma_fundamental_div_mod_converse(idx, 64, tr, tc);
    assert(idx % 64 == tc && idx / 64 == tr);
    // (tc - vx) % 64 == c: tc - vx == c - 64 * ((vx + c) / 64)
    let qc = (vx + c) / 64;
    assert(tc - vx == 64 * (-qc) + c);
    lemma_mod_multiples_vanish(-qc, c, 64);
    assert(hit_col(vx, idx) == c % 64);
    lemma_fundamental_div_mod_converse(c, 64, 0, c);
    let qr = (vy + r) / 32;
    assert(tr - vy == 32 * (-qr) + r);
    lemma_mod_multiples_vanish(-qr, r, 32);
    assert(hit_row(vy, idx) == r % 32);
    lemma_fundamental_div_mod_converse(r, 32, 0, r);
}

/// A grid cell's recovered sprite row and column are in range, and where the
/// column is a real sprite column the cell is exactly where that sprite pixel
/// lands: recovery is a two-sided inverse.
pub proof fn lemma_hit_recover(vx: int, vy: int, idx: int)
    requires
        0 <= vx,
        0 <= vy,
        0 <= idx < 2048,
    ensures
        0 <= hit_col(vx, idx) < 64,
        0 <= hit_row(vy, idx) < 32,
        target_idx(vx, vy, hit_row(vy, idx), hit_col(vx, idx)) == idx,
{
    let tc = idx % 64;
    let tr = idx / 64;
    lemma_fundamental_div_mod(idx, 64);
    assert(0 <= tc < 64 && 0 <= tr < 32) by (nonlinear_arith)
        requires
            idx == 64 * tr + tc,
            tc == idx % 64,
            tr == idx / 64,
            0 <= idx < 2048,
            0 <= tc < 64 || (64 * (idx / 64) + idx % 64 == idx && 0 <= idx % 64 < 64),
    ;
    let c = hit_col(vx, idx);
    let r = hit_row(vy, idx);
    lemma_fundamental_div_mod(tc - vx, 64);
    lemma_fundamental_div_mod(tr - vy, 32);
    assert(0 <= c < 64 && 0 <= r < 32) by {
        lemma_fundamental_div_mod_converse(tc - vx, 64, (tc - vx) / 64, c);
        lemma_fundamental_div_mod_converse(tr - vy, 32, (tr - vy) / 32, r);
    };
    // (vx + c) % 64 == tc: vx + c == tc - 64 * ((tc - vx) / 64)
    let qc = (tc - vx) / 64;
    assert(vx + c == 64 * (-qc) + tc);
    lemma_mod_multiples_vanish(-qc, tc, 64);
    lemma_fundamental_div_mod_converse(tc, 64, 0, tc);
    assert((vx + c) % 64 == tc);
    let qr = (tr - vy) / 32;
    assert(vy + r == 32 * (-qr) + tr);
    lemma_mod_multiples_vanish(-qr, tr, 32);
    lemma_fundamental_div_mod_converse(tr, 32, 0, tr);
    assert((vy + r) % 32 == tr);
    assert(target_idx(vx, vy, r, c) == tr * 64 + tc);
    assert(tr * 64 + tc == idx);
}

/// Does pair (`r`, `c`) come before (`row`, `col`) in row-major order?
spec fn pair_before(r: int, c: int, row: int, col: int) -> bool {
    r < row || (r == row && c < col)
}

/// Cell `idx` after only the sprite pixels before (`row`, `col`) in row-major
/// order have been applied.
spec fn partial_cell(
    gfx0: Seq<u8>,
    mem: Seq<u8>,
    i: int,
    vx: int,
    vy: int,
    n: int,
    row: int,
    col: int,
    idx: int,
) -> u8 {
    let r = hit_row(vy, idx);
    let c = hit_col(vx, idx);
    if c < 8 && r < n && pair_before(r, c, row, col) {
        gfx0[idx] ^ sprite_pixel(mem, i, r, c)
    } else {
        gfx0[idx]
    }
}

/// Has a collision happened among the sprite pixels before (`row`, `col`)?
spec fn partial_collision(
    gfx0: Seq<u8>,
    mem: Seq<u8>,
    i: int,
    vx: int,
    vy: int,
    row: int,
    col: int,
) -> bool {
    exists|r: int, c: int|
        0 <= r && 0 <= c < 8 && pair_before(r, c, row, col) && #[trigger] sprite_pixel(
            mem,
            i,
            r,
            c,
        ) == 1 && gfx0[target_idx(vx, vy, r, c)] == 1
}

/// XOR-blit the `n`-row sprite at memory address `i` onto the grid at
/// position (`vx`, `vy`), reporting whether any 1 pixel landed on a 1 cell.
pub fn blit_sprite(gfx: &mut Vec<u8>, mem: &Vec<u8>, i: u16, vx: u8, vy: u8, n: u8) -> (collision:
    bool)
    requires
        old(gfx)@.len() == 2048,
        cells01(old(gfx)@),
        mem@.len() == 4096,
        n < 16,
        i as int + n as int <= 4096,
    ensures
        final(gfx)@ == draw_gfx(old(gfx)@, mem@, i as int, vx as int, vy as int, n as int),
        cells01(final(gfx)@),
        collision == draw_collision(old(gfx)@, mem@, i as int, vx as int, vy as int, n as int),
{
    let ghost gfx0 = gfx@;
    let ghost im = i as int;
    let ghost vxm = vx as int;
    let ghost vym = vy as int;
    let ghost nm = n as int;
    let mut collision = false;
    let mut row: u8 = 0;
    while row < n
        invariant
            gfx@.len() == 2048,
            cells01(gfx0),
            cells01(gfx@),
            gfx0.len() == 2048,
            mem@.len() == 4096,
            n < 16,
            row <= n,
            i as int + n as int <= 4096,
            im == i as int && vxm == vx as int && vym == vy as int && nm == n as int,
            forall|idx: int|
                0 <= idx < 2048 ==> gfx@[idx] == partial_cell(
                    gfx0,
                    mem@,
                    im,
                    vxm,
                    vym,
                    nm,
                    row as int,
                    0,
                    idx,
                ),
            collision == partial_collision(gfx0, mem@, im, vxm, vym, row as int, 0),
        decreases n - row,
    {
        let sprite_byte = mem[i as usize + row as usize];
        let mut col: u8 = 0;
        while col < 8
            invariant
                gfx@.len() == 2048,
                cells01(gfx0),
                cells01(gfx@),
                gfx0.len() == 2048,
                mem@.len() == 4096,
                n < 16,
                row < n,
                col <= 8,
                i as int + n as int <= 4096,
                im == i as int && vxm == vx as int && vym == vy as int && nm == n as int,
                sprite_byte == mem@[im + row as int],
                forall|idx: int|
                    0 <= idx < 2048 ==> gfx@[idx] == partial_cell(
                        gfx0,
                        mem@,
                        im,
                        vxm,
                        vym,
                        nm,
                        row as int,
                        col as int,
                        idx,
                    ),
                collision == partial_collision(gfx0, mem@, im, vxm, vym, row as int, col as int),
            decreases 8 - col,
        {
            let px = (sprite_byte >> (7 - col)) & 1;
            let tx = ((vx as usize) + (col as usize)) % 64;
            let ty = ((vy as usize) + (row as usize)) % 32;
            let idx = ty * 64 + tx;
            proof {
                lemma_target_recover(vxm, vym, row as int, col as int);
                lemma_bit_ops(sprite_byte, (7 - col) as u8);
                assert(idx as int == target_idx(vxm, vym, row as int, col as int));
                assert(px == sprite_pixel(mem@, im, row as int, col as int));
            }
            let ghost g_pre = gfx@;
            let ghost coll_pre = collision;
            let cur = gfx[idx];
            if px == 1 {
                if cur == 1 {
                    collision = true;
                }
                gfx.set(idx, cur ^ 1);
                proof {
                    lemma_bit_ops(cur, 1);
                }
            }
            proof {
                let r0 = row as int;
                let c0 = col as int;
                let ti = target_idx(vxm, vym, r0, c0);
                // the cell this pixel lands on had not been touched yet
                assert(g_pre[ti] == gfx0[ti]);
                assert(cur == gfx0[ti]);
                // all other cells keep their value and their partial meaning
                assert forall|k: int| 0 <= k < 2048 implies gfx@[k] == partial_cell(
                    gfx0,
                    mem@,
                    im,
                    vxm,
                    vym,
                    nm,
                    r0,
                    c0 + 1,
                    k,
                ) by {
                    lemma_hit_recover(vxm, vym, k);
                    lemma_bit_ops(gfx0[k], sprite_pixel(mem@, im, hit_row(vym, k), hit_col(vxm, k)));
                    if k != ti {
                        assert(hit_row(vym, k) != r0 || hit_col(vxm, k) != c0);
                        assert(gfx@[k] == g_pre[k]);
                    } else {
                        if px == 1 {
                            assert(gfx@[k] == cur ^ 1);
                        } else {
                            lemma_bit_ops(cur, 0);
                            assert(gfx@[k] == gfx0[k] ^ px);
                        }
                    }
                }
                // the collision flag tracks the pixels processed so far
                if px == 1 && cur == 1 {
                    assert(sprite_pixel(mem@, im, r0, c0) == 1 && gfx0[target_idx(
                        vxm,
                        vym,
                        r0,
                        c0,
                    )] == 1);
                    assert(partial_collision(gfx0, mem@, im, vxm, vym, r0, c0 + 1));
                } else {
                    if collision {
                        let (r, c) = choose|r: int, c: int|
                            0 <= r && 0 <= c < 8 && pair_before(r, c, r0, c0)
                                && #[trigger] sprite_pixel(mem@, im, r, c) == 1 && gfx0[target_idx(
                                vxm,
                                vym,
                                r,
                                c,
                            )] == 1;
                        assert(pair_before(r, c, r0, c0 + 1));
                        assert(partial_collision(gfx0, mem@, im, vxm, vym, r0, c0 + 1));
                    }
                    if partial_collision(gfx0, mem@, im, vxm, vym, r0, c0 + 1) {
                        let (r, c) = choose|r: int, c: int|
                            0 <= r && 0 <= c < 8 && pair_before(r, c, r0, c0 + 1)
                                && #[trigger] sprite_pixel(mem@, im, r, c) == 1 && gfx0[target_idx(
                                vxm,
                                vym,
                                r,
                                c,
                            )] == 1;
                        if r == r0 && c == c0 {
                            assert(false);
                        } else {
                            assert(pair_before(r, c, r0, c0));
                            assert(partial_collision(gfx0, mem@, im, vxm, vym, r0, c0));
                        }
                    }
                }
            }
            col += 1;
        }
        proof {
            // a full row processed reads the same as the start of the next row
            assert forall|k: int| 0 <= k < 2048 implies partial_cell(
                gfx0,
                mem@,
                im,
                vxm,
                vym,
                nm,
                row as int,
                8,
                k,
            ) == partial_cell(gfx0, mem@, im, vxm, vym, nm, row as int + 1, 0, k) by {
                lemma_hit_recover(vxm, vym, k);
            }
            assert(partial_collision(gfx0, mem@, im, vxm, vym, row as int, 8)
                == partial_collision(gfx0, mem@, im, vxm, vym, row as int + 1, 0)) by {
                if partial_collision(gfx0, mem@, im, vxm, vym, row as int, 8) {
                    let (r, c) = choose|r: int, c: int|
                        0 <= r && 0 <= c < 8 && pair_before(r, c, row as int, 8)
                            && #[trigger] sprite_pixel(mem@, im, r, c) == 1 && gfx0[target_idx(
                            vxm,
                            vym,
                            r,
                            c,
                        )] == 1;
                    assert(pair_before(r, c, row as int + 1, 0));
                    assert(partial_collision(gfx0, mem@, im, vxm, vym, row as int + 1, 0));
                }
                if partial_collision(gfx0, mem@, im, vxm, vym, row as int + 1, 0) {
                    let (r, c) = choose|r: int, c: int|
                        0 <= r && 0 <= c < 8 && pair_before(r, c, row as int + 1, 0)
                            && #[trigger] sprite_pixel(mem@, im, r, c) == 1 && gfx0[target_idx(
                            vxm,
                            vym,
                            r,
                            c,
                        )] == 1;
                    assert(pair_before(r, c, row as int, 8));
                    assert(partial_collision(gfx0, mem@, im, vxm, vym, row as int, 8));
                }
            }
        }
        row += 1;
    }
    proof {
        // every pair is before (n, 0): the partial draw is the whole draw
        assert forall|k: int| 0 <= k < 2048 implies gfx@[k] == draw_cell(
            gfx0,
            mem@,
            im,
            vxm,
            vym,
            nm,
            k,
        ) by {
            lemma_hit_recover(vxm, vym, k);
        }
        assert(gfx@ =~= draw_gfx(gfx0, mem@, im, vxm, vym, nm));
        assert(collision == draw_collision(gfx0, mem@, im, vxm, vym, nm)) by {
            if partial_collision(gfx0, mem@, im, vxm, vym, nm, 0) {
                let (r, c) = choose|r: int, c: int|
                    0 <= r && 0 <= c < 8 && pair_before(r, c, nm, 0) && #[trigger] sprite_pixel(
                        mem@,
                        im,
                        r,
                        c,
                    ) == 1 && gfx0[target_idx(vxm, vym, r, c)] == 1;
                assert(draw_collision(gfx0, mem@, im, vxm, vym, nm));
            }
            if draw_collision(gfx0, mem@, im, vxm, vym, nm) {
                let (r, c) = choose|r: int, c: int|
                    0 <= r < nm && 0 <= c < 8 && #[trigger] sprite_pixel(mem@, im, r, c) == 1
                        && gfx0[target_idx(vxm, vym, r, c)] == 1;
                assert(pair_before(r, c, nm, 0));
                assert(partial_collision(gfx0, mem@, im, vxm, vym, nm, 0));
            }
        }
    }
    collision
}

/// Drawing the same sprite at the same position twice restores the grid
/// exactly: the XOR blit is its own inverse.
pub proof fn lemma_draw_twice_restores(
    gfx: Seq<u8>,
    mem: Seq<u8>,
    i: int,
    vx: int,
    vy: int,
    n: int,
)
    requires
        gfx.len() == 2048,
    ensures
        draw_gfx(draw_gfx(gfx, mem, i, vx, vy, n), mem, i, vx, vy, n) == gfx,
{
    let g1 = draw_gfx(gfx, mem, i, vx, vy, n);
    let g2 = draw_gfx(g1, mem, i, vx, vy, n);
    assert forall|k: int| 0 <= k < 2048 implies g2[k] == gfx[k] by {
        lemma_bit_ops(gfx[k], sprite_pixel(mem, i, hit_row(vy, k), hit_col(vx, k)));
    }
    assert(g2 =~= gfx);
}

/// After one draw, drawing the same sprite at the same position again
/// collides exactly when some 1 sprite pixel first landed on a cell that held
/// 0 before the first draw. In particular, on a grid the first draw left no
/// collision in (every touched cell was 0), the second draw of a sprite with
/// any 1 pixel does collide.
pub proof fn lemma_second_draw_collision(
    gfx: Seq<u8>,
    mem: Seq<u8>,
    i: int,
    vx: int,
    vy: int,
    n: int,
)
    requires
        gfx.len() == 2048,
        cells01(gfx),
        0 <= vx,
        0 <= vy,
        0 <= n < 32,
    ensures
        draw_collision(draw_gfx(gfx, mem, i, vx, vy, n), mem, i, vx, vy, n) <==> exists|
            r: int,
            c: int,
        |
            0 <= r < n && 0 <= c < 8 && #[trigger] sprite_pixel(mem, i, r, c) == 1 && gfx[
                target_idx(vx, vy, r, c)
            ] == 0,
{
    let g1 = draw_gfx(gfx, mem, i, vx, vy, n);
    assert forall|r: int, c: int|
        0 <= r < n && 0 <= c < 8 && #[trigger] sprite_pixel(mem, i, r, c) == 1 implies (g1[
        target_idx(vx, vy, r, c)
    ] == 1 <==> gfx[target_idx(vx, vy, r, c)] == 0) by {
        lemma_target_recover(vx, vy, r, c);
        let k = target_idx(vx, vy, r, c);
        assert(hits(vx, vy, n, k));
        lemma_bit_ops(gfx[k], 1);
    }
    if draw_collision(g1, mem, i, vx, vy, n) {
        let (r, c) = choose|r: int, c: int|
            0 <= r < n && 0 <= c < 8 && #[trigger] sprite_pixel(mem, i, r, c) == 1 && g1[target_idx(
                vx,
                vy,
                r,
                c,
            )] == 1;
        assert(gfx[target_idx(vx, vy, r, c)] == 0);
    }
    if exists|r: int, c: int|
        0 <= r < n && 0 <= c < 8 && #[trigger] sprite_pixel(mem, i, r, c) == 1 && gfx[target_idx(
            vx,
            vy,
            r,
            c,
        )] == 0 {
        let (r, c) = choose|r: int, c: int|
            0 <= r < n && 0 <= c < 8 && #[trigger] sprite_pixel(mem, i, r, c) == 1 && gfx[
                target_idx(vx, vy, r, c)
            ] == 0;
        assert(g1[target_idx(vx, vy, r, c)] == 1);
        assert(draw_collision(g1, mem, i, vx, vy, n));
    }
}

} // verus!
