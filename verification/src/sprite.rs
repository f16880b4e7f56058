//! Drawing a sprite into a pixel grid by exclusive or.
//!
//! A sprite is a run of bytes, one per row, eight pixels wide, the highest
//! bit leftmost. Its bits are taken in raster order: bit `k` lies in row
//! `k / 8` and column `k % 8`. Each set bit flips one pixel of the grid; the
//! pixel's place wraps round the grid's edges on its own.

use vstd::prelude::*;

verus! {

/// Whether column `col` of a sprite row is set. Column 0 is the leftmost and
/// is carried by the highest bit of the byte.
pub open spec fn row_bit(row: u8, col: u8) -> bool {
    row & (0x80u8 >> col) != 0
}

/// The `n` bytes of `ram` from `start` on.
pub open spec fn rows_at(ram: Seq<u8>, start: int, n: nat) -> Seq<u8> {
    Seq::new(n, |i: int| ram[start + i])
}

/// Whether bit `k` of the sprite, in raster order, is set.
pub open spec fn sprite_bit(rows: Seq<u8>, k: int) -> bool {
    row_bit(rows[k / 8], (k % 8) as u8)
}

/// The index, in a grid stored row after row, of the pixel that bit `k` of
/// a sprite with its top left corner at (`left`, `top`) falls on.
pub open spec fn target(left: int, top: int, width: int, height: int, k: int) -> int {
    ((top + k / 8) % height) * width + (left + k % 8) % width
}

/// The grid after the first `bits` bits of the sprite have been drawn: each
/// set bit, in turn, flips the pixel it falls on.
pub open spec fn plotted(
    screen: Seq<bool>,
    rows: Seq<u8>,
    left: int,
    top: int,
    width: int,
    height: int,
    bits: nat,
) -> Seq<bool>
    decreases bits,
{
    if bits == 0 {
        screen
    } else {
        let k = bits - 1;
        let before = plotted(screen, rows, left, top, width, height, k as nat);
        let at = target(left, top, width, height, k);
        if sprite_bit(rows, k) {
            before.update(at, !before[at])
        } else {
            before
        }
    }
}

/// Whether drawing the first `bits` bits of the sprite has put out a pixel
/// that was lit at the moment it was flipped.
pub open spec fn collided(
    screen: Seq<bool>,
    rows: Seq<u8>,
    left: int,
    top: int,
    width: int,
    height: int,
    bits: nat,
) -> bool
    decreases bits,
{
    if bits == 0 {
        false
    } else {
        let k = bits - 1;
        let before = plotted(screen, rows, left, top, width, height, k as nat);
        collided(screen, rows, left, top, width, height, k as nat) || (sprite_bit(rows, k)
            && before[target(left, top, width, height, k)])
    }
}

/// Drawing keeps the size of the grid.
pub proof fn lemma_plotted_len(
    screen: Seq<bool>,
    rows: Seq<u8>,
    left: int,
    top: int,
    width: int,
    height: int,
    bits: nat,
)
    requires
        width > 0,
        height > 0,
        screen.len() == width * height,
    ensures
        plotted(screen, rows, left, top, width, height, bits).len() == screen.len(),
    decreases bits,
{
    if bits > 0 {
        lemma_plotted_len(screen, rows, left, top, width, height, (bits - 1) as nat);
        lemma_target_in_grid(left, top, width, height, bits - 1);
    }
}

/// A target lies inside a grid of `width` by `height` pixels.
pub proof fn lemma_target_in_grid(left: int, top: int, width: int, height: int, k: int)
    requires
        width > 0,
        height > 0,
    ensures
        0 <= target(left, top, width, height, k) < width * height,
{
    let row = (top + k / 8) % height;
    let col = (left + k % 8) % width;
    assert(row * width + col < width * height) by (nonlinear_arith)
        requires
            0 <= row <= height - 1,
            0 <= col <= width - 1,
    ;
    assert(0 <= row * width + col) by (nonlinear_arith)
        requires
            0 <= row,
            0 <= col,
            0 < width,
    ;
}

/// Whether, on a grid of 64 by 32 pixels, one of the first `bits` bits of the
/// sprite is set and falls on pixel `p`. The pixel lies `col` columns right of
/// the sprite's left edge and `row` rows below its top edge, both counted
/// round the grid's edges; the bit over it is bit `8 * row + col`.
pub open spec fn lit_by(rows: Seq<u8>, left: int, top: int, p: int, bits: int) -> bool {
    let col = (p % 64 - left) % 64;
    let row = (p / 64 - top) % 32;
    col < 8 && 8 * row + col < bits && row_bit(rows[row], col as u8)
}

/// On a grid of 64 by 32 pixels, the pixel that bit `k` falls on lies
/// `k % 8` columns right of the sprite's left edge and `k / 8` rows below its
/// top edge, counted round the grid's edges.
proof fn lemma_target_coords(left: int, top: int, k: int)
    requires
        0 <= k < 8 * 32,
    ensures
        0 <= target(left, top, 64, 32, k) < 64 * 32,
        (target(left, top, 64, 32, k) % 64 - left) % 64 == k % 8,
        (target(left, top, 64, 32, k) / 64 - top) % 32 == k / 8,
{
    let line = (top + k / 8) % 32;
    let column = (left + k % 8) % 64;
    let at = line * 64 + column;
    assert(at % 64 == column && at / 64 == line);
    assert((column - left) % 64 == k % 8);
    assert((line - top) % 32 == k / 8);
}

/// On a grid of 64 by 32 pixels, a pixel with those coordinates is the one
/// that bit `k` falls on.
proof fn lemma_coords_target(left: int, top: int, p: int, k: int)
    requires
        0 <= p < 64 * 32,
        0 <= k < 8 * 32,
        (p % 64 - left) % 64 == k % 8,
        (p / 64 - top) % 32 == k / 8,
    ensures
        p == target(left, top, 64, 32, k),
{
    let line = p / 64;
    let column = p % 64;
    assert(column == (left + k % 8) % 64);
    assert(line == (top + k / 8) % 32);
}

/// On a grid of 64 by 32 pixels a sprite of at most 32 rows falls on each
/// pixel at most once. So drawing is an exclusive or pixel by pixel: a pixel
/// is lit afterwards iff it was lit or a set bit fell on it, not both. And a
/// collision is a pixel that was lit before the drawing and on which a set
/// bit fell.
pub proof fn lemma_plot_by_pixel(
    screen: Seq<bool>,
    rows: Seq<u8>,
    left: int,
    top: int,
    bits: nat,
)
    requires
        screen.len() == 64 * 32,
        bits <= 8 * 32,
    ensures
        forall|p: int|
            0 <= p < 64 * 32 ==> #[trigger] plotted(screen, rows, left, top, 64, 32, bits)[p] == (
            screen[p] != lit_by(rows, left, top, p, bits as int)),
        collided(screen, rows, left, top, 64, 32, bits) <==> exists|p: int|
            0 <= p < 64 * 32 && screen[p] && #[trigger] lit_by(rows, left, top, p, bits as int),
    decreases bits,
{
    if bits > 0 {
        let k = bits - 1;
        let before = plotted(screen, rows, left, top, 64, 32, k as nat);
        let after = plotted(screen, rows, left, top, 64, 32, bits);
        let at = target(left, top, 64, 32, k);
        lemma_plot_by_pixel(screen, rows, left, top, k as nat);
        lemma_plotted_len(screen, rows, left, top, 64, 32, k as nat);
        lemma_target_coords(left, top, k);
        assert(lit_by(rows, left, top, at, bits as int) == sprite_bit(rows, k));
        assert(!lit_by(rows, left, top, at, k as int));
        assert forall|p: int| 0 <= p < 64 * 32 && p != at implies lit_by(
            rows,
            left,
            top,
            p,
            bits as int,
        ) == lit_by(rows, left, top, p, k as int) by {
            let col = (p % 64 - left) % 64;
            let row = (p / 64 - top) % 32;
            if col < 8 && 8 * row + col == k {
                lemma_coords_target(left, top, p, k);
            }
        }
        assert forall|p: int| 0 <= p < 64 * 32 implies #[trigger] after[p] == (screen[p] != lit_by(
            rows,
            left,
            top,
            p,
            bits as int,
        )) by {
            assert(before[p] == (screen[p] != lit_by(rows, left, top, p, k as int)));
        }
        assert(before[at] == screen[at]);
        if collided(screen, rows, left, top, 64, 32, bits) {
            if collided(screen, rows, left, top, 64, 32, k as nat) {
                let p = choose|p: int|
                    0 <= p < 64 * 32 && screen[p] && #[trigger] lit_by(
                        rows,
                        left,
                        top,
                        p,
                        k as int,
                    );
                assert(lit_by(rows, left, top, p, bits as int));
            } else {
                assert(screen[at] && lit_by(rows, left, top, at, bits as int));
            }
        }
        if exists|p: int|
            0 <= p < 64 * 32 && screen[p] && #[trigger] lit_by(rows, left, top, p, bits as int) {
            let p = choose|p: int|
                0 <= p < 64 * 32 && screen[p] && #[trigger] lit_by(rows, left, top, p, bits as int);
            if p != at {
                assert(lit_by(rows, left, top, p, k as int));
            }
        }
    }
}

/// Draws the `n` sprite rows found in `ram` from `start` on into `screen`,
/// a grid of `width` by `height` pixels, with the sprite's top left corner at
/// (`left`, `top`). Returns whether a lit pixel was put out.
pub fn blit(
    screen: &mut Vec<bool>,
    width: u8,
    height: u8,
    ram: &Vec<u8>,
    start: usize,
    n: u16,
    left: u8,
    top: u8,
) -> (hit: bool)
    requires
        width > 0,
        height > 0,
        old(screen).len() == width * height,
        start + n <= ram.len(),
    ensures
        final(screen).len() == old(screen).len(),
        final(screen)@ == plotted(
            old(screen)@,
            rows_at(ram@, start as int, n as nat),
            left as int,
            top as int,
            width as int,
            height as int,
            8 * n as nat,
        ),
        hit == collided(
            old(screen)@,
            rows_at(ram@, start as int, n as nat),
            left as int,
            top as int,
            width as int,
            height as int,
            8 * n as nat,
        ),
{
    let ghost rows = rows_at(ram@, start as int, n as nat);
    let ghost (l, t, w, h) = (left as int, top as int, width as int, height as int);
    let mut hit = false;
    let mut i: u16 = 0;
    while i < n
        invariant
            i <= n,
            width > 0,
            height > 0,
            screen.len() == width * height,
            start + n <= ram.len(),
            rows == rows_at(ram@, start as int, n as nat),
            (l, t, w, h) == (left as int, top as int, width as int, height as int),
            screen@ == plotted(old(screen)@, rows, l, t, w, h, 8 * i as nat),
            hit == collided(old(screen)@, rows, l, t, w, h, 8 * i as nat),
        decreases n - i,
    {
        let row: u8 = ram[start + i as usize];
        let mut j: u8 = 0;
        while j < 8
            invariant
                j <= 8,
                i < n,
                width > 0,
                height > 0,
                screen.len() == width * height,
                row == rows[i as int],
                (l, t, w, h) == (left as int, top as int, width as int, height as int),
                screen@ == plotted(old(screen)@, rows, l, t, w, h, (8 * i + j) as nat),
                hit == collided(old(screen)@, rows, l, t, w, h, (8 * i + j) as nat),
            decreases 8 - j,
        {
            let ghost k = 8 * i + j;
            assert(k / 8 == i && k % 8 == j);
            if row & (0x80u8 >> j) != 0 {
                let column = (left as usize + j as usize) % (width as usize);
                let line = (top as usize + i as usize) % (height as usize);
                proof {
                    lemma_target_in_grid(l, t, w, h, k);
                }
                let at = line * (width as usize) + column;
                let lit = screen[at];
                if lit {
                    hit = true;
                }
                screen[at] = !lit;
            }
            j += 1;
        }
        i += 1;
    }
    hit
}

} // verus!
