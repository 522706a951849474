//! The 64x32 monochrome display and the XOR sprite blit with wraparound.

use vstd::arithmetic::div_mod::lemma_fundamental_div_mod_converse;
use vstd::prelude::*;

verus! {

/// Whether column `col` (0 = leftmost, most significant bit) of a sprite row is set.
pub open spec fn sprite_bit(byte: u8, col: int) -> bool {
    0 <= col < 8 && (byte & (0x80u8 >> (col as u8))) != 0
}

/// Column of `cell` relative to a sprite whose left edge is at `x`, wrapping modulo the width.
pub open spec fn col_offset(cell: int, x: int) -> int {
    (cell % 64 - x) % 64
}

/// Row of `cell` relative to a sprite whose top edge is at `y`, wrapping modulo the height.
pub open spec fn row_offset(cell: int, y: int) -> int {
    (cell / 64 - y) % 32
}

/// Whether the sprite `rows`, drawn at `(x, y)`, toggles `cell`.
pub open spec fn covers(rows: Seq<u8>, x: int, y: int, cell: int) -> bool {
    let r = row_offset(cell, y);
    r < rows.len() && sprite_bit(rows[r], col_offset(cell, x))
}

/// The display after drawing the sprite `rows` at `(x, y)`: every covered cell is flipped.
pub open spec fn drawn(vram: Seq<bool>, rows: Seq<u8>, x: int, y: int) -> Seq<bool> {
    Seq::new(vram.len(), |c: int| vram[c] != covers(rows, x, y, c))
}

/// Whether drawing the sprite turns some lit cell off.
pub open spec fn collides(vram: Seq<bool>, rows: Seq<u8>, x: int, y: int) -> bool {
    exists|c: int| 0 <= c < vram.len() && #[trigger] covers(rows, x, y, c) && vram[c]
}

/// Whether drawing the sprite toggles at least one cell.
pub open spec fn touches(len: int, rows: Seq<u8>, x: int, y: int) -> bool {
    exists|c: int| 0 <= c < len && #[trigger] covers(rows, x, y, c)
}

/// `covers`, restricted to the sprite bits before row `nr`, column `nb` in scan order.
pub open spec fn covers_before(rows: Seq<u8>, x: int, y: int, cell: int, nr: int, nb: int) -> bool {
    let r = row_offset(cell, y);
    let b = col_offset(cell, x);
    covers(rows, x, y, cell) && (r < nr || (r == nr && b < nb))
}

/// The cell at which bit `b` of sprite row `r` lands for a sprite drawn at `(x, y)`.
pub open spec fn target_cell(x: int, y: int, r: int, b: int) -> int {
    (x + b) % 64 + 64 * ((y + r) % 32)
}

/// A sprite bit lands on the one cell whose offsets are that bit's column and row.
pub proof fn lemma_target_cell(x: int, y: int, r: int, b: int)
    requires
        0 <= x,
        0 <= y,
        0 <= b < 8,
        0 <= r < 32,
    ensures
        0 <= target_cell(x, y, r, b) < 2048,
        col_offset(target_cell(x, y, r, b), x) == b,
        row_offset(target_cell(x, y, r, b), y) == r,
        forall|c: int|
            0 <= c < 2048 && col_offset(c, x) == b && row_offset(c, y) == r ==> c == target_cell(
                x,
                y,
                r,
                b,
            ),
{
    let cx = (x + b) % 64;
    let cy = (y + r) % 32;
    let t = target_cell(x, y, r, b);
    lemma_fundamental_div_mod_converse(t, 64, cy, cx);
    lemma_fundamental_div_mod_converse(x + b, 64, (x + b) / 64, cx);
    lemma_fundamental_div_mod_converse(cx - x, 64, -((x + b) / 64), b);
    lemma_fundamental_div_mod_converse(y + r, 32, (y + r) / 32, cy);
    lemma_fundamental_div_mod_converse(cy - y, 32, -((y + r) / 32), r);
    assert forall|c: int|
        0 <= c < 2048 && col_offset(c, x) == b && row_offset(c, y) == r implies c == t by {
        let k = (c % 64 - x) / 64;
        let j = (c / 64 - y) / 32;
        lemma_fundamental_div_mod_converse(c, 64, c / 64, c % 64);
        lemma_fundamental_div_mod_converse(c % 64 - x, 64, k, b);
        lemma_fundamental_div_mod_converse(x + b, 64, -k, c % 64);
        lemma_fundamental_div_mod_converse(c / 64 - y, 32, j, r);
        lemma_fundamental_div_mod_converse(y + r, 32, -j, c / 64);
    }
}


/// Scanning one more sprite bit adds exactly the cell that bit lands on, and only if it is set.
proof fn lemma_scan_step(rows: Seq<u8>, x: int, y: int, r: int, b: int)
    requires
        0 <= x,
        0 <= y,
        0 <= r < rows.len() <= 32,
        0 <= b < 8,
    ensures
        !covers_before(rows, x, y, target_cell(x, y, r, b), r, b),
        0 <= target_cell(x, y, r, b) < 2048,
        forall|c: int|
            0 <= c < 2048 ==> #[trigger] covers_before(rows, x, y, c, r, b + 1) == (covers_before(
                rows,
                x,
                y,
                c,
                r,
                b,
            ) || (sprite_bit(rows[r], b) && c == target_cell(x, y, r, b))),
{
    lemma_target_cell(x, y, r, b);
}

/// Whether some lit cell of `v0` is covered by the bits scanned before `(nr, nb)`.
#[verifier::opaque]
spec fn collided_before(v0: Seq<bool>, rows: Seq<u8>, x: int, y: int, nr: int, nb: int) -> bool {
    exists|c: int| 0 <= c < 2048 && #[trigger] covers_before(rows, x, y, c, nr, nb) && v0[c]
}

/// Whether some cell is covered by the bits scanned before `(nr, nb)`.
#[verifier::opaque]
spec fn touched_before(rows: Seq<u8>, x: int, y: int, nr: int, nb: int) -> bool {
    exists|c: int| 0 <= c < 2048 && #[trigger] covers_before(rows, x, y, c, nr, nb)
}

proof fn lemma_flags_step(v0: Seq<bool>, rows: Seq<u8>, x: int, y: int, r: int, b: int)
    requires
        0 <= x,
        0 <= y,
        0 <= r < rows.len() <= 32,
        0 <= b < 8,
        v0.len() == 2048,
    ensures
        collided_before(v0, rows, x, y, r, b + 1) == (collided_before(v0, rows, x, y, r, b) || (
        sprite_bit(rows[r], b) && v0[target_cell(x, y, r, b)])),
        touched_before(rows, x, y, r, b + 1) == (touched_before(rows, x, y, r, b) || sprite_bit(
            rows[r],
            b,
        )),
{
    reveal(collided_before);
    reveal(touched_before);
    lemma_scan_step(rows, x, y, r, b);
    let t = target_cell(x, y, r, b);
    if sprite_bit(rows[r], b) {
        assert(covers_before(rows, x, y, t, r, b + 1));
    }
    if collided_before(v0, rows, x, y, r, b + 1) {
        let c = choose|c: int| 0 <= c < 2048 && #[trigger] covers_before(rows, x, y, c, r, b + 1) && v0[c];
        assert(covers_before(rows, x, y, c, r, b) || c == t);
    }
    if touched_before(rows, x, y, r, b + 1) {
        let c = choose|c: int| 0 <= c < 2048 && #[trigger] covers_before(rows, x, y, c, r, b + 1);
        assert(covers_before(rows, x, y, c, r, b) || c == t);
    }
    if collided_before(v0, rows, x, y, r, b) {
        let c = choose|c: int| 0 <= c < 2048 && #[trigger] covers_before(rows, x, y, c, r, b) && v0[c];
        assert(covers_before(rows, x, y, c, r, b + 1));
    }
    if touched_before(rows, x, y, r, b) {
        let c = choose|c: int| 0 <= c < 2048 && #[trigger] covers_before(rows, x, y, c, r, b);
        assert(covers_before(rows, x, y, c, r, b + 1));
    }
}

proof fn lemma_flags_row_end(v0: Seq<bool>, rows: Seq<u8>, x: int, y: int, r: int)
    requires
        0 <= r < rows.len(),
    ensures
        collided_before(v0, rows, x, y, r, 8) == collided_before(v0, rows, x, y, r + 1, 0),
        touched_before(rows, x, y, r, 8) == touched_before(rows, x, y, r + 1, 0),
        forall|c: int| #[trigger] covers_before(rows, x, y, c, r, 8) == covers_before(rows, x, y, c, r + 1, 0),
{
    reveal(collided_before);
    reveal(touched_before);
    assert forall|c: int| #[trigger] covers_before(rows, x, y, c, r, 8) == covers_before(rows, x, y, c, r + 1, 0) by {}
    if collided_before(v0, rows, x, y, r, 8) {
        let c = choose|c: int| 0 <= c < 2048 && #[trigger] covers_before(rows, x, y, c, r, 8) && v0[c];
        assert(covers_before(rows, x, y, c, r + 1, 0));
    }
    if collided_before(v0, rows, x, y, r + 1, 0) {
        let c = choose|c: int| 0 <= c < 2048 && #[trigger] covers_before(rows, x, y, c, r + 1, 0) && v0[c];
        assert(covers_before(rows, x, y, c, r, 8));
    }
    if touched_before(rows, x, y, r, 8) {
        let c = choose|c: int| 0 <= c < 2048 && #[trigger] covers_before(rows, x, y, c, r, 8);
        assert(covers_before(rows, x, y, c, r + 1, 0));
    }
    if touched_before(rows, x, y, r + 1, 0) {
        let c = choose|c: int| 0 <= c < 2048 && #[trigger] covers_before(rows, x, y, c, r + 1, 0);
        assert(covers_before(rows, x, y, c, r, 8));
    }
}

proof fn lemma_flags_done(v0: Seq<bool>, rows: Seq<u8>, x: int, y: int)
    requires
        v0.len() == 2048,
    ensures
        collided_before(v0, rows, x, y, rows.len() as int, 0) == collides(v0, rows, x, y),
        touched_before(rows, x, y, rows.len() as int, 0) == touches(2048, rows, x, y),
        forall|c: int| #[trigger] covers_before(rows, x, y, c, rows.len() as int, 0) == covers(rows, x, y, c),
{
    reveal(collided_before);
    reveal(touched_before);
    let n = rows.len() as int;
    assert forall|c: int| #[trigger] covers_before(rows, x, y, c, n, 0) == covers(rows, x, y, c) by {}
    if collided_before(v0, rows, x, y, n, 0) {
        let c = choose|c: int| 0 <= c < 2048 && #[trigger] covers_before(rows, x, y, c, n, 0) && v0[c];
        assert(covers(rows, x, y, c));
    }
    if collides(v0, rows, x, y) {
        let c = choose|c: int| 0 <= c < v0.len() && #[trigger] covers(rows, x, y, c) && v0[c];
        assert(covers_before(rows, x, y, c, n, 0));
    }
    if touched_before(rows, x, y, n, 0) {
        let c = choose|c: int| 0 <= c < 2048 && #[trigger] covers_before(rows, x, y, c, n, 0);
        assert(covers(rows, x, y, c));
    }
    if touches(2048, rows, x, y) {
        let c = choose|c: int| 0 <= c < 2048 && #[trigger] covers(rows, x, y, c);
        assert(covers_before(rows, x, y, c, n, 0));
    }
}

proof fn lemma_flags_start(v0: Seq<bool>, rows: Seq<u8>, x: int, y: int)
    ensures
        !collided_before(v0, rows, x, y, 0, 0),
        !touched_before(rows, x, y, 0, 0),
{
    reveal(collided_before);
    reveal(touched_before);
}

/// Draws the sprite held in `memory[start..start + height]` at `(x, y)` by XOR, wrapping at the
/// display's edges. Returns whether a lit cell was turned off, and whether any cell changed.
pub fn draw_sprite(vram: &mut [bool; 2048], memory: &[u8], start: usize, height: usize, x: u8, y: u8) -> (res: (bool, bool))
    requires
        start + height <= memory@.len(),
        height <= 15,
    ensures
        final(vram)@ == drawn(old(vram)@, memory@.subrange(start as int, start + height), x as int, y as int),
        res.0 == collides(old(vram)@, memory@.subrange(start as int, start + height), x as int, y as int),
        res.1 == touches(2048, memory@.subrange(start as int, start + height), x as int, y as int),
{
    let ghost v0 = vram@;
    let ghost rows = memory@.subrange(start as int, start + height);
    let ghost xi = x as int;
    let ghost yi = y as int;
    let mut collision = false;
    let mut touched = false;
    let mut r: usize = 0;
    proof {
        lemma_flags_start(v0, rows, xi, yi);
    }
    let len = memory.len();
    while r < height
        invariant
            r <= height <= 15,
            len == memory@.len(),
            xi == x as int,
            yi == y as int,
            start + height <= memory@.len(),
            rows == memory@.subrange(start as int, start + height),
            v0.len() == 2048,
            forall|c: int| 0 <= c < 2048 ==> #[trigger] vram@[c] == (v0[c] != covers_before(rows, xi, yi, c, r as int, 0)),
            collision == collided_before(v0, rows, xi, yi, r as int, 0),
            touched == touched_before(rows, xi, yi, r as int, 0),
        decreases height - r,
    {
        let byte = memory[start + r];
        let mut b: u8 = 0;
        while b < 8
            invariant
                r < height <= 15,
                b <= 8,
                xi == x as int,
                yi == y as int,
                start + height <= memory@.len(),
                rows == memory@.subrange(start as int, start + height),
                byte == rows[r as int],
                v0.len() == 2048,
                forall|c: int| 0 <= c < 2048 ==> #[trigger] vram@[c] == (v0[c] != covers_before(rows, xi, yi, c, r as int, b as int)),
                collision == collided_before(v0, rows, xi, yi, r as int, b as int),
                touched == touched_before(rows, xi, yi, r as int, b as int),
            decreases 8 - b,
        {
            proof {
                lemma_scan_step(rows, xi, yi, r as int, b as int);
                lemma_flags_step(v0, rows, xi, yi, r as int, b as int);
            }
            if byte & (0x80u8 >> b) != 0 {
                let cell = (x as usize + b as usize) % 64 + 64 * ((y as usize + r) % 32);
                assert(cell == target_cell(xi, yi, r as int, b as int));
                collision = collision || vram[cell];
                vram[cell] = !vram[cell];
                touched = true;
            }
            b = b + 1;
        }
        proof {
            lemma_flags_row_end(v0, rows, xi, yi, r as int);
        }
        r = r + 1;
    }
    proof {
        lemma_flags_done(v0, rows, xi, yi);
        assert(vram@ =~= drawn(v0, rows, xi, yi));
    }
    (collision, touched)
}


/// Drawing the same sprite twice at the same place restores the display, and the second draw
/// reports a collision exactly when the sprite covers some cell that was off before the first
/// draw; on a blank display, exactly when the sprite touches any cell.
pub proof fn lemma_draw_twice_restores(vram: Seq<bool>, rows: Seq<u8>, x: int, y: int)
    requires
        vram.len() == 2048,
    ensures
        drawn(drawn(vram, rows, x, y), rows, x, y) == vram,
        collides(drawn(vram, rows, x, y), rows, x, y) == (exists|c: int|
            0 <= c < 2048 && #[trigger] covers(rows, x, y, c) && !vram[c]),
        (forall|c: int| 0 <= c < 2048 ==> !vram[c]) ==> collides(drawn(vram, rows, x, y), rows, x, y)
            == touches(2048, rows, x, y),
{
    let once = drawn(vram, rows, x, y);
    assert(drawn(once, rows, x, y) =~= vram);
    if collides(once, rows, x, y) {
        let c = choose|c: int| 0 <= c < once.len() && #[trigger] covers(rows, x, y, c) && once[c];
        assert(!vram[c]);
    }
    if exists|c: int| 0 <= c < 2048 && #[trigger] covers(rows, x, y, c) && !vram[c] {
        let c = choose|c: int| 0 <= c < 2048 && #[trigger] covers(rows, x, y, c) && !vram[c];
        assert(once[c]);
    }
    if touches(2048, rows, x, y) {
        let c = choose|c: int| 0 <= c < 2048 && #[trigger] covers(rows, x, y, c);
        if forall|c: int| 0 <= c < 2048 ==> !vram[c] {
            assert(once[c]);
        }
    }
}

/// Sprite coordinates wrap: drawing at `(x, y)` acts exactly as drawing at `(x mod 64, y mod 32)`.
pub proof fn lemma_draw_wraps(vram: Seq<bool>, rows: Seq<u8>, x: int, y: int)
    requires
        0 <= x,
        0 <= y,
    ensures
        drawn(vram, rows, x, y) == drawn(vram, rows, x % 64, y % 32),
        collides(vram, rows, x, y) == collides(vram, rows, x % 64, y % 32),
        touches(vram.len() as int, rows, x, y) == touches(vram.len() as int, rows, x % 64, y % 32),
{
    assert forall|c: int| 0 <= c < vram.len() implies #[trigger] covers(rows, x, y, c) == covers(rows, x % 64, y % 32, c) by {
        lemma_fundamental_div_mod_converse(x, 64, x / 64, x % 64);
        lemma_fundamental_div_mod_converse(y, 32, y / 32, y % 32);
        let k = (c % 64 - x % 64) / 64;
        let j = (c / 64 - y % 32) / 32;
        lemma_fundamental_div_mod_converse(c % 64 - x % 64, 64, k, col_offset(c, x % 64));
        lemma_fundamental_div_mod_converse(c % 64 - x, 64, k - x / 64, col_offset(c, x % 64));
        lemma_fundamental_div_mod_converse(c / 64 - y % 32, 32, j, row_offset(c, y % 32));
        lemma_fundamental_div_mod_converse(c / 64 - y, 32, j - y / 32, row_offset(c, y % 32));
    }
    assert(drawn(vram, rows, x, y) =~= drawn(vram, rows, x % 64, y % 32));
    if collides(vram, rows, x, y) {
        let c = choose|c: int| 0 <= c < vram.len() && #[trigger] covers(rows, x, y, c) && vram[c];
        assert(covers(rows, x % 64, y % 32, c));
    }
    if collides(vram, rows, x % 64, y % 32) {
        let c = choose|c: int| 0 <= c < vram.len() && #[trigger] covers(rows, x % 64, y % 32, c) && vram[c];
        assert(covers(rows, x, y, c));
    }
    if touches(vram.len() as int, rows, x, y) {
        let c = choose|c: int| 0 <= c < vram.len() && #[trigger] covers(rows, x, y, c);
        assert(covers(rows, x % 64, y % 32, c));
    }
    if touches(vram.len() as int, rows, x % 64, y % 32) {
        let c = choose|c: int| 0 <= c < vram.len() && #[trigger] covers(rows, x % 64, y % 32, c);
        assert(covers(rows, x, y, c));
    }
}

} // verus!
