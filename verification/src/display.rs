//! The monochrome display and the way sprites are drawn on it.
//!
//! The display is 64 columns wide and 32 rows high and is stored row by row,
//! so the cell in column `c` of row `r` has index `r * 64 + c`. A sprite is a
//! sequence of bytes, one per row, the most significant bit leftmost. Drawing
//! flips every cell under a set sprite bit; coordinates wrap at both edges, so
//! what leaves the display on one side comes back on the other.

use vstd::prelude::*;

verus! {

/// Columns of the display.
pub const GFX_WIDTH: usize = 64;

/// Rows of the display.
pub const GFX_HEIGHT: usize = 32;

/// Cells of the display.
pub const GFX_SIZE: usize = GFX_WIDTH * GFX_HEIGHT;

/// Columns of a sprite: the bits of one byte.
pub const SPRITE_WIDTH: usize = 8;

/// The display with every cell dark.
pub open spec fn blank_display() -> Seq<bool> {
    Seq::new(GFX_SIZE as nat, |idx: int| false)
}

/// Whether the sprite row `bits` has a pixel in column `dx`, counted from the
/// left.
pub open spec fn sprite_bit(bits: u8, dx: int) -> bool {
    bits & (0x80u8 >> (dx as u8)) != 0
}

/// How far to the right of column `col0` the cell `idx` lies, going round the
/// edge.
pub open spec fn offset_x(col0: int, idx: int) -> int {
    (idx % (GFX_WIDTH as int) - col0) % (GFX_WIDTH as int)
}

/// How far below row `row0` the cell `idx` lies, going round the edge.
pub open spec fn offset_y(row0: int, idx: int) -> int {
    (idx / (GFX_WIDTH as int) - row0) % (GFX_HEIGHT as int)
}

/// Whether a sprite whose top left corner is at (`col0`, `row0`) has a set
/// pixel on the cell `idx`.
pub open spec fn sprite_covers(sprite: Seq<u8>, col0: int, row0: int, idx: int) -> bool {
    let dx = offset_x(col0, idx);
    let dy = offset_y(row0, idx);
    dx < SPRITE_WIDTH && dy < sprite.len() && sprite_bit(sprite[dy], dx)
}

/// The display after the sprite was drawn: the cells under its set pixels are
/// flipped, all others are as before.
pub open spec fn blit(gfx: Seq<bool>, sprite: Seq<u8>, col0: int, row0: int) -> Seq<bool> {
    Seq::new(gfx.len(), |idx: int| gfx[idx] != sprite_covers(sprite, col0, row0, idx))
}

/// Whether drawing the sprite turns off a cell that was lit.
pub open spec fn collides(gfx: Seq<bool>, sprite: Seq<u8>, col0: int, row0: int) -> bool {
    exists|idx: int|
        0 <= idx < gfx.len() && gfx[idx] && #[trigger] sprite_covers(sprite, col0, row0, idx)
}

/// Whether the sprite has a set pixel on a cell that is dark.
pub open spec fn lights_some(gfx: Seq<bool>, sprite: Seq<u8>, col0: int, row0: int) -> bool {
    exists|idx: int|
        0 <= idx < gfx.len() && !gfx[idx] && #[trigger] sprite_covers(sprite, col0, row0, idx)
}

/// Drawing is an involution: the same sprite drawn twice at the same place
/// leaves the display as it was.
pub proof fn lemma_blit_twice(gfx: Seq<bool>, sprite: Seq<u8>, col0: int, row0: int)
    ensures
        blit(blit(gfx, sprite, col0, row0), sprite, col0, row0) == gfx,
{
    assert(blit(blit(gfx, sprite, col0, row0), sprite, col0, row0) =~= gfx);
}

/// The second of two equal drawings collides exactly where the first one lit
/// a cell: it reports a collision if and only if the first drawing put a pixel
/// on a dark cell.
pub proof fn lemma_second_blit_collides(gfx: Seq<bool>, sprite: Seq<u8>, col0: int, row0: int)
    ensures
        collides(blit(gfx, sprite, col0, row0), sprite, col0, row0) == lights_some(
            gfx,
            sprite,
            col0,
            row0,
        ),
{
    let once = blit(gfx, sprite, col0, row0);
    if collides(once, sprite, col0, row0) {
        let idx = choose|idx: int|
            0 <= idx < once.len() && once[idx] && #[trigger] sprite_covers(sprite, col0, row0, idx);
        assert(!gfx[idx] && sprite_covers(sprite, col0, row0, idx));
    }
    if lights_some(gfx, sprite, col0, row0) {
        let idx = choose|idx: int|
            0 <= idx < gfx.len() && !gfx[idx] && #[trigger] sprite_covers(sprite, col0, row0, idx);
        assert(once[idx] && sprite_covers(sprite, col0, row0, idx));
    }
}

/// The cell under the pixel in column `b` of row `r` of a sprite whose top
/// left corner is at (`col0`, `row0`).
pub open spec fn cell_at(col0: int, row0: int, r: int, b: int) -> int {
    ((row0 + r) % (GFX_HEIGHT as int)) * GFX_WIDTH + (col0 + b) % (GFX_WIDTH as int)
}

/// Whether the sprite has a set pixel on the cell `idx` that comes, row by row
/// and from left to right, before the pixel in column `b` of row `r`.
pub open spec fn covers_before(
    sprite: Seq<u8>,
    col0: int,
    row0: int,
    idx: int,
    r: int,
    b: int,
) -> bool {
    &&& sprite_covers(sprite, col0, row0, idx)
    &&& offset_y(row0, idx) < r || (offset_y(row0, idx) == r && offset_x(col0, idx) < b)
}

/// The display when only the pixels before column `b` of row `r` are drawn.
pub open spec fn blit_before(
    gfx: Seq<bool>,
    sprite: Seq<u8>,
    col0: int,
    row0: int,
    r: int,
    b: int,
) -> Seq<bool> {
    Seq::new(gfx.len(), |idx: int| gfx[idx] != covers_before(sprite, col0, row0, idx, r, b))
}

/// Whether one of the pixels before column `b` of row `r` turns off a lit
/// cell.
pub open spec fn collides_before(
    gfx: Seq<bool>,
    sprite: Seq<u8>,
    col0: int,
    row0: int,
    r: int,
    b: int,
) -> bool {
    exists|idx: int|
        0 <= idx < gfx.len() && gfx[idx] && #[trigger] covers_before(
            sprite,
            col0,
            row0,
            idx,
            r,
            b,
        )
}

/// Each pixel of a sprite lies on a cell of its own: `cell_at` and the two
/// offsets are inverse to each other.
pub proof fn lemma_cell_offsets(col0: int, row0: int, r: int, b: int, idx: int)
    requires
        0 <= col0 < 256,
        0 <= row0 < 256,
        0 <= r < GFX_HEIGHT,
        0 <= b < GFX_WIDTH,
        0 <= idx < GFX_SIZE,
    ensures
        0 <= cell_at(col0, row0, r, b) < GFX_SIZE,
        idx == cell_at(col0, row0, r, b) <==> offset_x(col0, idx) == b && offset_y(row0, idx) == r,
{
}

/// Before the first pixel nothing is drawn.
pub proof fn lemma_blit_start(gfx: Seq<bool>, sprite: Seq<u8>, col0: int, row0: int)
    ensures
        blit_before(gfx, sprite, col0, row0, 0, 0) == gfx,
        !collides_before(gfx, sprite, col0, row0, 0, 0),
{
    assert(blit_before(gfx, sprite, col0, row0, 0, 0) =~= gfx);
}

/// Drawing one more pixel flips its cell if the pixel is set, and touches no
/// other cell.
pub proof fn lemma_blit_step(
    gfx: Seq<bool>,
    sprite: Seq<u8>,
    col0: int,
    row0: int,
    r: int,
    b: int,
)
    requires
        gfx.len() == GFX_SIZE,
        0 <= col0 < 256,
        0 <= row0 < 256,
        0 <= r < sprite.len() <= GFX_HEIGHT,
        0 <= b < SPRITE_WIDTH,
    ensures
        0 <= cell_at(col0, row0, r, b) < GFX_SIZE,
        blit_before(gfx, sprite, col0, row0, r, b)[cell_at(col0, row0, r, b)] == gfx[cell_at(
            col0,
            row0,
            r,
            b,
        )],
        blit_before(gfx, sprite, col0, row0, r, b + 1) == if sprite_bit(sprite[r], b) {
            blit_before(gfx, sprite, col0, row0, r, b).update(
                cell_at(col0, row0, r, b),
                !gfx[cell_at(col0, row0, r, b)],
            )
        } else {
            blit_before(gfx, sprite, col0, row0, r, b)
        },
        collides_before(gfx, sprite, col0, row0, r, b + 1) == (collides_before(
            gfx,
            sprite,
            col0,
            row0,
            r,
            b,
        ) || (sprite_bit(sprite[r], b) && gfx[cell_at(col0, row0, r, b)])),
{
    let cell = cell_at(col0, row0, r, b);
    let bit = sprite_bit(sprite[r], b);
    lemma_cell_offsets(col0, row0, r, b, cell);
    assert forall|idx: int| 0 <= idx < GFX_SIZE implies covers_before(
        sprite,
        col0,
        row0,
        idx,
        r,
        b + 1,
    ) == (covers_before(sprite, col0, row0, idx, r, b) || (idx == cell && bit)) by {
        lemma_cell_offsets(col0, row0, r, b, idx);
    }
    let next = if bit {
        blit_before(gfx, sprite, col0, row0, r, b).update(cell, !gfx[cell])
    } else {
        blit_before(gfx, sprite, col0, row0, r, b)
    };
    assert(blit_before(gfx, sprite, col0, row0, r, b + 1) =~= next);
    if collides_before(gfx, sprite, col0, row0, r, b + 1) {
        let idx = choose|idx: int|
            0 <= idx < gfx.len() && gfx[idx] && #[trigger] covers_before(
                sprite,
                col0,
                row0,
                idx,
                r,
                b + 1,
            );
        if idx != cell {
            assert(covers_before(sprite, col0, row0, idx, r, b));
        }
    }
    if collides_before(gfx, sprite, col0, row0, r, b) {
        let idx = choose|idx: int|
            0 <= idx < gfx.len() && gfx[idx] && #[trigger] covers_before(
                sprite,
                col0,
                row0,
                idx,
                r,
                b,
            );
        assert(covers_before(sprite, col0, row0, idx, r, b + 1));
    }
    if bit && gfx[cell] {
        assert(covers_before(sprite, col0, row0, cell, r, b + 1));
    }
}

/// After the last pixel of a row comes the first pixel of the next row.
pub proof fn lemma_blit_row_end(
    gfx: Seq<bool>,
    sprite: Seq<u8>,
    col0: int,
    row0: int,
    r: int,
)
    ensures
        blit_before(gfx, sprite, col0, row0, r + 1, 0) == blit_before(
            gfx,
            sprite,
            col0,
            row0,
            r,
            SPRITE_WIDTH as int,
        ),
        collides_before(gfx, sprite, col0, row0, r + 1, 0) == collides_before(
            gfx,
            sprite,
            col0,
            row0,
            r,
            SPRITE_WIDTH as int,
        ),
{
    assert forall|idx: int|
        covers_before(sprite, col0, row0, idx, r + 1, 0) == covers_before(
            sprite,
            col0,
            row0,
            idx,
            r,
            SPRITE_WIDTH as int,
        ) by {}
    assert(blit_before(gfx, sprite, col0, row0, r + 1, 0) =~= blit_before(
        gfx,
        sprite,
        col0,
        row0,
        r,
        SPRITE_WIDTH as int,
    ));
    if collides_before(gfx, sprite, col0, row0, r + 1, 0) {
        let idx = choose|idx: int|
            0 <= idx < gfx.len() && gfx[idx] && #[trigger] covers_before(
                sprite,
                col0,
                row0,
                idx,
                r + 1,
                0,
            );
        assert(covers_before(sprite, col0, row0, idx, r, SPRITE_WIDTH as int));
    }
    if collides_before(gfx, sprite, col0, row0, r, SPRITE_WIDTH as int) {
        let idx = choose|idx: int|
            0 <= idx < gfx.len() && gfx[idx] && #[trigger] covers_before(
                sprite,
                col0,
                row0,
                idx,
                r,
                SPRITE_WIDTH as int,
            );
        assert(covers_before(sprite, col0, row0, idx, r + 1, 0));
    }
}

/// After the last row the whole sprite is drawn.
pub proof fn lemma_blit_end(gfx: Seq<bool>, sprite: Seq<u8>, col0: int, row0: int)
    ensures
        blit_before(gfx, sprite, col0, row0, sprite.len() as int, 0) == blit(
            gfx,
            sprite,
            col0,
            row0,
        ),
        collides_before(gfx, sprite, col0, row0, sprite.len() as int, 0) == collides(
            gfx,
            sprite,
            col0,
            row0,
        ),
{
    let rows = sprite.len() as int;
    assert forall|idx: int|
        covers_before(sprite, col0, row0, idx, rows, 0) == sprite_covers(
            sprite,
            col0,
            row0,
            idx,
        ) by {}
    assert(blit_before(gfx, sprite, col0, row0, rows, 0) =~= blit(gfx, sprite, col0, row0));
    if collides_before(gfx, sprite, col0, row0, rows, 0) {
        let idx = choose|idx: int|
            0 <= idx < gfx.len() && gfx[idx] && #[trigger] covers_before(
                sprite,
                col0,
                row0,
                idx,
                rows,
                0,
            );
        assert(sprite_covers(sprite, col0, row0, idx));
    }
    if collides(gfx, sprite, col0, row0) {
        let idx = choose|idx: int|
            0 <= idx < gfx.len() && gfx[idx] && #[trigger] sprite_covers(sprite, col0, row0, idx);
        assert(covers_before(sprite, col0, row0, idx, rows, 0));
    }
}

} // verus!
