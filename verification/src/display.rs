//! The monochrome framebuffer: its cells, how a sprite is laid over it, and
//! where a cell lands on a scaled output surface.

use vstd::prelude::*;

verus! {

/// Number of cells in one framebuffer row.
pub const DISPLAY_WIDTH: u32 = 64;

/// Number of framebuffer rows.
pub const DISPLAY_HEIGHT: u32 = 32;

/// Number of cells in the framebuffer, which is stored row by row.
pub const DISPLAY_CELLS: usize = 2048;

/// Largest scale for which every block of the output surface has signed
/// 32-bit coordinates.
pub const MAX_SCALE: u32 = 0x0100_0000;

/// One framebuffer cell.
#[derive(Clone, Copy, Debug, PartialEq, Eq, Structural)]
pub enum Pixel {
    Black,
    White,
}

impl Pixel {
    /// The other colour.
    pub open spec fn toggled(self) -> Pixel {
        match self {
            Pixel::Black => Pixel::White,
            Pixel::White => Pixel::Black,
        }
    }

    /// Flips the cell, as a set sprite bit does.
    pub fn toggle(self) -> (flipped: Pixel)
        ensures
            flipped == self.toggled(),
    {
        match self {
            Pixel::Black => Pixel::White,
            Pixel::White => Pixel::Black,
        }
    }
}

/// Whether bit `column` of a sprite row is set, counting columns from the
/// most significant bit, which is the leftmost cell of the row.
pub open spec fn sprite_bit(row: u8, column: int) -> bool {
    (row >> ((7 - column) as u8)) & 1 == 1
}

/// Whether the sprite, drawn with its top left corner at `(vx, vy)`, has a set
/// bit on the cell `(px, py)`.
///
/// A bit at column `dx` of sprite row `dy` lands on the cell
/// `((vx + dx) mod 64, (vy + dy) mod 32)`: sprites wrap around both edges. A
/// sprite is 8 cells wide and at most 32 rows tall, so a cell is covered from
/// one place in the sprite only, which is the place computed here.
pub open spec fn sprite_covers(sprite: Seq<u8>, vx: int, vy: int, px: int, py: int) -> bool {
    let dx = (px - vx) % (DISPLAY_WIDTH as int);
    let dy = (py - vy) % (DISPLAY_HEIGHT as int);
    dx < 8 && dy < sprite.len() && sprite_bit(sprite[dy], dx)
}

/// Whether cell number `cell` of the row-major framebuffer is covered.
pub open spec fn covers_cell(sprite: Seq<u8>, vx: int, vy: int, cell: int) -> bool {
    sprite_covers(sprite, vx, vy, cell % (DISPLAY_WIDTH as int), cell / (DISPLAY_WIDTH as int))
}

/// The framebuffer after the sprite was drawn at `(vx, vy)`: every covered
/// cell is flipped, every other cell is kept.
pub open spec fn blit(display: Seq<Pixel>, sprite: Seq<u8>, vx: int, vy: int) -> Seq<Pixel> {
    Seq::new(
        display.len(),
        |cell: int|
            if covers_cell(sprite, vx, vy, cell) {
                display[cell].toggled()
            } else {
                display[cell]
            },
    )
}

/// Whether drawing the sprite at `(vx, vy)` turns some white cell black.
pub open spec fn collides(display: Seq<Pixel>, sprite: Seq<u8>, vx: int, vy: int) -> bool {
    exists|cell: int|
        0 <= cell < display.len() && #[trigger] covers_cell(sprite, vx, vy, cell) && display[cell]
            == Pixel::White
}

/// A square of the output surface that shows one framebuffer cell.
#[derive(Clone, Copy, Debug, PartialEq, Eq, Structural)]
pub struct Block {
    /// Left edge.
    pub x: i32,
    /// Top edge.
    pub y: i32,
    /// Length of each side.
    pub side: u32,
}

/// The block that shows cell number `cell` when every cell is drawn `scale`
/// units wide and high.
pub open spec fn block_of(cell: int, scale: int) -> Block {
    Block {
        x: ((cell % (DISPLAY_WIDTH as int)) * scale) as i32,
        y: ((cell / (DISPLAY_WIDTH as int)) * scale) as i32,
        side: scale as u32,
    }
}

/// Where cell number `cell` is shown at the given scale; `None` when there is
/// no such cell or when the scale exceeds `MAX_SCALE`.
pub fn block(cell: usize, scale: u32) -> (shown: Option<Block>)
    ensures
        shown == if cell < DISPLAY_CELLS && scale <= MAX_SCALE {
            Some(block_of(cell as int, scale as int))
        } else {
            None
        },
        shown matches Some(b) ==> {
            &&& b.x == (cell % 64) * scale
            &&& b.y == (cell / 64) * scale
            &&& b.side == scale
        },
{
    if cell >= DISPLAY_CELLS || scale > MAX_SCALE {
        return None;
    }
    let column: u32 = (cell % 64) as u32;
    let row: u32 = (cell / 64) as u32;
    assert(column * scale <= 63 * 0x0100_0000 && row * scale <= 31 * 0x0100_0000) by (nonlinear_arith)
        requires
            column <= 63,
            row <= 31,
            scale <= 0x0100_0000,
    ;
    Some(Block { x: (column * scale) as i32, y: (row * scale) as i32, side: scale })
}

/// The cell on which the bit at column `column` of sprite row `row` lands when
/// the sprite's corner is at `(vx, vy)`.
pub open spec fn landing_cell(vx: int, vy: int, row: int, column: int) -> int {
    ((vy + row) % (DISPLAY_HEIGHT as int)) * (DISPLAY_WIDTH as int) + (vx + column) % (
    DISPLAY_WIDTH as int)
}

/// Whether the cell is covered by a bit that is drawn before the bit at
/// column `column` of row `row`, when the sprite is drawn row by row and each
/// row from the left.
pub open spec fn covered_before(
    sprite: Seq<u8>,
    vx: int,
    vy: int,
    cell: int,
    row: int,
    column: int,
) -> bool {
    let dx = (cell % (DISPLAY_WIDTH as int) - vx) % (DISPLAY_WIDTH as int);
    let dy = (cell / (DISPLAY_WIDTH as int) - vy) % (DISPLAY_HEIGHT as int);
    covers_cell(sprite, vx, vy, cell) && (dy < row || (dy == row && dx < column))
}

/// Whether `now` is `before` with the cells flipped that are covered before
/// column `column` of row `row`.
pub open spec fn drawn_before(
    before: Seq<Pixel>,
    now: Seq<Pixel>,
    sprite: Seq<u8>,
    vx: int,
    vy: int,
    row: int,
    column: int,
) -> bool {
    &&& now.len() == before.len()
    &&& forall|cell: int|
        0 <= cell < before.len() ==> #[trigger] now[cell] == if covered_before(
            sprite,
            vx,
            vy,
            cell,
            row,
            column,
        ) {
            before[cell].toggled()
        } else {
            before[cell]
        }
}

/// Whether a white cell of `before` is covered before column `column` of row
/// `row`.
pub open spec fn collides_before(
    before: Seq<Pixel>,
    sprite: Seq<u8>,
    vx: int,
    vy: int,
    row: int,
    column: int,
) -> bool {
    exists|cell: int|
        0 <= cell < before.len() && #[trigger] covered_before(sprite, vx, vy, cell, row, column)
            && before[cell] == Pixel::White
}

/// The landing cell of a sprite bit is a cell of the framebuffer, and it is
/// the only cell that lies at that bit's offset from the sprite's corner.
pub proof fn lemma_landing_cell(vx: int, vy: int, row: int, column: int, cell: int)
    requires
        0 <= vx < 256,
        0 <= vy < 256,
        0 <= row < 32,
        0 <= column < 8,
        0 <= cell < 2048,
    ensures
        0 <= landing_cell(vx, vy, row, column) < 2048,
        cell == landing_cell(vx, vy, row, column) <==> ((cell % 64 - vx) % 64 == column && (cell
            / 64 - vy) % 32 == row),
{
}

/// Nothing is drawn before the first bit of the first row.
pub proof fn lemma_draw_start(before: Seq<Pixel>, sprite: Seq<u8>, vx: int, vy: int)
    ensures
        drawn_before(before, before, sprite, vx, vy, 0, 0),
        !collides_before(before, sprite, vx, vy, 0, 0),
{
}

/// Drawing one bit: a set bit flips its landing cell, which no earlier bit
/// touched, and collides exactly if that cell was white; a clear bit changes
/// nothing.
pub proof fn lemma_draw_bit(
    before: Seq<Pixel>,
    now: Seq<Pixel>,
    sprite: Seq<u8>,
    vx: int,
    vy: int,
    row: int,
    column: int,
)
    requires
        before.len() == 2048,
        0 <= vx < 256,
        0 <= vy < 256,
        0 <= row < sprite.len() <= 32,
        0 <= column < 8,
        drawn_before(before, now, sprite, vx, vy, row, column),
    ensures
        ({
            let cell = landing_cell(vx, vy, row, column);
            if sprite_bit(sprite[row], column) {
                &&& now[cell] == before[cell]
                &&& drawn_before(
                    before,
                    now.update(cell, before[cell].toggled()),
                    sprite,
                    vx,
                    vy,
                    row,
                    column + 1,
                )
                &&& collides_before(before, sprite, vx, vy, row, column + 1) <==> (collides_before(
                    before,
                    sprite,
                    vx,
                    vy,
                    row,
                    column,
                ) || before[cell] == Pixel::White)
            } else {
                &&& drawn_before(before, now, sprite, vx, vy, row, column + 1)
                &&& collides_before(before, sprite, vx, vy, row, column + 1) <==> collides_before(
                    before,
                    sprite,
                    vx,
                    vy,
                    row,
                    column,
                )
            }
        }),
{
    let target = landing_cell(vx, vy, row, column);
    lemma_landing_cell(vx, vy, row, column, target);
    assert forall|cell: int| 0 <= cell < 2048 implies (covered_before(
        sprite,
        vx,
        vy,
        cell,
        row,
        column + 1,
    ) <==> (covered_before(sprite, vx, vy, cell, row, column) || (cell == target && sprite_bit(
        sprite[row],
        column,
    )))) by {
        lemma_landing_cell(vx, vy, row, column, cell);
    }
    assert(!covered_before(sprite, vx, vy, target, row, column));
    if sprite_bit(sprite[row], column) {
        let next = now.update(target, before[target].toggled());
        assert(covered_before(sprite, vx, vy, target, row, column + 1));
        assert forall|cell: int| 0 <= cell < before.len() implies #[trigger] next[cell]
            == if covered_before(sprite, vx, vy, cell, row, column + 1) {
            before[cell].toggled()
        } else {
            before[cell]
        } by {
            if cell != target {
                assert(next[cell] == now[cell]);
            }
        }
        assert(now[target] == before[target]);
        if collides_before(before, sprite, vx, vy, row, column) {
            let w = choose|cell: int|
                0 <= cell < before.len() && #[trigger] covered_before(
                    sprite,
                    vx,
                    vy,
                    cell,
                    row,
                    column,
                ) && before[cell] == Pixel::White;
            assert(covered_before(sprite, vx, vy, w, row, column + 1));
        }
        if collides_before(before, sprite, vx, vy, row, column + 1) {
            let w = choose|cell: int|
                0 <= cell < before.len() && #[trigger] covered_before(
                    sprite,
                    vx,
                    vy,
                    cell,
                    row,
                    column + 1,
                ) && before[cell] == Pixel::White;
            assert(covered_before(sprite, vx, vy, w, row, column) || w == target);
        }
    } else {
        if collides_before(before, sprite, vx, vy, row, column + 1) {
            let w = choose|cell: int|
                0 <= cell < before.len() && #[trigger] covered_before(
                    sprite,
                    vx,
                    vy,
                    cell,
                    row,
                    column + 1,
                ) && before[cell] == Pixel::White;
            assert(covered_before(sprite, vx, vy, w, row, column));
        }
        if collides_before(before, sprite, vx, vy, row, column) {
            let w = choose|cell: int|
                0 <= cell < before.len() && #[trigger] covered_before(
                    sprite,
                    vx,
                    vy,
                    cell,
                    row,
                    column,
                ) && before[cell] == Pixel::White;
            assert(covered_before(sprite, vx, vy, w, row, column + 1));
        }
    }
}

/// What is drawn before the end of a row is what is drawn before the start
/// of the next.
pub proof fn lemma_draw_row_end(
    before: Seq<Pixel>,
    now: Seq<Pixel>,
    sprite: Seq<u8>,
    vx: int,
    vy: int,
    row: int,
)
    requires
        drawn_before(before, now, sprite, vx, vy, row, 8),
    ensures
        drawn_before(before, now, sprite, vx, vy, row + 1, 0),
        collides_before(before, sprite, vx, vy, row + 1, 0) <==> collides_before(
            before,
            sprite,
            vx,
            vy,
            row,
            8,
        ),
{
    assert forall|cell: int|
        covered_before(sprite, vx, vy, cell, row + 1, 0) <==> covered_before(
            sprite,
            vx,
            vy,
            cell,
            row,
            8,
        ) by {}
    if collides_before(before, sprite, vx, vy, row, 8) {
        let w = choose|cell: int|
            0 <= cell < before.len() && #[trigger] covered_before(sprite, vx, vy, cell, row, 8)
                && before[cell] == Pixel::White;
        assert(covered_before(sprite, vx, vy, w, row + 1, 0));
    }
    if collides_before(before, sprite, vx, vy, row + 1, 0) {
        let w = choose|cell: int|
            0 <= cell < before.len() && #[trigger] covered_before(
                sprite,
                vx,
                vy,
                cell,
                row + 1,
                0,
            ) && before[cell] == Pixel::White;
        assert(covered_before(sprite, vx, vy, w, row, 8));
    }
}

/// Once every row is drawn, the framebuffer is the blitted one, and a
/// collision so far is a collision of the whole sprite.
pub proof fn lemma_draw_done(
    before: Seq<Pixel>,
    now: Seq<Pixel>,
    sprite: Seq<u8>,
    vx: int,
    vy: int,
)
    requires
        drawn_before(before, now, sprite, vx, vy, sprite.len() as int, 0),
    ensures
        now == blit(before, sprite, vx, vy),
        collides_before(before, sprite, vx, vy, sprite.len() as int, 0) <==> collides(
            before,
            sprite,
            vx,
            vy,
        ),
{
    let rows = sprite.len() as int;
    assert forall|cell: int|
        covered_before(sprite, vx, vy, cell, rows, 0) <==> covers_cell(sprite, vx, vy, cell) by {}
    assert(now =~= blit(before, sprite, vx, vy));
    if collides_before(before, sprite, vx, vy, rows, 0) {
        let w = choose|cell: int|
            0 <= cell < before.len() && #[trigger] covered_before(sprite, vx, vy, cell, rows, 0)
                && before[cell] == Pixel::White;
        assert(covers_cell(sprite, vx, vy, w));
    }
    if collides(before, sprite, vx, vy) {
        let w = choose|cell: int|
            0 <= cell < before.len() && #[trigger] covers_cell(sprite, vx, vy, cell)
                && before[cell] == Pixel::White;
        assert(covered_before(sprite, vx, vy, w, rows, 0));
    }
}

} // verus!
