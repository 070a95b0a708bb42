//! The display as a torus of pixels, and what drawing a sprite does to it.
//!
//! The display is a row-major sequence of `SCREEN_WIDTH * SCREEN_HEIGHT`
//! cells: cell `x + SCREEN_WIDTH * y` is the pixel in column `x` of row `y`.
//! A sprite is up to fifteen bytes, one byte per row, the highest bit
//! leftmost. Drawing exclusive-ors the sprite onto the display; columns and
//! rows that would leave the display come back in on the opposite edge.

use vstd::prelude::*;

verus! {

/// Pixels in a row of the display.
pub const SCREEN_WIDTH: usize = 64;

/// Rows of the display.
pub const SCREEN_HEIGHT: usize = 32;

/// Pixels of the display.
pub const SCREEN_SIZE: usize = SCREEN_WIDTH * SCREEN_HEIGHT;

/// Pixels in a row of a sprite.
pub const SPRITE_WIDTH: usize = 8;

/// Whether the pixel in column `col` of a sprite row is set; column 0 is the
/// highest bit.
pub open spec fn sprite_bit(row: u8, col: int) -> bool {
    row & (0x80u8 >> (col as u8)) != 0
}

/// A sprite and the place where it is drawn.
pub struct Sprite {
    /// The rows, top first.
    pub rows: Seq<u8>,
    /// The display column of the left edge, before wrapping.
    pub x: int,
    /// The display row of the top edge, before wrapping.
    pub y: int,
}

impl Sprite {
    /// The sprite column that falls on `cell`: how far the cell's column is
    /// to the right of the left edge, going around the torus.
    pub open spec fn col_on(self, cell: int) -> int {
        (cell % (SCREEN_WIDTH as int) - self.x) % (SCREEN_WIDTH as int)
    }

    /// The sprite row that falls on `cell`: how far the cell's row is below
    /// the top edge, going around the torus.
    pub open spec fn row_on(self, cell: int) -> int {
        (cell / (SCREEN_WIDTH as int) - self.y) % (SCREEN_HEIGHT as int)
    }

    /// Whether the sprite has a set pixel on `cell`.
    pub open spec fn covers(self, cell: int) -> bool {
        let col = self.col_on(cell);
        let row = self.row_on(cell);
        col < SPRITE_WIDTH && row < self.rows.len() && sprite_bit(self.rows[row], col)
    }

    /// The display after the sprite was drawn on `screen`: every cell that
    /// the sprite covers is flipped, every other cell is kept.
    pub open spec fn drawn_on(self, screen: Seq<bool>) -> Seq<bool> {
        Seq::new(SCREEN_SIZE as nat, |cell: int| screen[cell] != self.covers(cell))
    }

    /// Whether drawing the sprite on `screen` switches off a pixel that was
    /// on.
    pub open spec fn collides_with(self, screen: Seq<bool>) -> bool {
        exists|cell: int| 0 <= cell < SCREEN_SIZE && screen[cell] && #[trigger] self.covers(cell)
    }

    /// The cell that pixel `col` of row `row` falls on.
    pub open spec fn cell_of(self, col: int, row: int) -> int {
        (self.x + col) % (SCREEN_WIDTH as int) + SCREEN_WIDTH * ((self.y + row) % (
        SCREEN_HEIGHT as int))
    }

    /// Whether the part of the sprite that is drawn first has a set pixel on
    /// `cell`: the part is every row above `rows_done`, and of row
    /// `rows_done` the `cols_done` leftmost pixels.
    #[verifier::opaque]
    pub(crate) open spec fn covers_within(self, rows_done: int, cols_done: int, cell: int) -> bool {
        let col = self.col_on(cell);
        let row = self.row_on(cell);
        &&& col < SPRITE_WIDTH
        &&& row < rows_done || (row == rows_done && col < cols_done)
        &&& row < self.rows.len()
        &&& sprite_bit(self.rows[row], col)
    }

    /// Whether drawing that part on `screen` switches off a pixel that was
    /// on.
    pub(crate) open spec fn collides_within(
        self,
        rows_done: int,
        cols_done: int,
        screen: Seq<bool>,
    ) -> bool {
        exists|cell: int|
            0 <= cell < SCREEN_SIZE && screen[cell] && #[trigger] self.covers_within(
                rows_done,
                cols_done,
                cell,
            )
    }

    /// Pixel (`col`, `row`) of the sprite falls on one cell of the display
    /// and on no other.
    pub(crate) proof fn lemma_cell_is_unique(self, col: int, row: int, cell: int)
        requires
            0 <= self.x,
            0 <= self.y,
            0 <= col < SPRITE_WIDTH,
            0 <= row < SCREEN_HEIGHT,
            0 <= cell < SCREEN_SIZE,
        ensures
            0 <= self.cell_of(col, row) < SCREEN_SIZE,
            (self.col_on(cell) == col && self.row_on(cell) == row) <==> cell == self.cell_of(
                col,
                row,
            ),
    {
        let px = cell % (SCREEN_WIDTH as int);
        let py = cell / (SCREEN_WIDTH as int);
        assert(cell == px + SCREEN_WIDTH * py);
        assert(self.col_on(cell) == col <==> px == (self.x + col) % (SCREEN_WIDTH as int)) by {
            let turns = (self.x + col) / (SCREEN_WIDTH as int);
            let back = (px - self.x) / (SCREEN_WIDTH as int);
            assert(self.x + col == SCREEN_WIDTH * turns + (self.x + col) % (SCREEN_WIDTH as int));
            assert(px - self.x == SCREEN_WIDTH * back + (px - self.x) % (SCREEN_WIDTH as int));
        }
        assert(self.row_on(cell) == row <==> py == (self.y + row) % (SCREEN_HEIGHT as int)) by {
            let turns = (self.y + row) / (SCREEN_HEIGHT as int);
            let back = (py - self.y) / (SCREEN_HEIGHT as int);
            assert(self.y + row == SCREEN_HEIGHT * turns + (self.y + row) % (
            SCREEN_HEIGHT as int));
            assert(py - self.y == SCREEN_HEIGHT * back + (py - self.y) % (SCREEN_HEIGHT as int));
        }
    }

    /// Before the first pixel is drawn nothing is covered.
    pub(crate) proof fn lemma_nothing_done(self, screen: Seq<bool>)
        ensures
            forall|cell: int| !#[trigger] self.covers_within(0, 0, cell),
            !self.collides_within(0, 0, screen),
    {
        reveal(Sprite::covers_within);
    }

    /// Drawing pixel `col` of row `row` adds to what is covered the one
    /// cell that the pixel falls on, if the pixel is set, and nothing else.
    /// That cell was not covered before.
    pub(crate) proof fn lemma_pixel_step(self, row: int, col: int)
        requires
            0 <= self.x,
            0 <= self.y,
            0 <= col < SPRITE_WIDTH,
            0 <= row < self.rows.len() <= SCREEN_HEIGHT,
        ensures
            ({
                let target = self.cell_of(col, row);
                let next = col + 1;
                &&& 0 <= target < SCREEN_SIZE
                &&& !self.covers_within(row, col, target)
                &&& forall|cell: int|
                    #![trigger self.covers_within(row, col, cell)]
                    #![trigger self.covers_within(row, next, cell)]
                    0 <= cell < SCREEN_SIZE ==> self.covers_within(row, next, cell) == (
                    self.covers_within(row, col, cell) || (cell == target && sprite_bit(
                        self.rows[row],
                        col,
                    )))
            }),
    {
        reveal(Sprite::covers_within);
        let next = col + 1;
        let target = self.cell_of(col, row);
        self.lemma_cell_is_unique(col, row, target);
        assert forall|cell: int|
            #![trigger self.covers_within(row, col, cell)]
            #![trigger self.covers_within(row, next, cell)]
            0 <= cell < SCREEN_SIZE implies self.covers_within(row, next, cell) == (
        self.covers_within(row, col, cell) || (cell == target && sprite_bit(
            self.rows[row],
            col,
        ))) by {
            self.lemma_cell_is_unique(col, row, cell);
        }
    }

    /// If a later stage of drawing covers what an earlier stage covered
    /// and, if `lit` holds, `cell` besides, then it has collided if the
    /// earlier stage had, or if `lit` holds and `cell` was lit.
    pub(crate) proof fn lemma_collision_grows(
        self,
        earlier: (int, int),
        later: (int, int),
        screen: Seq<bool>,
        cell: int,
        lit: bool,
    )
        requires
            screen.len() == SCREEN_SIZE,
            0 <= cell < SCREEN_SIZE,
            forall|other: int|
                #![trigger self.covers_within(earlier.0, earlier.1, other)]
                #![trigger self.covers_within(later.0, later.1, other)]
                0 <= other < SCREEN_SIZE ==> self.covers_within(later.0, later.1, other) == (
                self.covers_within(earlier.0, earlier.1, other) || (other == cell && lit)),
        ensures
            self.collides_within(later.0, later.1, screen) == (self.collides_within(
                earlier.0,
                earlier.1,
                screen,
            ) || (lit && screen[cell])),
    {
        if self.collides_within(earlier.0, earlier.1, screen) {
            let witness = choose|other: int|
                0 <= other < SCREEN_SIZE && screen[other] && #[trigger] self.covers_within(
                    earlier.0,
                    earlier.1,
                    other,
                );
            assert(self.covers_within(later.0, later.1, witness));
        }
        if lit && screen[cell] {
            assert(self.covers_within(later.0, later.1, cell));
        }
        if self.collides_within(later.0, later.1, screen) {
            let witness = choose|other: int|
                0 <= other < SCREEN_SIZE && screen[other] && #[trigger] self.covers_within(
                    later.0,
                    later.1,
                    other,
                );
            if !(witness == cell && lit) {
                assert(self.covers_within(earlier.0, earlier.1, witness));
            }
        }
    }

    /// A row that is drawn in full counts as a row above the next one.
    pub(crate) proof fn lemma_row_done(self, row: int, screen: Seq<bool>)
        requires
            screen.len() == SCREEN_SIZE,
        ensures
            ({
                let below = row + 1;
                &&& forall|cell: int|
                    #![trigger self.covers_within(row, SPRITE_WIDTH as int, cell)]
                    #![trigger self.covers_within(below, 0, cell)]
                    self.covers_within(below, 0, cell) == self.covers_within(
                        row,
                        SPRITE_WIDTH as int,
                        cell,
                    )
                &&& self.collides_within(below, 0, screen) == self.collides_within(
                    row,
                    SPRITE_WIDTH as int,
                    screen,
                )
            }),
    {
        let below = row + 1;
        assert forall|cell: int|
            #![trigger self.covers_within(row, SPRITE_WIDTH as int, cell)]
            #![trigger self.covers_within(below, 0, cell)]
            self.covers_within(below, 0, cell) == self.covers_within(
                row,
                SPRITE_WIDTH as int,
                cell,
            ) by {
            reveal(Sprite::covers_within);
        }
        self.lemma_collision_grows((row, SPRITE_WIDTH as int), (below, 0), screen, 0, false);
    }

    /// With every row drawn, the part that is drawn is the sprite.
    pub(crate) proof fn lemma_sprite_done(self, screen: Seq<bool>)
        requires
            screen.len() == SCREEN_SIZE,
        ensures
            forall|cell: int|
                #![trigger self.covers(cell)]
                #![trigger self.covers_within(self.rows.len() as int, 0, cell)]
                self.covers_within(self.rows.len() as int, 0, cell) == self.covers(cell),
            self.collides_within(self.rows.len() as int, 0, screen) == self.collides_with(screen),
    {
        reveal(Sprite::covers_within);
        let all = self.rows.len() as int;
        if self.collides_within(all, 0, screen) {
            let witness = choose|cell: int|
                0 <= cell < SCREEN_SIZE && screen[cell] && #[trigger] self.covers_within(
                    all,
                    0,
                    cell,
                );
            assert(self.covers(witness));
        }
        if self.collides_with(screen) {
            let witness = choose|cell: int|
                0 <= cell < SCREEN_SIZE && screen[cell] && #[trigger] self.covers(cell);
            assert(self.covers_within(all, 0, witness));
        }
    }
}

} // verus!
