//! The rules of the board: which placements are valid, where a falling
//! piece comes to rest, and how a piece is stamped into the board and
//! lifted off it.

use super::tetrad::{Motion, Tetrad};
use super::tile::{Tile, SQUARE_OUTLINE};
use crate::grid::cells::{put_tile, tile_at};
use crate::grid::grid::Grid;
use vstd::prelude::*;

verus! {

/// Which cells are occupied: `true` where the tile is not empty.
pub open spec fn taken(rows: Seq<Seq<Tile>>) -> Seq<Seq<bool>> {
    Seq::new(rows.len(), |r: int| Seq::new(rows[r].len(), |c: int| !rows[r][c].empty))
}

/// Whether `(row, column)` is a cell of the board that nothing occupies.
pub open spec fn free_in(occupied: Seq<Seq<bool>>, row: int, column: int) -> bool {
    0 <= row < occupied.len() && 0 <= column < occupied[row].len() && !occupied[row][column]
}

/// Whether each of the four tiles of `t` lies on the board, on a cell that
/// nothing occupies.
pub open spec fn fits_in(occupied: Seq<Seq<bool>>, t: Tetrad) -> bool {
    &&& free_in(occupied, t.cell(0).0, t.cell(0).1)
    &&& free_in(occupied, t.cell(1).0, t.cell(1).1)
    &&& free_in(occupied, t.cell(2).0, t.cell(2).1)
    &&& free_in(occupied, t.cell(3).0, t.cell(3).1)
}

/// Whether every cell of the row is occupied.
pub open spec fn full_in(occupied: Seq<Seq<bool>>, row: int) -> bool {
    forall|c: int| 0 <= c < occupied[row].len() ==> #[trigger] occupied[row][c]
}

/// Where `t` comes to rest: the piece moved down one row at a time for as
/// long as the moved piece fits; the last piece that fits.
pub open spec fn rest(occupied: Seq<Seq<bool>>, t: Tetrad) -> Tetrad
    decreases occupied.len() - t.cell(0).0,
{
    let below = t.translate_spec(1, 0);
    if below is Some && fits_in(occupied, below->0) {
        rest(occupied, below->0)
    } else {
        t
    }
}

/// The piece with every tile drawn as a hollow square.
pub open spec fn outlined(t: Tetrad) -> Tetrad {
    Tetrad {
        tiles: [
            Tile { utf8: SQUARE_OUTLINE, ..t.tiles[0] },
            Tile { utf8: SQUARE_OUTLINE, ..t.tiles[1] },
            Tile { utf8: SQUARE_OUTLINE, ..t.tiles[2] },
            Tile { utf8: SQUARE_OUTLINE, ..t.tiles[3] },
        ],
        ..t
    }
}

/// The shadow of `t`: the piece at rest, drawn as hollow squares.
pub open spec fn ghost_of(occupied: Seq<Seq<bool>>, t: Tetrad) -> Tetrad {
    outlined(rest(occupied, t))
}

/// Whether each of the four tiles of `t` lies on the board.
pub open spec fn holds_in(rows: Seq<Seq<Tile>>, t: Tetrad) -> bool {
    forall|i: int|
        0 <= i < 4 ==> 0 <= (#[trigger] t.cell(i)).0 < rows.len() && 0 <= t.cell(i).1
            < rows[t.cell(i).0].len()
}

/// Whether none of the four tiles of `t` is marked as occupying its cell.
pub open spec fn free_tiles(t: Tetrad) -> bool {
    t.tiles[0].empty && t.tiles[1].empty && t.tiles[2].empty && t.tiles[3].empty
}

/// The rows with `tile` written at the position that it records.
pub open spec fn with_tile(rows: Seq<Seq<Tile>>, tile: Tile) -> Seq<Seq<Tile>> {
    rows.update(tile.row as int, rows[tile.row as int].update(tile.column as int, tile))
}

/// The rows with the four tiles of `t` written in turn.
#[verifier::opaque]
pub open spec fn stamped(rows: Seq<Seq<Tile>>, t: Tetrad) -> Seq<Seq<Tile>> {
    with_tile(with_tile(with_tile(with_tile(rows, t.tiles[0]), t.tiles[1]), t.tiles[2]), t.tiles[3])
}

/// The rows with a blank tile written at each of the four cells of `t`.
#[verifier::opaque]
pub open spec fn lifted(rows: Seq<Seq<Tile>>, t: Tetrad) -> Seq<Seq<Tile>> {
    with_tile(
        with_tile(
            with_tile(
                with_tile(rows, Tile::blank(t.tiles[0].row, t.tiles[0].column)),
                Tile::blank(t.tiles[1].row, t.tiles[1].column),
            ),
            Tile::blank(t.tiles[2].row, t.tiles[2].column),
        ),
        Tile::blank(t.tiles[3].row, t.tiles[3].column),
    )
}

/// The board under whatever is merely shown on it: every occupied cell as
/// it is, every other cell blank.
pub open spec fn base(rows: Seq<Seq<Tile>>) -> Seq<Seq<Tile>> {
    Seq::new(
        rows.len(),
        |r: int|
            Seq::new(
                rows[r].len(),
                |c: int|
                    if rows[r][c].empty {
                        Tile::blank(r as usize, c as usize)
                    } else {
                        rows[r][c]
                    },
            ),
    )
}

/// The board with the shadow and, over it, the falling piece shown.
pub open spec fn overlay(board: Seq<Seq<Tile>>, active: Tetrad, shadow: Tetrad) -> Seq<Seq<Tile>> {
    stamped(stamped(board, shadow), active)
}

/// Every tile records the position at which it is stored.
pub open spec fn all_positioned(rows: Seq<Seq<Tile>>) -> bool {
    forall|r: int, c: int|
        0 <= r < rows.len() && 0 <= c < rows[r].len() ==> (#[trigger] rows[r][c]).row == r
            && rows[r][c].column == c
}

/// Two boards of one shape.
pub open spec fn same_shape(a: Seq<Seq<Tile>>, b: Seq<Seq<Tile>>) -> bool {
    &&& a.len() == b.len()
    &&& forall|r: int| 0 <= r < a.len() ==> (#[trigger] a[r]).len() == b[r].len()
}

/// What stamping a piece does to each cell: a cell under the piece shows
/// the last tile of the piece that sits there; every other cell is as it
/// was.
pub proof fn lemma_stamped(rows: Seq<Seq<Tile>>, t: Tetrad)
    requires
        holds_in(rows, t),
    ensures
        same_shape(rows, stamped(rows, t)),
        forall|r: int, c: int|
            0 <= r < rows.len() && 0 <= c < rows[r].len() ==> #[trigger] stamped(rows, t)[r][c]
                == if t.covers(r, c) {
                t.tile_over(r, c)
            } else {
                rows[r][c]
            },
{
    reveal(stamped);
    let s0 = with_tile(rows, t.tiles[0]);
    let s1 = with_tile(s0, t.tiles[1]);
    let s2 = with_tile(s1, t.tiles[2]);
    let s3 = with_tile(s2, t.tiles[3]);
    assert(t.cell(0).0 < rows.len() && t.cell(1).0 < rows.len());
    assert(t.cell(2).0 < rows.len() && t.cell(3).0 < rows.len());
    assert(same_shape(rows, s0));
    assert(same_shape(rows, s1));
    assert(same_shape(rows, s2));
    assert(same_shape(rows, s3));
}

/// What lifting a piece does to each cell: a cell under the piece becomes
/// blank; every other cell is as it was.
pub proof fn lemma_lifted(rows: Seq<Seq<Tile>>, t: Tetrad)
    requires
        holds_in(rows, t),
    ensures
        same_shape(rows, lifted(rows, t)),
        forall|r: int, c: int|
            0 <= r < rows.len() && 0 <= c < rows[r].len() ==> #[trigger] lifted(rows, t)[r][c]
                == if t.covers(r, c) {
                Tile::blank(r as usize, c as usize)
            } else {
                rows[r][c]
            },
{
    reveal(lifted);
    let s0 = with_tile(rows, Tile::blank(t.tiles[0].row, t.tiles[0].column));
    let s1 = with_tile(s0, Tile::blank(t.tiles[1].row, t.tiles[1].column));
    let s2 = with_tile(s1, Tile::blank(t.tiles[2].row, t.tiles[2].column));
    let s3 = with_tile(s2, Tile::blank(t.tiles[3].row, t.tiles[3].column));
    assert(t.cell(0).0 < rows.len() && t.cell(1).0 < rows.len());
    assert(t.cell(2).0 < rows.len() && t.cell(3).0 < rows.len());
    assert(same_shape(rows, s0));
    assert(same_shape(rows, s1));
    assert(same_shape(rows, s2));
    assert(same_shape(rows, s3));
}

/// A piece that fits lies on the board.
pub proof fn lemma_fits_holds(rows: Seq<Seq<Tile>>, t: Tetrad)
    requires
        fits_in(taken(rows), t),
    ensures
        holds_in(rows, t),
{
    assert forall|i: int| 0 <= i < 4 implies 0 <= (#[trigger] t.cell(i)).0 < rows.len() && 0
        <= t.cell(i).1 < rows[t.cell(i).0].len() by {
        assert(free_in(taken(rows), t.cell(i).0, t.cell(i).1));
    }
}

/// A piece that fits comes to rest where it still fits and can go no
/// further down; its rest is the piece itself moved straight down.
pub proof fn lemma_rest(occupied: Seq<Seq<bool>>, t: Tetrad)
    requires
        fits_in(occupied, t),
    ensures
        fits_in(occupied, rest(occupied, t)),
        !(rest(occupied, t).translate_spec(1, 0) is Some && fits_in(
            occupied,
            rest(occupied, t).translate_spec(1, 0)->0,
        )),
        t.cell(0).0 <= rest(occupied, t).cell(0).0,
        t.translate_spec(rest(occupied, t).cell(0).0 - t.cell(0).0, 0) == Some(rest(occupied, t)),
    decreases occupied.len() - t.cell(0).0,
{
    let below = t.translate_spec(1, 0);
    if below is Some && fits_in(occupied, below->0) {
        let u = below->0;
        lemma_rest(occupied, u);
        let v = rest(occupied, u);
        let d = v.cell(0).0 - u.cell(0).0;
        assert(u.translate_spec(d, 0) == Some(v));
        assert(t.translate_spec(d + 1, 0)->0.tiles =~= v.tiles);
    } else {
        assert(t.translate_spec(0, 0)->0.tiles =~= t.tiles);
    }
}

/// Moving a piece down or sideways changes neither its color nor whether
/// its tiles are marked as occupying their cells.
pub proof fn lemma_rest_free(occupied: Seq<Seq<bool>>, t: Tetrad)
    requires
        fits_in(occupied, t),
        free_tiles(t),
        t.wf(),
    ensures
        free_tiles(rest(occupied, t)),
        rest(occupied, t).wf(),
        free_tiles(ghost_of(occupied, t)),
        fits_in(occupied, ghost_of(occupied, t)),
{
    lemma_rest(occupied, t);
    let v = rest(occupied, t);
    let d = v.cell(0).0 - t.cell(0).0;
    super::tetrad::lemma_translate_wf(t, d, 0);
}

impl Grid {
    /// Whether `(row, column)` is a cell of the board that nothing occupies.
    pub open spec fn free_at(&self, row: int, column: int) -> bool {
        free_in(taken(self@), row, column)
    }

    /// Whether each of the four tiles of `t` lies on the board, on a cell
    /// that nothing occupies.
    pub open spec fn fits(&self, t: Tetrad) -> bool {
        fits_in(taken(self@), t)
    }

    /// Whether each of the four tiles of `t` lies on the board.
    pub open spec fn holds(&self, t: Tetrad) -> bool {
        holds_in(self@, t)
    }

    /// Whether `tile` could be placed: its position is a cell of the board
    /// and nothing occupies that cell.
    pub fn valid_tile(&self, tile: Tile) -> (ok: bool)
        requires
            self.wf(),
        ensures
            ok == self.free_at(tile.row as int, tile.column as int),
    {
        if tile.row < self.height && tile.column < self.width {
            tile_at(&self.grid, tile.row, tile.column).empty
        } else {
            false
        }
    }

    /// Whether `t` could be placed: true exactly when all four of its tiles
    /// lie on the board on cells that nothing occupies. A piece that is
    /// merely shown on the board occupies nothing, so it never blocks itself.
    pub fn valid_tetrad(&self, t: &Tetrad) -> (ok: bool)
        requires
            self.wf(),
        ensures
            ok == self.fits(*t),
    {
        self.valid_tile(t.tiles[0]) && self.valid_tile(t.tiles[1]) && self.valid_tile(t.tiles[2])
            && self.valid_tile(t.tiles[3])
    }

    /// Writes `tile` at the position that it records.
    pub fn add_tile(&mut self, tile: Tile)
        requires
            old(self).wf(),
            old(self).in_bounds(tile.row as int, tile.column as int),
        ensures
            final(self).wf(),
            final(self).width == old(self).width,
            final(self).height == old(self).height,
            final(self)@ == with_tile(old(self)@, tile),
    {
        put_tile(&mut self.grid, tile.row, tile.column, tile);
    }

    /// Writes a blank tile at the position that `tile` records.
    pub fn remove_tile(&mut self, tile: Tile)
        requires
            old(self).wf(),
            old(self).in_bounds(tile.row as int, tile.column as int),
        ensures
            final(self).wf(),
            final(self).width == old(self).width,
            final(self).height == old(self).height,
            final(self)@ == with_tile(old(self)@, Tile::blank(tile.row, tile.column)),
    {
        let blank = Tile::new(tile.row, tile.column);
        put_tile(&mut self.grid, tile.row, tile.column, blank);
    }

    /// Writes the four tiles of `t`, in turn, at the positions they record.
    pub fn add_tetrad(&mut self, t: &Tetrad)
        requires
            old(self).wf(),
            old(self).holds(*t),
        ensures
            final(self).wf(),
            final(self).width == old(self).width,
            final(self).height == old(self).height,
            final(self)@ == stamped(old(self)@, *t),
    {
        assert(old(self).in_bounds(t.cell(0).0, t.cell(0).1));
        assert(old(self).in_bounds(t.cell(1).0, t.cell(1).1));
        assert(old(self).in_bounds(t.cell(2).0, t.cell(2).1));
        assert(old(self).in_bounds(t.cell(3).0, t.cell(3).1));
        self.add_tile(t.tiles[0]);
        self.add_tile(t.tiles[1]);
        self.add_tile(t.tiles[2]);
        self.add_tile(t.tiles[3]);
        proof {
            reveal(stamped);
        }
    }

    /// Writes a blank tile at each of the four positions of `t`.
    pub fn remove_tetrad(&mut self, t: &Tetrad)
        requires
            old(self).wf(),
            old(self).holds(*t),
        ensures
            final(self).wf(),
            final(self).width == old(self).width,
            final(self).height == old(self).height,
            final(self)@ == lifted(old(self)@, *t),
    {
        assert(old(self).in_bounds(t.cell(0).0, t.cell(0).1));
        assert(old(self).in_bounds(t.cell(1).0, t.cell(1).1));
        assert(old(self).in_bounds(t.cell(2).0, t.cell(2).1));
        assert(old(self).in_bounds(t.cell(3).0, t.cell(3).1));
        self.remove_tile(t.tiles[0]);
        self.remove_tile(t.tiles[1]);
        self.remove_tile(t.tiles[2]);
        self.remove_tile(t.tiles[3]);
        proof {
            reveal(lifted);
        }
    }

    /// Where `t` comes to rest on this board: `t` moved down one row at a
    /// time for as long as the moved piece fits.
    pub fn resting(&self, t: &Tetrad) -> (r: Tetrad)
        requires
            self.wf(),
            self.fits(*t),
        ensures
            r == rest(taken(self@), *t),
    {
        let mut low = *t;
        loop
            invariant
                self.wf(),
                self.fits(low),
                rest(taken(self@), low) == rest(taken(self@), *t),
            decreases self.height - low.tiles[0].row,
        {
            match low.translated(1, 0) {
                Some(below) => {
                    if self.valid_tetrad(&below) {
                        low = below;
                    } else {
                        return low;
                    }
                },
                None => {
                    return low;
                },
            }
        }
    }
}

impl Tetrad {
    /// The piece with every tile drawn as a hollow square.
    pub fn outline(&self) -> (t: Tetrad)
        ensures
            t == outlined(*self),
    {
        let a = self.tiles[0];
        let b = self.tiles[1];
        let c = self.tiles[2];
        let d = self.tiles[3];
        let t = Tetrad {
            tiles: [
                Tile { empty: a.empty, color: a.color, utf8: SQUARE_OUTLINE, row: a.row, column: a.column },
                Tile { empty: b.empty, color: b.color, utf8: SQUARE_OUTLINE, row: b.row, column: b.column },
                Tile { empty: c.empty, color: c.color, utf8: SQUARE_OUTLINE, row: c.row, column: c.column },
                Tile { empty: d.empty, color: d.color, utf8: SQUARE_OUTLINE, row: d.row, column: d.column },
            ],
            center: self.center,
            shape: self.shape,
            rotation: self.rotation,
        };
        assert(t.tiles =~= outlined(*self).tiles);
        t
    }

    /// Applies `motion` to the piece if the moved piece could be placed on
    /// `grid`, and says whether it did. A motion that is refused leaves the
    /// piece exactly as it was.
    pub fn move_tetrad(&mut self, grid: &Grid, motion: Motion) -> (applied: bool)
        requires
            grid.wf(),
        ensures
            applied == (old(self).move_spec(motion) is Some && grid.fits(
                old(self).move_spec(motion)->0,
            )),
            *final(self) == if applied {
                old(self).move_spec(motion)->0
            } else {
                *old(self)
            },
    {
        match self.moved(motion) {
            Some(candidate) => {
                if grid.valid_tetrad(&candidate) {
                    *self = candidate;
                    true
                } else {
                    false
                }
            },
            None => false,
        }
    }
}

} // verus!
