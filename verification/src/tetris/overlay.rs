//! Showing the falling piece and its shadow on the board without letting
//! them occupy anything, and taking them off again.

use super::board::{
    all_positioned, base, fits_in, free_tiles, ghost_of, holds_in, lemma_fits_holds, lemma_lifted,
    lemma_rest_free, lemma_stamped, lifted, overlay, same_shape, stamped, taken,
};
use super::tetrad::Tetrad;
use super::tile::Tile;
use crate::grid::grid::Grid;
use vstd::prelude::*;

verus! {

/// The piece with every tile marked as occupying its cell.
pub open spec fn filled(t: Tetrad) -> Tetrad {
    Tetrad {
        tiles: [
            Tile { empty: false, ..t.tiles[0] },
            Tile { empty: false, ..t.tiles[1] },
            Tile { empty: false, ..t.tiles[2] },
            Tile { empty: false, ..t.tiles[3] },
        ],
        ..t
    }
}

/// Two boards of one shape are equal when they agree cell by cell.
pub proof fn lemma_boards_equal(a: Seq<Seq<Tile>>, b: Seq<Seq<Tile>>)
    requires
        same_shape(a, b),
        forall|r: int, c: int| 0 <= r < a.len() && 0 <= c < a[r].len() ==> a[r][c] == b[r][c],
    ensures
        a == b,
{
    assert forall|r: int| 0 <= r < a.len() implies #[trigger] a[r] =~= b[r] by {
        assert(a[r].len() == b[r].len());
    }
    assert(a =~= b);
}

/// The board under what is shown has the shape of the board, the same
/// cells occupied, and nothing merely shown on it.
pub proof fn lemma_base(rows: Seq<Seq<Tile>>)
    ensures
        same_shape(rows, base(rows)),
        taken(base(rows)) == taken(rows),
        base(base(rows)) == base(rows),
        all_positioned(rows) ==> all_positioned(base(rows)),
{
    let b = base(rows);
    assert forall|r: int| 0 <= r < rows.len() implies #[trigger] taken(b)[r] =~= taken(rows)[r] by {}
    assert(taken(b) =~= taken(rows));
    lemma_boards_equal(base(b), b);
}

/// Lifting the shadow and then the falling piece off a board that shows
/// them leaves the board that lies under them.
pub proof fn lemma_lift(rows: Seq<Seq<Tile>>, active: Tetrad, shadow: Tetrad)
    requires
        holds_in(rows, active),
        holds_in(rows, shadow),
        free_tiles(active),
        free_tiles(shadow),
        rows == overlay(base(rows), active, shadow),
    ensures
        lifted(lifted(rows, shadow), active) == base(rows),
{
    let under = base(rows);
    let mid = stamped(under, shadow);
    let once = lifted(rows, shadow);
    let twice = lifted(once, active);
    lemma_base(rows);
    assert(holds_in(under, shadow));
    lemma_stamped(under, shadow);
    assert(holds_in(mid, active));
    lemma_stamped(mid, active);
    lemma_lifted(rows, shadow);
    assert(holds_in(once, active));
    lemma_lifted(once, active);
    assert forall|r: int, c: int| 0 <= r < twice.len() && 0 <= c < twice[r].len() implies twice[r][c]
        == under[r][c] by {
        assert(rows[r][c] == stamped(mid, active)[r][c]);
        assert(mid[r][c] == stamped(under, shadow)[r][c]);
        assert(once[r][c] == lifted(rows, shadow)[r][c]);
        assert(twice[r][c] == lifted(once, active)[r][c]);
    }
    lemma_boards_equal(twice, under);
}

/// Showing a free piece and a free shadow where they fit changes neither
/// which cells are occupied nor the board that lies under them, and every
/// tile still records its position.
pub proof fn lemma_show(board: Seq<Seq<Tile>>, active: Tetrad, shadow: Tetrad)
    requires
        base(board) == board,
        fits_in(taken(board), active),
        fits_in(taken(board), shadow),
        free_tiles(active),
        free_tiles(shadow),
    ensures
        same_shape(board, overlay(board, active, shadow)),
        base(overlay(board, active, shadow)) == board,
        taken(overlay(board, active, shadow)) == taken(board),
        all_positioned(board) ==> all_positioned(overlay(board, active, shadow)),
{
    let mid = stamped(board, shadow);
    let shown = stamped(mid, active);
    lemma_fits_holds(board, active);
    lemma_fits_holds(board, shadow);
    lemma_stamped(board, shadow);
    assert(holds_in(mid, active));
    lemma_stamped(mid, active);
    assert forall|r: int, c: int| 0 <= r < shown.len() && 0 <= c < shown[r].len() implies (
    #[trigger] shown[r][c]).empty == board[r][c].empty && base(shown)[r][c] == board[r][c] && (
    all_positioned(board) ==> shown[r][c].row == r && shown[r][c].column == c) by {
        assert(shown[r][c] == stamped(mid, active)[r][c]);
        assert(mid[r][c] == stamped(board, shadow)[r][c]);
        assert(base(board)[r][c] == board[r][c]);
        assert(taken(board)[r][c] == !board[r][c].empty);
        if all_positioned(board) {
            assert(board[r][c].row == r);
        }
    }
    lemma_boards_equal(base(shown), board);
    assert forall|r: int| 0 <= r < shown.len() implies #[trigger] taken(shown)[r] =~= taken(
        board,
    )[r] by {
        assert forall|c: int| 0 <= c < shown[r].len() implies taken(shown)[r][c] == taken(
            board,
        )[r][c] by {
            assert(shown[r][c].empty == board[r][c].empty);
        }
    }
    assert(taken(shown) =~= taken(board));
}

/// Locking a piece into a board on which nothing is merely shown leaves
/// such a board: only the four cells of the piece change, and they become
/// occupied.
pub proof fn lemma_lock(board: Seq<Seq<Tile>>, t: Tetrad)
    requires
        base(board) == board,
        holds_in(board, t),
    ensures
        same_shape(board, stamped(board, filled(t))),
        base(stamped(board, filled(t))) == stamped(board, filled(t)),
        all_positioned(board) ==> all_positioned(stamped(board, filled(t))),
{
    let f = filled(t);
    let locked = stamped(board, f);
    assert(holds_in(board, f)) by {
        assert forall|i: int| 0 <= i < 4 implies 0 <= (#[trigger] f.cell(i)).0 < board.len() && 0
            <= f.cell(i).1 < board[f.cell(i).0].len() by {
            assert(f.cell(i) == t.cell(i));
        }
    }
    lemma_stamped(board, f);
    assert forall|r: int, c: int| 0 <= r < locked.len() && 0 <= c < locked[r].len() implies base(
        locked,
    )[r][c] == #[trigger] locked[r][c] && (all_positioned(board) ==> locked[r][c].row == r
        && locked[r][c].column == c) by {
        assert(locked[r][c] == stamped(board, f)[r][c]);
        assert(base(board)[r][c] == board[r][c]);
        if all_positioned(board) {
            assert(board[r][c].row == r);
        }
    }
    lemma_boards_equal(base(locked), locked);
}

impl Tetrad {
    /// The piece with every tile marked as occupying its cell.
    pub fn fill(&self) -> (t: Tetrad)
        ensures
            t == filled(*self),
    {
        let a = self.tiles[0];
        let b = self.tiles[1];
        let c = self.tiles[2];
        let d = self.tiles[3];
        let t = Tetrad {
            tiles: [
                Tile { empty: false, color: a.color, utf8: a.utf8, row: a.row, column: a.column },
                Tile { empty: false, color: b.color, utf8: b.utf8, row: b.row, column: b.column },
                Tile { empty: false, color: c.color, utf8: c.utf8, row: c.row, column: c.column },
                Tile { empty: false, color: d.color, utf8: d.utf8, row: d.row, column: d.column },
            ],
            center: self.center,
            shape: self.shape,
            rotation: self.rotation,
        };
        assert(t.tiles =~= filled(*self).tiles);
        t
    }
}

impl Grid {
    /// Takes the shadow and the falling piece off a board that shows them.
    pub(crate) fn lift(&mut self, active: &Tetrad, shadow: &Tetrad)
        requires
            old(self).wf(),
            old(self).holds(*active),
            old(self).holds(*shadow),
            free_tiles(*active),
            free_tiles(*shadow),
            old(self)@ == overlay(base(old(self)@), *active, *shadow),
        ensures
            final(self).wf(),
            final(self).width == old(self).width,
            final(self).height == old(self).height,
            final(self)@ == base(old(self)@),
    {
        self.remove_tetrad(shadow);
        proof {
            lemma_lifted(old(self)@, *shadow);
        }
        self.remove_tetrad(active);
        proof {
            lemma_lift(old(self)@, *active, *shadow);
        }
    }

    /// Shows a piece and, under it, its shadow on a board on which nothing
    /// is shown yet, and returns the shadow.
    pub(crate) fn show(&mut self, active: &Tetrad) -> (shadow: Tetrad)
        requires
            old(self).wf(),
            base(old(self)@) == old(self)@,
            old(self).fits(*active),
            free_tiles(*active),
            active.wf(),
        ensures
            final(self).wf(),
            final(self).width == old(self).width,
            final(self).height == old(self).height,
            shadow == ghost_of(taken(old(self)@), *active),
            final(self)@ == overlay(old(self)@, *active, shadow),
            base(final(self)@) == old(self)@,
            taken(final(self)@) == taken(old(self)@),
            old(self).positioned() ==> final(self).positioned(),
    {
        let shadow = self.resting(active).outline();
        proof {
            lemma_rest_free(taken(self@), *active);
            lemma_fits_holds(self@, shadow);
            lemma_fits_holds(self@, *active);
            lemma_stamped(self@, shadow);
            lemma_show(self@, *active, shadow);
        }
        self.add_tetrad(&shadow);
        self.add_tetrad(active);
        shadow
    }
}

} // verus!
