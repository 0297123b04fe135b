//! Full rows and how they clear.

use super::board::{all_positioned, base, full_in, taken};
use super::tile::Tile;
use crate::grid::cells::{put_tile, rectangular, tile_at};
use crate::grid::grid::Grid;
use vstd::prelude::*;

verus! {

/// The tile one row further down.
pub open spec fn lowered(tile: Tile) -> Tile {
    Tile { row: (tile.row + 1) as usize, ..tile }
}

/// A row of `width` blank tiles that record `row` as their row.
pub open spec fn blank_row(row: usize, width: nat) -> Seq<Tile> {
    Seq::new(width, |c: int| Tile::blank(row, c as usize))
}

/// The row with every tile lowered.
pub open spec fn lowered_row(tiles: Seq<Tile>) -> Seq<Tile> {
    Seq::new(tiles.len(), |c: int| lowered(tiles[c]))
}

/// The rows after row `row` is cleared: every row above it has moved down
/// by one, its tiles recording their new row; a blank row has entered at
/// the top; the rows below `row` are as they were.
pub open spec fn cleared(rows: Seq<Seq<Tile>>, row: int) -> Seq<Seq<Tile>> {
    Seq::new(
        rows.len(),
        |r: int|
            if r == 0 {
                blank_row(0, rows[0].len())
            } else if r <= row {
                lowered_row(rows[r - 1])
            } else {
                rows[r]
            },
    )
}

/// The rows after the rows listed in `which` are cleared one after the
/// other, first to last.
pub open spec fn cleared_all(rows: Seq<Seq<Tile>>, which: Seq<usize>) -> Seq<Seq<Tile>>
    decreases which.len(),
{
    if which.len() == 0 {
        rows
    } else {
        cleared(cleared_all(rows, which.drop_last()), which.last() as int)
    }
}

/// Clearing a row of a board whose tiles record their positions leaves a
/// board of the same shape whose tiles record their positions.
pub proof fn lemma_cleared_positioned(rows: Seq<Seq<Tile>>, height: usize, width: usize, row: int)
    requires
        rectangular(rows, height, width),
        all_positioned(rows),
        0 <= row < height,
    ensures
        rectangular(cleared(rows, row), height, width),
        all_positioned(cleared(rows, row)),
{
    let after = cleared(rows, row);
    assert forall|r: int| 0 <= r < height implies (#[trigger] after[r]).len() == width by {
        if 0 < r <= row {
            assert(rows[r - 1].len() == width);
        }
    }
    assert forall|r: int, c: int| 0 <= r < after.len() && 0 <= c < after[r].len() implies (
    #[trigger] after[r][c]).row == r && after[r][c].column == c by {
        if 0 < r <= row {
            assert(rows[r - 1].len() == width);
            assert(rows[r - 1][c].row == r - 1);
        }
    }
}

/// The indices below `n` of the full rows, in ascending order.
pub open spec fn full_below(occupied: Seq<Seq<bool>>, n: nat) -> Seq<usize>
    decreases n,
{
    if n == 0 {
        Seq::empty()
    } else if full_in(occupied, n - 1) {
        full_below(occupied, (n - 1) as nat).push((n - 1) as usize)
    } else {
        full_below(occupied, (n - 1) as nat)
    }
}

/// The indices of the full rows, top to bottom.
pub open spec fn full_rows_of(occupied: Seq<Seq<bool>>) -> Seq<usize> {
    full_below(occupied, occupied.len())
}

/// The list of full rows below `n` ascends, lists only full rows below `n`,
/// and lists every one of them.
pub proof fn lemma_full_below(occupied: Seq<Seq<bool>>, n: nat)
    requires
        n <= usize::MAX,
    ensures
        forall|k: int|
            0 <= k < full_below(occupied, n).len() ==> (#[trigger] full_below(occupied, n)[k]) < n
                && full_in(occupied, full_below(occupied, n)[k] as int),
        forall|j: int, k: int|
            0 <= j < k < full_below(occupied, n).len() ==> full_below(occupied, n)[j] < full_below(
                occupied,
                n,
            )[k],
        forall|r: int|
            0 <= r < n && full_in(occupied, r) ==> #[trigger] full_below(occupied, n).contains(
                r as usize,
            ),
        full_below(occupied, n).len() <= n,
    decreases n,
{
    if n > 0 {
        let rest = full_below(occupied, (n - 1) as nat);
        let all = full_below(occupied, n);
        lemma_full_below(occupied, (n - 1) as nat);
        assert forall|r: int| 0 <= r < n && full_in(occupied, r) implies #[trigger] all.contains(
            r as usize,
        ) by {
            if r < n - 1 {
                assert(rest.contains(r as usize));
                let i = choose|i: int| 0 <= i < rest.len() && rest[i] == r as usize;
                assert(all[i] == r as usize);
            } else {
                assert(all[all.len() - 1] == r as usize);
            }
        }
    }
}

/// Clearing rows leaves every row below the lowest cleared row as it was.
/// So when the rows to clear are listed in ascending order, each is still
/// where the list says it is when its turn comes.
pub proof fn lemma_lower_rows_kept(rows: Seq<Seq<Tile>>, which: Seq<usize>, r: int)
    requires
        forall|k: int| 0 <= k < which.len() ==> (#[trigger] which[k]) < r,
        0 <= r < rows.len(),
    ensures
        cleared_all(rows, which).len() == rows.len(),
        cleared_all(rows, which)[r] == rows[r],
    decreases which.len(),
{
    if which.len() > 0 {
        lemma_lower_rows_kept(rows, which.drop_last(), r);
        assert(which.last() == which[which.len() - 1]);
    }
}

/// Clearing a row of a board on which nothing is merely shown leaves such
/// a board: every cell that is not occupied is blank.
pub proof fn lemma_cleared_bare(rows: Seq<Seq<Tile>>, height: usize, width: usize, row: int)
    requires
        rectangular(rows, height, width),
        all_positioned(rows),
        base(rows) == rows,
        0 <= row < height,
    ensures
        base(cleared(rows, row)) == cleared(rows, row),
{
    let after = cleared(rows, row);
    lemma_cleared_positioned(rows, height, width, row);
    assert forall|r: int, c: int| 0 <= r < height && 0 <= c < width implies #[trigger] base(
        after,
    )[r][c] == after[r][c] by {
        assert(after[r].len() == width);
        if 0 < r <= row {
            assert(rows[r - 1].len() == width);
            assert(base(rows)[r - 1][c] == rows[r - 1][c]);
            assert(rows[r - 1][c].row == r - 1);
        } else if r > row {
            assert(base(rows)[r][c] == rows[r][c]);
        }
    }
    assert forall|r: int| 0 <= r < height implies #[trigger] base(after)[r] =~= after[r] by {
        assert(after[r].len() == width);
        assert forall|c: int| 0 <= c < width implies base(after)[r][c] == after[r][c] by {
            assert(base(after)[r][c] == after[r][c]);
        }
    }
    assert(base(after) =~= after);
}

/// Clearing any rows of a board whose tiles record their positions and on
/// which nothing is merely shown leaves such a board of the same shape.
pub proof fn lemma_cleared_all_bare(
    rows: Seq<Seq<Tile>>,
    height: usize,
    width: usize,
    which: Seq<usize>,
)
    requires
        rectangular(rows, height, width),
        all_positioned(rows),
        base(rows) == rows,
        forall|k: int| 0 <= k < which.len() ==> (#[trigger] which[k]) < height,
    ensures
        rectangular(cleared_all(rows, which), height, width),
        all_positioned(cleared_all(rows, which)),
        base(cleared_all(rows, which)) == cleared_all(rows, which),
    decreases which.len(),
{
    if which.len() > 0 {
        let front = which.drop_last();
        lemma_cleared_all_bare(rows, height, width, front);
        assert(which.last() == which[which.len() - 1]);
        lemma_cleared_positioned(cleared_all(rows, front), height, width, which.last() as int);
        lemma_cleared_bare(cleared_all(rows, front), height, width, which.last() as int);
    }
}

impl Grid {
    /// Whether every cell of the row is occupied.
    pub open spec fn row_full(&self, row: int) -> bool {
        full_in(taken(self@), row)
    }

    /// Whether every cell of row `row` is occupied.
    pub fn is_full_row(&self, row: usize) -> (full: bool)
        requires
            self.wf(),
            row < self.height,
        ensures
            full == self.row_full(row as int),
    {
        let mut c: usize = 0;
        while c < self.width
            invariant
                self.wf(),
                row < self.height,
                c <= self.width,
                forall|j: int| 0 <= j < c ==> !(#[trigger] self@[row as int][j]).empty,
            decreases self.width - c,
        {
            if tile_at(&self.grid, row, c).empty {
                assert(!taken(self@)[row as int][c as int]);
                return false;
            }
            c += 1;
        }
        assert forall|j: int| 0 <= j < taken(self@)[row as int].len() implies #[trigger] taken(
            self@,
        )[row as int][j] by {
            assert(!self@[row as int][j].empty);
        }
        true
    }

    /// The indices of the full rows, top to bottom: every listed row is
    /// full, every full row is listed, and the list ascends.
    pub fn full_rows(&self) -> (rows: Vec<usize>)
        requires
            self.wf(),
        ensures
            rows@ == full_rows_of(taken(self@)),
            forall|k: int|
                0 <= k < rows.len() ==> (#[trigger] rows[k]) < self.height && self.row_full(
                    rows[k] as int,
                ),
            forall|j: int, k: int| 0 <= j < k < rows.len() ==> rows[j] < rows[k],
            forall|r: int|
                0 <= r < self.height && self.row_full(r) ==> #[trigger] rows@.contains(r as usize),
    {
        let mut rows: Vec<usize> = Vec::new();
        let mut r: usize = 0;
        while r < self.height
            invariant
                self.wf(),
                r <= self.height,
                rows@ == full_below(taken(self@), r as nat),
                forall|k: int|
                    0 <= k < rows.len() ==> (#[trigger] rows[k]) < r && self.row_full(
                        rows[k] as int,
                    ),
                forall|j: int, k: int| 0 <= j < k < rows.len() ==> rows[j] < rows[k],
                forall|q: int|
                    0 <= q < r && self.row_full(q) ==> #[trigger] rows@.contains(q as usize),
            decreases self.height - r,
        {
            if self.is_full_row(r) {
                let ghost before = rows@;
                rows.push(r);
                proof {
                    assert(rows@[rows.len() - 1] == r);
                    assert forall|q: int| 0 <= q < r + 1 && self.row_full(q) implies #[trigger] rows@.contains(
                        q as usize,
                    ) by {
                        if q < r {
                            assert(before.contains(q as usize));
                            let i = choose|i: int| 0 <= i < before.len() && before[i] == q as usize;
                            assert(rows@[i] == q as usize);
                        }
                    }
                }
            }
            r += 1;
        }
        rows
    }

    /// Replaces row `row` by the row above it, each tile lowered.
    fn pull_down(&mut self, row: usize)
        requires
            old(self).wf(),
            0 < row < old(self).height,
            forall|c: int|
                0 <= c < old(self).width ==> (#[trigger] old(self)@[row - 1][c]).row < usize::MAX,
        ensures
            final(self).wf(),
            final(self).width == old(self).width,
            final(self).height == old(self).height,
            final(self)@ == old(self)@.update(row as int, lowered_row(old(self)@[row - 1])),
    {
        let ghost before = self@;
        let ghost width = self.width;
        let ghost height = self.height;
        let mut c: usize = 0;
        while c < self.width
            invariant
                self.wf(),
                self.width == width,
                self.height == height,
                rectangular(before, self.height, self.width),
                0 < row < self.height,
                c <= self.width,
                forall|j: int| 0 <= j < self.width ==> (#[trigger] before[row - 1][j]).row < usize::MAX,
                forall|r: int| 0 <= r < self.height && r != row ==> self@[r] == before[r],
                forall|j: int| 0 <= j < c ==> (#[trigger] self@[row as int][j]) == lowered(before[row - 1][j]),
            decreases self.width - c,
        {
            let mut tile = tile_at(&self.grid, row - 1, c);
            assert(tile == before[row - 1][c as int]);
            tile.advance();
            put_tile(&mut self.grid, row, c, tile);
            c += 1;
        }
        assert(self@[row as int] =~= lowered_row(before[row - 1]));
        assert(self@ =~= before.update(row as int, lowered_row(before[row - 1])));
    }

    /// Replaces row `row` by blank tiles.
    fn wipe(&mut self, row: usize)
        requires
            old(self).wf(),
            row < old(self).height,
        ensures
            final(self).wf(),
            final(self).width == old(self).width,
            final(self).height == old(self).height,
            final(self)@ == old(self)@.update(row as int, blank_row(row, old(self).width as nat)),
    {
        let ghost before = self@;
        let ghost width = self.width;
        let ghost height = self.height;
        let mut c: usize = 0;
        while c < self.width
            invariant
                self.wf(),
                self.width == width,
                self.height == height,
                rectangular(before, self.height, self.width),
                row < self.height,
                c <= self.width,
                forall|r: int| 0 <= r < self.height && r != row ==> self@[r] == before[r],
                forall|j: int| 0 <= j < c ==> (#[trigger] self@[row as int][j]) == Tile::blank(row, j as usize),
            decreases self.width - c,
        {
            let blank = Tile::new(row, c);
            put_tile(&mut self.grid, row, c, blank);
            c += 1;
        }
        assert(self@[row as int] =~= blank_row(row, self.width as nat));
        assert(self@ =~= before.update(row as int, blank_row(row, self.width as nat)));
    }

    /// Clears one row: the row goes; every row above it moves down by exactly
    /// one, top row last, its tiles recording their new row; a blank row
    /// enters at the top; the rows below stay as they are. Nothing above the
    /// top row is ever read.
    pub fn clear_row(&mut self, row: usize)
        requires
            old(self).wf(),
            row < old(self).height,
            forall|r: int, c: int|
                0 <= r < row && 0 <= c < old(self).width ==> (#[trigger] old(self)@[r][c]).row
                    < usize::MAX,
        ensures
            final(self).wf(),
            final(self).width == old(self).width,
            final(self).height == old(self).height,
            final(self)@ == cleared(old(self)@, row as int),
    {
        let ghost before = self@;
        let ghost width = self.width;
        let ghost height = self.height;
        let mut r: usize = row;
        while r > 0
            invariant
                self.wf(),
                self.width == width,
                self.height == height,
                rectangular(before, self.height, self.width),
                r <= row < self.height,
                forall|i: int, c: int|
                    0 <= i < row && 0 <= c < self.width ==> (#[trigger] before[i][c]).row
                        < usize::MAX,
                forall|i: int| 0 <= i <= r ==> self@[i] == before[i],
                forall|i: int| row < i < self.height ==> self@[i] == before[i],
                forall|i: int| r < i <= row ==> self@[i] == lowered_row(before[i - 1]),
            decreases r,
        {
            assert forall|c: int| 0 <= c < self.width implies (#[trigger] self@[r - 1][c]).row
                < usize::MAX by {
                assert(self@[r - 1] == before[r - 1]);
                assert(before[r - 1][c].row < usize::MAX);
            }
            self.pull_down(r);
            r -= 1;
        }
        self.wipe(0);
        assert(self@ =~= cleared(before, row as int));
    }

    /// Clears the listed rows one after the other, first to last. Listing
    /// the full rows in ascending order clears exactly them: clearing a row
    /// moves only the rows above it, so the rows still to be cleared stay
    /// where the list says they are.
    pub fn clear_rows(&mut self, full_rows: Vec<usize>)
        requires
            old(self).wf(),
            old(self).positioned(),
            forall|k: int| 0 <= k < full_rows.len() ==> (#[trigger] full_rows[k]) < old(self).height,
        ensures
            final(self).wf(),
            final(self).positioned(),
            final(self).width == old(self).width,
            final(self).height == old(self).height,
            final(self)@ == cleared_all(old(self)@, full_rows@),
    {
        let ghost before = self@;
        let ghost width = self.width;
        let ghost height = self.height;
        let mut k: usize = 0;
        assert(full_rows@.take(0) =~= Seq::<usize>::empty());
        while k < full_rows.len()
            invariant
                self.wf(),
                self.width == width,
                self.height == height,
                self.positioned(),
                k <= full_rows.len(),
                forall|i: int| 0 <= i < full_rows.len() ==> (#[trigger] full_rows[i]) < self.height,
                self@ == cleared_all(before, full_rows@.take(k as int)),
            decreases full_rows.len() - k,
        {
            let row = full_rows[k];
            proof {
                assert(all_positioned(self@));
                lemma_cleared_positioned(self@, self.height, self.width, row as int);
                assert(full_rows@.take(k + 1).drop_last() =~= full_rows@.take(k as int));
                assert(full_rows@.take(k + 1).last() == row);
                assert forall|r: int, c: int| 0 <= r < row && 0 <= c < self.width implies (
                #[trigger] self@[r][c]).row < usize::MAX by {
                    assert(self@[r][c].row == r);
                }
            }
            self.clear_row(row);
            k += 1;
        }
        assert(full_rows@.take(full_rows.len() as int) =~= full_rows@);
    }
}

} // verus!
