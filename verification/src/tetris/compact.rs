//! Clearing every full row compacts the board.

use super::board::{all_positioned, full_in, taken};
use super::lines::{
    blank_row, cleared, cleared_all, full_below, full_rows_of, lemma_cleared_positioned,
    lemma_full_below, lowered_row,
};
use super::tile::Tile;
use crate::grid::cells::rectangular;
use vstd::prelude::*;

verus! {

/// The row with every tile recording a row `k` further down.
pub open spec fn sunk_row(tiles: Seq<Tile>, k: int) -> Seq<Tile> {
    Seq::new(tiles.len(), |c: int| Tile { row: (tiles[c].row + k) as usize, ..tiles[c] })
}

/// How many full rows lie below row `r`.
pub open spec fn full_under(occupied: Seq<Seq<bool>>, r: int) -> int {
    full_rows_of(occupied).len() - full_below(occupied, (r + 1) as nat).len()
}

/// The full rows below `n` are the first of the full rows below `m`, and
/// the others of those are not below `n`.
proof fn lemma_full_prefix(occupied: Seq<Seq<bool>>, n: nat, m: nat)
    requires
        n <= m <= usize::MAX,
    ensures
        full_below(occupied, n).len() <= full_below(occupied, m).len(),
        full_below(occupied, m).take(full_below(occupied, n).len() as int) == full_below(
            occupied,
            n,
        ),
        forall|j: int|
            full_below(occupied, n).len() <= j < full_below(occupied, m).len() ==> n
                <= #[trigger] full_below(occupied, m)[j],
    decreases m,
{
    let small = full_below(occupied, n);
    let big = full_below(occupied, m);
    if n == m {
        assert(big.take(small.len() as int) =~= small);
    } else {
        let rest = full_below(occupied, (m - 1) as nat);
        lemma_full_prefix(occupied, n, (m - 1) as nat);
        assert(rest.take(small.len() as int) == small);
        assert(big.take(small.len() as int) =~= rest.take(small.len() as int));
    }
}

/// In a strictly ascending list, an entry is as far above an earlier one as
/// it stands behind it, at the least.
proof fn lemma_ascending_gap(s: Seq<usize>, i: int, j: int)
    requires
        forall|a: int, b: int| 0 <= a < b < s.len() ==> s[a] < s[b],
        0 <= i <= j < s.len(),
    ensures
        s[j] >= s[i] + (j - i),
    decreases j - i,
{
    if i < j {
        lemma_ascending_gap(s, i, j - 1);
    }
}

/// What holds of the board once the first `k` of its full rows are
/// cleared: `k` blank rows are on top; the rows below the last cleared row
/// are as they were; and every row above it that was not full has sunk by
/// the number of cleared rows that were below it.
pub open spec fn settled(rows: Seq<Seq<Tile>>, after: Seq<Seq<Tile>>, k: int) -> bool {
    let occupied = taken(rows);
    let full = full_rows_of(occupied);
    &&& forall|i: int| 0 <= i < k ==> #[trigger] after[i] == blank_row(i as usize, rows[i].len())
    &&& forall|r: int|
        0 <= r < rows.len() && (k == 0 || r > full[k - 1]) ==> #[trigger] after[r] == rows[r]
    &&& forall|r: int|
        0 <= r < rows.len() && !full_in(occupied, r) && k > 0 && r < full[k - 1] ==> after[r + k
            - full_below(occupied, (r + 1) as nat).len()] == sunk_row(
            #[trigger] rows[r],
            k - full_below(occupied, (r + 1) as nat).len(),
        )
}

/// Clearing the first `k` full rows of a board, top to bottom, leaves the
/// board settled so far.
proof fn lemma_settled(rows: Seq<Seq<Tile>>, height: usize, width: usize, k: nat)
    requires
        rectangular(rows, height, width),
        all_positioned(rows),
        k <= full_rows_of(taken(rows)).len(),
    ensures
        rectangular(cleared_all(rows, full_rows_of(taken(rows)).take(k as int)), height, width),
        all_positioned(cleared_all(rows, full_rows_of(taken(rows)).take(k as int))),
        settled(rows, cleared_all(rows, full_rows_of(taken(rows)).take(k as int)), k as int),
    decreases k,
{
    let occupied = taken(rows);
    let full = full_rows_of(occupied);
    lemma_full_below(occupied, height as nat);
    if k == 0 {
        assert(full.take(0) =~= Seq::<usize>::empty());
    } else {
        let j = (k - 1) as int;
        let before = cleared_all(rows, full.take(j));
        let row = full[j] as int;
        let after = cleared_all(rows, full.take(k as int));
        lemma_settled(rows, height, width, j as nat);
        assert(full.take(k as int).drop_last() =~= full.take(j));
        assert(full.take(k as int).last() == full[j]);
        assert(after == cleared(before, row));
        lemma_cleared_positioned(before, height, width, row);
        lemma_ascending_gap(full, 0, j);
        assert forall|i: int| 0 <= i < k implies #[trigger] after[i] == blank_row(
            i as usize,
            rows[i].len(),
        ) by {
            assert(rows[i].len() == width);
            assert(before[0].len() == width);
            if i > 0 {
                assert(before[i - 1] == blank_row((i - 1) as usize, rows[i - 1].len()));
                assert(rows[i - 1].len() == width);
                assert(after[i] =~= blank_row(i as usize, width as nat));
            }
        }
        assert forall|r: int| 0 <= r < rows.len() && r > full[k - 1] implies #[trigger] after[r]
            == rows[r] by {
            if j > 0 {
                assert(full[j - 1] < full[j]);
            }
            assert(before[r] == rows[r]);
        }
        assert forall|r: int|
            0 <= r < rows.len() && !full_in(occupied, r) && r < full[k - 1] implies after[r + k
            - full_below(occupied, (r + 1) as nat).len()] == sunk_row(
            #[trigger] rows[r],
            k - full_below(occupied, (r + 1) as nat).len(),
        ) by {
            let under = full_below(occupied, (r + 1) as nat);
            let m = under.len() as int;
            lemma_full_prefix(occupied, (r + 1) as nat, height as nat);
            lemma_full_below(occupied, (r + 1) as nat);
            assert(full.take(m) == under);
            // the full rows up to r are the first m; row j is not among them
            assert(m <= j) by {
                if m > j {
                    assert(under[j] == full.take(m)[j]);
                    assert(under[j] < r + 1);
                }
            }
            let sunk = j - m;
            let at = r + sunk;
            assert(rows[r].len() == width);
            if j == 0 || r > full[j - 1] {
                // untouched so far
                assert(m == j) by {
                    if m < j {
                        assert(full[j - 1] >= r + 1);
                    }
                }
                assert(before[r] == rows[r]);
            } else {
                assert(r != full[j - 1]) by {
                    if r == full[j - 1] {
                        assert(full_in(occupied, full[j - 1] as int));
                    }
                }
                assert(before[at] == sunk_row(rows[r], sunk));
            }
            let here = before[at];
            let want = sunk_row(rows[r], sunk);
            assert(here =~= want) by {
                if j == 0 || r > full[j - 1] {
                    assert forall|c: int| 0 <= c < width implies #[trigger] here[c] == want[c] by {
                        assert(rows[r][c].row == r);
                    }
                }
            }
            // the sunk row still lies above the row that is cleared now
            assert(at + 1 <= row) by {
                if m < j {
                    lemma_ascending_gap(full, m, j);
                    assert(full[m] >= r + 1);
                } else {
                    assert(row > r);
                }
            }
            let there = after[at + 1];
            let more = sunk_row(rows[r], sunk + 1);
            assert(there == lowered_row(here));
            assert(there =~= more) by {
                assert forall|c: int| 0 <= c < width implies #[trigger] there[c] == more[c] by {
                    assert(rows[r][c].row == r);
                    assert(here[c] == want[c]);
                }
            }
        }
    }
}

/// Clearing the full rows of a board, top to bottom, compacts it: as many
/// blank rows as there were full rows are on top, and every row that was
/// not full has sunk by the number of full rows that were below it, its
/// tiles in their order and recording their new row.
pub proof fn lemma_clearing_compacts(rows: Seq<Seq<Tile>>, height: usize, width: usize)
    requires
        rectangular(rows, height, width),
        all_positioned(rows),
    ensures
        rectangular(cleared_all(rows, full_rows_of(taken(rows))), height, width),
        all_positioned(cleared_all(rows, full_rows_of(taken(rows)))),
        forall|i: int|
            0 <= i < full_rows_of(taken(rows)).len() ==> #[trigger] cleared_all(
                rows,
                full_rows_of(taken(rows)),
            )[i] == blank_row(i as usize, width as nat),
        forall|r: int|
            0 <= r < height && !full_in(taken(rows), r) ==> cleared_all(
                rows,
                full_rows_of(taken(rows)),
            )[r + full_under(taken(rows), r)] == sunk_row(
                #[trigger] rows[r],
                full_under(taken(rows), r),
            ),
{
    let occupied = taken(rows);
    let full = full_rows_of(occupied);
    let k = full.len();
    let after = cleared_all(rows, full);
    lemma_settled(rows, height, width, k);
    assert(full.take(k as int) =~= full);
    lemma_full_below(occupied, height as nat);
    assert forall|i: int| 0 <= i < k implies #[trigger] after[i] == blank_row(
        i as usize,
        width as nat,
    ) by {
        assert(rows[i].len() == width);
    }
    assert forall|r: int| 0 <= r < height && !full_in(occupied, r) implies after[r + full_under(
        occupied,
        r,
    )] == sunk_row(#[trigger] rows[r], full_under(occupied, r)) by {
        let under = full_below(occupied, (r + 1) as nat);
        let m = under.len() as int;
        lemma_full_prefix(occupied, (r + 1) as nat, height as nat);
        lemma_full_below(occupied, (r + 1) as nat);
        assert(full.take(m) == under);
        if k == 0 || r > full[k - 1] {
            assert(m == k) by {
                if m < k {
                    assert(full[k - 1] >= r + 1);
                }
            }
            assert(after[r] == rows[r]);
            let same = sunk_row(rows[r], 0);
            assert(rows[r] =~= same) by {
                assert forall|c: int| 0 <= c < rows[r].len() implies #[trigger] same[c]
                    == rows[r][c] by {}
            }
        } else {
            assert(r != full[k - 1]) by {
                if r == full[k - 1] {
                    assert(full_in(occupied, full[k - 1] as int));
                }
            }
        }
    }
}

/// Once the first `k` full rows of a board with columns are cleared, no row
/// down to the last one cleared is full.
proof fn lemma_cleared_part(rows: Seq<Seq<Tile>>, height: usize, width: usize, k: nat)
    requires
        rectangular(rows, height, width),
        all_positioned(rows),
        width > 0,
        0 < k <= full_rows_of(taken(rows)).len(),
    ensures
        forall|i: int|
            0 <= i <= full_rows_of(taken(rows))[k - 1] ==> !full_in(
                taken(cleared_all(rows, full_rows_of(taken(rows)).take(k as int))),
                i,
            ),
    decreases k,
{
    let occupied = taken(rows);
    let full = full_rows_of(occupied);
    let j = (k - 1) as int;
    let row = full[j] as int;
    let before = cleared_all(rows, full.take(j));
    let after = cleared_all(rows, full.take(k as int));
    lemma_full_below(occupied, height as nat);
    lemma_settled(rows, height, width, j as nat);
    lemma_settled(rows, height, width, k);
    assert(full.take(k as int).drop_last() =~= full.take(j));
    assert(full.take(k as int).last() == full[j]);
    assert(after == cleared(before, row));
    if j > 0 {
        lemma_cleared_part(rows, height, width, j as nat);
    }
    assert forall|i: int| 0 <= i <= row implies !full_in(taken(after), i) by {
        assert(after[i].len() == width);
        if i == 0 {
            assert(before[0].len() == width);
            assert(!taken(after)[0][0]);
        } else {
            let above = i - 1;
            assert(before[above].len() == width);
            if j > 0 && above <= full[j - 1] {
                assert(!full_in(taken(before), above));
            } else {
                assert(before[above] == rows[above]);
                assert(!full_in(occupied, above)) by {
                    if full_in(occupied, above) {
                        assert(full.contains(above as usize));
                        let q = choose|q: int| 0 <= q < full.len() && full[q] == above as usize;
                        if q < j {
                            assert(full[q] <= full[j - 1]);
                        } else if q > j {
                            assert(full[j] < full[q]);
                        }
                    }
                }
                assert forall|c: int| 0 <= c < width implies #[trigger] taken(before)[above][c]
                    == occupied[above][c] by {}
            }
            let c = choose|c: int|
                0 <= c < taken(before)[above].len() && !#[trigger] taken(before)[above][c];
            assert(after[i][c] == super::lines::lowered(before[above][c]));
            assert(!taken(after)[i][c]);
        }
    }
}

/// Clearing the full rows of a board with columns, top to bottom, leaves
/// no full row.
pub proof fn lemma_no_full_row_left(rows: Seq<Seq<Tile>>, height: usize, width: usize)
    requires
        rectangular(rows, height, width),
        all_positioned(rows),
        width > 0,
    ensures
        forall|i: int|
            0 <= i < height ==> !full_in(
                taken(cleared_all(rows, full_rows_of(taken(rows)))),
                i,
            ),
{
    let occupied = taken(rows);
    let full = full_rows_of(occupied);
    let k = full.len();
    let after = cleared_all(rows, full);
    assert(full.take(k as int) =~= full);
    lemma_full_below(occupied, height as nat);
    lemma_settled(rows, height, width, k);
    if k > 0 {
        lemma_cleared_part(rows, height, width, k);
    }
    assert forall|i: int| 0 <= i < height implies !full_in(taken(after), i) by {
        if k > 0 && i <= full[k - 1] {
            assert(!full_in(taken(cleared_all(rows, full.take(k as int))), i));
        } else {
            assert(after[i] == rows[i]);
            assert(!full_in(occupied, i)) by {
                if full_in(occupied, i) {
                    assert(full.contains(i as usize));
                    let q = choose|q: int| 0 <= q < full.len() && full[q] == i as usize;
                    if q < k - 1 {
                        assert(full[q] < full[k - 1]);
                    }
                }
            }
            assert(after[i].len() == width);
            let c = choose|c: int| 0 <= c < occupied[i].len() && !#[trigger] occupied[i][c];
            assert(!taken(after)[i][c]);
        }
    }
}

} // verus!
