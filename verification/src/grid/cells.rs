//! The two-dimensional array that stores a board's tiles.

use crate::tetris::tile::Tile;
use vstd::prelude::*;

verus! {

/// `ndarray`'s error for a shape that does not fit the data; nothing is
/// claimed of what is inside.
#[verifier::external_type_specification]
#[verifier::external_body]
pub struct ExShapeError(ndarray::ShapeError);

/// A two-dimensional `ndarray` array of tiles, stored row by row. Its inside
/// is taken on trust: all that is known of it is what `rows_of` names and
/// what the three functions below say of their calls into `ndarray`.
#[verifier::external_body]
#[derive(Debug)]
pub struct Cells {
    inner: ndarray::Array2<Tile>,
}

/// The rows of the array, top row first, each row from its leftmost column.
pub uninterp spec fn rows_of(cells: Cells) -> Seq<Seq<Tile>>;

/// Whether an array of `height` rows and `width` columns can exist: the
/// product of its axis lengths, an axis of length zero left out, must not
/// exceed `isize::MAX`.
pub open spec fn shape_fits(height: usize, width: usize) -> bool {
    if height == 0 {
        width <= isize::MAX
    } else if width == 0 {
        height <= isize::MAX
    } else {
        height * width <= isize::MAX
    }
}

/// Whether `rows` is a rectangle of `height` rows and `width` columns.
pub open spec fn rectangular(rows: Seq<Seq<Tile>>, height: usize, width: usize) -> bool {
    &&& rows.len() == height
    &&& forall|r: int| 0 <= r < height ==> (#[trigger] rows[r]).len() == width
}

/// Whether `rows` is the `height` by `width` rectangle that holds `tiles`
/// row by row: element `(r, c)` is element `r * width + c` of `tiles`.
pub open spec fn laid_out(rows: Seq<Seq<Tile>>, height: usize, width: usize, tiles: Seq<Tile>) -> bool {
    &&& rectangular(rows, height, width)
    &&& forall|r: int, c: int|
        0 <= r < height && 0 <= c < width ==> #[trigger] rows[r][c] == tiles[r * width + c]
}

/// Builds the array with `ndarray`'s `Array::from_shape_vec` in its default
/// row-major layout. That call succeeds exactly when the shape is one that
/// can exist and has as many elements as the vector; element `(r, c)` of the
/// array is then element `r * width + c` of the vector.
#[verifier::external_body]
pub(crate) fn cells_from_vec(height: usize, width: usize, tiles: Vec<Tile>) -> (r: Result<Cells, ndarray::ShapeError>)
    ensures
        r.is_ok() == (shape_fits(height, width) && height * width == tiles.len()),
        r matches Ok(cells) ==> laid_out(rows_of(cells), height, width, tiles@),
{
    match ndarray::Array::from_shape_vec((height, width), tiles) {
        Ok(inner) => Ok(Cells { inner }),
        Err(e) => Err(e),
    }
}

/// Reads one element through `ndarray`'s `Index` for `[usize; 2]`, which
/// returns the element at that row and column and panics outside the array.
#[verifier::external_body]
pub(crate) fn tile_at(cells: &Cells, row: usize, column: usize) -> (t: Tile)
    requires
        row < rows_of(*cells).len(),
        column < rows_of(*cells)[row as int].len(),
    ensures
        t == rows_of(*cells)[row as int][column as int],
{
    cells.inner[[row, column]]
}

/// Writes one element through `ndarray`'s `IndexMut` for `[usize; 2]`, which
/// replaces the element at that row and column, leaves every other element
/// alone, and panics outside the array.
#[verifier::external_body]
pub(crate) fn put_tile(cells: &mut Cells, row: usize, column: usize, tile: Tile)
    requires
        row < rows_of(*old(cells)).len(),
        column < rows_of(*old(cells))[row as int].len(),
    ensures
        rows_of(*final(cells)) == rows_of(*old(cells)).update(
            row as int,
            rows_of(*old(cells))[row as int].update(column as int, tile),
        ),
{
    cells.inner[[row, column]] = tile;
}

} // verus!
