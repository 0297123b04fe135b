//! A rectangular board of tiles.

use super::cells::{cells_from_vec, laid_out, rectangular, rows_of, shape_fits, tile_at, Cells};
use super::paint::{ansi_paint, painted, text_of};
use super::rgb::RGB;
use crate::tetris::tile::Tile;
use vstd::arithmetic::div_mod::lemma_fundamental_div_mod_converse;
use vstd::prelude::*;
use vstd::string::*;
use vstd::utf8::{decode_utf8, valid_utf8};

verus! {

/// What a renderer needs to know of a cell.
pub trait Depict {
    /// The color the cell is drawn in.
    fn color(&self) -> RGB;

    /// The UTF-8 bytes of the glyph the cell is drawn as.
    fn utf8(&self) -> [u8; 4];
}

/// The glyph in `utf8`, painted in the color `rgb`.
pub fn colored_char(utf8: &[u8; 4], rgb: RGB) -> (s: String)
    requires
        valid_utf8(utf8@),
    ensures
        s@ == painted(decode_utf8(utf8@), rgb),
{
    match text_of(utf8) {
        Some(character) => ansi_paint(character, rgb),
        None => vstd::pervasive::unreached(),
    }
}

/// How a tile is drawn: its glyph in its color.
pub open spec fn tile_text(tile: Tile) -> Seq<char> {
    painted(decode_utf8(tile.utf8@), tile.color)
}

/// How a row of tiles is drawn: one tile after the other.
pub open spec fn row_text(tiles: Seq<Tile>) -> Seq<char>
    decreases tiles.len(),
{
    if tiles.len() == 0 {
        Seq::empty()
    } else {
        row_text(tiles.drop_last()) + tile_text(tiles.last())
    }
}

/// How rows of tiles are drawn: one row after the other, `line_end` after
/// each.
pub open spec fn rows_text(rows: Seq<Seq<Tile>>, line_end: Seq<char>) -> Seq<char>
    decreases rows.len(),
{
    if rows.len() == 0 {
        Seq::empty()
    } else {
        rows_text(rows.drop_last(), line_end) + row_text(rows.last()) + line_end
    }
}

/// A board of `height` rows and `width` columns.
#[derive(Debug)]
pub struct Grid {
    pub width: usize,
    pub height: usize,
    pub grid: Cells,
}

impl View for Grid {
    type V = Seq<Seq<Tile>>;

    /// The rows of the board, top row first.
    open spec fn view(&self) -> Seq<Seq<Tile>> {
        rows_of(self.grid)
    }
}

impl Grid {
    /// The stored tiles form a `height` by `width` rectangle.
    pub open spec fn wf(&self) -> bool {
        rectangular(self@, self.height, self.width)
    }

    /// Whether `(row, column)` names a cell of the board.
    pub open spec fn in_bounds(&self, row: int, column: int) -> bool {
        0 <= row < self.height && 0 <= column < self.width
    }

    /// Every tile records the position at which it is stored.
    pub open spec fn positioned(&self) -> bool {
        crate::tetris::board::all_positioned(self@)
    }

    /// Every glyph on the board is well-formed UTF-8.
    pub open spec fn printable_spec(&self) -> bool {
        forall|r: int, c: int|
            0 <= r < self.height && 0 <= c < self.width ==> valid_utf8(
                (#[trigger] self@[r][c]).utf8@,
            )
    }

    /// The tile at `(row, column)`, if that is a cell of the board.
    pub fn tile(&self, row: usize, column: usize) -> (t: Option<Tile>)
        requires
            self.wf(),
        ensures
            t == if self.in_bounds(row as int, column as int) {
                Some(self@[row as int][column as int])
            } else {
                None::<Tile>
            },
    {
        if row < self.height && column < self.width {
            Some(tile_at(&self.grid, row, column))
        } else {
            None
        }
    }

    /// Whether every glyph on the board is well-formed UTF-8, so that the
    /// board can be drawn.
    pub fn printable(&self) -> (ok: bool)
        requires
            self.wf(),
        ensures
            ok == self.printable_spec(),
    {
        let mut r: usize = 0;
        while r < self.height
            invariant
                self.wf(),
                r <= self.height,
                forall|i: int, j: int|
                    0 <= i < r && 0 <= j < self.width ==> valid_utf8((#[trigger] self@[i][j]).utf8@),
            decreases self.height - r,
        {
            let mut c: usize = 0;
            while c < self.width
                invariant
                    self.wf(),
                    r < self.height,
                    c <= self.width,
                    forall|i: int, j: int|
                        0 <= i < r && 0 <= j < self.width ==> valid_utf8(
                            (#[trigger] self@[i][j]).utf8@,
                        ),
                    forall|j: int|
                        0 <= j < c ==> valid_utf8((#[trigger] self@[r as int][j]).utf8@),
                decreases self.width - c,
            {
                let tile = tile_at(&self.grid, r, c);
                if text_of(&tile.utf8).is_none() {
                    return false;
                }
                c += 1;
            }
            r += 1;
        }
        true
    }

    /// The board as text: `head`, then row after row, each tile painted in
    /// its color, `line_end` after each row.
    fn render(&self, head: &str, line_end: &str) -> (s: String)
        requires
            self.wf(),
            self.printable_spec(),
        ensures
            s@ == head@ + rows_text(self@, line_end@),
    {
        let mut out = String::from_str(head);
        let mut r: usize = 0;
        assert(self@.take(0) =~= Seq::<Seq<Tile>>::empty());
        while r < self.height
            invariant
                self.wf(),
                self.printable_spec(),
                r <= self.height,
                out@ == head@ + rows_text(self@.take(r as int), line_end@),
            decreases self.height - r,
        {
            let ghost before = out@;
            let mut c: usize = 0;
            assert(self@[r as int].take(0) =~= Seq::<Tile>::empty());
            while c < self.width
                invariant
                    self.wf(),
                    self.printable_spec(),
                    r < self.height,
                    c <= self.width,
                    out@ == before + row_text(self@[r as int].take(c as int)),
                decreases self.width - c,
            {
                let tile = tile_at(&self.grid, r, c);
                let character = colored_char(&tile.utf8(), tile.color());
                out.append(character.as_str());
                proof {
                    let row = self@[r as int];
                    assert(row.take(c + 1).drop_last() =~= row.take(c as int));
                    assert(row.take(c + 1).last() == tile);
                }
                c += 1;
            }
            out.append(line_end);
            proof {
                assert(self@[r as int].take(self.width as int) =~= self@[r as int]);
                assert(self@.take(r + 1).drop_last() =~= self@.take(r as int));
                assert(self@.take(r + 1).last() == self@[r as int]);
                assert(out@ =~= head@ + rows_text(self@.take(r + 1), line_end@));
            }
            r += 1;
        }
        assert(self@.take(self.height as int) =~= self@);
        out
    }

    /// The board as text, a line feed after each row.
    pub fn display_string(&self) -> (s: String)
        requires
            self.wf(),
            self.printable_spec(),
        ensures
            s@ == rows_text(self@, seq!['\n']),
    {
        proof {
            reveal_strlit("");
            reveal_strlit("\n");
            assert(""@ =~= Seq::<char>::empty());
            assert("\n"@ =~= seq!['\n']);
        }
        let s = self.render("", "\n");
        assert(s@ =~= rows_text(self@, seq!['\n']));
        s
    }

    /// The board as a full screen of text: the escape sequence that clears
    /// the screen, then the rows, a carriage return and a line feed after
    /// each.
    pub fn screen_string(&self) -> (s: String)
        requires
            self.wf(),
            self.printable_spec(),
        ensures
            s@ == seq!['\x1B', '[', '2', 'J'] + rows_text(self@, seq!['\r', '\n']),
    {
        proof {
            reveal_strlit("\x1B[2J");
            reveal_strlit("\r\n");
            assert("\x1B[2J"@ =~= seq!['\x1B', '[', '2', 'J']);
            assert("\r\n"@ =~= seq!['\r', '\n']);
        }
        self.render("\x1B[2J", "\r\n")
    }

    /// The rows of a board of blank tiles, each recording its own position.
    pub open spec fn blank_rows(height: usize, width: usize) -> Seq<Seq<Tile>> {
        Seq::new(
            height as nat,
            |r: int| Seq::new(width as nat, |c: int| Tile::blank(r as usize, c as usize)),
        )
    }

    /// A board of blank tiles, each recording its own position.
    pub fn blank(width: usize, height: usize) -> (g: Grid)
        requires
            shape_fits(height, width),
        ensures
            g.wf(),
            g.width == width,
            g.height == height,
            forall|r: int, c: int|
                0 <= r < height && 0 <= c < width ==> #[trigger] g@[r][c] == Tile::blank(
                    r as usize,
                    c as usize,
                ),
    {
        let mut tiles: Vec<Tile> = Vec::new();
        let mut r: usize = 0;
        while r < height
            invariant
                r <= height,
                tiles.len() == r * width,
                forall|k: int|
                    0 <= k < tiles.len() ==> #[trigger] tiles[k] == Tile::blank(
                        (k / width as int) as usize,
                        (k % width as int) as usize,
                    ),
            decreases height - r,
        {
            let mut c: usize = 0;
            while c < width
                invariant
                    r < height,
                    c <= width,
                    tiles.len() == r * width + c,
                    forall|k: int|
                        0 <= k < tiles.len() ==> #[trigger] tiles[k] == Tile::blank(
                            (k / width as int) as usize,
                            (k % width as int) as usize,
                        ),
                decreases width - c,
            {
                proof {
                    lemma_fundamental_div_mod_converse(r * width + c, width as int, r as int, c as int);
                }
                tiles.push(Tile::new(r, c));
                c += 1;
            }
            assert((r + 1) * width == r * width + width) by (nonlinear_arith);
            r += 1;
        }
        let g = Grid::new(width, height, tiles);
        assert forall|i: int, j: int| 0 <= i < height && 0 <= j < width implies #[trigger] g@[i][j]
            == Tile::blank(i as usize, j as usize) by {
            lemma_fundamental_div_mod_converse(i * width + j, width as int, i, j);
            assert(0 <= i * width + j < height * width) by (nonlinear_arith)
                requires
                    0 <= i < height,
                    0 <= j < width,
            ;
        }
        g
    }

    /// Lays `tiles` out row by row, `width` to a row.
    pub fn new(width: usize, height: usize, tiles: Vec<Tile>) -> (g: Grid)
        requires
            shape_fits(height, width),
            height * width == tiles.len(),
        ensures
            g.wf(),
            g.width == width,
            g.height == height,
            laid_out(g@, height, width, tiles@),
    {
        match cells_from_vec(height, width, tiles) {
            Ok(grid) => Grid { width, height, grid },
            Err(_) => vstd::pervasive::unreached(),
        }
    }
}

} // verus!
