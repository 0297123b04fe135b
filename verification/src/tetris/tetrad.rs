//! The seven four-cell pieces and their rigid motions.

use super::tile::{Tile, OUTLINED_SQUARE};
use crate::grid::rgb::{random_in_range, RGB};
use vstd::prelude::*;
use vstd::string::*;

verus! {

/// The seven shapes a tetrad can have.
#[derive(Copy, Clone, Debug, PartialEq, Eq, Structural)]
pub enum Shape {
    I,
    O,
    T,
    S,
    Z,
    J,
    L,
}

/// The two directions a tetrad can turn in. With rows growing downward and
/// columns growing rightward, `Left` is counter-clockwise on screen.
#[derive(Copy, Clone, Debug, PartialEq, Eq, Structural)]
pub enum Turn {
    Left,
    Right,
}

/// The rigid motions a player or gravity can ask of a tetrad.
#[derive(Copy, Clone, Debug, PartialEq, Eq, Structural)]
pub enum Motion {
    Left,
    Right,
    Down,
    TurnLeft,
    TurnRight,
}

/// A piece of four tiles that turns about a center.
#[derive(Copy, Clone, Debug, PartialEq, Eq)]
pub struct Tetrad {
    pub tiles: [Tile; 4],
    /// Twice the row and twice the column of the point the piece turns
    /// about, so that a center between cells is still a pair of integers.
    pub center: (i128, i128),
    pub shape: Shape,
    /// Quarter turns to the left since the piece was made, modulo four.
    pub rotation: u8,
}

/// A free tile of a falling piece.
pub open spec fn piece_tile(color: RGB, row: usize, column: usize) -> Tile {
    Tile { empty: true, color, utf8: OUTLINED_SQUARE, row, column }
}

/// Half of `x`, rounded to the nearest integer, a tie going up.
pub open spec fn half_round(x: int) -> int {
    (x + 1) / 2
}

/// A doubled offset from the center after `quarters` quarter turns to the left.
pub open spec fn turned(offset: (int, int), quarters: int) -> (int, int) {
    if quarters == 0 {
        offset
    } else if quarters == 1 {
        (-offset.1, offset.0)
    } else if quarters == 2 {
        (-offset.0, -offset.1)
    } else {
        (offset.1, -offset.0)
    }
}

/// Twice the position that the cell `(row, column)` reaches by a quarter
/// turn about the point whose doubled coordinates are `center`.
pub open spec fn turned_cell(center: (int, int), row: int, column: int, turn: Turn) -> (int, int) {
    match turn {
        Turn::Left => (center.0 + center.1 - 2 * column, center.1 - center.0 + 2 * row),
        Turn::Right => (center.0 - center.1 + 2 * column, center.1 + center.0 - 2 * row),
    }
}

/// The tile moved by `(d_row, d_col)`, if its new position has no negative
/// coordinate and fits the machine's index type.
pub open spec fn shift_tile(tile: Tile, d_row: int, d_col: int) -> Option<Tile> {
    if 0 <= tile.row + d_row <= usize::MAX && 0 <= tile.column + d_col <= usize::MAX {
        Some(Tile { row: (tile.row + d_row) as usize, column: (tile.column + d_col) as usize, ..tile })
    } else {
        None
    }
}

/// The tile after a quarter turn about `center`, rounded to the nearest
/// cell, if that cell has no negative coordinate and fits the index type.
#[verifier::opaque]
pub open spec fn turn_tile(tile: Tile, center: (i128, i128), turn: Turn) -> Option<Tile> {
    let twice = turned_cell((center.0 as int, center.1 as int), tile.row as int, tile.column as int, turn);
    let row = half_round(twice.0);
    let column = half_round(twice.1);
    if 0 <= row <= usize::MAX && 0 <= column <= usize::MAX {
        Some(Tile { row: row as usize, column: column as usize, ..tile })
    } else {
        None
    }
}

impl Shape {
    /// The color every tile of a piece of this shape has.
    pub open spec fn color(self) -> RGB {
        match self {
            Shape::I => RGB { r: 102, g: 255, b: 255 },
            Shape::O => RGB { r: 255, g: 255, b: 102 },
            Shape::T => RGB { r: 178, g: 102, b: 255 },
            Shape::S => RGB { r: 102, g: 255, b: 102 },
            Shape::Z => RGB { r: 255, g: 0, b: 0 },
            Shape::J => RGB { r: 255, g: 153, b: 51 },
            Shape::L => RGB { r: 0, g: 0, b: 255 },
        }
    }

    /// The four cells, as `(row, column)`, that a new piece occupies.
    pub open spec fn spawn_cells(self) -> Seq<(usize, usize)> {
        match self {
            Shape::I => seq![(1, 3), (1, 4), (1, 5), (1, 6)],
            Shape::O => seq![(0, 4), (1, 4), (1, 5), (0, 5)],
            Shape::T => seq![(1, 3), (1, 4), (1, 5), (0, 4)],
            Shape::S => seq![(1, 5), (1, 6), (0, 5), (0, 4)],
            Shape::Z => seq![(0, 4), (0, 5), (1, 3), (1, 4)],
            Shape::J => seq![(0, 3), (1, 4), (1, 5), (1, 3)],
            Shape::L => seq![(0, 6), (1, 4), (1, 5), (1, 6)],
        }
    }

    /// Twice the center that a new piece turns about.
    pub open spec fn spawn_center(self) -> (i128, i128) {
        match self {
            Shape::I => (0, 10),
            Shape::O => (1, 9),
            Shape::T => (2, 8),
            Shape::S => (0, 10),
            Shape::Z => (0, 8),
            Shape::J => (2, 8),
            Shape::L => (2, 10),
        }
    }

    /// The shape that a one-letter name stands for; any other text stands
    /// for `L`.
    pub open spec fn named(name: Seq<char>) -> Shape {
        if name.len() != 1 {
            Shape::L
        } else if name[0] == 'I' {
            Shape::I
        } else if name[0] == 'O' {
            Shape::O
        } else if name[0] == 'T' {
            Shape::T
        } else if name[0] == 'S' {
            Shape::S
        } else if name[0] == 'Z' {
            Shape::Z
        } else if name[0] == 'J' {
            Shape::J
        } else {
            Shape::L
        }
    }

    /// The shape with the given number; every number past five gives `L`.
    pub open spec fn numbered(index: u8) -> Shape {
        if index == 0 {
            Shape::I
        } else if index == 1 {
            Shape::O
        } else if index == 2 {
            Shape::T
        } else if index == 3 {
            Shape::S
        } else if index == 4 {
            Shape::Z
        } else if index == 5 {
            Shape::J
        } else {
            Shape::L
        }
    }

    /// The letter that names the shape.
    pub open spec fn letter(self) -> char {
        match self {
            Shape::I => 'I',
            Shape::O => 'O',
            Shape::T => 'T',
            Shape::S => 'S',
            Shape::Z => 'Z',
            Shape::J => 'J',
            Shape::L => 'L',
        }
    }

    /// The one-letter name of the shape.
    pub fn name(self) -> (s: String)
        ensures
            s@ == seq![self.letter()],
    {
        let text = match self {
            Shape::I => {
                proof {
                    reveal_strlit("I");
                }
                "I"
            },
            Shape::O => {
                proof {
                    reveal_strlit("O");
                }
                "O"
            },
            Shape::T => {
                proof {
                    reveal_strlit("T");
                }
                "T"
            },
            Shape::S => {
                proof {
                    reveal_strlit("S");
                }
                "S"
            },
            Shape::Z => {
                proof {
                    reveal_strlit("Z");
                }
                "Z"
            },
            Shape::J => {
                proof {
                    reveal_strlit("J");
                }
                "J"
            },
            Shape::L => {
                proof {
                    reveal_strlit("L");
                }
                "L"
            },
        };
        assert(text@ =~= seq![self.letter()]);
        text.to_owned()
    }
}

/// Half of `base + swing - 2 * cell` when `toward` holds, and of
/// `base - swing + 2 * cell` otherwise, rounded to the nearest integer; `None`
/// when that is negative or past the index type.
fn folded(base: i128, swing: i128, cell: usize, toward: bool) -> (r: Option<usize>)
    ensures
        r == {
            let twice = if toward {
                base + swing - 2 * cell
            } else {
                base - swing + 2 * cell
            };
            if 0 <= half_round(twice) <= usize::MAX {
                Some(half_round(twice) as usize)
            } else {
                None
            }
        },
{
    let two_cells: i128 = 2 * (cell as i128);
    let first = if toward {
        base.checked_add(swing)
    } else {
        base.checked_sub(swing)
    };
    let second = match first {
        Some(v) => if toward {
            v.checked_sub(two_cells)
        } else {
            v.checked_add(two_cells)
        },
        None => None,
    };
    match second {
        Some(v) => {
            if v < -1 || v > 2 * (usize::MAX as i128) {
                None
            } else {
                let h: i128 = (v + 1) / 2;
                Some(h as usize)
            }
        },
        None => None,
    }
}

/// `x + d`, if that is a valid index.
fn shifted_index(x: usize, d: i64) -> (r: Option<usize>)
    ensures
        r == if 0 <= x + d <= usize::MAX {
            Some((x + d) as usize)
        } else {
            None::<usize>
        },
{
    let v: i128 = x as i128 + d as i128;
    if v < 0 || v > usize::MAX as i128 {
        None
    } else {
        Some(v as usize)
    }
}

fn shifted_tile(tile: Tile, d_row: i64, d_col: i64) -> (r: Option<Tile>)
    ensures
        r == shift_tile(tile, d_row as int, d_col as int),
{
    match (shifted_index(tile.row, d_row), shifted_index(tile.column, d_col)) {
        (Some(row), Some(column)) => Some(
            Tile { empty: tile.empty, color: tile.color, utf8: tile.utf8, row, column },
        ),
        _ => None,
    }
}

fn turned_tile(tile: Tile, center: (i128, i128), turn: Turn) -> (r: Option<Tile>)
    ensures
        r == turn_tile(tile, center, turn),
{
    proof {
        reveal(turn_tile);
    }
    let toward = match turn {
        Turn::Left => true,
        Turn::Right => false,
    };
    match (
        folded(center.0, center.1, tile.column, toward),
        folded(center.1, center.0, tile.row, !toward),
    ) {
        (Some(row), Some(column)) => Some(
            Tile { empty: tile.empty, color: tile.color, utf8: tile.utf8, row, column },
        ),
        _ => None,
    }
}

impl Tetrad {
    /// The piece of the given shape as it enters the board.
    pub open spec fn spawn(shape: Shape) -> Tetrad {
        let at = shape.spawn_cells();
        let color = shape.color();
        Tetrad {
            tiles: [
                piece_tile(color, at[0].0, at[0].1),
                piece_tile(color, at[1].0, at[1].1),
                piece_tile(color, at[2].0, at[2].1),
                piece_tile(color, at[3].0, at[3].1),
            ],
            center: shape.spawn_center(),
            shape,
            rotation: 0,
        }
    }

    /// The position of the `i`-th tile, as `(row, column)`.
    pub open spec fn cell(self, i: int) -> (int, int) {
        (self.tiles[i].row as int, self.tiles[i].column as int)
    }

    /// Whether one of the four tiles sits at `(row, column)`.
    pub open spec fn covers(self, row: int, column: int) -> bool {
        ||| self.cell(0) == (row, column)
        ||| self.cell(1) == (row, column)
        ||| self.cell(2) == (row, column)
        ||| self.cell(3) == (row, column)
    }

    /// The tile of the piece that shows at `(row, column)`: the last of the
    /// four that sits there.
    pub open spec fn tile_over(self, row: int, column: int) -> Tile {
        if self.cell(3) == (row, column) {
            self.tiles[3]
        } else if self.cell(2) == (row, column) {
            self.tiles[2]
        } else if self.cell(1) == (row, column) {
            self.tiles[1]
        } else {
            self.tiles[0]
        }
    }

    /// Twice the offset of the `i`-th tile from the center.
    pub open spec fn offset(self, i: int) -> (int, int) {
        (2 * self.tiles[i].row - self.center.0, 2 * self.tiles[i].column - self.center.1)
    }

    /// The four tiles form a rotation state of the shape: the center lies on
    /// a cell or on a corner between cells, each tile sits where the matching
    /// tile of a new piece sits after `rotation` quarter turns about the
    /// center, and each has the shape's color.
    pub open spec fn wf(self) -> bool {
        &&& self.rotation < 4
        &&& self.center.0 % 2 == self.center.1 % 2
        &&& forall|i: int|
            0 <= i < 4 ==> #[trigger] self.offset(i) == turned(
                Tetrad::spawn(self.shape).offset(i),
                self.rotation as int,
            )
        &&& forall|i: int| 0 <= i < 4 ==> (#[trigger] self.tiles[i]).color == self.shape.color()
    }

    /// The piece moved by `(d_row, d_col)`, tiles and center alike; `None`
    /// when a tile would get a negative coordinate or a coordinate leaves
    /// its machine type.
    pub open spec fn translate_spec(self, d_row: int, d_col: int) -> Option<Tetrad> {
        let t0 = shift_tile(self.tiles[0], d_row, d_col);
        let t1 = shift_tile(self.tiles[1], d_row, d_col);
        let t2 = shift_tile(self.tiles[2], d_row, d_col);
        let t3 = shift_tile(self.tiles[3], d_row, d_col);
        let row = self.center.0 + 2 * d_row;
        let column = self.center.1 + 2 * d_col;
        if t0 is Some && t1 is Some && t2 is Some && t3 is Some && i128::MIN <= row <= i128::MAX
            && i128::MIN <= column <= i128::MAX {
            Some(
                Tetrad {
                    tiles: [t0->0, t1->0, t2->0, t3->0],
                    center: (row as i128, column as i128),
                    ..self
                },
            )
        } else {
            None
        }
    }

    /// The piece after a quarter turn about its center; `None` when a tile
    /// would get a negative coordinate or leave the index type.
    pub open spec fn rotate_spec(self, turn: Turn) -> Option<Tetrad> {
        let t0 = turn_tile(self.tiles[0], self.center, turn);
        let t1 = turn_tile(self.tiles[1], self.center, turn);
        let t2 = turn_tile(self.tiles[2], self.center, turn);
        let t3 = turn_tile(self.tiles[3], self.center, turn);
        let quarters: int = match turn {
            Turn::Left => 1,
            Turn::Right => 3,
        };
        if t0 is Some && t1 is Some && t2 is Some && t3 is Some {
            Some(
                Tetrad {
                    tiles: [t0->0, t1->0, t2->0, t3->0],
                    rotation: ((self.rotation % 4 + quarters) % 4) as u8,
                    ..self
                },
            )
        } else {
            None
        }
    }

    /// The piece after `motion`, wherever that leads; `None` when the moved
    /// piece cannot be written down.
    pub open spec fn move_spec(self, motion: Motion) -> Option<Tetrad> {
        match motion {
            Motion::Left => self.translate_spec(0, -1),
            Motion::Right => self.translate_spec(0, 1),
            Motion::Down => self.translate_spec(1, 0),
            Motion::TurnLeft => self.rotate_spec(Turn::Left),
            Motion::TurnRight => self.rotate_spec(Turn::Right),
        }
    }

    /// The piece of the given shape as it enters the board.
    pub fn new(shape: Shape) -> (t: Tetrad)
        ensures
            t == Tetrad::spawn(shape),
    {
        match shape {
            Shape::I => Tetrad::new_i(),
            Shape::O => Tetrad::new_o(),
            Shape::T => Tetrad::new_t(),
            Shape::S => Tetrad::new_s(),
            Shape::Z => Tetrad::new_z(),
            Shape::J => Tetrad::new_j(),
            Shape::L => Tetrad::new_l(),
        }
    }

    /// Four free tiles of one color with the given center.
    fn assemble(shape: Shape, color: RGB, at: [(usize, usize); 4], center: (i128, i128)) -> (t:
        Tetrad)
        ensures
            t.tiles@ == seq![
                piece_tile(color, at[0].0, at[0].1),
                piece_tile(color, at[1].0, at[1].1),
                piece_tile(color, at[2].0, at[2].1),
                piece_tile(color, at[3].0, at[3].1),
            ],
            t.center == center,
            t.shape == shape,
            t.rotation == 0,
    {
        Tetrad {
            tiles: [
                Tile { empty: true, color, utf8: OUTLINED_SQUARE, row: at[0].0, column: at[0].1 },
                Tile { empty: true, color, utf8: OUTLINED_SQUARE, row: at[1].0, column: at[1].1 },
                Tile { empty: true, color, utf8: OUTLINED_SQUARE, row: at[2].0, column: at[2].1 },
                Tile { empty: true, color, utf8: OUTLINED_SQUARE, row: at[3].0, column: at[3].1 },
            ],
            center,
            shape,
            rotation: 0,
        }
    }

    /// A new `I` piece: four tiles in a row.
    pub fn new_i() -> (t: Tetrad)
        ensures
            t == Tetrad::spawn(Shape::I),
    {
        let light_blue = RGB { r: 102, g: 255, b: 255 };
        let t = Tetrad::assemble(Shape::I, light_blue, [(1, 3), (1, 4), (1, 5), (1, 6)], (0, 10));
        assert(t.tiles =~= Tetrad::spawn(Shape::I).tiles);
        t
    }

    /// A new `O` piece: a two by two block, turning about its middle.
    pub fn new_o() -> (t: Tetrad)
        ensures
            t == Tetrad::spawn(Shape::O),
    {
        let yellow = RGB { r: 255, g: 255, b: 102 };
        let t = Tetrad::assemble(Shape::O, yellow, [(0, 4), (1, 4), (1, 5), (0, 5)], (1, 9));
        assert(t.tiles =~= Tetrad::spawn(Shape::O).tiles);
        t
    }

    /// A new `T` piece.
    pub fn new_t() -> (t: Tetrad)
        ensures
            t == Tetrad::spawn(Shape::T),
    {
        let purple = RGB { r: 178, g: 102, b: 255 };
        let t = Tetrad::assemble(Shape::T, purple, [(1, 3), (1, 4), (1, 5), (0, 4)], (2, 8));
        assert(t.tiles =~= Tetrad::spawn(Shape::T).tiles);
        t
    }

    /// A new `S` piece.
    pub fn new_s() -> (t: Tetrad)
        ensures
            t == Tetrad::spawn(Shape::S),
    {
        let green = RGB { r: 102, g: 255, b: 102 };
        let t = Tetrad::assemble(Shape::S, green, [(1, 5), (1, 6), (0, 5), (0, 4)], (0, 10));
        assert(t.tiles =~= Tetrad::spawn(Shape::S).tiles);
        t
    }

    /// A new `Z` piece.
    pub fn new_z() -> (t: Tetrad)
        ensures
            t == Tetrad::spawn(Shape::Z),
    {
        let red = RGB { r: 255, g: 0, b: 0 };
        let t = Tetrad::assemble(Shape::Z, red, [(0, 4), (0, 5), (1, 3), (1, 4)], (0, 8));
        assert(t.tiles =~= Tetrad::spawn(Shape::Z).tiles);
        t
    }

    /// A new `J` piece.
    pub fn new_j() -> (t: Tetrad)
        ensures
            t == Tetrad::spawn(Shape::J),
    {
        let orange = RGB { r: 255, g: 153, b: 51 };
        let t = Tetrad::assemble(Shape::J, orange, [(0, 3), (1, 4), (1, 5), (1, 3)], (2, 8));
        assert(t.tiles =~= Tetrad::spawn(Shape::J).tiles);
        t
    }

    /// A new `L` piece.
    pub fn new_l() -> (t: Tetrad)
        ensures
            t == Tetrad::spawn(Shape::L),
    {
        let dark_blue = RGB { r: 0, g: 0, b: 255 };
        let t = Tetrad::assemble(Shape::L, dark_blue, [(0, 6), (1, 4), (1, 5), (1, 6)], (2, 10));
        assert(t.tiles =~= Tetrad::spawn(Shape::L).tiles);
        t
    }

    /// The new piece whose shape has the given number.
    pub fn from_index(index: u8) -> (t: Tetrad)
        ensures
            t == Tetrad::spawn(Shape::numbered(index)),
    {
        if index == 0 {
            Tetrad::new_i()
        } else if index == 1 {
            Tetrad::new_o()
        } else if index == 2 {
            Tetrad::new_t()
        } else if index == 3 {
            Tetrad::new_s()
        } else if index == 4 {
            Tetrad::new_z()
        } else if index == 5 {
            Tetrad::new_j()
        } else {
            Tetrad::new_l()
        }
    }

    /// A new piece of a shape drawn from the thread-local generator.
    /// Whatever is drawn, the result is one of the seven new pieces.
    pub fn new_random() -> (t: Tetrad)
        ensures
            exists|index: u8| index < 7 && t == Tetrad::spawn(#[trigger] Shape::numbered(index)),
    {
        let x = random_in_range(0, 7);
        Tetrad::from_index(x)
    }

    /// The new piece that a one-letter name stands for; any other text gives
    /// an `L` piece.
    pub fn new_by_name(name: &str) -> (t: Tetrad)
        ensures
            t == Tetrad::spawn(Shape::named(name@)),
    {
        if name.unicode_len() != 1 {
            return Tetrad::new_l();
        }
        let c = name.get_char(0);
        assert(name@ =~= seq![c]);
        if c == 'I' {
            Tetrad::new_i()
        } else if c == 'O' {
            Tetrad::new_o()
        } else if c == 'T' {
            Tetrad::new_t()
        } else if c == 'S' {
            Tetrad::new_s()
        } else if c == 'Z' {
            Tetrad::new_z()
        } else if c == 'J' {
            Tetrad::new_j()
        } else {
            assert(seq![c][0] == c);
            Tetrad::new_l()
        }
    }

    /// The piece moved by `(d_row, d_col)`.
    pub fn translated(&self, d_row: i64, d_col: i64) -> (r: Option<Tetrad>)
        ensures
            r == self.translate_spec(d_row as int, d_col as int),
    {
        let t0 = shifted_tile(self.tiles[0], d_row, d_col);
        let t1 = shifted_tile(self.tiles[1], d_row, d_col);
        let t2 = shifted_tile(self.tiles[2], d_row, d_col);
        let t3 = shifted_tile(self.tiles[3], d_row, d_col);
        let row = self.center.0.checked_add(2 * (d_row as i128));
        let column = self.center.1.checked_add(2 * (d_col as i128));
        match (t0, t1, t2, t3, row, column) {
            (Some(a), Some(b), Some(c), Some(d), Some(row), Some(column)) => {
                let moved = Tetrad {
                    tiles: [a, b, c, d],
                    center: (row, column),
                    shape: self.shape,
                    rotation: self.rotation,
                };
                assert(moved.tiles =~= self.translate_spec(d_row as int, d_col as int)->0.tiles);
                Some(moved)
            },
            _ => None,
        }
    }

    /// The piece after a quarter turn about its center.
    pub fn rotated(&self, turn: Turn) -> (r: Option<Tetrad>)
        ensures
            r == self.rotate_spec(turn),
    {
        let t0 = turned_tile(self.tiles[0], self.center, turn);
        let t1 = turned_tile(self.tiles[1], self.center, turn);
        let t2 = turned_tile(self.tiles[2], self.center, turn);
        let t3 = turned_tile(self.tiles[3], self.center, turn);
        let quarters: u8 = match turn {
            Turn::Left => 1,
            Turn::Right => 3,
        };
        match (t0, t1, t2, t3) {
            (Some(a), Some(b), Some(c), Some(d)) => {
                let moved = Tetrad {
                    tiles: [a, b, c, d],
                    center: self.center,
                    shape: self.shape,
                    rotation: (self.rotation % 4 + quarters) % 4,
                };
                assert(moved.tiles =~= self.rotate_spec(turn)->0.tiles);
                Some(moved)
            },
            _ => None,
        }
    }

    /// The piece after `motion`.
    pub fn moved(&self, motion: Motion) -> (r: Option<Tetrad>)
        ensures
            r == self.move_spec(motion),
    {
        match motion {
            Motion::Left => self.translated(0, -1),
            Motion::Right => self.translated(0, 1),
            Motion::Down => self.translated(1, 0),
            Motion::TurnLeft => self.rotated(Turn::Left),
            Motion::TurnRight => self.rotated(Turn::Right),
        }
    }
}

/// The piece after `n` quarter turns in one direction, if every one of them
/// can be written down.
pub open spec fn turned_times(t: Tetrad, turn: Turn, n: nat) -> Option<Tetrad>
    decreases n,
{
    if n == 0 {
        Some(t)
    } else {
        match turned_times(t, turn, (n - 1) as nat) {
            Some(u) => u.rotate_spec(turn),
            None => None,
        }
    }
}

/// A new piece of any shape is a rotation state of that shape.
pub proof fn lemma_spawn_wf(shape: Shape)
    ensures
        Tetrad::spawn(shape).wf(),
{
    let t = Tetrad::spawn(shape);
    assert forall|i: int| 0 <= i < 4 implies #[trigger] t.offset(i) == turned(
        Tetrad::spawn(t.shape).offset(i),
        t.rotation as int,
    ) by {}
}

/// Moving a piece sideways or down keeps it a rotation state of its shape.
pub proof fn lemma_translate_wf(t: Tetrad, d_row: int, d_col: int)
    requires
        t.wf(),
        t.translate_spec(d_row, d_col) is Some,
    ensures
        t.translate_spec(d_row, d_col)->0.wf(),
{
    let u = t.translate_spec(d_row, d_col)->0;
    assert forall|i: int| 0 <= i < 4 implies #[trigger] u.offset(i) == turned(
        Tetrad::spawn(u.shape).offset(i),
        u.rotation as int,
    ) by {
        assert(u.offset(i) == t.offset(i));
    }
    assert forall|i: int| 0 <= i < 4 implies (#[trigger] u.tiles[i]).color == u.shape.color() by {
        assert(t.tiles[i].color == t.shape.color());
    }
}

/// Halving an even number loses nothing.
proof fn lemma_half_exact(x: int)
    requires
        x % 2 == 0,
    ensures
        2 * half_round(x) == x,
{
}

/// About a center on a cell or on a corner, a quarter turn takes a cell to a
/// cell: nothing is rounded, and the doubled offset from the center turns
/// with it.
proof fn lemma_turn_exact(tile: Tile, center: (i128, i128), turn: Turn)
    requires
        center.0 % 2 == center.1 % 2,
        turn_tile(tile, center, turn) is Some,
    ensures
        ({
            let u = turn_tile(tile, center, turn)->0;
            let before = (2 * tile.row - center.0, 2 * tile.column - center.1);
            let after = (2 * u.row - center.0, 2 * u.column - center.1);
            &&& turn == Turn::Left ==> after == (-before.1, before.0)
            &&& turn == Turn::Right ==> after == (before.1, -before.0)
            &&& u == (Tile { row: u.row, column: u.column, ..tile })
        }),
{
    reveal(turn_tile);
    let twice = turned_cell(
        (center.0 as int, center.1 as int),
        tile.row as int,
        tile.column as int,
        turn,
    );
    assert(twice.0 % 2 == 0 && twice.1 % 2 == 0) by {
        assert((center.0 + center.1) % 2 == 0);
        assert((center.1 - center.0) % 2 == 0);
        assert((center.0 - center.1) % 2 == 0);
    }
    lemma_half_exact(twice.0);
    lemma_half_exact(twice.1);
}

/// Turning by `k` quarters and then by one more, or by three more, is
/// turning by their sum modulo four.
proof fn lemma_turned_again(offset: (int, int), k: int)
    requires
        0 <= k < 4,
    ensures
        turned(offset, (k + 1) % 4) == (-turned(offset, k).1, turned(offset, k).0),
        turned(offset, (k + 3) % 4) == (turned(offset, k).1, -turned(offset, k).0),
{
}

/// Turning a piece keeps it a rotation state of its shape.
pub proof fn lemma_rotate_wf(t: Tetrad, turn: Turn)
    requires
        t.wf(),
        t.rotate_spec(turn) is Some,
    ensures
        t.rotate_spec(turn)->0.wf(),
{
    let u = t.rotate_spec(turn)->0;
    lemma_rotate_parts(t, turn);
    assert forall|i: int| 0 <= i < 4 implies #[trigger] u.offset(i) == turned(
        Tetrad::spawn(u.shape).offset(i),
        u.rotation as int,
    ) by {
        let home = Tetrad::spawn(t.shape).offset(i);
        assert(t.offset(i) == turned(home, t.rotation as int));
        assert(turn_tile(t.tiles[i], t.center, turn) == Some(u.tiles[i]));
        lemma_turn_exact(t.tiles[i], t.center, turn);
        lemma_turned_again(home, t.rotation as int);
    }
    assert forall|i: int| 0 <= i < 4 implies (#[trigger] u.tiles[i]).color == u.shape.color() by {
        assert(t.tiles[i].color == t.shape.color());
        assert(turn_tile(t.tiles[i], t.center, turn) == Some(u.tiles[i]));
        lemma_turn_exact(t.tiles[i], t.center, turn);
    }
}

/// No motion changes how a tile is drawn or whether it is marked as
/// occupying its cell.
pub proof fn lemma_move_keeps_marks(t: Tetrad, motion: Motion)
    requires
        t.move_spec(motion) is Some,
    ensures
        forall|i: int|
            0 <= i < 4 ==> {
                let u = #[trigger] t.move_spec(motion)->0.tiles[i];
                u.empty == t.tiles[i].empty && u.color == t.tiles[i].color && u.utf8
                    == t.tiles[i].utf8
            },
{
    reveal(turn_tile);
}

/// Any motion keeps a piece a rotation state of its shape.
pub proof fn lemma_move_wf(t: Tetrad, motion: Motion)
    requires
        t.wf(),
        t.move_spec(motion) is Some,
    ensures
        t.move_spec(motion)->0.wf(),
{
    match motion {
        Motion::Left => lemma_translate_wf(t, 0, -1),
        Motion::Right => lemma_translate_wf(t, 0, 1),
        Motion::Down => lemma_translate_wf(t, 1, 0),
        Motion::TurnLeft => lemma_rotate_wf(t, Turn::Left),
        Motion::TurnRight => lemma_rotate_wf(t, Turn::Right),
    }
}

/// The four tiles of a rotation state sit on four different cells.
pub proof fn lemma_distinct_cells(t: Tetrad)
    requires
        t.wf(),
    ensures
        forall|i: int, j: int| 0 <= i < j < 4 ==> t.cell(i) != t.cell(j),
{
    assert forall|i: int, j: int| 0 <= i < j < 4 implies t.cell(i) != t.cell(j) by {
        let home_i = Tetrad::spawn(t.shape).offset(i);
        let home_j = Tetrad::spawn(t.shape).offset(j);
        assert(home_i != home_j);
        assert(t.offset(i) == turned(home_i, t.rotation as int));
        assert(t.offset(j) == turned(home_j, t.rotation as int));
    }
}

/// Four quarter turns about a center on a cell or on a corner bring a tile
/// back to where it was.
proof fn lemma_tile_four_turns(tile: Tile, center: (i128, i128), turn: Turn)
    requires
        center.0 % 2 == center.1 % 2,
        turn_tile(tile, center, turn) is Some,
        turn_tile(turn_tile(tile, center, turn)->0, center, turn) is Some,
        turn_tile(
            turn_tile(turn_tile(tile, center, turn)->0, center, turn)->0,
            center,
            turn,
        ) is Some,
    ensures
        turn_tile(
            turn_tile(turn_tile(turn_tile(tile, center, turn)->0, center, turn)->0, center, turn)->0,
            center,
            turn,
        ) == Some(tile),
{
    let t1 = turn_tile(tile, center, turn)->0;
    let t2 = turn_tile(t1, center, turn)->0;
    let t3 = turn_tile(t2, center, turn)->0;
    lemma_turn_exact(tile, center, turn);
    lemma_turn_exact(t1, center, turn);
    lemma_turn_exact(t2, center, turn);
    reveal(turn_tile);
    let twice = turned_cell((center.0 as int, center.1 as int), t3.row as int, t3.column as int, turn);
    assert(twice.0 == 2 * tile.row && twice.1 == 2 * tile.column);
    lemma_half_exact(twice.0);
    lemma_half_exact(twice.1);
}

/// What a quarter turn does to each part of a piece.
proof fn lemma_rotate_parts(t: Tetrad, turn: Turn)
    requires
        t.rotate_spec(turn) is Some,
    ensures
        ({
            let u = t.rotate_spec(turn)->0;
            &&& u.center == t.center
            &&& u.shape == t.shape
            &&& u.rotation == (t.rotation % 4 + if turn == Turn::Left { 1int } else { 3int }) % 4
            &&& forall|i: int|
                0 <= i < 4 ==> turn_tile(t.tiles[i], t.center, turn) == Some(#[trigger] u.tiles[i])
        }),
{
}

/// Four defined quarter turns in a row restore every part of a piece but
/// the count of turns, which comes back modulo four.
proof fn lemma_four_rotations(t: Tetrad, t1: Tetrad, t2: Tetrad, t3: Tetrad, turn: Turn)
    requires
        t.center.0 % 2 == t.center.1 % 2,
        t.rotate_spec(turn) == Some(t1),
        t1.rotate_spec(turn) == Some(t2),
        t2.rotate_spec(turn) == Some(t3),
    ensures
        t3.rotate_spec(turn) == Some(Tetrad { rotation: t.rotation % 4, ..t }),
{
    lemma_rotate_parts(t, turn);
    lemma_rotate_parts(t1, turn);
    lemma_rotate_parts(t2, turn);
    assert forall|i: int| 0 <= i < 4 implies turn_tile(#[trigger] t3.tiles[i], t3.center, turn)
        == Some(t.tiles[i]) by {
        assert(turn_tile(t.tiles[i], t.center, turn) == Some(t1.tiles[i]));
        assert(turn_tile(t1.tiles[i], t.center, turn) == Some(t2.tiles[i]));
        assert(turn_tile(t2.tiles[i], t.center, turn) == Some(t3.tiles[i]));
        lemma_tile_four_turns(t.tiles[i], t.center, turn);
    }
    assert(turn_tile(t3.tiles[0], t3.center, turn) == Some(t.tiles[0]));
    assert(turn_tile(t3.tiles[1], t3.center, turn) == Some(t.tiles[1]));
    assert(turn_tile(t3.tiles[2], t3.center, turn) == Some(t.tiles[2]));
    assert(turn_tile(t3.tiles[3], t3.center, turn) == Some(t.tiles[3]));
    let t4 = t3.rotate_spec(turn);
    assert(t4 is Some);
    lemma_rotate_parts(t3, turn);
    assert(t4->0.tiles =~= t.tiles);
}

/// Four quarter turns in one direction bring a piece back to the cells it
/// started from, provided that its center lies on a cell or on a corner
/// between cells (both doubled coordinates even, or both odd) and that none
/// of the first three turns leads off the quarter plane of valid positions.
pub proof fn lemma_four_turns(t: Tetrad, turn: Turn)
    requires
        t.center.0 % 2 == t.center.1 % 2,
        turned_times(t, turn, 3) is Some,
    ensures
        turned_times(t, turn, 4) == Some(Tetrad { rotation: t.rotation % 4, ..t }),
{
    reveal_with_fuel(turned_times, 5);
    assert(turned_times(t, turn, 0) == Some(t));
    let t1 = turned_times(t, turn, 1);
    let t2 = turned_times(t, turn, 2);
    let t3 = turned_times(t, turn, 3);
    assert(t1 == t.rotate_spec(turn));
    assert(t2 is Some && t1 is Some);
    assert(t2 == t1->0.rotate_spec(turn));
    assert(t3 == t2->0.rotate_spec(turn));
    lemma_four_rotations(t, t1->0, t2->0, t3->0, turn);
}

} // verus!
