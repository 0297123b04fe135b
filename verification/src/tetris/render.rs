//! How a piece looks in a preview.

use super::session::Tetris;
use super::tetrad::{Shape, Tetrad};
use super::tile::OUTLINED_SQUARE;
use crate::grid::grid::colored_char;
use crate::grid::paint::{lemma_block_glyph, painted};
use crate::grid::rgb::RGB;
use vstd::prelude::*;
use vstd::string::*;
use vstd::utf8::decode_utf8;

verus! {

/// One tile of a piece of the given shape, painted.
pub open spec fn block(shape: Shape) -> Seq<char> {
    painted(decode_utf8(OUTLINED_SQUARE@), shape.color())
}

/// The room that a tile takes, left empty.
pub open spec fn gap() -> Seq<char> {
    seq![' ', ' ']
}

/// The preview of a piece of the given shape: a line feed, then two lines
/// of tiles and gaps.
pub open spec fn preview(shape: Shape) -> Seq<char> {
    let b = block(shape);
    let g = gap();
    let n = seq!['\n'];
    match shape {
        Shape::I => n + b + b + b + b + n + seq![' '],
        Shape::O => n + b + b + g + g + n + b + b,
        Shape::T => n + g + b + g + g + n + b + b + b,
        Shape::S => n + b + b + g + g + n + g + b + b,
        Shape::Z => n + g + b + b + g + n + b + b,
        Shape::J => n + b + g + g + g + n + b + b + b,
        Shape::L => n + g + g + b + g + n + b + b + b,
    }
}

/// What is shown where no shape is held: a line of eight spaces and two
/// empty lines.
pub open spec fn no_preview() -> Seq<char> {
    seq![' ', ' ', ' ', ' ', ' ', ' ', ' ', ' ', '\n', '\n', '\n']
}

impl Shape {
    /// The color every tile of a piece of this shape has.
    pub fn rgb(self) -> (c: RGB)
        ensures
            c == self.color(),
    {
        match self {
            Shape::I => RGB { r: 102, g: 255, b: 255 },
            Shape::O => RGB { r: 255, g: 255, b: 102 },
            Shape::T => RGB { r: 178, g: 102, b: 255 },
            Shape::S => RGB { r: 102, g: 255, b: 102 },
            Shape::Z => RGB { r: 255, g: 0, b: 0 },
            Shape::J => RGB { r: 255, g: 153, b: 51 },
            Shape::L => RGB { r: 0, g: 0, b: 255 },
        }
    }

    /// The preview of a piece of this shape.
    pub fn render(self) -> (s: String)
        ensures
            s@ == preview(self),
    {
        proof {
            lemma_block_glyph(OUTLINED_SQUARE@);
            reveal_strlit("\n");
            reveal_strlit("  ");
            reveal_strlit("\n ");
            assert("\n"@ =~= seq!['\n']);
            assert("  "@ =~= gap());
            assert("\n "@ =~= seq!['\n'] + seq![' ']);
        }
        let character = colored_char(&OUTLINED_SQUARE, self.rgb());
        let c = character.as_str();
        let mut render = String::from_str("\n");
        match self {
            Shape::I => {
                render.append(c);
                render.append(c);
                render.append(c);
                render.append(c);
                render.append("\n ");
            },
            Shape::O => {
                render.append(c);
                render.append(c);
                render.append("  ");
                render.append("  ");
                render.append("\n");
                render.append(c);
                render.append(c);
            },
            Shape::T => {
                render.append("  ");
                render.append(c);
                render.append("  ");
                render.append("  ");
                render.append("\n");
                render.append(c);
                render.append(c);
                render.append(c);
            },
            Shape::S => {
                render.append(c);
                render.append(c);
                render.append("  ");
                render.append("  ");
                render.append("\n");
                render.append("  ");
                render.append(c);
                render.append(c);
            },
            Shape::Z => {
                render.append("  ");
                render.append(c);
                render.append(c);
                render.append("  ");
                render.append("\n");
                render.append(c);
                render.append(c);
            },
            Shape::J => {
                render.append(c);
                render.append("  ");
                render.append("  ");
                render.append("  ");
                render.append("\n");
                render.append(c);
                render.append(c);
                render.append(c);
            },
            Shape::L => {
                render.append("  ");
                render.append("  ");
                render.append(c);
                render.append("  ");
                render.append("\n");
                render.append(c);
                render.append(c);
                render.append(c);
            },
        }
        assert(render@ =~= preview(self));
        render
    }
}

impl Tetrad {
    /// The preview of the piece: that of its shape, however it is turned.
    pub fn render(&self) -> (s: String)
        ensures
            s@ == preview(self.shape),
    {
        self.shape.render()
    }

    /// The one-letter name of the piece's shape.
    pub fn name(&self) -> (s: String)
        ensures
            s@ == seq![self.shape.letter()],
    {
        self.shape.name()
    }
}

impl Tetris {
    /// The preview of the held shape, or blank lines where none is held.
    pub fn render_held_tetrad(&self) -> (s: String)
        ensures
            s@ == match self.held_tetrad {
                Some(shape) => preview(shape),
                None => no_preview(),
            },
    {
        match self.held_tetrad {
            Some(shape) => shape.render(),
            None => {
                proof {
                    reveal_strlit("        \n\n\n");
                    assert("        \n\n\n"@ =~= no_preview());
                }
                String::from_str("        \n\n\n")
            },
        }
    }
}

} // verus!
