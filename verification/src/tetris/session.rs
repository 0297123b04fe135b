//! The game session: the board, the falling piece and its shadow, the
//! queue, the held shape, and the score.

use super::board::{
    base, free_tiles, full_in, ghost_of, holds_in, lemma_fits_holds, lemma_rest, lemma_rest_free,
    overlay, rest, stamped, taken,
};
use super::compact::lemma_no_full_row_left;
use super::lines::{cleared_all, full_rows_of, lemma_cleared_all_bare, lemma_full_below};
use super::overlay::{filled, lemma_base, lemma_lock};
use super::queue::{draws, lemma_draws_front, Queue};
use super::tetrad::{lemma_move_keeps_marks, lemma_move_wf, lemma_spawn_wf, Motion, Shape, Tetrad};
use super::tile::Tile;
use crate::grid::cells::{rectangular, shape_fits};
use crate::grid::grid::Grid;
use vstd::prelude::*;

verus! {

/// What a player can ask of the session.
#[derive(Copy, Clone, Debug, PartialEq, Eq, Structural)]
pub enum Intent {
    MoveLeft,
    MoveRight,
    SoftDrop,
    RotateCW,
    RotateCCW,
    HardDrop,
    Hold,
    Quit,
}

/// The shortest time, in milliseconds, between two steps of gravity.
pub const MIN_DROP_INTERVAL_MS: u64 = 100;

/// One game. The board stores the locked cells and shows, without letting
/// them occupy anything, the falling piece and its shadow.
pub struct Tetris {
    pub grid: Grid,
    pub active_tetrad: Tetrad,
    pub tetrad_shadow: Tetrad,
    pub queue: Queue,
    pub held_tetrad: Option<Shape>,
    pub score: usize,
    pub lines: usize,
    pub level: usize,
    pub can_hold: bool,
    pub over: bool,
}

/// `x` as a count that stops at the largest machine number.
pub open spec fn capped(x: int) -> usize {
    if x > usize::MAX {
        usize::MAX
    } else if x < 0 {
        0
    } else {
        x as usize
    }
}

/// The points for clearing `n` rows at once, before the level multiplies
/// them. More than four rows at once count as four.
pub open spec fn line_score(n: int) -> int {
    if n <= 0 {
        0
    } else if n == 1 {
        100
    } else if n == 2 {
        300
    } else if n == 3 {
        500
    } else {
        1000
    }
}

/// The time between two steps of gravity at a level, in milliseconds: a
/// second less a tenth of a second per level, but never under the floor.
pub open spec fn drop_interval(level: int) -> int {
    if 1000 - level * 100 > MIN_DROP_INTERVAL_MS {
        1000 - level * 100
    } else {
        MIN_DROP_INTERVAL_MS as int
    }
}

/// The time between two steps of gravity at a level, in milliseconds.
pub fn drop_interval_ms(level: usize) -> (ms: u64)
    ensures
        ms == drop_interval(level as int),
        ms >= MIN_DROP_INTERVAL_MS,
{
    if level >= 9 {
        MIN_DROP_INTERVAL_MS
    } else {
        1000 - (level as u64) * 100
    }
}

/// The points for clearing `n` rows at once, before the level multiplies them.
pub fn line_points(n: usize) -> (points: usize)
    ensures
        points == line_score(n as int),
{
    if n == 0 {
        0
    } else if n == 1 {
        100
    } else if n == 2 {
        300
    } else if n == 3 {
        500
    } else {
        1000
    }
}

/// `score + a * b`, stopping at the largest machine number.
pub fn raised(score: usize, a: usize, b: usize) -> (r: usize)
    ensures
        r == capped(score + a * b),
{
    match a.checked_mul(b) {
        Some(gain) => score.saturating_add(gain),
        None => usize::MAX,
    }
}

/// Whatever happens in a game that is on, be it a move, a turn, a drop, a
/// hold or a lock, neither the score nor the count of lines ever falls.
pub proof fn lemma_never_falls(before: Tetris, after: Tetris, motion: Motion, points: usize)
    requires
        before.wf(),
        !before.over,
        before.moves_to(after, motion, points) || before.drops_to(after) || before.locks_to(after)
            || before.holds_to(after),
    ensures
        after.score >= before.score,
        after.lines >= before.lines,
{
    let level = before.level as int;
    if before.drops_to(after) {
        lemma_rest(taken(before.grid@), before.active_tetrad);
        let landed = rest(taken(before.grid@), before.active_tetrad);
        let fell = landed.cell(0).0 - before.active_tetrad.cell(0).0;
        assert(2 * level * fell >= 0) by (nonlinear_arith)
            requires
                level >= 0,
                fell >= 0,
        ;
    }
    if before.locks_to(after) {
        let gain = line_score(full_rows_of(taken(before.locked_board())).len() as int);
        let next = after.level as int;
        assert(gain * next >= 0) by (nonlinear_arith)
            requires
                gain >= 0,
                next >= 0,
        ;
    }
}

/// After a lock on a board with columns, no row of the board is full:
/// every row that the locked piece filled has been cleared.
pub proof fn lemma_lock_leaves_no_full_row(before: Tetris, after: Tetris, row: int)
    requires
        before.wf(),
        !before.over,
        before.grid.width > 0,
        before.locks_to(after),
        0 <= row < before.grid.height,
    ensures
        !full_in(taken(after.grid@), row),
{
    let height = before.grid.height;
    let width = before.grid.width;
    let board = before.board();
    let locked = before.locked_board();
    lemma_base(before.grid@);
    lemma_fits_holds(before.grid@, before.active_tetrad);
    assert(holds_in(board, before.active_tetrad));
    lemma_lock(board, before.active_tetrad);
    assert forall|r: int| 0 <= r < height implies (#[trigger] locked[r]).len() == width by {
        assert(before.grid@[r].len() == width);
        assert(board[r].len() == width);
    }
    lemma_no_full_row_left(locked, height, width);
    lemma_base(after.grid@);
}

impl Tetris {
    /// The locked cells: the board under the falling piece and its shadow.
    pub open spec fn board(&self) -> Seq<Seq<Tile>> {
        base(self.grid@)
    }

    /// The board is a rectangle whose tiles record their positions; the
    /// queue is in order and long enough for a preview; the level follows
    /// from the lines; the falling piece is a rotation state of its shape
    /// that occupies nothing. While the game is on, the piece fits; and
    /// whenever it fits, the shadow is the piece at rest and the board shows
    /// exactly the locked cells, the shadow and, over it, the piece.
    pub open spec fn wf(&self) -> bool {
        &&& self.grid.wf()
        &&& self.grid.positioned()
        &&& self.queue.wf()
        &&& self.queue.upcoming().len() >= 6
        &&& self.level == self.lines / 10 + 1
        &&& self.active_tetrad.wf()
        &&& free_tiles(self.active_tetrad)
        &&& !self.over ==> self.grid.fits(self.active_tetrad)
        &&& if self.grid.fits(self.active_tetrad) {
            &&& self.tetrad_shadow == ghost_of(taken(self.grid@), self.active_tetrad)
            &&& self.grid@ == overlay(base(self.grid@), self.active_tetrad, self.tetrad_shadow)
        } else {
            self.grid@ == base(self.grid@)
        }
    }

    /// Nothing is shown on the board yet, and the falling piece is ready to
    /// be shown: the state between lifting the piece off and showing it.
    pub open spec fn ready(&self) -> bool {
        &&& self.grid.wf()
        &&& self.grid.positioned()
        &&& self.grid@ == base(self.grid@)
        &&& self.queue.wf()
        &&& self.queue.upcoming().len() >= 6
        &&& self.level == self.lines / 10 + 1
        &&& self.active_tetrad.wf()
        &&& free_tiles(self.active_tetrad)
        &&& self.grid.fits(self.active_tetrad)
    }

    /// `next` differs from this session at most in the falling piece, its
    /// shadow, how the board shows them, and the score.
    pub open spec fn same_game(&self, next: Tetris) -> bool {
        &&& next.board() == self.board()
        &&& next.grid.width == self.grid.width
        &&& next.grid.height == self.grid.height
        &&& next.queue == self.queue
        &&& next.held_tetrad == self.held_tetrad
        &&& next.lines == self.lines
        &&& next.level == self.level
        &&& next.can_hold == self.can_hold
        &&& next.over == self.over
    }

    /// Whether `motion` would be applied: the game is on, the moved piece
    /// can be written down, and it fits.
    pub open spec fn can_move(&self, motion: Motion) -> bool {
        &&& !self.over
        &&& self.active_tetrad.move_spec(motion) is Some
        &&& self.grid.fits(self.active_tetrad.move_spec(motion)->0)
    }

    /// `next` is this session after a request for `motion` that is worth
    /// `points` when it is applied: a motion that can be applied moves the
    /// piece and adds the points; any other changes nothing.
    pub open spec fn moves_to(&self, next: Tetris, motion: Motion, points: usize) -> bool {
        &&& self.same_game(next)
        &&& next.active_tetrad == if self.can_move(motion) {
            self.active_tetrad.move_spec(motion)->0
        } else {
            self.active_tetrad
        }
        &&& next.score == if self.can_move(motion) {
            capped(self.score + points)
        } else {
            self.score
        }
    }

    /// `next` is this session after a hard drop: the piece is at rest, and
    /// the score has grown by twice the level for every row it fell.
    pub open spec fn drops_to(&self, next: Tetris) -> bool {
        let landed = rest(taken(self.grid@), self.active_tetrad);
        &&& self.same_game(next)
        &&& next.active_tetrad == landed
        &&& next.score == capped(
            self.score + 2 * self.level * (landed.cell(0).0 - self.active_tetrad.cell(0).0),
        )
    }

    /// The locked cells once the falling piece is locked where it is.
    pub open spec fn locked_board(&self) -> Seq<Seq<Tile>> {
        stamped(self.board(), filled(self.active_tetrad))
    }

    /// `next` is this session after the falling piece is locked: its cells
    /// are occupied; the rows that this fills are cleared, top to bottom;
    /// lines, level and score follow; the next piece is drawn and holding is
    /// allowed again; and the game is over if that piece does not fit.
    pub open spec fn locks_to(&self, next: Tetris) -> bool {
        let locked = self.locked_board();
        let full = full_rows_of(taken(locked));
        &&& next.board() == cleared_all(locked, full)
        &&& next.grid.width == self.grid.width
        &&& next.grid.height == self.grid.height
        &&& next.lines == capped(self.lines + full.len())
        &&& next.level == next.lines / 10 + 1
        &&& next.score == capped(self.score + line_score(full.len() as int) * next.level)
        &&& draws(self.queue, next.queue, next.active_tetrad)
        &&& next.active_tetrad == Tetrad::spawn(self.queue.upcoming()[0])
        &&& next.held_tetrad == self.held_tetrad
        &&& next.can_hold
        &&& next.over == !next.grid.fits(next.active_tetrad)
    }

    /// `next` is this session after the falling piece is set aside: its
    /// shape is held; the shape held before, or else the next piece of the
    /// queue, enters as a new piece; holding is spent until the next lock;
    /// and the game is over if the entering piece does not fit.
    pub open spec fn holds_to(&self, next: Tetris) -> bool {
        &&& next.board() == self.board()
        &&& next.grid.width == self.grid.width
        &&& next.grid.height == self.grid.height
        &&& next.lines == self.lines
        &&& next.level == self.level
        &&& next.score == self.score
        &&& next.held_tetrad == Some(self.active_tetrad.shape)
        &&& !next.can_hold
        &&& match self.held_tetrad {
            Some(shape) => next.active_tetrad == Tetrad::spawn(shape) && next.queue == self.queue,
            None => draws(self.queue, next.queue, next.active_tetrad) && next.active_tetrad
                == Tetrad::spawn(self.queue.upcoming()[0]),
        }
        &&& next.over == !next.grid.fits(next.active_tetrad)
    }

    /// `next` is this session after one step of gravity: the piece moves
    /// down a row if it can, and is locked if it cannot.
    pub open spec fn ticks_to(&self, next: Tetris) -> bool {
        if self.over {
            next == *self
        } else if self.can_move(Motion::Down) {
            self.moves_to(next, Motion::Down, 0)
        } else {
            self.locks_to(next)
        }
    }

    /// `next` is this session after the player's request `intent`. Moves
    /// and turns are applied if the moved piece fits; a soft drop that is
    /// applied scores the level; a hard drop lands the piece and lets
    /// gravity lock it at once; a hold is applied if holding is allowed;
    /// quitting ends the game.
    pub open spec fn handles_to(&self, next: Tetris, intent: Intent) -> bool {
        match intent {
            Intent::MoveLeft => self.moves_to(next, Motion::Left, 0),
            Intent::MoveRight => self.moves_to(next, Motion::Right, 0),
            Intent::SoftDrop => self.moves_to(next, Motion::Down, self.level),
            Intent::RotateCCW => self.moves_to(next, Motion::TurnLeft, 0),
            Intent::RotateCW => self.moves_to(next, Motion::TurnRight, 0),
            Intent::HardDrop => if self.over {
                next == *self
            } else {
                exists|landed: Tetris|
                    landed.wf() && self.drops_to(landed) && #[trigger] landed.ticks_to(next)
            },
            Intent::Hold => if !self.over && self.can_hold {
                self.holds_to(next)
            } else {
                next == *self
            },
            Intent::Quit => next == (Tetris { over: true, ..*self }),
        }
    }

    /// A game on an empty board of the given size, with a freshly shuffled
    /// queue whose first piece is falling. The game is over at once if that
    /// piece does not fit the board.
    pub fn new(width: usize, height: usize) -> (game: Tetris)
        requires
            shape_fits(height, width),
        ensures
            game.wf(),
            game.grid.width == width,
            game.grid.height == height,
            game.board() == Grid::blank_rows(height, width),
            game.score == 0,
            game.lines == 0,
            game.level == 1,
            game.held_tetrad == None::<Shape>,
            game.can_hold,
            game.over == !game.grid.fits(game.active_tetrad),
            game.active_tetrad == Tetrad::spawn(game.active_tetrad.shape),
    {
        Tetris::with_queue(width, height, Queue::new())
    }

    /// A game on an empty board of the given size that draws from `queue`.
    pub fn with_queue(width: usize, height: usize, queue: Queue) -> (game: Tetris)
        requires
            shape_fits(height, width),
            queue.wf(),
        ensures
            game.wf(),
            game.grid.width == width,
            game.grid.height == height,
            game.board() == Grid::blank_rows(height, width),
            game.score == 0,
            game.lines == 0,
            game.level == 1,
            game.held_tetrad == None::<Shape>,
            game.can_hold,
            game.over == !game.grid.fits(game.active_tetrad),
            draws(queue, game.queue, game.active_tetrad),
    {
        let grid = Grid::blank(width, height);
        proof {
            super::overlay::lemma_boards_equal(base(grid@), grid@);
            super::overlay::lemma_boards_equal(grid@, Grid::blank_rows(height, width));
        }
        Tetris::with_board(grid, queue)
    }

    /// A game on the given board, whose occupied cells are the locked
    /// cells to start with, that draws from `queue`. Nothing may be merely
    /// shown on the board, and its tiles must record their positions.
    pub fn with_board(grid: Grid, queue: Queue) -> (game: Tetris)
        requires
            grid.wf(),
            grid.positioned(),
            grid@ == base(grid@),
            queue.wf(),
        ensures
            game.wf(),
            game.grid.width == grid.width,
            game.grid.height == grid.height,
            game.board() == grid@,
            game.score == 0,
            game.lines == 0,
            game.level == 1,
            game.held_tetrad == None::<Shape>,
            game.can_hold,
            game.over == !game.grid.fits(game.active_tetrad),
            draws(queue, game.queue, game.active_tetrad),
    {
        let mut queue = queue;
        let first = queue.next_tetrad();
        let mut game = Tetris {
            grid,
            active_tetrad: first,
            tetrad_shadow: first,
            queue,
            held_tetrad: None,
            score: 0,
            lines: 0,
            level: 1,
            can_hold: true,
            over: false,
        };
        proof {
            lemma_spawn_wf(first.shape);
        }
        game.enter();
        game
    }

    /// Recomputes the level from the lines: one more than a tenth of them.
    pub fn update_level(&mut self)
        ensures
            final(self).level == old(self).lines / 10 + 1,
            *final(self) == (Tetris { level: final(self).level, ..*old(self) }),
    {
        self.level = self.lines / 10 + 1;
    }

    /// The shadow of the falling piece: the piece at rest, drawn hollow.
    pub fn get_shadow(&self) -> (shadow: Tetrad)
        requires
            self.grid.wf(),
            self.grid.fits(self.active_tetrad),
        ensures
            shadow == ghost_of(taken(self.grid@), self.active_tetrad),
    {
        self.grid.resting(&self.active_tetrad).outline()
    }

    /// Shows the falling piece and its shadow on a board on which nothing is
    /// shown, and records the shadow.
    pub fn update_shadow(&mut self)
        requires
            old(self).ready(),
        ensures
            final(self).wf(),
            final(self).board() == old(self).grid@,
            final(self).grid.fits(final(self).active_tetrad),
            *final(self) == (Tetris {
                grid: final(self).grid,
                tetrad_shadow: final(self).tetrad_shadow,
                ..*old(self)
            }),
            final(self).grid.width == old(self).grid.width,
            final(self).grid.height == old(self).grid.height,
    {
        let shadow = self.grid.show(&self.active_tetrad);
        self.tetrad_shadow = shadow;
    }

    /// Puts the piece in `active_tetrad` into play on a board on which
    /// nothing is shown: shows it if it fits, ends the game if it does not.
    fn enter(&mut self)
        requires
            old(self).grid.wf(),
            old(self).grid.positioned(),
            old(self).grid@ == base(old(self).grid@),
            old(self).queue.wf(),
            old(self).queue.upcoming().len() >= 6,
            old(self).level == old(self).lines / 10 + 1,
            old(self).active_tetrad.wf(),
            free_tiles(old(self).active_tetrad),
        ensures
            final(self).wf(),
            final(self).board() == old(self).grid@,
            final(self).over == !final(self).grid.fits(final(self).active_tetrad),
            *final(self) == (Tetris {
                grid: final(self).grid,
                tetrad_shadow: final(self).tetrad_shadow,
                over: final(self).over,
                ..*old(self)
            }),
            final(self).grid.width == old(self).grid.width,
            final(self).grid.height == old(self).grid.height,
    {
        if self.grid.valid_tetrad(&self.active_tetrad) {
            self.over = false;
            self.update_shadow();
        } else {
            self.over = true;
        }
    }

    /// Asks for `motion`: lifts the piece off the board, applies the motion
    /// if the moved piece fits, and shows the piece and its shadow again.
    /// Says whether the motion was applied.
    pub fn move_active_tetrad(&mut self, motion: Motion) -> (applied: bool)
        requires
            old(self).wf(),
        ensures
            final(self).wf(),
            applied == old(self).can_move(motion),
            old(self).moves_to(*final(self), motion, 0),
            old(self).over ==> *final(self) == *old(self),
    {
        if self.over {
            return false;
        }
        proof {
            lemma_fits_holds(self.grid@, self.active_tetrad);
            lemma_rest_free(taken(self.grid@), self.active_tetrad);
            lemma_fits_holds(self.grid@, self.tetrad_shadow);
            lemma_base(self.grid@);
        }
        self.grid.lift(&self.active_tetrad, &self.tetrad_shadow);
        let applied = self.active_tetrad.move_tetrad(&self.grid, motion);
        proof {
            if applied {
                lemma_move_wf(old(self).active_tetrad, motion);
                lemma_move_keeps_marks(old(self).active_tetrad, motion);
            }
            lemma_base(self.grid@);
        }
        self.update_shadow();
        applied
    }

    /// Asks for a move one column to the left.
    pub fn move_left(&mut self) -> (applied: bool)
        requires
            old(self).wf(),
        ensures
            final(self).wf(),
            applied == old(self).can_move(Motion::Left),
            old(self).moves_to(*final(self), Motion::Left, 0),
    {
        self.move_active_tetrad(Motion::Left)
    }

    /// Asks for a move one column to the right.
    pub fn move_right(&mut self) -> (applied: bool)
        requires
            old(self).wf(),
        ensures
            final(self).wf(),
            applied == old(self).can_move(Motion::Right),
            old(self).moves_to(*final(self), Motion::Right, 0),
    {
        self.move_active_tetrad(Motion::Right)
    }

    /// Asks for a move one row down, worth `score` points if it is applied.
    pub fn move_down(&mut self, score: usize) -> (applied: bool)
        requires
            old(self).wf(),
        ensures
            final(self).wf(),
            applied == old(self).can_move(Motion::Down),
            old(self).moves_to(*final(self), Motion::Down, score),
            old(self).over ==> *final(self) == *old(self),
    {
        let applied = self.move_active_tetrad(Motion::Down);
        if applied {
            self.score = self.score.saturating_add(score);
        }
        applied
    }

    /// Asks for a quarter turn to the left.
    pub fn rotate_left(&mut self) -> (applied: bool)
        requires
            old(self).wf(),
        ensures
            final(self).wf(),
            applied == old(self).can_move(Motion::TurnLeft),
            old(self).moves_to(*final(self), Motion::TurnLeft, 0),
    {
        self.move_active_tetrad(Motion::TurnLeft)
    }

    /// Asks for a quarter turn to the right.
    pub fn rotate_right(&mut self) -> (applied: bool)
        requires
            old(self).wf(),
        ensures
            final(self).wf(),
            applied == old(self).can_move(Motion::TurnRight),
            old(self).moves_to(*final(self), Motion::TurnRight, 0),
    {
        self.move_active_tetrad(Motion::TurnRight)
    }

    /// Drops the piece to where its shadow is and scores twice the level
    /// for every row it falls. The piece is not locked yet: the next step
    /// of gravity does that.
    pub fn hard_drop(&mut self)
        requires
            old(self).wf(),
        ensures
            final(self).wf(),
            old(self).over ==> *final(self) == *old(self),
            !old(self).over ==> old(self).drops_to(*final(self)),
    {
        if self.over {
            return;
        }
        proof {
            lemma_fits_holds(self.grid@, self.active_tetrad);
            lemma_rest_free(taken(self.grid@), self.active_tetrad);
            lemma_rest(taken(self.grid@), self.active_tetrad);
            lemma_fits_holds(self.grid@, self.tetrad_shadow);
            lemma_base(self.grid@);
        }
        let from_row = self.active_tetrad.tiles[0].row;
        let to_row = self.tetrad_shadow.tiles[0].row;
        let rows_dropped = to_row - from_row;
        let once = raised(self.score, self.level, rows_dropped);
        self.score = raised(once, self.level, rows_dropped);
        proof {
            let level = self.level as int;
            let rows = rows_dropped as int;
            assert(2 * level * rows == level * rows + level * rows) by (nonlinear_arith);
            assert(level * rows >= 0) by (nonlinear_arith)
                requires
                    level >= 0,
                    rows >= 0,
            ;
        }
        self.grid.lift(&self.active_tetrad, &self.tetrad_shadow);
        self.active_tetrad = self.grid.resting(&self.active_tetrad);
        proof {
            lemma_base(self.grid@);
        }
        self.update_shadow();
    }

    /// Locks the falling piece where it is, clears the rows that this
    /// fills, scores them, and puts the next piece of the queue into play.
    pub fn lock(&mut self)
        requires
            old(self).wf(),
            !old(self).over,
        ensures
            final(self).wf(),
            old(self).locks_to(*final(self)),
    {
        proof {
            lemma_fits_holds(self.grid@, self.active_tetrad);
            lemma_rest_free(taken(self.grid@), self.active_tetrad);
            lemma_fits_holds(self.grid@, self.tetrad_shadow);
            lemma_base(self.grid@);
        }
        self.grid.lift(&self.active_tetrad, &self.tetrad_shadow);
        let locked = self.active_tetrad.fill();
        proof {
            lemma_fits_holds(self.grid@, self.active_tetrad);
            lemma_lock(self.grid@, self.active_tetrad);
            assert(self.grid.holds(locked)) by {
                assert forall|i: int| 0 <= i < 4 implies 0 <= (#[trigger] locked.cell(i)).0
                    < self.grid@.len() && 0 <= locked.cell(i).1 < self.grid@[locked.cell(
                    i,
                ).0].len() by {
                    assert(locked.cell(i) == self.active_tetrad.cell(i));
                }
            }
        }
        self.grid.add_tetrad(&locked);
        let full_rows = self.grid.full_rows();
        let n_full_rows = full_rows.len();
        proof {
            lemma_full_below(taken(self.grid@), self.grid.height as nat);
            lemma_cleared_all_bare(self.grid@, self.grid.height, self.grid.width, full_rows@);
        }
        self.grid.clear_rows(full_rows);
        self.lines = self.lines.saturating_add(n_full_rows);
        self.update_level();
        self.score = raised(self.score, line_points(n_full_rows), self.level);
        let ghost queue = self.queue;
        self.active_tetrad = self.queue.next_tetrad();
        self.can_hold = true;
        proof {
            lemma_draws_front(queue, self.queue, self.active_tetrad);
            lemma_spawn_wf(self.active_tetrad.shape);
        }
        self.enter();
    }

    /// Sets the falling piece aside, if holding is allowed: its shape is
    /// held, and the shape held before, or else the next piece of the queue,
    /// enters as a new piece. Says whether it did.
    pub fn hold(&mut self) -> (applied: bool)
        requires
            old(self).wf(),
        ensures
            final(self).wf(),
            applied == (!old(self).over && old(self).can_hold),
            applied ==> old(self).holds_to(*final(self)),
            !applied ==> *final(self) == *old(self),
    {
        if self.over || !self.can_hold {
            return false;
        }
        proof {
            lemma_fits_holds(self.grid@, self.active_tetrad);
            lemma_rest_free(taken(self.grid@), self.active_tetrad);
            lemma_fits_holds(self.grid@, self.tetrad_shadow);
            lemma_base(self.grid@);
        }
        let shape = self.active_tetrad.shape;
        self.grid.lift(&self.active_tetrad, &self.tetrad_shadow);
        match self.held_tetrad {
            Some(held) => {
                self.active_tetrad = Tetrad::new(held);
            },
            None => {
                let ghost queue = self.queue;
                self.active_tetrad = self.queue.next_tetrad();
                proof {
                    lemma_draws_front(queue, self.queue, self.active_tetrad);
                }
            },
        }
        self.held_tetrad = Some(shape);
        self.can_hold = false;
        proof {
            lemma_spawn_wf(self.active_tetrad.shape);
            lemma_base(self.grid@);
        }
        self.enter();
        true
    }

    /// One step of gravity: the piece moves down a row; if it cannot, it is
    /// locked. Says whether it was locked.
    pub fn tick(&mut self) -> (locked: bool)
        requires
            old(self).wf(),
        ensures
            final(self).wf(),
            locked == (!old(self).over && !old(self).can_move(Motion::Down)),
            old(self).ticks_to(*final(self)),
    {
        if self.over {
            return false;
        }
        let moved = self.move_down(0);
        if moved {
            false
        } else {
            self.lock();
            true
        }
    }

    /// Carries out the player's request.
    pub fn handle(&mut self, intent: Intent)
        requires
            old(self).wf(),
        ensures
            final(self).wf(),
            old(self).handles_to(*final(self), intent),
    {
        match intent {
            Intent::MoveLeft => {
                self.move_left();
            },
            Intent::MoveRight => {
                self.move_right();
            },
            Intent::SoftDrop => {
                let level = self.level;
                self.move_down(level);
            },
            Intent::RotateCCW => {
                self.rotate_left();
            },
            Intent::RotateCW => {
                self.rotate_right();
            },
            Intent::HardDrop => {
                if !self.over {
                    self.hard_drop();
                    let ghost landed = *self;
                    self.tick();
                    assert(landed.wf() && old(self).drops_to(landed) && landed.ticks_to(*self));
                }
            },
            Intent::Hold => {
                self.hold();
            },
            Intent::Quit => {
                self.quit();
            },
        }
    }

    /// Ends the game.
    pub fn quit(&mut self)
        ensures
            *final(self) == (Tetris { over: true, ..*old(self) }),
            old(self).wf() ==> final(self).wf(),
    {
        self.over = true;
    }
}

} // verus!
