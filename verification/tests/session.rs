use grid::grid::grid::Grid;
use grid::grid::rgb::RGB;
use grid::tetris::queue::Queue;
use grid::tetris::session::{drop_interval_ms, line_points, raised, Intent, Tetris, MIN_DROP_INTERVAL_MS};
use grid::tetris::tetrad::{Motion, Shape, Tetrad};
use grid::tetris::tile::{Tile, OUTLINED_SQUARE, SQUARE, SQUARE_OUTLINE};

fn lineup(first: Shape) -> Queue {
    let mut bag = vec![first];
    for shape in [Shape::I, Shape::O, Shape::T, Shape::S, Shape::Z, Shape::J, Shape::L] {
        if shape != first {
            bag.push(shape);
        }
    }
    let mut q = Queue::default();
    q.refill(bag);
    q
}

fn stone(row: usize, column: usize) -> Tile {
    Tile { empty: false, color: RGB { r: 1, g: 2, b: 3 }, utf8: SQUARE, row, column }
}

fn rows_of_piece(game: &Tetris) -> Vec<usize> {
    game.active_tetrad.tiles.iter().map(|t| t.row).collect()
}

fn columns_of_piece(game: &Tetris) -> Vec<usize> {
    game.active_tetrad.tiles.iter().map(|t| t.column).collect()
}

fn occupied(game: &Tetris) -> Vec<(usize, usize)> {
    let mut cells = Vec::new();
    for r in 0..game.grid.height {
        for c in 0..game.grid.width {
            if !game.grid.tile(r, c).unwrap().empty {
                cells.push((r, c));
            }
        }
    }
    cells
}

#[test]
fn a_new_game_starts_with_the_first_piece_of_the_queue() {
    let game = Tetris::with_queue(10, 24, lineup(Shape::I));
    assert!(!game.over);
    assert_eq!(game.active_tetrad, Tetrad::new_i());
    assert_eq!(game.tetrad_shadow, Tetrad::new_i().translated(22, 0).unwrap().outline());
    assert_eq!((game.score, game.lines, game.level), (0, 0, 1));
    assert_eq!(game.held_tetrad, None);
    assert!(game.can_hold);
    assert_eq!(game.queue.len(), 6);
    assert_eq!(game.queue.peek(0), Some(Shape::O));
    assert_eq!(occupied(&game), Vec::<(usize, usize)>::new());
    assert_eq!(game.grid.tile(1, 3).unwrap().utf8, OUTLINED_SQUARE);
    assert_eq!(game.grid.tile(23, 4).unwrap().utf8, SQUARE_OUTLINE);
    assert_eq!(game.grid.tile(23, 4).unwrap().color, RGB { r: 102, g: 255, b: 255 });
    assert_eq!(game.grid.tile(5, 5), Some(Tile::new(5, 5)));
}

#[test]
fn a_random_new_game_is_on() {
    let game = Tetris::new(10, 24);
    assert!(!game.over);
    assert_eq!(game.active_tetrad, Tetrad::new(game.active_tetrad.shape));
    assert_eq!(game.queue.len(), 6);
    assert_eq!((game.grid.width, game.grid.height), (10, 24));
}

#[test]
fn a_board_too_small_for_the_first_piece_ends_the_game_at_once() {
    let mut game = Tetris::with_queue(3, 3, lineup(Shape::I));
    assert!(game.over);
    assert!(!game.move_left());
    assert!(!game.move_down(5));
    assert!(!game.hold());
    assert!(!game.tick());
    game.hard_drop();
    game.handle(Intent::HardDrop);
    assert_eq!(game.score, 0);
    assert_eq!(occupied(&game), Vec::<(usize, usize)>::new());
    let none = Tetris::new(0, 0);
    assert!(none.over);
}

#[test]
fn the_i_piece_reaches_the_bottom_after_twenty_two_moves_and_locks() {
    let mut game = Tetris::with_queue(10, 24, lineup(Shape::I));
    assert_eq!(rows_of_piece(&game), vec![1, 1, 1, 1]);
    assert_eq!(columns_of_piece(&game), vec![3, 4, 5, 6]);
    for k in 0..22 {
        assert!(game.move_down(0));
        assert_eq!(rows_of_piece(&game), vec![k + 2; 4]);
    }
    let at_rest = game.active_tetrad;
    assert_eq!(rows_of_piece(&game), vec![23; 4]);
    assert!(!game.move_down(0));
    assert_eq!(game.active_tetrad, at_rest);
    assert_eq!(occupied(&game), Vec::<(usize, usize)>::new());
    assert!(game.tick());
    assert_eq!(occupied(&game), vec![(23, 3), (23, 4), (23, 5), (23, 6)]);
    assert_eq!(game.active_tetrad, Tetrad::new_o());
    assert_eq!(game.score, 0);
    assert_eq!(game.lines, 0);
    assert!(!game.over);
}

#[test]
fn gravity_moves_the_piece_down_until_it_locks() {
    let mut game = Tetris::with_queue(10, 24, lineup(Shape::I));
    for _ in 0..22 {
        assert!(!game.tick());
    }
    assert_eq!(rows_of_piece(&game), vec![23; 4]);
    assert_eq!(game.score, 0);
    assert!(game.tick());
    assert_eq!(game.active_tetrad, Tetrad::new_o());
}

#[test]
fn moves_are_refused_at_the_walls() {
    let mut game = Tetris::with_queue(10, 24, lineup(Shape::I));
    assert!(game.move_left());
    assert!(game.move_left());
    assert!(game.move_left());
    assert_eq!(columns_of_piece(&game), vec![0, 1, 2, 3]);
    let at_wall = game.active_tetrad;
    assert!(!game.move_left());
    assert_eq!(game.active_tetrad, at_wall);
    for _ in 0..6 {
        assert!(game.move_right());
    }
    assert_eq!(columns_of_piece(&game), vec![6, 7, 8, 9]);
    assert!(!game.move_right());
    assert_eq!(columns_of_piece(&game), vec![6, 7, 8, 9]);
    assert_eq!(game.tetrad_shadow, game.active_tetrad.translated(22, 0).unwrap().outline());
    assert_eq!(game.grid.tile(1, 3), Some(Tile::new(1, 3)));
    assert_eq!(game.grid.tile(23, 3), Some(Tile::new(23, 3)));
    assert_eq!(game.grid.tile(1, 9), Some(game.active_tetrad.tiles[3]));
    assert_eq!(game.grid.tile(23, 9), Some(game.tetrad_shadow.tiles[3]));
}

#[test]
fn turns_are_all_or_nothing() {
    let mut game = Tetris::with_queue(10, 24, lineup(Shape::I));
    let spawn = game.active_tetrad;
    assert!(!game.rotate_left());
    assert!(!game.rotate_right());
    assert_eq!(game.active_tetrad, spawn);
    assert!(game.move_down(0));
    assert!(game.move_down(0));
    assert!(game.rotate_right());
    assert_eq!(rows_of_piece(&game), vec![0, 1, 2, 3]);
    assert_eq!(columns_of_piece(&game), vec![4, 4, 4, 4]);
    assert!(game.rotate_left());
    assert_eq!(game.active_tetrad, spawn.translated(2, 0).unwrap());
}

#[test]
fn a_turn_into_occupied_cells_is_refused() {
    let mut board = Grid::blank(10, 24);
    board.add_tile(stone(6, 4));
    let mut game = Tetris::with_board(board, lineup(Shape::T));
    for _ in 0..4 {
        assert!(game.move_down(0));
    }
    let before = game.active_tetrad;
    assert_eq!(rows_of_piece(&game), vec![5, 5, 5, 4]);
    assert!(!game.rotate_left());
    assert!(!game.rotate_right());
    assert_eq!(game.active_tetrad, before);
    assert_eq!(game.grid.tile(6, 4), Some(stone(6, 4)));
}

#[test]
fn soft_drop_scores_the_level_when_it_moves() {
    let mut game = Tetris::with_queue(10, 24, lineup(Shape::O));
    game.handle(Intent::SoftDrop);
    assert_eq!(game.score, 1);
    assert!(game.move_down(7));
    assert_eq!(game.score, 8);
    while game.move_down(0) {}
    let score = game.score;
    game.handle(Intent::SoftDrop);
    assert_eq!(game.score, score);
    assert!(!game.move_down(100));
    assert_eq!(game.score, score);
}

#[test]
fn hard_drop_scores_twice_the_level_for_each_row() {
    let mut game = Tetris::with_queue(10, 7, lineup(Shape::I));
    assert_eq!(game.tetrad_shadow.tiles[0].row, 6);
    game.hard_drop();
    assert_eq!(game.score, 10);
    assert_eq!(rows_of_piece(&game), vec![6; 4]);
    assert_eq!(game.active_tetrad, Tetrad::new_i().translated(5, 0).unwrap());
    assert_eq!(occupied(&game), Vec::<(usize, usize)>::new());
    game.hard_drop();
    assert_eq!(game.score, 10);
    assert!(game.tick());
    assert_eq!(occupied(&game), vec![(6, 3), (6, 4), (6, 5), (6, 6)]);
}

#[test]
fn hard_drop_at_a_higher_level_scores_more() {
    let mut game = Tetris::with_queue(10, 24, lineup(Shape::I));
    game.lines = 30;
    game.update_level();
    assert_eq!(game.level, 4);
    game.handle(Intent::HardDrop);
    assert_eq!(game.score, 2 * 4 * 22);
    assert_eq!(occupied(&game), vec![(23, 3), (23, 4), (23, 5), (23, 6)]);
    assert_eq!(game.active_tetrad, Tetrad::new_o());
}

#[test]
fn hold_takes_the_next_piece_once_per_lock() {
    let mut game = Tetris::with_queue(10, 24, lineup(Shape::I));
    assert!(game.move_down(0));
    assert!(game.hold());
    assert_eq!(game.held_tetrad, Some(Shape::I));
    assert_eq!(game.active_tetrad, Tetrad::new_o());
    assert!(!game.can_hold);
    assert_eq!(game.queue.peek(0), Some(Shape::T));
    assert_eq!(game.grid.tile(2, 3), Some(Tile::new(2, 3)));
    assert_eq!(game.grid.tile(23, 3), Some(Tile::new(23, 3)));
    let piece = game.active_tetrad;
    assert!(!game.hold());
    game.handle(Intent::Hold);
    assert_eq!(game.held_tetrad, Some(Shape::I));
    assert_eq!(game.active_tetrad, piece);
    assert_eq!(game.queue.peek(0), Some(Shape::T));
    game.handle(Intent::HardDrop);
    assert!(game.can_hold);
    assert_eq!(game.active_tetrad, Tetrad::new_t());
    assert!(game.rotate_left() || game.move_down(0));
    assert!(game.hold());
    assert_eq!(game.held_tetrad, Some(Shape::T));
    assert_eq!(game.active_tetrad, Tetrad::new_i());
    assert_eq!(game.queue.peek(0), Some(Shape::S));
    assert!(!game.can_hold);
}

#[test]
fn closing_the_gap_in_the_bottom_row_clears_it() {
    let mut board = Grid::blank(10, 24);
    for c in 1..10 {
        board.add_tile(stone(23, c));
    }
    board.add_tile(stone(22, 5));
    board.add_tile(stone(22, 6));
    let mut game = Tetris::with_board(board, lineup(Shape::I));
    assert!(game.move_down(0));
    assert!(game.move_down(0));
    assert!(game.rotate_right());
    for _ in 0..4 {
        assert!(game.move_left());
    }
    assert!(!game.move_left());
    assert_eq!(columns_of_piece(&game), vec![0; 4]);
    assert_eq!(game.tetrad_shadow.tiles[3].row, 23);
    game.hard_drop();
    assert_eq!(rows_of_piece(&game), vec![20, 21, 22, 23]);
    assert_eq!(game.score, 40);
    assert!(game.tick());
    assert_eq!(game.lines, 1);
    assert_eq!(game.level, 1);
    assert_eq!(game.score, 140);
    assert_eq!(occupied(&game), vec![(21, 0), (22, 0), (23, 0), (23, 5), (23, 6)]);
    assert_eq!(game.grid.tile(23, 5), Some(stone(23, 5)));
    let corner = game.grid.tile(23, 0).unwrap();
    assert_eq!((corner.row, corner.column), (23, 0));
    assert_eq!(corner.color, RGB { r: 102, g: 255, b: 255 });
    assert_eq!(game.grid.full_rows(), Vec::<usize>::new());
    assert_eq!(game.active_tetrad, Tetrad::new_o());
    assert!(game.can_hold);
}

#[test]
fn the_tenth_line_raises_the_level_before_it_is_scored() {
    let mut board = Grid::blank(10, 24);
    for c in 0..10 {
        if c < 3 || c > 6 {
            board.add_tile(stone(23, c));
        }
    }
    let mut game = Tetris::with_board(board, lineup(Shape::I));
    game.lines = 9;
    game.update_level();
    assert_eq!(game.level, 1);
    game.handle(Intent::HardDrop);
    assert_eq!(game.lines, 10);
    assert_eq!(game.level, 2);
    assert_eq!(game.score, 2 * 1 * 22 + 100 * 2);
    assert_eq!(occupied(&game), Vec::<(usize, usize)>::new());
}

#[test]
fn four_rows_at_once_score_a_thousand() {
    let mut board = Grid::blank(10, 24);
    for r in 20..24 {
        for c in 1..10 {
            board.add_tile(stone(r, c));
        }
    }
    let mut game = Tetris::with_board(board, lineup(Shape::I));
    game.move_down(0);
    game.move_down(0);
    assert!(game.rotate_right());
    for _ in 0..4 {
        assert!(game.move_left());
    }
    game.handle(Intent::HardDrop);
    assert_eq!(game.lines, 4);
    assert_eq!(game.score, 40 + 1000);
    assert_eq!(occupied(&game), Vec::<(usize, usize)>::new());
}

#[test]
fn stacking_to_the_top_ends_the_game() {
    let mut game = Tetris::with_queue(10, 24, lineup(Shape::O));
    let mut drops = 0;
    while !game.over {
        game.handle(Intent::HardDrop);
        drops += 1;
        assert!(drops < 200);
    }
    assert!(!game.grid.valid_tetrad(&game.active_tetrad));
    let cells = occupied(&game);
    let score = game.score;
    game.handle(Intent::MoveLeft);
    game.handle(Intent::RotateCW);
    game.handle(Intent::RotateCCW);
    game.handle(Intent::MoveRight);
    game.handle(Intent::SoftDrop);
    game.handle(Intent::HardDrop);
    game.handle(Intent::Hold);
    assert!(!game.tick());
    assert_eq!(occupied(&game), cells);
    assert_eq!(game.score, score);
    assert!(game.over);
}

#[test]
fn quitting_ends_the_game() {
    let mut game = Tetris::with_queue(10, 24, lineup(Shape::L));
    game.handle(Intent::Quit);
    assert!(game.over);
    let piece = game.active_tetrad;
    assert!(!game.move_down(3));
    assert!(!game.tick());
    assert_eq!(game.active_tetrad, piece);
    assert_eq!(game.score, 0);
}

#[test]
fn intents_map_to_moves_and_turns() {
    let mut game = Tetris::with_queue(10, 24, lineup(Shape::T));
    let start = game.active_tetrad;
    game.handle(Intent::MoveLeft);
    assert_eq!(game.active_tetrad, start.moved(Motion::Left).unwrap());
    game.handle(Intent::MoveRight);
    assert_eq!(game.active_tetrad, start);
    game.handle(Intent::RotateCCW);
    assert_eq!(game.active_tetrad, start.moved(Motion::TurnLeft).unwrap());
    game.handle(Intent::RotateCW);
    assert_eq!(game.active_tetrad, start);
    game.handle(Intent::RotateCW);
    assert_eq!(game.active_tetrad, start.moved(Motion::TurnRight).unwrap());
    assert_eq!(game.get_shadow(), game.tetrad_shadow);
    assert_eq!(game.score, 0);
}

#[test]
fn level_is_one_more_than_a_tenth_of_the_lines() {
    let mut game = Tetris::with_queue(10, 24, lineup(Shape::I));
    for (lines, level) in [(0, 1), (9, 1), (10, 2), (19, 2), (25, 3), (100, 11)] {
        game.lines = lines;
        game.update_level();
        assert_eq!(game.level, level);
    }
}

#[test]
fn scoring_tables() {
    assert_eq!(line_points(0), 0);
    assert_eq!(line_points(1), 100);
    assert_eq!(line_points(2), 300);
    assert_eq!(line_points(3), 500);
    assert_eq!(line_points(4), 1000);
    assert_eq!(line_points(5), 1000);
    assert_eq!(raised(5, 2, 3), 11);
    assert_eq!(raised(5, 0, usize::MAX), 5);
    assert_eq!(raised(usize::MAX - 1, 2, 3), usize::MAX);
    assert_eq!(raised(0, usize::MAX, 2), usize::MAX);
}

#[test]
fn gravity_speeds_up_with_the_level_down_to_a_floor() {
    assert_eq!(MIN_DROP_INTERVAL_MS, 100);
    assert_eq!(drop_interval_ms(0), 1000);
    assert_eq!(drop_interval_ms(1), 900);
    assert_eq!(drop_interval_ms(5), 500);
    assert_eq!(drop_interval_ms(8), 200);
    assert_eq!(drop_interval_ms(9), 100);
    assert_eq!(drop_interval_ms(10), 100);
    assert_eq!(drop_interval_ms(11), 100);
    assert_eq!(drop_interval_ms(usize::MAX), 100);
}
