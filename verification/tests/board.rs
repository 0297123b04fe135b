use grid::grid::grid::Grid;
use grid::grid::rgb::RGB;
use grid::tetris::tetrad::{Motion, Tetrad};
use grid::tetris::tile::{Tile, SQUARE};

fn brick(row: usize, column: usize) -> Tile {
    Tile { empty: false, color: RGB { r: 9, g: 8, b: 7 }, utf8: SQUARE, row, column }
}

fn board_with_bottom_gap() -> Grid {
    let mut g = Grid::blank(10, 24);
    for c in 1..10 {
        g.add_tile(brick(23, c));
    }
    g.add_tile(brick(22, 5));
    g.add_tile(brick(22, 6));
    g
}

#[test]
fn blank_board_has_blank_tiles_at_their_positions() {
    let g = Grid::blank(10, 24);
    assert_eq!(g.width, 10);
    assert_eq!(g.height, 24);
    for r in 0..24 {
        for c in 0..10 {
            assert_eq!(g.tile(r, c), Some(Tile::new(r, c)));
        }
    }
    assert_eq!(g.tile(24, 0), None);
    assert_eq!(g.tile(0, 10), None);
}

#[test]
fn new_lays_tiles_out_row_by_row() {
    let mut tiles = Vec::new();
    for k in 0..6 {
        tiles.push(Tile { empty: k % 2 == 0, color: RGB { r: k as u8, g: 0, b: 0 }, utf8: SQUARE, row: 100 + k, column: 7 });
    }
    let g = Grid::new(3, 2, tiles.clone());
    assert_eq!(g.width, 3);
    assert_eq!(g.height, 2);
    for r in 0..2 {
        for c in 0..3 {
            assert_eq!(g.tile(r, c), Some(tiles[r * 3 + c]));
        }
    }
    assert_eq!(g.tile(1, 2).unwrap().color.r, 5);
    assert_eq!(g.tile(1, 0).unwrap().row, 103);
}

#[test]
fn empty_boards_can_be_made() {
    let g = Grid::new(0, 0, Vec::new());
    assert_eq!(g.tile(0, 0), None);
    let h = Grid::blank(0, 5);
    assert_eq!(h.full_rows(), vec![0, 1, 2, 3, 4]);
    let w = Grid::blank(5, 0);
    assert_eq!(w.full_rows(), Vec::<usize>::new());
}

#[test]
fn add_and_remove_write_one_cell() {
    let mut g = Grid::blank(4, 3);
    g.add_tile(brick(1, 2));
    assert_eq!(g.tile(1, 2), Some(brick(1, 2)));
    assert_eq!(g.tile(1, 1), Some(Tile::new(1, 1)));
    assert_eq!(g.tile(2, 2), Some(Tile::new(2, 2)));
    g.remove_tile(brick(1, 2));
    assert_eq!(g.tile(1, 2), Some(Tile::new(1, 2)));
}

#[test]
fn add_and_remove_tetrad_write_four_cells() {
    let mut g = Grid::blank(10, 24);
    let t = Tetrad::new_t();
    g.add_tetrad(&t);
    for tile in t.tiles.iter() {
        assert_eq!(g.tile(tile.row, tile.column), Some(*tile));
    }
    assert_eq!(g.tile(0, 3), Some(Tile::new(0, 3)));
    g.remove_tetrad(&t);
    for tile in t.tiles.iter() {
        assert_eq!(g.tile(tile.row, tile.column), Some(Tile::new(tile.row, tile.column)));
    }
}

#[test]
fn valid_tile_needs_a_free_cell_of_the_board() {
    let mut g = Grid::blank(10, 24);
    assert!(g.valid_tile(Tile::new(0, 0)));
    assert!(g.valid_tile(Tile::new(23, 9)));
    assert!(!g.valid_tile(Tile::new(24, 0)));
    assert!(!g.valid_tile(Tile::new(0, 10)));
    assert!(!g.valid_tile(Tile::new(usize::MAX, usize::MAX)));
    g.add_tile(brick(5, 5));
    assert!(!g.valid_tile(Tile::new(5, 5)));
    assert!(g.valid_tile(Tile::new(5, 6)));
}

#[test]
fn placement_is_invalid_outside_the_board() {
    let g = Grid::blank(10, 24);
    let i = Tetrad::new_i();
    assert!(g.valid_tetrad(&i));
    let right = i.translated(0, 4).unwrap();
    assert_eq!(right.tiles[3].column, 10);
    assert!(!g.valid_tetrad(&right));
    let low = i.translated(23, 0).unwrap();
    assert_eq!(low.tiles[0].row, 24);
    assert!(!g.valid_tetrad(&low));
    let bottom = i.translated(22, 0).unwrap();
    assert!(g.valid_tetrad(&bottom));
}

#[test]
fn placement_is_invalid_over_an_occupied_cell() {
    let mut g = Grid::blank(10, 24);
    let i = Tetrad::new_i();
    g.add_tile(brick(1, 6));
    assert!(!g.valid_tetrad(&i));
    g.remove_tile(brick(1, 6));
    assert!(g.valid_tetrad(&i));
}

#[test]
fn a_shown_piece_does_not_block_itself() {
    let mut g = Grid::blank(10, 24);
    let i = Tetrad::new_i();
    g.add_tetrad(&i);
    assert!(g.valid_tetrad(&i));
    assert!(g.valid_tetrad(&i.translated(0, 1).unwrap()));
}

#[test]
fn move_tetrad_applies_only_valid_moves() {
    let mut g = Grid::blank(10, 24);
    let mut t = Tetrad::new_i();
    assert!(t.move_tetrad(&g, Motion::Down));
    assert_eq!(t, Tetrad::new_i().translated(1, 0).unwrap());
    g.add_tile(brick(3, 4));
    let before = t;
    assert!(!t.move_tetrad(&g, Motion::Down));
    assert_eq!(t, before);
    assert!(t.move_tetrad(&g, Motion::Left));
    assert!(t.move_tetrad(&g, Motion::Left));
    assert!(t.move_tetrad(&g, Motion::Left));
    assert_eq!(t.tiles[0].column, 0);
    let at_wall = t;
    assert!(!t.move_tetrad(&g, Motion::Left));
    assert_eq!(t, at_wall);
}

#[test]
fn resting_place_is_the_lowest_valid_one() {
    let mut g = Grid::blank(10, 24);
    let i = Tetrad::new_i();
    assert_eq!(g.resting(&i), i.translated(22, 0).unwrap());
    g.add_tile(brick(10, 5));
    assert_eq!(g.resting(&i), i.translated(8, 0).unwrap());
    g.add_tile(brick(2, 3));
    assert_eq!(g.resting(&i), i);
}

#[test]
fn full_rows_lists_exactly_the_full_rows_top_to_bottom() {
    let mut g = Grid::blank(3, 5);
    assert_eq!(g.full_rows(), Vec::<usize>::new());
    for c in 0..3 {
        g.add_tile(brick(4, c));
        g.add_tile(brick(1, c));
    }
    g.add_tile(brick(2, 0));
    g.add_tile(brick(2, 2));
    assert_eq!(g.full_rows(), vec![1, 4]);
    assert!(g.is_full_row(1));
    assert!(!g.is_full_row(2));
    assert!(!g.is_full_row(0));
}

#[test]
fn full_row_with_one_gap_closed() {
    let mut g = board_with_bottom_gap();
    assert_eq!(g.full_rows(), Vec::<usize>::new());
    g.add_tile(brick(23, 0));
    assert_eq!(g.full_rows(), vec![23]);
    g.clear_rows(vec![23]);
    assert_eq!(g.full_rows(), Vec::<usize>::new());
    for c in 0..10 {
        let t = g.tile(23, c).unwrap();
        assert_eq!(t.empty, !(c == 5 || c == 6));
        assert_eq!(t.row, 23);
        assert_eq!(t.column, c);
        assert_eq!(g.tile(22, c), Some(Tile::new(22, c)));
    }
    assert_eq!(g.tile(23, 5), Some(brick(23, 5)));
}

#[test]
fn clearing_one_row_shifts_the_rows_above_by_one() {
    let mut g = Grid::blank(2, 5);
    g.add_tile(brick(0, 0));
    g.add_tile(brick(1, 1));
    g.add_tile(brick(2, 0));
    g.add_tile(brick(2, 1));
    g.add_tile(brick(3, 1));
    g.add_tile(brick(4, 0));
    g.clear_row(2);
    assert_eq!(g.tile(0, 0), Some(Tile::new(0, 0)));
    assert_eq!(g.tile(0, 1), Some(Tile::new(0, 1)));
    assert_eq!(g.tile(1, 0), Some(brick(1, 0)));
    assert_eq!(g.tile(1, 1), Some(Tile::new(1, 1)));
    assert_eq!(g.tile(2, 0), Some(Tile::new(2, 0)));
    assert_eq!(g.tile(2, 1), Some(brick(2, 1)));
    assert_eq!(g.tile(3, 0), Some(Tile::new(3, 0)));
    assert_eq!(g.tile(3, 1), Some(brick(3, 1)));
    assert_eq!(g.tile(4, 0), Some(brick(4, 0)));
    assert_eq!(g.tile(4, 1), Some(Tile::new(4, 1)));
}

#[test]
fn clearing_the_top_row_blanks_it() {
    let mut g = Grid::blank(2, 3);
    g.add_tile(brick(0, 0));
    g.add_tile(brick(0, 1));
    g.add_tile(brick(1, 0));
    g.clear_row(0);
    assert_eq!(g.tile(0, 0), Some(Tile::new(0, 0)));
    assert_eq!(g.tile(0, 1), Some(Tile::new(0, 1)));
    assert_eq!(g.tile(1, 0), Some(brick(1, 0)));
}

#[test]
fn clearing_several_rows_in_ascending_order_compacts_the_rest() {
    let mut g = Grid::blank(2, 6);
    g.add_tile(brick(1, 0));
    for r in [2usize, 4, 5] {
        g.add_tile(brick(r, 0));
        g.add_tile(brick(r, 1));
    }
    g.add_tile(brick(3, 1));
    let rows = g.full_rows();
    assert_eq!(rows, vec![2, 4, 5]);
    g.clear_rows(rows);
    assert_eq!(g.full_rows(), Vec::<usize>::new());
    for r in 0..4 {
        assert_eq!(g.tile(r, 0), Some(Tile::new(r, 0)));
        assert_eq!(g.tile(r, 1), Some(Tile::new(r, 1)));
    }
    assert_eq!(g.tile(4, 0), Some(brick(4, 0)));
    assert_eq!(g.tile(4, 1), Some(Tile::new(4, 1)));
    assert_eq!(g.tile(5, 0), Some(Tile::new(5, 0)));
    assert_eq!(g.tile(5, 1), Some(brick(5, 1)));
}

#[test]
fn tile_new_default_and_advance() {
    let t = Tile::new(3, 4);
    assert!(t.empty);
    assert_eq!(t.color, RGB { r: 47, g: 79, b: 79 });
    assert_eq!(t.utf8, [0xE2, 0x96, 0xA0, 0x20]);
    assert_eq!((t.row, t.column), (3, 4));
    assert_eq!(Tile::default(), Tile::new(0, 0));
    let mut u = brick(7, 2);
    u.advance();
    assert_eq!(u, brick(8, 2));
}
