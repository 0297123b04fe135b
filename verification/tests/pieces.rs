use grid::grid::rgb::RGB;
use grid::tetris::tetrad::{Motion, Shape, Tetrad, Turn};
use grid::tetris::tile::OUTLINED_SQUARE;

fn cells_of(t: &Tetrad) -> Vec<(usize, usize)> {
    t.tiles.iter().map(|tile| (tile.row, tile.column)).collect()
}

fn all_shapes() -> Vec<Shape> {
    vec![Shape::I, Shape::O, Shape::T, Shape::S, Shape::Z, Shape::J, Shape::L]
}

#[test]
fn new_pieces_have_their_cells_centers_and_colors() {
    let i = Tetrad::new_i();
    assert_eq!(cells_of(&i), vec![(1, 3), (1, 4), (1, 5), (1, 6)]);
    assert_eq!(i.center, (0, 10));
    assert_eq!(i.tiles[0].color, RGB { r: 102, g: 255, b: 255 });
    let o = Tetrad::new_o();
    assert_eq!(cells_of(&o), vec![(0, 4), (1, 4), (1, 5), (0, 5)]);
    assert_eq!(o.center, (1, 9));
    assert_eq!(o.tiles[0].color, RGB { r: 255, g: 255, b: 102 });
    let t = Tetrad::new_t();
    assert_eq!(cells_of(&t), vec![(1, 3), (1, 4), (1, 5), (0, 4)]);
    assert_eq!(t.center, (2, 8));
    assert_eq!(t.tiles[0].color, RGB { r: 178, g: 102, b: 255 });
    let s = Tetrad::new_s();
    assert_eq!(cells_of(&s), vec![(1, 5), (1, 6), (0, 5), (0, 4)]);
    assert_eq!(s.center, (0, 10));
    assert_eq!(s.tiles[0].color, RGB { r: 102, g: 255, b: 102 });
    let z = Tetrad::new_z();
    assert_eq!(cells_of(&z), vec![(0, 4), (0, 5), (1, 3), (1, 4)]);
    assert_eq!(z.center, (0, 8));
    assert_eq!(z.tiles[0].color, RGB { r: 255, g: 0, b: 0 });
    let j = Tetrad::new_j();
    assert_eq!(cells_of(&j), vec![(0, 3), (1, 4), (1, 5), (1, 3)]);
    assert_eq!(j.center, (2, 8));
    assert_eq!(j.tiles[0].color, RGB { r: 255, g: 153, b: 51 });
    let l = Tetrad::new_l();
    assert_eq!(cells_of(&l), vec![(0, 6), (1, 4), (1, 5), (1, 6)]);
    assert_eq!(l.center, (2, 10));
    assert_eq!(l.tiles[0].color, RGB { r: 0, g: 0, b: 255 });
    for shape in all_shapes() {
        let p = Tetrad::new(shape);
        assert_eq!(p.shape, shape);
        assert_eq!(p.rotation, 0);
        for tile in p.tiles.iter() {
            assert!(tile.empty);
            assert_eq!(tile.utf8, OUTLINED_SQUARE);
            assert_eq!(tile.color, p.tiles[0].color);
        }
    }
}

#[test]
fn pieces_by_shape_name_and_number() {
    assert_eq!(Tetrad::new(Shape::I), Tetrad::new_i());
    assert_eq!(Tetrad::new(Shape::O), Tetrad::new_o());
    assert_eq!(Tetrad::new(Shape::T), Tetrad::new_t());
    assert_eq!(Tetrad::new(Shape::S), Tetrad::new_s());
    assert_eq!(Tetrad::new(Shape::Z), Tetrad::new_z());
    assert_eq!(Tetrad::new(Shape::J), Tetrad::new_j());
    assert_eq!(Tetrad::new(Shape::L), Tetrad::new_l());
    assert_eq!(Tetrad::new_by_name("I"), Tetrad::new_i());
    assert_eq!(Tetrad::new_by_name("O"), Tetrad::new_o());
    assert_eq!(Tetrad::new_by_name("T"), Tetrad::new_t());
    assert_eq!(Tetrad::new_by_name("S"), Tetrad::new_s());
    assert_eq!(Tetrad::new_by_name("Z"), Tetrad::new_z());
    assert_eq!(Tetrad::new_by_name("J"), Tetrad::new_j());
    assert_eq!(Tetrad::new_by_name("L"), Tetrad::new_l());
    assert_eq!(Tetrad::new_by_name("Q"), Tetrad::new_l());
    assert_eq!(Tetrad::new_by_name(""), Tetrad::new_l());
    assert_eq!(Tetrad::new_by_name("IO"), Tetrad::new_l());
    assert_eq!(Tetrad::new_by_name("\u{25A0}"), Tetrad::new_l());
    assert_eq!(Tetrad::from_index(0), Tetrad::new_i());
    assert_eq!(Tetrad::from_index(1), Tetrad::new_o());
    assert_eq!(Tetrad::from_index(2), Tetrad::new_t());
    assert_eq!(Tetrad::from_index(3), Tetrad::new_s());
    assert_eq!(Tetrad::from_index(4), Tetrad::new_z());
    assert_eq!(Tetrad::from_index(5), Tetrad::new_j());
    assert_eq!(Tetrad::from_index(6), Tetrad::new_l());
    assert_eq!(Tetrad::from_index(7), Tetrad::new_l());
    assert_eq!(Tetrad::from_index(255), Tetrad::new_l());
}

#[test]
fn names_are_single_letters() {
    let letters = ["I", "O", "T", "S", "Z", "J", "L"];
    for (shape, letter) in all_shapes().into_iter().zip(letters.iter()) {
        assert_eq!(shape.name(), letter.to_string());
        assert_eq!(Tetrad::new(shape).name(), letter.to_string());
        assert_eq!(Tetrad::new_by_name(&shape.name()), Tetrad::new(shape));
    }
}

#[test]
fn random_piece_is_one_of_the_seven_and_varies() {
    let mut seen = Vec::new();
    for _ in 0..300 {
        let t = Tetrad::new_random();
        assert_eq!(t, Tetrad::new(t.shape));
        if !seen.contains(&t.shape) {
            seen.push(t.shape);
        }
    }
    assert!(seen.len() > 1);
}

#[test]
fn random_color_stays_under_full_saturation_and_varies() {
    let first = RGB::new_random();
    let mut varied = false;
    for _ in 0..200 {
        let c = RGB::new_random();
        assert!(c.r < 255 && c.g < 255 && c.b < 255);
        if c != first {
            varied = true;
        }
    }
    assert!(varied);
}

#[test]
fn translation_moves_cells_and_center_together() {
    let t = Tetrad::new_t();
    let d = t.translated(3, -2).unwrap();
    assert_eq!(cells_of(&d), vec![(4, 1), (4, 2), (4, 3), (3, 2)]);
    assert_eq!(d.center, (8, 4));
    assert_eq!(d.shape, Shape::T);
    assert_eq!(d.rotation, 0);
    assert_eq!(d.translated(-3, 2), Some(t));
    assert_eq!(t.moved(Motion::Left), t.translated(0, -1));
    assert_eq!(t.moved(Motion::Right), t.translated(0, 1));
    assert_eq!(t.moved(Motion::Down), t.translated(1, 0));
}

#[test]
fn translation_into_negative_coordinates_is_refused() {
    let t = Tetrad::new_t();
    assert_eq!(t.translated(0, -3).map(|p| cells_of(&p)), Some(vec![(1, 0), (1, 1), (1, 2), (0, 1)]));
    assert_eq!(t.translated(0, -4), None);
    assert_eq!(t.translated(-1, 0), None);
    assert_eq!(t.translated(i64::MIN, 0), None);
    assert!(t.translated(i64::MAX, i64::MAX).is_some() || usize::MAX < u64::MAX as usize);
}

#[test]
fn quarter_turns_of_the_t_piece() {
    let t = Tetrad::new_t().translated(5, 0).unwrap();
    assert_eq!(cells_of(&t), vec![(6, 3), (6, 4), (6, 5), (5, 4)]);
    let left = t.rotated(Turn::Left).unwrap();
    assert_eq!(cells_of(&left), vec![(7, 4), (6, 4), (5, 4), (6, 3)]);
    assert_eq!(left.center, t.center);
    assert_eq!(left.rotation, 1);
    let right = t.rotated(Turn::Right).unwrap();
    assert_eq!(cells_of(&right), vec![(5, 4), (6, 4), (7, 4), (6, 5)]);
    assert_eq!(right.rotation, 3);
    assert_eq!(left.rotated(Turn::Right), Some(t));
    assert_eq!(right.rotated(Turn::Left), Some(t));
    assert_eq!(t.moved(Motion::TurnLeft), Some(left));
    assert_eq!(t.moved(Motion::TurnRight), Some(right));
}

#[test]
fn the_o_piece_turns_about_a_corner_onto_itself() {
    let o = Tetrad::new_o();
    let turned = o.rotated(Turn::Left).unwrap();
    assert_eq!(cells_of(&turned), vec![(1, 4), (1, 5), (0, 5), (0, 4)]);
    let mut cells = cells_of(&turned);
    cells.sort();
    let mut home = cells_of(&o);
    home.sort();
    assert_eq!(cells, home);
}

#[test]
fn a_turn_into_negative_coordinates_is_refused() {
    let i = Tetrad::new_i();
    assert_eq!(i.rotated(Turn::Left), None);
    assert_eq!(i.rotated(Turn::Right), None);
    let lower = i.translated(2, 0).unwrap();
    assert_eq!(
        lower.rotated(Turn::Right).map(|p| cells_of(&p)),
        Some(vec![(0, 4), (1, 4), (2, 4), (3, 4)])
    );
}

#[test]
fn four_turns_restore_every_piece() {
    for shape in all_shapes() {
        for turn in [Turn::Left, Turn::Right] {
            let start = Tetrad::new(shape).translated(6, 2).unwrap();
            let mut p = start;
            for k in 1..=4u8 {
                p = p.rotated(turn).unwrap();
                if k < 4 {
                    assert_ne!(p.rotation, 0);
                }
            }
            assert_eq!(p, start);
        }
    }
}

#[test]
fn turns_keep_four_distinct_cells() {
    for shape in all_shapes() {
        let mut p = Tetrad::new(shape).translated(6, 2).unwrap();
        for _ in 0..4 {
            p = p.rotated(Turn::Left).unwrap();
            let mut cells = cells_of(&p);
            cells.sort();
            cells.dedup();
            assert_eq!(cells.len(), 4);
        }
    }
}

#[test]
fn outline_and_fill_change_only_their_mark() {
    let t = Tetrad::new_s();
    let hollow = t.outline();
    let solid = t.fill();
    for k in 0..4 {
        assert_eq!(hollow.tiles[k].utf8, [0xE2, 0x96, 0xA1, 0x20]);
        assert!(hollow.tiles[k].empty);
        assert_eq!((hollow.tiles[k].row, hollow.tiles[k].column), (t.tiles[k].row, t.tiles[k].column));
        assert_eq!(hollow.tiles[k].color, t.tiles[k].color);
        assert!(!solid.tiles[k].empty);
        assert_eq!(solid.tiles[k].utf8, OUTLINED_SQUARE);
        assert_eq!((solid.tiles[k].row, solid.tiles[k].column), (t.tiles[k].row, t.tiles[k].column));
    }
    assert_eq!(hollow.center, t.center);
    assert_eq!(solid.center, t.center);
}
