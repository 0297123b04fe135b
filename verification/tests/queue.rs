use grid::tetris::queue::Queue;
use grid::tetris::tetrad::{Shape, Tetrad};

fn count_of(shapes: &[Shape], shape: Shape) -> usize {
    shapes.iter().filter(|s| **s == shape).count()
}

fn seven() -> Vec<Shape> {
    vec![Shape::I, Shape::O, Shape::T, Shape::S, Shape::Z, Shape::J, Shape::L]
}

#[test]
fn shuffled_seven_holds_each_shape_once() {
    for _ in 0..50 {
        let bag = Queue::new_shuffled_seven();
        assert_eq!(bag.len(), 7);
        for shape in seven() {
            assert_eq!(count_of(&bag, shape), 1);
        }
    }
}

#[test]
fn shuffled_seven_changes_the_order() {
    let mut moved = false;
    for _ in 0..100 {
        if Queue::new_shuffled_seven() != seven() {
            moved = true;
        }
    }
    assert!(moved);
}

#[test]
fn new_queue_holds_one_bag() {
    let q = Queue::new();
    assert_eq!(q.len(), 7);
    let shapes: Vec<Shape> = (0..7).map(|k| q.peek(k).unwrap()).collect();
    for shape in seven() {
        assert_eq!(count_of(&shapes, shape), 1);
    }
    assert_eq!(q.peek(7), None);
}

#[test]
fn default_queue_is_empty_and_fills_on_the_first_draw() {
    let mut q = Queue::default();
    assert_eq!(q.len(), 0);
    assert_eq!(q.peek(0), None);
    let t = q.next_tetrad();
    assert_eq!(t, Tetrad::new(t.shape));
    assert_eq!(q.len(), 6);
}

#[test]
fn refill_appends_behind_and_draws_come_from_the_front() {
    let mut q = Queue::default();
    q.refill(vec![Shape::T, Shape::I, Shape::O, Shape::L, Shape::J, Shape::S, Shape::Z]);
    assert_eq!(q.len(), 7);
    assert_eq!(q.peek(0), Some(Shape::T));
    assert_eq!(q.peek(6), Some(Shape::Z));
    assert_eq!(q.next_tetrad(), Tetrad::new_t());
    assert_eq!(q.len(), 6);
    assert_eq!(q.peek(0), Some(Shape::I));
    q.refill(seven());
    assert_eq!(q.len(), 13);
    assert_eq!(q.peek(5), Some(Shape::Z));
    assert_eq!(q.peek(6), Some(Shape::I));
    assert_eq!(q.peek(12), Some(Shape::L));
    assert_eq!(q.take(), Tetrad::new_i());
    assert_eq!(q.take(), Tetrad::new_o());
    assert_eq!(q.len(), 11);
}

#[test]
fn draws_refill_when_fewer_than_seven_are_queued() {
    let mut q = Queue::default();
    q.refill(seven());
    let mut drawn = Vec::new();
    drawn.push(q.next_tetrad().shape);
    assert_eq!(q.len(), 6);
    drawn.push(q.next_tetrad().shape);
    assert_eq!(q.len(), 12);
    for _ in 0..5 {
        drawn.push(q.next_tetrad().shape);
    }
    assert_eq!(drawn, seven());
    assert_eq!(q.len(), 7);
    q.next_tetrad();
    assert_eq!(q.len(), 6);
    q.next_tetrad();
    assert_eq!(q.len(), 12);
}

#[test]
fn every_fourteen_draws_from_a_boundary_hold_each_shape_twice() {
    let mut q = Queue::new();
    let mut drawn = Vec::new();
    for _ in 0..70 {
        let t = q.next_tetrad();
        assert_eq!(t, Tetrad::new(t.shape));
        drawn.push(t.shape);
        assert!(q.len() >= 6);
    }
    for j in 0..9 {
        for shape in seven() {
            assert_eq!(count_of(&drawn[7 * j..7 * j + 7], shape), 1);
        }
    }
    for j in 0..8 {
        for shape in seven() {
            assert_eq!(count_of(&drawn[7 * j..7 * j + 14], shape), 2);
        }
    }
}

#[test]
fn thirteen_draws_across_one_boundary_hold_no_shape_three_times() {
    let mut q = Queue::new();
    let drawn: Vec<Shape> = (0..42).map(|_| q.next_tetrad().shape).collect();
    for j in 0..4 {
        for start in [7 * j, 7 * j + 1] {
            for shape in seven() {
                assert!(count_of(&drawn[start..start + 13], shape) <= 2);
            }
        }
    }
}

#[test]
fn the_same_shape_recurs_within_thirteen_draws() {
    let mut q = Queue::new();
    let drawn: Vec<Shape> = (0..70).map(|_| q.next_tetrad().shape).collect();
    for (k, shape) in drawn.iter().enumerate().take(56) {
        let next = drawn[k + 1..].iter().position(|s| s == shape).unwrap();
        assert!(next + 1 <= 13);
    }
}
