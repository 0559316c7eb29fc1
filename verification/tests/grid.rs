use tile_agents::grid::i32_neighbors;
use tile_agents::grid::i32_neighbors_pair_shuffled;
use tile_agents::grid::Grid;
use tile_agents::score::AStar;

#[test]
fn test_distance() {
    let origin = Grid::new(0, 0);
    let up = Grid::new(0, 1);
    let right = Grid::new(1, 0);
    let diag = Grid::new(1, 1);
    let diag2 = Grid::new(2, 2);

    let custom1 = Grid::new(1, 2);

    assert_eq!(origin.distance(up), 10);
    assert_eq!(origin.distance(right), 10);
    assert_eq!(origin.distance(diag), 14);
    assert_eq!(origin.distance(diag2), 28);

    assert_eq!(up.distance(right), 14);
    assert_eq!(up.distance(diag), 10);

    assert_eq!(right.distance(diag), 10);

    assert_eq!(origin.distance(custom1), 24);
}

#[test]
fn distance_is_symmetric_and_zero_on_itself() {
    let a = Grid::new(-7, 3);
    let b = Grid::new(5, -4);
    assert_eq!(a.distance(b), b.distance(a));
    assert_eq!(a.distance(b), 14 * 7 + 10 * 5);
    assert_eq!(a.distance(a), 0);
}

#[test]
fn distance_spans_the_whole_coordinate_range() {
    let low = Grid::new(i32::MIN, i32::MIN);
    let high = Grid::new(i32::MAX, i32::MAX);
    assert_eq!(low.distance(high), 14 * 4_294_967_295i64);
    let corner = Grid::new(i32::MAX, i32::MIN);
    assert_eq!(low.distance(corner), 10 * 4_294_967_295i64);
}

#[test]
fn single_steps() {
    let g = Grid::new(4, -2);
    assert_eq!(g.left(), Grid::new(3, -2));
    assert_eq!(g.right(), Grid::new(5, -2));
    assert_eq!(g.up(), Grid::new(4, -1));
    assert_eq!(g.down(), Grid::new(4, -3));
    assert_eq!(g.q1(), Grid::new(5, -1));
    assert_eq!(g.q2(), Grid::new(3, -1));
    assert_eq!(g.q3(), Grid::new(3, -3));
    assert_eq!(g.q4(), Grid::new(5, -3));
}

#[test]
fn neighbors_come_orthogonal_first() {
    let g = Grid::new(0, 0);
    assert_eq!(
        g.neighbors(),
        vec![
            Grid::new(-1, 0),
            Grid::new(1, 0),
            Grid::new(0, 1),
            Grid::new(0, -1),
            Grid::new(1, 1),
            Grid::new(-1, 1),
            Grid::new(-1, -1),
            Grid::new(1, -1),
        ]
    );
}

#[test]
fn neighbors_by_cost_split_ten_and_fourteen() {
    let g = Grid::new(2, 2);
    let (ten, fourteen) = g.neighbors_by_cost();
    assert_eq!(ten, vec![Grid::new(1, 2), Grid::new(3, 2), Grid::new(2, 3), Grid::new(2, 1)]);
    assert_eq!(fourteen, vec![Grid::new(3, 3), Grid::new(1, 3), Grid::new(1, 1), Grid::new(3, 1)]);
    for n in ten {
        assert_eq!(g.distance(n), 10);
    }
    for n in fourteen {
        assert_eq!(g.distance(n), 14);
    }
}

#[test]
fn random_neighbors_are_the_same_eight() {
    let g = Grid::new(10, -10);
    let mut mixed = g.random_neighbors();
    let mut plain = g.neighbors();
    mixed.sort();
    plain.sort();
    assert_eq!(mixed, plain);
}

#[test]
fn random_neighbors_do_change_order() {
    let g = Grid::new(0, 0);
    let plain = g.neighbors();
    let mut moved = false;
    for _ in 0..200 {
        if g.random_neighbors() != plain {
            moved = true;
        }
    }
    assert!(moved);
}

#[test]
fn plain_pair_neighbors() {
    assert_eq!(i32_neighbors((3, 4)), vec![(4, 4), (2, 4), (3, 5), (3, 3)]);
}

#[test]
fn shuffled_pair_neighbors_are_the_same_four() {
    let mut mixed = i32_neighbors_pair_shuffled((0, 0));
    mixed.sort();
    assert_eq!(mixed, vec![(-1, 0), (0, -1), (0, 1), (1, 0)]);
}

#[test]
fn score_is_the_sum_of_its_parts() {
    let s = AStar::new(14, 90);
    assert_eq!(s.origin_score, 14);
    assert_eq!(s.target_score, 90);
    assert_eq!(s.score, 104);
}

#[test]
fn score_of_a_step() {
    let s = AStar::calc(0, Grid::new(0, 0), Grid::new(2, 1), Grid::new(0, 1));
    assert_eq!((s.origin_score, s.target_score, s.score), (10, 20, 30));
    let t = AStar::calc(0, Grid::new(0, 0), Grid::new(2, 1), Grid::new(1, 1));
    assert_eq!((t.origin_score, t.target_score, t.score), (14, 10, 24));
    let u = AStar::calc(5, Grid::new(0, 0), Grid::new(2, 1), Grid::new(1, 1));
    assert_eq!((u.origin_score, u.target_score, u.score), (19, 10, 29));
}

#[test]
fn scores_order_by_total_then_origin_then_target() {
    let low = AStar { origin_score: 14, target_score: 10, score: 24 };
    let high = AStar { origin_score: 10, target_score: 20, score: 30 };
    assert!(low.precedes(&high));
    assert!(!high.precedes(&low));
    let a = AStar { origin_score: 10, target_score: 14, score: 24 };
    assert!(a.precedes(&low));
    assert!(!low.precedes(&a));
    let b = AStar { origin_score: 10, target_score: 15, score: 24 };
    assert!(a.precedes(&b));
    assert!(!b.precedes(&a));
    assert!(!a.precedes(&a));
}
