use tile_agents::grid::Grid;
use tile_agents::knowledge::SpatialKnowledge;
use tile_agents::route::can_search;
use tile_agents::route::reversed;

fn tiles(points: &[(i32, i32)]) -> Vec<Grid> {
    points.iter().map(|p| Grid::new(p.0, p.1)).collect()
}

#[test]
fn test_path() {
    let mut sk = SpatialKnowledge::new();
    let placeholder = u64::from(u32::MAX);
    let compass = [
        Grid::new(4, 0),
        Grid::new(3, 0),
        Grid::new(3, 1),
        Grid::new(3, 0),
        Grid::new(3, 0),
        Grid::new(3, 0),
        Grid::new(3, -1),
        Grid::new(3, 0),
    ];
    sk.full_report(placeholder, Grid::new(3, 0), compass);
    let path = sk.path(Grid::new(0, 0), Grid::new(10, 0));
    assert_eq!(
        path,
        (
            tiles(&[
                (0, 0),
                (1, 0),
                (2, 0),
                (2, 1),
                (3, 2),
                (4, 2),
                (5, 2),
                (6, 2),
                (7, 2),
                (8, 2),
                (9, 1),
                (10, 0)
            ]),
            true
        )
    );
}

#[test]
fn an_empty_grid_gives_the_straight_route() {
    let sk = SpatialKnowledge::new();
    let (route, obstruction) = sk.path(Grid::new(0, 0), Grid::new(10, 0));
    assert!(!route.is_empty());
    assert_eq!(route.last(), Some(&Grid::new(10, 0)));
    assert!(!obstruction);
    assert_eq!(
        route,
        tiles(&[
            (0, 0),
            (1, 0),
            (2, 0),
            (3, 0),
            (4, 0),
            (5, 0),
            (6, 0),
            (7, 0),
            (8, 0),
            (9, 0),
            (10, 0)
        ])
    );
}

#[test]
fn an_occupied_tile_in_between_is_avoided() {
    let mut sk = SpatialKnowledge::new();
    sk.report(&vec![(1, vec![Grid::new(5, 0)])]);
    let (route, obstruction) = sk.path(Grid::new(0, 0), Grid::new(10, 0));
    assert!(obstruction);
    assert!(!route.contains(&Grid::new(5, 0)));
    assert_eq!(
        route,
        tiles(&[
            (0, 0),
            (1, 0),
            (2, 0),
            (3, 0),
            (4, 0),
            (5, 1),
            (6, 1),
            (7, 1),
            (8, 1),
            (9, 1),
            (10, 0)
        ])
    );
}

#[test]
fn a_diagonal_route_steps_diagonally() {
    let sk = SpatialKnowledge::new();
    let (route, obstruction) = sk.path(Grid::new(0, 0), Grid::new(3, 4));
    assert_eq!(route, tiles(&[(0, 0), (0, 1), (1, 2), (2, 3), (3, 4)]));
    assert!(!obstruction);
}

#[test]
fn a_short_detour() {
    let mut sk = SpatialKnowledge::new();
    sk.report(&vec![(1, vec![Grid::new(1, 0)])]);
    assert_eq!(
        sk.path(Grid::new(0, 0), Grid::new(2, 0)),
        (tiles(&[(0, 0), (1, 1), (2, 0)]), true)
    );
}

#[test]
fn standing_on_the_goal_is_a_route_of_one_tile() {
    let mut sk = SpatialKnowledge::new();
    sk.report(&vec![(1, vec![Grid::new(2, 4)])]);
    assert_eq!(sk.path(Grid::new(2, 3), Grid::new(2, 3)), (tiles(&[(2, 3)]), false));
}

#[test]
fn a_walled_in_start_gives_no_route_and_no_flag() {
    let mut sk = SpatialKnowledge::new();
    sk.report(&vec![(
        1,
        tiles(&[(1, 0), (1, 1), (1, -1), (0, 1), (0, -1), (-1, 0), (-1, 1), (-1, -1)]),
    )]);
    assert_eq!(sk.path(Grid::new(0, 0), Grid::new(3, 0)), (Vec::new(), false));
}

#[test]
fn an_occupied_goal_gives_no_route() {
    let mut sk = SpatialKnowledge::new();
    sk.report(&vec![(1, vec![Grid::new(2, 0)])]);
    assert_eq!(sk.path(Grid::new(0, 0), Grid::new(2, 0)), (Vec::new(), false));
}

#[test]
fn each_step_of_a_route_goes_to_a_free_neighbour() {
    let mut sk = SpatialKnowledge::new();
    sk.report(&vec![
        (1, tiles(&[(2, -1), (2, 0), (2, 1)])),
        (2, tiles(&[(4, 2), (4, 3)])),
    ]);
    let (route, _) = sk.path(Grid::new(0, 0), Grid::new(6, 3));
    assert_eq!(route.first(), Some(&Grid::new(0, 0)));
    assert_eq!(route.last(), Some(&Grid::new(6, 3)));
    for pair in route.windows(2) {
        let step = pair[0].distance(pair[1]);
        assert!(step == 10 || step == 14);
        assert!(!sk.occupied(pair[1]));
    }
}

#[test]
fn searches_near_the_edge_of_the_range_are_refused() {
    assert!(can_search(Grid::new(0, 0), Grid::new(10, 0)));
    assert!(can_search(Grid::new(-1_000_000, 5), Grid::new(1_000_000, -5)));
    assert!(!can_search(Grid::new(i32::MAX, 0), Grid::new(i32::MAX - 3, 0)));
    assert!(!can_search(Grid::new(0, 0), Grid::new(i32::MAX - 1, 0)));
    assert!(can_search(Grid::new(0, i32::MAX - 1), Grid::new(0, i32::MAX - 1)));
    assert!(!can_search(Grid::new(0, i32::MAX - 2), Grid::new(0, i32::MAX - 1)));
    assert!(can_search(Grid::new(0, i32::MAX - 3), Grid::new(0, i32::MAX - 4)));
}

#[test]
fn reversed_turns_the_order_round() {
    assert_eq!(reversed(&tiles(&[(1, 1), (2, 2), (3, 3)])), tiles(&[(3, 3), (2, 2), (1, 1)]));
    assert_eq!(reversed(&Vec::new()), Vec::new());
}
