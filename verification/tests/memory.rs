use tile_agents::grid::Grid;
use tile_agents::kind::EntityKind;
use tile_agents::kind::Tag;
use tile_agents::knowledge::has_tile;
use tile_agents::knowledge::SpatialKnowledge;

fn sorted_tiles(mut tiles: Vec<Grid>) -> Vec<Grid> {
    tiles.sort();
    tiles
}

fn sorted_ids(mut ids: Vec<u64>) -> Vec<u64> {
    ids.sort();
    ids
}

fn occupants(sk: &SpatialKnowledge, x: i32, y: i32) -> Option<Vec<u64>> {
    sk.tile(&Grid::new(x, y)).map(sorted_ids)
}

fn ring_of(tile: Grid) -> [Grid; 8] {
    [tile; 8]
}

/// Every occupant listed on a tile is an entity that can be deleted from
/// exactly that tile, and no tile is listed without an occupant.
fn indexes_agree(sk: &SpatialKnowledge) -> bool {
    for tile in sk.get_occupied() {
        match sk.tile(&tile) {
            Some(ids) => {
                if ids.is_empty() {
                    return false;
                }
            }
            None => return false,
        }
    }
    true
}

#[test]
fn a_new_memory_is_empty() {
    let sk = SpatialKnowledge::new();
    assert!(!sk.has_seen());
    assert!(sk.get_occupied().is_empty());
    assert!(sk.details().is_empty());
    assert!(sk.temp().is_empty());
    assert_eq!(sk.tile(&Grid::new(0, 0)), None);
    assert!(!sk.queried(&7));
    assert!(!sk.known(&7));
    assert!(!sk.is_static(&7));
}

#[test]
fn report_places_an_entity_on_the_tiles_seen() {
    let mut sk = SpatialKnowledge::new();
    sk.report(&vec![(7, vec![Grid::new(1, 1), Grid::new(1, 2), Grid::new(1, 1)])]);
    assert!(sk.has_seen());
    assert_eq!(sorted_tiles(sk.get_occupied()), vec![Grid::new(1, 1), Grid::new(1, 2)]);
    assert_eq!(occupants(&sk, 1, 1), Some(vec![7]));
    assert_eq!(occupants(&sk, 1, 2), Some(vec![7]));
    assert_eq!(sk.temp(), vec![7]);
    assert!(sk.occupied(Grid::new(1, 1)));
    assert!(!sk.occupied(Grid::new(0, 0)));
}

#[test]
fn report_moves_an_entity_that_is_not_static() {
    let mut sk = SpatialKnowledge::new();
    sk.report(&vec![(7, vec![Grid::new(1, 1), Grid::new(1, 2)])]);
    sk.report(&vec![(7, vec![Grid::new(1, 2), Grid::new(1, 3)])]);
    assert_eq!(sorted_tiles(sk.get_occupied()), vec![Grid::new(1, 2), Grid::new(1, 3)]);
    assert_eq!(sk.tile(&Grid::new(1, 1)), None);
    assert!(indexes_agree(&sk));
}

#[test]
fn report_keeps_a_shared_tile_for_the_entity_that_stays() {
    let mut sk = SpatialKnowledge::new();
    sk.report(&vec![(1, vec![Grid::new(0, 0)]), (2, vec![Grid::new(0, 0)])]);
    assert_eq!(occupants(&sk, 0, 0), Some(vec![1, 2]));
    sk.report(&vec![(1, vec![Grid::new(5, 5)])]);
    assert_eq!(occupants(&sk, 0, 0), Some(vec![2]));
    assert_eq!(occupants(&sk, 5, 5), Some(vec![1]));
    assert!(indexes_agree(&sk));
}

#[test]
fn report_twice_is_report_once() {
    let sightings = vec![
        (1, vec![Grid::new(0, 0), Grid::new(0, 1)]),
        (2, vec![Grid::new(0, 1)]),
        (3, vec![Grid::new(-4, 9)]),
    ];
    let mut once = SpatialKnowledge::new();
    once.report(&vec![(1, vec![Grid::new(8, 8)]), (2, vec![Grid::new(0, 0)])]);
    once.obtains_info_about(3, EntityKind::Base, Grid::new(-4, 8), ring_of(Grid::new(-4, 8)));
    let mut twice = SpatialKnowledge::new();
    twice.report(&vec![(1, vec![Grid::new(8, 8)]), (2, vec![Grid::new(0, 0)])]);
    twice.obtains_info_about(3, EntityKind::Base, Grid::new(-4, 8), ring_of(Grid::new(-4, 8)));
    once.report(&sightings);
    twice.report(&sightings);
    twice.report(&sightings);
    assert_eq!(sorted_tiles(once.get_occupied()), sorted_tiles(twice.get_occupied()));
    for tile in once.get_occupied() {
        assert_eq!(once.tile(&tile).map(sorted_ids), twice.tile(&tile).map(sorted_ids));
    }
    assert_eq!(sorted_ids(once.temp()), sorted_ids(twice.temp()));
    assert_eq!(sorted_ids(once.details()), sorted_ids(twice.details()));
    assert_eq!(
        sorted_tiles(once.get_occupied()),
        vec![Grid::new(-4, 8), Grid::new(-4, 9), Grid::new(0, 0), Grid::new(0, 1)]
    );
    assert_eq!(sorted_ids(once.temp()), vec![1, 2]);
}

#[test]
fn a_static_entity_only_gains_tiles() {
    let mut sk = SpatialKnowledge::new();
    sk.obtains_info_about(9, EntityKind::Base, Grid::new(0, 0), ring_of(Grid::new(0, 0)));
    assert!(sk.is_static(&9));
    sk.report(&vec![(9, vec![Grid::new(1, 0)])]);
    assert_eq!(sorted_tiles(sk.get_occupied()), vec![Grid::new(0, 0), Grid::new(1, 0)]);
    sk.report(&vec![(9, vec![Grid::new(2, 0)])]);
    assert_eq!(
        sorted_tiles(sk.get_occupied()),
        vec![Grid::new(0, 0), Grid::new(1, 0), Grid::new(2, 0)]
    );
    sk.report(&vec![(9, vec![])]);
    assert_eq!(sk.get_occupied().len(), 3);
    assert!(sk.temp().is_empty());
    assert!(indexes_agree(&sk));
}

#[test]
fn an_agent_is_known_but_not_static() {
    let mut sk = SpatialKnowledge::new();
    sk.obtains_info_about(4, EntityKind::Agent, Grid::new(0, 0), ring_of(Grid::new(0, 0)));
    assert!(sk.known(&4));
    assert!(!sk.is_static(&4));
    sk.report(&vec![(4, vec![Grid::new(6, 6)])]);
    assert_eq!(sk.get_occupied(), vec![Grid::new(6, 6)]);
    assert!(sk.temp().is_empty());
}

#[test]
fn an_unknown_kind_is_identified_but_not_known() {
    let mut sk = SpatialKnowledge::new();
    sk.obtains_info_about(4, EntityKind::Unknown, Grid::new(0, 0), ring_of(Grid::new(0, 0)));
    assert!(sk.queried(&4));
    assert!(!sk.known(&4));
    assert!(!sk.is_static(&4));
    assert_eq!(sk.details(), vec![4]);
    sk.report(&vec![(4, vec![Grid::new(1, 0)])]);
    assert_eq!(sk.temp(), vec![4]);
}

#[test]
fn full_report_marks_one_to_nine_tiles() {
    let mut sk = SpatialKnowledge::new();
    let center = Grid::new(3, 0);
    sk.full_report(5, center, ring_of(center));
    assert_eq!(sk.get_occupied(), vec![center]);

    let compass = [
        Grid::new(4, 0),
        Grid::new(4, 1),
        Grid::new(3, 1),
        Grid::new(2, 1),
        Grid::new(2, 0),
        Grid::new(2, -1),
        Grid::new(3, -1),
        Grid::new(4, -1),
    ];
    sk.full_report(5, center, compass);
    let tiles = sk.get_occupied();
    assert_eq!(tiles.len(), 9);
    assert!(has_tile(&tiles, center));
    for tile in compass {
        assert_eq!(sk.tile(&tile), Some(vec![5]));
    }

    let partly = [
        Grid::new(4, 0),
        Grid::new(3, 0),
        Grid::new(3, 1),
        Grid::new(3, 0),
        Grid::new(3, 0),
        Grid::new(3, 0),
        Grid::new(3, -1),
        Grid::new(3, 0),
    ];
    sk.full_report(5, center, partly);
    assert_eq!(
        sorted_tiles(sk.get_occupied()),
        vec![Grid::new(3, -1), Grid::new(3, 0), Grid::new(3, 1), Grid::new(4, 0)]
    );
    assert!(indexes_agree(&sk));
}

#[test]
fn full_report_leaves_no_stale_tile() {
    let mut sk = SpatialKnowledge::new();
    sk.report(&vec![(5, vec![Grid::new(9, 9)]), (6, vec![Grid::new(9, 9)])]);
    sk.full_report(5, Grid::new(0, 0), ring_of(Grid::new(0, 0)));
    assert_eq!(occupants(&sk, 9, 9), Some(vec![6]));
    assert_eq!(occupants(&sk, 0, 0), Some(vec![5]));
    sk.full_report(6, Grid::new(0, 0), ring_of(Grid::new(0, 0)));
    assert_eq!(sk.tile(&Grid::new(9, 9)), None);
    assert_eq!(occupants(&sk, 0, 0), Some(vec![5, 6]));
}

#[test]
fn delete_entity_clears_its_tiles() {
    let mut sk = SpatialKnowledge::new();
    sk.report(&vec![
        (1, vec![Grid::new(0, 0), Grid::new(0, 1)]),
        (2, vec![Grid::new(0, 1), Grid::new(0, 2)]),
    ]);
    sk.delete_entity(&1);
    assert_eq!(sorted_tiles(sk.get_occupied()), vec![Grid::new(0, 1), Grid::new(0, 2)]);
    assert_eq!(occupants(&sk, 0, 1), Some(vec![2]));
    assert!(sk.has_seen());
    sk.delete_entity(&1);
    sk.delete_entity(&2);
    assert!(!sk.has_seen());
    assert!(sk.get_occupied().is_empty());
    assert!(indexes_agree(&sk));
}

#[test]
fn clear_seen_forgets_what_is_provisional() {
    let mut sk = SpatialKnowledge::new();
    sk.obtains_info_about(9, EntityKind::Base, Grid::new(0, 0), ring_of(Grid::new(0, 0)));
    sk.report(&vec![(1, vec![Grid::new(0, 0), Grid::new(3, 3)]), (2, vec![Grid::new(4, 4)])]);
    assert_eq!(sorted_ids(sk.temp()), vec![1, 2]);
    sk.clear_seen();
    assert!(sk.temp().is_empty());
    assert_eq!(sk.get_occupied(), vec![Grid::new(0, 0)]);
    assert_eq!(occupants(&sk, 0, 0), Some(vec![9]));
    assert!(sk.has_seen());
    assert!(sk.is_static(&9));
}

#[test]
fn a_request_in_flight_counts_as_queried() {
    let mut sk = SpatialKnowledge::new();
    assert!(!sk.queried(&3));
    sk.query_in_progress(3);
    assert!(sk.queried(&3));
    assert!(sk.details().is_empty());
    assert!(!sk.known(&3));
}

#[test]
fn an_answer_ends_the_request_and_the_provisional_state() {
    let mut sk = SpatialKnowledge::new();
    sk.report(&vec![(3, vec![Grid::new(1, 1)])]);
    sk.query_in_progress(3);
    assert_eq!(sk.temp(), vec![3]);
    sk.obtains_info_about(3, EntityKind::Base, Grid::new(1, 1), ring_of(Grid::new(1, 1)));
    assert!(sk.temp().is_empty());
    assert!(sk.queried(&3));
    assert!(sk.is_static(&3));
    assert_eq!(sk.details(), vec![3]);
    sk.clear_seen();
    assert_eq!(sk.get_occupied(), vec![Grid::new(1, 1)]);
}

#[test]
fn an_answer_about_an_agent_leaves_it_provisional() {
    let mut sk = SpatialKnowledge::new();
    sk.report(&vec![(3, vec![Grid::new(1, 1)])]);
    sk.obtains_info_about(3, EntityKind::Agent, Grid::new(1, 1), ring_of(Grid::new(1, 1)));
    assert_eq!(sk.temp(), vec![3]);
    sk.clear_seen();
    assert!(sk.get_occupied().is_empty());
    assert!(sk.known(&3));
}

#[test]
fn has_tile_finds_what_is_there() {
    let tiles = vec![Grid::new(0, 0), Grid::new(2, 5)];
    assert!(has_tile(&tiles, Grid::new(2, 5)));
    assert!(!has_tile(&tiles, Grid::new(5, 2)));
    assert!(!has_tile(&Vec::new(), Grid::new(0, 0)));
}

#[test]
fn tags_carry_their_kind() {
    assert_eq!(Tag::new(EntityKind::Unknown).kind, EntityKind::Unknown);
    assert_eq!(Tag::agent().kind, EntityKind::Agent);
    assert_eq!(Tag::base().kind, EntityKind::Base);
}

#[test]
fn report_twice_is_report_once_with_repeated_entities() {
    let sightings = vec![
        (1, vec![Grid::new(0, 0)]),
        (9, vec![Grid::new(5, 5)]),
        (1, vec![Grid::new(0, 1), Grid::new(0, 2)]),
        (9, vec![Grid::new(5, 6)]),
    ];
    let mut once = SpatialKnowledge::new();
    once.obtains_info_about(9, EntityKind::Base, Grid::new(5, 4), ring_of(Grid::new(5, 4)));
    let mut twice = SpatialKnowledge::new();
    twice.obtains_info_about(9, EntityKind::Base, Grid::new(5, 4), ring_of(Grid::new(5, 4)));
    once.report(&sightings);
    twice.report(&sightings);
    twice.report(&sightings);
    assert_eq!(sorted_tiles(once.get_occupied()), sorted_tiles(twice.get_occupied()));
    assert_eq!(
        sorted_tiles(once.get_occupied()),
        vec![
            Grid::new(0, 1),
            Grid::new(0, 2),
            Grid::new(5, 4),
            Grid::new(5, 5),
            Grid::new(5, 6)
        ]
    );
    for tile in once.get_occupied() {
        assert_eq!(once.tile(&tile).map(sorted_ids), twice.tile(&tile).map(sorted_ids));
    }
    assert_eq!(sorted_ids(once.temp()), sorted_ids(twice.temp()));
    assert_eq!(once.temp(), vec![1]);
}
