use tile_agents::events::Action;
use tile_agents::events::Goal;
use tile_agents::events::Missions;
use tile_agents::events::Movement;
use tile_agents::events::A2;
use tile_agents::events::A3;
use tile_agents::events::S1;
use tile_agents::events::S2;
use tile_agents::events::S3;
use tile_agents::grid::Grid;
use tile_agents::kind::EntityKind;
use tile_agents::kind::Tag;
use tile_agents::knowledge::SpatialKnowledge;
use tile_agents::queues::StageQueues;
use tile_agents::stages::decide;
use tile_agents::stages::detour;
use tile_agents::stages::fan;
use tile_agents::stages::handle_s1;
use tile_agents::stages::handle_s2;
use tile_agents::stages::handle_s3;
use tile_agents::stages::note_hit;
use tile_agents::stages::process_vision;
use tile_agents::stages::vision;
use tile_agents::stages::waypoint;
use tile_agents::stages::Deed;

type Pos = (f32, f32);

fn tiles(points: &[(i32, i32)]) -> Vec<Grid> {
    points.iter().map(|p| Grid::new(p.0, p.1)).collect()
}

#[test]
fn goals_start_without_a_mission() {
    let goal: Goal<Pos> = Goal::new();
    assert_eq!(goal.mission, Missions::Idle);
    let there = Goal::move_to((3.0f32, 4.5f32));
    assert_eq!(there.mission, Missions::MoveTo((3.0, 4.5)));
}

#[test]
fn hits_gather_by_entity() {
    let mut seeing: Vec<(u64, Vec<Grid>)> = Vec::new();
    note_hit(&mut seeing, 4, Grid::new(1, 1));
    note_hit(&mut seeing, 9, Grid::new(2, 2));
    note_hit(&mut seeing, 4, Grid::new(1, 2));
    note_hit(&mut seeing, 4, Grid::new(1, 1));
    assert_eq!(
        seeing,
        vec![(4, tiles(&[(1, 1), (1, 2), (1, 1)])), (9, tiles(&[(2, 2)]))]
    );
}

#[test]
fn perceive_asks_to_process_what_is_in_sight() {
    let sk = SpatialKnowledge::new();
    let seeing = vec![(4, tiles(&[(1, 1)]))];
    let event: Option<S1<Pos>> = vision(2, &seeing, &sk);
    assert_eq!(event, Some(S1 { id: 2, action: Action::ProcessVision }));
}

#[test]
fn perceive_asks_to_prune_when_nothing_is_in_sight() {
    let mut sk = SpatialKnowledge::new();
    sk.report(&vec![(4, tiles(&[(1, 1)]))]);
    let event: Option<S1<Pos>> = vision(2, &Vec::new(), &sk);
    assert_eq!(event, Some(S1 { id: 2, action: Action::PruneVision }));
}

#[test]
fn perceive_asks_nothing_of_an_empty_memory() {
    let sk = SpatialKnowledge::new();
    let event: Option<S1<Pos>> = vision(2, &Vec::new(), &sk);
    assert_eq!(event, None);
}

#[test]
fn an_obstructed_route_is_cut_short_by_two() {
    let route = tiles(&[(0, 0), (1, 1), (2, 1), (3, 0), (4, 0)]);
    assert_eq!(detour(&route, true), Some(Grid::new(2, 1)));
    assert_eq!(detour(&route, false), None);
    assert_eq!(detour(&tiles(&[(0, 0), (1, 1), (2, 0)]), true), Some(Grid::new(0, 0)));
    assert_eq!(detour(&tiles(&[(0, 0), (1, 0)]), true), None);
    assert_eq!(detour(&tiles(&[(0, 0)]), true), None);
    assert_eq!(detour(&Vec::new(), true), None);
}

#[test]
fn the_waypoint_comes_from_the_planned_route() {
    let mut sk = SpatialKnowledge::new();
    assert_eq!(waypoint(&sk, Grid::new(0, 0), Grid::new(10, 0)), None);
    sk.report(&vec![(1, tiles(&[(5, 0)]))]);
    assert_eq!(waypoint(&sk, Grid::new(0, 0), Grid::new(10, 0)), Some(Grid::new(8, 1)));
    sk.report(&vec![(2, tiles(&[(10, 0)]))]);
    assert_eq!(waypoint(&sk, Grid::new(0, 0), Grid::new(10, 0)), None);
}

#[test]
fn decide_rotates_and_moves_or_completes() {
    let dir = (0.0f32, 1.0f32);
    let pos = (7.0f32, 8.0f32);
    assert_eq!(
        decide(1, dir, pos, true, true),
        vec![
            S1 { id: 1, action: Action::M(Movement::Rotate(dir)) },
            S1 { id: 1, action: Action::M(Movement::Move(pos)) },
        ]
    );
    assert_eq!(
        decide(1, dir, pos, false, true),
        vec![S1 { id: 1, action: Action::M(Movement::Move(pos)) }]
    );
    assert_eq!(
        decide(1, dir, pos, true, false),
        vec![
            S1 { id: 1, action: Action::M(Movement::Rotate(dir)) },
            S1 { id: 1, action: Action::Done },
        ]
    );
    assert_eq!(decide(1, dir, pos, false, false), vec![S1 { id: 1, action: Action::Done }]);
}

#[test]
fn processing_vision_asks_once_about_each_new_entity() {
    let mut sk = SpatialKnowledge::new();
    sk.obtains_info_about(9, EntityKind::Base, Grid::new(0, 0), [Grid::new(0, 0); 8]);
    sk.query_in_progress(5);
    let seeing = vec![
        (4, tiles(&[(1, 1)])),
        (9, tiles(&[(0, 1)])),
        (5, tiles(&[(3, 3)])),
        (6, tiles(&[(4, 4)])),
    ];
    let asked = process_vision(&mut sk, 2, &seeing);
    assert_eq!(
        asked,
        vec![S2 { id: 2, action: A2::Tag(4) }, S2 { id: 2, action: A2::Tag(6) }]
    );
    assert!(sk.queried(&4) && sk.queried(&5) && sk.queried(&6) && sk.queried(&9));
    assert_eq!(sk.tile(&Grid::new(1, 1)), Some(vec![4]));
    assert_eq!(sk.tile(&Grid::new(0, 1)), Some(vec![9]));
    let again = process_vision(&mut sk, 2, &seeing);
    assert_eq!(again, Vec::new());
}

#[test]
fn act_drops_a_completed_mission() {
    let mut sk = SpatialKnowledge::new();
    let mut goal = Goal::move_to((1.0f32, 2.0f32));
    let deed = handle_s1(&S1 { id: 1, action: Action::Done }, &mut goal, &mut sk, &Vec::new());
    assert_eq!(deed, Deed::Nothing);
    assert_eq!(goal.mission, Missions::Idle);
}

#[test]
fn act_takes_on_a_goal() {
    let mut sk = SpatialKnowledge::new();
    let mut goal: Goal<Pos> = Goal::new();
    let wanted = Goal::move_to((1.0f32, 2.0f32));
    let deed = handle_s1(&S1 { id: 1, action: Action::G(wanted) }, &mut goal, &mut sk, &Vec::new());
    assert_eq!(deed, Deed::Nothing);
    assert_eq!(goal, wanted);
}

#[test]
fn act_hands_back_motion_and_spawning() {
    let mut sk = SpatialKnowledge::new();
    let mut goal = Goal::move_to((1.0f32, 2.0f32));
    let none = Vec::new();
    let turn = S1 { id: 1, action: Action::M(Movement::Rotate((0.5f32, 0.5f32))) };
    assert_eq!(handle_s1(&turn, &mut goal, &mut sk, &none), Deed::Rotate((0.5, 0.5)));
    let walk = S1 { id: 1, action: Action::M(Movement::Move((9.0f32, 9.0f32))) };
    assert_eq!(handle_s1(&walk, &mut goal, &mut sk, &none), Deed::Move((9.0, 9.0)));
    let child: S1<Pos> = S1 { id: 1, action: Action::SpawnChild };
    assert_eq!(handle_s1(&child, &mut goal, &mut sk, &none), Deed::Spawn);
    assert_eq!(goal.mission, Missions::MoveTo((1.0, 2.0)));
    assert!(!sk.has_seen());
}

#[test]
fn act_prunes_and_processes_vision() {
    let mut sk = SpatialKnowledge::new();
    let mut goal: Goal<Pos> = Goal::new();
    let seeing = vec![(4, tiles(&[(1, 1)]))];
    let look = S1 { id: 3, action: Action::ProcessVision };
    assert_eq!(
        handle_s1(&look, &mut goal, &mut sk, &seeing),
        Deed::Ask(vec![S2 { id: 3, action: A2::Tag(4) }])
    );
    assert_eq!(sk.get_occupied(), tiles(&[(1, 1)]));
    let prune = S1 { id: 3, action: Action::PruneVision };
    assert_eq!(handle_s1(&prune, &mut goal, &mut sk, &Vec::new()), Deed::Nothing);
    assert!(sk.get_occupied().is_empty());
    assert!(sk.queried(&4));
}

#[test]
fn identify_answers_for_a_tagged_entity_only() {
    let ask = S2 { id: 3, action: A2::Tag(4) };
    assert_eq!(
        handle_s2(&ask, Some((Tag::base(), (2.0f32, -1.0f32)))),
        Some(S3 {
            id: 3,
            event: A3::GainInfo { about: 4, info: EntityKind::Base, pos: (2.0, -1.0) },
        })
    );
    let nothing: Option<S3<Pos>> = handle_s2(&ask, None);
    assert_eq!(nothing, None);
}

#[test]
fn assimilate_commits_the_news() {
    let mut sk = SpatialKnowledge::new();
    sk.report(&vec![(4, tiles(&[(7, 7)]))]);
    sk.query_in_progress(4);
    let news = S3 {
        id: 3,
        event: A3::GainInfo { about: 4, info: EntityKind::Base, pos: (2.0f32, -1.0f32) },
    };
    handle_s3(&news, Grid::new(2, -1), [Grid::new(2, 0); 8], &mut sk);
    assert!(sk.is_static(&4));
    assert!(sk.temp().is_empty());
    let mut occupied = sk.get_occupied();
    occupied.sort();
    assert_eq!(occupied, tiles(&[(2, -1), (2, 0)]));
}

#[test]
fn queues_hand_out_what_was_sent_once() {
    let mut queues: StageQueues<Pos> = StageQueues::new();
    assert!(queues.is_drained());
    queues.send_act(S1 { id: 1, action: Action::ProcessVision });
    queues.send_act(S1 { id: 2, action: Action::SpawnChild });
    queues.send_identify(S2 { id: 1, action: A2::Tag(4) });
    queues.send_assimilate(S3 {
        id: 1,
        event: A3::GainInfo { about: 4, info: EntityKind::Agent, pos: (0.0, 0.0) },
    });
    assert!(!queues.is_drained());
    assert_eq!(
        queues.take_act(),
        vec![
            S1 { id: 1, action: Action::ProcessVision },
            S1 { id: 2, action: Action::SpawnChild },
        ]
    );
    assert_eq!(queues.take_act(), Vec::new());
    assert_eq!(queues.take_identify(), vec![S2 { id: 1, action: A2::Tag(4) }]);
    assert_eq!(queues.take_identify(), Vec::new());
    assert_eq!(queues.take_assimilate().len(), 1);
    assert!(queues.is_drained());
}

#[test]
fn a_tick_leaves_nothing_for_the_next() {
    let mut queues: StageQueues<Pos> = StageQueues::new();
    let mut sk = SpatialKnowledge::new();
    let mut goal: Goal<Pos> = Goal::new();
    let mut seen_by_identify: Vec<Vec<S2>> = Vec::new();
    let sight = vec![vec![(4, tiles(&[(1, 1)]))], vec![(6, tiles(&[(2, 2)]))]];
    for seeing in &sight {
        if let Some(event) = vision(1, seeing, &sk) {
            queues.send_act(event);
        }
        for event in queues.take_act() {
            if let Deed::Ask(requests) = handle_s1(&event, &mut goal, &mut sk, seeing) {
                for request in requests {
                    queues.send_identify(request);
                }
            }
        }
        let requests = queues.take_identify();
        for request in &requests {
            if let Some(news) = handle_s2(request, Some((Tag::agent(), (0.0f32, 0.0f32)))) {
                queues.send_assimilate(news);
            }
        }
        seen_by_identify.push(requests);
        for news in queues.take_assimilate() {
            handle_s3(&news, Grid::new(0, 0), [Grid::new(0, 0); 8], &mut sk);
        }
        assert!(queues.is_drained());
    }
    assert_eq!(
        seen_by_identify,
        vec![vec![S2 { id: 1, action: A2::Tag(4) }], vec![S2 { id: 1, action: A2::Tag(6) }]]
    );
}

#[test]
fn a_fan_has_an_odd_number_of_rays() {
    assert_eq!(fan(2), vec![-2, -1, 0, 1, 2]);
    assert_eq!(fan(0), vec![0]);
    assert_eq!(fan(-3), Vec::new());
    assert_eq!(fan(5).len(), 11);
}
