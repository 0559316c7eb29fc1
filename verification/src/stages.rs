//! What each stage of a tick decides: Perceive, Decide, Act, Identify and
//! Assimilate. The outside work between the decisions (casting rays,
//! changing velocities, looking up a tag) is left to the caller.

use vstd::prelude::*;

use crate::events::Action;
use crate::events::Goal;
use crate::events::Missions;
use crate::events::Movement;
use crate::events::A2;
use crate::events::A3;
use crate::events::S1;
use crate::events::S2;
use crate::events::S3;
use crate::grid::Grid;
use crate::kind::Tag;
use crate::knowledge::SpatialKnowledge;
use crate::model::Knowledge;
use crate::search::Quest;
use crate::trail::searchable;

verus! {

/// The entities named by a tick's sightings, in order.
pub open spec fn sighted(seeing: Seq<(u64, Vec<Grid>)>) -> Seq<u64> {
    Seq::new(seeing.len(), |i: int| seeing[i].0)
}

/// Where entity `entity` stands in the sightings, if it does.
pub open spec fn place_of(seeing: Seq<(u64, Vec<Grid>)>, entity: u64) -> Option<int> {
    if exists|i: int| 0 <= i < seeing.len() && #[trigger] seeing[i].0 == entity {
        Some(choose|i: int| 0 <= i < seeing.len() && #[trigger] seeing[i].0 == entity)
    } else {
        None
    }
}

/// No entity stands twice in the sightings.
pub open spec fn one_entry_each(seeing: Seq<(u64, Vec<Grid>)>) -> bool {
    forall|i: int, j: int|
        0 <= i < j < seeing.len() ==> (#[trigger] seeing[i]).0 != (#[trigger] seeing[j]).0
}

/// Notes that a ray hit `entity` on `tile`: the tile joins the entity's
/// entry, which is opened at the end where the entity had none.
pub fn note_hit(seeing: &mut Vec<(u64, Vec<Grid>)>, entity: u64, tile: Grid)
    requires
        one_entry_each(old(seeing)@),
    ensures
        one_entry_each(final(seeing)@),
        match place_of(old(seeing)@, entity) {
            Some(at) => {
                &&& final(seeing)@.len() == old(seeing)@.len()
                &&& final(seeing)@[at].0 == entity
                &&& final(seeing)@[at].1@ == old(seeing)@[at].1@.push(tile)
                &&& forall|i: int|
                    0 <= i < old(seeing)@.len() && i != at ==> final(seeing)@[i] == old(
                        seeing,
                    )@[i]
            },
            None => {
                &&& final(seeing)@.len() == old(seeing)@.len() + 1
                &&& final(seeing)@.last().0 == entity
                &&& final(seeing)@.last().1@ == seq![tile]
                &&& forall|i: int| 0 <= i < old(seeing)@.len() ==> final(seeing)@[i] == old(seeing)@[i]
            },
        },
{
    let mut i: usize = 0;
    while i < seeing.len() && seeing[i].0 != entity
        invariant
            i <= seeing.len(),
            seeing@ == old(seeing)@,
            one_entry_each(seeing@),
            forall|j: int| 0 <= j < i ==> (#[trigger] seeing@[j]).0 != entity,
        decreases seeing.len() - i,
    {
        i += 1;
    }
    if i < seeing.len() {
        proof {
            assert(seeing@[i as int].0 == entity);
            let at = choose|k: int| 0 <= k < seeing@.len() && #[trigger] seeing@[k].0 == entity;
            if at != i as int {
                if at < i {
                    assert(seeing@[at].0 != entity);
                } else {
                    assert(seeing@[i as int].0 != seeing@[at].0);
                }
            }
        }
        let entry = seeing.remove(i);
        let mut tiles = entry.1;
        tiles.push(tile);
        seeing.insert(i, (entity, tiles));
        assert forall|a: int, b: int| 0 <= a < b < seeing@.len() implies (#[trigger] seeing@[a]).0
            != (#[trigger] seeing@[b]).0 by {
            assert(old(seeing)@[a].0 != old(seeing)@[b].0);
            assert(seeing@[a].0 == old(seeing)@[a].0);
            assert(seeing@[b].0 == old(seeing)@[b].0);
        }
    } else {
        let mut tiles: Vec<Grid> = Vec::new();
        tiles.push(tile);
        seeing.push((entity, tiles));
        assert forall|a: int, b: int| 0 <= a < b < seeing@.len() implies (#[trigger] seeing@[a]).0
            != (#[trigger] seeing@[b]).0 by {
            if b < old(seeing)@.len() {
                assert(old(seeing)@[a].0 != old(seeing)@[b].0);
            } else {
                assert(old(seeing)@[a].0 != entity);
            }
        }
    }
}

/// The steps of a fan of rays with `half_cone_count` rays on each side of
/// the one straight ahead.
pub open spec fn fanned(half_cone_count: int) -> Seq<isize> {
    if half_cone_count < 0 {
        Seq::empty()
    } else {
        Seq::new((2 * half_cone_count + 1) as nat, |i: int| (i - half_cone_count) as isize)
    }
}

/// Perceive: the steps at which rays are cast, from `-half_cone_count` to
/// `half_cone_count`; an odd number of them, the middle one straight ahead.
pub fn fan(half_cone_count: isize) -> (steps: Vec<isize>)
    requires
        half_cone_count < isize::MAX,
    ensures
        steps@ == fanned(half_cone_count as int),
{
    let mut steps: Vec<isize> = Vec::new();
    if half_cone_count < 0 {
        return steps;
    }
    let mut step: isize = -half_cone_count;
    while step <= half_cone_count
        invariant
            0 <= half_cone_count < isize::MAX,
            -half_cone_count <= step <= half_cone_count + 1,
            steps@.len() == step + half_cone_count,
            forall|i: int| 0 <= i < steps@.len() ==> steps@[i] == i - half_cone_count,
        decreases half_cone_count - step + 1,
    {
        steps.push(step);
        step += 1;
    }
    assert(steps@ =~= fanned(half_cone_count as int));
    steps
}

/// Perceive: what the agent with id `id` asks of the Act stage once its
/// rays are cast. With anything in sight the sightings are to be
/// processed; with nothing in sight, a memory that tracks any entity is to
/// be pruned; otherwise nothing is asked.
pub fn vision<P>(id: u64, seeing: &Vec<(u64, Vec<Grid>)>, sk: &SpatialKnowledge) -> (event: Option<
    S1<P>,
>)
    ensures
        seeing@.len() > 0 ==> event == Some(S1 { id, action: Action::<P>::ProcessVision }),
        seeing@.len() == 0 && sk@.entities.dom() != Set::<u64>::empty() ==> event == Some(
            S1 { id, action: Action::<P>::PruneVision },
        ),
        seeing@.len() == 0 && sk@.entities.dom() == Set::<u64>::empty() ==> event is None,
{
    if seeing.len() > 0 {
        Some(S1 { id, action: Action::ProcessVision })
    } else if sk.has_seen() {
        Some(S1 { id, action: Action::PruneVision })
    } else {
        None
    }
}

/// The waypoint to steer at in place of the goal: on an obstructed route
/// of at least three tiles, the third tile from its end.
pub open spec fn detoured(route: Seq<Grid>, obstructed: bool) -> Option<Grid> {
    if obstructed && route.len() >= 3 {
        Some(route[route.len() - 3])
    } else {
        None
    }
}

/// Decide: where to steer on a planned route. An obstructed route loses
/// its last two tiles, those nearest the goal, and the last tile that is
/// left becomes the waypoint; `None` says to steer at the goal itself.
pub fn detour(route: &Vec<Grid>, obstructed: bool) -> (waypoint: Option<Grid>)
    ensures
        waypoint == detoured(route@, obstructed),
{
    if obstructed && route.len() >= 3 {
        Some(route[route.len() - 3])
    } else {
        None
    }
}

/// Decide: plans the route from `my_tile` to `target` and picks the
/// waypoint to steer at, if the goal itself is not to be steered at.
pub fn waypoint(sk: &SpatialKnowledge, my_tile: Grid, target: Grid) -> (via: Option<Grid>)
    requires
        searchable(my_tile, target),
    ensures
        exists|rounds: nat, hops: nat, route: Seq<Grid>, obstructed: bool|
            Quest::new(my_tile, target, sk@.occupied_tiles()).result(rounds, hops) == Some(
                (route, obstructed),
            ) && via == detoured(route, obstructed),
{
    let found = sk.path(my_tile, target);
    detour(&found.0, found.1)
}

/// The events that Decide sends for one agent.
pub open spec fn decided<P>(id: u64, dir: P, pos: P, off_course: bool, away: bool) -> Seq<S1<P>> {
    let turn = if off_course {
        seq![S1 { id, action: Action::M(Movement::Rotate(dir)) }]
    } else {
        Seq::empty()
    };
    turn.push(
        if away {
            S1 { id, action: Action::M(Movement::Move(pos)) }
        } else {
            S1 { id, action: Action::Done }
        },
    )
}

/// Decide: the events for an agent on a mission that steers at `pos` in
/// direction `dir`. It is to rotate when it is off course; it is to move
/// when it is still away from its goal, and else its mission is complete.
pub fn decide<P: Copy>(id: u64, dir: P, pos: P, off_course: bool, away: bool) -> (events: Vec<
    S1<P>,
>)
    ensures
        events@ == decided(id, dir, pos, off_course, away),
{
    let mut events: Vec<S1<P>> = Vec::new();
    if off_course {
        events.push(S1 { id, action: Action::M(Movement::Rotate(dir)) });
    }
    if away {
        events.push(S1 { id, action: Action::M(Movement::Move(pos)) });
    } else {
        events.push(S1 { id, action: Action::Done });
    }
    events
}

/// The memory and the requests after agent `id` has asked about each of
/// `ids` in turn that was neither identified nor asked about.
pub open spec fn ask_all(k: Knowledge, id: u64, ids: Seq<u64>) -> (Knowledge, Seq<S2>)
    decreases ids.len(),
{
    if ids.len() == 0 {
        (k, Seq::empty())
    } else {
        let before = ask_all(k, id, ids.drop_last());
        let entity = ids.last();
        if before.0.queried(entity) {
            before
        } else {
            (
                Knowledge { pending: before.0.pending.insert(entity), ..before.0 },
                before.1.push(S2 { id, action: A2::Tag(entity) }),
            )
        }
    }
}

/// Act: merges the tick's sightings into the memory of agent `id` and
/// asks for the identity of every sighted entity that is neither
/// identified nor asked about yet.
pub fn process_vision(sk: &mut SpatialKnowledge, id: u64, seeing: &Vec<(u64, Vec<Grid>)>) -> (asked:
    Vec<S2>)
    requires
        old(sk)@.consistent(),
    ensures
        final(sk)@ == ask_all(old(sk)@.sense_all(seeing@), id, sighted(seeing@)).0,
        asked@ == ask_all(old(sk)@.sense_all(seeing@), id, sighted(seeing@)).1,
        final(sk)@.consistent(),
{
    sk.report(seeing);
    let ghost merged = sk@;
    let mut asked: Vec<S2> = Vec::new();
    let mut i: usize = 0;
    assert(sighted(seeing@).take(0) =~= Seq::<u64>::empty());
    while i < seeing.len()
        invariant
            i <= seeing.len(),
            sk@ == ask_all(merged, id, sighted(seeing@).take(i as int)).0,
            asked@ == ask_all(merged, id, sighted(seeing@).take(i as int)).1,
            sk@.tiles == merged.tiles,
            sk@.entities == merged.entities,
        decreases seeing.len() - i,
    {
        let entity = seeing[i].0;
        assert(sighted(seeing@).take(i + 1).drop_last() =~= sighted(seeing@).take(i as int));
        assert(sighted(seeing@).take(i + 1).last() == entity);
        if !sk.queried(&entity) {
            asked.push(S2 { id, action: A2::Tag(entity) });
            sk.query_in_progress(entity);
        }
        i += 1;
    }
    assert(sighted(seeing@).take(seeing.len() as int) =~= sighted(seeing@));
    proof {
        crate::laws::consistent_by_indexes(merged, sk@);
    }
    asked
}

/// What is left to do outside once the Act stage has dealt with an event.
#[derive(Debug, PartialEq)]
pub enum Deed<P> {
    /// Nothing.
    Nothing,
    /// Turn towards the direction, stamina permitting.
    Rotate(P),
    /// Advance towards the position, stamina permitting.
    Move(P),
    /// Create a new agent if the spot in front is free.
    Spawn,
    /// Send these requests to the Identify stage.
    Ask(Vec<S2>),
}

/// Act: deals with one event for the agent it names. A completed mission
/// is dropped and a new goal taken on; pruning forgets what was tracked
/// provisionally; sightings are merged and give rise to requests; changes
/// of motion and spawning are handed back to be carried out.
pub fn handle_s1<P: Copy>(
    event: &S1<P>,
    goal: &mut Goal<P>,
    sk: &mut SpatialKnowledge,
    seeing: &Vec<(u64, Vec<Grid>)>,
) -> (deed: Deed<P>)
    requires
        old(sk)@.consistent(),
    ensures
        final(sk)@.consistent(),
        match event.action {
            Action::Done => {
                &&& final(goal).mission is Idle
                &&& final(sk)@ == old(sk)@
                &&& deed is Nothing
            },
            Action::PruneVision => {
                &&& *final(goal) == *old(goal)
                &&& final(sk)@ == (Knowledge {
                    provisional: Set::empty(),
                    ..old(sk)@.forget(old(sk)@.provisional)
                })
                &&& deed is Nothing
            },
            Action::M(Movement::Rotate(dir)) => {
                &&& *final(goal) == *old(goal)
                &&& final(sk)@ == old(sk)@
                &&& deed == Deed::Rotate(dir)
            },
            Action::M(Movement::Move(pos)) => {
                &&& *final(goal) == *old(goal)
                &&& final(sk)@ == old(sk)@
                &&& deed == Deed::Move(pos)
            },
            Action::G(g) => {
                &&& *final(goal) == g
                &&& final(sk)@ == old(sk)@
                &&& deed is Nothing
            },
            Action::SpawnChild => {
                &&& *final(goal) == *old(goal)
                &&& final(sk)@ == old(sk)@
                &&& deed is Spawn
            },
            Action::ProcessVision => {
                &&& *final(goal) == *old(goal)
                &&& final(sk)@ == ask_all(
                    old(sk)@.sense_all(seeing@),
                    event.id,
                    sighted(seeing@),
                ).0
                &&& deed is Ask
                &&& deed->Ask_0@ == ask_all(
                    old(sk)@.sense_all(seeing@),
                    event.id,
                    sighted(seeing@),
                ).1
            },
        },
{
    match event.action {
        Action::Done => {
            goal.mission = Missions::Idle;
            Deed::Nothing
        },
        Action::PruneVision => {
            sk.clear_seen();
            Deed::Nothing
        },
        Action::M(Movement::Rotate(dir)) => Deed::Rotate(dir),
        Action::M(Movement::Move(pos)) => Deed::Move(pos),
        Action::G(g) => {
            *goal = g;
            Deed::Nothing
        },
        Action::SpawnChild => Deed::Spawn,
        Action::ProcessVision => Deed::Ask(process_vision(sk, event.id, seeing)),
    }
}

/// Identify: answers one request with what was found of the entity it
/// names. An entity with a tag yields the news for the asking agent; a
/// request about an entity without one is dropped.
pub fn handle_s2<P>(event: &S2, found: Option<(Tag, P)>) -> (news: Option<S3<P>>)
    ensures
        found is None ==> news is None,
        found is Some ==> news == Some(
            S3 {
                id: event.id,
                event: A3::GainInfo {
                    about: event.action->Tag_0,
                    info: (found->0).0.kind,
                    pos: (found->0).1,
                },
            },
        ),
{
    match event.action {
        A2::Tag(target) => match found {
            Some(seen) => Some(
                S3 { id: event.id, event: A3::GainInfo { about: target, info: seen.0.kind, pos: seen.1 } },
            ),
            None => None,
        },
    }
}

/// Assimilate: commits one piece of news to the memory of the agent that
/// asked. `center` and `compass` are the tile at the reported position and
/// the tiles at the eight compass points around it.
pub fn handle_s3<P>(event: &S3<P>, center: Grid, compass: [Grid; 8], sk: &mut SpatialKnowledge)
    requires
        old(sk)@.consistent(),
    ensures
        final(sk)@ == old(sk)@.learn(
            event.event->about,
            event.event->info,
            compass@.to_set().insert(center),
        ),
        final(sk)@.consistent(),
{
    match &event.event {
        A3::GainInfo { about, info, pos: _ } => {
            sk.obtains_info_about(*about, *info, center, compass);
        },
    }
}

} // verus!
