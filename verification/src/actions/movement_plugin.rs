//! Movement: the action of stepping to a neighbouring cell.

use crate::actions::{
    commit_performers, commit_runner, ActionPerformedEvent, ActionQueuedEvent, Performer,
};
use crate::crossterm_plugin::CrosstermRunner;
use crate::levels_plugin::{Level, Position};
use crate::player_plugin::Player;
use crate::point::Point;
use crate::store::{Entity, Store};
use vstd::prelude::*;
use vstd::std_specs::ops::AddSpec;

verus! {

/// The payload of a movement: where to step.
#[derive(Clone, Copy, Debug)]
pub struct Move {
    pub direction: Direction,
}

/// The four ways to step.
#[derive(Clone, Copy, Debug, PartialEq, Eq, Structural)]
pub enum Direction {
    North,
    East,
    South,
    West,
}

impl Direction {
    /// The offset of one step: north is up, towards smaller `y`.
    pub open spec fn spec_as_point(&self) -> Point {
        match self {
            Direction::North => Point { x: 0, y: -1i32 },
            Direction::East => Point { x: 1, y: 0 },
            Direction::South => Point { x: 0, y: 1 },
            Direction::West => Point { x: -1i32, y: 0 },
        }
    }

    /// The offset of one step in this direction.
    pub fn as_point(&self) -> (p: Point)
        ensures
            p == self.spec_as_point(),
    {
        match self {
            Self::North => Point::new(0, -1),
            Self::East => Point::new(1, 0),
            Self::South => Point::new(0, 1),
            Self::West => Point::new(-1, 0),
        }
    }
}

/// Whether one step from `from` stays within the range of coordinates.
pub open spec fn can_step(from: Point, direction: Direction) -> bool {
    from.add_req(direction.spec_as_point())
}

/// The cell one step away from `from`.
pub open spec fn destination(from: Point, direction: Direction) -> Point {
    from.add_spec(direction.spec_as_point())
}

/// Whether `p` lies within the bounds of the level.
pub open spec fn in_bounds(level: &Level, p: Point) -> bool {
    0 <= p.x < level.spec_width() && 0 <= p.y < level.spec_height()
}

/// Whether `p` can be entered: it lies within the bounds, and its tile has a
/// floor and no wall. The tile of `p` is place `p.x` of line `p.y`.
pub open spec fn walkable(level: &Level, p: Point) -> bool {
    &&& in_bounds(level, p)
    &&& level@[p.y as int][p.x as int].floor is Some
    &&& level@[p.y as int][p.x as int].wall is None
}

/// Whether `destination` can be entered as the level stands.
pub fn is_walkable(level: &Level, destination: Point) -> (b: bool)
    requires
        level.wf(),
    ensures
        b == walkable(level, destination),
{
    if destination.x < 0 || destination.y < 0 || destination.x as usize >= level.width()
        || destination.y as usize >= level.height() {
        return false;
    }
    let tile = level.tile(destination.y as usize, destination.x as usize);
    tile.floor.is_some() && tile.wall.is_none()
}

/// Whether a proposed movement is admitted to the commit: its performer has
/// a position, and the cell it would step to can be entered.
pub open spec fn admitted(
    level: &Level,
    positions: Map<Entity, Position>,
    event: ActionQueuedEvent<Move>,
) -> bool {
    &&& positions.contains_key(event.performer)
    &&& walkable(level, destination(positions[event.performer].0, event.action.direction))
}

/// The performers and the runner after the proposals are worked off in
/// order: each admitted one is committed, the others are dropped.
pub open spec fn queued_outcome(
    level: &Level,
    positions: Map<Entity, Position>,
    players: Map<Entity, Player>,
    performers: Map<Entity, Performer<Move>>,
    runner: CrosstermRunner,
    events: Seq<ActionQueuedEvent<Move>>,
) -> (Map<Entity, Performer<Move>>, CrosstermRunner)
    decreases events.len(),
{
    if events.len() == 0 {
        (performers, runner)
    } else {
        let before = queued_outcome(
            level,
            positions,
            players,
            performers,
            runner,
            events.drop_last(),
        );
        let event = events.last();
        if admitted(level, positions, event) {
            (
                commit_performers(before.0, event),
                commit_runner(before.1, before.0, players, event),
            )
        } else {
            before
        }
    }
}

/// A movement towards a cell that lies outside the level, or that cannot be
/// entered, is never attached: a busy entity keeps the performer it has, and
/// whatever performer an idle entity gets from the commit stage steps from
/// where the entity stands to a cell that can be entered as the level stands.
pub proof fn lemma_queued_only_walkable(
    level: &Level,
    positions: Map<Entity, Position>,
    players: Map<Entity, Player>,
    performers: Map<Entity, Performer<Move>>,
    runner: CrosstermRunner,
    events: Seq<ActionQueuedEvent<Move>>,
    e: Entity,
)
    ensures
        ({
            let after = queued_outcome(level, positions, players, performers, runner, events).0;
            &&& performers.contains_key(e) ==> after.contains_key(e) && after[e] == performers[e]
            &&& !performers.contains_key(e) && after.contains_key(e) ==> {
                &&& positions.contains_key(e)
                &&& walkable(level, destination(positions[e].0, after[e].action_data.direction))
            }
        }),
    decreases events.len(),
{
    if events.len() > 0 {
        lemma_queued_only_walkable(
            level,
            positions,
            players,
            performers,
            runner,
            events.drop_last(),
            e,
        );
    }
}

/// A performer that the commit stage attaches lasts as long as its proposal.
pub proof fn lemma_queued_durations(
    level: &Level,
    positions: Map<Entity, Position>,
    players: Map<Entity, Player>,
    performers: Map<Entity, Performer<Move>>,
    runner: CrosstermRunner,
    events: Seq<ActionQueuedEvent<Move>>,
    e: Entity,
)
    requires
        forall|i: int| 0 <= i < events.len() ==> (#[trigger] events[i]).duration.0 >= 1,
    ensures
        ({
            let after = queued_outcome(level, positions, players, performers, runner, events).0;
            !performers.contains_key(e) && after.contains_key(e) ==> after[e].duration.0 >= 1
        }),
    decreases events.len(),
{
    if events.len() > 0 {
        lemma_queued_durations(
            level,
            positions,
            players,
            performers,
            runner,
            events.drop_last(),
            e,
        );
    }
}

/// Every proposal lasts at least one tick, and every step proposed for an
/// entity with a position stays within the range of coordinates.
pub open spec fn proposals_fit(
    positions: Map<Entity, Position>,
    events: Seq<ActionQueuedEvent<Move>>,
) -> bool {
    forall|i: int|
        0 <= i < events.len() ==> {
            &&& (#[trigger] events[i]).duration.0 >= 1
            &&& positions.contains_key(events[i].performer) ==> can_step(
                positions[events[i].performer].0,
                events[i].action.direction,
            )
        }
}

/// The commit stage of movement: commits each proposal whose destination
/// can be entered as the level stands, and drops the others.
pub fn movement_queued(
    level: &Level,
    event_reader: &Vec<ActionQueuedEvent<Move>>,
    positions: &Store<Position>,
    players: &Store<Player>,
    performers: &mut Store<Performer<Move>>,
    runner: &mut CrosstermRunner,
)
    requires
        level.wf(),
        proposals_fit(positions@, event_reader@),
    ensures
        (final(performers)@, *final(runner)) == queued_outcome(
            level,
            positions@,
            players@,
            old(performers)@,
            *old(runner),
            event_reader@,
        ),
{
    let mut i: usize = 0;
    while i < event_reader.len()
        invariant
            i <= event_reader.len(),
            level.wf(),
            proposals_fit(positions@, event_reader@),
            (performers@, *runner) == queued_outcome(
                level,
                positions@,
                players@,
                old(performers)@,
                *old(runner),
                event_reader@.take(i as int),
            ),
        decreases event_reader.len() - i,
    {
        let event = &event_reader[i];
        proof {
            assert(event_reader@.take(i + 1).drop_last() =~= event_reader@.take(i as int));
            assert(event_reader@.take(i + 1).last() == *event);
        }
        if let Some(position) = positions.get(event.performer) {
            let destination = position.0 + event.action.direction.as_point();
            if is_walkable(level, destination) {
                let proposal = *event;
                proposal.pass_down(performers, players, runner);
            }
        }
        i += 1;
    }
    proof {
        assert(event_reader@.take(event_reader.len() as int) =~= event_reader@);
    }
}

/// The positions after the completed movements are applied in order: an
/// entity steps if it has a position and the cell it steps to can be entered.
pub open spec fn moved_positions(
    level: &Level,
    positions: Map<Entity, Position>,
    events: Seq<ActionPerformedEvent<Move>>,
) -> Map<Entity, Position>
    decreases events.len(),
{
    if events.len() == 0 {
        positions
    } else {
        let before = moved_positions(level, positions, events.drop_last());
        let event = events.last();
        if before.contains_key(event.performer) && walkable(
            level,
            destination(before[event.performer].0, event.action.direction),
        ) {
            before.insert(
                event.performer,
                Position(destination(before[event.performer].0, event.action.direction)),
            )
        } else {
            before
        }
    }
}

/// A completed movement is checked against the level as it stands by then:
/// an entity is only ever moved to a cell that can be entered.
pub proof fn lemma_moved_only_to_walkable(
    level: &Level,
    positions: Map<Entity, Position>,
    events: Seq<ActionPerformedEvent<Move>>,
    e: Entity,
)
    ensures
        ({
            let after = moved_positions(level, positions, events);
            &&& after.contains_key(e) <==> positions.contains_key(e)
            &&& after.contains_key(e) ==> after[e] == positions[e] || walkable(level, after[e].0)
        }),
    decreases events.len(),
{
    if events.len() > 0 {
        lemma_moved_only_to_walkable(level, positions, events.drop_last(), e);
    }
}

/// Every completed step, taken from where its entity stands by then, stays
/// within the range of coordinates.
pub open spec fn movements_fit(
    level: &Level,
    positions: Map<Entity, Position>,
    events: Seq<ActionPerformedEvent<Move>>,
) -> bool {
    forall|i: int|
        #![trigger events[i]]
        0 <= i < events.len() ==> {
            let before = moved_positions(level, positions, events.take(i));
            before.contains_key(events[i].performer) ==> can_step(
                before[events[i].performer].0,
                events[i].action.direction,
            )
        }
}

/// Resolves completed movements: each entity steps to its destination if
/// that cell can still be entered, and stays where it is otherwise.
pub fn perform_movement(
    level: &Level,
    event_reader: &Vec<ActionPerformedEvent<Move>>,
    positions: &mut Store<Position>,
)
    requires
        level.wf(),
        movements_fit(level, old(positions)@, event_reader@),
    ensures
        final(positions)@ == moved_positions(level, old(positions)@, event_reader@),
{
    let mut i: usize = 0;
    while i < event_reader.len()
        invariant
            i <= event_reader.len(),
            level.wf(),
            movements_fit(level, old(positions)@, event_reader@),
            positions@ == moved_positions(level, old(positions)@, event_reader@.take(i as int)),
        decreases event_reader.len() - i,
    {
        let event = &event_reader[i];
        proof {
            assert(event_reader@.take(i + 1).drop_last() =~= event_reader@.take(i as int));
            assert(event_reader@.take(i + 1).last() == *event);
            assert(event_reader@[i as int] == *event);
        }
        let standing = match positions.get(event.performer) {
            Some(position) => Some(position.0),
            None => None,
        };
        if let Some(standing) = standing {
            let destination = standing + event.action.direction.as_point();
            if is_walkable(level, destination) {
                positions.insert(event.performer, Position(destination));
            }
        }
        i += 1;
    }
    proof {
        assert(event_reader@.take(event_reader.len() as int) =~= event_reader@);
    }
}

} // verus!
