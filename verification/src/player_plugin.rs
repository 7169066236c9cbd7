//! The player: the entity that drives world time, and its controls.

use crate::actions::movement_plugin::{
    can_step, destination, is_walkable, walkable, Direction, Move,
};
use crate::actions::{ActionQueuedEvent, Actor, Ticks, TICKS_PER_SECOND};
use crate::crossterm_plugin::input::input_is_pressed;
use crate::crossterm_plugin::{char_key, input_pressed, CrosstermRunner, KeyId, Renderable};
use crate::levels_plugin::{Level, Position};
use crate::objects::{GameObject, GameObjectBundle, LAYER_ENTITY};
use crate::point::Point;
use crate::store::{Entity, Store, ID_SPACE};
use crate::world::World;
use bevy::input::Input;
use vstd::prelude::*;
use vstd::std_specs::ops::AddSpec;

verus! {

/// The cell at the centre of what is drawn.
#[derive(Clone, Copy, Debug)]
pub struct CameraPosition(pub Point);

/// Marks the entity that drives world time.
#[derive(Clone, Copy, Debug)]
pub struct Player;

/// How long one step takes, in milliseconds of simulated time.
pub const MOVE_MILLIS: u32 = 400;

/// The cell in the middle of the level.
pub open spec fn middle(level: &Level) -> Point {
    Point {
        x: #[verifier::truncate] ((level.spec_width() / 2) as i32),
        y: #[verifier::truncate] ((level.spec_height() / 2) as i32),
    }
}

/// Spawns the player in the middle of the level, drawn as `@`.
pub fn spawn_player(world: &mut World, level: &Level) -> (spawned: Option<Entity>)
    ensures
        old(world).spawned >= ID_SPACE ==> spawned is None && *final(world) == *old(world),
        old(world).spawned < ID_SPACE ==> {
            &&& spawned matches Some(e)
            &&& e.id == old(world).spawned
            &&& final(world).spawned == old(world).spawned + 1
            &&& final(world).positions@ == old(world).positions@.insert(
                e,
                Position(middle(level)),
            )
            &&& final(world).game_objects@ == old(world).game_objects@.insert(
                e,
                GameObject,
            )
            &&& final(world).renderables@ == old(world).renderables@.insert(
                e,
                Renderable {
                    character: '@',
                    visible: true,
                    layer: LAYER_ENTITY,
                },
            )
            &&& final(world).actors@ == old(world).actors@.insert(
                e,
                Actor { action_progress: Ticks(0) },
            )
            &&& final(world).players@ == old(world).players@.insert(e, Player)
        },
        old(world).wf() ==> final(world).wf(),
{
    let bundle = GameObjectBundle::new(
        Point::from_usize(level.width() / 2, level.height() / 2),
        '@',
        LAYER_ENTITY,
    );
    match world.spawn_bundle(bundle) {
        Some(e) => {
            world.players.insert(e, Player);
            Some(e)
        },
        None => None,
    }
}

/// Whether `e` is the player that is steered: the one with the lowest
/// identifier among the players that have a position.
pub open spec fn is_first_player(
    players: Map<Entity, Player>,
    positions: Map<Entity, Position>,
    e: Entity,
) -> bool {
    &&& players.contains_key(e)
    &&& positions.contains_key(e)
    &&& forall|o: Entity| players.contains_key(o) && positions.contains_key(o) ==> e.id <= o.id
}

fn first_player(players: &Store<Player>, positions: &Store<Position>) -> (found: Option<
    (Entity, Point),
>)
    ensures
        match found {
            Some((e, p)) => is_first_player(players@, positions@, e) && p == positions@[e].0,
            None => forall|o: Entity| !(players@.contains_key(o) && positions@.contains_key(o)),
        },
{
    let limit = players.bound();
    let mut j: u64 = 0;
    while j < limit
        invariant
            j <= limit <= ID_SPACE,
            forall|o: Entity| players@.contains_key(o) ==> o.id < limit,
            forall|o: Entity|
                o.id < j ==> !(players@.contains_key(o) && positions@.contains_key(o)),
        decreases limit - j,
    {
        let e = Entity { id: j as u32 };
        if players.contains(e) {
            if let Some(position) = positions.get(e) {
                return Some((e, position.0));
            }
        }
        j += 1;
    }
    None
}

/// Where the keys held down steer: `w` north, `a` west, `s` south, `d` east,
/// the first of these that is pressed.
pub open spec fn steered(pressed: Set<KeyId>) -> Option<Direction> {
    if pressed.contains(char_key('w')) {
        Some(Direction::North)
    } else if pressed.contains(char_key('a')) {
        Some(Direction::West)
    } else if pressed.contains(char_key('s')) {
        Some(Direction::South)
    } else if pressed.contains(char_key('d')) {
        Some(Direction::East)
    } else {
        None
    }
}

/// The player that is steered, if there is one.
pub open spec fn first_player_of(
    players: Map<Entity, Player>,
    positions: Map<Entity, Position>,
) -> Option<Entity> {
    if exists|e: Entity| is_first_player(players, positions, e) {
        Some(choose|e: Entity| is_first_player(players, positions, e))
    } else {
        None
    }
}

/// The proposal that steering makes: one step of the player, as long as
/// `MOVE_MILLIS` of simulated time.
pub open spec fn step_proposal(player: Entity, direction: Direction) -> ActionQueuedEvent<Move> {
    ActionQueuedEvent {
        performer: player,
        duration: Ticks((MOVE_MILLIS * TICKS_PER_SECOND / 1000) as u32),
        action: Move { direction },
    }
}

/// Whether the step that the keys steer to stays within the range of
/// coordinates, where control gets as far as looking at it.
pub open spec fn steering_fits(
    runner: CrosstermRunner,
    pressed: Set<KeyId>,
    players: Map<Entity, Player>,
    positions: Map<Entity, Position>,
) -> bool {
    match (first_player_of(players, positions), steered(pressed)) {
        (Some(player), Some(direction)) => !runner.is_world_tick() ==> can_step(
            positions[player].0,
            direction,
        ),
        _ => true,
    }
}

/// The camera and the proposals after the control stage.
///
/// Without a player nothing changes. Otherwise the camera moves to where the
/// player stands, and, if the runner is idle, a steering key adds a
/// proposal, provided that the cell it steers to can be entered as the level
/// stands: a step that cannot be taken is not proposed.
pub open spec fn controlled(
    runner: CrosstermRunner,
    camera: CameraPosition,
    pressed: Set<KeyId>,
    level: &Level,
    players: Map<Entity, Player>,
    positions: Map<Entity, Position>,
    movement: Seq<ActionQueuedEvent<Move>>,
) -> (CameraPosition, Seq<ActionQueuedEvent<Move>>) {
    match first_player_of(players, positions) {
        None => (camera, movement),
        Some(player) => {
            let camera = CameraPosition(positions[player].0);
            if runner.is_world_tick() {
                (camera, movement)
            } else {
                match steered(pressed) {
                    Some(direction) => if walkable(
                        level,
                        destination(positions[player].0, direction),
                    ) {
                        (camera, movement.push(step_proposal(player, direction)))
                    } else {
                        (camera, movement)
                    },
                    None => (camera, movement),
                }
            }
        },
    }
}

/// Control proposes no step that cannot be taken: it leaves the proposals
/// as they are, or adds one step of the steered player, from where the
/// player stands to a cell that can be entered as the level stands, and that
/// only while the runner is idle.
pub proof fn lemma_control_proposes_only_walkable(
    runner: CrosstermRunner,
    camera: CameraPosition,
    pressed: Set<KeyId>,
    level: &Level,
    players: Map<Entity, Player>,
    positions: Map<Entity, Position>,
    movement: Seq<ActionQueuedEvent<Move>>,
)
    ensures
        ({
            let after = controlled(runner, camera, pressed, level, players, positions, movement).1;
            ||| after == movement
            ||| {
                &&& !runner.is_world_tick()
                &&& after.len() == movement.len() + 1
                &&& after.drop_last() == movement
                &&& first_player_of(players, positions) == Some(after.last().performer)
                &&& steered(pressed) == Some(after.last().action.direction)
                &&& after.last().duration.0 >= 1
                &&& walkable(
                    level,
                    destination(
                        positions[after.last().performer].0,
                        after.last().action.direction,
                    ),
                )
            }
        }),
{
    let after = controlled(runner, camera, pressed, level, players, positions, movement).1;
    if after != movement {
        assert(after.drop_last() =~= movement);
    }
}

/// The steered player is the only entity that `is_first_player` holds of.
pub proof fn lemma_first_player(
    players: Map<Entity, Player>,
    positions: Map<Entity, Position>,
    e: Entity,
)
    requires
        is_first_player(players, positions, e),
    ensures
        first_player_of(players, positions) == Some(e),
{
    let chosen = choose|o: Entity| is_first_player(players, positions, o);
    assert(chosen.id == e.id);
}

/// The control stage. The camera follows the player. While the runner is
/// idle, a steering key proposes a step in its direction, unless the cell in
/// that direction cannot be entered. The runner is only read: arming it is
/// left to the commit.
pub fn control_player(
    runner: &CrosstermRunner,
    camera_position: &mut CameraPosition,
    input: &Input<KeyId>,
    level: &Level,
    players: &Store<Player>,
    positions: &Store<Position>,
    movement: &mut Vec<ActionQueuedEvent<Move>>,
)
    requires
        level.wf(),
        steering_fits(*runner, input_pressed(*input), players@, positions@),
    ensures
        (*final(camera_position), final(movement)@) == controlled(
            *runner,
            *old(camera_position),
            input_pressed(*input),
            level,
            players@,
            positions@,
            old(movement)@,
        ),
{
    let (player, position) = match first_player(players, positions) {
        Some(found) => found,
        None => {
            return ;
        },
    };
    proof {
        lemma_first_player(players@, positions@, player);
    }
    camera_position.0 = position;
    if runner.is_world_tick() {
        return ;
    }
    let direction = if input_is_pressed(input, char_key('w')) {
        Some(Direction::North)
    } else if input_is_pressed(input, char_key('a')) {
        Some(Direction::West)
    } else if input_is_pressed(input, char_key('s')) {
        Some(Direction::South)
    } else if input_is_pressed(input, char_key('d')) {
        Some(Direction::East)
    } else {
        None
    };
    if let Some(direction) = direction {
        if is_walkable(level, position + direction.as_point()) {
            movement.push(
                ActionQueuedEvent {
                    performer: player,
                    duration: Ticks::from_millis(MOVE_MILLIS),
                    action: Move { direction },
                },
            );
        }
    }
}

} // verus!
