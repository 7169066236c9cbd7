use turn_scheduler::actions::movement_plugin::{
    is_walkable, movement_queued, perform_movement, Direction, Move,
};
use turn_scheduler::actions::{ActionPerformedEvent, ActionQueuedEvent, Performer, Ticks};
use turn_scheduler::crossterm_plugin::CrosstermRunner;
use turn_scheduler::levels_plugin::{init_level, Floor, Level, Position, Wall};
use turn_scheduler::player_plugin::Player;
use turn_scheduler::point::Point;
use turn_scheduler::store::{Entity, Store};

fn room(side: usize) -> Level {
    let mut level = Level::new(side, side);
    init_level(&mut level);
    level
}

fn step(performer: Entity, direction: Direction) -> ActionQueuedEvent<Move> {
    ActionQueuedEvent { performer, duration: Ticks(4), action: Move { direction } }
}

#[test]
fn directions_are_unit_steps() {
    assert_eq!(Direction::North.as_point(), Point::new(0, -1));
    assert_eq!(Direction::East.as_point(), Point::new(1, 0));
    assert_eq!(Direction::South.as_point(), Point::new(0, 1));
    assert_eq!(Direction::West.as_point(), Point::new(-1, 0));
}

#[test]
fn only_floor_without_wall_inside_the_level_is_walkable() {
    let level = room(5);
    assert!(is_walkable(&level, Point::new(2, 2)));
    assert!(is_walkable(&level, Point::new(1, 3)));
    assert!(!is_walkable(&level, Point::new(0, 2)));
    assert!(!is_walkable(&level, Point::new(2, 4)));
    assert!(!is_walkable(&level, Point::new(-1, 2)));
    assert!(!is_walkable(&level, Point::new(2, -1)));
    assert!(!is_walkable(&level, Point::new(5, 2)));
    assert!(!is_walkable(&level, Point::new(2, 5)));
    assert!(!is_walkable(&level, Point::new(i32::MAX, i32::MIN)));
}

#[test]
fn a_tile_without_floor_is_not_walkable() {
    let level = Level::new(3, 3);
    assert!(!is_walkable(&level, Point::new(1, 1)));
    let mut floored = Level::new(3, 3);
    floored.tile_mut(1, 1).floor = Some(Floor);
    assert!(is_walkable(&floored, Point::new(1, 1)));
}

#[test]
fn the_tile_of_a_cell_is_place_x_of_line_y() {
    let mut level = room(5);
    level.tile_mut(1, 3).wall = Some(Wall);
    assert!(!is_walkable(&level, Point::new(3, 1)));
    assert!(is_walkable(&level, Point::new(1, 3)));
}

#[test]
fn walkable_goes_by_width_for_x_and_by_height_for_y() {
    let mut wide = Level::new(3, 2);
    for y in 0..2 {
        for x in 0..3 {
            wide.tile_mut(y, x).floor = Some(Floor);
        }
    }
    assert!(is_walkable(&wide, Point::new(2, 0)));
    assert!(is_walkable(&wide, Point::new(2, 1)));
    assert!(is_walkable(&wide, Point::new(0, 1)));
    assert!(!is_walkable(&wide, Point::new(3, 0)));
    assert!(!is_walkable(&wide, Point::new(0, 2)));
    assert!(!is_walkable(&wide, Point::new(1, 2)));
    let mut tall = Level::new(1, 4);
    for y in 0..4 {
        tall.tile_mut(y, 0).floor = Some(Floor);
    }
    assert!(is_walkable(&tall, Point::new(0, 3)));
    assert!(!is_walkable(&tall, Point::new(1, 0)));
    assert!(!is_walkable(&tall, Point::new(3, 0)));
    assert!(!is_walkable(&Level::new(0, 3), Point::new(0, 0)));
}

#[test]
fn nothing_is_walkable_in_an_empty_level() {
    let level = Level::new(0, 0);
    assert!(!is_walkable(&level, Point::new(0, 0)));
}

#[test]
fn a_step_onto_free_floor_is_committed() {
    let level = room(5);
    let mut positions: Store<Position> = Store::new();
    let mut players: Store<Player> = Store::new();
    let mut performers: Store<Performer<Move>> = Store::new();
    let mut runner = CrosstermRunner { advance_world: None };
    let e = Entity::from_raw(0);
    positions.insert(e, Position(Point::new(2, 2)));
    players.insert(e, Player);
    movement_queued(
        &level,
        &vec![step(e, Direction::North)],
        &positions,
        &players,
        &mut performers,
        &mut runner,
    );
    let attached = performers.get(e).unwrap();
    assert_eq!(attached.duration, Ticks(4));
    assert_eq!(attached.action_data.direction, Direction::North);
    assert_eq!(runner.advance_world, Some(Ticks(4)));
}

#[test]
fn a_step_into_a_wall_is_never_attached() {
    let level = room(3);
    let mut positions: Store<Position> = Store::new();
    let mut players: Store<Player> = Store::new();
    let mut performers: Store<Performer<Move>> = Store::new();
    let mut runner = CrosstermRunner { advance_world: None };
    let e = Entity::from_raw(0);
    positions.insert(e, Position(Point::new(1, 1)));
    players.insert(e, Player);
    let events = vec![
        step(e, Direction::North),
        step(e, Direction::East),
        step(e, Direction::South),
        step(e, Direction::West),
    ];
    movement_queued(&level, &events, &positions, &players, &mut performers, &mut runner);
    assert!(!performers.contains(e));
    assert!(runner.advance_world.is_none());
}

#[test]
fn a_step_out_of_the_level_is_never_attached() {
    let mut level = Level::new(2, 1);
    for x in 0..2 {
        level.tile_mut(0, x).floor = Some(Floor);
    }
    let mut positions: Store<Position> = Store::new();
    let players: Store<Player> = Store::new();
    let mut performers: Store<Performer<Move>> = Store::new();
    let mut runner = CrosstermRunner { advance_world: None };
    let e = Entity::from_raw(0);
    positions.insert(e, Position(Point::new(0, 0)));
    movement_queued(
        &level,
        &vec![step(e, Direction::North), step(e, Direction::West), step(e, Direction::South)],
        &positions,
        &players,
        &mut performers,
        &mut runner,
    );
    assert!(!performers.contains(e));
    movement_queued(
        &level,
        &vec![step(e, Direction::East)],
        &positions,
        &players,
        &mut performers,
        &mut runner,
    );
    assert_eq!(performers.get(e).unwrap().action_data.direction, Direction::East);
}

#[test]
fn the_first_admitted_proposal_wins() {
    let level = room(5);
    let mut positions: Store<Position> = Store::new();
    let players: Store<Player> = Store::new();
    let mut performers: Store<Performer<Move>> = Store::new();
    let mut runner = CrosstermRunner { advance_world: None };
    let e = Entity::from_raw(3);
    positions.insert(e, Position(Point::new(1, 1)));
    let events = vec![
        step(e, Direction::North),
        step(e, Direction::South),
        step(e, Direction::East),
    ];
    movement_queued(&level, &events, &positions, &players, &mut performers, &mut runner);
    assert_eq!(performers.get(e).unwrap().action_data.direction, Direction::South);
    assert!(runner.advance_world.is_none());
}

#[test]
fn a_proposal_for_an_entity_without_position_is_dropped() {
    let level = room(5);
    let positions: Store<Position> = Store::new();
    let players: Store<Player> = Store::new();
    let mut performers: Store<Performer<Move>> = Store::new();
    let mut runner = CrosstermRunner { advance_world: None };
    let e = Entity::from_raw(0);
    movement_queued(
        &level,
        &vec![step(e, Direction::North)],
        &positions,
        &players,
        &mut performers,
        &mut runner,
    );
    assert!(!performers.contains(e));
}

#[test]
fn a_completed_step_moves_the_entity() {
    let level = room(5);
    let mut positions: Store<Position> = Store::new();
    let e = Entity::from_raw(0);
    positions.insert(e, Position(Point::new(2, 2)));
    let events = vec![
        ActionPerformedEvent { performer: e, action: Move { direction: Direction::West } },
        ActionPerformedEvent { performer: e, action: Move { direction: Direction::South } },
    ];
    perform_movement(&level, &events, &mut positions);
    assert_eq!(positions.get(e).unwrap().0, Point::new(1, 3));
}

#[test]
fn a_completed_step_is_dropped_if_the_cell_got_blocked() {
    let mut level = room(5);
    let mut positions: Store<Position> = Store::new();
    let players: Store<Player> = Store::new();
    let mut performers: Store<Performer<Move>> = Store::new();
    let mut runner = CrosstermRunner { advance_world: None };
    let e = Entity::from_raw(0);
    positions.insert(e, Position(Point::new(2, 2)));
    movement_queued(
        &level,
        &vec![step(e, Direction::North)],
        &positions,
        &players,
        &mut performers,
        &mut runner,
    );
    assert!(performers.contains(e));
    level.tile_mut(1, 2).wall = Some(Wall);
    let done = vec![ActionPerformedEvent { performer: e, action: Move { direction: Direction::North } }];
    perform_movement(&level, &done, &mut positions);
    assert_eq!(positions.get(e).unwrap().0, Point::new(2, 2));
}

#[test]
fn completed_steps_go_by_the_shape_of_the_level() {
    let mut level = Level::new(4, 2);
    for y in 0..2 {
        for x in 0..4 {
            level.tile_mut(y, x).floor = Some(Floor);
        }
    }
    let mut positions: Store<Position> = Store::new();
    let e = Entity::from_raw(0);
    positions.insert(e, Position(Point::new(2, 1)));
    let east = ActionPerformedEvent { performer: e, action: Move { direction: Direction::East } };
    let south = ActionPerformedEvent { performer: e, action: Move { direction: Direction::South } };
    perform_movement(&level, &vec![east, south, east], &mut positions);
    assert_eq!(positions.get(e).unwrap().0, Point::new(3, 1));
    let north = ActionPerformedEvent { performer: e, action: Move { direction: Direction::North } };
    perform_movement(&level, &vec![north, north], &mut positions);
    assert_eq!(positions.get(e).unwrap().0, Point::new(3, 0));
}

#[test]
fn a_completed_step_of_an_entity_without_position_does_nothing() {
    let level = room(5);
    let mut positions: Store<Position> = Store::new();
    let other = Entity::from_raw(1);
    positions.insert(other, Position(Point::new(2, 2)));
    let done = vec![ActionPerformedEvent {
        performer: Entity::from_raw(0),
        action: Move { direction: Direction::North },
    }];
    perform_movement(&level, &done, &mut positions);
    assert!(!positions.contains(Entity::from_raw(0)));
    assert_eq!(positions.get(other).unwrap().0, Point::new(2, 2));
}
