use bevy::input::Input;
use turn_scheduler::actions::movement_plugin::Direction;
use turn_scheduler::actions::Ticks;
use turn_scheduler::crossterm_plugin::{
    char_key, KeyEventKind, RunnerAction, RunnerPhase, TerminalEvent, ESC_KEY,
};
use turn_scheduler::game::Game;
use turn_scheduler::levels_plugin::{init_level, Level, Wall};
use turn_scheduler::objects::GameObjectBundle;
use turn_scheduler::player_plugin::spawn_player;
use turn_scheduler::point::Point;
use turn_scheduler::store::Entity;
use turn_scheduler::world::World;

fn room(side: usize) -> Level {
    let mut level = Level::new(side, side);
    init_level(&mut level);
    level
}

fn press(code: u32) -> TerminalEvent {
    TerminalEvent::Key { code, kind: KeyEventKind::Press }
}

fn progress(game: &Game, e: Entity) -> Ticks {
    game.world().actors.get(e).unwrap().action_progress
}

fn position(game: &Game, e: Entity) -> Point {
    game.world().positions.get(e).unwrap().0
}

#[test]
fn a_world_numbers_its_entities_as_they_spawn() {
    let mut world = World::new();
    assert_eq!(world.spawned, 0);
    let first = world.spawn_bundle(GameObjectBundle::new(Point::new(1, 2), 'a', 0)).unwrap();
    let second = world.spawn_bundle(GameObjectBundle::new(Point::new(3, 4), 'b', 1)).unwrap();
    assert_eq!(first, Entity::from_raw(0));
    assert_eq!(second, Entity::from_raw(1));
    assert_eq!(world.spawned, 2);
    assert_eq!(world.positions.get(first).unwrap().0, Point::new(1, 2));
    assert_eq!(world.positions.get(second).unwrap().0, Point::new(3, 4));
    assert_eq!(world.renderables.get(second).unwrap().character, 'b');
    assert_eq!(world.renderables.get(second).unwrap().layer, 1);
    assert_eq!(world.actors.get(first).unwrap().action_progress, Ticks(0));
    assert!(world.game_objects.contains(first));
    assert!(!world.players.contains(first));
}

#[test]
fn a_full_world_spawns_nothing() {
    let mut world = World::new();
    world.spawned = 0x1_0000_0000;
    assert!(world.spawn_bundle(GameObjectBundle::new(Point::new(1, 2), 'a', 0)).is_none());
    assert_eq!(world.spawned, 0x1_0000_0000);
    assert!(!world.positions.contains(Entity::from_raw(0)));
    assert!(spawn_player(&mut world, &room(4)).is_none());
    assert!(!world.players.contains(Entity::from_raw(0)));
}

#[test]
fn the_player_spawns_in_the_middle_of_the_level() {
    let mut world = World::new();
    world.spawn_bundle(GameObjectBundle::new(Point::new(0, 0), 'x', 0));
    let level = Level::new(32, 32);
    let player = spawn_player(&mut world, &level).unwrap();
    assert_eq!(player, Entity::from_raw(1));
    assert_eq!(world.positions.get(player).unwrap().0, Point::new(16, 16));
    assert_eq!(world.renderables.get(player).unwrap().character, '@');
    assert!(world.renderables.get(player).unwrap().visible);
    assert_eq!(world.renderables.get(player).unwrap().layer, 0);
    assert_eq!(world.actors.get(player).unwrap().action_progress, Ticks(0));
    assert!(world.players.contains(player));
    assert!(world.game_objects.contains(player));
    assert!(!world.players.contains(Entity::from_raw(0)));
}

#[test]
fn the_middle_of_an_uneven_level_rounds_down() {
    let mut world = World::new();
    let player = spawn_player(&mut world, &Level::new(7, 3)).unwrap();
    assert_eq!(world.positions.get(player).unwrap().0, Point::new(3, 1));
    let other = spawn_player(&mut world, &Level::new(0, 0)).unwrap();
    assert_eq!(world.positions.get(other).unwrap().0, Point::new(0, 0));
}

#[test]
fn a_game_can_be_played_on_a_level_of_any_shape() {
    assert!(Game::new(Level::new(3, 4)).is_some());
    assert!(Game::new(Level::new(4, 3)).is_some());
    assert!(Game::new(Level::new(0, 0)).is_some());
    assert!(Game::new(Level::new(0, 5)).is_some());
    let game = Game::new(room(4)).unwrap();
    assert!(game.runner().advance_world.is_none());
    assert_eq!(game.camera_position().0, Point::new(0, 0));
    assert_eq!(game.world().spawned, 0);
    assert_eq!(game.level().width(), 4);
    assert_eq!(game.movers().bound(), 0);
}

#[test]
fn a_step_of_four_ticks_runs_through_the_whole_loop() {
    let mut game = Game::new(room(32)).unwrap();
    let player = game.spawn_player().unwrap();
    let mut input = Input::<u32>::default();
    let nothing: Vec<TerminalEvent> = Vec::new();

    let (action, phase) = game.step(RunnerPhase::FrameStart, false);
    assert_eq!(action, RunnerAction::IdlePass);
    let report = game.update(&mut input, &vec![press(char_key('w'))]);
    assert!(report.performed.is_empty());
    assert!(!report.exit_requested);
    assert_eq!(game.runner().advance_world, Some(Ticks(4)));
    let mover = game.movers().get(player).unwrap();
    assert_eq!(mover.duration, Ticks(4));
    assert_eq!(mover.action_data.direction, Direction::North);
    assert_eq!(progress(&game, player), Ticks(0));
    assert_eq!(game.camera_position().0, Point::new(16, 16));
    assert!(game.render((3, 3)).is_none());

    let mut phase = phase;
    for pass in 1..=4u32 {
        let (action, next) = game.step(phase, false);
        phase = next;
        assert_eq!(action, RunnerAction::ResolvingPass);
        assert_eq!(game.runner().advance_world, Some(Ticks(5 - pass)));
        let report = game.update(&mut input, &vec![press(char_key('s'))]);
        assert!(input.pressed(char_key('w')));
        assert!(!input.pressed(char_key('s')));
        assert!(game.render((3, 3)).is_none());
        assert_eq!(game.runner().advance_world, Some(Ticks(5 - pass)));
        if pass < 4 {
            assert_eq!(progress(&game, player), Ticks(pass));
            assert!(game.movers().contains(player));
            assert!(report.performed.is_empty());
            assert_eq!(position(&game, player), Point::new(16, 16));
        } else {
            assert_eq!(progress(&game, player), Ticks(0));
            assert!(!game.movers().contains(player));
            assert_eq!(report.performed.len(), 1);
            assert_eq!(report.performed[0].performer, player);
            assert_eq!(report.performed[0].action.direction, Direction::North);
            assert_eq!(position(&game, player), Point::new(16, 15));
        }
    }

    let (action, phase) = game.step(phase, false);
    assert_eq!(action, RunnerAction::FlushPass);
    assert_eq!(game.runner().advance_world, Some(Ticks(0)));
    let report = game.update(&mut input, &vec![press(char_key('s'))]);
    assert!(report.performed.is_empty());
    assert!(input.pressed(char_key('w')));
    assert!(!input.pressed(char_key('s')));
    assert!(game.render((3, 3)).is_none());
    assert_eq!(progress(&game, player), Ticks(0));
    assert!(!game.movers().contains(player));
    assert_eq!(game.camera_position().0, Point::new(16, 15));
    assert_eq!(position(&game, player), Point::new(16, 15));
    assert_eq!(game.runner().advance_world, Some(Ticks(0)));

    let (action, phase) = game.step(phase, false);
    assert_eq!(action, RunnerAction::Pace);
    assert!(game.runner().advance_world.is_none());
    let (action, phase) = game.step(phase, false);
    assert_eq!(action, RunnerAction::CheckExit);
    let (action, phase) = game.step(phase, false);
    assert_eq!(action, RunnerAction::IdlePass);
    assert_eq!(phase, RunnerPhase::Settling);
    let report = game.update(&mut input, &nothing);
    assert!(report.performed.is_empty());
    assert!(!input.pressed(char_key('w')));
    assert!(game.runner().advance_world.is_none());
    let frame = game.render((3, 3)).unwrap();
    assert_eq!(frame, vec![vec!['.', '.', '.'], vec!['.', '@', '.'], vec!['.', '.', '.']]);
    assert_eq!(game.step(phase, false).0, RunnerAction::Pace);
}

#[test]
fn the_dot_key_neither_proposes_nor_arms() {
    let mut game = Game::new(room(8)).unwrap();
    let player = game.spawn_player().unwrap();
    let mut input = Input::<u32>::default();
    let report = game.update(&mut input, &vec![press(char_key('.'))]);
    assert!(report.performed.is_empty());
    assert!(game.runner().advance_world.is_none());
    assert!(!game.movers().contains(player));
    assert_eq!(progress(&game, player), Ticks(0));
    assert_eq!(position(&game, player), Point::new(4, 4));
}

#[test]
fn steps_follow_the_shape_of_a_level_that_is_not_square() {
    let mut level = Level::new(6, 3);
    init_level(&mut level);
    let mut game = Game::new(level).unwrap();
    let player = game.spawn_player().unwrap();
    assert_eq!(position(&game, player), Point::new(3, 1));
    let mut input = Input::<u32>::default();
    for key in ['w', 's'] {
        game.update(&mut input, &vec![press(char_key(key))]);
        assert!(game.runner().advance_world.is_none());
        assert!(!game.movers().contains(player));
    }
    game.update(&mut input, &vec![press(char_key('d'))]);
    assert_eq!(game.runner().advance_world, Some(Ticks(4)));
    let mut phase = RunnerPhase::Settling;
    let mut passes = 0;
    loop {
        let (action, next) = game.step(phase, false);
        phase = next;
        if action == RunnerAction::Pace {
            break;
        }
        game.update(&mut input, &Vec::new());
        passes += 1;
    }
    assert_eq!(passes, 5);
    assert_eq!(position(&game, player), Point::new(4, 1));
    assert!(game.runner().advance_world.is_none());
    game.update(&mut input, &vec![press(char_key('d'))]);
    assert!(game.runner().advance_world.is_none());
    assert!(!game.movers().contains(player));
}

#[test]
fn a_step_into_a_wall_leaves_the_game_idle() {
    let mut game = Game::new(room(3)).unwrap();
    let player = game.spawn_player().unwrap();
    let mut input = Input::<u32>::default();
    for key in ['w', 'a', 's', 'd'] {
        let report = game.update(&mut input, &vec![press(char_key(key))]);
        assert!(report.performed.is_empty());
        assert!(game.runner().advance_world.is_none());
        assert!(!game.movers().contains(player));
        assert_eq!(position(&game, player), Point::new(1, 1));
    }
    assert_eq!(game.step(RunnerPhase::Settling, false).0, RunnerAction::Pace);
}

#[test]
fn a_pass_without_a_player_changes_nothing() {
    let mut level = room(4);
    level.tile_mut(1, 1).wall = Some(Wall);
    let mut game = Game::new(level).unwrap();
    let mut input = Input::<u32>::default();
    let report = game.update(&mut input, &vec![press(char_key('w')), press(char_key('.'))]);
    assert!(report.performed.is_empty());
    assert!(!report.exit_requested);
    assert!(game.runner().advance_world.is_none());
    assert_eq!(game.camera_position().0, Point::new(0, 0));
    assert!(input.pressed(char_key('w')));
}

#[test]
fn escape_is_reported_by_the_pass_that_samples_it() {
    let mut game = Game::new(room(8)).unwrap();
    game.spawn_player();
    let mut input = Input::<u32>::default();
    let report = game.update(&mut input, &vec![press(ESC_KEY)]);
    assert!(report.exit_requested);
    let report = game.update(&mut input, &Vec::new());
    assert!(!report.exit_requested);
}
