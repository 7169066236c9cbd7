//! The game as a whole, and one pass of the stage pipeline over it.

use crate::actions::movement_plugin::{
    lemma_moved_only_to_walkable, lemma_queued_durations,
    lemma_queued_only_walkable, moved_positions, movement_queued, movements_fit,
    perform_movement, proposals_fit, queued_outcome, Move,
};
use crate::actions::{
    performed, tick_action, ticked_actors, ticked_performers, ActionPerformedEvent,
    ActionQueuedEvent, Actor, Performer, Ticks,
};
use crate::crossterm_plugin::{
    cell_point, cell_shows, crossterm_read_input, crossterm_render, exit_on_esc,
    input_just_pressed, input_pressed, just_pressed_after, pressed_after, runner_step,
    runner_step_spec, window_fits, window_start, CrosstermRunner, KeyId, Renderable,
    RunnerAction, RunnerPhase, TerminalEvent, ESC_KEY,
};
use crate::levels_plugin::{Level, Position};
use crate::objects::{GameObject, LAYER_ENTITY};
use crate::player_plugin::{
    control_player, controlled, first_player_of, is_first_player, middle, spawn_player,
    CameraPosition, Player,
};
use crate::point::Point;
use crate::store::{Entity, Store, ID_SPACE};
use crate::world::World;
use bevy::input::Input;
use vstd::prelude::*;

verus! {

/// Everything that a pass of the pipeline reads or changes.
///
/// The parts can be read but are changed by the game's own steps only, which
/// keep them consistent with each other.
pub struct Game {
    world: World,
    level: Level,
    camera_position: CameraPosition,
    runner: CrosstermRunner,
    movers: Store<Performer<Move>>,
}

/// What a pass hands to the run loop.
pub struct PassReport {
    /// The movements that the pass completed, in the order of their notices.
    pub performed: Vec<ActionPerformedEvent<Move>>,
    /// Whether the exit was asked for.
    pub exit_requested: bool,
}

/// A step from `p` in any direction stays within the range of coordinates.
pub open spec fn steppable(p: Point) -> bool {
    i32::MIN < p.x < i32::MAX && i32::MIN < p.y < i32::MAX
}

/// The progress of every actor fits what it performs: it lies below the
/// duration of the movement in flight, and is zero where none is in flight.
pub open spec fn in_step(
    actors: Map<Entity, Actor>,
    movers: Map<Entity, Performer<Move>>,
) -> bool {
    forall|e: Entity| #[trigger]
        actors.contains_key(e) ==> if movers.contains_key(e) {
            actors[e].action_progress.0 < movers[e].duration.0
        } else {
            actors[e].action_progress.0 == 0
        }
}

/// Whether a game can be played on `level`: every cell of it has
/// coordinates.
pub open spec fn playable(level: &Level) -> bool {
    level.spec_width() <= i32::MAX && level.spec_height() <= i32::MAX
}

impl Game {
    pub closed spec fn spec_world(&self) -> World {
        self.world
    }

    pub closed spec fn spec_level(&self) -> Level {
        self.level
    }

    pub closed spec fn spec_camera_position(&self) -> CameraPosition {
        self.camera_position
    }

    pub closed spec fn spec_runner(&self) -> CrosstermRunner {
        self.runner
    }

    /// The movements in flight.
    pub closed spec fn spec_movers(&self) -> Map<Entity, Performer<Move>> {
        self.movers@
    }

    /// The parts are consistent: the level is well formed and playable,
    /// every component and every movement belongs to an entity that has been
    /// spawned, every entity can step from where it stands, and every actor
    /// is in step with its movement.
    pub open spec fn wf(&self) -> bool {
        &&& self.spec_level().wf()
        &&& playable(&self.spec_level())
        &&& self.spec_world().wf()
        &&& forall|e: Entity| #[trigger]
            self.spec_movers().contains_key(e) ==> self.spec_world().is_live(e)
        &&& forall|e: Entity| #[trigger]
            self.spec_world().positions@.contains_key(e) ==> steppable(
                self.spec_world().positions@[e].0,
            )
        &&& in_step(self.spec_world().actors@, self.spec_movers())
    }

    /// A game on `level` with no entity in it, idle, the camera on the
    /// origin. There is none on a level that is not playable.
    pub fn new(level: Level) -> (game: Option<Self>)
        requires
            level.wf(),
        ensures
            game is Some <==> playable(&level),
            game matches Some(game) ==> {
                &&& game.wf()
                &&& game.spec_level() == level
                &&& game.spec_runner().advance_world is None
                &&& game.spec_camera_position().0 == (Point { x: 0, y: 0 })
                &&& game.spec_world().spawned == 0
                &&& game.spec_world().positions@ == Map::<Entity, Position>::empty()
                &&& game.spec_world().actors@ == Map::<Entity, Actor>::empty()
                &&& game.spec_world().players@ == Map::<Entity, Player>::empty()
                &&& game.spec_movers() == Map::<Entity, Performer<Move>>::empty()
            },
    {
        if level.width() > i32::MAX as usize || level.height() > i32::MAX as usize {
            return None;
        }
        Some(
            Game {
                world: World::new(),
                level,
                camera_position: CameraPosition(Point::new(0, 0)),
                runner: CrosstermRunner { advance_world: None },
                movers: Store::new(),
            },
        )
    }

    pub fn world(&self) -> (world: &World)
        ensures
            *world == self.spec_world(),
    {
        &self.world
    }

    pub fn level(&self) -> (level: &Level)
        ensures
            *level == self.spec_level(),
    {
        &self.level
    }

    pub fn camera_position(&self) -> (camera: CameraPosition)
        ensures
            camera == self.spec_camera_position(),
    {
        self.camera_position
    }

    pub fn runner(&self) -> (runner: CrosstermRunner)
        ensures
            runner == self.spec_runner(),
    {
        self.runner
    }

    pub fn movers(&self) -> (movers: &Store<Performer<Move>>)
        ensures
            movers@ == self.spec_movers(),
    {
        &self.movers
    }

    /// Spawns the player in the middle of the level; see `spawn_player`.
    pub fn spawn_player(&mut self) -> (spawned: Option<Entity>)
        requires
            old(self).wf(),
        ensures
            final(self).wf(),
            final(self).spec_level() == old(self).spec_level(),
            final(self).spec_runner() == old(self).spec_runner(),
            final(self).spec_camera_position() == old(self).spec_camera_position(),
            final(self).spec_movers() == old(self).spec_movers(),
            spawned is Some <==> old(self).spec_world().spawned < ID_SPACE,
            spawned is None ==> final(self).spec_world() == old(self).spec_world(),
            spawned matches Some(e) ==> {
                &&& e.id == old(self).spec_world().spawned
                &&& final(self).spec_world().spawned == e.id + 1
                &&& final(self).spec_world().positions@ == old(self).spec_world().positions@.insert(
                    e,
                    Position(middle(&old(self).spec_level())),
                )
                &&& final(self).spec_world().actors@ == old(self).spec_world().actors@.insert(
                    e,
                    Actor { action_progress: Ticks(0) },
                )
                &&& final(self).spec_world().players@ == old(self).spec_world().players@.insert(
                    e,
                    Player,
                )
                &&& final(self).spec_world().game_objects@ == old(self).spec_world().game_objects@
                    .insert(e, GameObject)
                &&& final(self).spec_world().renderables@ == old(self).spec_world().renderables@
                    .insert(e, Renderable { character: '@', visible: true, layer: LAYER_ENTITY })
            },
    {
        spawn_player(&mut self.world, &self.level)
    }

    /// Decides the next step of the run loop; see `runner_step`.
    pub fn step(&mut self, phase: RunnerPhase, exit_requested: bool) -> (next: (
        RunnerAction,
        RunnerPhase,
    ))
        requires
            old(self).wf(),
        ensures
            final(self).wf(),
            (final(self).spec_runner(), next.0, next.1) == runner_step_spec(
                old(self).spec_runner(),
                phase,
                exit_requested,
            ),
            final(self).spec_world() == old(self).spec_world(),
            final(self).spec_level() == old(self).spec_level(),
            final(self).spec_camera_position() == old(self).spec_camera_position(),
            final(self).spec_movers() == old(self).spec_movers(),
    {
        runner_step(&mut self.runner, phase, exit_requested)
    }

    /// Draws the frame around the camera; see `crossterm_render`.
    pub fn render(&self, size: (u16, u16)) -> (frame: Option<Vec<Vec<char>>>)
        requires
            self.wf(),
            !self.spec_runner().is_world_tick() ==> window_fits(
                self.spec_camera_position().0,
                size,
            ),
        ensures
            self.spec_runner().is_world_tick() ==> frame is None,
            !self.spec_runner().is_world_tick() ==> {
                &&& frame matches Some(grid)
                &&& grid@.len() == size.1
                &&& forall|r: int| 0 <= r < size.1 ==> (#[trigger] grid@[r])@.len() == size.0
                &&& forall|r: int, c: int|
                    0 <= r < size.1 && 0 <= c < size.0 ==> cell_shows(
                        &self.spec_level(),
                        self.spec_world().positions@,
                        self.spec_world().renderables@,
                        cell_point(window_start(self.spec_camera_position().0, size), r, c),
                        #[trigger] grid@[r]@[c],
                    )
            },
    {
        crossterm_render(
            &self.runner,
            size,
            &self.camera_position,
            &self.level,
            &self.world.positions,
            &self.world.renderables,
        )
    }

    /// Runs the pipeline once: input, then control, then progress, then
    /// commit, then the resolution of what progress completed.
    ///
    /// The input is sampled only while the runner is idle. Control may
    /// propose a step; progress advances the movements in flight if the
    /// countdown has a tick left; commit attaches the proposals that the
    /// level admits and arms the runner for the player's; the movements that
    /// progress completed are applied where the level still allows them.
    /// Proposals and notices live for this pass only. A pass that starts
    /// while the runner is resolving leaves the countdown as it is, and the
    /// flush pass of a countdown that has run out changes nothing but the
    /// camera.
    pub fn update(&mut self, input: &mut Input<KeyId>, events: &Vec<TerminalEvent>) -> (report:
        PassReport)
        requires
            old(self).wf(),
        ensures
            final(self).wf(),
            old(self).spec_runner().is_world_tick() ==> *final(input) == *old(input),
            !old(self).spec_runner().is_world_tick() ==> {
                &&& input_pressed(*final(input)) == pressed_after(events@)
                &&& input_just_pressed(*final(input)) == just_pressed_after(events@)
            },
            report.exit_requested == input_just_pressed(*final(input)).contains(ESC_KEY),
            old(self).spec_runner().is_world_tick() ==> final(self).spec_runner() == old(self)
                .spec_runner(),
            !old(self).spec_runner().has_tick() ==> {
                &&& final(self).spec_world().actors@ == old(self).spec_world().actors@
                &&& final(self).spec_world().positions@ == old(self).spec_world().positions@
                &&& report.performed@ == Seq::<ActionPerformedEvent<Move>>::empty()
            },
            old(self).spec_runner().is_world_tick() ==> final(self).spec_movers() == (if old(self)
                .spec_runner().has_tick() {
                ticked_performers(old(self).spec_world().actors@, old(self).spec_movers())
            } else {
                old(self).spec_movers()
            }),
            final(self).spec_level() == old(self).spec_level(),
            final(self).spec_world().spawned == old(self).spec_world().spawned,
            final(self).spec_world().players == old(self).spec_world().players,
            final(self).spec_world().renderables == old(self).spec_world().renderables,
            final(self).spec_world().game_objects == old(self).spec_world().game_objects,
            ({
                let control = controlled(
                    old(self).spec_runner(),
                    old(self).spec_camera_position(),
                    input_pressed(*final(input)),
                    &old(self).spec_level(),
                    old(self).spec_world().players@,
                    old(self).spec_world().positions@,
                    Seq::empty(),
                );
                let ticking = old(self).spec_runner().has_tick();
                let actors = old(self).spec_world().actors@;
                let movers = old(self).spec_movers();
                let notices = if ticking {
                    performed(actors, movers)
                } else {
                    Seq::empty()
                };
                let commit = queued_outcome(
                    &old(self).spec_level(),
                    old(self).spec_world().positions@,
                    old(self).spec_world().players@,
                    if ticking {
                        ticked_performers(actors, movers)
                    } else {
                        movers
                    },
                    old(self).spec_runner(),
                    control.1,
                );
                &&& final(self).spec_camera_position() == control.0
                &&& final(self).spec_world().actors@ == (if ticking {
                    ticked_actors(actors, movers)
                } else {
                    actors
                })
                &&& final(self).spec_movers() == commit.0
                &&& final(self).spec_runner() == commit.1
                &&& final(self).spec_world().positions@ == moved_positions(
                    &old(self).spec_level(),
                    old(self).spec_world().positions@,
                    notices,
                )
                &&& report.performed@ == notices
            }),
    {
        let ghost positions = self.world.positions@;
        let ghost actors = self.world.actors@;
        let ghost movers = self.movers@;
        let mut queued: Vec<ActionQueuedEvent<Move>> = Vec::new();
        let mut notices: Vec<ActionPerformedEvent<Move>> = Vec::new();
        crossterm_read_input(&self.runner, input, events);
        proof {
            match first_player_of(self.world.players@, positions) {
                Some(player) => {
                    assert(is_first_player(self.world.players@, positions, player));
                    assert(steppable(positions[player].0));
                },
                None => {},
            }
        }
        control_player(
            &self.runner,
            &mut self.camera_position,
            input,
            &self.level,
            &self.world.players,
            &self.world.positions,
            &mut queued,
        );
        tick_action(&self.runner, &mut self.world.actors, &mut self.movers, &mut notices);
        let ghost movers_ticked = self.movers@;
        let ghost runner_controlled = self.runner;
        assert(notices@ =~= if self.runner.has_tick() {
            performed(actors, movers)
        } else {
            Seq::empty()
        });
        assert(proposals_fit(positions, queued@));
        movement_queued(
            &self.level,
            &queued,
            &self.world.positions,
            &self.world.players,
            &mut self.movers,
            &mut self.runner,
        );
        proof {
            assert forall|e: Entity| #[trigger] self.movers@.contains_key(e) implies {
                &&& self.world.is_live(e)
                &&& self.world.actors@.contains_key(e) ==> self.world.actors@[e].action_progress.0
                    < self.movers@[e].duration.0
            } by {
                lemma_queued_only_walkable(
                    &self.level,
                    positions,
                    self.world.players@,
                    movers_ticked,
                    runner_controlled,
                    queued@,
                    e,
                );
                lemma_queued_durations(
                    &self.level,
                    positions,
                    self.world.players@,
                    movers_ticked,
                    runner_controlled,
                    queued@,
                    e,
                );
                if self.world.actors@.contains_key(e) {
                    assert(actors.contains_key(e));
                }
            }
            assert forall|e: Entity|
                self.world.actors@.contains_key(e) && !self.movers@.contains_key(
                    e,
                ) implies self.world.actors@[e].action_progress.0 == 0 by {
                assert(actors.contains_key(e));
                lemma_queued_only_walkable(
                    &self.level,
                    positions,
                    self.world.players@,
                    movers_ticked,
                    runner_controlled,
                    queued@,
                    e,
                );
            }
            assert forall|i: int| 0 <= i < notices@.len() implies ({
                let before = moved_positions(&self.level, positions, notices@.take(i));
                before.contains_key(#[trigger] notices@[i].performer) ==> steppable(
                    before[notices@[i].performer].0,
                )
            }) by {
                lemma_moved_only_to_walkable(
                    &self.level,
                    positions,
                    notices@.take(i),
                    notices@[i].performer,
                );
            }
            assert(movements_fit(&self.level, positions, notices@));
        }
        perform_movement(&self.level, &notices, &mut self.world.positions);
        proof {
            assert forall|e: Entity| #[trigger]
                self.world.positions@.contains_key(e) implies steppable(
                self.world.positions@[e].0,
            ) && self.world.is_live(e) by {
                lemma_moved_only_to_walkable(&self.level, positions, notices@, e);
            }
        }
        let exit_requested = exit_on_esc(input);
        PassReport { performed: notices, exit_requested }
    }
}

} // verus!
