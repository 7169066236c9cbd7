//! The action channel: how an action of one kind is committed to an entity,
//! advanced tick by tick, and reported when it completes.

pub mod movement_plugin;

use crate::crossterm_plugin::CrosstermRunner;
use crate::player_plugin::Player;
use crate::store::{Entity, Store, ID_SPACE};
use vstd::prelude::*;

verus! {

/// Simulation ticks per simulated second.
pub const TICKS_PER_SECOND: u32 = 12;

/// A count of simulation ticks.
#[derive(Clone, Copy, Debug, PartialEq, Eq, Structural)]
pub struct Ticks(pub u32);

impl Ticks {
    /// No ticks: the progress of an entity that performs nothing.
    pub fn zero() -> (t: Self)
        ensures
            t == Ticks(0),
    {
        Ticks(0)
    }

    /// The whole ticks that fit into `millis` milliseconds of simulated time.
    pub fn from_millis(millis: u32) -> (t: Self)
        ensures
            t.0 == millis * TICKS_PER_SECOND / 1000,
    {
        let per_second: u64 = TICKS_PER_SECOND as u64;
        assert(millis * per_second <= 0xFFFF_FFFF * 12) by (nonlinear_arith)
            requires
                per_second == 12,
                millis <= 0xFFFF_FFFF,
        ;
        let ticks: u64 = millis as u64 * per_second / 1000;
        Ticks(ticks as u32)
    }
}

/// An entity's progress through the action it is performing.
#[derive(Clone, Copy, Debug)]
pub struct Actor {
    pub action_progress: Ticks,
}

impl Actor {
    /// An actor that performs nothing yet.
    pub fn new() -> (a: Self)
        ensures
            a.action_progress == Ticks(0),
    {
        Self { action_progress: Ticks::zero() }
    }
}

/// An action of kind `T` in flight: attached to the entity that performs it.
#[derive(Clone, Copy, Debug)]
pub struct Performer<T> {
    pub duration: Ticks,
    pub action_data: T,
}

/// A proposal that `performer` spend `duration` ticks on `action`.
#[derive(Clone, Copy, Debug)]
pub struct ActionQueuedEvent<T> {
    pub performer: Entity,
    pub duration: Ticks,
    pub action: T,
}

/// Notice that `performer` has completed `action`.
#[derive(Clone, Copy, Debug)]
pub struct ActionPerformedEvent<T> {
    pub performer: Entity,
    pub action: T,
}

/// The performers after a proposal is committed: the entity is claimed unless
/// it is busy already, in which case the proposal is dropped.
pub open spec fn commit_performers<T>(
    performers: Map<Entity, Performer<T>>,
    event: ActionQueuedEvent<T>,
) -> Map<Entity, Performer<T>> {
    if performers.contains_key(event.performer) {
        performers
    } else {
        performers.insert(
            event.performer,
            Performer { duration: event.duration, action_data: event.action },
        )
    }
}

/// The runner after a proposal is committed: an accepted proposal of a player
/// arms the countdown with the action's duration, whatever it held before.
pub open spec fn commit_runner<T>(
    runner: CrosstermRunner,
    performers: Map<Entity, Performer<T>>,
    players: Map<Entity, Player>,
    event: ActionQueuedEvent<T>,
) -> CrosstermRunner {
    if !performers.contains_key(event.performer) && players.contains_key(event.performer) {
        CrosstermRunner { advance_world: Some(event.duration) }
    } else {
        runner
    }
}

impl<T> ActionQueuedEvent<T> {
    /// Commits the proposal, which hands its action over to the performer.
    pub fn pass_down(
        self,
        performers: &mut Store<Performer<T>>,
        players: &Store<Player>,
        runner: &mut CrosstermRunner,
    )
        requires
            self.duration.0 >= 1,
        ensures
            final(performers)@ == commit_performers(old(performers)@, self),
            *final(runner) == commit_runner(*old(runner), old(performers)@, players@, self),
    {
        if !performers.contains(self.performer) {
            performers.insert(
                self.performer,
                Performer { duration: self.duration, action_data: self.action },
            );
            if players.contains(self.performer) {
                runner.advance_world = Some(self.duration);
            }
        }
    }
}

/// The performers after the proposals are committed in order.
pub open spec fn committed<T>(
    performers: Map<Entity, Performer<T>>,
    events: Seq<ActionQueuedEvent<T>>,
) -> Map<Entity, Performer<T>>
    decreases events.len(),
{
    if events.len() == 0 {
        performers
    } else {
        commit_performers(committed(performers, events.drop_last()), events.last())
    }
}

/// The place of the first proposal made for `e`, if there is one.
pub open spec fn first_for<T>(events: Seq<ActionQueuedEvent<T>>, e: Entity) -> Option<int>
    decreases events.len(),
{
    if events.len() == 0 {
        None
    } else {
        match first_for(events.drop_last(), e) {
            Some(i) => Some(i),
            None => if events.last().performer == e {
                Some(events.len() - 1)
            } else {
                None
            },
        }
    }
}

/// However many proposals are committed, an entity holds at most one
/// performer of a kind at a time: a busy entity keeps the one it has, and an
/// idle entity gets that of the first proposal made for it, which no later
/// proposal replaces.
pub proof fn lemma_commit_claims_once<T>(
    performers: Map<Entity, Performer<T>>,
    events: Seq<ActionQueuedEvent<T>>,
    e: Entity,
)
    ensures
        performers.contains_key(e) ==> {
            &&& committed(performers, events).contains_key(e)
            &&& committed(performers, events)[e] == performers[e]
        },
        !performers.contains_key(e) ==> match first_for(events, e) {
            Some(i) => {
                &&& 0 <= i < events.len()
                &&& events[i].performer == e
                &&& committed(performers, events).contains_key(e)
                &&& committed(performers, events)[e] == Performer {
                    duration: events[i].duration,
                    action_data: events[i].action,
                }
            },
            None => !committed(performers, events).contains_key(e),
        },
    decreases events.len(),
{
    if events.len() > 0 {
        lemma_commit_claims_once(performers, events.drop_last(), e);
    }
}

/// Whether `e` is performing an action of the kind: it holds both an actor
/// and a performer.
pub open spec fn engaged<T>(
    actors: Map<Entity, Actor>,
    performers: Map<Entity, Performer<T>>,
    e: Entity,
) -> bool {
    actors.contains_key(e) && performers.contains_key(e)
}

/// Whether the next tick completes the action that `e` performs.
pub open spec fn completes<T>(
    actors: Map<Entity, Actor>,
    performers: Map<Entity, Performer<T>>,
    e: Entity,
) -> bool {
    engaged(actors, performers, e) && actors[e].action_progress.0 + 1 == performers[e].duration.0
}

/// The actor of `e` after one tick: an engaged entity advances by one, and
/// starts over at zero when that completes its action.
pub open spec fn ticked_actor<T>(
    actors: Map<Entity, Actor>,
    performers: Map<Entity, Performer<T>>,
    e: Entity,
) -> Actor {
    if !engaged(actors, performers, e) {
        actors[e]
    } else if completes(actors, performers, e) {
        Actor { action_progress: Ticks(0) }
    } else {
        Actor { action_progress: Ticks((actors[e].action_progress.0 + 1) as u32) }
    }
}

/// All actors after one tick.
pub open spec fn ticked_actors<T>(
    actors: Map<Entity, Actor>,
    performers: Map<Entity, Performer<T>>,
) -> Map<Entity, Actor> {
    Map::new(|e: Entity| actors.contains_key(e), |e: Entity| ticked_actor(actors, performers, e))
}

/// The performers after one tick: those whose action completes are gone.
pub open spec fn ticked_performers<T>(
    actors: Map<Entity, Actor>,
    performers: Map<Entity, Performer<T>>,
) -> Map<Entity, Performer<T>> {
    Map::new(
        |e: Entity| performers.contains_key(e) && !completes(actors, performers, e),
        |e: Entity| performers[e],
    )
}

/// The completion notices of one tick for the entities with an identifier
/// below `n`, in ascending order of identifier.
pub open spec fn performed_below<T>(
    actors: Map<Entity, Actor>,
    performers: Map<Entity, Performer<T>>,
    n: nat,
) -> Seq<ActionPerformedEvent<T>>
    decreases n,
{
    if n == 0 {
        Seq::empty()
    } else {
        let e = Entity { id: (n - 1) as u32 };
        let before = performed_below(actors, performers, (n - 1) as nat);
        if completes(actors, performers, e) {
            before.push(ActionPerformedEvent { performer: e, action: performers[e].action_data })
        } else {
            before
        }
    }
}

/// The completion notices of one tick: one for each entity whose action
/// completes, in ascending order of identifier.
pub open spec fn performed<T>(
    actors: Map<Entity, Actor>,
    performers: Map<Entity, Performer<T>>,
) -> Seq<ActionPerformedEvent<T>> {
    performed_below(actors, performers, ID_SPACE as nat)
}

/// No engaged entity has used up the range of the tick counter.
pub open spec fn can_tick<T>(
    actors: Map<Entity, Actor>,
    performers: Map<Entity, Performer<T>>,
) -> bool {
    forall|e: Entity| #[trigger]
        engaged(actors, performers, e) ==> actors[e].action_progress.0 < u32::MAX
}

/// Identifiers at or above every performer add no completion notice.
pub proof fn lemma_performed_below_stable<T>(
    actors: Map<Entity, Actor>,
    performers: Map<Entity, Performer<T>>,
    n: nat,
    m: nat,
)
    requires
        n <= m <= ID_SPACE,
        forall|e: Entity| performers.contains_key(e) ==> e.id < n,
    ensures
        performed_below(actors, performers, m) == performed_below(actors, performers, n),
    decreases m - n,
{
    if n < m {
        lemma_performed_below_stable(actors, performers, n, (m - 1) as nat);
        let e = Entity { id: (m - 1) as u32 };
        assert(!performers.contains_key(e));
    }
}

/// Advances every action of the kind by one tick, while the countdown has a
/// tick left to resolve.
///
/// An entity whose progress reaches the duration starts over at zero, loses
/// its performer, and has a completion notice written for it, which takes
/// the action over from the performer. While the runner is idle, and in the
/// pass that flushes a countdown that has run out, nothing changes.
pub fn tick_action<T>(
    runner: &CrosstermRunner,
    actors: &mut Store<Actor>,
    performers: &mut Store<Performer<T>>,
    event_writer: &mut Vec<ActionPerformedEvent<T>>,
)
    requires
        runner.has_tick() ==> can_tick(old(actors)@, old(performers)@),
    ensures
        !runner.has_tick() ==> {
            &&& final(actors)@ == old(actors)@
            &&& final(performers)@ == old(performers)@
            &&& final(event_writer)@ == old(event_writer)@
        },
        runner.has_tick() ==> {
            &&& final(actors)@ == ticked_actors(old(actors)@, old(performers)@)
            &&& final(performers)@ == ticked_performers(old(actors)@, old(performers)@)
            &&& final(event_writer)@ == old(event_writer)@ + performed(
                old(actors)@,
                old(performers)@,
            )
        },
{
    if !runner.has_tick() {
        return ;
    }
    let ghost actors_before = actors@;
    let ghost performers_before = performers@;
    let ghost events_before = event_writer@;
    let limit = performers.bound();
    let mut j: u64 = 0;
    while j < limit
        invariant
            j <= limit <= ID_SPACE,
            forall|e: Entity| performers_before.contains_key(e) ==> e.id < limit,
            can_tick(actors_before, performers_before),
            actors@ =~= Map::new(
                |e: Entity| actors_before.contains_key(e),
                |e: Entity|
                    if e.id < j {
                        ticked_actor(actors_before, performers_before, e)
                    } else {
                        actors_before[e]
                    },
            ),
            performers@ =~= Map::new(
                |e: Entity|
                    performers_before.contains_key(e) && !(e.id < j && completes(
                        actors_before,
                        performers_before,
                        e,
                    )),
                |e: Entity| performers_before[e],
            ),
            event_writer@ == events_before + performed_below(
                actors_before,
                performers_before,
                j as nat,
            ),
        decreases limit - j,
    {
        let e = Entity { id: j as u32 };
        let progress = match actors.get(e) {
            Some(actor) => Some(actor.action_progress),
            None => None,
        };
        let duration = match performers.get(e) {
            Some(performer) => Some(performer.duration),
            None => None,
        };
        assert(engaged(actors_before, performers_before, e) <==> (progress is Some
            && duration is Some));
        if let Some(progress) = progress {
            if let Some(duration) = duration {
                assert(engaged(actors_before, performers_before, e));
                let next = progress.0 + 1;
                if next == duration.0 {
                    actors.insert(e, Actor { action_progress: Ticks::zero() });
                    if let Some(done) = performers.remove(e) {
                        event_writer.push(
                            ActionPerformedEvent { performer: e, action: done.action_data },
                        );
                    }
                } else {
                    actors.insert(e, Actor { action_progress: Ticks(next) });
                }
            }
        }
        j += 1;
    }
    proof {
        lemma_performed_below_stable(
            actors_before,
            performers_before,
            limit as nat,
            ID_SPACE as nat,
        );
        assert(actors@ =~= ticked_actors(actors_before, performers_before));
        assert(performers@ =~= ticked_performers(actors_before, performers_before));
    }
}

/// The actors and the performers after `k` ticks.
pub open spec fn after_ticks<T>(
    actors: Map<Entity, Actor>,
    performers: Map<Entity, Performer<T>>,
    k: nat,
) -> (Map<Entity, Actor>, Map<Entity, Performer<T>>)
    decreases k,
{
    if k == 0 {
        (actors, performers)
    } else {
        let before = after_ticks(actors, performers, (k - 1) as nat);
        (ticked_actors(before.0, before.1), ticked_performers(before.0, before.1))
    }
}

/// The completion notices written during the first `k` ticks, in order.
pub open spec fn performed_during<T>(
    actors: Map<Entity, Actor>,
    performers: Map<Entity, Performer<T>>,
    k: nat,
) -> Seq<ActionPerformedEvent<T>>
    decreases k,
{
    if k == 0 {
        Seq::empty()
    } else {
        let before = after_ticks(actors, performers, (k - 1) as nat);
        performed_during(actors, performers, (k - 1) as nat) + performed(before.0, before.1)
    }
}

/// The number of completion notices written for `e`.
pub open spec fn notices_for<T>(events: Seq<ActionPerformedEvent<T>>, e: Entity) -> nat
    decreases events.len(),
{
    if events.len() == 0 {
        0
    } else {
        notices_for(events.drop_last(), e) + if events.last().performer == e {
            1nat
        } else {
            0nat
        }
    }
}

proof fn lemma_notices_add<T>(
    first: Seq<ActionPerformedEvent<T>>,
    second: Seq<ActionPerformedEvent<T>>,
    e: Entity,
)
    ensures
        notices_for(first + second, e) == notices_for(first, e) + notices_for(second, e),
    decreases second.len(),
{
    if second.len() == 0 {
        assert(first + second =~= first);
    } else {
        lemma_notices_add(first, second.drop_last(), e);
        assert((first + second).drop_last() =~= first + second.drop_last());
    }
}

proof fn lemma_notices_below<T>(
    actors: Map<Entity, Actor>,
    performers: Map<Entity, Performer<T>>,
    e: Entity,
    n: nat,
)
    requires
        n <= ID_SPACE,
    ensures
        notices_for(performed_below(actors, performers, n), e) == (if e.id < n && completes(
            actors,
            performers,
            e,
        ) {
            1nat
        } else {
            0nat
        }),
    decreases n,
{
    if n > 0 {
        lemma_notices_below(actors, performers, e, (n - 1) as nat);
        let at = Entity { id: (n - 1) as u32 };
        let before = performed_below(actors, performers, (n - 1) as nat);
        if completes(actors, performers, at) {
            let notice = ActionPerformedEvent { performer: at, action: performers[at].action_data };
            assert(before.push(notice).drop_last() =~= before);
        }
    }
}

/// One tick writes exactly one completion notice for an entity whose action
/// it completes, and none for any other entity.
pub proof fn lemma_one_notice<T>(
    actors: Map<Entity, Actor>,
    performers: Map<Entity, Performer<T>>,
    e: Entity,
)
    ensures
        notices_for(performed(actors, performers), e) == (if completes(actors, performers, e) {
            1nat
        } else {
            0nat
        }),
{
    lemma_notices_below(actors, performers, e, ID_SPACE as nat);
}

/// An action of `d` ticks, taken up by an actor at progress zero, is in
/// flight for exactly `d` ticks. After `k < d` ticks its performer is still
/// attached, the progress is `k`, and no completion notice has been written
/// for the entity. After `d` ticks the performer is gone, the progress is
/// zero again, and exactly one notice has been written.
pub proof fn lemma_progress<T>(
    actors: Map<Entity, Actor>,
    performers: Map<Entity, Performer<T>>,
    e: Entity,
    k: nat,
)
    requires
        engaged(actors, performers, e),
        actors[e].action_progress.0 == 0,
        performers[e].duration.0 >= 1,
        k <= performers[e].duration.0,
    ensures
        after_ticks(actors, performers, k).0.contains_key(e),
        k < performers[e].duration.0 ==> {
            &&& after_ticks(actors, performers, k).1.contains_key(e)
            &&& after_ticks(actors, performers, k).1[e] == performers[e]
            &&& after_ticks(actors, performers, k).0[e].action_progress.0 == k
            &&& notices_for(performed_during(actors, performers, k), e) == 0
        },
        k == performers[e].duration.0 ==> {
            &&& !after_ticks(actors, performers, k).1.contains_key(e)
            &&& after_ticks(actors, performers, k).0[e].action_progress.0 == 0
            &&& notices_for(performed_during(actors, performers, k), e) == 1
        },
    decreases k,
{
    if k > 0 {
        lemma_progress(actors, performers, e, (k - 1) as nat);
        let before = after_ticks(actors, performers, (k - 1) as nat);
        lemma_one_notice(before.0, before.1, e);
        lemma_notices_add(
            performed_during(actors, performers, (k - 1) as nat),
            performed(before.0, before.1),
            e,
        );
    }
}

} // verus!
