//! The keys: what the terminal reports of them, and the key state that the
//! control stage reads.

use crate::crossterm_plugin::CrosstermRunner;
use bevy::input::Input;
use vstd::prelude::*;

verus! {

/// The key state of the `bevy` crate, `bevy::input::Input`: three sets of
/// keys, of which the two that are read here go by the names below. Nothing
/// of its inside is visible to the proofs; what is said of it is taken from
/// its source on trust.
#[verifier::external_type_specification]
#[verifier::external_body]
#[verifier::reject_recursive_types(T)]
pub struct ExInput<T: core::cmp::Eq + core::hash::Hash>(Input<T>);

/// A key, as a number: a character key is its code point, and every other
/// key has a number above all code points.
pub type KeyId = u32;

/// The escape key.
pub const ESC_KEY: u32 = 0x11_0000;

/// The keys that the key state holds as pressed.
pub uninterp spec fn input_pressed(input: Input<u32>) -> Set<u32>;

/// The keys that the key state holds as pressed since it was last reset.
pub uninterp spec fn input_just_pressed(input: Input<u32>) -> Set<u32>;

/// Calls `bevy::input::Input::press`, trusted to do as its source does: the
/// key counts as pressed from now on, and as just pressed too unless it was
/// pressed already.
#[verifier::external_body]
fn input_press(input: &mut Input<KeyId>, key: KeyId)
    ensures
        input_pressed(*final(input)) == input_pressed(*old(input)).insert(key),
        input_just_pressed(*final(input)) == (if input_pressed(*old(input)).contains(key) {
            input_just_pressed(*old(input))
        } else {
            input_just_pressed(*old(input)).insert(key)
        }),
{
    input.press(key)
}

/// Calls `bevy::input::Input::release`, trusted to do as its source does:
/// the key no longer counts as pressed, and what counts as just pressed
/// stays as it is.
#[verifier::external_body]
fn input_release(input: &mut Input<KeyId>, key: KeyId)
    ensures
        input_pressed(*final(input)) == input_pressed(*old(input)).remove(key),
        input_just_pressed(*final(input)) == input_just_pressed(*old(input)),
{
    input.release(key)
}

/// Calls `bevy::input::Input::reset_all`, trusted to do as its source does:
/// no key counts as pressed or as just pressed any more.
#[verifier::external_body]
fn input_reset_all(input: &mut Input<KeyId>)
    ensures
        input_pressed(*final(input)) == Set::<u32>::empty(),
        input_just_pressed(*final(input)) == Set::<u32>::empty(),
{
    input.reset_all()
}

/// Calls `bevy::input::Input::pressed`, trusted to tell whether the key
/// counts as pressed.
#[verifier::external_body]
pub(crate) fn input_is_pressed(input: &Input<KeyId>, key: KeyId) -> (b: bool)
    ensures
        b == input_pressed(*input).contains(key),
{
    input.pressed(key)
}

/// Calls `bevy::input::Input::just_pressed`, trusted to tell whether the key
/// counts as just pressed.
#[verifier::external_body]
fn input_is_just_pressed(input: &Input<KeyId>, key: KeyId) -> (b: bool)
    ensures
        b == input_just_pressed(*input).contains(key),
{
    input.just_pressed(key)
}

/// The number of a character key.
pub open spec fn spec_char_key(c: char) -> KeyId {
    c as u32
}

#[verifier::when_used_as_spec(spec_char_key)]
pub fn char_key(c: char) -> (key: KeyId)
    ensures
        key == spec_char_key(c),
{
    c as u32
}

/// What a key event reports of its key.
#[derive(Clone, Copy, Debug, PartialEq, Eq, Structural)]
pub enum KeyEventKind {
    Press,
    Repeat,
    Release,
}

/// What the terminal reports: a key event, or something else.
#[derive(Clone, Copy, Debug)]
pub enum TerminalEvent {
    Key { code: KeyId, kind: KeyEventKind },
    Other,
}

/// The keys that count as pressed once the events are worked off in order,
/// starting with no key pressed.
pub open spec fn pressed_after(events: Seq<TerminalEvent>) -> Set<KeyId>
    decreases events.len(),
{
    if events.len() == 0 {
        Set::empty()
    } else {
        let before = pressed_after(events.drop_last());
        match events.last() {
            TerminalEvent::Key { code, kind: KeyEventKind::Press } => before.insert(code),
            TerminalEvent::Key { code, kind: KeyEventKind::Release } => before.remove(code),
            _ => before,
        }
    }
}

/// The keys that count as just pressed once the events are worked off in
/// order: every key that was pressed while it was not held down.
pub open spec fn just_pressed_after(events: Seq<TerminalEvent>) -> Set<KeyId>
    decreases events.len(),
{
    if events.len() == 0 {
        Set::empty()
    } else {
        let before = just_pressed_after(events.drop_last());
        match events.last() {
            TerminalEvent::Key { code, kind: KeyEventKind::Press } => {
                if pressed_after(events.drop_last()).contains(code) {
                    before
                } else {
                    before.insert(code)
                }
            },
            _ => before,
        }
    }
}

/// Samples the input: forgets the old key state and works off what the
/// terminal has reported. While ticks are resolved the key state is left
/// untouched, so that a key held down is neither lost nor counted twice.
pub fn crossterm_read_input(
    runner: &CrosstermRunner,
    input: &mut Input<KeyId>,
    events: &Vec<TerminalEvent>,
)
    ensures
        runner.is_world_tick() ==> *final(input) == *old(input),
        !runner.is_world_tick() ==> {
            &&& input_pressed(*final(input)) == pressed_after(events@)
            &&& input_just_pressed(*final(input)) == just_pressed_after(events@)
        },
{
    if runner.is_world_tick() {
        return ;
    }
    input_reset_all(input);
    let mut i: usize = 0;
    while i < events.len()
        invariant
            i <= events.len(),
            input_pressed(*input) == pressed_after(events@.take(i as int)),
            input_just_pressed(*input) == just_pressed_after(events@.take(i as int)),
        decreases events.len() - i,
    {
        proof {
            assert(events@.take(i + 1).drop_last() =~= events@.take(i as int));
            assert(events@.take(i + 1).last() == events@[i as int]);
        }
        match events[i] {
            TerminalEvent::Key { code, kind } => {
                match kind {
                    KeyEventKind::Press => input_press(input, code),
                    KeyEventKind::Release => input_release(input, code),
                    _ => (),
                }
            },
            _ => (),
        }
        i += 1;
    }
    proof {
        assert(events@.take(events.len() as int) =~= events@);
    }
}

/// Whether the exit is asked for: the escape key has just been pressed.
pub fn exit_on_esc(input: &Input<KeyId>) -> (exit: bool)
    ensures
        exit == input_just_pressed(*input).contains(ESC_KEY),
{
    input_is_just_pressed(input, ESC_KEY)
}

} // verus!
