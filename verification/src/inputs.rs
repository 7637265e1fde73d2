//! What the player asks for, read from the state of the keys.

use vstd::prelude::*;

verus! {

/// An action the player asks for. A direction is given by its sign along
/// each axis, `x` to the right and `y` upwards; a rotation by its sign,
/// positive for counterclockwise.
#[derive(Clone, Copy, Debug, PartialEq, Eq, Structural)]
pub enum InputAction {
    Break,
    Move { x: i8, y: i8 },
    SpacePressed,
    Shoot,
    Rotate { factor: i8 },
}

/// The keys that matter, each as held down or not, but for the two that
/// count at the moment they change.
#[derive(Clone, Copy, Debug, PartialEq, Eq, Structural)]
pub struct KeyState {
    /// The space bar was let go of in this tick.
    pub space_just_released: bool,
    pub w: bool,
    pub s: bool,
    pub a: bool,
    pub d: bool,
    pub x: bool,
    /// `G` went down in this tick.
    pub g_just_pressed: bool,
    pub q: bool,
    pub e: bool,
}

/// `action` as a one-element sequence if `wanted`, the empty sequence otherwise.
pub open spec fn when(wanted: bool, action: InputAction) -> Seq<InputAction> {
    if wanted {
        seq![action]
    } else {
        Seq::empty()
    }
}

/// Where two opposite keys push: one step towards the first if it alone is
/// down, one step towards the second if that alone is down, nowhere otherwise.
pub open spec fn spec_axis(positive: bool, negative: bool) -> i8 {
    if positive && !negative {
        1i8
    } else if negative && !positive {
        -1i8
    } else {
        0i8
    }
}

/// The actions that a state of the keys asks for, in the order in which they
/// are sent: taking or leaving the controls, moving, braking, shooting,
/// turning left, turning right.
pub open spec fn spec_keyboard_input(keys: KeyState) -> Seq<InputAction> {
    let x = spec_axis(keys.d, keys.a);
    let y = spec_axis(keys.w, keys.s);
    when(keys.space_just_released, InputAction::SpacePressed) + when(
        x != 0 || y != 0,
        InputAction::Move { x, y },
    ) + when(keys.x, InputAction::Break) + when(keys.g_just_pressed, InputAction::Shoot) + when(
        keys.q,
        InputAction::Rotate { factor: 1i8 },
    ) + when(keys.e, InputAction::Rotate { factor: -1i8 })
}

/// Where two opposite keys push.
fn axis(positive: bool, negative: bool) -> (step: i8)
    ensures
        step == spec_axis(positive, negative),
{
    if positive && !negative {
        1
    } else if negative && !positive {
        -1
    } else {
        0
    }
}

/// Adds `action` to `actions` if `wanted`.
fn send(actions: &mut Vec<InputAction>, wanted: bool, action: InputAction)
    ensures
        final(actions)@ == old(actions)@ + when(wanted, action),
{
    if wanted {
        actions.push(action);
    }
    assert(actions@ =~= old(actions)@ + when(wanted, action));
}

/// Reads the actions of this tick from the keys.
pub fn keyboard_input(keys: &KeyState) -> (actions: Vec<InputAction>)
    ensures
        actions@ == spec_keyboard_input(*keys),
{
    let mut actions: Vec<InputAction> = Vec::new();
    assert(actions@ =~= Seq::empty());
    send(&mut actions, keys.space_just_released, InputAction::SpacePressed);
    let x = axis(keys.d, keys.a);
    let y = axis(keys.w, keys.s);
    send(&mut actions, x != 0 || y != 0, InputAction::Move { x, y });
    send(&mut actions, keys.x, InputAction::Break);
    send(&mut actions, keys.g_just_pressed, InputAction::Shoot);
    send(&mut actions, keys.q, InputAction::Rotate { factor: 1 });
    send(&mut actions, keys.e, InputAction::Rotate { factor: -1 });
    assert(actions@ =~= spec_keyboard_input(*keys));
    actions
}

} // verus!
