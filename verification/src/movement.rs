//! The direction in which the movement keys ask the player to walk.
//!
//! The camera looks down on the arena, so the keys map onto the ground plane:
//! `W` walks towards negative x, `S` towards positive x, `A` towards positive z
//! and `D` towards negative z.

use vstd::prelude::*;

verus! {

/// Which of the four movement keys are held down.
#[derive(Clone, Copy, Debug, PartialEq, Eq, Structural)]
pub struct MovementKeys {
    pub w: bool,
    pub a: bool,
    pub s: bool,
    pub d: bool,
}

/// A step on the ground plane, each component -1, 0 or 1; it is scaled to unit
/// length, speed and frame time by the caller.
#[derive(Clone, Copy, Debug, PartialEq, Eq, Structural)]
pub struct StepDirection {
    pub x: i8,
    pub z: i8,
}

/// One component of the step: +1 for the key that adds, -1 for the key that
/// takes away, so that two opposite keys cancel.
pub open spec fn key_axis(plus: bool, minus: bool) -> int {
    (if plus {
        1int
    } else {
        0int
    }) - (if minus {
        1int
    } else {
        0int
    })
}

/// The step that the held keys ask for.
pub open spec fn step_of(keys: MovementKeys) -> (int, int) {
    (key_axis(keys.s, keys.w), key_axis(keys.a, keys.d))
}

/// The direction in which the held keys move the player: `A` adds one to z,
/// `D` takes one from z, `W` takes one from x and `S` adds one to x.
pub fn movement_direction(keys: MovementKeys) -> (step: StepDirection)
    ensures
        (step.x as int, step.z as int) == step_of(keys),
{
    let mut x: i8 = 0;
    let mut z: i8 = 0;
    if keys.a {
        z = z + 1;
    }
    if keys.d {
        z = z - 1;
    }
    if keys.w {
        x = x - 1;
    }
    if keys.s {
        x = x + 1;
    }
    StepDirection { x, z }
}

/// Each component of a step is -1, 0 or 1, and it is 0 exactly when both or
/// neither of its two keys are held.
pub proof fn law_step_components(keys: MovementKeys)
    ensures
        -1 <= step_of(keys).0 <= 1,
        -1 <= step_of(keys).1 <= 1,
        step_of(keys).0 == 0 <==> keys.w == keys.s,
        step_of(keys).1 == 0 <==> keys.a == keys.d,
{
}

/// Holding a key together with its opposite walks the same as holding neither.
pub proof fn law_opposite_keys_cancel(keys: MovementKeys)
    ensures
        step_of(MovementKeys { w: true, s: true, ..keys }) == step_of(
            MovementKeys { w: false, s: false, ..keys },
        ),
        step_of(MovementKeys { a: true, d: true, ..keys }) == step_of(
            MovementKeys { a: false, d: false, ..keys },
        ),
{
}

/// Swapping the keys of an axis for each other reverses the step along that
/// axis and leaves the other axis alone.
pub proof fn law_mirrored_keys(keys: MovementKeys)
    ensures
        step_of(MovementKeys { w: keys.s, s: keys.w, ..keys }).0 == -step_of(keys).0,
        step_of(MovementKeys { w: keys.s, s: keys.w, ..keys }).1 == step_of(keys).1,
        step_of(MovementKeys { a: keys.d, d: keys.a, ..keys }).1 == -step_of(keys).1,
        step_of(MovementKeys { a: keys.d, d: keys.a, ..keys }).0 == step_of(keys).0,
{
}

} // verus!
