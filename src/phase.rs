use vstd::prelude::*;

use crate::defs::{PlacementState, Point, BOARD_SIZE};

verus! {

/// The phase that follows `s`: flat, face-up, face-down, upright, then flat again.
pub open spec fn next_phase(s: PlacementState) -> PlacementState {
    match s {
        PlacementState::PlacingFlat => PlacementState::PlacingFaceup,
        PlacementState::PlacingFaceup => PlacementState::PlacingFacedown,
        PlacementState::PlacingFacedown => PlacementState::PlacingUpright,
        PlacementState::PlacingUpright => PlacementState::PlacingFlat,
    }
}

/// The layer index after leaving phase `s` on layer `z`: it grows by one on the
/// way into the face-down phase and stays put on every other transition.
pub open spec fn next_layer(s: PlacementState, z: int) -> int {
    if next_phase(s) == PlacementState::PlacingFacedown {
        z + 1
    } else {
        z
    }
}

/// `c` moved one cell on in raster order within its layer, `x` fastest.
pub open spec fn next_cursor(c: Point) -> Point {
    if c.x + 1 == BOARD_SIZE {
        Point { x: 0, y: (c.y + 1) as usize, z: c.z }
    } else {
        Point { x: (c.x + 1) as usize, y: c.y, z: c.z }
    }
}

/// The phase that follows `state`.
pub fn placement_state_transition(state: PlacementState) -> (r: PlacementState)
    ensures
        r == next_phase(state),
{
    match state {
        PlacementState::PlacingFlat => PlacementState::PlacingFaceup,
        PlacementState::PlacingFaceup => PlacementState::PlacingFacedown,
        PlacementState::PlacingFacedown => PlacementState::PlacingUpright,
        PlacementState::PlacingUpright => PlacementState::PlacingFlat,
    }
}

/// Moves the cursor one cell on in raster order within its layer.
pub fn increment_cursor_in_slice(cursor: &mut Point)
    requires
        old(cursor).x < usize::MAX,
        old(cursor).x + 1 == BOARD_SIZE ==> old(cursor).y < usize::MAX,
    ensures
        *final(cursor) == next_cursor(*old(cursor)),
{
    cursor.x = cursor.x + 1;
    if cursor.x == BOARD_SIZE {
        cursor.x = 0;
        cursor.y = cursor.y + 1;
    }
}

/// The phases cycle with period four, and over one full cycle the layer index
/// grows by exactly one, on the step into the face-down phase.
pub proof fn lemma_phase_cycle(s: PlacementState, z: int)
    ensures
        next_phase(next_phase(next_phase(next_phase(s)))) == s,
        next_phase(s) != s,
        next_phase(next_phase(s)) != s,
        next_phase(next_phase(next_phase(s))) != s,
        next_layer(next_phase(next_phase(next_phase(s))), next_layer(next_phase(next_phase(s)), next_layer(next_phase(s), next_layer(s, z)))) == z + 1,
        next_layer(s, z) == z + 1 <==> next_phase(s) == PlacementState::PlacingFacedown,
        next_layer(s, z) == z <==> next_phase(s) != PlacementState::PlacingFacedown,
{
}

} // verus!
