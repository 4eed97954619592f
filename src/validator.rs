use vstd::prelude::*;

use crate::board::{cell_free, fits, inbounds_and_clear, all_points_clear, valid_board, Board};
use crate::defs::{Orientation, PlacementState, Point, Position};
use crate::geometry::{get_points_for_orientation, move_point, moved, steppable};

verus! {

/// The orientations whose piece could rest over a gap in the layer below: the
/// two face-down ones and the four upright ones.
pub open spec fn needs_overhang_check(o: Orientation) -> bool {
    match o {
        Orientation::FacedownHorizontal | Orientation::FacedownVertical | Orientation::UprightUp
        | Orientation::UprightLeft | Orientation::UprightDown | Orientation::UprightRight => true,
        _ => false,
    }
}

/// The cells one layer below the anchor that the piece would span.
pub open spec fn overhang_cells(p: Point, o: Orientation) -> Seq<Point> {
    match o {
        Orientation::FacedownHorizontal => seq![moved(p, (-1, 0, -1)), moved(p, (1, 0, -1))],
        Orientation::FacedownVertical => seq![moved(p, (0, -1, -1)), moved(p, (0, 1, -1))],
        Orientation::UprightUp => seq![moved(p, (0, -1, -1))],
        Orientation::UprightLeft => seq![moved(p, (-1, 0, -1))],
        Orientation::UprightDown => seq![moved(p, (0, 1, -1))],
        Orientation::UprightRight => seq![moved(p, (1, 0, -1))],
        _ => seq![],
    }
}

/// Some cell below the piece is in the cube and still empty.
pub open spec fn has_overhang(m: Map<(int, int, int), bool>, p: Point, o: Orientation) -> bool {
    exists|i: int| 0 <= i < overhang_cells(p, o).len() && cell_free(m, #[trigger] overhang_cells(p, o)[i])
}

/// The orientations tried in phase `s`, in their fixed order; `None` pads a
/// phase of two orientations to four slots.
pub open spec fn phase_options(s: PlacementState) -> Seq<Option<Orientation>> {
    match s {
        PlacementState::PlacingFlat => seq![
            Some(Orientation::FlatUp),
            Some(Orientation::FlatLeft),
            Some(Orientation::FlatDown),
            Some(Orientation::FlatRight),
        ],
        PlacementState::PlacingFaceup => seq![
            Some(Orientation::FaceupHorizontal),
            Some(Orientation::FaceupVertical),
            None,
            None,
        ],
        PlacementState::PlacingFacedown => seq![
            Some(Orientation::FacedownHorizontal),
            Some(Orientation::FacedownVertical),
            None,
            None,
        ],
        PlacementState::PlacingUpright => seq![
            Some(Orientation::UprightUp),
            Some(Orientation::UprightLeft),
            Some(Orientation::UprightDown),
            Some(Orientation::UprightRight),
        ],
    }
}

/// The first orientation from slot `k` on that fits at `p`.
pub open spec fn first_fit_from(
    m: Map<(int, int, int), bool>,
    p: Point,
    opts: Seq<Option<Orientation>>,
    k: nat,
) -> Option<Orientation>
    decreases opts.len() - k,
{
    if k >= opts.len() {
        None
    } else {
        match opts[k as int] {
            Some(o) => if fits(m, p, o) {
                Some(o)
            } else {
                first_fit_from(m, p, opts, k + 1)
            },
            None => first_fit_from(m, p, opts, k + 1),
        }
    }
}

/// The orientation the search picks at `p` in phase `s`: none unless the anchor
/// is an empty cell, else the first of the phase's orientations that fits.
pub open spec fn candidate(m: Map<(int, int, int), bool>, p: Point, s: PlacementState) -> Option<Orientation> {
    if cell_free(m, p) {
        first_fit_from(m, p, phase_options(s), 0)
    } else {
        None
    }
}

/// Whether `orientation` is one of those whose overhang is checked.
pub fn need_check_overhang(orientation: &Orientation) -> (r: bool)
    ensures
        r == needs_overhang_check(*orientation),
{
    matches!(
        orientation,
        Orientation::FacedownHorizontal | Orientation::FacedownVertical | Orientation::UprightUp
            | Orientation::UprightLeft | Orientation::UprightDown | Orientation::UprightRight
    )
}

/// Whether the piece at `point` in `orientation` would leave an empty cell of
/// the layer below under it.
pub fn has_empty_overhang(board: &Board, point: &Point, orientation: &Orientation) -> (r: bool)
    requires
        valid_board(board@),
        steppable(*point),
        needs_overhang_check(*orientation),
    ensures
        r == has_overhang(board@, *point, *orientation),
{
    let p = *point;
    let ghost cells = overhang_cells(p, *orientation);
    let r = match orientation {
        Orientation::FacedownHorizontal => inbounds_and_clear(board, &move_point(p, (-1, 0, -1)))
            || inbounds_and_clear(board, &move_point(p, (1, 0, -1))),
        Orientation::FacedownVertical => inbounds_and_clear(board, &move_point(p, (0, -1, -1)))
            || inbounds_and_clear(board, &move_point(p, (0, 1, -1))),
        Orientation::UprightUp => inbounds_and_clear(board, &move_point(p, (0, -1, -1))),
        Orientation::UprightLeft => inbounds_and_clear(board, &move_point(p, (-1, 0, -1))),
        Orientation::UprightDown => inbounds_and_clear(board, &move_point(p, (0, 1, -1))),
        Orientation::UprightRight => inbounds_and_clear(board, &move_point(p, (1, 0, -1))),
        // The flat and face-up orientations are left out by the precondition.
        _ => false,
    };
    proof {
        assert(r == (cell_free(board@, cells[0]) || (cells.len() == 2 && cell_free(board@, cells[1]))));
        if r {
            if cell_free(board@, cells[0]) {
                assert(has_overhang(board@, p, *orientation));
            } else {
                assert(cell_free(board@, cells[1]));
            }
        }
    }
    r
}

fn phase_options_of(state: &PlacementState) -> (r: [Option<Orientation>; 4])
    ensures
        r@ == phase_options(*state),
{
    let r = match state {
        PlacementState::PlacingFlat => [
            Some(Orientation::FlatUp),
            Some(Orientation::FlatLeft),
            Some(Orientation::FlatDown),
            Some(Orientation::FlatRight),
        ],
        PlacementState::PlacingFaceup => [
            Some(Orientation::FaceupHorizontal),
            Some(Orientation::FaceupVertical),
            None,
            None,
        ],
        PlacementState::PlacingFacedown => [
            Some(Orientation::FacedownHorizontal),
            Some(Orientation::FacedownVertical),
            None,
            None,
        ],
        PlacementState::PlacingUpright => [
            Some(Orientation::UprightUp),
            Some(Orientation::UprightLeft),
            Some(Orientation::UprightDown),
            Some(Orientation::UprightRight),
        ],
    };
    assert(r@ =~= phase_options(*state));
    r
}

/// The placement the search makes at `point` in phase `state`: the first
/// orientation of the phase whose four cells are all empty cells of the cube, or
/// `None` when the anchor is not an empty cell or no orientation fits.
pub fn try_orientations(board: &Board, point: &Point, state: &PlacementState) -> (r: Option<Position>)
    requires
        valid_board(board@),
    ensures
        r == (match candidate(board@, *point, *state) {
            Some(o) => Some(Position { center: *point, orientation: o }),
            None => None,
        }),
{
    if !inbounds_and_clear(board, point) {
        return None;
    }
    let orientations = phase_options_of(state);
    let ghost opts = phase_options(*state);
    let mut k: usize = 0;
    while k < 4
        invariant
            valid_board(board@),
            cell_free(board@, *point),
            orientations@ == opts,
            opts == phase_options(*state),
            opts.len() == 4,
            k <= 4,
            first_fit_from(board@, *point, opts, 0) == first_fit_from(board@, *point, opts, k as nat),
        decreases 4 - k,
    {
        let option = orientations[k];
        if let Some(o) = option {
            let points = get_points_for_orientation(point, &o);
            if all_points_clear(board, points) {
                assert(fits(board@, *point, o));
                return Some(Position { center: *point, orientation: o });
            }
            assert(!fits(board@, *point, o));
        }
        k = k + 1;
    }
    None
}

} // verus!
