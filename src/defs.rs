use vstd::prelude::*;

verus! {

/// Cells along each edge of the cube.
pub const BOARD_SIZE: usize = 6;

/// Copies of the piece in one full tiling.
pub const PIECE_COUNT: usize = 54;

/// Workers that the program runs by default.
pub const THREAD_COUNT: usize = 8;

/// A cell position. Each coordinate names a cell when it is below `BOARD_SIZE`;
/// any larger value, `usize::MAX` included, stands for a position outside the cube.
#[derive(Debug, Clone, Copy, PartialEq, Eq, Structural)]
pub struct Point {
    pub x: usize,
    pub y: usize,
    pub z: usize,
}

impl Default for Point {
    fn default() -> (r: Point)
        ensures
            r == (Point { x: 0, y: 0, z: 0 }),
    {
        Point { x: 0, y: 0, z: 0 }
    }
}

/// A placement: the anchor cell and the orientation of the piece around it.
#[derive(Debug, Clone, Copy, PartialEq, Eq, Structural)]
pub struct Position {
    pub center: Point,
    pub orientation: Orientation,
}

/// The twelve ways the piece can lie, as seen from above.
#[derive(Debug, Clone, Copy, PartialEq, Eq, Structural)]
pub enum Orientation {
    FlatUp,
    FlatLeft,
    FlatDown,
    FlatRight,
    FacedownHorizontal,
    FacedownVertical,
    FaceupHorizontal,
    FaceupVertical,
    UprightUp,
    UprightLeft,
    UprightDown,
    UprightRight,
}

/// The phase of a layer's construction, which decides the orientations tried.
#[derive(Debug, Clone, Copy, PartialEq, Eq, Structural)]
pub enum PlacementState {
    PlacingFlat,
    PlacingFaceup,
    PlacingFacedown,
    PlacingUpright,
}

/// One frame of the search: the phase, the placement that led here, the scan
/// cursor and the number of pieces still to place.
#[derive(Debug, Clone, Copy, PartialEq, Eq, Structural)]
pub struct StackState {
    pub placement_state: PlacementState,
    pub last_move: Position,
    pub cursor: Point,
    pub pieces_remaining: usize,
}

/// A complete tiling, as its placements in the order they were made.
pub type Solution = Vec<Position>;

/// Whether every coordinate of `p` names a cell of the cube.
pub open spec fn in_range(p: Point) -> bool {
    p.x < BOARD_SIZE && p.y < BOARD_SIZE && p.z < BOARD_SIZE
}

/// The index of `p` in the occupancy map.
pub open spec fn key(p: Point) -> (int, int, int) {
    (p.x as int, p.y as int, p.z as int)
}

/// The indices of all cells of the cube.
pub open spec fn cube_domain() -> Set<(int, int, int)> {
    Set::new(
        |k: (int, int, int)|
            0 <= k.0 < BOARD_SIZE && 0 <= k.1 < BOARD_SIZE && 0 <= k.2 < BOARD_SIZE,
    )
}

} // verus!
