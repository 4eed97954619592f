use vstd::prelude::*;

use crate::defs::{cube_domain, in_range, key, Orientation, Point, BOARD_SIZE};
use crate::geometry::{footprint, get_points_for_orientation};

verus! {

/// The occupancy grid: one flag per cell of the cube, `true` where a piece lies.
#[verifier::external_body]
pub struct Board {
    occupied: ndarray::Array3<bool>,
}

/// What each index of a board's array holds; its domain is the array's set of
/// valid indices.
pub uninterp spec fn board_cells(b: Board) -> Map<(int, int, int), bool>;

impl View for Board {
    type V = Map<(int, int, int), bool>;

    open spec fn view(&self) -> Map<(int, int, int), bool> {
        board_cells(*self)
    }
}

/// Relies on ndarray's `ArrayBase::default`: an `n`×`n`×`n` array whose every
/// element is `bool::default()`, that is `false`.
#[verifier::external_body]
fn board_of_size(n: usize) -> (r: Board)
    requires
        n <= 64,
    ensures
        board_cells(r).dom() == Set::new(|k: (int, int, int)| 0 <= k.0 < n && 0 <= k.1 < n && 0 <= k.2 < n),
        forall|k: (int, int, int)| #[trigger] board_cells(r).dom().contains(k) ==> !board_cells(r)[k],
{
    Board { occupied: ndarray::Array3::default((n, n, n)) }
}

/// Relies on ndarray's `Index` on `ArrayBase`: the element at a valid index.
#[verifier::external_body]
fn board_get(b: &Board, x: usize, y: usize, z: usize) -> (r: bool)
    requires
        board_cells(*b).dom().contains((x as int, y as int, z as int)),
    ensures
        r == board_cells(*b)[(x as int, y as int, z as int)],
{
    b.occupied[[x, y, z]]
}

/// Relies on ndarray's `IndexMut` on `ArrayBase`: writes the element at a valid
/// index and no other.
#[verifier::external_body]
fn board_set(b: &mut Board, x: usize, y: usize, z: usize, v: bool)
    requires
        board_cells(*old(b)).dom().contains((x as int, y as int, z as int)),
    ensures
        board_cells(*final(b)) == board_cells(*old(b)).insert((x as int, y as int, z as int), v),
{
    b.occupied[[x, y, z]] = v;
}

/// A map that holds a flag for each cell of the cube and nothing else.
pub open spec fn valid_board(m: Map<(int, int, int), bool>) -> bool {
    m.dom() == cube_domain()
}

/// The board with every cell empty.
pub open spec fn empty_board() -> Map<(int, int, int), bool> {
    Map::new(|k: (int, int, int)| cube_domain().contains(k), |k: (int, int, int)| false)
}

/// `p` names a cell of the cube and that cell is empty.
pub open spec fn cell_free(m: Map<(int, int, int), bool>, p: Point) -> bool {
    in_range(p) && !m[key(p)]
}

/// Every cell of the piece at `p` in orientation `o` is in the cube and empty.
pub open spec fn fits(m: Map<(int, int, int), bool>, p: Point, o: Orientation) -> bool {
    forall|i: int| 0 <= i < 4 ==> cell_free(m, #[trigger] footprint(p, o)[i])
}

/// Every cell of the piece at `p` in orientation `o` is in the cube and filled.
pub open spec fn covered(m: Map<(int, int, int), bool>, p: Point, o: Orientation) -> bool {
    forall|i: int|
        0 <= i < 4 ==> in_range(#[trigger] footprint(p, o)[i]) && m[key(footprint(p, o)[i])]
}

/// `m` with the four cells of the piece at `p` in orientation `o` set to `v`.
pub open spec fn mark(m: Map<(int, int, int), bool>, p: Point, o: Orientation, v: bool) -> Map<
    (int, int, int),
    bool,
> {
    let f = footprint(p, o);
    m.insert(key(f[0]), v).insert(key(f[1]), v).insert(key(f[2]), v).insert(key(f[3]), v)
}

/// Layer `z` is a layer of the cube and each of its cells is filled.
pub open spec fn layer_full(m: Map<(int, int, int), bool>, z: int) -> bool {
    &&& 0 <= z < BOARD_SIZE
    &&& forall|x: int, y: int|
        0 <= x < BOARD_SIZE && 0 <= y < BOARD_SIZE ==> #[trigger] m[(x, y, z)]
}

impl Board {
    /// A board of `BOARD_SIZE` cells on each edge, all empty.
    pub fn new() -> (r: Board)
        ensures
            r@ == empty_board(),
            valid_board(r@),
    {
        let r = board_of_size(BOARD_SIZE);
        assert(r@ =~= empty_board());
        r
    }
}

/// Whether `point` names a cell of the cube that is still empty. The range is
/// tested before the board is read.
pub fn inbounds_and_clear(board: &Board, point: &Point) -> (r: bool)
    requires
        valid_board(board@),
    ensures
        r == cell_free(board@, *point),
{
    point.x < BOARD_SIZE && point.y < BOARD_SIZE && point.z < BOARD_SIZE && !board_get(
        board,
        point.x,
        point.y,
        point.z,
    )
}

/// Whether each of the four points names an empty cell of the cube.
pub fn all_points_clear(board: &Board, points: [Point; 4]) -> (r: bool)
    requires
        valid_board(board@),
    ensures
        r == (forall|i: int| 0 <= i < 4 ==> cell_free(board@, #[trigger] points@[i])),
{
    let mut i: usize = 0;
    while i < 4
        invariant
            valid_board(board@),
            i <= 4,
            forall|j: int| 0 <= j < i ==> cell_free(board@, #[trigger] points@[j]),
        decreases 4 - i,
    {
        if !inbounds_and_clear(board, &points[i]) {
            return false;
        }
        i = i + 1;
    }
    true
}

/// Fills the four cells of the piece at `point` in `orientation`.
pub fn place_piece_at(board: &mut Board, point: &Point, orientation: &Orientation)
    requires
        valid_board(old(board)@),
        fits(old(board)@, *point, *orientation),
    ensures
        final(board)@ == mark(old(board)@, *point, *orientation, true),
{
    assert(cell_free(old(board)@, footprint(*point, *orientation)[0]));
    let points = get_points_for_orientation(point, orientation);
    assert(cell_free(board@, points@[1]) && cell_free(board@, points@[2]) && cell_free(
        board@,
        points@[3],
    ));
    set_cell(board, &points[0], true);
    set_cell(board, &points[1], true);
    set_cell(board, &points[2], true);
    set_cell(board, &points[3], true);
}

/// Empties the four cells of the piece at `point` in `orientation`.
pub fn remove_piece_at(board: &mut Board, point: &Point, orientation: &Orientation)
    requires
        valid_board(old(board)@),
        covered(old(board)@, *point, *orientation),
    ensures
        final(board)@ == mark(old(board)@, *point, *orientation, false),
{
    assert(in_range(footprint(*point, *orientation)[0]));
    let points = get_points_for_orientation(point, orientation);
    assert(in_range(points@[1]) && in_range(points@[2]) && in_range(points@[3]));
    set_cell(board, &points[0], false);
    set_cell(board, &points[1], false);
    set_cell(board, &points[2], false);
    set_cell(board, &points[3], false);
}

fn set_cell(board: &mut Board, p: &Point, v: bool)
    requires
        valid_board(old(board)@),
        in_range(*p),
    ensures
        final(board)@ == old(board)@.insert(key(*p), v),
        valid_board(final(board)@),
{
    board_set(board, p.x, p.y, p.z, v);
    assert(board@.dom() =~= cube_domain());
}

/// Whether `z` is a layer of the cube whose every cell is filled.
pub fn layer_is_full(board: &Board, z: usize) -> (r: bool)
    requires
        valid_board(board@),
    ensures
        r == layer_full(board@, z as int),
{
    if z >= BOARD_SIZE {
        return false;
    }
    let mut x: usize = 0;
    while x < BOARD_SIZE
        invariant
            valid_board(board@),
            z < BOARD_SIZE,
            x <= BOARD_SIZE,
            forall|i: int, j: int| 0 <= i < x && 0 <= j < BOARD_SIZE ==> #[trigger] board@[(i, j, z as int)],
        decreases BOARD_SIZE - x,
    {
        let mut y: usize = 0;
        while y < BOARD_SIZE
            invariant
                valid_board(board@),
                z < BOARD_SIZE,
                x < BOARD_SIZE,
                y <= BOARD_SIZE,
                forall|i: int, j: int| 0 <= i < x && 0 <= j < BOARD_SIZE ==> #[trigger] board@[(i, j, z as int)],
                forall|j: int| 0 <= j < y ==> #[trigger] board@[(x as int, j, z as int)],
            decreases BOARD_SIZE - y,
        {
            if !board_get(board, x, y, z) {
                return false;
            }
            y = y + 1;
        }
        x = x + 1;
    }
    true
}

/// Placing a piece on cells that are free and then removing it gives back the
/// board exactly as it was.
pub proof fn lemma_place_then_remove(m: Map<(int, int, int), bool>, p: Point, o: Orientation)
    requires
        valid_board(m),
        fits(m, p, o),
    ensures
        valid_board(mark(m, p, o, true)),
        covered(mark(m, p, o, true), p, o),
        mark(mark(m, p, o, true), p, o, false) == m,
{
    let f = footprint(p, o);
    assert(cell_free(m, f[0]) && cell_free(m, f[1]) && cell_free(m, f[2]) && cell_free(m, f[3]));
    assert(mark(m, p, o, true).dom() =~= m.dom());
    assert(mark(mark(m, p, o, true), p, o, false) =~= m);
}

} // verus!
