use vstd::prelude::*;

use crate::defs::{Orientation, Point};

verus! {

/// Coordinate `c` moved by `d`. A move below zero gives `usize::MAX`, which lies
/// outside the cube, so that it never wraps onto a cell.
pub open spec fn shifted(c: usize, d: int) -> usize {
    if c + d < 0 {
        usize::MAX
    } else {
        (c + d) as usize
    }
}

/// `p` moved by the offset `d` on each axis.
pub open spec fn moved(p: Point, d: (int, int, int)) -> Point {
    Point { x: shifted(p.x, d.0), y: shifted(p.y, d.1), z: shifted(p.z, d.2) }
}

/// The offsets of the three cells that an orientation adds to its anchor.
pub open spec fn offsets(o: Orientation) -> Seq<(int, int, int)> {
    match o {
        Orientation::FlatUp => seq![(-1, 0, 0), (1, 0, 0), (0, -1, 0)],
        Orientation::FlatLeft => seq![(-1, 0, 0), (0, -1, 0), (0, 1, 0)],
        Orientation::FlatDown => seq![(-1, 0, 0), (1, 0, 0), (0, 1, 0)],
        Orientation::FlatRight => seq![(0, -1, 0), (0, 1, 0), (1, 0, 0)],
        Orientation::FacedownHorizontal => seq![(-1, 0, 0), (1, 0, 0), (0, 0, -1)],
        Orientation::FacedownVertical => seq![(0, -1, 0), (0, 1, 0), (0, 0, -1)],
        Orientation::FaceupHorizontal => seq![(-1, 0, 0), (1, 0, 0), (0, 0, 1)],
        Orientation::FaceupVertical => seq![(0, -1, 0), (0, 1, 0), (0, 0, 1)],
        Orientation::UprightUp => seq![(0, 0, 1), (0, 0, -1), (0, -1, 0)],
        Orientation::UprightLeft => seq![(0, 0, 1), (0, 0, -1), (-1, 0, 0)],
        Orientation::UprightDown => seq![(0, 0, 1), (0, 0, -1), (0, 1, 0)],
        Orientation::UprightRight => seq![(0, 0, 1), (0, 0, -1), (1, 0, 0)],
    }
}

/// The four cells a piece covers: the anchor, then the anchor moved by each offset.
pub open spec fn footprint(p: Point, o: Orientation) -> Seq<Point> {
    seq![p, moved(p, offsets(o)[0]), moved(p, offsets(o)[1]), moved(p, offsets(o)[2])]
}

/// No coordinate of `p` is at the top of its type, so a step up cannot overflow.
pub open spec fn steppable(p: Point) -> bool {
    p.x < usize::MAX && p.y < usize::MAX && p.z < usize::MAX
}

fn shift(c: usize, d: i8) -> (r: usize)
    requires
        -1 <= d <= 1,
        d == 1 ==> c < usize::MAX,
    ensures
        r == shifted(c, d as int),
{
    if d < 0 {
        if c == 0 {
            usize::MAX
        } else {
            c - 1
        }
    } else if d > 0 {
        c + 1
    } else {
        c
    }
}

pub(crate) fn move_point(p: Point, d: (i8, i8, i8)) -> (r: Point)
    requires
        -1 <= d.0 <= 1 && -1 <= d.1 <= 1 && -1 <= d.2 <= 1,
        steppable(p),
    ensures
        r == moved(p, (d.0 as int, d.1 as int, d.2 as int)),
{
    Point { x: shift(p.x, d.0), y: shift(p.y, d.1), z: shift(p.z, d.2) }
}

fn orientation_offsets(o: &Orientation) -> (r: [(i8, i8, i8); 3])
    ensures
        forall|i: int|
            0 <= i < 3 ==> (#[trigger] r@[i]).0 as int == offsets(*o)[i].0 && r@[i].1 as int
                == offsets(*o)[i].1 && r@[i].2 as int == offsets(*o)[i].2,
{
    match o {
        Orientation::FlatUp => [(-1, 0, 0), (1, 0, 0), (0, -1, 0)],
        Orientation::FlatLeft => [(-1, 0, 0), (0, -1, 0), (0, 1, 0)],
        Orientation::FlatDown => [(-1, 0, 0), (1, 0, 0), (0, 1, 0)],
        Orientation::FlatRight => [(0, -1, 0), (0, 1, 0), (1, 0, 0)],
        Orientation::FacedownHorizontal => [(-1, 0, 0), (1, 0, 0), (0, 0, -1)],
        Orientation::FacedownVertical => [(0, -1, 0), (0, 1, 0), (0, 0, -1)],
        Orientation::FaceupHorizontal => [(-1, 0, 0), (1, 0, 0), (0, 0, 1)],
        Orientation::FaceupVertical => [(0, -1, 0), (0, 1, 0), (0, 0, 1)],
        Orientation::UprightUp => [(0, 0, 1), (0, 0, -1), (0, -1, 0)],
        Orientation::UprightLeft => [(0, 0, 1), (0, 0, -1), (-1, 0, 0)],
        Orientation::UprightDown => [(0, 0, 1), (0, 0, -1), (0, 1, 0)],
        Orientation::UprightRight => [(0, 0, 1), (0, 0, -1), (1, 0, 0)],
    }
}

/// The four cells that the piece covers when anchored at `point` in `orientation`.
pub fn get_points_for_orientation(point: &Point, orientation: &Orientation) -> (r: [Point; 4])
    requires
        steppable(*point),
    ensures
        r@ == footprint(*point, *orientation),
{
    let d = orientation_offsets(orientation);
    let p = *point;
    let r = [p, move_point(p, d[0]), move_point(p, d[1]), move_point(p, d[2])];
    assert(r@ =~= footprint(*point, *orientation));
    r
}

/// Every orientation covers exactly four distinct cells, the first of which is
/// the anchor.
pub proof fn lemma_footprint_distinct(p: Point, o: Orientation)
    requires
        steppable(p),
    ensures
        footprint(p, o).len() == 4,
        footprint(p, o)[0] == p,
        forall|i: int, j: int|
            0 <= i < j < 4 ==> #[trigger] footprint(p, o)[i] != #[trigger] footprint(p, o)[j],
{
}

} // verus!
