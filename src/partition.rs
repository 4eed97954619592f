use vstd::prelude::*;

use crate::defs::{Point, BOARD_SIZE, THREAD_COUNT};

verus! {

/// The cell of the lowest layer at raster index `i`, `x` fastest.
pub open spec fn cell_at_index(i: int) -> Point {
    Point { x: (i % BOARD_SIZE as int) as usize, y: (i / BOARD_SIZE as int) as usize, z: 0 }
}

/// The raster index where worker `worker` of `worker_count` starts: the floor of
/// `worker / worker_count` times the cells of a layer.
pub open spec fn start_index(worker: int, worker_count: int) -> int {
    (worker * (BOARD_SIZE * BOARD_SIZE) as int) / worker_count
}

/// The cell where worker `worker` of `worker_count` starts its search.
pub fn starting_cursor(worker: usize, worker_count: usize) -> (r: Point)
    requires
        worker < worker_count,
    ensures
        r == cell_at_index(start_index(worker as int, worker_count as int)),
        r.x < BOARD_SIZE && r.y < BOARD_SIZE,
{
    let cells: u128 = (BOARD_SIZE * BOARD_SIZE) as u128;
    assert(worker as u128 * cells <= u64::MAX as u128 * 36) by (nonlinear_arith)
        requires worker <= u64::MAX, cells == 36;
    let idx = (worker as u128 * cells) / (worker_count as u128);
    assert(idx < 36) by (nonlinear_arith)
        requires idx == (worker as int * 36) / worker_count as int, worker < worker_count, cells == 36;
    let idx = idx as usize;
    Point { x: idx % BOARD_SIZE, y: idx / BOARD_SIZE, z: 0 }
}

/// The cell where worker `thread_id` of the default `THREAD_COUNT` starts.
pub fn get_cursor_from_thread_num(thread_id: usize) -> (r: Point)
    requires
        thread_id < THREAD_COUNT,
    ensures
        r == cell_at_index(start_index(thread_id as int, THREAD_COUNT as int)),
{
    starting_cursor(thread_id, THREAD_COUNT)
}

} // verus!
