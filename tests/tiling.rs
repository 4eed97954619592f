use polycube_tiler::board::{
    all_points_clear, inbounds_and_clear, layer_is_full, place_piece_at, remove_piece_at, Board,
};
use polycube_tiler::defs::{
    Orientation, PlacementState, Point, Position, StackState, BOARD_SIZE, PIECE_COUNT,
    THREAD_COUNT,
};
use polycube_tiler::geometry::get_points_for_orientation;
use polycube_tiler::partition::{get_cursor_from_thread_num, starting_cursor};
use polycube_tiler::phase::{increment_cursor_in_slice, placement_state_transition};
use polycube_tiler::search::{Searcher, StepOutcome};
use polycube_tiler::validator::{has_empty_overhang, need_check_overhang, try_orientations};

const ALL: [Orientation; 12] = [
    Orientation::FlatUp,
    Orientation::FlatLeft,
    Orientation::FlatDown,
    Orientation::FlatRight,
    Orientation::FacedownHorizontal,
    Orientation::FacedownVertical,
    Orientation::FaceupHorizontal,
    Orientation::FaceupVertical,
    Orientation::UprightUp,
    Orientation::UprightLeft,
    Orientation::UprightDown,
    Orientation::UprightRight,
];

fn pt(x: usize, y: usize, z: usize) -> Point {
    Point { x, y, z }
}

fn snapshot(board: &Board) -> Vec<bool> {
    let mut cells = Vec::new();
    for x in 0..BOARD_SIZE {
        for y in 0..BOARD_SIZE {
            for z in 0..BOARD_SIZE {
                cells.push(!inbounds_and_clear(board, &pt(x, y, z)));
            }
        }
    }
    cells
}

fn sentinel(cursor: Point, state: PlacementState, pieces: usize) -> StackState {
    StackState {
        placement_state: state,
        last_move: Position { center: Point::default(), orientation: Orientation::FlatUp },
        cursor,
        pieces_remaining: pieces,
    }
}

#[test]
fn footprint_flat_up_offsets() {
    let points = get_points_for_orientation(&pt(2, 2, 2), &Orientation::FlatUp);
    assert_eq!(points, [pt(2, 2, 2), pt(1, 2, 2), pt(3, 2, 2), pt(2, 1, 2)]);
}

#[test]
fn footprint_upright_right_offsets() {
    let points = get_points_for_orientation(&pt(2, 3, 1), &Orientation::UprightRight);
    assert_eq!(points, [pt(2, 3, 1), pt(2, 3, 2), pt(2, 3, 0), pt(3, 3, 1)]);
}

#[test]
fn footprint_below_zero_is_out_of_range() {
    let points = get_points_for_orientation(&pt(0, 0, 0), &Orientation::FacedownVertical);
    assert_eq!(points[1], pt(0, usize::MAX, 0));
    assert_eq!(points[3], pt(0, 0, usize::MAX));
}

#[test]
fn every_orientation_covers_four_distinct_cells_with_anchor() {
    let anchor = pt(2, 3, 2);
    for o in ALL {
        let points = get_points_for_orientation(&anchor, &o);
        assert_eq!(points[0], anchor);
        for i in 0..4 {
            for j in (i + 1)..4 {
                assert_ne!(points[i], points[j]);
            }
        }
    }
}

#[test]
fn place_then_remove_restores_board() {
    let mut board = Board::new();
    place_piece_at(&mut board, &pt(3, 3, 0), &Orientation::FlatRight);
    let before = snapshot(&board);
    for o in ALL {
        let anchor = pt(2, 2, 2);
        let points = get_points_for_orientation(&anchor, &o);
        if !all_points_clear(&board, points) {
            continue;
        }
        place_piece_at(&mut board, &anchor, &o);
        assert_ne!(snapshot(&board), before);
        remove_piece_at(&mut board, &anchor, &o);
        assert_eq!(snapshot(&board), before);
    }
}

#[test]
fn place_fills_exactly_four_cells() {
    let mut board = Board::new();
    place_piece_at(&mut board, &pt(1, 1, 1), &Orientation::FaceupVertical);
    let filled = snapshot(&board).iter().filter(|c| **c).count();
    assert_eq!(filled, 4);
    assert!(!inbounds_and_clear(&board, &pt(1, 0, 1)));
    assert!(!inbounds_and_clear(&board, &pt(1, 2, 1)));
    assert!(!inbounds_and_clear(&board, &pt(1, 1, 2)));
    assert!(inbounds_and_clear(&board, &pt(1, 1, 0)));
}

#[test]
fn phases_cycle_with_period_four() {
    let mut s = PlacementState::PlacingFlat;
    let expected = [
        PlacementState::PlacingFaceup,
        PlacementState::PlacingFacedown,
        PlacementState::PlacingUpright,
        PlacementState::PlacingFlat,
    ];
    for e in expected {
        s = placement_state_transition(s);
        assert_eq!(s, e);
    }
}

#[test]
fn layer_index_grows_on_facedown_entry() {
    // On a layer above the cube nothing fits, so the cursor runs through each
    // phase and the frame moves on to the next one.
    let mut searcher = Searcher::new(sentinel(pt(0, 0, 6), PlacementState::PlacingFlat, PIECE_COUNT));
    let mut seen = vec![(PlacementState::PlacingFlat, 6)];
    for _ in 0..1000 {
        match searcher.step() {
            StepOutcome::Searching => {}
            StepOutcome::Exhausted => break,
            StepOutcome::Solved(_) => panic!("no tiling here"),
        }
        assert_eq!(searcher.frames().len(), 1);
        let top = searcher.frames()[0];
        if top.placement_state != seen.last().unwrap().0 {
            assert_eq!((top.cursor.x, top.cursor.y), (0, 0));
            seen.push((top.placement_state, top.cursor.z));
        }
    }
    assert!(searcher.is_exhausted());
    assert_eq!(
        seen,
        vec![
            (PlacementState::PlacingFlat, 6),
            (PlacementState::PlacingFaceup, 6),
            (PlacementState::PlacingFacedown, 7),
            (PlacementState::PlacingUpright, 7),
        ]
    );
}

#[test]
fn in_range_and_empty_rejects_out_of_range_and_occupied() {
    let mut board = Board::new();
    place_piece_at(&mut board, &pt(2, 2, 2), &Orientation::FlatDown);
    let rejected = [
        pt(6, 0, 0),
        pt(0, 6, 0),
        pt(0, 0, 6),
        pt(6, 6, 6),
        pt(usize::MAX, 0, 0),
        pt(2, 2, 2),
    ];
    for p in rejected {
        assert!(!inbounds_and_clear(&board, &p));
    }
    assert!(inbounds_and_clear(&board, &pt(0, 0, 0)));
    assert!(inbounds_and_clear(&board, &pt(5, 5, 5)));
    assert!(inbounds_and_clear(&board, &pt(2, 2, 1)));
}

#[test]
fn overhang_below_facedown_horizontal() {
    let mut board = Board::new();
    let anchor = pt(2, 2, 1);
    let o = Orientation::FacedownHorizontal;
    assert!(has_empty_overhang(&board, &anchor, &o));
    // Fill (1,2,0): (3,2,0) below the other arm is still empty.
    place_piece_at(&mut board, &pt(1, 2, 0), &Orientation::FlatUp);
    assert!(inbounds_and_clear(&board, &pt(3, 2, 0)));
    assert!(has_empty_overhang(&board, &anchor, &o));
    // Fill (3,2,0) as well: nothing below is empty.
    place_piece_at(&mut board, &pt(4, 2, 0), &Orientation::FlatUp);
    assert!(!inbounds_and_clear(&board, &pt(3, 2, 0)));
    assert!(!has_empty_overhang(&board, &anchor, &o));
}

#[test]
fn overhang_upright_checks_opposite_side() {
    let mut board = Board::new();
    let anchor = pt(2, 2, 1);
    assert!(has_empty_overhang(&board, &anchor, &Orientation::UprightRight));
    place_piece_at(&mut board, &pt(4, 2, 0), &Orientation::FlatUp);
    assert!(!has_empty_overhang(&board, &anchor, &Orientation::UprightRight));
    assert!(has_empty_overhang(&board, &anchor, &Orientation::UprightLeft));
}

#[test]
fn overhang_on_lowest_layer_is_out_of_range() {
    let board = Board::new();
    assert!(!has_empty_overhang(&board, &pt(2, 2, 0), &Orientation::FacedownVertical));
}

#[test]
fn overhang_checked_orientations() {
    let checked: Vec<bool> = ALL.iter().map(need_check_overhang).collect();
    assert_eq!(
        checked,
        vec![false, false, false, false, true, true, false, false, true, true, true, true]
    );
}

#[test]
fn first_fitting_orientation_wins() {
    let board = Board::new();
    assert_eq!(try_orientations(&board, &pt(0, 0, 0), &PlacementState::PlacingFlat), None);
    assert_eq!(
        try_orientations(&board, &pt(1, 0, 0), &PlacementState::PlacingFlat),
        Some(Position { center: pt(1, 0, 0), orientation: Orientation::FlatDown })
    );
    assert_eq!(
        try_orientations(&board, &pt(1, 1, 0), &PlacementState::PlacingFlat),
        Some(Position { center: pt(1, 1, 0), orientation: Orientation::FlatUp })
    );
    assert_eq!(
        try_orientations(&board, &pt(0, 1, 0), &PlacementState::PlacingFaceup),
        Some(Position { center: pt(0, 1, 0), orientation: Orientation::FaceupVertical })
    );
    assert_eq!(try_orientations(&board, &pt(0, 0, 5), &PlacementState::PlacingFaceup), None);
    assert_eq!(try_orientations(&board, &pt(6, 0, 0), &PlacementState::PlacingFlat), None);
}

#[test]
fn occupied_anchor_gives_no_placement() {
    let mut board = Board::new();
    place_piece_at(&mut board, &pt(1, 1, 0), &Orientation::FlatUp);
    assert_eq!(try_orientations(&board, &pt(1, 1, 0), &PlacementState::PlacingFlat), None);
}

#[test]
fn cursor_moves_in_raster_order() {
    let mut c = pt(2, 2, 3);
    increment_cursor_in_slice(&mut c);
    assert_eq!(c, pt(3, 2, 3));
    let mut c = pt(5, 2, 3);
    increment_cursor_in_slice(&mut c);
    assert_eq!(c, pt(0, 3, 3));
    let mut c = pt(5, 5, 0);
    increment_cursor_in_slice(&mut c);
    assert_eq!(c, pt(0, 6, 0));
}

#[test]
fn layer_full_detection() {
    let mut board = Board::new();
    assert!(!layer_is_full(&board, 0));
    assert!(!layer_is_full(&board, 6));
    place_piece_at(&mut board, &pt(1, 0, 0), &Orientation::FlatDown);
    assert!(!layer_is_full(&board, 0));
}

#[test]
fn starting_cursors_for_eight_workers() {
    let got: Vec<Point> = (0..THREAD_COUNT).map(get_cursor_from_thread_num).collect();
    assert_eq!(
        got,
        vec![
            pt(0, 0, 0),
            pt(4, 0, 0),
            pt(3, 1, 0),
            pt(1, 2, 0),
            pt(0, 3, 0),
            pt(4, 3, 0),
            pt(3, 4, 0),
            pt(1, 5, 0)
        ]
    );
}

#[test]
fn starting_cursor_single_worker_and_many() {
    assert_eq!(starting_cursor(0, 1), pt(0, 0, 0));
    assert_eq!(starting_cursor(35, 36), pt(5, 5, 0));
    assert_eq!(starting_cursor(1, 3), pt(0, 2, 0));
}

#[test]
fn first_steps_of_a_fresh_search() {
    let mut searcher = Searcher::new(sentinel(pt(0, 0, 0), PlacementState::PlacingFlat, PIECE_COUNT));
    assert!(matches!(searcher.step(), StepOutcome::Searching));
    assert_eq!(searcher.frames().len(), 1);
    assert_eq!(searcher.frames()[0].cursor, pt(1, 0, 0));
    assert!(matches!(searcher.step(), StepOutcome::Searching));
    let frames = searcher.frames();
    assert_eq!(frames.len(), 2);
    assert_eq!(frames[0].cursor, pt(2, 0, 0));
    assert_eq!(
        frames[1],
        StackState {
            placement_state: PlacementState::PlacingFlat,
            last_move: Position { center: pt(1, 0, 0), orientation: Orientation::FlatDown },
            cursor: pt(2, 0, 0),
            pieces_remaining: PIECE_COUNT - 1,
        }
    );
    assert_eq!(
        searcher.current_moves(),
        vec![Position { center: pt(1, 0, 0), orientation: Orientation::FlatDown }]
    );
}

#[test]
fn unfinished_upright_layer_at_sentinel_ends_search() {
    let mut searcher = Searcher::new(sentinel(pt(6, 0, 1), PlacementState::PlacingUpright, PIECE_COUNT));
    assert!(matches!(searcher.step(), StepOutcome::Exhausted));
    assert!(searcher.is_exhausted());
    assert!(matches!(searcher.step(), StepOutcome::Exhausted));
    assert_eq!(searcher.next_solution(10), None);
}

#[test]
fn zero_pieces_reports_empty_tiling_once() {
    let mut searcher = Searcher::new(sentinel(pt(0, 0, 0), PlacementState::PlacingFlat, 0));
    match searcher.step() {
        StepOutcome::Solved(sol) => assert!(sol.is_empty()),
        _ => panic!("expected a tiling"),
    }
    assert!(searcher.is_exhausted());
}

#[test]
fn one_piece_search_reports_first_placement() {
    let mut searcher = Searcher::new(sentinel(pt(0, 0, 0), PlacementState::PlacingFlat, 1));
    let sol = searcher.next_solution(100).expect("a placement");
    assert_eq!(sol, vec![Position { center: pt(1, 0, 0), orientation: Orientation::FlatDown }]);
    // The search goes on past it with the next placement that fits.
    let sol = searcher.next_solution(100).expect("a second placement");
    assert_eq!(sol, vec![Position { center: pt(2, 0, 0), orientation: Orientation::FlatDown }]);
}

#[test]
fn two_runs_give_the_same_first_solution() {
    let start = sentinel(pt(0, 0, 0), PlacementState::PlacingFlat, PIECE_COUNT);
    let mut a = Searcher::new(start);
    let mut b = Searcher::new(start);
    let ra = a.next_solution(200_000);
    let rb = b.next_solution(200_000);
    assert_eq!(ra, rb);
    assert_eq!(a.frames(), b.frames());
    let start = sentinel(pt(0, 0, 0), PlacementState::PlacingFlat, 3);
    let ra = Searcher::new(start).next_solution(10_000);
    let rb = Searcher::new(start).next_solution(10_000);
    assert!(ra.is_some());
    assert_eq!(ra, rb);
}

fn assert_disjoint_in_cube(sol: &[Position]) {
    let mut count = vec![0u32; BOARD_SIZE * BOARD_SIZE * BOARD_SIZE];
    for p in sol {
        for c in get_points_for_orientation(&p.center, &p.orientation) {
            assert!(c.x < BOARD_SIZE && c.y < BOARD_SIZE && c.z < BOARD_SIZE);
            count[(c.x * BOARD_SIZE + c.y) * BOARD_SIZE + c.z] += 1;
        }
    }
    assert!(count.iter().all(|n| *n <= 1));
    assert_eq!(count.iter().filter(|n| **n == 1).count(), 4 * sol.len());
}

#[test]
fn reported_placements_never_overlap() {
    let mut searcher = Searcher::new(sentinel(starting_cursor(0, 1), PlacementState::PlacingFlat, 12));
    let mut reported = 0;
    for _ in 0..20 {
        match searcher.next_solution(1_000_000) {
            Some(sol) => {
                assert_eq!(sol.len(), 12);
                assert_disjoint_in_cube(&sol);
                reported += 1;
            }
            None => break,
        }
    }
    assert!(reported > 0);
}
