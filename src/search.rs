use vstd::prelude::*;

use crate::board::{
    empty_board, fits, layer_full, lemma_place_then_remove, layer_is_full, mark, place_piece_at,
    remove_piece_at, valid_board, Board,
};
use crate::defs::{
    cube_domain, Orientation, PlacementState, Point, Position, Solution, StackState, BOARD_SIZE,
    PIECE_COUNT,
};
use crate::phase::{
    increment_cursor_in_slice, next_cursor, next_layer, next_phase, placement_state_transition,
};
use crate::tiling::lemma_full_run_tiles_cube;
use crate::validator::{
    candidate, first_fit_from, has_empty_overhang, has_overhang, need_check_overhang,
    needs_overhang_check, phase_options, try_orientations,
};

verus! {

/// The placements recorded by a stack of frames, bottom to top, without the
/// sentinel frame at the bottom.
pub open spec fn moves(s: Seq<StackState>) -> Seq<Position> {
    s.drop_first().map_values(|f: StackState| f.last_move)
}

/// The board that results from making the placements `ps` in order on an empty board.
pub open spec fn occupancy_of(ps: Seq<Position>) -> Map<(int, int, int), bool>
    decreases ps.len(),
{
    if ps.len() == 0 {
        empty_board()
    } else {
        mark(occupancy_of(ps.drop_last()), ps.last().center, ps.last().orientation, true)
    }
}

/// Each placement of `ps` lies on cells of the cube left empty by those before it.
pub open spec fn placements_valid(ps: Seq<Position>) -> bool
    decreases ps.len(),
{
    ps.len() == 0 || (placements_valid(ps.drop_last()) && fits(
        occupancy_of(ps.drop_last()),
        ps.last().center,
        ps.last().orientation,
    ))
}

/// The frame's layer index leaves room for the step to the next layer.
pub open spec fn frame_bounded(f: StackState) -> bool {
    match f.placement_state {
        PlacementState::PlacingFlat | PlacementState::PlacingFaceup => f.cursor.z <= BOARD_SIZE,
        _ => f.cursor.z <= BOARD_SIZE + 1,
    }
}

/// The cursor has left the current layer.
pub open spec fn cursor_exhausted(f: StackState) -> bool {
    f.cursor.x >= BOARD_SIZE || f.cursor.y >= BOARD_SIZE
}

/// The layer below the frame's cursor exists and is full.
pub open spec fn layer_below_full(m: Map<(int, int, int), bool>, f: StackState) -> bool {
    f.cursor.z >= 1 && layer_full(m, f.cursor.z - 1)
}

/// The top frame is given up: it completes a tiling, or it ends an upright
/// phase that left a hole in the layer below.
pub open spec fn must_backtrack(m: Map<(int, int, int), bool>, f: StackState) -> bool {
    f.pieces_remaining == 0 || (cursor_exhausted(f) && f.placement_state
        == PlacementState::PlacingUpright && !layer_below_full(m, f))
}

/// `f` with its cursor set to `c`.
pub open spec fn with_cursor(f: StackState, c: Point) -> StackState {
    StackState {
        placement_state: f.placement_state,
        last_move: f.last_move,
        cursor: c,
        pieces_remaining: f.pieces_remaining,
    }
}

/// `f` moved to the next phase, its cursor back at the start of the layer.
pub open spec fn phase_advanced(f: StackState) -> StackState {
    StackState {
        placement_state: next_phase(f.placement_state),
        last_move: f.last_move,
        cursor: Point { x: 0, y: 0, z: next_layer(f.placement_state, f.cursor.z as int) as usize },
        pieces_remaining: f.pieces_remaining,
    }
}

/// The frame pushed after placing a piece in orientation `o` at the cursor of `f`.
pub open spec fn child_frame(f: StackState, o: Orientation) -> StackState {
    StackState {
        placement_state: f.placement_state,
        last_move: Position { center: f.cursor, orientation: o },
        cursor: next_cursor(f.cursor),
        pieces_remaining: (f.pieces_remaining - 1) as usize,
    }
}

/// The stack after one step of the search.
pub open spec fn next_stack(s: Seq<StackState>) -> Seq<StackState> {
    let m = occupancy_of(moves(s));
    let f = s.last();
    let i = s.len() - 1;
    if must_backtrack(m, f) {
        if s.len() > 1 {
            s.drop_last()
        } else {
            s
        }
    } else if cursor_exhausted(f) {
        s.update(i, phase_advanced(f))
    } else {
        let moved_on = s.update(i, with_cursor(f, next_cursor(f.cursor)));
        match candidate(m, f.cursor, f.placement_state) {
            Some(o) => if needs_overhang_check(o) && has_overhang(m, f.cursor, o) {
                moved_on
            } else {
                moved_on.push(child_frame(f, o))
            },
            None => moved_on,
        }
    }
}

/// The step would give up the sentinel frame: the search is over.
pub open spec fn search_ends(s: Seq<StackState>) -> bool {
    s.len() == 1 && must_backtrack(occupancy_of(moves(s)), s.last())
}

/// What one step of the search reports.
pub enum StepOutcome {
    /// The search moved on and goes on.
    Searching,
    /// The top frame completed a tiling; these are its placements in order.
    Solved(Solution),
    /// Nothing is left to try.
    Exhausted,
}

/// One worker's search: its board and its stack of frames.
pub struct Searcher {
    board: Board,
    stack: Vec<StackState>,
    finished: bool,
}

impl View for Searcher {
    type V = (Seq<StackState>, bool);

    closed spec fn view(&self) -> (Seq<StackState>, bool) {
        (self.stack@, self.finished)
    }
}

impl Searcher {
    /// The searcher's invariant: a sentinel frame at the bottom, the board made of
    /// exactly the recorded placements, which never overlap, and a piece count
    /// that falls by one with each frame.
    pub closed spec fn wf(&self) -> bool {
        searcher_state_ok(self@) && self.board@ == occupancy_of(moves(self.stack@))
            && valid_board(self.board@)
    }

    /// A fresh search seeded by `initial` as its sentinel frame, on an empty board.
    pub fn new(initial: StackState) -> (r: Searcher)
        requires
            frame_bounded(initial),
        ensures
            r.wf(),
            searcher_state_ok(r@),
            r@ == (seq![initial], false),
    {
        let mut stack: Vec<StackState> = Vec::new();
        stack.push(initial);
        let r = Searcher { board: Board::new(), stack, finished: false };
        assert(moves(r.stack@) =~= Seq::<Position>::empty());
        assert(empty_board().dom() =~= cube_domain());
        r
    }

    /// The frames from the sentinel up.
    pub fn frames(&self) -> (r: &Vec<StackState>)
        ensures
            r@ == self@.0,
    {
        &self.stack
    }

    /// Whether the search has run out of placements to try.
    pub fn is_exhausted(&self) -> (r: bool)
        ensures
            r == self@.1,
    {
        self.finished
    }
}

proof fn lemma_occupancy_valid(ps: Seq<Position>)
    requires
        placements_valid(ps),
    ensures
        valid_board(occupancy_of(ps)),
    decreases ps.len(),
{
    if ps.len() == 0 {
        assert(empty_board().dom() =~= cube_domain());
    } else {
        lemma_occupancy_valid(ps.drop_last());
        lemma_place_then_remove(occupancy_of(ps.drop_last()), ps.last().center, ps.last().orientation);
    }
}

proof fn lemma_moves_pop(s: Seq<StackState>)
    requires
        s.len() > 1,
    ensures
        moves(s.drop_last()) == moves(s).drop_last(),
        moves(s).len() == s.len() - 1,
        moves(s).last() == s.last().last_move,
{
    assert(moves(s.drop_last()) =~= moves(s).drop_last());
}

proof fn lemma_moves_update(s: Seq<StackState>, i: int, g: StackState)
    requires
        0 <= i < s.len(),
        g.last_move == s[i].last_move,
    ensures
        moves(s.update(i, g)) == moves(s),
{
    assert(moves(s.update(i, g)) =~= moves(s));
}

proof fn lemma_moves_push(s: Seq<StackState>, f: StackState)
    requires
        s.len() >= 1,
    ensures
        moves(s.push(f)) == moves(s).push(f.last_move),
{
    assert(moves(s.push(f)) =~= moves(s).push(f.last_move));
}

proof fn lemma_first_fit_fits(
    m: Map<(int, int, int), bool>,
    p: Point,
    opts: Seq<Option<Orientation>>,
    k: nat,
)
    ensures
        first_fit_from(m, p, opts, k) matches Some(o) ==> fits(m, p, o),
    decreases opts.len() - k,
{
    if k < opts.len() {
        lemma_first_fit_fits(m, p, opts, k + 1);
    }
}

impl Searcher {
    /// The placements of the frames above the sentinel, in order.
    pub fn current_moves(&self) -> (r: Solution)
        requires
            self.wf(),
        ensures
            r@ == moves(self@.0),
    {
        let mut r: Vec<Position> = Vec::new();
        let n = self.stack.len();
        let mut i: usize = 1;
        while i < n
            invariant
                n == self.stack@.len(),
                1 <= i <= n,
                r@ == moves(self.stack@).subrange(0, i - 1),
            decreases n - i,
        {
            r.push(self.stack[i].last_move);
            assert(r@ =~= moves(self.stack@).subrange(0, i as int));
            i = i + 1;
        }
        assert(r@ =~= moves(self.stack@));
        r
    }

    fn backtrack(&mut self)
        requires
            old(self).wf(),
            !old(self)@.1,
        ensures
            final(self).wf(),
            old(self)@.0.len() > 1 ==> final(self)@ == (old(self)@.0.drop_last(), false),
            old(self)@.0.len() == 1 ==> final(self)@ == (old(self)@.0, true),
    {
        let n = self.stack.len();
        if n > 1 {
            let ghost s = self.stack@;
            let top = self.stack.pop().unwrap();
            proof {
                lemma_moves_pop(s);
                let ps = moves(s);
                lemma_occupancy_valid(ps.drop_last());
                lemma_place_then_remove(occupancy_of(ps.drop_last()), top.last_move.center, top.last_move.orientation);
                assert(self.stack@ == s.drop_last());
                assert forall|i: int| 0 < i < self.stack@.len() implies #[trigger] self.stack@[i].pieces_remaining + i == self.stack@[0].pieces_remaining by {
                    assert(self.stack@[i] == s[i]);
                }
                assert forall|i: int| 0 <= i < self.stack@.len() implies frame_bounded(#[trigger] self.stack@[i]) by {
                    assert(self.stack@[i] == s[i]);
                }
            }
            remove_piece_at(&mut self.board, &top.last_move.center, &top.last_move.orientation);
        } else {
            self.finished = true;
        }
    }
}

impl Searcher {
    /// One step of the search on the top frame. A frame with no piece left
    /// reports its tiling and is given up; a cursor past the layer moves the frame
    /// to the next phase, or gives the frame up when an upright phase leaves a
    /// hole below; otherwise the first orientation that fits at the cursor is
    /// placed, unless it would overhang a gap, and the cursor moves on. Giving up
    /// the sentinel frame ends the search.
    pub fn step(&mut self) -> (r: StepOutcome)
        requires
            old(self).wf(),
        ensures
            final(self).wf(),
            searcher_state_ok(final(self)@),
            final(self)@.0[0].pieces_remaining == old(self)@.0[0].pieces_remaining,
            r matches StepOutcome::Solved(sol) ==> placements_valid(sol@) && sol@.len()
                == old(self)@.0[0].pieces_remaining,
            old(self)@.1 ==> final(self)@ == old(self)@ && r is Exhausted,
            !old(self)@.1 ==> final(self)@ == (next_stack(old(self)@.0), old(self)@.1 || search_ends(old(self)@.0)),
            !old(self)@.1 ==> (match r {
                StepOutcome::Solved(sol) => old(self)@.0.last().pieces_remaining == 0 && sol@ == moves(old(self)@.0),
                StepOutcome::Exhausted => old(self)@.0.last().pieces_remaining != 0 && search_ends(old(self)@.0),
                StepOutcome::Searching => old(self)@.0.last().pieces_remaining != 0 && !search_ends(old(self)@.0),
            }),
    {
        if self.finished {
            return StepOutcome::Exhausted;
        }
        let ghost s = self.stack@;
        let ghost m = self.board@;
        let n = self.stack.len();
        let f = self.stack[n - 1];
        assert(f == s.last());
        if f.pieces_remaining == 0 {
            let sol = self.current_moves();
            assert(s[n - 1].pieces_remaining + (n - 1) == s[0].pieces_remaining);
            self.backtrack();
            return StepOutcome::Solved(sol);
        }
        if f.cursor.x >= BOARD_SIZE || f.cursor.y >= BOARD_SIZE {
            if f.placement_state == PlacementState::PlacingUpright && !(f.cursor.z >= 1 && layer_is_full(&self.board, f.cursor.z - 1)) {
                self.backtrack();
                if self.finished {
                    return StepOutcome::Exhausted;
                }
                return StepOutcome::Searching;
            }
            assert(!must_backtrack(m, f));
            let next = placement_state_transition(f.placement_state);
            let mut g = f;
            g.cursor.x = 0;
            g.cursor.y = 0;
            if next == PlacementState::PlacingFacedown {
                g.cursor.z = g.cursor.z + 1;
            }
            g.placement_state = next;
            assert(g == phase_advanced(f));
            self.stack.set(n - 1, g);
            proof {
                lemma_moves_update(s, n - 1, g);
                assert forall|i: int| 0 < i < self.stack@.len() implies #[trigger] self.stack@[i].pieces_remaining + i == self.stack@[0].pieces_remaining by {
                    if i != n - 1 { assert(self.stack@[i] == s[i]); }
                    if n - 1 != 0 { assert(self.stack@[0] == s[0]); }
                }
                assert forall|i: int| 0 <= i < self.stack@.len() implies frame_bounded(#[trigger] self.stack@[i]) by {
                    if i != n - 1 { assert(self.stack@[i] == s[i]); }
                }
            }
            return StepOutcome::Searching;
        }
        let found = try_orientations(&self.board, &f.cursor, &f.placement_state);
        let mut g = f;
        increment_cursor_in_slice(&mut g.cursor);
        assert(g == with_cursor(f, next_cursor(f.cursor)));
        self.stack.set(n - 1, g);
        proof {
            lemma_moves_update(s, n - 1, g);
            assert forall|i: int| 0 < i < self.stack@.len() implies #[trigger] self.stack@[i].pieces_remaining + i == self.stack@[0].pieces_remaining by {
                if i != n - 1 { assert(self.stack@[i] == s[i]); }
                if n - 1 != 0 { assert(self.stack@[0] == s[0]); }
            }
            assert forall|i: int| 0 <= i < self.stack@.len() implies frame_bounded(#[trigger] self.stack@[i]) by {
                if i != n - 1 { assert(self.stack@[i] == s[i]); }
            }
        }
        match found {
            Some(pos) => {
                if need_check_overhang(&pos.orientation) && has_empty_overhang(&self.board, &pos.center, &pos.orientation) {
                    return StepOutcome::Searching;
                }
                proof {
                    lemma_first_fit_fits(m, f.cursor, phase_options(f.placement_state), 0);
                }
                place_piece_at(&mut self.board, &pos.center, &pos.orientation);
                let child = StackState {
                    placement_state: f.placement_state,
                    last_move: pos,
                    cursor: g.cursor,
                    pieces_remaining: f.pieces_remaining - 1,
                };
                let ghost s1 = self.stack@;
                self.stack.push(child);
                proof {
                    lemma_moves_push(s1, child);
                    let ps = moves(s1);
                    assert(ps.push(pos).drop_last() =~= ps);
                    lemma_place_then_remove(m, pos.center, pos.orientation);
                    assert forall|i: int| 0 < i < self.stack@.len() implies #[trigger] self.stack@[i].pieces_remaining + i == self.stack@[0].pieces_remaining by {
                        if i < n { assert(self.stack@[i] == s1[i]); }
                    }
                }
                StepOutcome::Searching
            },
            None => StepOutcome::Searching,
        }
    }
}

/// The state after one step: a finished search stays as it is.
pub open spec fn step_view(v: (Seq<StackState>, bool)) -> (Seq<StackState>, bool) {
    if v.1 {
        v
    } else {
        (next_stack(v.0), search_ends(v.0))
    }
}

/// The tiling that one step reports, if any.
pub open spec fn step_solution(v: (Seq<StackState>, bool)) -> Option<Seq<Position>> {
    if !v.1 && v.0.last().pieces_remaining == 0 {
        Some(moves(v.0))
    } else {
        None
    }
}

/// The state after at most `fuel` steps that stop at the first tiling reported
/// or at the end of the search, with that tiling.
pub open spec fn run_spec(v: (Seq<StackState>, bool), fuel: nat) -> ((Seq<StackState>, bool), Option<Seq<Position>>)
    decreases fuel,
{
    if fuel == 0 {
        (v, None)
    } else {
        match step_solution(v) {
            Some(sol) => (step_view(v), Some(sol)),
            None => if step_view(v).1 {
                (step_view(v), None)
            } else {
                run_spec(step_view(v), (fuel - 1) as nat)
            },
        }
    }
}

impl Searcher {
    /// Steps the search until it reports a tiling, runs out of placements, or has
    /// taken `max_steps` steps.
    pub fn next_solution(&mut self, max_steps: usize) -> (r: Option<Solution>)
        requires
            old(self).wf(),
        ensures
            final(self).wf(),
            searcher_state_ok(final(self)@),
            final(self)@ == run_spec(old(self)@, max_steps as nat).0,
            final(self)@.0[0].pieces_remaining == old(self)@.0[0].pieces_remaining,
            r matches Some(sol) ==> placements_valid(sol@) && sol@.len()
                == old(self)@.0[0].pieces_remaining,
            match r {
                Some(sol) => run_spec(old(self)@, max_steps as nat).1 == Some(sol@),
                None => run_spec(old(self)@, max_steps as nat).1 is None,
            },
    {
        let ghost v0 = self@;
        let mut fuel = max_steps;
        while fuel > 0
            invariant
                self.wf(),
                v0 == old(self)@,
                self@.0[0].pieces_remaining == v0.0[0].pieces_remaining,
                run_spec(v0, max_steps as nat) == run_spec(self@, fuel as nat),
            decreases fuel,
        {
            let ghost v = self@;
            match self.step() {
                StepOutcome::Solved(sol) => {
                    assert(self@ == step_view(v));
                    assert(step_solution(v) == Some(sol@));
                    return Some(sol);
                },
                StepOutcome::Exhausted => {
                    return None;
                },
                StepOutcome::Searching => {},
            }
            assert(self@ == step_view(v));
            fuel = fuel - 1;
        }
        None
    }
}

proof fn lemma_next_stack_ok(s: Seq<StackState>)
    requires
        searcher_state_ok((s, false)),
    ensures
        searcher_state_ok((next_stack(s), false)),
        next_stack(s)[0].pieces_remaining == s[0].pieces_remaining,
{
    let m = occupancy_of(moves(s));
    let f = s.last();
    let i = s.len() - 1;
    let t = next_stack(s);
    if must_backtrack(m, f) {
        if s.len() > 1 {
            lemma_moves_pop(s);
            assert forall|j: int| 0 <= j < t.len() implies frame_bounded(#[trigger] t[j]) by {
                assert(t[j] == s[j]);
            }
            assert forall|j: int| 0 < j < t.len() implies #[trigger] t[j].pieces_remaining + j == t[0].pieces_remaining by {
                assert(t[j] == s[j]);
            }
        }
    } else {
        let g = if cursor_exhausted(f) {
            phase_advanced(f)
        } else {
            with_cursor(f, next_cursor(f.cursor))
        };
        let u = s.update(i, g);
        lemma_moves_update(s, i, g);
        assert(frame_bounded(g)) by {
            assert(frame_bounded(s[i]));
        }
        assert forall|j: int| 0 <= j < u.len() implies frame_bounded(#[trigger] u[j]) by {
            if j != i {
                assert(u[j] == s[j]);
            }
        }
        assert forall|j: int| 0 < j < u.len() implies #[trigger] u[j].pieces_remaining + j == u[0].pieces_remaining by {
            if j != i {
                assert(u[j] == s[j]);
            }
            if i != 0 {
                assert(u[0] == s[0]);
            }
            assert(s[i].pieces_remaining + i == s[0].pieces_remaining || i == 0);
        }
        if !cursor_exhausted(f) {
            match candidate(m, f.cursor, f.placement_state) {
                Some(o) => {
                    if !(needs_overhang_check(o) && has_overhang(m, f.cursor, o)) {
                        let c = child_frame(f, o);
                        lemma_moves_push(u, c);
                        lemma_first_fit_fits(m, f.cursor, phase_options(f.placement_state), 0);
                        assert(moves(u).push(c.last_move).drop_last() =~= moves(u));
                        assert(t == u.push(c));
                        assert forall|j: int| 0 <= j < t.len() implies frame_bounded(#[trigger] t[j]) by {
                            if j < u.len() {
                                assert(t[j] == u[j]);
                            }
                        }
                        assert forall|j: int| 0 < j < t.len() implies #[trigger] t[j].pieces_remaining + j == t[0].pieces_remaining by {
                            if j < u.len() {
                                assert(t[j] == u[j]);
                            }
                            assert(s[i].pieces_remaining + i == s[0].pieces_remaining || i == 0);
                        }
                    }
                },
                None => {},
            }
        }
    }
}

proof fn lemma_run_state_ok(v: (Seq<StackState>, bool), fuel: nat)
    requires
        searcher_state_ok(v),
    ensures
        searcher_state_ok(run_spec(v, fuel).0),
        run_spec(v, fuel).0.0[0].pieces_remaining == v.0[0].pieces_remaining,
        run_spec(v, fuel).1 matches Some(sol) ==> placements_valid(sol) && sol.len()
            == v.0[0].pieces_remaining,
    decreases fuel,
{
    if fuel > 0 {
        if !v.1 {
            lemma_next_stack_ok(v.0);
            let s = v.0;
            if s.last().pieces_remaining == 0 {
                assert(s.len() == 1 || s[s.len() - 1].pieces_remaining + (s.len() - 1) == s[0].pieces_remaining);
            }
        }
        if step_solution(v) is None && !step_view(v).1 {
            lemma_run_state_ok(step_view(v), (fuel - 1) as nat);
        }
    }
}

/// Every tiling that the search reports, from any state it can be in whose
/// sentinel frame counts `PIECE_COUNT` pieces, holds `PIECE_COUNT` placements,
/// each on cells that the earlier ones left empty, and together they fill every
/// cell of the cube.
pub proof fn lemma_reported_tilings_fill_cube(v: (Seq<StackState>, bool), fuel: nat)
    requires
        searcher_state_ok(v),
        v.0[0].pieces_remaining == PIECE_COUNT,
    ensures
        run_spec(v, fuel).1 matches Some(sol) ==> {
            &&& sol.len() == PIECE_COUNT
            &&& placements_valid(sol)
            &&& forall|k: (int, int, int)| cube_domain().contains(k) ==> #[trigger] occupancy_of(sol)[k]
        },
{
    lemma_run_state_ok(v, fuel);
    if let Some(sol) = run_spec(v, fuel).1 {
        lemma_full_run_tiles_cube(sol);
    }
}

/// The search is a function of its state: two searchers in the same state report
/// the same next tiling and reach the same state.
pub proof fn lemma_search_deterministic(a: (Seq<StackState>, bool), b: (Seq<StackState>, bool), fuel: nat)
    requires
        a == b,
    ensures
        run_spec(a, fuel) == run_spec(b, fuel),
{
}

/// A state of the search that its invariant admits.
pub open spec fn searcher_state_ok(v: (Seq<StackState>, bool)) -> bool {
    let s = v.0;
    &&& s.len() >= 1
    &&& placements_valid(moves(s))
    &&& forall|i: int| 0 <= i < s.len() ==> frame_bounded(#[trigger] s[i])
    &&& forall|i: int| 0 < i < s.len() ==> #[trigger] s[i].pieces_remaining + i == s[0].pieces_remaining
}

} // verus!
