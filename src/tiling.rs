use vstd::prelude::*;
use vstd::set_lib::{lemma_int_range, lemma_map_size, lemma_subset_equality, set_int_range};

use crate::board::{cell_free, lemma_place_then_remove, mark, valid_board};
use crate::defs::{cube_domain, key, Position, PIECE_COUNT};
use crate::geometry::{footprint, lemma_footprint_distinct};
use crate::search::{occupancy_of, placements_valid};

verus! {

/// The indices of the filled cells of `m`.
pub open spec fn filled(m: Map<(int, int, int), bool>) -> Set<(int, int, int)> {
    Set::new(|k: (int, int, int)| m.dom().contains(k) && m[k])
}

spec fn cell_of_index(i: int) -> (int, int, int) {
    (i / 36, (i / 6) % 6, i % 6)
}

proof fn lemma_cube_size()
    ensures
        cube_domain().finite(),
        cube_domain().len() == 216,
{
    let r = set_int_range(0, 216);
    lemma_int_range(0, 216);
    assert forall|i: int, j: int|
        r.contains(i) && r.contains(j) && #[trigger] cell_of_index(i) == #[trigger] cell_of_index(j) implies i == j by {
        assert(i == 36 * (i / 36) + 6 * ((i / 6) % 6) + i % 6) by (nonlinear_arith)
            requires 0 <= i < 216;
        assert(j == 36 * (j / 36) + 6 * ((j / 6) % 6) + j % 6) by (nonlinear_arith)
            requires 0 <= j < 216;
    }
    assert forall|k: (int, int, int)| cube_domain().contains(k) implies r.map(|i: int| cell_of_index(i)).contains(k) by {
        let i = 36 * k.0 + 6 * k.1 + k.2;
        assert(0 <= i < 216 && cell_of_index(i) == k) by (nonlinear_arith)
            requires 0 <= k.0 < 6, 0 <= k.1 < 6, 0 <= k.2 < 6, i == 36 * k.0 + 6 * k.1 + k.2;
        assert(r.contains(i));
    }
    assert forall|k: (int, int, int)| r.map(|i: int| cell_of_index(i)).contains(k) implies cube_domain().contains(k) by {
        let i = choose|i: int| r.contains(i) && cell_of_index(i) == k;
        assert(0 <= i / 36 < 6 && 0 <= (i / 6) % 6 < 6 && 0 <= i % 6 < 6) by (nonlinear_arith)
            requires 0 <= i < 216;
    }
    assert(r.map(|i: int| cell_of_index(i)) =~= cube_domain());
    lemma_map_size(r, cube_domain(), |i: int| cell_of_index(i));
}

proof fn lemma_filled_count(ps: Seq<Position>)
    requires
        placements_valid(ps),
    ensures
        valid_board(occupancy_of(ps)),
        filled(occupancy_of(ps)).finite(),
        filled(occupancy_of(ps)).len() == 4 * ps.len(),
    decreases ps.len(),
{
    if ps.len() == 0 {
        assert(filled(occupancy_of(ps)) =~= Set::empty());
        assert(occupancy_of(ps).dom() =~= cube_domain());
    } else {
        let prev = ps.drop_last();
        let p = ps.last().center;
        let o = ps.last().orientation;
        lemma_filled_count(prev);
        let m = occupancy_of(prev);
        lemma_place_then_remove(m, p, o);
        let f = footprint(p, o);
        assert(cell_free(m, f[0]) && cell_free(m, f[1]) && cell_free(m, f[2]) && cell_free(m, f[3]));
        lemma_footprint_distinct(p, o);
        assert(f[0] != f[1] && f[0] != f[2] && f[0] != f[3] && f[1] != f[2] && f[1] != f[3] && f[2] != f[3]);
        let s0 = filled(m);
        let s1 = s0.insert(key(f[0]));
        let s2 = s1.insert(key(f[1]));
        let s3 = s2.insert(key(f[2]));
        let s4 = s3.insert(key(f[3]));
        assert(filled(mark(m, p, o, true)) =~= s4);
        assert(s1.len() == s0.len() + 1);
        assert(s2.len() == s1.len() + 1);
        assert(s3.len() == s2.len() + 1);
        assert(s4.len() == s3.len() + 1);
    }
}

/// A run of `PIECE_COUNT` placements, each on cells left empty by those before
/// it, so that no two overlap, fills every cell of the cube.
pub proof fn lemma_full_run_tiles_cube(ps: Seq<Position>)
    requires
        placements_valid(ps),
        ps.len() == PIECE_COUNT,
    ensures
        forall|k: (int, int, int)| cube_domain().contains(k) ==> #[trigger] occupancy_of(ps)[k],
{
    lemma_filled_count(ps);
    lemma_cube_size();
    let m = occupancy_of(ps);
    assert(filled(m).subset_of(cube_domain()));
    lemma_subset_equality(filled(m), cube_domain());
    assert forall|k: (int, int, int)| cube_domain().contains(k) implies #[trigger] occupancy_of(ps)[k] by {
        assert(filled(m).contains(k));
    }
}

} // verus!
