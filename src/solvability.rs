use vstd::prelude::*;
use crate::grid::{
    GridView, MAX_SIZE, slot_of, lemma_solved_wf, occupant_of, lemma_size_bounds, lemma_move_wf, lemma_coords_of_cell,
    lemma_cell_coords,
};
use crate::orientation::is_unit_delta;
use crate::shuffle::{
    count_less, inversions_from, inversions, ids_before, parity_fixed, permuted, shuffled, slid,
    lemma_permuted_wf, lemma_inversions_short,
};

verus! {

/// `s` with the entries at `a` and `a + 1` exchanged.
pub open spec fn adjacent_swapped(s: Seq<int>, a: int) -> Seq<int> {
    s.update(a, s[a + 1]).update(a + 1, s[a])
}

/// `s` with the entry at `p` taken out and put back in at `q <= p`, the entries
/// between moving up by one.
pub open spec fn shifted(s: Seq<int>, q: int, p: int) -> Seq<int> {
    Seq::new(
        s.len(),
        |i: int|
            if i < q || i > p {
                s[i]
            } else if i == q {
                s[p]
            } else {
                s[i - 1]
            },
    )
}

pub open spec fn all_distinct(s: Seq<int>) -> bool {
    forall|i: int, j: int| 0 <= i < s.len() && 0 <= j < s.len() && i != j ==> s[i] != s[j]
}

proof fn lemma_count_agree(s: Seq<int>, t: Seq<int>, x: int, j: int)
    requires
        s.len() == t.len(),
        0 <= j,
        forall|k: int| j <= k < s.len() ==> s[k] == t[k],
    ensures
        count_less(s, x, j) == count_less(t, x, j),
    decreases s.len() - j,
{
    if j < s.len() {
        lemma_count_agree(s, t, x, j + 1);
    }
}

proof fn lemma_inversions_agree(s: Seq<int>, t: Seq<int>, i: int)
    requires
        s.len() == t.len(),
        0 <= i,
        forall|k: int| i <= k < s.len() ==> s[k] == t[k],
    ensures
        inversions_from(s, i) == inversions_from(t, i),
    decreases s.len() - i,
{
    if i < s.len() {
        lemma_count_agree(s, t, s[i], i + 1);
        lemma_inversions_agree(s, t, i + 1);
    }
}

proof fn lemma_count_swap(s: Seq<int>, a: int, x: int, j: int)
    requires
        0 <= j <= a,
        a + 1 < s.len(),
    ensures
        count_less(adjacent_swapped(s, a), x, j) == count_less(s, x, j),
    decreases a - j,
{
    let t = adjacent_swapped(s, a);
    if j < a {
        lemma_count_swap(s, a, x, j + 1);
    } else {
        lemma_count_agree(s, t, x, a + 2);
        assert(count_less(t, x, a + 1) == (if x > t[a + 1] { 1nat } else { 0nat }) + count_less(t, x, a + 2));
        assert(count_less(s, x, a + 1) == (if x > s[a + 1] { 1nat } else { 0nat }) + count_less(s, x, a + 2));
    }
}

proof fn lemma_inversions_swap_from(s: Seq<int>, a: int, i: int)
    requires
        0 <= i <= a,
        a + 1 < s.len(),
    ensures
        inversions_from(adjacent_swapped(s, a), i) + (if s[a] > s[a + 1] { 1int } else { 0int })
            == inversions_from(s, i) + (if s[a + 1] > s[a] { 1int } else { 0int }),
    decreases a - i,
{
    let t = adjacent_swapped(s, a);
    if i < a {
        lemma_inversions_swap_from(s, a, i + 1);
        lemma_count_swap(s, a, s[i], i + 1);
        assert(t[i] == s[i]);
    } else {
        lemma_inversions_agree(s, t, a + 2);
        lemma_count_agree(s, t, s[a], a + 2);
        lemma_count_agree(s, t, s[a + 1], a + 2);
        assert(inversions_from(t, a + 1) == count_less(t, t[a + 1], a + 2) + inversions_from(t, a + 2));
        assert(inversions_from(s, a + 1) == count_less(s, s[a + 1], a + 2) + inversions_from(s, a + 2));
        assert(count_less(t, t[a], a + 1) == (if t[a] > t[a + 1] { 1nat } else { 0nat }) + count_less(t, t[a], a + 2));
        assert(count_less(s, s[a], a + 1) == (if s[a] > s[a + 1] { 1nat } else { 0nat }) + count_less(s, s[a], a + 2));
    }
}

/// Exchanging two neighbouring distinct entries changes the number of
/// inversions by one, so flips its parity.
pub proof fn lemma_adjacent_swap_parity(s: Seq<int>, a: int)
    requires
        0 <= a,
        a + 1 < s.len(),
        s[a] != s[a + 1],
    ensures
        inversions(adjacent_swapped(s, a)) % 2 != inversions(s) % 2,
{
    lemma_inversions_swap_from(s, a, 0);
}

/// Moving one entry of a sequence of distinct entries back by `p - q` places
/// changes the parity of the inversions by `p - q`.
pub proof fn lemma_shift_parity(s: Seq<int>, q: int, p: int)
    requires
        0 <= q <= p < s.len(),
        all_distinct(s),
    ensures
        inversions(shifted(s, q, p)) % 2 == (inversions(s) + (p - q)) % 2,
    decreases p - q,
{
    if p == q {
        assert(shifted(s, q, p) =~= s);
    } else {
        let u = adjacent_swapped(s, p - 1);
        lemma_adjacent_swap_parity(s, p - 1);
        assert(all_distinct(u)) by {
            assert forall|i: int, j: int| 0 <= i < u.len() && 0 <= j < u.len() && i != j implies u[i]
                != u[j] by {
                let si = if i == p - 1 { p } else if i == p { p - 1 } else { i };
                let sj = if j == p - 1 { p } else if j == p { p - 1 } else { j };
                assert(u[i] == s[si]);
                assert(u[j] == s[sj]);
            }
        }
        lemma_shift_parity(u, q, p - 1);
        assert(shifted(u, q, p - 1) =~= shifted(s, q, p));
    }
}

/// The tile ids in cell order, the blank left out.
pub open spec fn tile_seq(g: GridView) -> Seq<int> {
    Seq::new(
        (g.n() - 1) as nat,
        |i: int|
            slot_of(
                g.cells[if i < g.blank() {
                    i
                } else {
                    i + 1
                }],
            ),
    )
}

/// The parity criterion of the sliding puzzle: the inversions among the tiles,
/// plus `size - 1` for each row the blank stands above the last, are even. The
/// solved board meets it, and no slide changes it.
pub open spec fn meets_parity(g: GridView) -> bool {
    (inversions(tile_seq(g)) + (g.size - 1) * (g.size - 1 - g.blank_z())) % 2 == 0
}

proof fn lemma_tile_seq_distinct(g: GridView)
    requires
        g.wf(),
    ensures
        all_distinct(tile_seq(g)),
{
    let s = tile_seq(g);
    lemma_size_bounds(g.size as int);
    assert(0 <= g.position_of[0] < g.n());
    assert forall|i: int, j: int| 0 <= i < s.len() && 0 <= j < s.len() && i != j implies s[i]
        != s[j] by {
        let ci = if i < g.blank() { i } else { i + 1 };
        let cj = if j < g.blank() { j } else { j + 1 };
        assert(g.position_of[slot_of(g.cells[ci])] == ci);
        assert(g.position_of[slot_of(g.cells[cj])] == cj);
    }
}

/// No slide changes whether the board meets the parity criterion.
#[verifier::rlimit(40)]
pub proof fn lemma_move_keeps_parity(g: GridView, dx: int, dz: int)
    requires
        g.wf(),
        is_unit_delta(dx, dz),
        g.can_move(dx, dz),
    ensures
        meets_parity(g.moved(dx, dz)) == meets_parity(g),
{
    let size = g.size as int;
    let b = g.blank();
    let t = g.target(dx, dz);
    let h = g.moved(dx, dz);
    let k = g.mover(dx, dz);
    lemma_size_bounds(size);
    assert(0 <= g.position_of[0] < g.n());
    lemma_coords_of_cell(size, b);
    lemma_move_wf(g, dx, dz);
    lemma_cell_coords(size, g.target_x(dx), g.target_z(dz));
    assert(g.cells[b] == occupant_of(0));
    assert(g.position_of[k] == t);
    assert(h.cells[b] == g.cells[t]);
    assert(h.cells[t] == g.cells[b]);
    assert(forall|c: int| 0 <= c < g.n() && c != b && c != t ==> h.cells[c] == g.cells[c]);
    let s = tile_seq(g);
    let s2 = tile_seq(h);
    if dz == 0 {
        assert(s2 =~= s);
    } else if dz == 1 {
        assert(t == b + size) by (nonlinear_arith)
            requires
                t == (b / size + 1) * size + b % size,
                b == (b / size) * size + b % size,
        ;
        assert(s2 =~= shifted(s, b, t - 1));
        lemma_tile_seq_distinct(g);
        lemma_shift_parity(s, b, t - 1);
        assert((size - 1) * (size - 1 - g.blank_z()) == (size - 1) * (size - 1 - (g.blank_z() + 1))
            + (size - 1)) by (nonlinear_arith);
    } else {
        assert(t == b - size) by (nonlinear_arith)
            requires
                t == (b / size - 1) * size + b % size,
                b == (b / size) * size + b % size,
        ;
        assert(s =~= shifted(s2, t, b - 1));
        lemma_tile_seq_distinct(h);
        lemma_shift_parity(s2, t, b - 1);
        assert((size - 1) * (size - 1 - (g.blank_z() - 1)) == (size - 1) * (size - 1 - g.blank_z())
            + (size - 1)) by (nonlinear_arith);
    }
}

proof fn lemma_slid_parity(g: GridView, dx: int, dz: int, times: nat)
    requires
        g.wf(),
        meets_parity(g),
        (dx == -1 && dz == 0 && times <= g.blank_x()) || (dx == 0 && dz == -1 && times
            <= g.blank_z()),
    ensures
        slid(g, dx, dz, times).wf(),
        meets_parity(slid(g, dx, dz, times)),
        slid(g, dx, dz, times).size == g.size,
        slid(g, dx, dz, times).blank_x() == g.blank_x() + dx * times,
        slid(g, dx, dz, times).blank_z() == g.blank_z() + dz * times,
    decreases times,
{
    if times > 0 {
        let prev = slid(g, dx, dz, (times - 1) as nat);
        lemma_slid_parity(g, dx, dz, (times - 1) as nat);
        assert(prev.blank_x() == g.blank_x() + dx * (times - 1));
        assert(prev.blank_z() == g.blank_z() + dz * (times - 1));
        assert(0 <= prev.blank_x() < prev.size && 0 <= prev.blank_z() < prev.size) by {
            lemma_size_bounds(prev.size as int);
            assert(0 <= prev.position_of[0] < prev.n());
            lemma_coords_of_cell(prev.size as int, prev.blank());
        }
        lemma_move_wf(prev, dx, dz);
        lemma_move_keeps_parity(prev, dx, dz);
    }
}

/// Every shuffled board meets the parity criterion, which the solved board
/// meets and no slide changes: the parity fix is made while the blank is in
/// the last cell, and the blank then moves by slides only.
pub proof fn lemma_shuffled_meets_parity(size: nat, draws: Seq<u32>, offset_x: nat, offset_z: nat)
    requires
        1 <= size <= MAX_SIZE,
        draws.len() >= size * size - 1,
        offset_x < size,
        offset_z < size,
    ensures
        shuffled(size, draws, offset_x, offset_z).wf(),
        meets_parity(shuffled(size, draws, offset_x, offset_z)),
{
    let sz = size as int;
    let start = GridView::solved(size);
    lemma_size_bounds(sz);
    lemma_solved_wf(size);
    let m = sz * sz - 1;
    assert(start.blank() == m);
    lemma_permuted_wf(start, draws, 0);
    let perm = permuted(start, draws, 0);
    let fixed = parity_fixed(perm);
    let s0 = tile_seq(perm);
    assert(s0 =~= ids_before(perm, m));
    lemma_cell_coords(sz, sz - 1, sz - 1);
    assert((sz - 1) * sz + (sz - 1) == m) by (nonlinear_arith)
        requires
            m == sz * sz - 1,
    ;
    if inversions(ids_before(perm, m)) % 2 == 1 {
        if m < 2 {
            lemma_inversions_short(ids_before(perm, m));
        }
        crate::grid::lemma_swap_wf(perm, 0, 1);
        assert(perm.position_of[slot_of(perm.cells[0])] == 0);
        assert(perm.position_of[slot_of(perm.cells[1])] == 1);
        assert(fixed.blank() == m);
        assert(tile_seq(fixed) =~= adjacent_swapped(s0, 0));
        lemma_tile_seq_distinct(perm);
        lemma_adjacent_swap_parity(s0, 0);
    }
    assert(fixed.wf());
    assert(fixed.blank() == m);
    assert(fixed.blank_z() == sz - 1);
    assert(fixed.blank_x() == sz - 1);
    assert((fixed.size - 1) * (fixed.size - 1 - fixed.blank_z()) == 0) by (nonlinear_arith)
        requires
            fixed.blank_z() == fixed.size - 1,
    ;
    assert(meets_parity(fixed));
    lemma_slid_parity(fixed, -1, 0, offset_x);
    let slid_x = slid(fixed, -1, 0, offset_x);
    lemma_slid_parity(slid_x, 0, -1, offset_z);
}

/// The solved board meets the parity criterion.
pub proof fn lemma_solved_meets_parity(size: nat)
    requires
        1 <= size <= MAX_SIZE,
    ensures
        meets_parity(GridView::solved(size)),
{
    let sz = size as int;
    let g = GridView::solved(size);
    lemma_size_bounds(sz);
    lemma_cell_coords(sz, sz - 1, sz - 1);
    assert((sz - 1) * sz + (sz - 1) == sz * sz - 1) by (nonlinear_arith);
    let s = tile_seq(g);
    assert(g.blank() == sz * sz - 1);
    assert(g.blank_z() == sz - 1);
    assert((g.size - 1) * (g.size - 1 - g.blank_z()) == 0) by (nonlinear_arith)
        requires
            g.blank_z() == g.size - 1,
    ;
    assert forall|i: int| 0 <= i < s.len() implies #[trigger] s[i] == i + 1 by {}
    assert forall|i: int| 0 <= i <= s.len() implies #[trigger] inversions_from(s, i) == 0 by {
        lemma_sorted_no_inversions(s, i);
    }
}

proof fn lemma_sorted_count(s: Seq<int>, x: int, j: int)
    requires
        0 <= j,
        forall|i: int| 0 <= i < s.len() ==> #[trigger] s[i] == i + 1,
        x <= j,
    ensures
        count_less(s, x, j) == 0,
    decreases s.len() - j,
{
    if j < s.len() {
        lemma_sorted_count(s, x, j + 1);
    }
}

proof fn lemma_sorted_no_inversions(s: Seq<int>, i: int)
    requires
        0 <= i,
        forall|k: int| 0 <= k < s.len() ==> #[trigger] s[k] == k + 1,
    ensures
        inversions_from(s, i) == 0,
    decreases s.len() - i,
{
    if i < s.len() {
        lemma_sorted_count(s, s[i], i + 1);
        lemma_sorted_no_inversions(s, i + 1);
    }
}

} // verus!
