use vstd::prelude::*;
use crate::grid::{
    Grid, GridView, MAX_SIZE, slot_of, lemma_size_bounds, lemma_solved_wf, lemma_swap_wf,
    lemma_move_wf, lemma_cell_coords,
};
use crate::codec::{BoardString, board_to_string, encoded};
use crate::solvability::{meets_parity, lemma_shuffled_meets_parity};
use crate::random::os_random_u32;

verus! {

/// Fisher-Yates over the cells before the last: from cell `i` on, cell `i` is
/// exchanged with cell `i + draws[i] % (m - i)`, where `m = n - 1`.
pub open spec fn permuted(g: GridView, draws: Seq<u32>, i: int) -> GridView
    decreases g.n() - 1 - i,
{
    let m = g.n() - 1;
    if 0 <= i < m {
        permuted(g.swapped(i, i + draws[i] as int % (m - i)), draws, i + 1)
    } else {
        g
    }
}

/// The tile ids of the first `m` cells, in order.
pub open spec fn ids_before(g: GridView, m: int) -> Seq<int> {
    Seq::new(m as nat, |c: int| slot_of(g.cells[c]))
}

/// How many entries of `s` from index `j` on are smaller than `x`.
pub open spec fn count_less(s: Seq<int>, x: int, j: int) -> nat
    decreases s.len() - j,
{
    if 0 <= j < s.len() {
        (if x > s[j] {
            1nat
        } else {
            0nat
        }) + count_less(s, x, j + 1)
    } else {
        0
    }
}

/// The number of pairs `i < j`, with `i` from `from` on, such that `s[i] > s[j]`.
pub open spec fn inversions_from(s: Seq<int>, from: int) -> nat
    decreases s.len() - from,
{
    if 0 <= from < s.len() {
        count_less(s, s[from], from + 1) + inversions_from(s, from + 1)
    } else {
        0
    }
}

pub open spec fn inversions(s: Seq<int>) -> nat {
    inversions_from(s, 0)
}

/// With the blank in the last cell, an odd number of inversions among the
/// tiles is made even by exchanging the first two cells.
pub open spec fn parity_fixed(g: GridView) -> GridView {
    if inversions(ids_before(g, g.n() - 1)) % 2 == 1 {
        g.swapped(0, 1)
    } else {
        g
    }
}

/// The board after `times` slides by `(dx, dz)`.
pub open spec fn slid(g: GridView, dx: int, dz: int, times: nat) -> GridView
    decreases times,
{
    if times == 0 {
        g
    } else {
        slid(g, dx, dz, (times - 1) as nat).moved(dx, dz)
    }
}

/// The shuffled board: the tiles permuted by `draws` with the blank kept last,
/// the parity made even, then the blank moved `offset_x` cells left and
/// `offset_z` cells up by real slides.
pub open spec fn shuffled(size: nat, draws: Seq<u32>, offset_x: nat, offset_z: nat) -> GridView {
    let p = parity_fixed(permuted(GridView::solved(size), draws, 0));
    slid(slid(p, -1, 0, offset_x), 0, -1, offset_z)
}

pub proof fn lemma_permuted_wf(g: GridView, draws: Seq<u32>, i: int)
    requires
        g.wf(),
        0 <= i,
        draws.len() >= g.n() - 1,
        g.blank() == g.n() - 1,
    ensures
        permuted(g, draws, i).wf(),
        permuted(g, draws, i).size == g.size,
        permuted(g, draws, i).blank() == g.blank(),
    decreases g.n() - 1 - i,
{
    let m = g.n() - 1;
    if i < m {
        let j = i + draws[i] as int % (m - i);
        lemma_swap_wf(g, i, j);
        let s = g.swapped(i, j);
        assert(g.position_of[slot_of(g.cells[i])] == i);
        assert(g.position_of[slot_of(g.cells[j])] == j);
        assert(s.blank() == g.blank());
        lemma_permuted_wf(s, draws, i + 1);
    }
}

pub proof fn lemma_inversions_short(s: Seq<int>)
    requires
        s.len() < 2,
    ensures
        inversions(s) == 0,
{
    if s.len() == 1 {
        assert(count_less(s, s[0], 1) == 0);
        assert(inversions_from(s, 1) == 0);
    }
}

/// Permutes the tiles of the solved board by `draws`, makes the parity even, and
/// moves the blank `offset_x` cells left and `offset_z` cells up by slides.
pub fn shuffle_from(size: usize, draws: &Vec<u32>, offset_x: usize, offset_z: usize) -> (g: Grid)
    requires
        1 <= size <= MAX_SIZE,
        draws@.len() >= size * size - 1,
        offset_x < size,
        offset_z < size,
    ensures
        g@.wf(),
        g@ == shuffled(size as nat, draws@, offset_x as nat, offset_z as nat),
        meets_parity(g@),
{
    proof {
        lemma_size_bounds(size as int);
        lemma_solved_wf(size as nat);
    }
    let n = size * size;
    let m = n - 1;
    let mut g = Grid::new(size);
    let ghost start = g@;
    let mut i: usize = 0;
    while i < m
        invariant
            n == size * size,
            1 <= n <= MAX_SIZE * MAX_SIZE,
            m == n - 1,
            i <= m,
            g@.wf(),
            g@.size == size,
            g@.blank() == m,
            draws@.len() >= m,
            permuted(g@, draws@, i as int) == permuted(start, draws@, 0),
            start == GridView::solved(size as nat),
        decreases m - i,
    {
        let j = i + (draws[i] as usize) % (m - i);
        proof {
            assert(g@.position_of[slot_of(g@.cells[i as int])] == i);
            assert(g@.position_of[slot_of(g@.cells[j as int])] == j);
        }
        g.swap_cells(i, j);
        i = i + 1;
    }
    let ghost perm = g@;
    // Count the inversions among the tiles, keeping only the parity.
    let mut odd = false;
    let ghost mut counted: int = 0;
    let mut a: usize = 0;
    while a < m
        invariant
            n == size * size,
            m == n - 1,
            a <= m,
            g@ == perm,
            g@.wf(),
            g@.size == size,
            counted + inversions_from(ids_before(perm, m as int), a as int) == inversions(
                ids_before(perm, m as int),
            ),
            odd == (counted % 2 == 1),
        decreases m - a,
    {
        let ghost s = ids_before(perm, m as int);
        let ghost row_start = counted;
        let ka = match g.occupant(a) {
            Some(k) => k,
            None => 0,
        };
        let mut b: usize = a + 1;
        while b < m
            invariant
                n == size * size,
                m == n - 1,
                a < b <= m,
                g@ == perm,
                g@.wf(),
                g@.size == size,
                s == ids_before(perm, m as int),
                ka as int == s[a as int],
                counted + count_less(s, s[a as int], b as int) == row_start + count_less(
                    s,
                    s[a as int],
                    (a + 1) as int,
                ),
                odd == (counted % 2 == 1),
            decreases m - b,
        {
            let kb = match g.occupant(b) {
                Some(k) => k,
                None => 0,
            };
            proof {
                assert(kb as int == s[b as int]);
            }
            if ka > kb {
                odd = !odd;
                proof {
                    counted = counted + 1;
                }
            }
            b = b + 1;
        }
        a = a + 1;
    }
    proof {
        if m < 2 {
            lemma_inversions_short(ids_before(perm, m as int));
        }
        lemma_cell_coords(size as int, size - 1, size - 1);
        assert((size - 1) * size + (size - 1) == m) by (nonlinear_arith)
            requires
                m == size * size - 1,
        ;
    }
    if odd {
        proof {
            assert(g@.position_of[slot_of(g@.cells[0])] == 0);
            assert(g@.position_of[slot_of(g@.cells[1])] == 1);
        }
        g.swap_cells(0, 1);
    }
    let ghost fixed = g@;
    assert(fixed == parity_fixed(perm));
    assert(fixed.blank() == m);
    let mut t: usize = 0;
    while t < offset_x
        invariant
            g@.wf(),
            g@.size == size,
            t <= offset_x,
            offset_x < size,
            g@.blank_x() == size - 1 - t,
            g@.blank_z() == size - 1,
            g@ == slid(fixed, -1, 0, t as nat),
        decreases offset_x - t,
    {
        proof {
            lemma_move_wf(g@, -1, 0);
        }
        let _ = g.apply_move(-1, 0);
        t = t + 1;
    }
    let ghost slid_x = g@;
    let mut t: usize = 0;
    while t < offset_z
        invariant
            g@.wf(),
            g@.size == size,
            t <= offset_z,
            offset_z < size,
            g@.blank_z() == size - 1 - t,
            g@ == slid(slid_x, 0, -1, t as nat),
        decreases offset_z - t,
    {
        proof {
            lemma_move_wf(g@, 0, -1);
        }
        let _ = g.apply_move(0, -1);
        t = t + 1;
    }
    proof {
        lemma_shuffled_meets_parity(size as nat, draws@, offset_x as nat, offset_z as nat);
    }
    g
}

/// `count` random draws, or none when the system's generator fails.
pub fn random_draws(count: usize) -> (r: Option<Vec<u32>>)
    ensures
        r matches Some(v) ==> v@.len() == count,
{
    let mut draws: Vec<u32> = Vec::new();
    let mut i: usize = 0;
    while i < count
        invariant
            i <= count,
            draws@.len() == i,
        decreases count - i,
    {
        match os_random_u32() {
            Some(d) => draws.push(d),
            None => {
                return None;
            },
        }
        i = i + 1;
    }
    Some(draws)
}

/// A random offset below `size`, or none when the system's generator fails.
pub fn random_offset(size: usize) -> (r: Option<usize>)
    requires
        1 <= size <= MAX_SIZE,
    ensures
        r matches Some(o) ==> o < size,
{
    match os_random_u32() {
        Some(d) => Some((d % (size as u32)) as usize),
        None => None,
    }
}

/// The string of a random solvable board of side `size`: a random permutation
/// with its parity made even, then the blank moved to a random cell by slides.
/// None when the system's generator fails.
pub fn shuffle(size: usize) -> (r: Option<BoardString>)
    requires
        1 <= size <= MAX_SIZE,
    ensures
        r matches Some(b) ==> exists|d: Seq<u32>, ox: nat, oz: nat|
            ox < size && oz < size && d.len() == size * size - 1 && b@ == encoded(
                #[trigger] shuffled(size as nat, d, ox, oz),
            ),
{
    proof {
        lemma_size_bounds(size as int);
    }
    let draws = match random_draws(size * size - 1) {
        Some(d) => d,
        None => {
            return None;
        },
    };
    let ox = match random_offset(size) {
        Some(o) => o,
        None => {
            return None;
        },
    };
    let oz = match random_offset(size) {
        Some(o) => o,
        None => {
            return None;
        },
    };
    let g = shuffle_from(size, &draws, ox, oz);
    Some(board_to_string(&g))
}

} // verus!
