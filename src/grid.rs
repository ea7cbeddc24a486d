use vstd::prelude::*;
use vstd::arithmetic::div_mod::{lemma_fundamental_div_mod, lemma_fundamental_div_mod_converse};
use crate::orientation::{Orientation, is_unit_delta};

verus! {

/// The permanent identity of a tile: one more than the index of its goal cell.
pub type TileId = u8;

/// The largest side length: a cell's number, `z * size + x + 1`, must fit in a byte.
pub const MAX_SIZE: usize = 15;

#[derive(Clone, Copy, Debug, PartialEq, Eq, Structural)]
pub enum MoveRejected {
    OutOfBounds,
}

/// The board: `size * size` cells, numbered `z * size + x`, each empty or holding
/// one tile, with two tables kept inverse to each other.
pub struct Grid {
    size: usize,
    /// The occupant of each cell.
    cells: Vec<Option<TileId>>,
    /// The cell of each tile; entry 0 is the blank's cell.
    position_of: Vec<usize>,
    /// The orientation of each tile; entry 0 is unused and kept at the identity.
    orientation_of: Vec<Orientation>,
}

pub ghost struct GridView {
    pub size: nat,
    pub cells: Seq<Option<TileId>>,
    pub position_of: Seq<int>,
    pub orientation_of: Seq<Orientation>,
}

/// The table index of a cell's occupant: its id, or 0 for the blank.
pub open spec fn slot_of(c: Option<TileId>) -> int {
    match c {
        Some(k) => k as int,
        None => 0,
    }
}

/// What a cell holds when the tile of table index `k` (0 for the blank) is in it.
pub open spec fn occupant_of(k: int) -> Option<TileId> {
    if k == 0 {
        None
    } else {
        Some(k as TileId)
    }
}

pub open spec fn identity_orientation() -> Orientation {
    Orientation { x: 0, y: 0, z: 0, w: 1 }
}

/// Each tile of a board of `n` cells with its goal cell: `(k, k - 1)` for `k` from 1.
pub open spec fn goal_list(n: int) -> Seq<(TileId, usize)> {
    Seq::new((n - 1) as nat, |i: int| ((i + 1) as TileId, i as usize))
}

/// `pos` places `size * size` table entries on distinct cells, one on every cell.
pub open spec fn is_layout(size: nat, pos: Seq<int>) -> bool {
    let n = (size * size) as int;
    &&& pos.len() == n
    &&& forall|k: int| 0 <= k < n ==> 0 <= #[trigger] pos[k] < n
    &&& forall|i: int, j: int| 0 <= i < n && 0 <= j < n && i != j ==> pos[i] != pos[j]
    &&& forall|c: int| 0 <= c < n ==> #[trigger] is_taken(pos, c)
}

/// Some entry of `pos` is `c`.
pub open spec fn is_taken(pos: Seq<int>, c: int) -> bool {
    exists|k: int| 0 <= k < pos.len() && #[trigger] pos[k] == c
}

impl GridView {
    pub open spec fn n(self) -> int {
        (self.size * self.size) as int
    }

    pub open spec fn blank(self) -> int {
        self.position_of[0]
    }

    pub open spec fn blank_x(self) -> int {
        self.blank() % (self.size as int)
    }

    pub open spec fn blank_z(self) -> int {
        self.blank() / (self.size as int)
    }

    pub open spec fn wf(self) -> bool {
        &&& 1 <= self.size <= MAX_SIZE
        &&& self.cells.len() == self.n()
        &&& self.position_of.len() == self.n()
        &&& self.orientation_of.len() == self.n()
        &&& forall|k: int| 0 <= k < self.n() ==> 0 <= #[trigger] self.position_of[k] < self.n()
        &&& forall|k: int|
            0 <= k < self.n() ==> self.cells[#[trigger] self.position_of[k]] == occupant_of(k)
        &&& forall|c: int|
            0 <= c < self.n() ==> 0 <= slot_of(#[trigger] self.cells[c]) < self.n()
                && self.position_of[slot_of(self.cells[c])] == c
        &&& forall|k: int| 1 <= k < self.n() ==> (#[trigger] self.orientation_of[k]).wf()
        &&& self.orientation_of[0] == identity_orientation()
    }

    /// The solved board: tile `k` at cell `k - 1`, each face up, the blank last.
    pub open spec fn solved(size: nat) -> GridView {
        GridView {
            size,
            cells: Seq::new(
                size * size,
                |c: int|
                    if c == size * size - 1 {
                        None
                    } else {
                        Some((c + 1) as TileId)
                    },
            ),
            position_of: Seq::new(
                size * size,
                |k: int|
                    if k == 0 {
                        size * size - 1
                    } else {
                        k - 1
                    },
            ),
            orientation_of: Seq::new(size * size, |k: int| identity_orientation()),
        }
    }

    /// Every tile at its goal cell with its home face up.
    pub open spec fn is_clear(self) -> bool {
        forall|k: int|
            1 <= k < self.n() ==> #[trigger] self.position_of[k] == k - 1
                && self.orientation_of[k].is_identity_spec()
    }

    /// The contents of cells `c0` and `c1` exchanged.
    pub open spec fn swapped(self, c0: int, c1: int) -> GridView {
        let k0 = slot_of(self.cells[c0]);
        let k1 = slot_of(self.cells[c1]);
        GridView {
            cells: self.cells.update(c0, self.cells[c1]).update(c1, self.cells[c0]),
            position_of: self.position_of.update(k0, c1).update(k1, c0),
            ..self
        }
    }

    pub open spec fn target_x(self, dx: int) -> int {
        self.blank_x() + dx
    }

    pub open spec fn target_z(self, dz: int) -> int {
        self.blank_z() + dz
    }

    /// The cell beside the blank at offset `(dx, dz)` is on the board.
    pub open spec fn can_move(self, dx: int, dz: int) -> bool {
        0 <= self.target_x(dx) < self.size && 0 <= self.target_z(dz) < self.size
    }

    pub open spec fn target(self, dx: int, dz: int) -> int {
        self.target_z(dz) * self.size + self.target_x(dx)
    }

    /// The tile that a slide by `(dx, dz)` moves.
    pub open spec fn mover(self, dx: int, dz: int) -> int {
        slot_of(self.cells[self.target(dx, dz)])
    }

    /// The board after the tile beside the blank at `(dx, dz)` slides into it,
    /// rolling as it goes.
    pub open spec fn moved(self, dx: int, dz: int) -> GridView {
        let k = self.mover(dx, dz);
        let s = self.swapped(self.blank(), self.target(dx, dz));
        GridView {
            orientation_of: s.orientation_of.update(k, s.orientation_of[k].rolled_spec(dx, dz)),
            ..s
        }
    }
}

pub proof fn lemma_size_bounds(size: int)
    requires
        1 <= size <= MAX_SIZE,
    ensures
        1 <= size * size <= MAX_SIZE * MAX_SIZE,
{
    assert(1 <= size * size <= 15 * 15) by (nonlinear_arith)
        requires
            1 <= size <= 15,
    ;
}

pub proof fn lemma_cell_coords(size: int, x: int, z: int)
    requires
        size >= 1,
        0 <= x < size,
        0 <= z < size,
    ensures
        0 <= z * size + x < size * size,
        (z * size + x) % size == x,
        (z * size + x) / size == z,
{
    assert(0 <= z * size + x < size * size) by (nonlinear_arith)
        requires
            0 <= x < size,
            0 <= z < size,
    ;
    lemma_fundamental_div_mod_converse(z * size + x, size, z, x);
}

pub proof fn lemma_coords_of_cell(size: int, c: int)
    requires
        size >= 1,
        0 <= c < size * size,
    ensures
        0 <= c % size < size,
        0 <= c / size < size,
        c == (c / size) * size + c % size,
{
    lemma_fundamental_div_mod(c, size);
    assert((c / size) * size == size * (c / size)) by (nonlinear_arith);
    assert(0 <= c / size < size) by (nonlinear_arith)
        requires
            size >= 1,
            0 <= c < size * size,
            c == size * (c / size) + c % size,
            0 <= c % size < size,
    ;
}

/// Exchanging two cells keeps the two tables inverse to each other.
pub proof fn lemma_swap_wf(g: GridView, c0: int, c1: int)
    requires
        g.wf(),
        0 <= c0 < g.n(),
        0 <= c1 < g.n(),
    ensures
        g.swapped(c0, c1).wf(),
{
    let s = g.swapped(c0, c1);
    lemma_size_bounds(g.size as int);
    let k0 = slot_of(g.cells[c0]);
    let k1 = slot_of(g.cells[c1]);
    assert(g.position_of[k0] == c0);
    assert(g.position_of[k1] == c1);
    assert forall|k: int| 0 <= k < s.n() implies s.cells[#[trigger] s.position_of[k]]
        == occupant_of(k) by {
        assert(g.cells[g.position_of[k]] == occupant_of(k));
        assert(slot_of(occupant_of(k)) == k);
        if k != k0 && k != k1 {
            assert(g.position_of[k] != c0 && g.position_of[k] != c1);
        }
    }
    assert forall|c: int| 0 <= c < s.n() implies 0 <= slot_of(#[trigger] s.cells[c]) < s.n()
        && s.position_of[slot_of(s.cells[c])] == c by {
        assert(0 <= slot_of(g.cells[c]) < g.n());
        if c != c0 && c != c1 {
            assert(slot_of(g.cells[c]) != k0 && slot_of(g.cells[c]) != k1);
        }
    }
}

/// A slide keeps the board well formed.
pub proof fn lemma_move_wf(g: GridView, dx: int, dz: int)
    requires
        g.wf(),
        is_unit_delta(dx, dz),
        g.can_move(dx, dz),
    ensures
        g.moved(dx, dz).wf(),
        g.moved(dx, dz).size == g.size,
        g.moved(dx, dz).blank() == g.target(dx, dz),
        g.moved(dx, dz).blank_x() == g.target_x(dx),
        g.moved(dx, dz).blank_z() == g.target_z(dz),
        1 <= g.mover(dx, dz) < g.n(),
{
    let b = g.blank();
    let t = g.target(dx, dz);
    lemma_size_bounds(g.size as int);
    assert(0 <= g.position_of[0] < g.n());
    lemma_coords_of_cell(g.size as int, b);
    lemma_cell_coords(g.size as int, g.target_x(dx), g.target_z(dz));
    lemma_swap_wf(g, b, t);
    assert(g.cells[b] == occupant_of(0));
    if t == b {
        assert(t % (g.size as int) == b % (g.size as int));
    }
    let k = g.mover(dx, dz);
    assert(g.position_of[k] == t);
    assert(k != 0);
    crate::orientation::lemma_roll_wf(g.orientation_of[k], dx, dz);
}

/// Sliding by `(dx, dz)` and then by `(-dx, -dz)` gives back the board: every
/// tile in its cell again, and (as the second roll undoes the first) turned as
/// before.
pub proof fn lemma_move_back(g: GridView, dx: int, dz: int)
    requires
        g.wf(),
        is_unit_delta(dx, dz),
        g.can_move(dx, dz),
    ensures
        g.moved(dx, dz).can_move(-dx, -dz),
        g.moved(dx, dz).moved(-dx, -dz).cells == g.cells,
        g.moved(dx, dz).moved(-dx, -dz).position_of == g.position_of,
        g.moved(dx, dz).moved(-dx, -dz) == g,
{
    let size = g.size as int;
    let b = g.blank();
    let t = g.target(dx, dz);
    let k = g.mover(dx, dz);
    let g1 = g.moved(dx, dz);
    lemma_size_bounds(size);
    assert(0 <= g.position_of[0] < g.n());
    lemma_move_wf(g, dx, dz);
    lemma_coords_of_cell(size, b);
    lemma_cell_coords(size, g.target_x(dx), g.target_z(dz));
    assert(g1.blank() == t);
    assert(g1.blank_x() == g.target_x(dx));
    assert(g1.blank_z() == g.target_z(dz));
    assert(g1.target_x(-dx) == b % size);
    assert(g1.target_z(-dz) == b / size);
    assert(g1.target(-dx, -dz) == b);
    assert(g1.cells[b] == occupant_of(k));
    assert(g1.mover(-dx, -dz) == k);
    let g2 = g1.moved(-dx, -dz);
    crate::orientation::lemma_roll_back(g.orientation_of[k], dx, dz);
    assert(g.position_of[k] == t);
    assert(g2.cells =~= g.cells);
    assert(g2.position_of =~= g.position_of);
    assert(g2.orientation_of =~= g.orientation_of);
}

impl View for Grid {
    type V = GridView;

    closed spec fn view(&self) -> GridView {
        GridView {
            size: self.size as nat,
            cells: self.cells@,
            position_of: self.position_of@.map_values(|p: usize| p as int),
            orientation_of: self.orientation_of@,
        }
    }
}

impl Grid {
    /// The solved board of side `size`.
    pub fn new(size: usize) -> (g: Grid)
        requires
            1 <= size <= MAX_SIZE,
        ensures
            g@ == GridView::solved(size as nat),
            g@.wf(),
    {
        proof {
            lemma_size_bounds(size as int);
        }
        let n = size * size;
        let mut cells: Vec<Option<TileId>> = Vec::new();
        let mut position_of: Vec<usize> = Vec::new();
        let mut orientation_of: Vec<Orientation> = Vec::new();
        let mut i: usize = 0;
        while i < n
            invariant
                n == size * size,
                1 <= size <= MAX_SIZE,
                i <= n,
                cells@.len() == i,
                position_of@.len() == i,
                orientation_of@.len() == i,
                forall|c: int| 0 <= c < i ==> cells@[c] == GridView::solved(size as nat).cells[c],
                forall|k: int|
                    0 <= k < i ==> position_of@[k] as int == GridView::solved(
                        size as nat,
                    ).position_of[k],
                forall|k: int| 0 <= k < i ==> orientation_of@[k] == identity_orientation(),
            decreases n - i,
        {
            if i + 1 == n {
                cells.push(None);
            } else {
                cells.push(Some((i + 1) as TileId));
            }
            if i == 0 {
                position_of.push(n - 1);
            } else {
                position_of.push(i - 1);
            }
            orientation_of.push(Orientation::identity());
            i = i + 1;
        }
        let g = Grid { size, cells, position_of, orientation_of };
        proof {
            lemma_solved_wf(size as nat);
            assert(g@.cells =~= GridView::solved(size as nat).cells);
            assert(g@.position_of =~= GridView::solved(size as nat).position_of);
            assert(g@.orientation_of =~= GridView::solved(size as nat).orientation_of);
        }
        g
    }

    pub fn size(&self) -> (r: usize)
        ensures
            r == self@.size,
    {
        self.size
    }

    /// The blank's cell, as `(x, z)`.
    pub fn blank(&self) -> (r: (usize, usize))
        requires
            self@.wf(),
        ensures
            r.0 == self@.blank_x(),
            r.1 == self@.blank_z(),
            r.0 < self@.size,
            r.1 < self@.size,
    {
        proof {
            lemma_size_bounds(self.size as int);
            assert(0 <= self@.position_of[0] < self@.n());
        }
        let b = self.position_of[0];
        proof {
            lemma_coords_of_cell(self.size as int, b as int);
        }
        (b % self.size, b / self.size)
    }

    /// The cell of tile `k`, or of the blank for `k == 0`.
    pub fn position(&self, k: usize) -> (r: usize)
        requires
            self@.wf(),
            k < self@.n(),
        ensures
            r as int == self@.position_of[k as int],
            r < self@.n(),
    {
        self.position_of[k]
    }

    /// The orientation of tile `k`.
    pub fn orientation(&self, k: usize) -> (r: Orientation)
        requires
            self@.wf(),
            k < self@.n(),
        ensures
            r == self@.orientation_of[k as int],
    {
        self.orientation_of[k]
    }

    /// The occupant of cell `c`, by cell number from 0.
    pub(crate) fn occupant(&self, c: usize) -> (r: Option<TileId>)
        requires
            self@.wf(),
            c < self@.n(),
        ensures
            r == self@.cells[c as int],
    {
        self.cells[c]
    }

    /// The occupant of cell `(x, z)`.
    pub fn tile_at(&self, x: usize, z: usize) -> (r: Option<TileId>)
        requires
            self@.wf(),
            x < self@.size,
            z < self@.size,
        ensures
            r == self@.cells[z * self@.size + x],
    {
        proof {
            lemma_size_bounds(self.size as int);
            lemma_cell_coords(self.size as int, x as int, z as int);
        }
        self.cells[z * self.size + x]
    }

    /// The board whose tiles stand where `position_of` says, turned as
    /// `orientation_of` says.
    pub fn from_tables(size: usize, position_of: Vec<usize>, orientation_of: Vec<Orientation>) -> (g: Grid)
        requires
            1 <= size <= MAX_SIZE,
            is_layout(size as nat, position_of@.map_values(|p: usize| p as int)),
            orientation_of@.len() == size * size,
            orientation_of@[0] == identity_orientation(),
            forall|k: int| 1 <= k < size * size ==> (#[trigger] orientation_of@[k]).wf(),
        ensures
            g@.wf(),
            g@.size == size,
            g@.position_of == position_of@.map_values(|p: usize| p as int),
            g@.orientation_of == orientation_of@,
    {
        proof {
            lemma_size_bounds(size as int);
        }
        let n = size * size;
        let ghost pos = position_of@.map_values(|p: usize| p as int);
        let mut cells: Vec<Option<TileId>> = Vec::new();
        let mut c: usize = 0;
        while c < n
            invariant
                c <= n,
                cells@.len() == c,
                forall|i: int| 0 <= i < c ==> cells@[i] == None::<TileId>,
            decreases n - c,
        {
            cells.push(None);
            c = c + 1;
        }
        let mut k: usize = 1;
        while k < n
            invariant
                n == size * size,
                1 <= n <= MAX_SIZE * MAX_SIZE,
                1 <= k <= n,
                is_layout(size as nat, pos),
                pos == position_of@.map_values(|p: usize| p as int),
                cells@.len() == n,
                forall|j: int| 1 <= j < k ==> cells@[#[trigger] pos[j]] == occupant_of(j),
                forall|i: int|
                    0 <= i < n && cells@[i] is Some ==> 1 <= slot_of(#[trigger] cells@[i]) < k
                        && pos[slot_of(cells@[i])] == i,
            decreases n - k,
        {
            let p = position_of[k];
            proof {
                assert(pos[k as int] == p as int);
                assert forall|j: int| 1 <= j < k implies pos[j] != p by {}
            }
            cells.set(p, Some(k as TileId));
            k = k + 1;
        }
        let g = Grid { size, cells, position_of, orientation_of };
        proof {
            assert forall|kk: int| 0 <= kk < n implies g@.cells[#[trigger] g@.position_of[kk]]
                == occupant_of(kk) by {
                if kk != 0 {
                    assert(cells@[pos[kk]] == occupant_of(kk));
                } else {
                    if cells@[pos[0]] is Some {
                        let j = slot_of(cells@[pos[0]]);
                        assert(pos[j] == pos[0]);
                    }
                }
            }
            assert forall|i: int| 0 <= i < n implies 0 <= slot_of(#[trigger] g@.cells[i]) < n
                && g@.position_of[slot_of(g@.cells[i])] == i by {
                if cells@[i] is None {
                    assert(is_taken(pos, i));
                    let kk = choose|kk: int| 0 <= kk < pos.len() && #[trigger] pos[kk] == i;
                    if kk != 0 {
                        assert(cells@[pos[kk]] == occupant_of(kk));
                    }
                }
            }
        }
        g
    }

    /// Exchanges the contents of cells `(x0, z0)` and `(x1, z1)`.
    pub fn swap(&mut self, x0: usize, z0: usize, x1: usize, z1: usize)
        requires
            old(self)@.wf(),
            x0 < old(self)@.size,
            z0 < old(self)@.size,
            x1 < old(self)@.size,
            z1 < old(self)@.size,
        ensures
            final(self)@ == old(self)@.swapped(
                z0 * old(self)@.size + x0,
                z1 * old(self)@.size + x1,
            ),
            final(self)@.wf(),
    {
        proof {
            lemma_size_bounds(self.size as int);
            lemma_cell_coords(self.size as int, x0 as int, z0 as int);
            lemma_cell_coords(self.size as int, x1 as int, z1 as int);
        }
        let c0 = z0 * self.size + x0;
        let c1 = z1 * self.size + x1;
        self.swap_cells(c0, c1);
    }

    /// Exchanges the contents of cells `c0` and `c1`, by cell number from 0.
    pub(crate) fn swap_cells(&mut self, c0: usize, c1: usize)
        requires
            old(self)@.wf(),
            c0 < old(self)@.n(),
            c1 < old(self)@.n(),
        ensures
            final(self)@ == old(self)@.swapped(c0 as int, c1 as int),
            final(self)@.wf(),
    {
        let ghost g = self@;
        let a = self.cells[c0];
        let b = self.cells[c1];
        proof {
            assert(0 <= slot_of(g.cells[c0 as int]) < g.n());
            assert(0 <= slot_of(g.cells[c1 as int]) < g.n());
        }
        let k0: usize = match a {
            Some(k) => k as usize,
            None => 0,
        };
        let k1: usize = match b {
            Some(k) => k as usize,
            None => 0,
        };
        self.cells.set(c0, b);
        self.cells.set(c1, a);
        self.position_of.set(k0, c1);
        self.position_of.set(k1, c0);
        proof {
            lemma_swap_wf(g, c0 as int, c1 as int);
            assert(self@.cells =~= g.swapped(c0 as int, c1 as int).cells);
            assert(self@.position_of =~= g.swapped(c0 as int, c1 as int).position_of);
        }
    }

    /// Slides the tile beside the blank at offset `(dx, dz)` into the blank, rolling
    /// it a quarter turn, and returns its id. Off the board the grid is unchanged.
    pub fn apply_move(&mut self, dx: i32, dz: i32) -> (r: Result<TileId, MoveRejected>)
        requires
            old(self)@.wf(),
            is_unit_delta(dx as int, dz as int),
        ensures
            final(self)@.wf(),
            old(self)@.can_move(dx as int, dz as int) ==> r == Ok::<TileId, MoveRejected>(
                old(self)@.mover(dx as int, dz as int) as TileId,
            ) && final(self)@ == old(self)@.moved(dx as int, dz as int),
            !old(self)@.can_move(dx as int, dz as int) ==> r == Err::<TileId, MoveRejected>(
                MoveRejected::OutOfBounds,
            ) && final(self)@ == old(self)@,
    {
        let (bx, bz) = self.blank();
        let tx = bx as i32 + dx;
        let tz = bz as i32 + dz;
        if tx < 0 || tx >= self.size as i32 || tz < 0 || tz >= self.size as i32 {
            return Err(MoveRejected::OutOfBounds);
        }
        let ghost g = self@;
        proof {
            lemma_move_wf(g, dx as int, dz as int);
            lemma_coords_of_cell(self.size as int, g.blank());
            lemma_cell_coords(self.size as int, tx as int, tz as int);
        }
        let b = self.position_of[0];
        let t = tz as usize * self.size + tx as usize;
        let k = match self.cells[t] {
            Some(k) => k,
            None => 0,
        };
        self.swap_cells(b, t);
        let o = self.orientation_of[k as usize].rolled(dx, dz);
        self.orientation_of.set(k as usize, o);
        proof {
            assert(self@.orientation_of =~= g.moved(dx as int, dz as int).orientation_of);
        }
        Ok(k)
    }

    /// Puts every tile back at its goal cell, face up, and the blank in the last
    /// cell. Each cell in turn takes its own tile by following the cycle of the
    /// permutation through it: the occupant is exchanged with whatever stands on
    /// the occupant's goal, until the cell holds its own tile.
    /// The result lists each tile with its goal cell, by cell number from 0.
    pub fn reset(&mut self) -> (r: Vec<(TileId, usize)>)
        requires
            old(self)@.wf(),
        ensures
            final(self)@ == GridView::solved(old(self)@.size),
            final(self)@.wf(),
            r@ == goal_list(old(self)@.n()),
    {
        let ghost size0 = self@.size;
        proof {
            lemma_size_bounds(self.size as int);
        }
        let n = self.size * self.size;
        let mut c: usize = 0;
        while c < n
            invariant
                self@.wf(),
                self@.size == size0,
                n == self@.n(),
                c <= n,
                forall|j: int| 0 <= j < c ==> #[trigger] self@.cells[j] == GridView::solved(size0).cells[j],
            decreases n - c,
        {
            let mut done = false;
            while !done
                invariant
                    self@.wf(),
                    self@.size == size0,
                    n == self@.n(),
                    c < n,
                    forall|j: int| 0 <= j < c ==> #[trigger] self@.cells[j] == GridView::solved(size0).cells[j],
                    done ==> self@.cells[c as int] == GridView::solved(size0).cells[c as int],
                decreases misplaced_from(self@, 0) + (if done { 0int } else { 1int }),
            {
                let k: usize = match self.cells[c] {
                    Some(k) => k as usize,
                    None => 0,
                };
                proof {
                    assert(0 <= slot_of(self@.cells[c as int]) < n);
                }
                let goal = if k == 0 { n - 1 } else { k - 1 };
                if goal == c {
                    done = true;
                } else {
                    proof {
                        lemma_reset_step(self@, c as int, goal as int);
                    }
                    self.swap_cells(c, goal);
                }
            }
            c = c + 1;
        }
        let mut k: usize = 1;
        while k < n
            invariant
                self@.wf(),
                self@.size == size0,
                n == self@.n(),
                1 <= k <= n,
                forall|j: int| 0 <= j < n ==> #[trigger] self@.cells[j] == GridView::solved(size0).cells[j],
                forall|j: int| 1 <= j < k ==> #[trigger] self@.orientation_of[j] == identity_orientation(),
            decreases n - k,
        {
            self.orientation_of.set(k, Orientation::identity());
            k = k + 1;
        }
        proof {
            let g = self@;
            let s = GridView::solved(size0);
            assert forall|j: int| 0 <= j < n implies #[trigger] g.position_of[j] == s.position_of[j] by {
                let cj = if j == 0 { n - 1 } else { j - 1 };
                assert(g.cells[cj] == s.cells[cj]);
                assert(g.position_of[slot_of(g.cells[cj])] == cj);
            }
            assert(g.cells =~= s.cells);
            assert(g.position_of =~= s.position_of);
            assert(g.orientation_of =~= s.orientation_of);
        }
        let mut goals: Vec<(TileId, usize)> = Vec::new();
        let mut k: usize = 1;
        while k < n
            invariant
                1 <= k <= n,
                n <= MAX_SIZE * MAX_SIZE,
                goals@ == goal_list(k as int),
            decreases n - k,
        {
            goals.push((k as TileId, k - 1));
            proof {
                assert(goals@ =~= goal_list(k + 1));
            }
            k = k + 1;
        }
        goals
    }

    /// Whether every tile stands at its goal cell with its home face up.
    pub fn is_solved(&self) -> (r: bool)
        requires
            self@.wf(),
        ensures
            r == self@.is_clear(),
    {
        proof {
            lemma_size_bounds(self.size as int);
        }
        let n = self.size * self.size;
        let mut k: usize = 1;
        while k < n
            invariant
                self@.wf(),
                n == self@.n(),
                1 <= k <= n,
                forall|j: int|
                    1 <= j < k ==> #[trigger] self@.position_of[j] == j - 1
                        && self@.orientation_of[j].is_identity_spec(),
            decreases n - k,
        {
            proof {
                assert(self@.position_of[k as int] == self.position_of@[k as int] as int);
            }
            if self.position_of[k] != k - 1 || !self.orientation_of[k].is_identity() {
                proof {
                    assert(!(self@.position_of[k as int] == k - 1
                        && self@.orientation_of[k as int].is_identity_spec()));
                }
                return false;
            }
            k = k + 1;
        }
        proof {
            assert(k == n);
            assert forall|j: int| 1 <= j < self@.n() implies #[trigger] self@.position_of[j] == j
                - 1 && self@.orientation_of[j].is_identity_spec() by {
                assert(j < k);
                assert(self@.position_of[j] == j - 1);
                assert(self@.orientation_of[j].is_identity_spec());
            }
        }
        true
    }
}

/// The solved board is well formed.
pub proof fn lemma_solved_wf(size: nat)
    requires
        1 <= size <= MAX_SIZE,
    ensures
        GridView::solved(size).wf(),
        GridView::solved(size).is_clear(),
{
    let g = GridView::solved(size);
    assert(size * size <= MAX_SIZE * MAX_SIZE) by (nonlinear_arith)
        requires
            1 <= size <= MAX_SIZE,
    ;
    assert(size * size >= 1) by (nonlinear_arith)
        requires
            1 <= size,
    ;
    assert forall|k: int| 0 <= k < g.n() implies g.cells[#[trigger] g.position_of[k]]
        == occupant_of(k) by {
    }
    assert forall|c: int| 0 <= c < g.n() implies 0 <= slot_of(#[trigger] g.cells[c]) < g.n()
        && g.position_of[slot_of(g.cells[c])] == c by {
    }
}

/// The cell table of a well-formed board is a layout.
pub proof fn lemma_wf_layout(g: GridView)
    requires
        g.wf(),
    ensures
        is_layout(g.size, g.position_of),
{
    lemma_size_bounds(g.size as int);
    assert forall|i: int, j: int| 0 <= i < g.n() && 0 <= j < g.n() && i != j implies g.position_of[i]
        != g.position_of[j] by {
        assert(g.cells[g.position_of[i]] == occupant_of(i));
        assert(g.cells[g.position_of[j]] == occupant_of(j));
        assert(slot_of(occupant_of(i)) == i);
        assert(slot_of(occupant_of(j)) == j);
    }
    assert forall|c: int| 0 <= c < g.n() implies #[trigger] is_taken(g.position_of, c) by {
        let k = slot_of(g.cells[c]);
        assert(g.position_of[k] == c);
    }
}

/// A well-formed board is fixed by its size and the two tables indexed by tile:
/// the cell table follows from them.
pub proof fn lemma_view_determined(g1: GridView, g2: GridView)
    requires
        g1.wf(),
        g2.wf(),
        g1.size == g2.size,
        g1.position_of == g2.position_of,
        g1.orientation_of == g2.orientation_of,
    ensures
        g1 == g2,
{
    assert forall|c: int| 0 <= c < g1.n() implies g1.cells[c] == g2.cells[c] by {
        let k = slot_of(g1.cells[c]);
        assert(g1.position_of[k] == c);
        assert(g1.cells[g1.position_of[k]] == occupant_of(k));
        assert(g2.cells[g2.position_of[k]] == occupant_of(k));
    }
    assert(g1.cells =~= g2.cells);
}

/// What the solved board holds in cell `c`: tile `c + 1`, or the blank in the last cell.
pub open spec fn goal_slot(g: GridView, c: int) -> int {
    if c == g.n() - 1 {
        0
    } else {
        c + 1
    }
}

/// The number of cells from `c` on that do not hold what the solved board holds there.
pub open spec fn misplaced_from(g: GridView, c: int) -> nat
    decreases g.n() - c,
{
    if 0 <= c < g.n() {
        (if slot_of(g.cells[c]) != goal_slot(g, c) {
            1nat
        } else {
            0nat
        }) + misplaced_from(g, c + 1)
    } else {
        0
    }
}

proof fn lemma_misplaced_fewer(g: GridView, h: GridView, d: int, i: int)
    requires
        g.n() == h.n(),
        0 <= i,
        0 <= d < g.n(),
        forall|e: int|
            0 <= e < g.n() && slot_of(g.cells[e]) == goal_slot(g, e) ==> slot_of(h.cells[e])
                == goal_slot(h, e),
        slot_of(g.cells[d]) != goal_slot(g, d),
        slot_of(h.cells[d]) == goal_slot(h, d),
    ensures
        misplaced_from(h, i) <= misplaced_from(g, i),
        i <= d ==> misplaced_from(h, i) < misplaced_from(g, i),
    decreases g.n() - i,
{
    if i < g.n() {
        lemma_misplaced_fewer(g, h, d, i + 1);
    }
}

/// One exchange of the reset: cell `c` holds a tile whose goal is `goal != c`,
/// all cells before `c` are settled; the exchange settles `goal` and unsettles
/// nothing.
proof fn lemma_reset_step(g: GridView, c: int, goal: int)
    requires
        g.wf(),
        0 <= c < g.n(),
        goal == (if slot_of(g.cells[c]) == 0 { g.n() - 1 } else { slot_of(g.cells[c]) - 1 }),
        goal != c,
        forall|j: int| 0 <= j < c ==> #[trigger] g.cells[j] == GridView::solved(g.size).cells[j],
    ensures
        c < goal < g.n(),
        misplaced_from(g.swapped(c, goal), 0) < misplaced_from(g, 0),
        forall|j: int| 0 <= j < c ==> #[trigger] g.swapped(c, goal).cells[j] == GridView::solved(
            g.size,
        ).cells[j],
{
    let k = slot_of(g.cells[c]);
    let h = g.swapped(c, goal);
    lemma_size_bounds(g.size as int);
    assert(0 <= k < g.n());
    assert(g.position_of[k] == c);
    if goal < c {
        assert(g.cells[goal] == GridView::solved(g.size).cells[goal]);
        assert(slot_of(g.cells[goal]) == k);
        assert(g.position_of[slot_of(g.cells[goal])] == goal);
    }
    assert(goal_slot(g, goal) == k);
    assert(g.position_of[slot_of(g.cells[goal])] == goal);
    assert(slot_of(g.cells[goal]) != k);
    assert(slot_of(g.cells[c]) != goal_slot(g, c));
    assert forall|e: int|
        0 <= e < g.n() && slot_of(g.cells[e]) == goal_slot(g, e) implies slot_of(h.cells[e])
            == goal_slot(h, e) by {
    }
    lemma_misplaced_fewer(g, h, goal, 0);
}

} // verus!
