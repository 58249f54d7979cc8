use rand::rngs::StdRng;
use vstd::prelude::*;

use crate::random::draw_below;

verus! {

pub type GridValueT = usize;

/// The abstract occupancy map: `cells[x + y * width]` is the agent on `(x, y)`.
pub struct GridView {
    pub width: nat,
    pub height: nat,
    pub cells: Seq<Option<usize>>,
}

impl GridView {
    pub open spec fn wf(self) -> bool {
        self.cells.len() == self.width * self.height
    }

    pub open spec fn in_bounds(self, x: int, y: int) -> bool {
        0 <= x < self.width && 0 <= y < self.height
    }

    pub open spec fn cell_of(self, x: int, y: int) -> int {
        x + y * self.width
    }

    pub open spec fn occupant(self, x: int, y: int) -> Option<usize> {
        self.cells[self.cell_of(x, y)]
    }

    pub open spec fn set(self, x: int, y: int, v: Option<usize>) -> GridView {
        GridView { cells: self.cells.update(self.cell_of(x, y), v), ..self }
    }

    pub open spec fn is_empty(self) -> bool {
        forall|c: int| 0 <= c < self.cells.len() ==> self.cells[c] is None
    }

    pub open spec fn has_free_cell(self) -> bool {
        exists|c: int| 0 <= c < self.cells.len() && self.cells[c] is None
    }
}

/// A cell inside the grid has an index inside the cell sequence, and distinct
/// cells have distinct indices.
pub proof fn lemma_cell_index(g: GridView, x1: int, y1: int, x2: int, y2: int)
    requires
        g.wf(),
        g.in_bounds(x1, y1),
        g.in_bounds(x2, y2),
    ensures
        0 <= g.cell_of(x1, y1) < g.cells.len(),
        0 <= y1 * g.width <= g.cell_of(x1, y1),
        g.cell_of(x1, y1) == g.cell_of(x2, y2) ==> x1 == x2 && y1 == y2,
{
    let w = g.width as int;
    let h = g.height as int;
    assert(0 <= x1 + y1 * w < w * h) by (nonlinear_arith)
        requires 0 <= x1 < w, 0 <= y1 < h;
    assert(0 <= y1 * w) by (nonlinear_arith)
        requires 0 <= y1, 0 <= w;
    if x1 + y1 * w == x2 + y2 * w {
        assert(x1 == x2 && y1 == y2) by (nonlinear_arith)
            requires 0 <= x1 < w, 0 <= x2 < w, 0 <= y1, 0 <= y2, x1 + y1 * w == x2 + y2 * w;
    }
}

/// Every index of the cell sequence is the index of a cell inside the grid.
pub proof fn lemma_cell_of_index(g: GridView, c: int)
    requires
        g.wf(),
        0 <= c < g.cells.len(),
    ensures
        g.in_bounds(c % g.width as int, c / g.width as int),
        g.cell_of(c % g.width as int, c / g.width as int) == c,
{
    let w = g.width as int;
    let h = g.height as int;
    assert(w > 0) by (nonlinear_arith)
        requires 0 <= c < w * h, w >= 0, h >= 0;
    assert(c / w < h) by (nonlinear_arith)
        requires 0 <= c < w * h, w > 0;
    assert(c == c % w + (c / w) * w) by (nonlinear_arith)
        requires w > 0;
    assert(0 <= c % w < w) by (nonlinear_arith)
        requires w > 0;
    assert(0 <= c / w) by (nonlinear_arith)
        requires w > 0, c >= 0;
}

/// A grid whose occupied cells hold distinct agents, all below `count`, has a
/// free cell when it has more than `count` cells.
pub proof fn lemma_free_cell_exists(g: GridView, count: nat)
    requires
        count < g.cells.len(),
        forall|c: int| 0 <= c < g.cells.len() && (#[trigger] g.cells[c]) is Some ==> g.cells[c]->0 < count,
        forall|c1: int, c2: int|
            0 <= c1 < g.cells.len() && 0 <= c2 < g.cells.len() && (#[trigger] g.cells[c1]) is Some
                && #[trigger] g.cells[c2] == g.cells[c1] ==> c1 == c2,
    ensures
        g.has_free_cell(),
{
    if !g.has_free_cell() {
        let n = g.cells.len() as int;
        let cells = vstd::set_lib::set_int_range(0, n);
        let f = |c: int| g.cells[c]->0 as int;
        let agents = cells.map(f);
        vstd::set_lib::lemma_int_range(0, n);
        vstd::set_lib::lemma_int_range(0, count as int);
        assert forall|c: int| #[trigger] cells.contains(c) implies g.cells[c] is Some by {}
        assert(vstd::relations::injective_on(f, cells)) by {
            assert forall|c1: int, c2: int|
                cells.contains(c1) && cells.contains(c2) && #[trigger] f(c1) == #[trigger] f(c2) implies c1 == c2 by {
                assert(g.cells[c1] is Some && g.cells[c2] is Some);
                assert(g.cells[c2] == g.cells[c1]);
            }
        }
        vstd::set_lib::lemma_map_size(cells, agents, f);
        assert(agents.subset_of(vstd::set_lib::set_int_range(0, count as int))) by {
            assert forall|a: int| #[trigger] agents.contains(a) implies 0 <= a < count by {
                let c = choose|c: int| cells.contains(c) && f(c) == a;
                assert(g.cells[c] is Some);
            }
        }
        vstd::set_lib::lemma_len_subset(agents, vstd::set_lib::set_int_range(0, count as int));
    }
}

/// Flat occupancy map from a cell to the index of the agent on it.
pub struct Grid {
    width: GridValueT,
    height: GridValueT,
    grid: Vec<Option<usize>>,
}

impl View for Grid {
    type V = GridView;

    closed spec fn view(&self) -> GridView {
        GridView { width: self.width as nat, height: self.height as nat, cells: self.grid@ }
    }
}

impl Grid {
    /// An empty grid of `width` by `height` cells.
    pub fn new(width: GridValueT, height: GridValueT) -> (r: Grid)
        requires
            width * height <= usize::MAX,
        ensures
            r@.wf(),
            r@.width == width,
            r@.height == height,
            r@.is_empty(),
    {
        let n = width * height;
        let grid: Vec<Option<usize>> = vec![None; n];
        Grid { width, height, grid }
    }

    pub fn get_occupant(&self, x: GridValueT, y: GridValueT) -> (r: Option<usize>)
        requires
            self@.wf(),
            self@.in_bounds(x as int, y as int),
        ensures
            r == self@.occupant(x as int, y as int),
    {
        let n = self.grid.len();
        proof {
            lemma_cell_index(self@, x as int, y as int, x as int, y as int);
        }
        self.grid[x + y * self.width]
    }

    pub fn set_occupant(&mut self, x: GridValueT, y: GridValueT, cell: Option<usize>)
        requires
            old(self)@.wf(),
            old(self)@.in_bounds(x as int, y as int),
        ensures
            final(self)@ == old(self)@.set(x as int, y as int, cell),
            final(self)@.wf(),
    {
        let n = self.grid.len();
        proof {
            lemma_cell_index(self@, x as int, y as int, x as int, y as int);
        }
        let i = x + y * self.width;
        self.grid.set(i, cell);
    }

    /// Clears every cell.
    pub fn reset(&mut self)
        requires
            old(self)@.wf(),
        ensures
            final(self)@.wf(),
            final(self)@.width == old(self)@.width,
            final(self)@.height == old(self)@.height,
            final(self)@.is_empty(),
    {
        let n = self.grid.len();
        let mut i: usize = 0;
        while i < n
            invariant
                i <= n,
                n == self.grid@.len(),
                self@.wf(),
                self@.width == old(self)@.width,
                self@.height == old(self)@.height,
                forall|c: int| 0 <= c < i ==> self.grid@[c] is None,
            decreases n - i,
        {
            self.grid.set(i, None);
            i = i + 1;
        }
    }

    pub fn get_dimensions(&self) -> (r: (GridValueT, GridValueT))
        ensures
            r.0 == self@.width,
            r.1 == self@.height,
    {
        (self.width, self.height)
    }

    pub fn is_empty(&self) -> (r: bool)
        ensures
            r == self@.is_empty(),
    {
        let n = self.grid.len();
        let mut i: usize = 0;
        while i < n
            invariant
                i <= n,
                n == self.grid@.len(),
                forall|c: int| 0 <= c < i ==> self.grid@[c] is None,
            decreases n - i,
        {
            if self.grid[i].is_some() {
                return false;
            }
            i = i + 1;
        }
        true
    }

    /// A free cell picked at random: uniform draws of a cell until a free one comes
    /// up, for at most as many draws as the grid has cells, then the first free cell.
    pub fn find_random_unoccupied(&self, rng: &mut StdRng) -> (r: (GridValueT, GridValueT))
        requires
            self@.wf(),
            self@.has_free_cell(),
        ensures
            self@.in_bounds(r.0 as int, r.1 as int),
            self@.occupant(r.0 as int, r.1 as int) is None,
    {
        let n = self.grid.len();
        let mut tries: usize = 0;
        proof {
            let c = choose|c: int| 0 <= c < self@.cells.len() && self@.cells[c] is None;
            lemma_cell_of_index(self@, c);
        }
        while tries < n
            invariant
                self@.wf(),
                n == self@.cells.len(),
                self.width > 0,
                self.height > 0,
            decreases n - tries,
        {
            let x = draw_below(rng, self.width);
            let y = draw_below(rng, self.height);
            if self.get_occupant(x, y).is_none() {
                return (x, y);
            }
            tries = tries + 1;
        }
        let mut c: usize = 0;
        while c < n
            invariant
                self@.wf(),
                n == self@.cells.len(),
                self@.has_free_cell(),
                self.width > 0,
                forall|d: int| 0 <= d < c ==> self@.cells[d] is Some,
            decreases n - c,
        {
            if self.grid[c].is_none() {
                proof {
                    lemma_cell_of_index(self@, c as int);
                }
                return (c % self.width, c / self.width);
            }
            c = c + 1;
        }
        proof {
            assert(false);
        }
        (0, 0)
    }
}

} // verus!
