use rand::rngs::StdRng;
use vstd::prelude::*;

use crate::arena::{lemma_genome_len, ArenaView, HeritableArena};
use crate::cell::{
    asexuallyReproduce, color_of, gen_random_other, is_record_offspring, lemma_offset_dir,
    offset_dir, sign, Direction, HeritableData, MiscData, MovementData, NeuronData,
};
use crate::config::Config;
use crate::gene::Gene;
use crate::grid::{lemma_cell_index, lemma_free_cell_exists, Grid, GridValueT, GridView};
use crate::neuron::{net_weights, NeuralNet};
use crate::random::draw_below;

verus! {

/// One entry of the move queue: an agent and the cell it asks for.
pub type MoveRequest = (usize, (GridValueT, GridValueT));

/// The abstract population: one entry per agent in each sequence, the
/// heritable arena, and the two queues.
pub struct PopulationView {
    pub size: nat,
    pub movement: Seq<MovementData>,
    pub neurons: Seq<NeuronData>,
    pub heritable: ArenaView,
    pub misc: Seq<MiscData>,
    pub death_queue: Seq<usize>,
    pub move_queue: Seq<MoveRequest>,
}

impl PopulationView {
    pub open spec fn alive(self, i: int) -> bool {
        self.misc[i].isAlive
    }

    /// Agent `i`'s network and colour are those of its genome.
    pub open spec fn agent_built(self, i: int) -> bool {
        &&& self.neurons[i].net().weights() == net_weights(self.heritable.genome(i))
        &&& self.misc[i].color == color_of(
            self.heritable.genome(i).first().gene,
            self.heritable.genome(i).last().gene,
        )
    }

    pub open spec fn wf(self) -> bool {
        &&& self.size <= usize::MAX
        &&& self.movement.len() == self.size
        &&& self.neurons.len() == self.size
        &&& self.misc.len() == self.size
        &&& self.move_queue.len() == self.size
        &&& self.heritable.wf()
        &&& self.heritable.len() == self.size
        &&& self.heritable.genome_length > 0
        &&& forall|i: int| 0 <= i < self.size ==> #[trigger] self.agent_built(i)
        &&& forall|k: int| 0 <= k < self.death_queue.len() ==> #[trigger] self.death_queue[k] < self.size
    }

    /// Sized for the configuration.
    pub open spec fn fits(self, config: Config) -> bool {
        self.size == config.pop_size() && self.heritable.genome_length == config.genome_length()
    }

    /// Every oscillator period is below the number of steps in a generation.
    pub open spec fn periods_below(self, steps_per_gen: nat) -> bool {
        forall|i: int| 0 <= i < self.size ==> (#[trigger] self.heritable.headers[i]).period() < steps_per_gen
    }

    /// Every living agent is in the grid, on a cell that names it; every occupied
    /// cell names a living agent that stands on it.
    pub open spec fn placed_on(self, g: GridView) -> bool {
        placed(self.size, self.movement, self.misc, g)
    }

    /// The indices of the living agents, ascending.
    pub open spec fn living(self) -> Seq<usize> {
        indices_where(alive_flags(self.misc), self.size)
    }

    /// The indices of the dead agents, ascending.
    pub open spec fn dead(self) -> Seq<usize> {
        indices_where(dead_flags(self.misc), self.size)
    }

    pub open spec fn all_alive(self) -> bool {
        forall|i: int| 0 <= i < self.size ==> #[trigger] self.alive(i)
    }
}

/// The indices below `n` whose flag is set, ascending.
pub open spec fn indices_where(flags: Seq<bool>, n: nat) -> Seq<usize>
    decreases n,
{
    if n == 0 {
        Seq::empty()
    } else {
        let s = indices_where(flags, (n - 1) as nat);
        if flags[n - 1] {
            s.push((n - 1) as usize)
        } else {
            s
        }
    }
}

pub open spec fn alive_flags(misc: Seq<MiscData>) -> Seq<bool> {
    misc.map_values(|m: MiscData| m.isAlive)
}

pub open spec fn dead_flags(misc: Seq<MiscData>) -> Seq<bool> {
    misc.map_values(|m: MiscData| !m.isAlive)
}

/// `indices_where` lists, in ascending order, exactly the indices below `n`
/// whose flag is set.
pub proof fn lemma_indices_where(flags: Seq<bool>, n: nat)
    requires
        n <= flags.len(),
        n <= usize::MAX + 1,
    ensures
        indices_where(flags, n).len() <= n,
        forall|k: int|
            0 <= k < indices_where(flags, n).len() ==> #[trigger] indices_where(flags, n)[k] < n
                && flags[indices_where(flags, n)[k] as int],
        forall|k1: int, k2: int|
            0 <= k1 < k2 < indices_where(flags, n).len() ==> #[trigger] indices_where(flags, n)[k1]
                < #[trigger] indices_where(flags, n)[k2],
        forall|i: int| 0 <= i < n && flags[i] ==> #[trigger] indices_where(flags, n).contains(i as usize),
    decreases n,
{
    if n > 0 {
        lemma_indices_where(flags, (n - 1) as nat);
        let s = indices_where(flags, (n - 1) as nat);
        let t = indices_where(flags, n);
        assert forall|i: int| 0 <= i < n && flags[i] implies #[trigger] t.contains(i as usize) by {
            if i < n - 1 {
                assert(s.contains(i as usize));
                let k = choose|k: int| 0 <= k < s.len() && s[k] == i as usize;
                assert(t[k] == i as usize);
            } else {
                assert(t[t.len() - 1] == i as usize);
            }
        }
    }
}

/// Every agent is either alive or dead: the two lists have `n` entries together.
proof fn lemma_flags_partition(f: Seq<bool>, g: Seq<bool>, n: nat)
    requires
        n <= f.len(),
        n <= g.len(),
        forall|i: int| 0 <= i < n ==> f[i] == !g[i],
    ensures
        indices_where(f, n).len() + indices_where(g, n).len() == n,
    decreases n,
{
    if n > 0 {
        lemma_flags_partition(f, g, (n - 1) as nat);
    }
}

/// At every moment the living and the dead agents make up the whole population.
pub proof fn lemma_alive_dead_partition(p: PopulationView)
    requires
        p.wf(),
    ensures
        p.living().len() + p.dead().len() == p.size,
{
    lemma_flags_partition(alive_flags(p.misc), dead_flags(p.misc), p.size);
}

/// The grid holds exactly the living agents of `movement` and `misc`: each on
/// the cell of its coordinates.
pub open spec fn placed(size: nat, movement: Seq<MovementData>, misc: Seq<MiscData>, g: GridView) -> bool {
    &&& forall|i: int|
        0 <= i < size && (#[trigger] misc[i]).isAlive ==> {
            &&& g.in_bounds(movement[i].x as int, movement[i].y as int)
            &&& g.occupant(movement[i].x as int, movement[i].y as int) == Some(i as usize)
        }
    &&& forall|c: int|
        0 <= c < g.cells.len() && (#[trigger] g.cells[c]) is Some ==> {
            let j = g.cells[c]->0 as int;
            &&& j < size
            &&& misc[j].isAlive
            &&& g.cell_of(movement[j].x as int, movement[j].y as int) == c
        }
}

/// When the grid holds exactly the living agents, no two living agents share a
/// cell, and every living agent is named by the cell of its coordinates.
pub proof fn lemma_living_cells_distinct(p: PopulationView, g: GridView, i: int, j: int)
    requires
        p.wf(),
        g.wf(),
        p.placed_on(g),
        0 <= i < p.size,
        0 <= j < p.size,
        p.alive(i),
        p.alive(j),
        i != j,
    ensures
        g.occupant(p.movement[i].x as int, p.movement[i].y as int) == Some(i as usize),
        (p.movement[i].x, p.movement[i].y) != (p.movement[j].x, p.movement[j].y),
{
    assert(p.misc[i].isAlive && p.misc[j].isAlive);
}

/// Where an agent on `(ox, oy)` ends up when it asks for `(tx, ty)`, its own cell
/// already vacated: the target if it is free, else the target's column on its
/// own row, else its own column on the target's row, else where it stood.
pub open spec fn resolve_target(g: GridView, ox: int, oy: int, tx: int, ty: int) -> (int, int) {
    if g.occupant(tx, ty) is None {
        (tx, ty)
    } else if g.occupant(tx, oy) is None {
        (tx, oy)
    } else if g.occupant(ox, ty) is None {
        (ox, ty)
    } else {
        (ox, oy)
    }
}

/// A request names an agent of the population and a cell of the grid.
pub open spec fn valid_request(req: MoveRequest, size: nat, g: GridView) -> bool {
    req.0 < size && g.in_bounds(req.1.0 as int, req.1.1 as int)
}

/// One request applied to the agents' positions and the grid: a dead agent does
/// not move; a living one leaves its cell, takes the cell that `resolve_target`
/// gives, and when that is another cell its heading becomes that of the step.
pub open spec fn apply_move(
    movement: Seq<MovementData>,
    misc: Seq<MiscData>,
    g: GridView,
    req: MoveRequest,
) -> (Seq<MovementData>, GridView) {
    let a = req.0 as int;
    if !misc[a].isAlive {
        (movement, g)
    } else {
        let m = movement[a];
        let g0 = g.set(m.x as int, m.y as int, None);
        let t = resolve_target(g0, m.x as int, m.y as int, req.1.0 as int, req.1.1 as int);
        let dir = if t == (m.x as int, m.y as int) {
            m.lastMoveDir
        } else {
            offset_dir(sign(t.0 - m.x), sign(t.1 - m.y))
        };
        (
            movement.update(a, MovementData { x: t.0 as usize, y: t.1 as usize, lastMoveDir: dir }),
            g0.set(t.0, t.1, Some(req.0)),
        )
    }
}

/// The first `k` requests of a queue applied in queue order, each seeing the grid
/// as the ones before it left it.
pub open spec fn apply_moves(
    movement: Seq<MovementData>,
    misc: Seq<MiscData>,
    g: GridView,
    queue: Seq<MoveRequest>,
    k: nat,
) -> (Seq<MovementData>, GridView)
    decreases k,
{
    if k == 0 {
        (movement, g)
    } else {
        let s = apply_moves(movement, misc, g, queue, (k - 1) as nat);
        apply_move(s.0, misc, s.1, queue[k - 1])
    }
}

/// Moving a living agent keeps the grid holding exactly the living agents.
pub proof fn lemma_move_keeps_placed(
    size: nat,
    movement: Seq<MovementData>,
    misc: Seq<MiscData>,
    g: GridView,
    req: MoveRequest,
)
    requires
        placed(size, movement, misc, g),
        g.wf(),
        movement.len() == size,
        misc.len() == size,
        size <= usize::MAX,
        valid_request(req, size, g),
    ensures
        ({
            let s = apply_move(movement, misc, g, req);
            &&& placed(size, s.0, misc, s.1)
            &&& s.1.wf()
            &&& s.1.width == g.width
            &&& s.1.height == g.height
            &&& s.0.len() == size
        }),
{
    let a = req.0 as int;
    if misc[a].isAlive {
        let m = movement[a];
        let ca = g.cell_of(m.x as int, m.y as int);
        lemma_cell_index(g, m.x as int, m.y as int, m.x as int, m.y as int);
        let g0 = g.set(m.x as int, m.y as int, None);
        let tx = req.1.0 as int;
        let ty = req.1.1 as int;
        lemma_cell_index(g0, tx, ty, tx, ty);
        lemma_cell_index(g0, tx, m.y as int, tx, m.y as int);
        lemma_cell_index(g0, m.x as int, ty, m.x as int, ty);
        let t = resolve_target(g0, m.x as int, m.y as int, tx, ty);
        assert(g0.in_bounds(t.0, t.1));
        assert(g0.occupant(t.0, t.1) is None);
        let ct = g0.cell_of(t.0, t.1);
        lemma_cell_index(g0, t.0, t.1, t.0, t.1);
        let s = apply_move(movement, misc, g, req);
        let mv2 = s.0;
        let g2 = s.1;
        assert(g2 == g0.set(t.0, t.1, Some(req.0)));
        assert(mv2[a].x as int == t.0 && mv2[a].y as int == t.1);
        assert forall|i: int| 0 <= i < size && (#[trigger] misc[i]).isAlive implies {
            &&& g2.in_bounds(mv2[i].x as int, mv2[i].y as int)
            &&& g2.occupant(mv2[i].x as int, mv2[i].y as int) == Some(i as usize)
        } by {
            if i != a {
                let mi = movement[i];
                lemma_cell_index(g, mi.x as int, mi.y as int, mi.x as int, mi.y as int);
                assert(g.cells[g.cell_of(mi.x as int, mi.y as int)] == Some(i as usize));
                assert(mv2[i] == mi);
            }
        }
        assert forall|c: int| 0 <= c < g2.cells.len() && (#[trigger] g2.cells[c]) is Some implies {
            let j = g2.cells[c]->0 as int;
            &&& j < size
            &&& misc[j].isAlive
            &&& g2.cell_of(mv2[j].x as int, mv2[j].y as int) == c
        } by {
            if c != ct {
                assert(g2.cells[c] == g0.cells[c]);
                assert(c != ca);
                assert(g.cells[c] == g0.cells[c]);
                let j = g.cells[c]->0 as int;
                assert(j != a);
                assert(mv2[j] == movement[j]);
            }
        }
    }
}

/// The population, the grid and the configuration agree: both are well formed
/// and sized for the configuration, every oscillator period is below the
/// number of steps in a generation, and the grid holds exactly the living agents.
pub open spec fn consistent(p: PopulationView, config: Config, g: GridView) -> bool {
    &&& config.wf()
    &&& p.wf()
    &&& p.fits(config)
    &&& p.periods_below(config.steps_per_gen())
    &&& g.wf()
    &&& g.width == config.grid_width()
    &&& g.height == config.grid_height()
    &&& p.placed_on(g)
}

/// Record `i` of `child` is an offspring of the record of one of `parents` in
/// `old`.
pub open spec fn descends_from(
    child: ArenaView,
    i: int,
    old: ArenaView,
    parents: Seq<usize>,
    rate: nat,
    steps_per_gen: nat,
) -> bool {
    exists|k: int|
        0 <= k < parents.len() && is_record_offspring(
            child.genome(i),
            child.headers[i],
            old.genome(#[trigger] parents[k] as int),
            old.headers[parents[k] as int],
            rate,
            steps_per_gen,
        )
}

/// The grid holds agents `0..n` of `movement`, each on the cell of its
/// coordinates, and nobody else.
pub open spec fn holds_all(movement: Seq<MovementData>, g: GridView, n: nat) -> bool {
    &&& forall|j: int|
        0 <= j < n ==> {
            &&& g.in_bounds((#[trigger] movement[j]).x as int, movement[j].y as int)
            &&& g.occupant(movement[j].x as int, movement[j].y as int) == Some(j as usize)
        }
    &&& forall|c: int|
        0 <= c < g.cells.len() && (#[trigger] g.cells[c]) is Some ==> {
            let j = g.cells[c]->0 as int;
            &&& 0 <= j < n
            &&& g.cell_of(movement[j].x as int, movement[j].y as int) == c
        }
}

/// Agent `j` is alive, built from its genome, with a period below
/// `steps_per_gen`, on a cell of the grid that names it.
pub open spec fn agent_ready(p: PopulationView, g: GridView, j: int, steps_per_gen: nat) -> bool {
    &&& p.agent_built(j)
    &&& p.alive(j)
    &&& p.heritable.headers[j].period() < steps_per_gen
    &&& g.in_bounds(p.movement[j].x as int, p.movement[j].y as int)
    &&& g.occupant(p.movement[j].x as int, p.movement[j].y as int) == Some(j as usize)
}

/// The first `n` agents are ready and the grid holds them and nobody else.
#[verifier::opaque]
pub open spec fn placed_prefix(p: PopulationView, g: GridView, n: nat, steps_per_gen: nat) -> bool {
    &&& forall|j: int| 0 <= j < n ==> #[trigger] agent_ready(p, g, j, steps_per_gen)
    &&& forall|c: int|
        0 <= c < g.cells.len() && (#[trigger] g.cells[c]) is Some ==> {
            let j = g.cells[c]->0 as int;
            &&& 0 <= j < n
            &&& g.cell_of(p.movement[j].x as int, p.movement[j].y as int) == c
        }
}

proof fn lemma_prefix_has_free_cell(p: PopulationView, g: GridView, n: nat, spg: nat)
    requires
        placed_prefix(p, g, n, spg),
        n < g.cells.len(),
    ensures
        g.has_free_cell(),
{
    reveal(placed_prefix);
    assert forall|c1: int, c2: int|
        0 <= c1 < g.cells.len() && 0 <= c2 < g.cells.len() && (#[trigger] g.cells[c1]) is Some
            && #[trigger] g.cells[c2] == g.cells[c1] implies c1 == c2 by {}
    lemma_free_cell_exists(g, n);
}

proof fn lemma_place_step(
    pre: PopulationView,
    mid: PopulationView,
    post: PopulationView,
    g0: GridView,
    g1: GridView,
    i: nat,
    spg: nat,
)
    requires
        placed_prefix(pre, g0, i, spg),
        g0.wf(),
        i < pre.size,
        i < usize::MAX,
        pre.heritable.wf(),
        pre.heritable.len() == pre.size,
        mid == (PopulationView { heritable: mid.heritable, ..pre }),
        mid.heritable.wf(),
        mid.heritable.same_shape(pre.heritable),
        mid.heritable.headers[i as int].period() < spg,
        forall|j: int|
            0 <= j < pre.size && j != i ==> mid.heritable.genome(j) == pre.heritable.genome(j)
                && mid.heritable.headers[j] == pre.heritable.headers[j],
        post == (PopulationView { movement: post.movement, neurons: post.neurons, misc: post.misc, ..mid }),
        post.movement.len() == pre.size,
        post.neurons.len() == pre.size,
        post.misc.len() == pre.size,
        forall|j: int|
            0 <= j < pre.size && j != i ==> post.movement[j] == mid.movement[j] && post.neurons[j]
                == mid.neurons[j] && post.misc[j] == mid.misc[j],
        post.agent_built(i as int),
        post.alive(i as int),
        g0.in_bounds(post.movement[i as int].x as int, post.movement[i as int].y as int),
        g0.occupant(post.movement[i as int].x as int, post.movement[i as int].y as int) is None,
        g1 == g0.set(
            post.movement[i as int].x as int,
            post.movement[i as int].y as int,
            Some(i as usize),
        ),
    ensures
        placed_prefix(post, g1, i + 1, spg),
{
    reveal(placed_prefix);
    let n = post.movement[i as int];
    lemma_cell_index(g0, n.x as int, n.y as int, n.x as int, n.y as int);
    assert forall|j: int| 0 <= j < i + 1 implies #[trigger] agent_ready(post, g1, j, spg) by {
        if j < i {
            assert(agent_ready(pre, g0, j, spg));
            let m = post.movement[j];
            lemma_cell_index(g0, m.x as int, m.y as int, m.x as int, m.y as int);
            assert(post.heritable.genome(j) == pre.heritable.genome(j));
        }
    }
    assert forall|c: int| 0 <= c < g1.cells.len() && (#[trigger] g1.cells[c]) is Some implies {
        let j = g1.cells[c]->0 as int;
        &&& 0 <= j < i + 1
        &&& g1.cell_of(post.movement[j].x as int, post.movement[j].y as int) == c
    } by {
        let cn = g0.cell_of(n.x as int, n.y as int);
        if c != cn {
            assert(g1.cells[c] == g0.cells[c]);
            assert(g0.cells[c] is Some);
            let j = g0.cells[c]->0 as int;
            assert(j < i);
            assert(post.movement[j] == pre.movement[j]);
            assert(g0.cell_of(pre.movement[j].x as int, pre.movement[j].y as int) == c);
            assert(g1.width == g0.width);
        } else {
            assert(g1.cells[c] == Some(i as usize));
            assert(g1.width == g0.width);
        }
    }
}

proof fn lemma_prefix_complete(p: PopulationView, g: GridView, spg: nat)
    requires
        placed_prefix(p, g, p.size, spg),
        p.movement.len() == p.size,
        p.misc.len() == p.size,
        p.heritable.len() == p.size,
    ensures
        p.placed_on(g),
        p.all_alive(),
        p.periods_below(spg),
        forall|i: int| 0 <= i < p.size ==> #[trigger] p.agent_built(i),
{
    reveal(placed_prefix);
    assert forall|i: int| 0 <= i < p.size implies #[trigger] p.agent_built(i) by {
        assert(agent_ready(p, g, i, spg));
    }
    assert forall|i: int| 0 <= i < p.size implies #[trigger] p.alive(i) by {
        assert(agent_ready(p, g, i, spg));
    }
    assert forall|i: int| 0 <= i < p.size implies (#[trigger] p.heritable.headers[i]).period()
        < spg by {
        assert(agent_ready(p, g, i, spg));
    }
    assert forall|i: int| 0 <= i < p.size && (#[trigger] p.misc[i]).isAlive implies {
        &&& g.in_bounds(p.movement[i].x as int, p.movement[i].y as int)
        &&& g.occupant(p.movement[i].x as int, p.movement[i].y as int) == Some(i as usize)
    } by {
        assert(agent_ready(p, g, i, spg));
    }
    assert forall|c: int| 0 <= c < g.cells.len() && (#[trigger] g.cells[c]) is Some implies {
        let j = g.cells[c]->0 as int;
        &&& j < p.size
        &&& p.misc[j].isAlive
        &&& g.cell_of(p.movement[j].x as int, p.movement[j].y as int) == c
    } by {
        let j = g.cells[c]->0 as int;
        assert(agent_ready(p, g, j, spg));
    }
}

/// All agents of a population, stored field by field across parallel arrays,
/// with their heritable data in one arena, and the queues of one step.
pub struct Population {
    size: usize,
    movement_data: Vec<MovementData>,
    neuron_data: Vec<NeuronData>,
    heritable_data: HeritableArena,
    misc_data: Vec<MiscData>,
    deathQueue: Vec<usize>,
    moveQueue: Vec<MoveRequest>,
}

impl View for Population {
    type V = PopulationView;

    closed spec fn view(&self) -> PopulationView {
        PopulationView {
            size: self.size as nat,
            movement: self.movement_data@,
            neurons: self.neuron_data@,
            heritable: self.heritable_data@,
            misc: self.misc_data@,
            death_queue: self.deathQueue@,
            move_queue: self.moveQueue@,
        }
    }
}

impl Population {
    /// A random population of `config.get_pop_size()` living agents, placed at
    /// random on the grid, which is cleared first.
    pub fn new(config: &Config, grid: &mut Grid, rng: &mut StdRng) -> (r: Population)
        requires
            config.wf(),
            old(grid)@.wf(),
            old(grid)@.width == config.grid_width(),
            old(grid)@.height == config.grid_height(),
        ensures
            consistent(r@, *config, final(grid)@),
            r@.all_alive(),
            r@.death_queue.len() == 0,
    {
        let size = config.get_pop_size();
        let l = config.get_genome_size();
        let empty: Vec<Gene> = Vec::new();
        let mut movement_data: Vec<MovementData> = Vec::new();
        let mut neuron_data: Vec<NeuronData> = Vec::new();
        let mut misc_data: Vec<MiscData> = Vec::new();
        let mut moveQueue: Vec<MoveRequest> = Vec::new();
        let mut i: usize = 0;
        while i < size
            invariant
                i <= size,
                movement_data@.len() == i,
                neuron_data@.len() == i,
                misc_data@.len() == i,
                moveQueue@.len() == i,
            decreases size - i,
        {
            movement_data.push(MovementData::new(0, 0, Direction::North));
            neuron_data.push(NeuronData::new(NeuralNet::new(empty.as_slice())));
            misc_data.push(MiscData { color: (0, 0, 0), isAlive: false });
            moveQueue.push((0, (0, 0)));
            i = i + 1;
        }
        let mut pop = Population {
            size,
            movement_data,
            neuron_data,
            heritable_data: HeritableArena::new(l, size),
            misc_data,
            deathQueue: Vec::new(),
            moveQueue,
        };
        pop.genRandom(config, grid, rng);
        pop
    }

    /// Gives every agent random heritable data and places it, alive, on a random
    /// cell of the grid, which is cleared first. The death queue stays.
    pub fn genRandom(&mut self, config: &Config, grid: &mut Grid, rng: &mut StdRng)
        requires
            config.wf(),
            old(self)@.size == config.pop_size(),
            old(self)@.movement.len() == config.pop_size(),
            old(self)@.neurons.len() == config.pop_size(),
            old(self)@.misc.len() == config.pop_size(),
            old(self)@.move_queue.len() == config.pop_size(),
            old(self)@.heritable.wf(),
            old(self)@.heritable.len() == config.pop_size(),
            old(self)@.heritable.genome_length == config.genome_length(),
            forall|k: int|
                0 <= k < old(self)@.death_queue.len() ==> #[trigger] old(self)@.death_queue[k]
                    < config.pop_size(),
            old(grid)@.wf(),
            old(grid)@.width == config.grid_width(),
            old(grid)@.height == config.grid_height(),
        ensures
            consistent(final(self)@, *config, final(grid)@),
            final(self)@.all_alive(),
            final(self)@.death_queue == old(self)@.death_queue,
    {
        grid.reset();
        let size = self.size;
        proof {
            reveal(placed_prefix);
        }
        let spg = config.get_steps_per_gen();
        let mut i: usize = 0;
        while i < size
            invariant
                i <= size,
                size == self@.size,
                config.wf(),
                self@.size == config.pop_size(),
                self@.movement.len() == size,
                self@.neurons.len() == size,
                self@.misc.len() == size,
                self@.move_queue.len() == size,
                self@.heritable.wf(),
                self@.heritable.len() == size,
                self@.heritable.genome_length == config.genome_length(),
                self@.death_queue == old(self)@.death_queue,
                spg == config.steps_per_gen(),
                grid@.wf(),
                grid@.width == config.grid_width(),
                grid@.height == config.grid_height(),
                placed_prefix(self@, grid@, i as nat, spg as nat),
            decreases size - i,
        {
            let ghost pre = self@;
            let ghost g0 = grid@;
            gen_random_other(&mut self.heritable_data, i, rng, spg);
            proof {
                lemma_prefix_has_free_cell(pre, g0, i as nat, spg as nat);
            }
            let ghost mid = self@;
            self.place_agent(i, grid, rng);
            proof {
                lemma_place_step(pre, mid, self@, g0, grid@, i as nat, spg as nat);
            }
            i = i + 1;
        }
        proof {
            lemma_prefix_complete(self@, grid@, spg as nat);
        }
    }

    /// Starts the next generation. The arena and `scratch` are exchanged, so the
    /// old records sit in `scratch`; then each agent is rebuilt from the old
    /// record of a reproducer drawn at random, mutated at the configured rate,
    /// and placed alive on a random cell of the grid, which is cleared first.
    pub fn reproduceAsexually(
        &mut self,
        scratch: &mut HeritableArena,
        config: &Config,
        reproducingCells: Vec<usize>,
        grid: &mut Grid,
        rng: &mut StdRng,
    )
        requires
            config.wf(),
            old(self)@.wf(),
            old(self)@.fits(*config),
            old(scratch)@.wf(),
            old(scratch)@.same_shape(old(self)@.heritable),
            reproducingCells@.len() > 0,
            forall|k: int|
                0 <= k < reproducingCells@.len() ==> #[trigger] reproducingCells@[k] < old(
                    self,
                )@.size,
            old(grid)@.wf(),
            old(grid)@.width == config.grid_width(),
            old(grid)@.height == config.grid_height(),
        ensures
            consistent(final(self)@, *config, final(grid)@),
            final(self)@.all_alive(),
            final(self)@.death_queue == old(self)@.death_queue,
            final(self)@.move_queue == old(self)@.move_queue,
            final(scratch)@ == old(self)@.heritable,
            forall|i: int|
                0 <= i < old(self)@.size ==> #[trigger] descends_from(
                    final(self)@.heritable,
                    i,
                    old(self)@.heritable,
                    reproducingCells@,
                    config.mutation_rate(),
                    config.steps_per_gen(),
                ),
    {
        self.heritable_data.swap(scratch);
        grid.reset();
        let size = self.size;
        let spg = config.get_steps_per_gen();
        let rate = config.get_mutation_rate();
        let ghost old_records = scratch@;
        let ghost mut picks: Seq<int> = Seq::empty();
        proof {
            reveal(placed_prefix);
        }
        let mut i: usize = 0;
        while i < size
            invariant
                i <= size,
                size == self@.size,
                config.wf(),
                self@.size == config.pop_size(),
                self@.movement.len() == size,
                self@.neurons.len() == size,
                self@.misc.len() == size,
                self@.move_queue == old(self)@.move_queue,
                self@.heritable.wf(),
                self@.heritable.len() == size,
                self@.heritable.genome_length == config.genome_length(),
                self@.death_queue == old(self)@.death_queue,
                scratch@ == old_records,
                old_records == old(self)@.heritable,
                old_records.wf(),
                old_records.len() == size,
                old_records.genome_length == config.genome_length(),
                spg == config.steps_per_gen(),
                rate == config.mutation_rate(),
                grid@.wf(),
                grid@.width == config.grid_width(),
                grid@.height == config.grid_height(),
                placed_prefix(self@, grid@, i as nat, spg as nat),
                reproducingCells@.len() > 0,
                forall|k: int|
                    0 <= k < reproducingCells@.len() ==> #[trigger] reproducingCells@[k] < size,
                picks.len() == i,
                forall|j: int|
                    0 <= j < i ==> 0 <= #[trigger] picks[j] < reproducingCells@.len()
                        && is_record_offspring(
                        self@.heritable.genome(j),
                        self@.heritable.headers[j],
                        old_records.genome(reproducingCells@[picks[j]] as int),
                        old_records.headers[reproducingCells@[picks[j]] as int],
                        rate as nat,
                        spg as nat,
                    ),
            decreases size - i,
        {
            let pick = draw_below(rng, reproducingCells.len());
            let selected = reproducingCells[pick];
            let ghost pre = self@;
            let ghost g0 = grid@;
            asexuallyReproduce(
                scratch,
                selected,
                &mut self.heritable_data,
                i,
                spg,
                rate,
                rng,
            );
            proof {
                lemma_prefix_has_free_cell(pre, g0, i as nat, spg as nat);
            }
            let ghost mid = self@;
            self.place_agent(i, grid, rng);
            proof {
                lemma_place_step(pre, mid, self@, g0, grid@, i as nat, spg as nat);
                picks = picks.push(pick as int);
                assert forall|j: int| 0 <= j < i + 1 implies 0 <= #[trigger] picks[j]
                    < reproducingCells@.len() && is_record_offspring(
                    self@.heritable.genome(j),
                    self@.heritable.headers[j],
                    old_records.genome(reproducingCells@[picks[j]] as int),
                    old_records.headers[reproducingCells@[picks[j]] as int],
                    rate as nat,
                    spg as nat,
                ) by {
                    if j < i {
                        assert(self@.heritable.genome(j) == pre.heritable.genome(j));
                        assert(self@.heritable.headers[j] == pre.heritable.headers[j]);
                    }
                }
            }
            i = i + 1;
        }
        proof {
            lemma_prefix_complete(self@, grid@, spg as nat);
            assert forall|i: int| 0 <= i < old(self)@.size implies #[trigger] descends_from(
                self@.heritable,
                i,
                old(self)@.heritable,
                reproducingCells@,
                config.mutation_rate(),
                config.steps_per_gen(),
            ) by {
                let k = picks[i];
                assert(0 <= k < reproducingCells@.len());
                assert(is_record_offspring(
                    self@.heritable.genome(i),
                    self@.heritable.headers[i],
                    old(self)@.heritable.genome(reproducingCells@[k] as int),
                    old(self)@.heritable.headers[reproducingCells@[k] as int],
                    config.mutation_rate(),
                    config.steps_per_gen(),
                ));
            }
        }
    }

    /// Puts every agent, living or dead, on a random cell of an empty grid; the
    /// headings and everything else stay.
    pub fn assignRandom(&mut self, grid: &mut Grid, rng: &mut StdRng)
        requires
            old(self)@.wf(),
            old(grid)@.wf(),
            old(grid)@.is_empty(),
            old(self)@.size <= old(grid)@.cells.len(),
        ensures
            final(self)@ == (PopulationView { movement: final(self)@.movement, ..old(self)@ }),
            final(self)@.wf(),
            final(grid)@.wf(),
            final(grid)@.width == old(grid)@.width,
            final(grid)@.height == old(grid)@.height,
            holds_all(final(self)@.movement, final(grid)@, old(self)@.size),
            forall|i: int|
                0 <= i < old(self)@.size ==> (#[trigger] final(self)@.movement[i]).lastMoveDir
                    == old(self)@.movement[i].lastMoveDir,
    {
        let size = self.size;
        let ghost pre = self@;
        let mut index: usize = 0;
        while index < size
            invariant
                index <= size,
                size == pre.size,
                pre.wf(),
                size <= grid@.cells.len(),
                self@ == (PopulationView { movement: self@.movement, ..pre }),
                self@.movement.len() == size,
                grid@.wf(),
                grid@.width == old(grid)@.width,
                grid@.height == old(grid)@.height,
                holds_all(self@.movement, grid@, index as nat),
                forall|i: int|
                    0 <= i < size ==> (#[trigger] self@.movement[i]).lastMoveDir
                        == pre.movement[i].lastMoveDir,
            decreases size - index,
        {
            proof {
                assert forall|c1: int, c2: int|
                    0 <= c1 < grid@.cells.len() && 0 <= c2 < grid@.cells.len() && (
                    #[trigger] grid@.cells[c1]) is Some && #[trigger] grid@.cells[c2]
                        == grid@.cells[c1] implies c1 == c2 by {}
                lemma_free_cell_exists(grid@, index as nat);
            }
            let ghost g0 = grid@;
            let ghost mv0 = self@.movement;
            let coords = grid.find_random_unoccupied(rng);
            let mut m = self.movement_data[index];
            m.setCoords(coords);
            self.movement_data.set(index, m);
            grid.set_occupant(coords.0, coords.1, Some(index));
            proof {
                let mv = self@.movement;
                lemma_cell_index(g0, coords.0 as int, coords.1 as int, coords.0 as int, coords.1 as int);
                assert forall|j: int| 0 <= j < index + 1 implies {
                    &&& grid@.in_bounds((#[trigger] mv[j]).x as int, mv[j].y as int)
                    &&& grid@.occupant(mv[j].x as int, mv[j].y as int) == Some(j as usize)
                } by {
                    if j < index {
                        lemma_cell_index(g0, mv[j].x as int, mv[j].y as int, mv[j].x as int, mv[j].y as int);
                        assert(g0.occupant(mv0[j].x as int, mv0[j].y as int) == Some(j as usize));
                    }
                }
                assert forall|c: int| 0 <= c < grid@.cells.len() && (#[trigger] grid@.cells[c]) is Some implies {
                    let j = grid@.cells[c]->0 as int;
                    &&& 0 <= j < index + 1
                    &&& grid@.cell_of(mv[j].x as int, mv[j].y as int) == c
                } by {
                    if c != g0.cell_of(coords.0 as int, coords.1 as int) {
                        assert(g0.cells[c] is Some);
                        let j = g0.cells[c]->0 as int;
                        assert(mv[j] == mv0[j]);
                    }
                }
            }
            index = index + 1;
        }
        proof {
            assert forall|i: int| 0 <= i < self@.size implies #[trigger] self@.agent_built(i) by {
                assert(pre.agent_built(i));
            }
        }
    }

    /// Puts agent `index` alive on a random free cell with a random heading, and
    /// builds its network and colour from its genome.
    fn place_agent(&mut self, index: usize, grid: &mut Grid, rng: &mut StdRng)
        requires
            index < old(self)@.size,
            old(self)@.movement.len() == old(self)@.size,
            old(self)@.neurons.len() == old(self)@.size,
            old(self)@.misc.len() == old(self)@.size,
            old(self)@.heritable.wf(),
            old(self)@.heritable.len() == old(self)@.size,
            old(self)@.heritable.genome_length > 0,
            old(grid)@.wf(),
            old(grid)@.has_free_cell(),
        ensures
            final(self)@ == (PopulationView {
                movement: final(self)@.movement,
                neurons: final(self)@.neurons,
                misc: final(self)@.misc,
                ..old(self)@
            }),
            final(self)@.movement.len() == old(self)@.size,
            final(self)@.neurons.len() == old(self)@.size,
            final(self)@.misc.len() == old(self)@.size,
            forall|j: int|
                0 <= j < old(self)@.size && j != index ==> final(self)@.movement[j] == old(
                    self,
                )@.movement[j] && final(self)@.neurons[j] == old(self)@.neurons[j]
                    && final(self)@.misc[j] == old(self)@.misc[j],
            final(self)@.agent_built(index as int),
            final(self)@.alive(index as int),
            old(grid)@.in_bounds(
                final(self)@.movement[index as int].x as int,
                final(self)@.movement[index as int].y as int,
            ),
            old(grid)@.occupant(
                final(self)@.movement[index as int].x as int,
                final(self)@.movement[index as int].y as int,
            ) is None,
            final(grid)@.wf(),
            final(grid)@ == old(grid)@.set(
                final(self)@.movement[index as int].x as int,
                final(self)@.movement[index as int].y as int,
                Some(index),
            ),
    {
        let (x, y) = grid.find_random_unoccupied(rng);
        grid.set_occupant(x, y, Some(index));
        let dir = Direction::get_random(rng);
        self.movement_data.set(index, MovementData::new(x, y, dir));
        proof {
            lemma_genome_len(self@.heritable, index as int);
        }
        let genome = self.heritable_data.get_genome(index);
        let net = NeuralNet::new(genome);
        let misc = MiscData::new(genome);
        self.neuron_data.set(index, NeuronData::new(net));
        self.misc_data.set(index, misc);
    }

    /// Marks every queued agent dead and clears its cell, then empties the queue.
    /// An agent that is already dead is left as it is.
    pub fn resolveDead(&mut self, grid: &mut Grid)
        requires
            old(self)@.wf(),
            old(grid)@.wf(),
            old(self)@.placed_on(old(grid)@),
        ensures
            final(self)@ == (PopulationView {
                misc: final(self)@.misc,
                death_queue: Seq::empty(),
                ..old(self)@
            }),
            final(self)@.wf(),
            forall|i: int|
                0 <= i < old(self)@.size ==> (#[trigger] final(self)@.misc[i]).color == old(
                    self,
                )@.misc[i].color && final(self)@.misc[i].isAlive == (old(self)@.misc[i].isAlive
                    && !old(self)@.death_queue.contains(i as usize)),
            final(grid)@.wf(),
            final(grid)@.width == old(grid)@.width,
            final(grid)@.height == old(grid)@.height,
            final(grid)@.cells.len() == old(grid)@.cells.len(),
            forall|c: int|
                0 <= c < old(grid)@.cells.len() ==> #[trigger] final(grid)@.cells[c] == if old(
                    grid,
                )@.cells[c] is Some && old(self)@.death_queue.contains(old(grid)@.cells[c]->0) {
                    None
                } else {
                    old(grid)@.cells[c]
                },
            final(self)@.placed_on(final(grid)@),
    {
        let ghost q = self@.death_queue;
        let ghost pre = self@;
        let ghost g0 = grid@;
        let n = self.deathQueue.len();
        let mut k: usize = 0;
        while k < n
            invariant
                k <= n,
                n == q.len(),
                self.deathQueue@ == q,
                self@ == (PopulationView { misc: self@.misc, ..pre }),
                self@.misc.len() == pre.size,
                pre.wf(),
                grid@.wf(),
                grid@.width == g0.width,
                grid@.height == g0.height,
                grid@.cells.len() == g0.cells.len(),
                forall|i: int|
                    0 <= i < pre.size ==> (#[trigger] self@.misc[i]).color == pre.misc[i].color
                        && self@.misc[i].isAlive == (pre.misc[i].isAlive && !q.subrange(
                        0,
                        k as int,
                    ).contains(i as usize)),
                forall|c: int|
                    0 <= c < g0.cells.len() ==> #[trigger] grid@.cells[c] == if g0.cells[c] is Some
                        && q.subrange(0, k as int).contains(g0.cells[c]->0) {
                        None
                    } else {
                        g0.cells[c]
                    },
                self@.placed_on(grid@),
            decreases n - k,
        {
            let a = self.deathQueue[k];
            let ghost mid = self@;
            let ghost g1 = grid@;
            proof {
                assert(q.subrange(0, k + 1) =~= q.subrange(0, k as int).push(a));
            }
            if self.misc_data[a].isAlive {
                assert(self@.alive(a as int));
                let m = self.movement_data[a];
                proof {
                    lemma_cell_index(g1, m.x as int, m.y as int, m.x as int, m.y as int);
                }
                grid.set_occupant(m.x, m.y, None);
                let mut misc = self.misc_data[a];
                misc.isAlive = false;
                self.misc_data.set(a, misc);
                proof {
                    lemma_kill_keeps_placed(mid, g1, self@, grid@, a as int);
                }
            }
            proof {
                assert forall|i: int| 0 <= i < pre.size implies (#[trigger] self@.misc[i]).color
                    == pre.misc[i].color && self@.misc[i].isAlive == (pre.misc[i].isAlive
                    && !q.subrange(0, k + 1).contains(i as usize)) by {
                    lemma_push_contains(q.subrange(0, k as int), a, i as usize);
                }
                assert forall|c: int| 0 <= c < g0.cells.len() implies #[trigger] grid@.cells[c]
                    == if g0.cells[c] is Some && q.subrange(0, k + 1).contains(g0.cells[c]->0) {
                    None
                } else {
                    g0.cells[c]
                } by {
                    let ma = mid.movement[a as int];
                    assert(grid@.cells[c] == if mid.alive(a as int) && c == g1.cell_of(
                        ma.x as int,
                        ma.y as int,
                    ) {
                        None
                    } else {
                        g1.cells[c]
                    });
                    if g0.cells[c] is Some {
                        let j = g0.cells[c]->0;
                        if g1.cells[c] is Some {
                            assert(g1.cells[c] == g0.cells[c]);
                            assert(mid.misc[j as int].isAlive);
                            assert(g1.cell_of(
                                mid.movement[j as int].x as int,
                                mid.movement[j as int].y as int,
                            ) == c);
                        }
                        lemma_push_contains(q.subrange(0, k as int), a, j);
                    }
                }
            }
            k = k + 1;
        }
        let ghost p_end = self@;
        self.deathQueue.clear();
        proof {
            assert(self@.movement == p_end.movement && self@.misc == p_end.misc && self@.size
                == p_end.size);
            assert(self@.placed_on(grid@));
            assert(q.subrange(0, n as int) =~= q);
            assert forall|i: int| 0 <= i < self@.size implies #[trigger] self@.agent_built(i) by {
                assert(pre.agent_built(i));
            }
        }
    }

    pub fn addToDeathQueue(&mut self, cell: usize)
        requires
            old(self)@.wf(),
            cell < old(self)@.size,
        ensures
            final(self)@ == (PopulationView {
                death_queue: old(self)@.death_queue.push(cell),
                ..old(self)@
            }),
            final(self)@.wf(),
    {
        self.deathQueue.push(cell);
        proof {
            assert forall|i: int| 0 <= i < self@.size implies #[trigger] self@.agent_built(i) by {
                assert(old(self)@.agent_built(i));
            }
            let dq = self@.death_queue;
            assert forall|k: int| 0 <= k < dq.len() implies #[trigger] dq[k] < self@.size by {
                if k < dq.len() - 1 {
                    assert(dq[k] == old(self)@.death_queue[k]);
                }
            }
        }
    }

    /// The move queue, for the evaluation phase to fill.
    pub fn getMutMoveQueue(&mut self) -> (r: &mut [MoveRequest])
        ensures
            r@ == old(self)@.move_queue,
            final(self)@ == (PopulationView { move_queue: final(r)@, ..old(self)@ }),
    {
        self.moveQueue.as_mut_slice()
    }

    /// Writes `requests` over the front of the move queue.
    pub fn queue_moves(&mut self, requests: &[MoveRequest])
        requires
            old(self)@.wf(),
            requests@.len() <= old(self)@.size,
        ensures
            final(self)@ == (PopulationView {
                move_queue: requests@ + old(self)@.move_queue.subrange(
                    requests@.len() as int,
                    old(self)@.size as int,
                ),
                ..old(self)@
            }),
            final(self)@.wf(),
    {
        let n = requests.len();
        let mut k: usize = 0;
        proof {
            assert(requests@.subrange(0, 0) + old(self)@.move_queue.subrange(0, old(self)@.size as int)
                =~= old(self)@.move_queue);
        }
        while k < n
            invariant
                k <= n,
                n == requests@.len(),
                n <= old(self)@.size,
                old(self)@.wf(),
                self@ == (PopulationView {
                    move_queue: requests@.subrange(0, k as int) + old(self)@.move_queue.subrange(
                        k as int,
                        old(self)@.size as int,
                    ),
                    ..old(self)@
                }),
            decreases n - k,
        {
            self.moveQueue.set(k, requests[k]);
            proof {
                assert(self@.move_queue =~= requests@.subrange(0, k + 1) + old(
                    self,
                )@.move_queue.subrange(k + 1, old(self)@.size as int));
            }
            k = k + 1;
        }
        proof {
            assert(requests@.subrange(0, n as int) =~= requests@);
            assert forall|i: int| 0 <= i < self@.size implies #[trigger] self@.agent_built(i) by {
                assert(old(self)@.agent_built(i));
            }
        }
    }

    pub fn get_move_queue(&self) -> (r: &[MoveRequest])
        ensures
            r@ == self@.move_queue,
    {
        self.moveQueue.as_slice()
    }

    /// Applies the first `size` requests of the move queue in queue order; a later
    /// request sees the cells that earlier ones took or left.
    pub fn resolveMoveQueue(&mut self, size: usize, grid: &mut Grid)
        requires
            old(self)@.wf(),
            old(grid)@.wf(),
            old(self)@.placed_on(old(grid)@),
            size <= old(self)@.move_queue.len(),
            forall|k: int|
                0 <= k < size ==> valid_request(
                    #[trigger] old(self)@.move_queue[k],
                    old(self)@.size,
                    old(grid)@,
                ),
        ensures
            final(self)@ == (PopulationView { movement: final(self)@.movement, ..old(self)@ }),
            (final(self)@.movement, final(grid)@) == apply_moves(
                old(self)@.movement,
                old(self)@.misc,
                old(grid)@,
                old(self)@.move_queue,
                size as nat,
            ),
            final(self)@.wf(),
            final(grid)@.wf(),
            final(grid)@.width == old(grid)@.width,
            final(grid)@.height == old(grid)@.height,
            final(self)@.placed_on(final(grid)@),
    {
        let ghost pre = self@;
        let ghost g0 = grid@;
        let mut index: usize = 0;
        while index < size
            invariant
                index <= size,
                size <= pre.move_queue.len(),
                pre.wf(),
                self@ == (PopulationView { movement: self@.movement, ..pre }),
                self@.movement.len() == pre.size,
                (self@.movement, grid@) == apply_moves(
                    pre.movement,
                    pre.misc,
                    g0,
                    pre.move_queue,
                    index as nat,
                ),
                grid@.wf(),
                grid@.width == g0.width,
                grid@.height == g0.height,
                self@.placed_on(grid@),
                forall|k: int|
                    0 <= k < size ==> valid_request(#[trigger] pre.move_queue[k], pre.size, g0),
            decreases size - index,
        {
            let req = self.moveQueue[index];
            let a = req.0;
            let ghost mv1 = self@.movement;
            let ghost g1 = grid@;
            proof {
                assert(valid_request(pre.move_queue[index as int], pre.size, g0));
                lemma_move_keeps_placed(pre.size, mv1, pre.misc, g1, req);
            }
            if self.misc_data[a].isAlive {
                assert(self@.misc[a as int].isAlive);
                let m = self.movement_data[a];
                grid.set_occupant(m.x, m.y, None);
                let (tx, ty) = req.1;
                let (nx, ny) = if grid.get_occupant(tx, ty).is_none() {
                    (tx, ty)
                } else if grid.get_occupant(tx, m.y).is_none() {
                    (tx, m.y)
                } else if grid.get_occupant(m.x, ty).is_none() {
                    (m.x, ty)
                } else {
                    (m.x, m.y)
                };
                grid.set_occupant(nx, ny, Some(a));
                let dir = if nx == m.x && ny == m.y {
                    m.lastMoveDir
                } else {
                    let dx = step_sign(nx, m.x);
                    let dy = step_sign(ny, m.y);
                    proof {
                        lemma_offset_dir(dx as int, dy as int);
                    }
                    Direction::get_dir_from_offset((dx, dy))
                };
                self.movement_data.set(a, MovementData::new(nx, ny, dir));
            }
            proof {
                assert(self@.movement == apply_move(mv1, pre.misc, g1, req).0);
            }
            index = index + 1;
        }
        proof {
            assert forall|i: int| 0 <= i < self@.size implies #[trigger] self@.agent_built(i) by {
                assert(pre.agent_built(i));
            }
        }
    }

    /// The indices of the living agents, ascending.
    pub fn getLivingIndices(&self) -> (r: Vec<usize>)
        requires
            self@.wf(),
        ensures
            r@ == self@.living(),
    {
        let mut v: Vec<usize> = Vec::new();
        let mut index: usize = 0;
        while index < self.size
            invariant
                index <= self@.size,
                self@.wf(),
                v@ == indices_where(alive_flags(self@.misc), index as nat),
            decreases self@.size - index,
        {
            if self.misc_data[index].isAlive {
                v.push(index);
            }
            index = index + 1;
        }
        v
    }

    pub fn get_size(&self) -> (r: usize)
        ensures
            r == self@.size,
    {
        self.size
    }

    pub fn getCellMovementData(&self, index: usize) -> (r: &MovementData)
        requires
            self@.wf(),
            index < self@.size,
        ensures
            *r == self@.movement[index as int],
    {
        &self.movement_data[index]
    }

    pub fn getCellMiscData(&self, index: usize) -> (r: &MiscData)
        requires
            self@.wf(),
            index < self@.size,
        ensures
            *r == self@.misc[index as int],
    {
        &self.misc_data[index]
    }

    pub fn getCellNeuronData(&self, index: usize) -> (r: &NeuronData)
        requires
            self@.wf(),
            index < self@.size,
        ensures
            *r == self@.neurons[index as int],
    {
        &self.neuron_data[index]
    }

    /// The header and the genome of an agent's record.
    pub fn getCellHeritableData(&self, index: usize) -> (r: (HeritableData, &[Gene]))
        requires
            self@.wf(),
            index < self@.size,
        ensures
            r.0 == self@.heritable.headers[index as int],
            r.1@ == self@.heritable.genome(index as int),
    {
        (self.heritable_data.get_header(index), self.heritable_data.get_genome(index))
    }

    pub fn get_movement_data(&self) -> (r: &[MovementData])
        ensures
            r@ == self@.movement,
    {
        self.movement_data.as_slice()
    }

    pub fn get_misc_data(&self) -> (r: &[MiscData])
        ensures
            r@ == self@.misc,
    {
        self.misc_data.as_slice()
    }

    pub fn get_neuron_data(&self) -> (r: &[NeuronData])
        ensures
            r@ == self@.neurons,
    {
        self.neuron_data.as_slice()
    }

    pub fn get_heritable_data(&self) -> (r: &HeritableArena)
        ensures
            r@ == self@.heritable,
    {
        &self.heritable_data
    }

    pub fn getDeathQueueLen(&self) -> (r: usize)
        ensures
            r == self@.death_queue.len(),
    {
        self.deathQueue.len()
    }
}

/// The sign of `a - b`.
fn step_sign(a: usize, b: usize) -> (r: isize)
    ensures
        r as int == sign(a - b),
{
    if a > b {
        1
    } else if a < b {
        -1
    } else {
        0
    }
}

proof fn lemma_push_contains<A>(s: Seq<A>, v: A, x: A)
    ensures
        s.push(v).contains(x) <==> (s.contains(x) || v == x),
{
    if s.contains(x) {
        let m = choose|m: int| 0 <= m < s.len() && s[m] == x;
        assert(s.push(v)[m] == x);
    }
    if v == x {
        assert(s.push(v)[s.len() as int] == x);
    }
    if s.push(v).contains(x) {
        let m = choose|m: int| 0 <= m < s.push(v).len() && s.push(v)[m] == x;
        if m < s.len() {
            assert(s[m] == x);
        }
    }
}

/// Killing a living agent and clearing its cell keeps the grid holding exactly
/// the living agents.
proof fn lemma_kill_keeps_placed(p: PopulationView, g: GridView, post: PopulationView, g2: GridView, a: int)
    requires
        p.placed_on(g),
        g.wf(),
        0 <= a < p.size,
        p.size <= usize::MAX,
        p.misc.len() == p.size,
        p.movement.len() == p.size,
        p.alive(a),
        g2 == g.set(p.movement[a].x as int, p.movement[a].y as int, None),
        post == (PopulationView { misc: p.misc.update(a, MiscData { isAlive: false, ..p.misc[a] }), ..p }),
    ensures
        post.placed_on(g2),
{
    let m = p.movement[a];
    let ca = g.cell_of(m.x as int, m.y as int);
    lemma_cell_index(g, m.x as int, m.y as int, m.x as int, m.y as int);
    assert forall|i: int| 0 <= i < post.size && (#[trigger] post.misc[i]).isAlive implies {
        &&& g2.in_bounds(post.movement[i].x as int, post.movement[i].y as int)
        &&& g2.occupant(post.movement[i].x as int, post.movement[i].y as int) == Some(i as usize)
    } by {
        assert(i != a);
        assert(p.alive(i));
        let mi = p.movement[i];
        lemma_cell_index(g, mi.x as int, mi.y as int, mi.x as int, mi.y as int);
    }
    assert forall|c: int| 0 <= c < g2.cells.len() && (#[trigger] g2.cells[c]) is Some implies {
        let j = g2.cells[c]->0 as int;
        &&& j < post.size
        &&& post.misc[j].isAlive
        &&& g2.cell_of(post.movement[j].x as int, post.movement[j].y as int) == c
    } by {
        assert(c != ca);
        assert(g.cells[c] is Some);
        let j = g.cells[c]->0 as int;
        assert(j != a);
    }
}

} // verus!
