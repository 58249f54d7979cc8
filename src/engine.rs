use rand::rngs::StdRng;
use vstd::prelude::*;

use crate::arena::HeritableArena;
use crate::cell::{MovementData, TimeT};
use crate::config::Config;
use crate::grid::{Grid, GridValueT};
use crate::population::{
    apply_moves, consistent, descends_from, indices_where, valid_request, Population,
    PopulationView,
};

verus! {

/// Left of the first quarter of the width or right of the third quarter.
pub open spec fn in_outer_band(x: int, width: nat) -> bool {
    x < width / 4 || x > 3 * width / 4
}

/// Strictly between the first and the third quarter of the width.
pub open spec fn in_middle_band(x: int, width: nat) -> bool {
    x > width / 4 && x < 3 * width / 4
}

/// Which agents may found the next generation: the living ones in the outer band.
pub open spec fn reproducer_flags(p: PopulationView, width: nat) -> Seq<bool> {
    Seq::new(
        p.size,
        |i: int| p.misc[i].isAlive && in_outer_band(p.movement[i].x as int, width),
    )
}

/// The agents that may found the next generation, ascending.
pub open spec fn reproducers(p: PopulationView, width: nat) -> Seq<usize> {
    indices_where(reproducer_flags(p, width), p.size)
}

/// Whether the default death policy kills an agent at `x` on step `step`: the
/// outer band at a quarter of the generation, the middle band at half of it, the
/// outer band again at three quarters; nobody on any other step.
pub open spec fn in_death_band(step: nat, steps_per_gen: nat, x: int, width: nat) -> bool {
    if step == steps_per_gen / 4 {
        in_outer_band(x, width)
    } else if step == steps_per_gen / 2 {
        in_middle_band(x, width)
    } else if step == 3 * steps_per_gen / 4 {
        in_outer_band(x, width)
    } else {
        false
    }
}

pub open spec fn death_flags(p: PopulationView, step: nat, steps_per_gen: nat, width: nat) -> Seq<
    bool,
> {
    Seq::new(
        p.size,
        |i: int|
            p.misc[i].isAlive && in_death_band(step, steps_per_gen, p.movement[i].x as int, width),
    )
}

/// `3 * n / 4`, without the overflow of `3 * n`.
fn three_quarters(n: usize) -> (r: usize)
    ensures
        r == 3 * n / 4,
{
    let q = n / 4;
    let m = n % 4;
    proof {
        assert(3 * (n as int) / 4 == 3 * q + (3 * m) / 4) by (nonlinear_arith)
            requires
                q == n as int / 4,
                m == n as int % 4,
                n >= 0,
        ;
        assert(3 * q <= n) by (nonlinear_arith)
            requires q == n as int / 4, n >= 0;
    }
    q * 3 + (m * 3) / 4
}

fn outer_band(x: GridValueT, width: GridValueT) -> (r: bool)
    ensures
        r == in_outer_band(x as int, width as nat),
{
    x < width / 4 || x > three_quarters(width)
}

fn middle_band(x: GridValueT, width: GridValueT) -> (r: bool)
    ensures
        r == in_middle_band(x as int, width as nat),
{
    x > width / 4 && x < three_quarters(width)
}

/// The default selection: the living agents in the outer band, ascending.
pub fn determine_reproducers(config: &Config, pop: &Population) -> (r: Vec<usize>)
    requires
        pop@.wf(),
    ensures
        r@ == reproducers(pop@, config.grid_width()),
{
    let width = config.get_grid_width();
    let size = pop.get_size();
    let mut r: Vec<usize> = Vec::new();
    let mut index: usize = 0;
    while index < size
        invariant
            index <= size,
            size == pop@.size,
            pop@.wf(),
            width == config.grid_width(),
            r@ == indices_where(reproducer_flags(pop@, width as nat), index as nat),
        decreases size - index,
    {
        let alive = pop.getCellMiscData(index).isAlive;
        if alive && outer_band(pop.getCellMovementData(index).x, width) {
            r.push(index);
        }
        index = index + 1;
    }
    r
}

/// The default death policy: queues, in ascending order, the living agents that
/// `in_death_band` names for this step.
pub fn determine_deaths(config: &Config, step: TimeT, pop: &mut Population)
    requires
        old(pop)@.wf(),
    ensures
        final(pop)@ == (PopulationView {
            death_queue: old(pop)@.death_queue + indices_where(
                death_flags(
                    old(pop)@,
                    step as nat,
                    config.steps_per_gen(),
                    config.grid_width(),
                ),
                old(pop)@.size,
            ),
            ..old(pop)@
        }),
        final(pop)@.wf(),
{
    let width = config.get_grid_width();
    let spg = config.get_steps_per_gen();
    let size = pop.get_size();
    let ghost pre = pop@;
    let ghost flags = death_flags(pre, step as nat, spg as nat, width as nat);
    let quarter = spg / 4;
    let half = spg / 2;
    let three = three_quarters(spg);
    let mut index: usize = 0;
    while index < size
        invariant
            index <= size,
            size == pre.size,
            pre.wf(),
            width == config.grid_width(),
            spg == config.steps_per_gen(),
            quarter == spg / 4,
            half == spg / 2,
            three == 3 * spg / 4,
            flags == death_flags(pre, step as nat, spg as nat, width as nat),
            pop@ == (PopulationView {
                death_queue: pre.death_queue + indices_where(flags, index as nat),
                ..pre
            }),
            pop@.wf(),
        decreases size - index,
    {
        let m = *pop.getCellMovementData(index);
        let alive = pop.getCellMiscData(index).isAlive;
        let dies = alive && if step == quarter {
            outer_band(m.x, width)
        } else if step == half {
            middle_band(m.x, width)
        } else if step == three {
            outer_band(m.x, width)
        } else {
            false
        };
        let ghost before = pop@.death_queue;
        if dies {
            pop.addToDeathQueue(index);
        }
        proof {
            let s = indices_where(flags, index as nat);
            if dies {
                assert(before.push(index) =~= pre.death_queue + s.push(index));
            }
        }
        index = index + 1;
    }
}

/// How many living agents each chunk of a step gets: the living agents split
/// over the workers and the calling thread, rounded up.
pub open spec fn chunk_len_of(len: nat, workers: nat) -> nat {
    if len % (workers + 1) == 0 {
        len / (workers + 1)
    } else {
        len / (workers + 1) + 1
    }
}

/// `ranges` cuts `0..len` into consecutive, non-empty pieces of `chunk` entries
/// each, the last one possibly shorter.
pub open spec fn is_chunking(ranges: Seq<(usize, usize)>, len: nat, chunk: nat) -> bool {
    &&& forall|k: int|
        0 <= k < ranges.len() ==> (#[trigger] ranges[k]).0 == k * chunk && ranges[k].0
            < ranges[k].1 && ranges[k].1 == if k * chunk + chunk <= len {
            k * chunk + chunk
        } else {
            len as int
        }
    &&& len == 0 ==> ranges.len() == 0
    &&& len > 0 ==> ranges.len() > 0 && ranges.last().1 == len
}

pub fn chunk_len(len: usize, workers: usize) -> (r: usize)
    requires
        workers < usize::MAX,
    ensures
        r == chunk_len_of(len as nat, workers as nat),
        r * (workers + 1) >= len,
        len > 0 ==> r > 0,
{
    let parts = workers + 1;
    let num = len / parts;
    let rem = len % parts;
    proof {
        assert(num * parts + rem == len) by (nonlinear_arith)
            requires num == len as int / parts as int, rem == len as int % parts as int, parts > 0;
        assert(num * parts <= len) by (nonlinear_arith)
            requires num * parts + rem == len, rem >= 0;
    }
    if rem != 0 {
        proof {
            assert((num + 1) * parts >= len) by (nonlinear_arith)
                requires num * parts + rem == len, rem < parts;
            assert(num < usize::MAX) by (nonlinear_arith)
                requires num * parts + rem == len, 0 < rem < parts, len <= usize::MAX, num >= 0;
        }
        num + 1
    } else {
        proof {
            assert(len > 0 ==> num > 0) by (nonlinear_arith)
                requires num * parts + rem == len, rem == 0, num >= 0;
        }
        num
    }
}

/// The ranges of the living-index list that a step hands out: consecutive,
/// in order, covering it, at most one per worker plus one for the calling thread.
pub fn partition_chunks(len: usize, workers: usize) -> (r: Vec<(usize, usize)>)
    requires
        workers < usize::MAX,
    ensures
        is_chunking(r@, len as nat, chunk_len_of(len as nat, workers as nat)),
        r@.len() <= workers + 1,
{
    let chunk = chunk_len(len, workers);
    let mut r: Vec<(usize, usize)> = Vec::new();
    let mut start: usize = 0;
    let mut k: usize = 0;
    while start < len
        invariant
            workers < usize::MAX,
            chunk == chunk_len_of(len as nat, workers as nat),
            chunk * (workers + 1) >= len,
            len > 0 ==> chunk > 0,
            start == if k * chunk <= len {
                k * chunk
            } else {
                len as int
            },
            start <= len,
            r@.len() == k,
            k <= workers + 1,
            k > 0 ==> r@.last().1 == start,
            forall|j: int|
                0 <= j < k ==> (#[trigger] r@[j]).0 == j * chunk && r@[j].0 < r@[j].1
                    && r@[j].1 == if j * chunk + chunk <= len {
                    j * chunk + chunk
                } else {
                    len as int
                },
        decreases len - start,
    {
        let end = if len - start > chunk {
            start + chunk
        } else {
            len
        };
        proof {
            assert(start == k * chunk);
            assert(k < workers + 1) by (nonlinear_arith)
                requires start == k * chunk, start < len, chunk * (workers + 1) >= len, chunk > 0;
        }
        r.push((start, end));
        proof {
            assert((k + 1) * chunk == k * chunk + chunk) by (nonlinear_arith);
        }
        start = end;
        k = k + 1;
    }
    r
}

/// Splits `data` before `index`; when `index` is its length the second part is
/// `None`.
pub fn split_or_get<T>(data: &mut [T], index: usize) -> (r: (&mut [T], Option<&mut [T]>))
    requires
        index <= old(data)@.len(),
    ensures
        index == old(data)@.len() ==> {
            &&& r.1 is None
            &&& r.0@ == old(data)@
            &&& final(data)@ == final(r.0)@
        },
        index < old(data)@.len() ==> {
            &&& r.1 is Some
            &&& r.0@ == old(data)@.subrange(0, index as int)
            &&& r.1->Some_0@ == old(data)@.subrange(index as int, old(data)@.len() as int)
            &&& final(data)@ == final(r.0)@ + final(r.1->Some_0)@
        },
{
    if index == data.len() {
        (data, None)
    } else {
        let (fst, lst) = data.split_at_mut(index);
        (fst, Some(lst))
    }
}

/// The oscillator sensor: `-1` or `1`, flipping every `period` steps, starting
/// at `-1`. A period of zero reads `-1` on step zero and `1` after it.
pub fn oscillator_input(step: TimeT, period: TimeT) -> (r: i32)
    ensures
        period > 0 ==> r == if (step / period) % 2 == 1 {
            1int
        } else {
            -1int
        },
        period == 0 ==> r == if step == 0 {
            -1int
        } else {
            1int
        },
{
    if period == 0 {
        if step == 0 {
            -1
        } else {
            1
        }
    } else if (step / period) % 2 == 1 {
        1
    } else {
        -1
    }
}

/// The cell an agent asks for when it steps by `dx` and `dy` (each `-1`, `0` or
/// `1`): one cell that way on each axis, kept inside the grid.
pub fn move_target(
    movement: &MovementData,
    dx: isize,
    dy: isize,
    width: GridValueT,
    height: GridValueT,
) -> (r: (GridValueT, GridValueT))
    requires
        movement.x < width,
        movement.y < height,
        -1 <= dx <= 1,
        -1 <= dy <= 1,
    ensures
        r.0 == if dx > 0 {
            if movement.x + 1 < width {
                movement.x + 1
            } else {
                width - 1
            }
        } else if dx < 0 {
            if movement.x > 0 {
                movement.x - 1
            } else {
                0
            }
        } else {
            movement.x as int
        },
        r.1 == if dy > 0 {
            if movement.y + 1 < height {
                movement.y + 1
            } else {
                height - 1
            }
        } else if dy < 0 {
            if movement.y > 0 {
                movement.y - 1
            } else {
                0
            }
        } else {
            movement.y as int
        },
        r.0 < width,
        r.1 < height,
{
    let mut x = movement.x;
    let mut y = movement.y;
    if dx > 0 {
        x = x + 1;
    } else if dx < 0 {
        x = x.saturating_sub(1);
    }
    if x >= width {
        x = width - 1;
    }
    if dy > 0 {
        y = y + 1;
    } else if dy < 0 {
        y = y.saturating_sub(1);
    }
    if y >= height {
        y = height - 1;
    }
    (x, y)
}

/// The host's pause and reset requests.
#[derive(Clone, Copy, Debug, PartialEq, Eq, Structural)]
pub struct WindowingStatus {
    pub is_paused: bool,
    pub should_reset: bool,
}

/// Why a generation could not be followed by another.
#[derive(Clone, Copy, Debug, PartialEq, Eq, Structural)]
pub enum GenerationError {
    /// No living agent was in the reproducing band.
    NoReproducers,
}

/// Ends a generation: selects the reproducers; with none, reports it and changes
/// nothing; else clears the grid, rebuilds the population from them and returns
/// how many there were.
pub fn next_generation(
    config: &Config,
    pop: &mut Population,
    scratch: &mut HeritableArena,
    grid: &mut Grid,
    rng: &mut StdRng,
) -> (r: Result<usize, GenerationError>)
    requires
        consistent(old(pop)@, *config, old(grid)@),
        old(scratch)@.wf(),
        old(scratch)@.same_shape(old(pop)@.heritable),
    ensures
        ({
            let chosen = reproducers(old(pop)@, config.grid_width());
            &&& chosen.len() == 0 ==> {
                &&& r == Err::<usize, _>(GenerationError::NoReproducers)
                &&& final(pop)@ == old(pop)@
                &&& final(grid)@ == old(grid)@
                &&& final(scratch)@ == old(scratch)@
            }
            &&& chosen.len() > 0 ==> {
                &&& r == Ok::<usize, GenerationError>(chosen.len() as usize)
                &&& consistent(final(pop)@, *config, final(grid)@)
                &&& final(pop)@.all_alive()
                &&& final(scratch)@ == old(pop)@.heritable
                &&& forall|i: int|
                    0 <= i < old(pop)@.size ==> #[trigger] descends_from(
                        final(pop)@.heritable,
                        i,
                        old(pop)@.heritable,
                        chosen,
                        config.mutation_rate(),
                        config.steps_per_gen(),
                    )
            }
        }),
{
    let chosen = determine_reproducers(config, pop);
    if chosen.len() == 0 {
        return Err(GenerationError::NoReproducers);
    }
    let count = chosen.len();
    proof {
        crate::population::lemma_indices_where(
            reproducer_flags(pop@, config.grid_width()),
            pop@.size,
        );
        assert forall|k: int| 0 <= k < chosen@.len() implies #[trigger] chosen@[k] < pop@.size by {}
    }
    pop.reproduceAsexually(scratch, config, chosen, grid, rng);
    Ok(count)
}

/// The serial part of a step, after the movement requests are queued: the
/// first `count` requests are applied in queue order, the death policy queues
/// its victims, and they die. Returns how many agents are still alive.
pub fn resolve_step(
    config: &Config,
    step: TimeT,
    pop: &mut Population,
    grid: &mut Grid,
    count: usize,
) -> (r: usize)
    requires
        consistent(old(pop)@, *config, old(grid)@),
        old(pop)@.death_queue.len() == 0,
        count <= old(pop)@.move_queue.len(),
        forall|k: int|
            0 <= k < count ==> valid_request(
                #[trigger] old(pop)@.move_queue[k],
                old(pop)@.size,
                old(grid)@,
            ),
    ensures
        consistent(final(pop)@, *config, final(grid)@),
        final(pop)@.death_queue.len() == 0,
        final(pop)@.movement == apply_moves(
            old(pop)@.movement,
            old(pop)@.misc,
            old(grid)@,
            old(pop)@.move_queue,
            count as nat,
        ).0,
        forall|i: int|
            0 <= i < old(pop)@.size ==> (#[trigger] final(pop)@.misc[i]).isAlive == (
            old(pop)@.misc[i].isAlive && !in_death_band(
                step as nat,
                config.steps_per_gen(),
                final(pop)@.movement[i].x as int,
                config.grid_width(),
            )),
        r == final(pop)@.living().len(),
{
    pop.resolveMoveQueue(count, grid);
    let ghost mid = pop@;
    determine_deaths(config, step, pop);
    let ghost post = pop@;
    pop.resolveDead(grid);
    proof {
        let flags = death_flags(mid, step as nat, config.steps_per_gen(), config.grid_width());
        crate::population::lemma_indices_where(flags, mid.size);
        assert(post.death_queue =~= indices_where(flags, mid.size));
        assert forall|i: int| 0 <= i < mid.size implies (#[trigger] pop@.misc[i]).isAlive == (
        mid.misc[i].isAlive && !in_death_band(
            step as nat,
            config.steps_per_gen(),
            pop@.movement[i].x as int,
            config.grid_width(),
        )) by {
            if mid.misc[i].isAlive && in_death_band(
                step as nat,
                config.steps_per_gen(),
                mid.movement[i].x as int,
                config.grid_width(),
            ) {
                assert(flags[i]);
                assert(post.death_queue.contains(i as usize));
            } else if post.death_queue.contains(i as usize) {
                let k = choose|k: int| 0 <= k < post.death_queue.len() && post.death_queue[k] == i as usize;
                assert(flags[post.death_queue[k] as int]);
            }
        }
    }
    let living = pop.getLivingIndices();
    living.len()
}

/// Whether the first `count` requests of the move queue name agents of the
/// population and cells of the grid.
pub fn requests_valid(pop: &Population, count: usize, grid: &Grid) -> (r: bool)
    ensures
        r == (count <= pop@.move_queue.len() && forall|k: int|
            0 <= k < count ==> valid_request(#[trigger] pop@.move_queue[k], pop@.size, grid@)),
{
    let size = pop.get_size();
    let (width, height) = grid.get_dimensions();
    let queue = pop.get_move_queue();
    if count > queue.len() {
        return false;
    }
    let mut k: usize = 0;
    while k < count
        invariant
            k <= count,
            count <= queue@.len(),
            queue@ == pop@.move_queue,
            size == pop@.size,
            width == grid@.width,
            height == grid@.height,
            forall|j: int|
                0 <= j < k ==> valid_request(#[trigger] queue@[j], size as nat, grid@),
        decreases count - k,
    {
        let req = queue[k];
        if !(req.0 < size && req.1.0 < width && req.1.1 < height) {
            assert(!valid_request(queue@[k as int], size as nat, grid@));
            return false;
        }
        k = k + 1;
    }
    true
}

} // verus!
