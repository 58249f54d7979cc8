use rand::rngs::StdRng;
use vstd::prelude::*;

use crate::arena::{lemma_genome_len, HeritableArena};
use crate::config::{MutR, MUTATION_SCALE};
use crate::gene::{head_node_index, is_inner_index, is_input_index, normalized, tail_node_index, Gene};
use crate::grid::GridValueT;
use crate::neuron::NeuralNet;
use crate::random::{draw_below, draw_usize};

verus! {

pub type TimeT = usize;

/// The eight headings an agent can have, clockwise from north.
#[derive(Clone, Copy, Debug, PartialEq, Eq, Structural)]
pub enum Direction {
    North,
    NorthEast,
    East,
    SouthEast,
    South,
    SouthWest,
    West,
    NorthWest,
}

/// The step that a heading stands for; north is `+y`, east is `+x`.
pub open spec fn dir_offset(d: Direction) -> (int, int) {
    match d {
        Direction::North => (0, 1),
        Direction::NorthEast => (1, 1),
        Direction::East => (1, 0),
        Direction::SouthEast => (1, -1),
        Direction::South => (0, -1),
        Direction::SouthWest => (-1, -1),
        Direction::West => (-1, 0),
        Direction::NorthWest => (-1, 1),
    }
}

/// A one-cell step in any of the eight headings.
pub open spec fn is_step_offset(dx: int, dy: int) -> bool {
    -1 <= dx <= 1 && -1 <= dy <= 1 && !(dx == 0 && dy == 0)
}

/// The heading of a one-cell step.
pub open spec fn offset_dir(dx: int, dy: int) -> Direction {
    if dx == 0 && dy == 1 {
        Direction::North
    } else if dx == 1 && dy == 1 {
        Direction::NorthEast
    } else if dx == 1 && dy == 0 {
        Direction::East
    } else if dx == 1 && dy == -1 {
        Direction::SouthEast
    } else if dx == 0 && dy == -1 {
        Direction::South
    } else if dx == -1 && dy == -1 {
        Direction::SouthWest
    } else if dx == -1 && dy == 0 {
        Direction::West
    } else {
        Direction::NorthWest
    }
}

/// The sign of a coordinate difference: `-1`, `0` or `1`.
pub open spec fn sign(v: int) -> int {
    if v > 0 {
        1
    } else if v < 0 {
        -1
    } else {
        0
    }
}

/// `offset_dir` names the heading whose step is the given one.
pub proof fn lemma_offset_dir(dx: int, dy: int)
    requires
        is_step_offset(dx, dy),
    ensures
        dir_offset(offset_dir(dx, dy)) == (dx, dy),
        forall|d: Direction| dir_offset(d) == (dx, dy) ==> d == offset_dir(dx, dy),
{
}

impl Direction {
    /// The step of this heading.
    pub fn get_move_offset(&self) -> (r: (isize, isize))
        ensures
            (r.0 as int, r.1 as int) == dir_offset(*self),
    {
        match *self {
            Direction::North => (0, 1),
            Direction::NorthEast => (1, 1),
            Direction::East => (1, 0),
            Direction::SouthEast => (1, -1),
            Direction::South => (0, -1),
            Direction::SouthWest => (-1, -1),
            Direction::West => (-1, 0),
            Direction::NorthWest => (-1, 1),
        }
    }

    /// A heading drawn uniformly from the eight.
    pub fn get_random(rng: &mut StdRng) -> (r: Direction) {
        match draw_below(rng, 8) {
            0 => Direction::North,
            1 => Direction::NorthEast,
            2 => Direction::East,
            3 => Direction::SouthEast,
            4 => Direction::South,
            5 => Direction::SouthWest,
            6 => Direction::West,
            _ => Direction::NorthWest,
        }
    }

    /// The heading of a one-cell step.
    pub fn get_dir_from_offset(offset: (isize, isize)) -> (r: Direction)
        requires
            is_step_offset(offset.0 as int, offset.1 as int),
        ensures
            dir_offset(r) == (offset.0 as int, offset.1 as int),
    {
        match offset {
            (0, 1) => Direction::North,
            (1, 1) => Direction::NorthEast,
            (1, 0) => Direction::East,
            (1, -1) => Direction::SouthEast,
            (0, -1) => Direction::South,
            (-1, -1) => Direction::SouthWest,
            (-1, 0) => Direction::West,
            _ => Direction::NorthWest,
        }
    }

    /// A quarter turn counter-clockwise: `(dx, dy)` becomes `(-dy, dx)`.
    pub fn rotateCCW90(&self) -> (r: Direction)
        ensures
            dir_offset(r) == (-dir_offset(*self).1, dir_offset(*self).0),
    {
        match *self {
            Direction::North => Direction::West,
            Direction::NorthEast => Direction::NorthWest,
            Direction::East => Direction::North,
            Direction::SouthEast => Direction::NorthEast,
            Direction::South => Direction::East,
            Direction::SouthWest => Direction::SouthEast,
            Direction::West => Direction::South,
            Direction::NorthWest => Direction::SouthWest,
        }
    }

    /// A quarter turn clockwise: `(dx, dy)` becomes `(dy, -dx)`.
    pub fn rotateCW90(&self) -> (r: Direction)
        ensures
            dir_offset(r) == (dir_offset(*self).1, -dir_offset(*self).0),
    {
        match *self {
            Direction::West => Direction::North,
            Direction::NorthWest => Direction::NorthEast,
            Direction::North => Direction::East,
            Direction::NorthEast => Direction::SouthEast,
            Direction::East => Direction::South,
            Direction::SouthEast => Direction::SouthWest,
            Direction::South => Direction::West,
            Direction::SouthWest => Direction::NorthWest,
        }
    }

    /// A half turn: `(dx, dy)` becomes `(-dx, -dy)`.
    pub fn rotate180(&self) -> (r: Direction)
        ensures
            dir_offset(r) == (-dir_offset(*self).0, -dir_offset(*self).1),
    {
        match *self {
            Direction::North => Direction::South,
            Direction::NorthEast => Direction::SouthWest,
            Direction::East => Direction::West,
            Direction::SouthEast => Direction::NorthWest,
            Direction::South => Direction::North,
            Direction::SouthWest => Direction::NorthEast,
            Direction::West => Direction::East,
            Direction::NorthWest => Direction::SouthEast,
        }
    }
}

/// Where an agent stands and the heading of its last move.
#[derive(Clone, Copy, Debug, PartialEq, Eq, Structural)]
pub struct MovementData {
    pub x: GridValueT,
    pub y: GridValueT,
    pub lastMoveDir: Direction,
}

impl MovementData {
    pub fn new(x: GridValueT, y: GridValueT, dir: Direction) -> (r: MovementData)
        ensures
            r == (MovementData { x, y, lastMoveDir: dir }),
    {
        MovementData { x, y, lastMoveDir: dir }
    }

    pub fn getCoords(&self) -> (r: (GridValueT, GridValueT))
        ensures
            r == (self.x, self.y),
    {
        (self.x, self.y)
    }

    pub fn setCoords(&mut self, coords: (GridValueT, GridValueT))
        ensures
            *final(self) == (MovementData { x: coords.0, y: coords.1, ..*old(self) }),
    {
        self.x = coords.0;
        self.y = coords.1;
    }
}

/// An agent's network wiring.
#[derive(Debug)]
pub struct NeuronData {
    neural_net: NeuralNet,
}

impl NeuronData {
    pub fn new(neural_net: NeuralNet) -> (r: NeuronData)
        ensures
            r.net() == neural_net,
    {
        NeuronData { neural_net }
    }

    pub closed spec fn net(&self) -> NeuralNet {
        self.neural_net
    }

    pub fn get_net(&self) -> (r: &NeuralNet)
        ensures
            *r == self.net(),
    {
        &self.neural_net
    }
}

/// An agent's colour and whether it is alive.
#[derive(Clone, Copy, Debug)]
pub struct MiscData {
    pub color: (u8, u8, u8),
    pub isAlive: bool,
}

impl MiscData {
    /// A living agent with the colour of its genome.
    pub fn new(genome: &[Gene]) -> (r: MiscData)
        requires
            genome@.len() > 0,
        ensures
            r.isAlive,
            r.color == color_of(genome@.first().gene, genome@.last().gene),
    {
        MiscData { color: createColor(genome), isAlive: true }
    }
}

/// What an agent passes on besides its genome.
#[derive(Clone, Copy, Debug, PartialEq, Eq, Structural)]
pub struct HeritableData {
    oscillatorPeriod: TimeT,
}

impl HeritableData {
    pub open spec fn period(&self) -> nat {
        self.get_oscillator_spec() as nat
    }

    pub closed spec fn get_oscillator_spec(&self) -> usize {
        self.oscillatorPeriod
    }

    pub fn new(period: TimeT) -> (r: HeritableData)
        ensures
            r.period() == period,
            r.get_oscillator_spec() == period,
    {
        HeritableData { oscillatorPeriod: period }
    }

    pub fn get_oscillator(&self) -> (r: usize)
        ensures
            r == self.period(),
            r == self.get_oscillator_spec(),
    {
        self.oscillatorPeriod
    }
}

impl Default for HeritableData {
    fn default() -> (r: HeritableData)
        ensures
            r.period() == 0,
    {
        HeritableData { oscillatorPeriod: 0 }
    }
}

/// Brings an oscillator period below the number of steps in a generation.
pub fn normalize_oscillator(period: TimeT, steps_per_gen: TimeT) -> (r: TimeT)
    requires
        steps_per_gen > 0,
    ensures
        r == period % steps_per_gen,
        r < steps_per_gen,
{
    period % steps_per_gen
}

pub open spec fn bit_of(b: bool) -> nat {
    if b {
        1
    } else {
        0
    }
}

/// Eight bits read off the first and the last gene of a genome.
pub open spec fn color_code(first: u32, last: u32) -> nat {
    bit_of(is_input_index(head_node_index(first))) + 2 * bit_of(
        is_input_index(head_node_index(last)),
    ) + 4 * bit_of(is_inner_index(tail_node_index(first))) + 8 * bit_of(
        is_inner_index(tail_node_index(last)),
    ) + 16 * (head_node_index(first) % 2) + 32 * (tail_node_index(first) % 2) + 64 * (
    head_node_index(last) % 2) + 128 * (tail_node_index(last) % 2)
}

pub const MAX_COLOR_VAL: u32 = 0xb0;

pub const MAX_LUMA_VAL: u32 = 0xb0;

pub open spec fn dim_channel(v: nat) -> nat {
    if v > MAX_COLOR_VAL {
        v % MAX_COLOR_VAL as nat
    } else {
        v
    }
}

/// The colour of a genome with the given first and last gene: red is the code,
/// green its low five bits shifted up by three, blue its low three bits shifted
/// up by five; a colour brighter than the luma limit has each channel above the
/// limit taken modulo the limit.
pub open spec fn color_of(first: u32, last: u32) -> (u8, u8, u8) {
    let r = color_code(first, last);
    let g = (r % 32) * 8;
    let b = (r % 8) * 32;
    if (r * 3 + g + b * 4) / 8 > MAX_LUMA_VAL {
        (dim_channel(r) as u8, dim_channel(g) as u8, dim_channel(b) as u8)
    } else {
        (r as u8, g as u8, b as u8)
    }
}

fn bit_value(b: bool) -> (r: u32)
    ensures
        r == bit_of(b),
{
    if b {
        1
    } else {
        0
    }
}

fn dim(v: u32) -> (r: u32)
    ensures
        r == dim_channel(v as nat),
{
    if v > MAX_COLOR_VAL {
        v % MAX_COLOR_VAL
    } else {
        v
    }
}

/// The display colour of a genome.
pub fn createColor(genome: &[Gene]) -> (r: (u8, u8, u8))
    requires
        genome@.len() > 0,
    ensures
        r == color_of(genome@.first().gene, genome@.last().gene),
{
    let c = color_bits(genome[0], genome[genome.len() - 1]);
    let g = (c % 32) * 8;
    let b = (c % 8) * 32;
    if (c * 3 + g + b * 4) / 8 > MAX_LUMA_VAL {
        (dim(c) as u8, dim(g) as u8, dim(b) as u8)
    } else {
        (c as u8, g as u8, b as u8)
    }
}

fn color_bits(first: Gene, last: Gene) -> (c: u32)
    ensures
        c == color_code(first.gene, last.gene),
        c < 256,
{
    bit_value(first.get_head_node_id().is_input()) + 2 * bit_value(
        last.get_head_node_id().is_input(),
    ) + 4 * bit_value(first.get_tail_node_id().is_inner()) + 8 * bit_value(
        last.get_tail_node_id().is_inner(),
    ) + 16 * (first.get_head_node_id().get_index() % 2) as u32 + 32 * (
    first.get_tail_node_id().get_index() % 2) as u32 + 64 * (last.get_head_node_id().get_index()
        % 2) as u32 + 128 * (last.get_tail_node_id().get_index() % 2) as u32
}


/// `child` is `parent` with one of its 32 bits flipped, then normalized.
pub open spec fn is_gene_mutant(child: Gene, parent: Gene) -> bool {
    exists|b: u32| b < 32 && #[trigger] normalized(parent.gene ^ (1u32 << b)) == child.gene
}

/// What a gene can become at birth under a mutation rate: a copy, or a mutant;
/// never a mutant at rate zero, always one at one hundred percent.
pub open spec fn is_gene_offspring(child: Gene, parent: Gene, rate: nat) -> bool {
    if rate == 0 {
        child == parent
    } else if rate >= MUTATION_SCALE {
        is_gene_mutant(child, parent)
    } else {
        child == parent || is_gene_mutant(child, parent)
    }
}

/// `child` is the period `parent` with one of its low 32 bits flipped, brought
/// below `steps_per_gen`.
pub open spec fn is_period_mutant(child: nat, parent: usize, steps_per_gen: nat) -> bool {
    exists|b: usize| b < 32 && #[trigger] ((parent ^ (1usize << b)) as nat % steps_per_gen) == child
}

/// What an oscillator period can become at birth, by the same rule as a gene.
pub open spec fn is_period_offspring(child: nat, parent: usize, rate: nat, steps_per_gen: nat) -> bool {
    if rate == 0 {
        child == parent as nat % steps_per_gen
    } else if rate >= MUTATION_SCALE {
        is_period_mutant(child, parent, steps_per_gen)
    } else {
        child == parent as nat % steps_per_gen || is_period_mutant(child, parent, steps_per_gen)
    }
}

/// A record as it can be passed on: genome and period, each gene and the
/// period mutated independently at the rate's chance.
pub open spec fn is_record_offspring(
    child_genome: Seq<Gene>,
    child_header: HeritableData,
    parent_genome: Seq<Gene>,
    parent_header: HeritableData,
    rate: nat,
    steps_per_gen: nat,
) -> bool {
    &&& child_genome.len() == parent_genome.len()
    &&& forall|k: int|
        0 <= k < parent_genome.len() ==> is_gene_offspring(
            #[trigger] child_genome[k],
            parent_genome[k],
            rate,
        )
    &&& is_period_offspring(
        child_header.period(),
        parent_header.get_oscillator_spec(),
        rate,
        steps_per_gen,
    )
}

/// Draws whether a mutation happens: with probability `rate` in a million.
fn mutation_fires(rate: MutR, rng: &mut StdRng) -> (r: bool)
    ensures
        rate == 0 ==> !r,
        rate >= MUTATION_SCALE ==> r,
{
    let draw = draw_below(rng, MUTATION_SCALE as usize);
    (draw as u32) < rate
}

/// A gene as it is passed on: at the rate's chance one random bit flips.
pub fn mutate_gene(gene: Gene, rate: MutR, rng: &mut StdRng) -> (r: Gene)
    ensures
        is_gene_offspring(r, gene, rate as nat),
{
    if mutation_fires(rate, rng) {
        let bit = draw_below(rng, 32) as u32;
        let r = Gene::new(gene.gene ^ (1u32 << bit));
        assert(normalized(gene.gene ^ (1u32 << bit)) == r.gene);
        r
    } else {
        gene
    }
}

/// An oscillator period as it is passed on: at the rate's chance one of its
/// low 32 bits flips; the result is brought below `steps_per_gen`.
pub fn mutate_period(period: TimeT, rate: MutR, steps_per_gen: TimeT, rng: &mut StdRng) -> (r:
    TimeT)
    requires
        steps_per_gen > 0,
    ensures
        is_period_offspring(r as nat, period, rate as nat, steps_per_gen as nat),
        r < steps_per_gen,
{
    if mutation_fires(rate, rng) {
        let bit = draw_below(rng, 32);
        let flipped = period ^ (1usize << bit);
        let r = normalize_oscillator(flipped, steps_per_gen);
        assert(((period ^ (1usize << bit)) as nat % steps_per_gen as nat) == r as nat);
        r
    } else {
        normalize_oscillator(period, steps_per_gen)
    }
}

/// Fills record `index` with random genes and a random oscillator period below
/// `steps_per_gen`; every other record stays.
pub fn gen_random_other(
    arena: &mut HeritableArena,
    index: usize,
    rng: &mut StdRng,
    steps_per_gen: TimeT,
)
    requires
        old(arena)@.wf(),
        index < old(arena)@.len(),
        steps_per_gen > 0,
    ensures
        final(arena)@.wf(),
        final(arena)@.same_shape(old(arena)@),
        forall|k: int|
            0 <= k < final(arena)@.genome_length ==> (#[trigger] final(arena)@.genome(
                index as int,
            )[k]).is_normalized(),
        final(arena)@.headers[index as int].period() < steps_per_gen,
        forall|j: int|
            0 <= j < old(arena)@.len() && j != index ==> final(arena)@.genome(j) == old(
                arena,
            )@.genome(j) && final(arena)@.headers[j] == old(arena)@.headers[j],
{
    let l = arena.genome_length();
    let mut k: usize = 0;
    while k < l
        invariant
            k <= l,
            l == arena@.genome_length,
            arena@.wf(),
            arena@.same_shape(old(arena)@),
            arena@.headers == old(arena)@.headers,
            index < arena@.len(),
            forall|i: int| 0 <= i < k ==> (#[trigger] arena@.genome(index as int)[i]).is_normalized(),
            forall|j: int|
                0 <= j < old(arena)@.len() && j != index ==> arena@.genome(j) == old(
                    arena,
                )@.genome(j),
        decreases l - k,
    {
        proof {
            lemma_genome_len(arena@, index as int);
        }
        let g = Gene::new_random(rng);
        arena.write_gene(index, k, g);
        proof {
            lemma_genome_len(arena@, index as int);
        }
        k = k + 1;
    }
    proof {
        lemma_genome_len(arena@, index as int);
    }
    let period = normalize_oscillator(draw_usize(rng), steps_per_gen);
    arena.write_header(index, HeritableData::new(period));
}

/// Writes into record `child_index` of `child` the record `parent_index` of
/// `parent` as it is passed on: each gene and the oscillator period mutate
/// independently at the rate's chance, and the period is brought below
/// `steps_per_gen`. Every other record of `child` stays.
pub fn asexuallyReproduce(
    parent: &HeritableArena,
    parent_index: usize,
    child: &mut HeritableArena,
    child_index: usize,
    steps_per_gen: TimeT,
    mutation_rate: MutR,
    rng: &mut StdRng,
)
    requires
        parent@.wf(),
        old(child)@.wf(),
        parent@.genome_length == old(child)@.genome_length,
        parent_index < parent@.len(),
        child_index < old(child)@.len(),
        steps_per_gen > 0,
    ensures
        final(child)@.wf(),
        final(child)@.same_shape(old(child)@),
        is_record_offspring(
            final(child)@.genome(child_index as int),
            final(child)@.headers[child_index as int],
            parent@.genome(parent_index as int),
            parent@.headers[parent_index as int],
            mutation_rate as nat,
            steps_per_gen as nat,
        ),
        final(child)@.headers[child_index as int].period() < steps_per_gen,
        forall|j: int|
            0 <= j < old(child)@.len() && j != child_index ==> final(child)@.genome(j) == old(
                child,
            )@.genome(j) && final(child)@.headers[j] == old(child)@.headers[j],
{
    let l = child.genome_length();
    let genome = parent.get_genome(parent_index);
    let mut k: usize = 0;
    while k < l
        invariant
            k <= l,
            l == child@.genome_length,
            l == parent@.genome_length,
            genome@ == parent@.genome(parent_index as int),
            parent@.wf(),
            parent_index < parent@.len(),
            child@.wf(),
            child@.same_shape(old(child)@),
            child@.headers == old(child)@.headers,
            child_index < child@.len(),
            forall|i: int|
                0 <= i < k ==> is_gene_offspring(
                    #[trigger] child@.genome(child_index as int)[i],
                    parent@.genome(parent_index as int)[i],
                    mutation_rate as nat,
                ),
            forall|j: int|
                0 <= j < old(child)@.len() && j != child_index ==> child@.genome(j) == old(
                    child,
                )@.genome(j),
        decreases l - k,
    {
        proof {
            crate::arena::lemma_record_bounds(
                parent@.len() as int,
                l as int,
                parent_index as int,
                parent_index as int,
            );
        }
        proof {
            lemma_genome_len(child@, child_index as int);
        }
        let g = mutate_gene(genome[k], mutation_rate, rng);
        child.write_gene(child_index, k, g);
        proof {
            lemma_genome_len(child@, child_index as int);
        }
        k = k + 1;
    }
    proof {
        lemma_genome_len(child@, child_index as int);
        lemma_genome_len(parent@, parent_index as int);
    }
    let header = parent.get_header(parent_index);
    let period = mutate_period(header.get_oscillator(), mutation_rate, steps_per_gen, rng);
    child.write_header(child_index, HeritableData::new(period));
}

/// `child` is `parent` with one of its 32 bits flipped, with no normalization.
pub open spec fn is_raw_mutant(child: Gene, parent: Gene) -> bool {
    exists|b: u32| b < 32 && #[trigger] (parent.gene ^ (1u32 << b)) == child.gene
}

/// Two-parent recombination into record `child_index` of `child`. For each gene
/// a parent is drawn by a fair coin; when a mutation fires, the gene becomes that
/// parent's gene with one random bit flipped, and otherwise it keeps its current
/// value. The period is drawn from one parent, mutates at the rate's chance and
/// is brought below `steps_per_gen`. Every other record of `child` stays.
pub fn sexuallyReproduce(
    parent_1: &HeritableArena,
    index_1: usize,
    parent_2: &HeritableArena,
    index_2: usize,
    child: &mut HeritableArena,
    child_index: usize,
    steps_per_gen: TimeT,
    mutation_rate: MutR,
    rng: &mut StdRng,
)
    requires
        parent_1@.wf(),
        parent_2@.wf(),
        old(child)@.wf(),
        parent_1@.genome_length == old(child)@.genome_length,
        parent_2@.genome_length == old(child)@.genome_length,
        index_1 < parent_1@.len(),
        index_2 < parent_2@.len(),
        child_index < old(child)@.len(),
        steps_per_gen > 0,
    ensures
        final(child)@.wf(),
        final(child)@.same_shape(old(child)@),
        forall|k: int|
            0 <= k < old(child)@.genome_length ==> {
                let g = #[trigger] final(child)@.genome(child_index as int)[k];
                ||| g == old(child)@.genome(child_index as int)[k]
                ||| is_raw_mutant(g, parent_1@.genome(index_1 as int)[k])
                ||| is_raw_mutant(g, parent_2@.genome(index_2 as int)[k])
            },
        mutation_rate == 0 ==> final(child)@.genome(child_index as int) == old(child)@.genome(
            child_index as int,
        ),
        is_period_offspring(
            final(child)@.headers[child_index as int].period(),
            parent_1@.headers[index_1 as int].get_oscillator_spec(),
            mutation_rate as nat,
            steps_per_gen as nat,
        ) || is_period_offspring(
            final(child)@.headers[child_index as int].period(),
            parent_2@.headers[index_2 as int].get_oscillator_spec(),
            mutation_rate as nat,
            steps_per_gen as nat,
        ),
        final(child)@.headers[child_index as int].period() < steps_per_gen,
        forall|j: int|
            0 <= j < old(child)@.len() && j != child_index ==> final(child)@.genome(j) == old(
                child,
            )@.genome(j) && final(child)@.headers[j] == old(child)@.headers[j],
{
    let l = child.genome_length();
    let genome_1 = parent_1.get_genome(index_1);
    let genome_2 = parent_2.get_genome(index_2);
    proof {
        lemma_genome_len(parent_1@, index_1 as int);
        lemma_genome_len(parent_2@, index_2 as int);
        lemma_genome_len(child@, child_index as int);
    }
    let mut k: usize = 0;
    while k < l
        invariant
            k <= l,
            l == child@.genome_length,
            genome_1@ == parent_1@.genome(index_1 as int),
            genome_2@ == parent_2@.genome(index_2 as int),
            genome_1@.len() == l,
            genome_2@.len() == l,
            child@.wf(),
            child@.same_shape(old(child)@),
            child@.headers == old(child)@.headers,
            child_index < child@.len(),
            child@.genome(child_index as int).len() == l,
            forall|i: int|
                0 <= i < k ==> {
                    let g = #[trigger] child@.genome(child_index as int)[i];
                    ||| g == old(child)@.genome(child_index as int)[i]
                    ||| is_raw_mutant(g, genome_1@[i])
                    ||| is_raw_mutant(g, genome_2@[i])
                },
            forall|i: int|
                k <= i < l ==> #[trigger] child@.genome(child_index as int)[i] == old(
                    child,
                )@.genome(child_index as int)[i],
            mutation_rate == 0 ==> child@.genome(child_index as int) == old(child)@.genome(
                child_index as int,
            ),
            forall|j: int|
                0 <= j < old(child)@.len() && j != child_index ==> child@.genome(j) == old(
                    child,
                )@.genome(j),
        decreases l - k,
    {
        let from_first = draw_below(rng, 2) == 0;
        if mutation_fires(mutation_rate, rng) {
            let bit = draw_below(rng, 32) as u32;
            let source = if from_first {
                genome_1[k]
            } else {
                genome_2[k]
            };
            let g = source.flip_bits(1u32 << bit);
            assert((source.gene ^ (1u32 << bit)) == g.gene);
            child.write_gene(child_index, k, g);
            proof {
                lemma_genome_len(child@, child_index as int);
            }
        }
        k = k + 1;
    }
    let header = if draw_below(rng, 2) == 0 {
        parent_1.get_header(index_1)
    } else {
        parent_2.get_header(index_2)
    };
    let period = mutate_period(header.get_oscillator(), mutation_rate, steps_per_gen, rng);
    child.write_header(child_index, HeritableData::new(period));
}

} // verus!
