use vstd::prelude::*;

use crate::cell::TimeT;
use crate::grid::GridValueT;

verus! {

/// A mutation rate in parts per million: the chance that one gene, or one
/// oscillator period, mutates at birth.
pub type MutR = u32;

/// The rate of a certain mutation, one hundred percent.
pub const MUTATION_SCALE: MutR = 1_000_000;

/// Why a set of run parameters was rejected.
#[derive(Clone, Copy, Debug, PartialEq, Eq, Structural)]
pub enum ConfigError {
    /// A size, the genome length or the number of steps per generation is zero.
    ZeroParameter,
    /// The mutation rate is above one hundred percent.
    MutationRateOutOfRange,
    /// The grid has more cells than a `usize` counts.
    GridTooLarge,
    /// The population does not fit on the grid.
    PopulationExceedsGrid,
    /// The genes of the whole population are more than a `usize` counts.
    GenomeStoreTooLarge,
}

/// The parameters of a run, fixed once it starts.
#[derive(Clone, Copy, Debug)]
pub struct Config {
    pop_size: usize,
    genome_length: usize,
    grid_width: GridValueT,
    grid_height: GridValueT,
    mutation_rate: MutR,
    steps_per_gen: TimeT,
    is_windowing: bool,
}

impl Config {
    pub closed spec fn pop_size(&self) -> nat {
        self.pop_size as nat
    }

    pub closed spec fn genome_length(&self) -> nat {
        self.genome_length as nat
    }

    pub closed spec fn grid_width(&self) -> nat {
        self.grid_width as nat
    }

    pub closed spec fn grid_height(&self) -> nat {
        self.grid_height as nat
    }

    pub closed spec fn mutation_rate(&self) -> nat {
        self.mutation_rate as nat
    }

    pub closed spec fn steps_per_gen(&self) -> nat {
        self.steps_per_gen as nat
    }

    pub closed spec fn is_windowing(&self) -> bool {
        self.is_windowing
    }

    /// Every size is positive, the rate is at most one hundred percent, the
    /// population fits on the grid, and the grid and the genes of the whole
    /// population can be counted in a `usize`.
    pub open spec fn wf(&self) -> bool {
        &&& self.pop_size() > 0
        &&& self.genome_length() > 0
        &&& self.grid_width() > 0
        &&& self.grid_height() > 0
        &&& self.steps_per_gen() > 0
        &&& self.mutation_rate() <= MUTATION_SCALE
        &&& self.grid_width() * self.grid_height() <= usize::MAX
        &&& self.pop_size() <= self.grid_width() * self.grid_height()
        &&& self.pop_size() * self.genome_length() <= usize::MAX
    }

    /// Checks the parameters of a run; on success the configuration holds them.
    pub fn new(
        pop_size: usize,
        genome_length: usize,
        grid_width: GridValueT,
        grid_height: GridValueT,
        mutation_rate: MutR,
        steps_per_gen: TimeT,
        is_windowing: bool,
    ) -> (r: Result<Config, ConfigError>)
        ensures
            (pop_size == 0 || genome_length == 0 || grid_width == 0 || grid_height == 0
                || steps_per_gen == 0) ==> r == Err::<Config, _>(ConfigError::ZeroParameter),
            !(pop_size == 0 || genome_length == 0 || grid_width == 0 || grid_height == 0
                || steps_per_gen == 0) ==> {
                if mutation_rate > MUTATION_SCALE {
                    r == Err::<Config, _>(ConfigError::MutationRateOutOfRange)
                } else if grid_width * grid_height > usize::MAX {
                    r == Err::<Config, _>(ConfigError::GridTooLarge)
                } else if pop_size > grid_width * grid_height {
                    r == Err::<Config, _>(ConfigError::PopulationExceedsGrid)
                } else if pop_size * genome_length > usize::MAX {
                    r == Err::<Config, _>(ConfigError::GenomeStoreTooLarge)
                } else {
                    &&& r is Ok
                    &&& r->Ok_0.wf()
                    &&& r->Ok_0.pop_size() == pop_size
                    &&& r->Ok_0.genome_length() == genome_length
                    &&& r->Ok_0.grid_width() == grid_width
                    &&& r->Ok_0.grid_height() == grid_height
                    &&& r->Ok_0.mutation_rate() == mutation_rate
                    &&& r->Ok_0.steps_per_gen() == steps_per_gen
                    &&& r->Ok_0.is_windowing() == is_windowing
                }
            },
    {
        if pop_size == 0 || genome_length == 0 || grid_width == 0 || grid_height == 0
            || steps_per_gen == 0 {
            return Err(ConfigError::ZeroParameter);
        }
        if mutation_rate > MUTATION_SCALE {
            return Err(ConfigError::MutationRateOutOfRange);
        }
        let cells = match grid_width.checked_mul(grid_height) {
            Some(c) => c,
            None => {
                return Err(ConfigError::GridTooLarge);
            },
        };
        if pop_size > cells {
            return Err(ConfigError::PopulationExceedsGrid);
        }
        if pop_size.checked_mul(genome_length).is_none() {
            return Err(ConfigError::GenomeStoreTooLarge);
        }
        Ok(
            Config {
                pop_size,
                genome_length,
                grid_width,
                grid_height,
                mutation_rate,
                steps_per_gen,
                is_windowing,
            },
        )
    }

    pub fn get_pop_size(&self) -> (r: usize)
        ensures
            r == self.pop_size(),
    {
        self.pop_size
    }

    pub fn get_genome_size(&self) -> (r: usize)
        ensures
            r == self.genome_length(),
    {
        self.genome_length
    }

    pub fn get_grid_width(&self) -> (r: GridValueT)
        ensures
            r == self.grid_width(),
    {
        self.grid_width
    }

    pub fn get_grid_height(&self) -> (r: GridValueT)
        ensures
            r == self.grid_height(),
    {
        self.grid_height
    }

    pub fn get_mutation_rate(&self) -> (r: MutR)
        ensures
            r == self.mutation_rate(),
    {
        self.mutation_rate
    }

    pub fn get_steps_per_gen(&self) -> (r: TimeT)
        ensures
            r == self.steps_per_gen(),
    {
        self.steps_per_gen
    }

    pub fn set_pop_size(&mut self, popSize: usize)
        requires
            old(self).wf(),
            popSize > 0,
            popSize <= old(self).grid_width() * old(self).grid_height(),
            popSize * old(self).genome_length() <= usize::MAX,
        ensures
            final(self).genome_length() == old(self).genome_length(),
            final(self).grid_width() == old(self).grid_width(),
            final(self).grid_height() == old(self).grid_height(),
            final(self).mutation_rate() == old(self).mutation_rate(),
            final(self).steps_per_gen() == old(self).steps_per_gen(),
            final(self).is_windowing() == old(self).is_windowing(),
            final(self).pop_size() == popSize,
            final(self).wf(),
    {
        self.pop_size = popSize;
    }

    pub fn set_genome_length(&mut self, genomeLength: usize)
        requires
            old(self).wf(),
            genomeLength > 0,
            old(self).pop_size() * genomeLength <= usize::MAX,
        ensures
            final(self).pop_size() == old(self).pop_size(),
            final(self).grid_width() == old(self).grid_width(),
            final(self).grid_height() == old(self).grid_height(),
            final(self).mutation_rate() == old(self).mutation_rate(),
            final(self).steps_per_gen() == old(self).steps_per_gen(),
            final(self).is_windowing() == old(self).is_windowing(),
            final(self).genome_length() == genomeLength,
            final(self).wf(),
    {
        self.genome_length = genomeLength;
    }

    pub fn set_grid_width(&mut self, gridWidth: usize)
        requires
            old(self).wf(),
            gridWidth > 0,
            gridWidth * old(self).grid_height() <= usize::MAX,
            old(self).pop_size() <= gridWidth * old(self).grid_height(),
        ensures
            final(self).pop_size() == old(self).pop_size(),
            final(self).genome_length() == old(self).genome_length(),
            final(self).grid_height() == old(self).grid_height(),
            final(self).mutation_rate() == old(self).mutation_rate(),
            final(self).steps_per_gen() == old(self).steps_per_gen(),
            final(self).is_windowing() == old(self).is_windowing(),
            final(self).grid_width() == gridWidth,
            final(self).wf(),
    {
        self.grid_width = gridWidth;
    }

    pub fn set_grid_height(&mut self, gridHeight: usize)
        requires
            old(self).wf(),
            gridHeight > 0,
            old(self).grid_width() * gridHeight <= usize::MAX,
            old(self).pop_size() <= old(self).grid_width() * gridHeight,
        ensures
            final(self).pop_size() == old(self).pop_size(),
            final(self).genome_length() == old(self).genome_length(),
            final(self).grid_width() == old(self).grid_width(),
            final(self).mutation_rate() == old(self).mutation_rate(),
            final(self).steps_per_gen() == old(self).steps_per_gen(),
            final(self).is_windowing() == old(self).is_windowing(),
            final(self).grid_height() == gridHeight,
            final(self).wf(),
    {
        self.grid_height = gridHeight;
    }

    pub fn set_steps_per_gen(&mut self, stepsPerGen: TimeT)
        requires
            old(self).wf(),
            stepsPerGen > 0,
        ensures
            final(self).pop_size() == old(self).pop_size(),
            final(self).genome_length() == old(self).genome_length(),
            final(self).grid_width() == old(self).grid_width(),
            final(self).grid_height() == old(self).grid_height(),
            final(self).mutation_rate() == old(self).mutation_rate(),
            final(self).is_windowing() == old(self).is_windowing(),
            final(self).steps_per_gen() == stepsPerGen,
            final(self).wf(),
    {
        self.steps_per_gen = stepsPerGen;
    }

    pub fn set_mutation_rate(&mut self, mutationRate: MutR)
        requires
            old(self).wf(),
            mutationRate <= MUTATION_SCALE,
        ensures
            final(self).pop_size() == old(self).pop_size(),
            final(self).genome_length() == old(self).genome_length(),
            final(self).grid_width() == old(self).grid_width(),
            final(self).grid_height() == old(self).grid_height(),
            final(self).steps_per_gen() == old(self).steps_per_gen(),
            final(self).is_windowing() == old(self).is_windowing(),
            final(self).mutation_rate() == mutationRate,
            final(self).wf(),
    {
        self.mutation_rate = mutationRate;
    }

    pub fn get_is_windowing(&self) -> (r: bool)
        ensures
            r == self.is_windowing(),
    {
        self.is_windowing
    }
}

impl Default for Config {
    /// 4000 agents with 20 genes on a 200 by 200 grid, a mutation rate of one
    /// in a thousand, 250 steps per generation, no window.
    fn default() -> (r: Config)
        ensures
            r.wf(),
            r.pop_size() == 4000,
            r.genome_length() == 20,
            r.grid_width() == 200,
            r.grid_height() == 200,
            r.mutation_rate() == 1000,
            r.steps_per_gen() == 250,
            !r.is_windowing(),
    {
        Config {
            pop_size: 4000,
            genome_length: 20,
            grid_width: 200,
            grid_height: 200,
            mutation_rate: 1000,
            steps_per_gen: 250,
            is_windowing: false,
        }
    }
}

} // verus!
