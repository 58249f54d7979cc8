use evolution_sim::arena::HeritableArena;
use evolution_sim::cell::{Direction, MovementData};
use evolution_sim::config::Config;
use evolution_sim::engine::{
    chunk_len, determine_deaths, determine_reproducers, move_target, next_generation,
    oscillator_input, partition_chunks, requests_valid, resolve_step, split_or_get,
    GenerationError,
};
use evolution_sim::grid::Grid;
use evolution_sim::population::Population;
use rand::rngs::StdRng;
use rand::{Rng, SeedableRng};

fn config(pop: usize, genes: usize, w: usize, h: usize, rate: u32, spg: usize) -> Config {
    Config::new(pop, genes, w, h, rate, spg, false).unwrap()
}

/// A population whose agents stand on the given cells, found by trying seeds.
fn population_at(c: &Config, cells: &[(usize, usize)]) -> (Population, Grid) {
    for seed in 0..1_000_000u64 {
        let mut grid = Grid::new(c.get_grid_width(), c.get_grid_height());
        let mut rng = StdRng::seed_from_u64(seed);
        let pop = Population::new(c, &mut grid, &mut rng);
        if (0..cells.len()).all(|i| pop.getCellMovementData(i).getCoords() == cells[i]) {
            return (pop, grid);
        }
    }
    panic!("no seed places the agents there");
}

fn positions(pop: &Population) -> Vec<(usize, usize)> {
    (0..pop.get_size()).map(|i| pop.getCellMovementData(i).getCoords()).collect()
}

#[test]
fn chunks_cover_the_living_in_order() {
    assert_eq!(chunk_len(10, 3), 3);
    assert_eq!(chunk_len(8, 3), 2);
    assert_eq!(chunk_len(0, 3), 0);
    assert_eq!(chunk_len(5, 0), 5);
    assert_eq!(partition_chunks(10, 3), vec![(0, 3), (3, 6), (6, 9), (9, 10)]);
    assert_eq!(partition_chunks(8, 3), vec![(0, 2), (2, 4), (4, 6), (6, 8)]);
    assert_eq!(partition_chunks(2, 7), vec![(0, 1), (1, 2)]);
    assert_eq!(partition_chunks(5, 0), vec![(0, 5)]);
    assert_eq!(partition_chunks(0, 4), vec![]);
}

#[test]
fn oscillator_flips_every_period() {
    assert_eq!(oscillator_input(0, 3), -1);
    assert_eq!(oscillator_input(2, 3), -1);
    assert_eq!(oscillator_input(3, 3), 1);
    assert_eq!(oscillator_input(5, 3), 1);
    assert_eq!(oscillator_input(6, 3), -1);
    assert_eq!(oscillator_input(0, 0), -1);
    assert_eq!(oscillator_input(4, 0), 1);
}

#[test]
fn move_targets_stay_inside() {
    let m = MovementData::new(3, 0, Direction::North);
    assert_eq!(move_target(&m, 1, 1, 4, 4), (3, 1));
    assert_eq!(move_target(&m, -1, -1, 4, 4), (2, 0));
    assert_eq!(move_target(&m, 0, 0, 4, 4), (3, 0));
    let m = MovementData::new(0, 3, Direction::North);
    assert_eq!(move_target(&m, -1, 1, 4, 4), (0, 3));
    assert_eq!(move_target(&m, 1, -1, 4, 4), (1, 2));
}

#[test]
fn everyone_moving_east_on_a_small_grid() {
    let c = config(4, 4, 4, 4, 0, 10);
    for seed in 0..40u64 {
        let mut grid = Grid::new(4, 4);
        let mut rng = StdRng::seed_from_u64(seed);
        let mut pop = Population::new(&c, &mut grid, &mut rng);
        let before = positions(&pop);
        let living = pop.getLivingIndices();
        for (k, i) in living.iter().enumerate() {
            let target = move_target(pop.getCellMovementData(*i), 1, 0, 4, 4);
            pop.getMutMoveQueue()[k] = (*i, target);
        }
        assert!(requests_valid(&pop, living.len(), &grid));
        let alive = resolve_step(&c, 1, &mut pop, &mut grid, living.len());
        assert_eq!(alive, 4);
        let mut taken: Vec<(usize, usize)> = before.clone();
        for i in 0..4 {
            let (x, y) = before[i];
            let expected = if x < 3 && !taken.contains(&(x + 1, y)) { (x + 1, y) } else { (x, y) };
            assert_eq!(pop.getCellMovementData(i).getCoords(), expected);
            taken[i] = expected;
            if expected != (x, y) {
                assert_eq!(pop.getCellMovementData(i).lastMoveDir, Direction::East);
            }
        }
    }
}

#[test]
fn fixed_arrangement_moving_east() {
    let c = config(4, 1, 4, 4, 0, 10);
    let (mut pop, mut grid) = population_at(&c, &[(0, 0), (1, 0), (3, 1), (2, 2)]);
    for i in 0..4 {
        let target = move_target(pop.getCellMovementData(i), 1, 0, 4, 4);
        pop.getMutMoveQueue()[i] = (i, target);
    }
    pop.resolveMoveQueue(4, &mut grid);
    assert_eq!(positions(&pop), vec![(0, 0), (2, 0), (3, 1), (3, 2)]);
    assert_eq!(grid.get_occupant(2, 0), Some(1));
    assert_eq!(grid.get_occupant(1, 0), None);
}

#[test]
fn two_agents_want_the_same_cell() {
    let c = config(2, 1, 3, 3, 0, 10);
    let (mut pop, mut grid) = population_at(&c, &[(0, 1), (2, 2)]);
    pop.getMutMoveQueue()[0] = (0, (1, 1));
    pop.getMutMoveQueue()[1] = (1, (1, 1));
    pop.resolveMoveQueue(2, &mut grid);
    assert_eq!(pop.getCellMovementData(0).getCoords(), (1, 1));
    assert_eq!(pop.getCellMovementData(0).lastMoveDir, Direction::East);
    assert_eq!(pop.getCellMovementData(1).getCoords(), (1, 2));
    assert_eq!(pop.getCellMovementData(1).lastMoveDir, Direction::West);
    assert_eq!(grid.get_occupant(1, 1), Some(0));
    assert_eq!(grid.get_occupant(1, 2), Some(1));
    assert_eq!(grid.get_occupant(2, 2), None);
}

#[test]
fn blocked_on_both_axes_stays_put() {
    let c = config(4, 1, 3, 3, 0, 10);
    let (mut pop, mut grid) = population_at(&c, &[(0, 0), (1, 1), (1, 0), (0, 1)]);
    let dir = pop.getCellMovementData(0).lastMoveDir;
    pop.getMutMoveQueue()[0] = (0, (1, 1));
    pop.resolveMoveQueue(1, &mut grid);
    assert_eq!(pop.getCellMovementData(0).getCoords(), (0, 0));
    assert_eq!(pop.getCellMovementData(0).lastMoveDir, dir);
    assert_eq!(grid.get_occupant(0, 0), Some(0));
}

#[test]
fn death_policy_bands() {
    let c = config(30, 2, 12, 12, 0, 8);
    let mut grid = Grid::new(12, 12);
    let mut rng = StdRng::seed_from_u64(9);
    let mut pop = Population::new(&c, &mut grid, &mut rng);
    let xs: Vec<usize> = (0..30).map(|i| pop.getCellMovementData(i).x).collect();
    determine_deaths(&c, 3, &mut pop);
    assert_eq!(pop.getDeathQueueLen(), 0);
    determine_deaths(&c, 2, &mut pop);
    let outer = xs.iter().filter(|x| **x < 3 || **x > 9).count();
    assert_eq!(pop.getDeathQueueLen(), outer);
    pop.resolveDead(&mut grid);
    for i in 0..30 {
        assert_eq!(pop.getCellMiscData(i).isAlive, !(xs[i] < 3 || xs[i] > 9));
    }
    determine_deaths(&c, 4, &mut pop);
    let middle = xs.iter().filter(|x| **x > 3 && **x < 9).count();
    assert_eq!(pop.getDeathQueueLen(), middle);
    pop.resolveDead(&mut grid);
    let living = pop.getLivingIndices();
    for i in &living {
        assert!(xs[*i] == 3 || xs[*i] == 9);
    }
    let reproducers = determine_reproducers(&c, &pop);
    assert_eq!(reproducers, living.iter().copied().filter(|i| xs[*i] < 3 || xs[*i] > 9).collect::<Vec<usize>>());
}

#[test]
fn no_reproducers_changes_nothing() {
    let c = config(6, 3, 5, 5, 500_000, 8);
    let mut grid = Grid::new(5, 5);
    let mut rng = StdRng::seed_from_u64(12);
    let mut pop = Population::new(&c, &mut grid, &mut rng);
    for i in 0..6 {
        pop.addToDeathQueue(i);
    }
    pop.resolveDead(&mut grid);
    let before = positions(&pop);
    let genomes: Vec<Vec<u32>> =
        (0..6).map(|i| pop.getCellHeritableData(i).1.iter().map(|g| g.gene).collect()).collect();
    let mut scratch = HeritableArena::new(3, 6);
    let r = next_generation(&c, &mut pop, &mut scratch, &mut grid, &mut rng);
    assert_eq!(r, Err(GenerationError::NoReproducers));
    assert_eq!(positions(&pop), before);
    assert!(pop.getLivingIndices().is_empty());
    assert!(grid.is_empty());
    for i in 0..6 {
        let now: Vec<u32> = pop.getCellHeritableData(i).1.iter().map(|g| g.gene).collect();
        assert_eq!(now, genomes[i]);
    }
}

#[test]
fn reproduction_without_mutation_copies_parents() {
    let c = config(8, 4, 8, 8, 0, 8);
    let mut grid = Grid::new(8, 8);
    let mut rng = StdRng::seed_from_u64(21);
    let mut pop = Population::new(&c, &mut grid, &mut rng);
    let records: Vec<(usize, Vec<u32>)> = (0..8)
        .map(|i| {
            let (h, g) = pop.getCellHeritableData(i);
            (h.get_oscillator(), g.iter().map(|x| x.gene).collect())
        })
        .collect();
    let mut scratch = HeritableArena::new(4, 8);
    pop.reproduceAsexually(&mut scratch, &c, vec![2, 5], &mut grid, &mut rng);
    assert_eq!(pop.getLivingIndices().len(), 8);
    for i in 0..8 {
        let (h, g) = pop.getCellHeritableData(i);
        let child = (h.get_oscillator(), g.iter().map(|x| x.gene).collect::<Vec<u32>>());
        assert!(child == records[2] || child == records[5]);
        let (sh, sg) = (scratch.get_header(i), scratch.get_genome(i));
        assert_eq!(sh.get_oscillator(), records[i].0);
        assert_eq!(sg.iter().map(|x| x.gene).collect::<Vec<u32>>(), records[i].1);
    }
}

#[test]
fn reproduction_at_full_rate_mutates_every_gene() {
    let c = config(5, 6, 4, 4, 1_000_000, 1_000_000);
    let mut grid = Grid::new(4, 4);
    let mut rng = StdRng::seed_from_u64(22);
    let mut pop = Population::new(&c, &mut grid, &mut rng);
    let parent: Vec<u32> = pop.getCellHeritableData(0).1.iter().map(|g| g.gene).collect();
    let period = pop.getCellHeritableData(0).0.get_oscillator();
    let mut scratch = HeritableArena::new(6, 5);
    pop.reproduceAsexually(&mut scratch, &c, vec![0], &mut grid, &mut rng);
    for i in 0..5 {
        let (h, g) = pop.getCellHeritableData(i);
        assert!(h.get_oscillator() < 1_000_000);
        assert_ne!(h.get_oscillator(), period);
        for k in 0..6 {
            let diff = (parent[k] ^ g[k].gene).count_ones();
            assert!(diff >= 1);
        }
    }
}

fn run(seed: u64, generations: usize) -> Vec<Vec<(usize, usize)>> {
    let c = config(20, 4, 10, 10, 20_000, 12);
    let mut grid = Grid::new(10, 10);
    let mut rng = StdRng::seed_from_u64(seed);
    let mut pop = Population::new(&c, &mut grid, &mut rng);
    let mut scratch = HeritableArena::new(4, 20);
    let mut trace = Vec::new();
    for _ in 0..generations {
        for step in 0..12 {
            let living = pop.getLivingIndices();
            for (k, i) in living.iter().enumerate() {
                let dx: isize = rng.gen_range(-1..=1);
                let dy: isize = rng.gen_range(-1..=1);
                let target = move_target(pop.getCellMovementData(*i), dx, dy, 10, 10);
                pop.getMutMoveQueue()[k] = (*i, target);
            }
            resolve_step(&c, step, &mut pop, &mut grid, living.len());
            trace.push(positions(&pop));
        }
        if next_generation(&c, &mut pop, &mut scratch, &mut grid, &mut rng).is_err() {
            break;
        }
        trace.push(positions(&pop));
    }
    trace
}

#[test]
fn same_seed_same_trace() {
    let a = run(77, 3);
    let b = run(77, 3);
    assert_eq!(a, b);
    assert!(a.len() >= 12);
}

#[test]
fn split_or_get_parts() {
    let mut data = [1, 2, 3, 4];
    let (a, b) = split_or_get(&mut data, 1);
    assert_eq!(a, &[1]);
    let b = b.unwrap();
    assert_eq!(b, &[2, 3, 4]);
    b[0] = 9;
    assert_eq!(data, [1, 9, 3, 4]);
    let (a, b) = split_or_get(&mut data, 4);
    assert_eq!(a.len(), 4);
    assert!(b.is_none());
}
