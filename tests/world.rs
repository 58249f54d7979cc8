use evolution_sim::arena::HeritableArena;
use evolution_sim::cell::{normalize_oscillator, HeritableData, MovementData};
use evolution_sim::config::{Config, ConfigError};
use evolution_sim::gene::Gene;
use evolution_sim::grid::Grid;
use evolution_sim::population::Population;
use rand::rngs::StdRng;
use rand::SeedableRng;

fn config(pop: usize, genes: usize, w: usize, h: usize, rate: u32, spg: usize) -> Config {
    Config::new(pop, genes, w, h, rate, spg, false).unwrap()
}

/// Checks that the grid holds exactly the living agents, each on its own cell.
fn check_placement(pop: &Population, grid: &Grid) {
    let (w, h) = grid.get_dimensions();
    let mut seen = 0;
    for i in 0..pop.get_size() {
        let m = pop.getCellMovementData(i);
        if pop.getCellMiscData(i).isAlive {
            assert!(m.x < w && m.y < h);
            assert_eq!(grid.get_occupant(m.x, m.y), Some(i));
            seen += 1;
        }
    }
    let mut occupied = 0;
    for x in 0..w {
        for y in 0..h {
            if let Some(j) = grid.get_occupant(x, y) {
                occupied += 1;
                assert!(pop.getCellMiscData(j).isAlive);
                assert_eq!(pop.getCellMovementData(j).getCoords(), (x, y));
            }
        }
    }
    assert_eq!(seen, occupied);
}

#[test]
fn grid_starts_empty_and_keeps_occupants() {
    let mut grid = Grid::new(3, 2);
    assert_eq!(grid.get_dimensions(), (3, 2));
    assert!(grid.is_empty());
    grid.set_occupant(2, 1, Some(7));
    assert_eq!(grid.get_occupant(2, 1), Some(7));
    assert_eq!(grid.get_occupant(1, 2 - 1), None);
    assert!(!grid.is_empty());
    grid.reset();
    assert!(grid.is_empty());
    assert_eq!(grid.get_occupant(2, 1), None);
}

#[test]
fn random_free_cell_on_a_nearly_full_grid() {
    let mut grid = Grid::new(3, 3);
    for x in 0..3 {
        for y in 0..3 {
            if (x, y) != (1, 2) {
                grid.set_occupant(x, y, Some(x + 3 * y));
            }
        }
    }
    let mut rng = StdRng::seed_from_u64(3);
    for _ in 0..20 {
        assert_eq!(grid.find_random_unoccupied(&mut rng), (1, 2));
    }
}

#[test]
fn config_rejects_bad_parameters() {
    assert_eq!(Config::new(0, 1, 1, 1, 0, 1, false).unwrap_err(), ConfigError::ZeroParameter);
    assert_eq!(Config::new(1, 0, 1, 1, 0, 1, false).unwrap_err(), ConfigError::ZeroParameter);
    assert_eq!(Config::new(1, 1, 0, 1, 0, 1, false).unwrap_err(), ConfigError::ZeroParameter);
    assert_eq!(Config::new(1, 1, 1, 1, 0, 0, false).unwrap_err(), ConfigError::ZeroParameter);
    assert_eq!(
        Config::new(1, 1, 1, 1, 1_000_001, 1, false).unwrap_err(),
        ConfigError::MutationRateOutOfRange
    );
    assert_eq!(
        Config::new(1, 1, usize::MAX, 2, 0, 1, false).unwrap_err(),
        ConfigError::GridTooLarge
    );
    assert_eq!(Config::new(5, 1, 2, 2, 0, 1, false).unwrap_err(), ConfigError::PopulationExceedsGrid);
    assert_eq!(
        Config::new(1 << 40, 1 << 30, 1 << 20, 1 << 20, 0, 1, false).unwrap_err(),
        ConfigError::GenomeStoreTooLarge
    );
    let c = Config::new(4, 3, 2, 2, 1_000_000, 9, true).unwrap();
    assert_eq!(c.get_pop_size(), 4);
    assert_eq!(c.get_genome_size(), 3);
    assert_eq!(c.get_grid_width(), 2);
    assert_eq!(c.get_grid_height(), 2);
    assert_eq!(c.get_mutation_rate(), 1_000_000);
    assert_eq!(c.get_steps_per_gen(), 9);
    assert!(c.get_is_windowing());
    let d = Config::default();
    assert_eq!(d.get_pop_size(), 4000);
    assert_eq!(d.get_genome_size(), 20);
    assert_eq!(d.get_grid_width(), 200);
    assert_eq!(d.get_mutation_rate(), 1000);
    assert_eq!(d.get_steps_per_gen(), 250);
}

#[test]
fn arena_swap_twice_restores_both() {
    let mut a = HeritableArena::new(2, 3);
    let mut b = HeritableArena::new(2, 3);
    a.write_gene(1, 0, Gene::new(0x0102_0304));
    a.write_header(2, HeritableData::new(5));
    b.write_gene(0, 1, Gene::new(0x0001_0001));
    a.swap(&mut b);
    assert_eq!(a.get_genome(0), &[Gene::new(0), Gene::new(0x0001_0001)]);
    assert_eq!(b.get_genome(1), &[Gene::new(0x0102_0304), Gene::new(0)]);
    a.swap(&mut b);
    assert_eq!(a.get_genome(1), &[Gene::new(0x0102_0304), Gene::new(0)]);
    assert_eq!(a.get_header(2).get_oscillator(), 5);
    assert_eq!(b.get_genome(0), &[Gene::new(0), Gene::new(0x0001_0001)]);
    assert_eq!(b.get_header(2).get_oscillator(), 0);
    assert_eq!(a.len(), 3);
    assert_eq!(a.genome_length(), 2);
}

#[test]
fn oscillator_normalization() {
    assert_eq!(normalize_oscillator(17, 5), 2);
    assert_eq!(normalize_oscillator(4, 5), 4);
    assert_eq!(normalize_oscillator(usize::MAX, 250), usize::MAX % 250);
}

#[test]
fn new_population_is_alive_and_placed() {
    let c = config(30, 5, 8, 6, 1000, 40);
    let mut grid = Grid::new(8, 6);
    let mut rng = StdRng::seed_from_u64(1);
    let pop = Population::new(&c, &mut grid, &mut rng);
    assert_eq!(pop.get_size(), 30);
    assert_eq!(pop.getLivingIndices(), (0..30).collect::<Vec<usize>>());
    check_placement(&pop, &grid);
    for i in 0..30 {
        let (header, genome) = pop.getCellHeritableData(i);
        assert!(header.get_oscillator() < 40);
        assert_eq!(genome.len(), 5);
        for g in genome {
            assert_eq!(Gene::new(g.gene), *g);
        }
    }
}

#[test]
fn full_grid_population() {
    let c = config(12, 2, 4, 3, 0, 10);
    let mut grid = Grid::new(4, 3);
    let mut rng = StdRng::seed_from_u64(2);
    let pop = Population::new(&c, &mut grid, &mut rng);
    check_placement(&pop, &grid);
    for x in 0..4 {
        for y in 0..3 {
            assert!(grid.get_occupant(x, y).is_some());
        }
    }
}

#[test]
fn deaths_vacate_cells_and_keep_the_count() {
    let c = config(10, 3, 5, 5, 0, 8);
    let mut grid = Grid::new(5, 5);
    let mut rng = StdRng::seed_from_u64(4);
    let mut pop = Population::new(&c, &mut grid, &mut rng);
    let victim = *pop.getCellMovementData(3);
    pop.addToDeathQueue(3);
    pop.addToDeathQueue(7);
    pop.addToDeathQueue(3);
    assert_eq!(pop.getDeathQueueLen(), 3);
    pop.resolveDead(&mut grid);
    assert_eq!(pop.getDeathQueueLen(), 0);
    assert_eq!(grid.get_occupant(victim.x, victim.y), None);
    let living = pop.getLivingIndices();
    assert_eq!(living, vec![0, 1, 2, 4, 5, 6, 8, 9]);
    let dead = (0..10).filter(|i| !pop.getCellMiscData(*i).isAlive).count();
    assert_eq!(living.len() + dead, 10);
    check_placement(&pop, &grid);
    pop.addToDeathQueue(3);
    pop.resolveDead(&mut grid);
    assert_eq!(pop.getLivingIndices().len(), 8);
    check_placement(&pop, &grid);
}

#[test]
fn moves_into_free_cells_and_keeps_the_rest() {
    let c = config(6, 3, 6, 6, 0, 8);
    let mut grid = Grid::new(6, 6);
    let mut rng = StdRng::seed_from_u64(5);
    let mut pop = Population::new(&c, &mut grid, &mut rng);
    let before: Vec<MovementData> = (0..6).map(|i| *pop.getCellMovementData(i)).collect();
    let q = pop.getMutMoveQueue();
    q[0] = (2, (before[2].x, before[2].y));
    pop.resolveMoveQueue(1, &mut grid);
    assert_eq!(*pop.getCellMovementData(2), before[2]);
    check_placement(&pop, &grid);
}

#[test]
fn recombination_without_mutation_keeps_the_child() {
    let mut parents = HeritableArena::new(3, 2);
    parents.write_gene(0, 0, Gene::new(0x0101_0101));
    parents.write_gene(1, 2, Gene::new(0x0202_0202));
    parents.write_header(0, HeritableData::new(4));
    parents.write_header(1, HeritableData::new(6));
    let mut child = HeritableArena::new(3, 2);
    child.write_gene(1, 1, Gene::new(0x0303_0303));
    let mut rng = StdRng::seed_from_u64(8);
    evolution_sim::cell::sexuallyReproduce(&parents, 0, &parents, 1, &mut child, 1, 5, 0, &mut rng);
    assert_eq!(child.get_genome(1), &[Gene::new(0), Gene::new(0x0303_0303), Gene::new(0)]);
    let period = child.get_header(1).get_oscillator();
    assert!(period == 4 || period == 1);
    assert_eq!(child.get_genome(0), &[Gene::new(0), Gene::new(0), Gene::new(0)]);
}

#[test]
fn recombination_at_full_rate_flips_one_bit_of_a_parent() {
    let mut parents = HeritableArena::new(4, 2);
    for k in 0..4 {
        parents.write_gene(0, k, Gene::new(0x0100_0010 + k as u32));
        parents.write_gene(1, k, Gene::new(0x0402_0400 + k as u32));
    }
    let mut child = HeritableArena::new(4, 1);
    let mut rng = StdRng::seed_from_u64(10);
    evolution_sim::cell::sexuallyReproduce(&parents, 0, &parents, 1, &mut child, 0, 7, 1_000_000, &mut rng);
    for k in 0..4 {
        let g = child.get_genome(0)[k].gene;
        let from_first = (g ^ (0x0100_0010 + k as u32)).count_ones() == 1;
        let from_second = (g ^ (0x0402_0400 + k as u32)).count_ones() == 1;
        assert!(from_first || from_second);
    }
    assert!(child.get_header(0).get_oscillator() < 7);
}

#[test]
fn assign_random_places_everyone() {
    let c = config(9, 2, 3, 3, 0, 4);
    let mut grid = Grid::new(3, 3);
    let mut rng = StdRng::seed_from_u64(13);
    let mut pop = Population::new(&c, &mut grid, &mut rng);
    pop.addToDeathQueue(4);
    pop.resolveDead(&mut grid);
    let dirs: Vec<_> = (0..9).map(|i| pop.getCellMovementData(i).lastMoveDir).collect();
    grid.reset();
    pop.assignRandom(&mut grid, &mut rng);
    for i in 0..9 {
        let m = pop.getCellMovementData(i);
        assert_eq!(grid.get_occupant(m.x, m.y), Some(i));
        assert_eq!(m.lastMoveDir, dirs[i]);
    }
    assert!(!pop.getCellMiscData(4).isAlive);
}

#[test]
fn regenerating_keeps_the_death_queue_and_places_everyone() {
    let c = config(7, 2, 4, 4, 0, 6);
    let mut grid = Grid::new(4, 4);
    let mut rng = StdRng::seed_from_u64(14);
    let mut pop = Population::new(&c, &mut grid, &mut rng);
    pop.addToDeathQueue(2);
    pop.genRandom(&c, &mut grid, &mut rng);
    assert_eq!(pop.getDeathQueueLen(), 1);
    assert_eq!(pop.getLivingIndices().len(), 7);
    check_placement(&pop, &grid);
}

#[test]
fn queued_moves_overwrite_the_front() {
    let c = config(3, 1, 4, 4, 0, 6);
    let mut grid = Grid::new(4, 4);
    let mut rng = StdRng::seed_from_u64(15);
    let mut pop = Population::new(&c, &mut grid, &mut rng);
    pop.queue_moves(&[(2, (1, 1)), (0, (3, 3))]);
    assert_eq!(pop.get_move_queue(), &[(2, (1, 1)), (0, (3, 3)), (0, (0, 0))]);
}

#[test]
fn config_setters_change_one_field() {
    let mut c = config(4, 3, 4, 4, 10, 9);
    c.set_pop_size(16);
    c.set_genome_length(5);
    c.set_grid_width(8);
    c.set_grid_height(2);
    c.set_steps_per_gen(30);
    c.set_mutation_rate(250_000);
    assert_eq!(c.get_pop_size(), 16);
    assert_eq!(c.get_genome_size(), 5);
    assert_eq!(c.get_grid_width(), 8);
    assert_eq!(c.get_grid_height(), 2);
    assert_eq!(c.get_steps_per_gen(), 30);
    assert_eq!(c.get_mutation_rate(), 250_000);
    assert!(!c.get_is_windowing());
}
