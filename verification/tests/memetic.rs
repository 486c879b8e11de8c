use std::sync::Arc;

use descramble::memetic::{
    clamped_window, invert_random_segment, neighbor_reversal, orient, positions_of,
    reverse_segment, reverse_tracked, starting_order, swap_tracked, SolverConfig,
};
use descramble::validate_order;
use descramble::Error;
use radiate::{
    random_provider, AlterContext, Crossover, Genotype, PMXCrossover, PermutationChromosome,
    PermutationGene, Phenotype, Valid,
};

#[test]
fn every_accepted_population_has_enough_offspring_for_pmx() {
    for population in 0..=5 {
        assert!(
            SolverConfig {
                population,
                ..SolverConfig::default()
            }
            .validate()
            .is_err()
        );
    }

    let alleles: Arc<[usize]> = (0..6).collect::<Vec<_>>().into();
    let mut offspring: Vec<_> = (0..4)
        .map(|offset| {
            let genes = (0..6)
                .map(|item| PermutationGene::new((item + offset) % 6, Arc::clone(&alleles)))
                .collect();
            Phenotype::from(Genotype::from(PermutationChromosome::new(
                genes,
                Arc::clone(&alleles),
            )))
        })
        .collect();

    let mut updates = Default::default();
    let mut context = AlterContext::new(&mut updates, 1, 1.0, &[]);
    let crossed = random_provider::scoped_seed(3, || {
        PMXCrossover::new(1.0).crossover(&mut offspring, &mut context)
    });
    assert!(crossed > 0);
    assert!(offspring.iter().all(Valid::is_valid));
    assert!(
        SolverConfig {
            population: 6,
            ..SolverConfig::default()
        }
        .validate()
        .is_ok()
    );
}

#[test]
fn defaults_and_validation_messages() {
    let config = SolverConfig::default();
    assert_eq!(config.window, None);
    assert_eq!(config.population, 32);
    assert_eq!(config.generations, 200);
    assert_eq!(config.local_passes, 2);
    assert_eq!(config.seed, 42);
    assert_eq!(config.validate(), Ok(()));
    assert_eq!(
        SolverConfig {
            window: Some(0),
            ..config
        }
        .validate(),
        Err(Error::InvalidInput(
            "population must be at least 6; generations and any explicit window must be positive"
                .into()
        ))
    );
}

#[test]
fn windows_default_per_hundred_items_and_clamp_to_the_order() {
    let config = SolverConfig::default();
    assert_eq!(config.window_for(1), 1);
    assert_eq!(config.window_for(199), 1);
    assert_eq!(config.window_for(200), 2);
    assert_eq!(config.window_for(1234), 12);
    assert_eq!(
        SolverConfig {
            window: Some(5),
            ..config
        }
        .window_for(1234),
        5
    );
    assert_eq!(clamped_window(5, 3), 2);
    assert_eq!(clamped_window(2, 3), 2);
    assert_eq!(clamped_window(1, 1), 0);
}

#[test]
fn column_search_advances_the_seed_with_wrapping() {
    let config = SolverConfig {
        seed: 41,
        ..SolverConfig::default()
    };
    assert_eq!(config.for_columns().seed, 42);
    assert_eq!(config.for_columns().population, config.population);
    let last = SolverConfig {
        seed: u64::MAX,
        ..SolverConfig::default()
    };
    assert_eq!(last.for_columns().seed, 0);
}

#[test]
fn inclusive_reversal_reaches_the_final_item() {
    let mut order = vec![0, 1];
    reverse_segment(&mut order, 0, 1);
    assert_eq!(order, vec![1, 0]);

    let mut order = vec![0, 1, 2, 3, 4, 5];
    reverse_segment(&mut order, 1, 4);
    assert_eq!(order, vec![0, 4, 3, 2, 1, 5]);
    reverse_segment(&mut order, 3, 3);
    assert_eq!(order, vec![0, 4, 3, 2, 1, 5]);
}

#[test]
fn neighbor_reversal_brings_the_neighbor_alongside() {
    let order = vec![5, 1, 3, 0, 4, 2];
    // Item 1 sits at position 1; item 4 at position 4.
    let (start, end) = neighbor_reversal(1, 4);
    assert_eq!((start, end), (2, 4));
    let mut moved = order.clone();
    reverse_segment(&mut moved, start, end);
    assert_eq!(moved, vec![5, 1, 4, 0, 3, 2]);

    let (start, end) = neighbor_reversal(4, 1);
    assert_eq!((start, end), (1, 3));
    let mut moved = order.clone();
    reverse_segment(&mut moved, start, end);
    assert_eq!(moved, vec![5, 0, 3, 1, 4, 2]);
}

#[test]
fn orientation_puts_the_smaller_endpoint_first() {
    let mut order = vec![3, 0, 2, 1];
    orient(&mut order);
    assert_eq!(order, vec![1, 2, 0, 3]);
    orient(&mut order);
    assert_eq!(order, vec![1, 2, 0, 3]);
    let mut single = vec![0];
    orient(&mut single);
    assert_eq!(single, vec![0]);
}

#[test]
fn moves_keep_every_item_located() {
    let mut order = vec![3, 0, 4, 1, 2];
    let mut positions = positions_of(&order);
    assert_eq!(positions, vec![1, 3, 4, 0, 2]);

    reverse_tracked(&mut order, &mut positions, 1, 3);
    assert_eq!(order, vec![3, 1, 4, 0, 2]);
    for (index, &item) in order.iter().enumerate() {
        assert_eq!(positions[item], index);
    }

    swap_tracked(&mut order, &mut positions, 3);
    assert_eq!(order, vec![3, 1, 4, 2, 0]);
    for (index, &item) in order.iter().enumerate() {
        assert_eq!(positions[item], index);
    }
}

#[test]
fn inversion_includes_final_item_and_changes_two_item_orders() {
    random_provider::scoped_seed(7, || {
        let mut order = vec![0, 1];
        assert_eq!(invert_random_segment(&mut order), (0, 1));
        assert_eq!(order, vec![1, 0]);
    });
}

#[test]
fn random_inversions_reverse_at_least_two_items() {
    random_provider::scoped_seed(11, || {
        for _ in 0..50 {
            let mut order: Vec<usize> = (0..7).collect();
            let (start, end) = invert_random_segment(&mut order);
            assert!(start < end && end < 7);
            let mut expected: Vec<usize> = (0..7).collect();
            expected[start..=end].reverse();
            assert_eq!(order, expected);
        }
    });
}

#[test]
fn the_population_starts_from_the_input_order_paths_and_shuffles() {
    // Items on a line at 0, 5, 1, 4: the path from item 1 visits 3, 0, 2.
    let positions: [i64; 4] = [0, 5, 1, 4];
    let keys: Vec<Vec<i64>> = positions
        .iter()
        .map(|&from| positions.iter().map(|&to| (from - to).abs()).collect())
        .collect();
    random_provider::scoped_seed(5, || {
        assert_eq!(starting_order(&keys, 0, 8), vec![0, 1, 2, 3]);
        for index in 1..8 {
            let order = starting_order(&keys, index, 8);
            assert!(validate_order(&order, 4).is_ok());
            if index < 4 {
                let expected = match order[0] {
                    0 => vec![0, 2, 3, 1],
                    1 => vec![1, 3, 2, 0],
                    2 => vec![2, 0, 3, 1],
                    _ => vec![3, 1, 2, 0],
                };
                assert_eq!(order, expected);
            }
        }
    });
}
