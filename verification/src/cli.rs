//! The command line's commands and solver options.

use vstd::prelude::*;

use std::path::PathBuf;

use crate::memetic::SolverConfig;

verus! {

/// A file system path, carried through the commands as an opaque value.
#[verifier::external_type_specification]
#[verifier::external_body]
pub struct ExPathBuf(PathBuf);

/// The parsed command line.
pub struct Cli {
    pub command: Command,
}

/// What the command line asks for.
pub enum Command {
    /// Shuffle whole rows and columns; write a lossless PNG and a JSON permutation map.
    Scramble { input: PathBuf, output: PathBuf, seed: u64 },
    /// Infer row and column orders from a scrambled image, without an original or map.
    Restore { input: PathBuf, output: PathBuf, solver: SolverArgs },
    /// Resize before shuffling, then save the original, scrambled, restored, and report.
    Demo { input: PathBuf, output_dir: PathBuf, max_dimension: u32, solver: SolverArgs },
}

/// The solver options of the command line.
#[derive(Debug, Clone, Copy, PartialEq, Eq)]
pub struct SolverArgs {
    /// Neighborhood radius; default is max(1, floor(axis length / 100)).
    pub window: Option<usize>,
    /// Population size (at least 6, so crossover has enough offspring).
    pub population: usize,
    /// Number of generations.
    pub generations: usize,
    /// Local improvement passes per candidate; zero disables local search.
    pub local_passes: usize,
    /// Random seed for reproducibility.
    pub seed: u64,
}

impl From<SolverArgs> for SolverConfig {
    fn from(args: SolverArgs) -> (config: SolverConfig) {
        SolverConfig {
            window: args.window,
            population: args.population,
            generations: args.generations,
            local_passes: args.local_passes,
            seed: args.seed,
        }
    }
}

impl vstd::std_specs::convert::FromSpecImpl<SolverArgs> for SolverConfig {
    open spec fn obeys_from_spec() -> bool {
        true
    }

    open spec fn from_spec(args: SolverArgs) -> SolverConfig {
        SolverConfig {
            window: args.window,
            population: args.population,
            generations: args.generations,
            local_passes: args.local_passes,
            seed: args.seed,
        }
    }
}

} // verus!
