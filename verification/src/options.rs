//! The integer and boolean knobs of a search, and the predicate that tells
//! whether expression complexity is counted the default way.
use std::collections::HashMap;
use vstd::prelude::*;

verus! {

/// Identifies an operator of an expression backend: its arity and its index
/// among the operators of that arity.
#[derive(Copy, Clone, Debug, PartialEq, Eq, Hash)]
pub struct OpId {
    pub arity: u8,
    pub id: u16,
}

/// How diagnostic output is styled.
#[derive(Copy, Clone, Debug, PartialEq, Eq)]
pub enum OutputStyle {
    /// ANSI styles only when the error stream supports them.
    Auto,
    /// No ANSI styles.
    Plain,
    /// ANSI styles always.
    Ansi,
}

impl Default for OutputStyle {
    fn default() -> (r: Self)
        ensures
            r == OutputStyle::Auto,
    {
        OutputStyle::Auto
    }
}

/// Helper namespace for the standard kinds of early stop conditions; a
/// threshold condition compares losses, which the numeric layer does.
pub struct EarlyStop;

/// The integer and boolean options of a search.
#[derive(Clone)]
pub struct Options {
    pub seed: u64,
    pub niterations: usize,
    pub populations: usize,
    pub population_size: usize,
    pub ncycles_per_iteration: usize,
    pub batch_size: usize,
    pub complexity_of_constants: u16,
    pub complexity_of_variables: u16,
    pub complexity_of_delay: u16,
    pub complexity_of_delay_offset: u16,
    pub maxsize: usize,
    pub maxdepth: usize,
    pub max_delay: usize,
    pub tournament_selection_n: usize,
    pub optimizer_nrestarts: usize,
    pub optimizer_iterations: usize,
    pub optimizer_f_calls_limit: usize,
    pub topn: usize,
    pub print_precision: usize,
    pub max_evals: u64,
    pub use_frequency: bool,
    pub use_frequency_in_tournament: bool,
    pub skip_mutation_failures: bool,
    pub annealing: bool,
    pub should_optimize_constants: bool,
    pub migration: bool,
    pub hof_migration: bool,
    pub use_baseline: bool,
    pub progress: bool,
    pub should_simplify: bool,
    pub batching: bool,
    pub deterministic: bool,
    pub use_interval_targets: bool,
    pub output_style: OutputStyle,
    pub variable_complexities: Option<Vec<u16>>,
    pub operator_complexity_overrides: HashMap<OpId, u16>,
}

impl Options {
    /// Complexity is counted the default way: every constant and every
    /// variable costs one, and no per-variable or per-operator override is set.
    pub open spec fn spec_uses_default_complexity(&self) -> bool {
        &&& self.complexity_of_constants == 1
        &&& self.complexity_of_variables == 1
        &&& self.variable_complexities is None
        &&& self.operator_complexity_overrides@.is_empty()
    }

    pub fn uses_default_complexity(&self) -> (r: bool)
        ensures
            r == self.spec_uses_default_complexity(),
    {
        self.complexity_of_constants == 1 && self.complexity_of_variables == 1
            && self.variable_complexities.is_none()
            && self.operator_complexity_overrides.is_empty()
    }
}

impl Default for Options {
    fn default() -> (r: Self)
        ensures
            r.seed == 0,
            r.niterations == 100,
            r.populations == 31,
            r.population_size == 27,
            r.ncycles_per_iteration == 380,
            r.batch_size == 50,
            r.complexity_of_constants == 1,
            r.complexity_of_variables == 1,
            r.complexity_of_delay == 1,
            r.complexity_of_delay_offset == 1,
            r.maxsize == 30,
            r.maxdepth == 30,
            r.max_delay == 0,
            r.tournament_selection_n == 15,
            r.optimizer_nrestarts == 2,
            r.optimizer_iterations == 8,
            r.optimizer_f_calls_limit == 10_000,
            r.topn == 12,
            r.print_precision == 5,
            r.max_evals == 0,
            r.use_frequency,
            r.use_frequency_in_tournament,
            r.skip_mutation_failures,
            r.annealing,
            r.should_optimize_constants,
            r.migration,
            r.hof_migration,
            r.use_baseline,
            r.progress,
            r.should_simplify,
            !r.batching,
            !r.deterministic,
            !r.use_interval_targets,
            r.output_style == OutputStyle::Auto,
            r.variable_complexities is None,
            r.operator_complexity_overrides@ == Map::<OpId, u16>::empty(),
    {
        Options {
            seed: 0,
            niterations: 100,
            populations: 31,
            population_size: 27,
            ncycles_per_iteration: 380,
            batch_size: 50,
            complexity_of_constants: 1,
            complexity_of_variables: 1,
            complexity_of_delay: 1,
            complexity_of_delay_offset: 1,
            maxsize: 30,
            maxdepth: 30,
            max_delay: 0,
            tournament_selection_n: 15,
            optimizer_nrestarts: 2,
            optimizer_iterations: 8,
            optimizer_f_calls_limit: 10_000,
            topn: 12,
            print_precision: 5,
            max_evals: 0,
            use_frequency: true,
            use_frequency_in_tournament: true,
            skip_mutation_failures: true,
            annealing: true,
            should_optimize_constants: true,
            migration: true,
            hof_migration: true,
            use_baseline: true,
            progress: true,
            should_simplify: true,
            batching: false,
            deterministic: false,
            use_interval_targets: false,
            output_style: OutputStyle::Auto,
            variable_complexities: None,
            operator_complexity_overrides: HashMap::new(),
        }
    }
}

/// The default options count complexity the default way.
pub proof fn lemma_default_options_use_default_complexity(o: Options)
    requires
        o.complexity_of_constants == 1,
        o.complexity_of_variables == 1,
        o.variable_complexities is None,
        o.operator_complexity_overrides@ == Map::<OpId, u16>::empty(),
    ensures
        o.spec_uses_default_complexity(),
{
}

} // verus!
