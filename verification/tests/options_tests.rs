use symbolic_regression::options::{OpId, Options, OutputStyle};

#[test]
fn default_options_match_documented_defaults() {
    let o = Options::default();
    assert_eq!(o.seed, 0);
    assert_eq!(o.niterations, 100);
    assert_eq!(o.populations, 31);
    assert_eq!(o.population_size, 27);
    assert_eq!(o.ncycles_per_iteration, 380);
    assert_eq!(o.batch_size, 50);
    assert_eq!(o.maxsize, 30);
    assert_eq!(o.maxdepth, 30);
    assert_eq!(o.tournament_selection_n, 15);
    assert_eq!(o.optimizer_nrestarts, 2);
    assert_eq!(o.optimizer_iterations, 8);
    assert_eq!(o.optimizer_f_calls_limit, 10_000);
    assert_eq!(o.topn, 12);
    assert!(o.use_frequency && o.annealing && o.use_baseline && o.should_simplify);
    assert!(!o.batching && !o.deterministic && !o.use_interval_targets);
    assert_eq!(o.output_style, OutputStyle::Auto);
}

#[test]
fn default_options_use_default_complexity() {
    assert!(Options::default().uses_default_complexity());
}

#[test]
fn any_complexity_override_disables_default_complexity() {
    let mut o = Options::default();
    o.complexity_of_constants = 2;
    assert!(!o.uses_default_complexity());

    let mut o = Options::default();
    o.complexity_of_variables = 3;
    assert!(!o.uses_default_complexity());

    let mut o = Options::default();
    o.variable_complexities = Some(vec![1, 2]);
    assert!(!o.uses_default_complexity());

    let mut o = Options::default();
    o.operator_complexity_overrides.insert(OpId { arity: 2, id: 0 }, 3);
    assert!(!o.uses_default_complexity());
}

#[test]
fn output_style_defaults_to_auto() {
    assert_eq!(OutputStyle::default(), OutputStyle::Auto);
}
