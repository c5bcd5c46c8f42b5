use symbolic_regression::cli::{
    apply_command_line, apply_config_entries, config_path, default_args, expect_config_bool,
    expect_config_number, expect_config_number_u64, expect_config_real_text,
    check_target_bounds,
    expect_config_operator_array, expect_config_string, expect_config_string_array, finalize_args,
    normalize_operator_name, operator_names, parse_csv_list, parse_operator_string,
    parse_selection, parse_selection_usize, resolve_args, select_member, selection_error, value_at,
    CliError,
    FrontEntry,
    Selection,
};
use symbolic_regression::config::{ConfigValue, JsonParser};

fn argv(items: &[&str]) -> Vec<String> {
    items.iter().map(|s| s.to_string()).collect()
}

#[test]
fn selections_read_and_write() {
    assert_eq!(parse_selection("best-cost"), Selection::BestCost);
    assert_eq!(parse_selection("best-loss"), Selection::BestLoss);
    assert_eq!(parse_selection("pareto-index=3"), Selection::ParetoIndex(3));
    assert_eq!(parse_selection("complexity=+7"), Selection::Complexity(7));
    for s in [
        Selection::BestCost,
        Selection::BestLoss,
        Selection::ParetoIndex(0),
        Selection::ParetoIndex(12),
        Selection::Complexity(usize::MAX),
    ] {
        assert_eq!(parse_selection(&s.to_display_string()), s);
    }
    assert_eq!(Selection::ParetoIndex(12).to_display_string(), "pareto-index=12");
    assert_eq!(parse_selection_usize("pareto-index=42", "pareto-index="), 42);
    // The cut is at the prefix's length in bytes: `é` takes two.
    assert_eq!(parse_selection_usize("é17", "ab"), 17);
}

#[test]
fn texts_that_name_no_selection_are_refused_on_the_command_line() {
    let mut a = default_args();
    for bad in ["best", "complexity=", "pareto-index=x"] {
        let r = apply_command_line(&argv(&["--selection", bad]), &mut a);
        assert!(matches!(r, Err(CliError::BadSelection(v)) if v == bad));
    }
}

#[test]
fn lists_are_split_trimmed_and_filtered() {
    assert_eq!(parse_csv_list(" a, b ,,c , "), argv(&["a", "b", "c"]));
    assert_eq!(parse_csv_list(""), Vec::<String>::new());
    assert_eq!(parse_operator_string("+, -,*"), argv(&["+", "sub", "*"]));
    assert_eq!(normalize_operator_name("-"), "sub");
    assert_eq!(normalize_operator_name("cos"), "cos");
}

#[test]
fn defaults_and_finalizing() {
    let a = default_args();
    assert_eq!(a.target, "target");
    assert_eq!(a.niterations, 50);
    assert_eq!(a.populations, 8);
    assert_eq!(a.population_size, 80);
    assert_eq!(a.cycles, 400);
    assert_eq!(a.optimizer_iterations, 10);
    assert_eq!(a.maxdepth, 8);
    assert_eq!(a.seed, 1009);
    assert_eq!(a.unary_operators, argv(&["cos", "sin"]));
    assert_eq!(a.binary_operators, argv(&["+", "sub", "*", "/"]));
    assert_eq!(operator_names(&a), argv(&["cos", "sin", "+", "sub", "*", "/"]));
    assert!(matches!(finalize_args(default_args()), Err(CliError::TrainRequired)));
    let mut a = default_args();
    a.train = "t.csv".into();
    a.interval_targets = true;
    a.target_high = Some("hi".into());
    let f = finalize_args(a).unwrap();
    assert_eq!(f.target_low.as_deref(), Some("target_low"));
    assert_eq!(f.target_high.as_deref(), Some("hi"));
}

#[test]
fn flags_update_the_settings_in_order() {
    let mut a = default_args();
    let args = argv(&[
        "--config", "c.json", "--train", "t.csv", "--maxsize", "12", "--maxsize", "+13",
        "--interval-targets", "--binary-operators", "+,-", "--seed", "7", "--parsimony", "0.5",
        "--features", "x1, x2", "--selection", "complexity=4",
    ]);
    assert_eq!(apply_command_line(&args, &mut a).unwrap(), false);
    assert_eq!(a.train, "t.csv");
    assert_eq!(a.maxsize, 13);
    assert!(a.interval_targets);
    assert_eq!(a.binary_operators, argv(&["+", "sub"]));
    assert_eq!(a.seed, 7);
    assert_eq!(a.parsimony, "0.5");
    assert_eq!(a.features, Some(argv(&["x1", "x2"])));
    assert_eq!(a.selection, Selection::Complexity(4));
}

#[test]
fn flag_errors() {
    let mut a = default_args();
    assert!(matches!(apply_command_line(&argv(&["--bogus"]), &mut a),
        Err(CliError::UnknownArgument(s)) if s == "--bogus"));
    assert!(matches!(apply_command_line(&argv(&["--train"]), &mut a),
        Err(CliError::MissingValue(s)) if s == "--train"));
    assert!(matches!(apply_command_line(&argv(&["--maxsize", "-1"]), &mut a),
        Err(CliError::BadValue(s)) if s == "--maxsize"));
    assert!(matches!(apply_command_line(&argv(&["--selection", "worst"]), &mut a),
        Err(CliError::BadSelection(s)) if s == "worst"));
    assert_eq!(apply_command_line(&argv(&["--maxsize", "3", "-h", "--bogus"]), &mut a).unwrap(), true);
    assert_eq!(a.maxsize, 3);
}

#[test]
fn value_and_config_path_lookup() {
    let args = argv(&["--train", "t.csv", "--config", "c.json"]);
    assert_eq!(value_at(&args, 0, "--train").unwrap(), "t.csv");
    assert!(matches!(value_at(&args, 3, "x"), Err(CliError::MissingValue(s)) if s == "x"));
    assert_eq!(config_path(&args).unwrap(), Some("c.json".to_string()));
    assert_eq!(config_path(&argv(&["--train", "t"])).unwrap(), None);
    assert!(matches!(config_path(&argv(&["--config"])), Err(CliError::MissingValue(_))));
}

#[test]
fn configuration_entries_apply_in_order() {
    let text = r#"{"train": "t.csv", "max-delay": 2, "unary_operators": "cos, -",
        "delay_probability": 0.25, "seed": 5, "interval_targets": true,
        "features": ["a", "b"], "selection": "pareto-index=2"}"#;
    let entries = JsonParser::new(text).parse_object().unwrap();
    let mut a = default_args();
    apply_config_entries(&entries, &mut a).unwrap();
    assert_eq!(a.train, "t.csv");
    assert_eq!(a.max_delay, 2);
    assert_eq!(a.unary_operators, argv(&["cos", "sub"]));
    assert_eq!(a.delay_probability, "0.25");
    assert_eq!(a.seed, 5);
    assert!(a.interval_targets);
    assert_eq!(a.features, Some(argv(&["a", "b"])));
    assert_eq!(a.selection, Selection::ParetoIndex(2));
}

#[test]
fn configuration_errors() {
    let run = |text: &str| {
        let entries = JsonParser::new(text).parse_object().unwrap();
        let mut a = default_args();
        apply_config_entries(&entries, &mut a)
    };
    assert!(matches!(run(r#"{"train": 3}"#), Err(CliError::ConfigNotString(k)) if k == "train"));
    assert!(matches!(run(r#"{"maxsize": "3"}"#), Err(CliError::ConfigNotNumber(k)) if k == "maxsize"));
    assert!(matches!(run(r#"{"maxsize": 3.5}"#), Err(CliError::ConfigBadNumber(k)) if k == "maxsize"));
    assert!(matches!(run(r#"{"interval-targets": 1}"#), Err(CliError::ConfigNotBool(k)) if k == "interval-targets"));
    assert!(matches!(run(r#"{"features": true}"#), Err(CliError::ConfigNotStringArray(_))));
    assert!(matches!(run(r#"{"config": "x"}"#), Err(CliError::NestedConfig)));
    assert!(matches!(run(r#"{"nope-key": 1}"#), Err(CliError::UnknownConfigKey(k)) if k == "nope_key"));
}

#[test]
fn config_value_readers() {
    let s = ConfigValue::String("a, b".into());
    let n = ConfigValue::Number("42".into());
    assert_eq!(expect_config_string("k", &s).unwrap(), "a, b");
    assert_eq!(expect_config_string_array("k", &s).unwrap(), argv(&["a", "b"]));
    assert_eq!(
        expect_config_operator_array("k", &ConfigValue::StringArray(argv(&["-", "*"]))).unwrap(),
        argv(&["sub", "*"])
    );
    assert_eq!(expect_config_bool("k", &ConfigValue::Bool(true)).unwrap(), true);
    assert_eq!(expect_config_number("k", &n).unwrap(), 42);
    assert_eq!(expect_config_number_u64("k", &n).unwrap(), 42);
    assert_eq!(expect_config_real_text("k", &n).unwrap(), "42");
    assert!(expect_config_number("k", &s).is_err());
}

fn entry(cost: f32, loss: f32, complexity: usize) -> FrontEntry {
    FrontEntry { cost_bits: cost.to_bits(), loss_bits: loss.to_bits(), complexity }
}

#[test]
fn reported_member_choice() {
    let front = vec![entry(3.0, 1.0, 1), entry(-0.0, 2.0, 3), entry(0.0, 0.5, 5), entry(-0.0, 0.5, 3)];
    assert_eq!(select_member(&front, Selection::BestCost), Some(1));
    assert_eq!(select_member(&front, Selection::BestLoss), Some(2));
    assert_eq!(select_member(&front, Selection::ParetoIndex(4)), Some(3));
    assert_eq!(select_member(&front, Selection::Complexity(3)), Some(1));
    assert_eq!(select_member(&[], Selection::BestCost), None);
    let nan_front = vec![entry(f32::NAN, 0.0, 1), entry(-f32::NAN, 0.0, 1), entry(f32::INFINITY, 0.0, 1)];
    assert_eq!(select_member(&nan_front, Selection::BestCost), Some(1));
}

#[test]
fn selections_that_do_not_fit_the_front() {
    let front = vec![entry(3.0, 1.0, 1), entry(-0.0, 2.0, 3)];
    assert!(matches!(selection_error(&front, Selection::ParetoIndex(0)), Some(CliError::ParetoIndexZero)));
    assert!(matches!(
        selection_error(&front, Selection::ParetoIndex(3)),
        Some(CliError::ParetoIndexOutside(3))
    ));
    assert!(selection_error(&front, Selection::ParetoIndex(2)).is_none());
    assert!(matches!(
        selection_error(&front, Selection::Complexity(9)),
        Some(CliError::NoEquationWithComplexity(9))
    ));
    assert!(selection_error(&front, Selection::Complexity(3)).is_none());
    assert!(selection_error(&[], Selection::BestLoss).is_none());
}

#[test]
fn flags_override_the_configuration_file() {
    let entries = JsonParser::new(r#"{"train": "a.csv", "maxsize": 12, "seed": 3}"#)
        .parse_object()
        .unwrap();
    let a = resolve_args(&argv(&["--maxsize", "20", "--config", "c.json"]), &entries)
        .unwrap()
        .unwrap();
    assert_eq!(a.config, Some("c.json".to_string()));
    assert_eq!(a.train, "a.csv");
    assert_eq!(a.maxsize, 20);
    assert_eq!(a.seed, 3);
    // Without a `--config` flag the entries are not read.
    assert!(matches!(
        resolve_args(&argv(&["--maxsize", "20"]), &entries),
        Err(CliError::TrainRequired)
    ));
    assert!(matches!(resolve_args(&argv(&["-h"]), &entries), Ok(None)));
    assert!(matches!(
        resolve_args(&argv(&["--config", "c.json", "--bogus"]), &entries),
        Err(CliError::UnknownArgument(s)) if s == "--bogus"
    ));
    let nested = JsonParser::new(r#"{"config": "d.json"}"#).parse_object().unwrap();
    assert!(matches!(
        resolve_args(&argv(&["--config", "c.json"]), &nested),
        Err(CliError::NestedConfig)
    ));
}

#[test]
fn real_valued_settings_must_read_as_f64_in_order() {
    let mut a = default_args();
    let r = apply_command_line(&argv(&["--parsimony", "abc", "--help"]), &mut a);
    assert!(matches!(r, Err(CliError::BadValue(f)) if f == "--parsimony"));
    let mut a = default_args();
    let r = apply_command_line(&argv(&["--delay-probability", "0.5x"]), &mut a);
    assert!(matches!(r, Err(CliError::BadValue(f)) if f == "--delay-probability"));
    let mut a = default_args();
    apply_command_line(&argv(&["--parsimony", "-1E-3", "--delay-probability", "inf"]), &mut a)
        .unwrap();
    assert_eq!(a.parsimony, "-1E-3");
    assert_eq!(a.delay_probability, "inf");
    let entries = JsonParser::new(r#"{"parsimony": 1.2.3}"#).parse_object().unwrap();
    let mut a = default_args();
    assert!(matches!(
        apply_config_entries(&entries, &mut a),
        Err(CliError::ConfigBadNumber(k)) if k == "parsimony"
    ));
}

#[test]
fn target_bounds_must_come_in_pairs() {
    let mut a = default_args();
    assert!(check_target_bounds(true, true, &a).is_ok());
    assert!(check_target_bounds(false, false, &a).is_ok());
    assert!(matches!(check_target_bounds(true, false, &a), Err(CliError::InvalidTargetBounds)));
    a.interval_targets = true;
    assert!(matches!(check_target_bounds(false, true, &a), Err(CliError::UnpairedTargetBounds)));
}
