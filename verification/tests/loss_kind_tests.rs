use symbolic_regression::loss_functions::{
    LossKind, HALF_BITS, ONE_BITS, TENTH_BITS, TWO_BITS,
};

#[test]
fn names_are_read_ignoring_case_and_surrounding_whitespace() {
    assert_eq!(LossKind::parse("mse"), Some(LossKind::Mse));
    assert_eq!(LossKind::parse("  MAE\t"), Some(LossKind::Mae));
    assert_eq!(LossKind::parse("RMSE"), Some(LossKind::Rmse));
    assert_eq!(LossKind::parse("LogCosh"), Some(LossKind::LogCosh));
    assert_eq!(LossKind::parse("huber"), Some(LossKind::Huber { delta_bits: ONE_BITS }));
    assert_eq!(LossKind::parse("lp"), Some(LossKind::Lp { p_bits: TWO_BITS }));
    assert_eq!(LossKind::parse("quantile"), Some(LossKind::Quantile { tau_bits: HALF_BITS }));
    for n in ["epsilon-insensitive", "epsilon_insensitive", "eps-insensitive", "EPS_INSENSITIVE"] {
        assert_eq!(
            LossKind::parse(n),
            Some(LossKind::EpsilonInsensitive { eps_bits: TENTH_BITS })
        );
    }
    assert_eq!(LossKind::parse("l2"), None);
    assert_eq!(LossKind::parse(""), None);
    assert_eq!(LossKind::parse("m se"), None);
}

#[test]
fn default_parameters_are_the_documented_reals() {
    assert_eq!(f64::from_bits(ONE_BITS), 1.0);
    assert_eq!(f64::from_bits(TWO_BITS), 2.0);
    assert_eq!(f64::from_bits(HALF_BITS), 0.5);
    assert_eq!(f64::from_bits(TENTH_BITS), 0.1);
}
