use symbolic_regression::pop_member::{clock_birth, deterministic_birth, next_birth_counter, Evaluator};

#[test]
fn deterministic_births_count_up() {
    let mut counter = 0u64;
    let mut births = Vec::new();
    for _ in 0..3 {
        births.push(deterministic_birth(counter));
        counter = next_birth_counter(counter);
    }
    assert_eq!(births, vec![1, 2, 3]);
    assert_eq!(deterministic_birth(u64::MAX), u64::MAX);
    assert_eq!(next_birth_counter(u64::MAX), 0);
}

#[test]
fn clock_births_are_rounded_ticks_of_100ns() {
    assert_eq!(clock_birth(0, 0), 0);
    assert_eq!(clock_birth(0, 49), 0);
    assert_eq!(clock_birth(0, 50), 1);
    assert_eq!(clock_birth(1, 999_999_999), 20_000_000);
    assert_eq!(clock_birth(u64::MAX, 0), u64::MAX);
    assert!(clock_birth(5, 100) < clock_birth(5, 200));
}

#[test]
fn evaluator_buffers_follow_the_row_count() {
    let mut ev = Evaluator::new(3, 0i64);
    assert!(ev.check_finite && ev.early_exit);
    assert_eq!(ev.yhat, vec![0, 0, 0]);
    assert_eq!(ev.loss_weights, vec![0, 0, 0]);
    ev.yhat[1] = 7;
    ev.loss_weights[2] = 4;
    ev.ensure_n_rows(5, 0);
    assert_eq!(ev.yhat, vec![0, 7, 0, 0, 0]);
    assert_eq!(ev.loss_weights, vec![0, 0, 4, 0, 0]);
    ev.ensure_n_rows(2, 0);
    assert_eq!(ev.yhat, vec![0, 7]);
    assert_eq!(ev.loss_weights, vec![0, 0]);
}
