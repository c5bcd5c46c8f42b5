use fastrand::Rng;
use symbolic_regression::dataset::{
    check_layout, is_nondecreasing, Dataset, DatasetError, LossRows, TaggedDataset,
};

fn small(ids: Option<Vec<usize>>) -> Dataset<f64> {
    let x = vec![vec![0.0, 1.0, 2.0, 3.0], vec![10.0, 11.0, 12.0, 13.0]];
    let y = vec![1.0, 2.0, 3.0, 4.0];
    match ids {
        Some(ids) => Dataset::with_weights_names_and_sequence_ids(
            x,
            y,
            Some(vec![1.0, 2.0, 3.0, 4.0]),
            vec!["a".into(), "b".into()],
            ids,
            2.5,
        ),
        None => Dataset::new(x, y, 2.5),
    }
}

#[test]
fn layout_checks_report_the_first_problem() {
    let x = vec![vec![0.0f64, 1.0]];
    let y = vec![0.0f64, 1.0];
    assert_eq!(check_layout(&x, &y, &None, &None, &None, &None), Ok(()));
    assert_eq!(
        check_layout(&vec![vec![0.0f64]], &y, &None, &None, &None, &None),
        Err(DatasetError::FeatureLengthMismatch)
    );
    assert_eq!(
        check_layout(&x, &y, &Some(vec![1.0]), &None, &None, &None),
        Err(DatasetError::WeightLengthMismatch)
    );
    assert_eq!(
        check_layout(&x, &y, &None, &Some(vec![0]), &None, &None),
        Err(DatasetError::SequenceIdLengthMismatch)
    );
    assert_eq!(
        check_layout(&x, &y, &None, &Some(vec![1, 0]), &None, &None),
        Err(DatasetError::SequenceIdsNotNondecreasing)
    );
    assert_eq!(
        check_layout(&x, &y, &None, &None, &Some(vec![0.0, 0.0]), &None),
        Err(DatasetError::UnpairedBounds)
    );
    assert_eq!(
        check_layout(&x, &y, &None, &None, &Some(vec![0.0]), &Some(vec![0.0, 0.0])),
        Err(DatasetError::BoundLengthMismatch)
    );
}

#[test]
fn nondecreasing_ids() {
    assert!(is_nondecreasing(&[]));
    assert!(is_nondecreasing(&[0, 0, 1, 5]));
    assert!(!is_nondecreasing(&[0, 2, 1]));
}

#[test]
fn constructors_keep_their_parts() {
    let d = small(None);
    assert_eq!(d.n_features, 2);
    assert_eq!(d.n_rows, 4);
    assert_eq!(d.y_slice(), &[1.0, 2.0, 3.0, 4.0]);
    assert!(d.weights_slice().is_none());
    assert!(d.target_bounds_slice().is_none());
    let b = Dataset::with_weights_names_and_bounds(
        vec![vec![0.0]],
        vec![0.5],
        None,
        vec!["x".into()],
        vec![0.0],
        vec![1.0],
        0.5,
    );
    let (lo, hi) = b.target_bounds_slice().unwrap();
    assert_eq!((lo, hi), (&[0.0][..], &[1.0][..]));
    let s = Dataset::with_weights_names_sequence_ids_and_bounds(
        vec![vec![0.0, 1.0]],
        vec![0.5, 0.5],
        None,
        vec!["x".into()],
        vec![3, 3],
        vec![0.0, 0.0],
        vec![1.0, 1.0],
        0.5,
    );
    assert_eq!(s.sequence_ids_slice(), Some(&[3usize, 3][..]));
}

#[test]
fn delays_are_valid_only_within_a_sequence() {
    let d = small(Some(vec![0, 0, 1, 1]));
    assert!(!d.delay_valid_at(0, 1));
    assert!(d.delay_valid_at(1, 1));
    assert!(!d.delay_valid_at(2, 1));
    assert!(d.delay_valid_at(3, 1));
    assert!(!d.delay_valid_at(3, 2));
    assert!(d.delay_valid_at(2, 0));
    assert!(d.has_valid_delay_rows(1));
    assert!(!d.has_valid_delay_rows(2));
    let plain = small(None);
    assert!(plain.delay_valid_at(3, 3));
    assert!(!plain.delay_valid_at(2, 3));
    assert!(plain.has_valid_delay_rows(3));
    assert!(!plain.has_valid_delay_rows(4));
}

#[test]
fn loss_rows_follow_delay_and_interval_rules() {
    let plain = small(None);
    assert!(matches!(plain.loss_rows(0, false), Some(LossRows::All)));
    assert!(plain.loss_rows(0, true).is_none());
    assert!(matches!(plain.loss_rows(2, false), Some(LossRows::From(2))));
    assert!(plain.loss_rows(4, false).is_none());
    let seq = small(Some(vec![0, 0, 1, 1]));
    match seq.loss_rows(1, false) {
        Some(LossRows::Masked(m)) => assert_eq!(m, vec![false, true, false, true]),
        _ => panic!("expected a mask"),
    }
    assert!(seq.loss_rows(2, false).is_none());
    assert_eq!(seq.delay_loss_weights(1, 1.0, 0.0), Some(vec![0.0, 2.0, 0.0, 4.0]));
    assert_eq!(seq.delay_loss_weights(2, 1.0, 0.0), None);
}

#[test]
fn batch_buffer_has_the_shape_of_the_full_dataset() {
    let full = small(Some(vec![0, 0, 1, 1]));
    let b = Dataset::make_batch_buffer(&full, 3, 0.0);
    assert_eq!(b.n_rows, 3);
    assert_eq!(b.n_features, 2);
    assert_eq!(b.x, vec![vec![0.0; 3], vec![0.0; 3]]);
    assert_eq!(b.weights, Some(vec![0.0; 3]));
    assert!(b.sequence_ids.is_none());
    assert_eq!(b.variable_names, full.variable_names);
    assert_eq!(b.avg_y, 2.5);
    assert_eq!(Dataset::make_batch_buffer(&full, 0, 0.0).n_rows, 1);
}

#[test]
fn resampling_draws_whole_samples_from_the_full_dataset() {
    let full = small(Some(vec![0, 0, 1, 1]));
    let mut b = Dataset::make_batch_buffer(&full, 16, 0.0);
    let mut rng = Rng::with_seed(0);
    b.resample_from(&full, &mut rng);
    assert_eq!(b.n_rows, 16);
    let w = b.weights.clone().unwrap();
    for i in 0..16 {
        let j = b.x[0][i] as usize;
        assert!(j < 4);
        assert_eq!(b.x[1][i], 10.0 + j as f64);
        assert_eq!(b.y[i], 1.0 + j as f64);
        assert_eq!(w[i], 1.0 + j as f64);
    }
    // Draws range over the whole dataset, not one row only.
    assert!(b.y.iter().any(|&v| v != b.y[0]));
    let mut again = Dataset::make_batch_buffer(&full, 16, 0.0);
    again.resample_from(&full, &mut Rng::with_seed(0));
    assert_eq!(again.y, b.y);
}

#[test]
fn tagged_dataset_of_the_full_data_counts_its_own_rows() {
    let d = small(None);
    let t = TaggedDataset::new(&d, Some(0.25));
    assert_eq!(t.full_n_rows, 4);
    assert_eq!(t.baseline_loss, Some(0.25));
    let t = TaggedDataset::for_batch(&d, None, 100);
    assert_eq!(t.full_n_rows, 100);
}

#[test]
fn copying_samples_takes_the_named_rows() {
    let full = small(Some(vec![0, 0, 1, 1]));
    let mut b = Dataset::make_batch_buffer(&full, 3, 0.0);
    b.copy_samples(&full, &vec![3, 0, 3]);
    assert_eq!(b.x, vec![vec![3.0, 0.0, 3.0], vec![13.0, 10.0, 13.0]]);
    assert_eq!(b.y, vec![4.0, 1.0, 4.0]);
    assert_eq!(b.weights, Some(vec![4.0, 1.0, 4.0]));
    assert_eq!(b.sequence_ids, None);
}
