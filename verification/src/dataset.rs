//! The layout of a training dataset: feature rows, targets, optional weights,
//! sequence ids and interval targets, and the row bookkeeping that the loss
//! needs (delays within a sequence, batches drawn at random).
//!
//! Values are of any copyable type; the arithmetic on them (averages,
//! comparisons of bounds, losses) belongs to the numeric layer.
use crate::random::rng_index_below;
use crate::text::clone_strings;
use fastrand::Rng;
use vstd::prelude::*;

verus! {

/// Why a dataset layout was refused.
#[derive(Clone, Copy, Debug, PartialEq, Eq)]
pub enum DatasetError {
    /// A feature row does not have one value per target.
    FeatureLengthMismatch,
    /// There is not one weight per row.
    WeightLengthMismatch,
    /// There is not one sequence id per row.
    SequenceIdLengthMismatch,
    /// The sequence ids decrease somewhere, so a sequence is not contiguous.
    SequenceIdsNotNondecreasing,
    /// There is not one lower and one upper bound per row.
    BoundLengthMismatch,
    /// Only one of the lower and upper target bounds was given.
    UnpairedBounds,
}

pub open spec fn nondecreasing(ids: Seq<usize>) -> bool {
    forall|i: int, j: int| 0 <= i <= j < ids.len() ==> ids[i] <= ids[j]
}

/// Whether each id is at most the next one.
pub fn is_nondecreasing(ids: &[usize]) -> (r: bool)
    ensures
        r == nondecreasing(ids@),
{
    if ids.len() < 2 {
        return true;
    }
    for k in 1..ids.len()
        invariant
            forall|i: int, j: int| 0 <= i <= j < k ==> ids@[i] <= ids@[j],
    {
        if ids[k - 1] > ids[k] {
            return false;
        }
    }
    true
}

pub open spec fn rows_have_len<T>(x: Seq<Vec<T>>, n: nat) -> bool {
    forall|f: int| 0 <= f < x.len() ==> (#[trigger] x[f])@.len() == n
}

pub open spec fn opt_len<T>(v: Option<Vec<T>>, n: nat) -> bool {
    v matches Some(w) ==> w@.len() == n
}

/// The first problem with a layout, in the order in which they are checked,
/// or none.
pub open spec fn layout_error<T>(
    x: Seq<Vec<T>>,
    n_rows: nat,
    weights: Option<Vec<T>>,
    sequence_ids: Option<Vec<usize>>,
    target_low: Option<Vec<T>>,
    target_high: Option<Vec<T>>,
) -> Option<DatasetError> {
    if !rows_have_len(x, n_rows) {
        Some(DatasetError::FeatureLengthMismatch)
    } else if !opt_len(weights, n_rows) {
        Some(DatasetError::WeightLengthMismatch)
    } else if !opt_len(sequence_ids, n_rows) {
        Some(DatasetError::SequenceIdLengthMismatch)
    } else if sequence_ids matches Some(ids) && !nondecreasing(ids@) {
        Some(DatasetError::SequenceIdsNotNondecreasing)
    } else if target_low is Some != target_high is Some {
        Some(DatasetError::UnpairedBounds)
    } else if !opt_len(target_low, n_rows) || !opt_len(target_high, n_rows) {
        Some(DatasetError::BoundLengthMismatch)
    } else {
        None
    }
}

fn check_opt_len<T>(v: &Option<Vec<T>>, n: usize) -> (r: bool)
    ensures
        r == opt_len(*v, n as nat),
{
    match v {
        Some(w) => w.len() == n,
        None => true,
    }
}

/// Checks the shapes of the parts of a dataset; `y` fixes the row count.
pub fn check_layout<T>(
    x: &Vec<Vec<T>>,
    y: &Vec<T>,
    weights: &Option<Vec<T>>,
    sequence_ids: &Option<Vec<usize>>,
    target_low: &Option<Vec<T>>,
    target_high: &Option<Vec<T>>,
) -> (r: Result<(), DatasetError>)
    ensures
        match layout_error(x@, y@.len(), *weights, *sequence_ids, *target_low, *target_high) {
            Some(e) => r == Err::<(), DatasetError>(e),
            None => r is Ok,
        },
{
    let n = y.len();
    for f in 0..x.len()
        invariant
            n == y@.len(),
            forall|g: int| 0 <= g < f ==> (#[trigger] x@[g])@.len() == n,
    {
        if x[f].len() != n {
            return Err(DatasetError::FeatureLengthMismatch);
        }
    }
    if !check_opt_len(weights, n) {
        return Err(DatasetError::WeightLengthMismatch);
    }
    if !check_opt_len(sequence_ids, n) {
        return Err(DatasetError::SequenceIdLengthMismatch);
    }
    if let Some(ids) = sequence_ids {
        if !is_nondecreasing(ids.as_slice()) {
            return Err(DatasetError::SequenceIdsNotNondecreasing);
        }
    }
    if target_low.is_some() != target_high.is_some() {
        return Err(DatasetError::UnpairedBounds);
    }
    if !check_opt_len(target_low, n) || !check_opt_len(target_high, n) {
        return Err(DatasetError::BoundLengthMismatch);
    }
    Ok(())
}

/// Training data: one row of values per feature (each with one value per
/// sample), the targets, and optional per-sample weights, sequence ids and
/// inclusive target bounds.
pub struct Dataset<T> {
    /// `x[f][r]` is feature `f` of sample `r`.
    pub x: Vec<Vec<T>>,
    pub y: Vec<T>,
    pub n_features: usize,
    pub n_rows: usize,
    pub weights: Option<Vec<T>>,
    pub variable_names: Vec<String>,
    /// Sequence or group id per sample; a delay is valid only within a
    /// sequence.
    pub sequence_ids: Option<Vec<usize>>,
    /// Inclusive lower target bound per sample.
    pub target_low: Option<Vec<T>>,
    /// Inclusive upper target bound per sample.
    pub target_high: Option<Vec<T>>,
    /// The (weighted) mean of the targets.
    pub avg_y: T,
}

impl<T: Copy> Dataset<T> {
    pub open spec fn wf(&self) -> bool {
        &&& self.x@.len() == self.n_features
        &&& self.y@.len() == self.n_rows
        &&& layout_error(
            self.x@,
            self.n_rows as nat,
            self.weights,
            self.sequence_ids,
            self.target_low,
            self.target_high,
        ) is None
    }

    /// The dataset made of the given parts, which `check_layout` accepts;
    /// `avg_y` is the mean of the targets that the numeric layer computed.
    pub fn build_dataset(
        x: Vec<Vec<T>>,
        y: Vec<T>,
        weights: Option<Vec<T>>,
        variable_names: Vec<String>,
        sequence_ids: Option<Vec<usize>>,
        target_low: Option<Vec<T>>,
        target_high: Option<Vec<T>>,
        avg_y: T,
    ) -> (r: Self)
        requires
            layout_error(x@, y@.len(), weights, sequence_ids, target_low, target_high) is None,
        ensures
            r.wf(),
            r.x == x,
            r.y == y,
            r.n_features == x@.len(),
            r.n_rows == y@.len(),
            r.weights == weights,
            r.variable_names == variable_names,
            r.sequence_ids == sequence_ids,
            r.target_low == target_low,
            r.target_high == target_high,
            r.avg_y == avg_y,
    {
        let n_features = x.len();
        let n_rows = y.len();
        Dataset {
            x,
            y,
            n_features,
            n_rows,
            weights,
            variable_names,
            sequence_ids,
            target_low,
            target_high,
            avg_y,
        }
    }

    pub fn new(x: Vec<Vec<T>>, y: Vec<T>, avg_y: T) -> (r: Self)
        requires
            rows_have_len(x@, y@.len()),
        ensures
            r.wf(),
            r.x == x,
            r.y == y,
            r.weights is None,
            r.variable_names@.len() == 0,
            r.sequence_ids is None,
            r.target_low is None,
            r.target_high is None,
            r.avg_y == avg_y,
    {
        Self::build_dataset(x, y, None, Vec::new(), None, None, None, avg_y)
    }

    pub fn with_weights_and_names(
        x: Vec<Vec<T>>,
        y: Vec<T>,
        weights: Option<Vec<T>>,
        variable_names: Vec<String>,
        avg_y: T,
    ) -> (r: Self)
        requires
            layout_error(x@, y@.len(), weights, None, None, None) is None,
        ensures
            r.wf(),
            r.x == x,
            r.y == y,
            r.weights == weights,
            r.variable_names == variable_names,
            r.sequence_ids is None,
            r.target_low is None,
            r.target_high is None,
            r.avg_y == avg_y,
    {
        Self::build_dataset(x, y, weights, variable_names, None, None, None, avg_y)
    }

    pub fn with_weights_names_and_bounds(
        x: Vec<Vec<T>>,
        y: Vec<T>,
        weights: Option<Vec<T>>,
        variable_names: Vec<String>,
        target_low: Vec<T>,
        target_high: Vec<T>,
        avg_y: T,
    ) -> (r: Self)
        requires
            layout_error(x@, y@.len(), weights, None, Some(target_low), Some(target_high))
                is None,
        ensures
            r.wf(),
            r.x == x,
            r.y == y,
            r.weights == weights,
            r.variable_names == variable_names,
            r.sequence_ids is None,
            r.target_low == Some(target_low),
            r.target_high == Some(target_high),
            r.avg_y == avg_y,
    {
        Self::build_dataset(
            x,
            y,
            weights,
            variable_names,
            None,
            Some(target_low),
            Some(target_high),
            avg_y,
        )
    }

    pub fn with_weights_names_and_sequence_ids(
        x: Vec<Vec<T>>,
        y: Vec<T>,
        weights: Option<Vec<T>>,
        variable_names: Vec<String>,
        sequence_ids: Vec<usize>,
        avg_y: T,
    ) -> (r: Self)
        requires
            layout_error(x@, y@.len(), weights, Some(sequence_ids), None, None) is None,
        ensures
            r.wf(),
            r.x == x,
            r.y == y,
            r.weights == weights,
            r.variable_names == variable_names,
            r.sequence_ids == Some(sequence_ids),
            r.target_low is None,
            r.target_high is None,
            r.avg_y == avg_y,
    {
        Self::build_dataset(x, y, weights, variable_names, Some(sequence_ids), None, None, avg_y)
    }

    pub fn with_weights_names_sequence_ids_and_bounds(
        x: Vec<Vec<T>>,
        y: Vec<T>,
        weights: Option<Vec<T>>,
        variable_names: Vec<String>,
        sequence_ids: Vec<usize>,
        target_low: Vec<T>,
        target_high: Vec<T>,
        avg_y: T,
    ) -> (r: Self)
        requires
            layout_error(
                x@,
                y@.len(),
                weights,
                Some(sequence_ids),
                Some(target_low),
                Some(target_high),
            ) is None,
        ensures
            r.wf(),
            r.x == x,
            r.y == y,
            r.weights == weights,
            r.variable_names == variable_names,
            r.sequence_ids == Some(sequence_ids),
            r.target_low == Some(target_low),
            r.target_high == Some(target_high),
            r.avg_y == avg_y,
    {
        Self::build_dataset(
            x,
            y,
            weights,
            variable_names,
            Some(sequence_ids),
            Some(target_low),
            Some(target_high),
            avg_y,
        )
    }

    pub fn y_slice(&self) -> (r: &[T])
        ensures
            r@ == self.y@,
    {
        self.y.as_slice()
    }

    pub fn weights_slice(&self) -> (r: Option<&[T]>)
        ensures
            match self.weights {
                Some(w) => r matches Some(s) && s@ == w@,
                None => r is None,
            },
    {
        match &self.weights {
            Some(w) => Some(w.as_slice()),
            None => None,
        }
    }

    pub fn sequence_ids_slice(&self) -> (r: Option<&[usize]>)
        ensures
            match self.sequence_ids {
                Some(w) => r matches Some(s) && s@ == w@,
                None => r is None,
            },
    {
        match &self.sequence_ids {
            Some(w) => Some(w.as_slice()),
            None => None,
        }
    }

    /// Both target bounds, when the dataset has them.
    pub fn target_bounds_slice(&self) -> (r: Option<(&[T], &[T])>)
        ensures
            match (self.target_low, self.target_high) {
                (Some(lo), Some(hi)) => r matches Some(p) && p.0@ == lo@ && p.1@ == hi@,
                _ => r is None,
            },
    {
        match (&self.target_low, &self.target_high) {
            (Some(low), Some(high)) => Some((low.as_slice(), high.as_slice())),
            _ => None,
        }
    }

    /// Whether the sample `offset` rows back from `row` exists and lies in
    /// the same sequence.
    pub open spec fn spec_delay_valid_at(&self, row: int, offset: int) -> bool {
        &&& row >= offset
        &&& match self.sequence_ids {
            None => true,
            Some(ids) => ids@[row] == ids@[row - offset],
        }
    }

    pub fn delay_valid_at(&self, row: usize, offset: usize) -> (r: bool)
        requires
            self.wf(),
            self.sequence_ids is Some ==> row < self.n_rows,
        ensures
            r == self.spec_delay_valid_at(row as int, offset as int),
    {
        if row < offset {
            return false;
        }
        match &self.sequence_ids {
            None => true,
            Some(ids) => ids[row] == ids[row - offset],
        }
    }

    pub open spec fn spec_has_valid_delay_rows(&self, offset: int) -> bool {
        exists|row: int| 0 <= row < self.n_rows && self.spec_delay_valid_at(row, offset)
    }

    /// Whether some sample has a valid delay of `offset` rows.
    pub fn has_valid_delay_rows(&self, offset: usize) -> (r: bool)
        requires
            self.wf(),
        ensures
            r == self.spec_has_valid_delay_rows(offset as int),
    {
        for row in 0..self.n_rows
            invariant
                self.wf(),
                forall|k: int| 0 <= k < row ==> !self.spec_delay_valid_at(k, offset as int),
        {
            if self.delay_valid_at(row, offset) {
                return true;
            }
        }
        false
    }

    /// Which samples the loss of an expression with the given largest delay
    /// is taken over, or none when it cannot be taken: interval targets are
    /// asked for and the dataset has no bounds, the delay reaches past every
    /// sample, or (with sequence ids) no sample has a valid delay.
    pub open spec fn spec_loss_rows(&self, max_delay: int, use_interval_targets: bool) -> Option<
        LossRowsView,
    > {
        let bounds_missing = use_interval_targets && !(self.target_low is Some
            && self.target_high is Some);
        if max_delay == 0 {
            if bounds_missing {
                None
            } else {
                Some(LossRowsView::All)
            }
        } else if self.sequence_ids is None {
            if max_delay >= self.n_rows || bounds_missing {
                None
            } else {
                Some(LossRowsView::From(max_delay))
            }
        } else if !self.spec_has_valid_delay_rows(max_delay) || bounds_missing {
            None
        } else {
            Some(
                LossRowsView::Masked(
                    Seq::new(self.n_rows as nat, |row: int| self.spec_delay_valid_at(row, max_delay)),
                ),
            )
        }
    }

    pub fn loss_rows(&self, max_delay: usize, use_interval_targets: bool) -> (r: Option<LossRows>)
        requires
            self.wf(),
        ensures
            match self.spec_loss_rows(max_delay as int, use_interval_targets) {
                Some(v) => r matches Some(l) && l@ == v,
                None => r is None,
            },
    {
        let bounds_missing = use_interval_targets && !(self.target_low.is_some()
            && self.target_high.is_some());
        if max_delay == 0 {
            if bounds_missing {
                None
            } else {
                Some(LossRows::All)
            }
        } else if self.sequence_ids.is_none() {
            if max_delay >= self.n_rows || bounds_missing {
                None
            } else {
                Some(LossRows::From(max_delay))
            }
        } else if !self.has_valid_delay_rows(max_delay) || bounds_missing {
            None
        } else {
            let mut mask: Vec<bool> = Vec::new();
            for row in 0..self.n_rows
                invariant
                    self.wf(),
                    mask@.len() == row,
                    forall|k: int|
                        0 <= k < row ==> #[trigger] mask@[k] == self.spec_delay_valid_at(
                            k,
                            max_delay as int,
                        ),
            {
                mask.push(self.delay_valid_at(row, max_delay));
            }
            assert(mask@ =~= Seq::new(
                self.n_rows as nat,
                |row: int| self.spec_delay_valid_at(row, max_delay as int),
            ));
            let r = LossRows::Masked(mask);
            assert(r@ == LossRowsView::Masked(
                Seq::new(
                    self.n_rows as nat,
                    |row: int| self.spec_delay_valid_at(row, max_delay as int),
                ),
            ));
            Some(r)
        }
    }

    /// The loss weights for an expression with a positive largest delay over
    /// a dataset with sequence ids: a sample keeps its weight (`one` when the
    /// dataset has none) where its delay is valid, and gets `zero` elsewhere;
    /// none when no sample has a valid delay.
    pub fn delay_loss_weights(&self, max_delay: usize, one: T, zero: T) -> (r: Option<Vec<T>>)
        requires
            self.wf(),
        ensures
            r is None <==> !self.spec_has_valid_delay_rows(max_delay as int),
            r matches Some(w) ==> {
                &&& w@.len() == self.n_rows
                &&& forall|row: int|
                    0 <= row < self.n_rows ==> #[trigger] w@[row] == (if self.spec_delay_valid_at(
                        row,
                        max_delay as int,
                    ) {
                        match self.weights {
                            Some(base) => base@[row],
                            None => one,
                        }
                    } else {
                        zero
                    })
            },
    {
        if !self.has_valid_delay_rows(max_delay) {
            return None;
        }
        let mut w: Vec<T> = Vec::new();
        for row in 0..self.n_rows
            invariant
                self.wf(),
                w@.len() == row,
                forall|k: int|
                    0 <= k < row ==> #[trigger] w@[k] == (if self.spec_delay_valid_at(
                        k,
                        max_delay as int,
                    ) {
                        match self.weights {
                            Some(base) => base@[k],
                            None => one,
                        }
                    } else {
                        zero
                    }),
        {
            let v = if self.delay_valid_at(row, max_delay) {
                match &self.weights {
                    Some(base) => base[row],
                    None => one,
                }
            } else {
                zero
            };
            w.push(v);
        }
        Some(w)
    }

    /// A batch of `max(batch_size, 1)` samples with the features, weights
    /// and bounds that `full` has, every value `zero`, no sequence ids, and
    /// the mean target of `full`.
    pub fn make_batch_buffer(full: &Dataset<T>, batch_size: usize, zero: T) -> (r: Dataset<T>)
        requires
            full.wf(),
            full.n_rows > 0,
        ensures
            r.wf(),
            r.n_rows == (if batch_size == 0 {
                1
            } else {
                batch_size
            }),
            r.n_features == full.n_features,
            forall|f: int, i: int|
                0 <= f < r.n_features && 0 <= i < r.n_rows ==> #[trigger] r.x@[f]@[i] == zero,
            forall|i: int| 0 <= i < r.n_rows ==> #[trigger] r.y@[i] == zero,
            r.weights is Some == full.weights is Some,
            r.weights matches Some(w) ==> forall|i: int| 0 <= i < r.n_rows ==> #[trigger] w@[i]
                == zero,
            r.target_low is Some == full.target_low is Some,
            r.target_high is Some == full.target_high is Some,
            r.target_low matches Some(w) ==> forall|i: int|
                0 <= i < r.n_rows ==> #[trigger] w@[i] == zero,
            r.target_high matches Some(w) ==> forall|i: int|
                0 <= i < r.n_rows ==> #[trigger] w@[i] == zero,
            r.variable_names@ == full.variable_names@,
            r.sequence_ids is None,
            r.avg_y == full.avg_y,
    {
        let batch_size = if batch_size == 0 {
            1
        } else {
            batch_size
        };
        let mut x: Vec<Vec<T>> = Vec::new();
        for f in 0..full.n_features
            invariant
                x@.len() == f,
                batch_size > 0,
                forall|g: int, i: int|
                    0 <= g < f && 0 <= i < batch_size ==> #[trigger] x@[g]@[i] == zero,
                rows_have_len(x@, batch_size as nat),
        {
            x.push(filled(batch_size, zero));
        }
        let y = filled(batch_size, zero);
        let weights = match &full.weights {
            Some(_) => Some(filled(batch_size, zero)),
            None => None,
        };
        let target_low = match &full.target_low {
            Some(_) => Some(filled(batch_size, zero)),
            None => None,
        };
        let target_high = match &full.target_high {
            Some(_) => Some(filled(batch_size, zero)),
            None => None,
        };
        let names = clone_strings(&full.variable_names);
        Self::build_dataset(x, y, weights, names, None, target_low, target_high, full.avg_y)
    }

    /// Refills the samples of this batch with samples of `full` drawn at
    /// random (with replacement), one draw per sample in order.
    pub fn resample_from(&mut self, full: &Dataset<T>, rng: &mut Rng)
        requires
            old(self).wf(),
            full.wf(),
            full.n_rows > 0,
            old(self).n_features == full.n_features,
            old(self).weights is Some == full.weights is Some,
            old(self).target_low is Some == full.target_low is Some,
            old(self).target_high is Some == full.target_high is Some,
        ensures
            final(self).wf(),
            final(self).n_rows == old(self).n_rows,
            final(self).n_features == old(self).n_features,
            final(self).variable_names == old(self).variable_names,
            final(self).sequence_ids == old(self).sequence_ids,
            final(self).avg_y == old(self).avg_y,
            final(self).weights is Some == old(self).weights is Some,
            final(self).target_low is Some == old(self).target_low is Some,
            final(self).target_high is Some == old(self).target_high is Some,
            exists|idx: Seq<usize>| #[trigger] final(self).drawn_from(full, idx),
    {
        let n = self.n_rows;
        let mut idx: Vec<usize> = Vec::new();
        for i in 0..n
            invariant
                idx@.len() == i,
                full.n_rows > 0,
                forall|k: int| 0 <= k < i ==> #[trigger] idx@[k] < full.n_rows,
        {
            idx.push(rng_index_below(rng, full.n_rows));
        }
        self.copy_samples(full, &idx);
    }

    /// Makes sample `i` of this batch a copy of sample `idx[i]` of `full`:
    /// its features, target, weight and bounds.
    pub fn copy_samples(&mut self, full: &Dataset<T>, idx: &Vec<usize>)
        requires
            old(self).wf(),
            full.wf(),
            old(self).n_features == full.n_features,
            old(self).weights is Some == full.weights is Some,
            old(self).target_low is Some == full.target_low is Some,
            old(self).target_high is Some == full.target_high is Some,
            idx@.len() == old(self).n_rows,
            forall|k: int| 0 <= k < idx@.len() ==> #[trigger] idx@[k] < full.n_rows,
        ensures
            final(self).wf(),
            final(self).n_rows == old(self).n_rows,
            final(self).n_features == old(self).n_features,
            final(self).variable_names == old(self).variable_names,
            final(self).sequence_ids == old(self).sequence_ids,
            final(self).avg_y == old(self).avg_y,
            final(self).weights is Some == old(self).weights is Some,
            final(self).target_low is Some == old(self).target_low is Some,
            final(self).target_high is Some == old(self).target_high is Some,
            final(self).drawn_from(full, idx@),
    {
        let n = self.n_rows;
        let mut x: Vec<Vec<T>> = Vec::new();
        for f in 0..full.n_features
            invariant
                full.wf(),
                x@.len() == f,
                idx@.len() == n,
                forall|k: int| 0 <= k < n ==> #[trigger] idx@[k] < full.n_rows,
                rows_have_len(x@, n as nat),
                forall|g: int, i: int|
                    0 <= g < f && 0 <= i < n ==> #[trigger] x@[g]@[i] == full.x@[g]@[idx@[i] as int],
        {
            assert(full.x@[f as int]@.len() == full.n_rows);
            x.push(gather(&full.x[f], idx));
        }
        self.x = x;
        self.y = gather(&full.y, idx);
        self.weights = match &full.weights {
            Some(w) => Some(gather(w, idx)),
            None => None,
        };
        self.target_low = match &full.target_low {
            Some(w) => Some(gather(w, idx)),
            None => None,
        };
        self.target_high = match &full.target_high {
            Some(w) => Some(gather(w, idx)),
            None => None,
        };
        assert(self.drawn_from(full, idx@));
    }

    /// Every sample of this dataset is the sample `idx[i]` of `full`: its
    /// features, target, weight and bounds.
    pub open spec fn drawn_from(&self, full: &Dataset<T>, idx: Seq<usize>) -> bool {
        &&& idx.len() == self.n_rows
        &&& forall|i: int| 0 <= i < idx.len() ==> #[trigger] idx[i] < full.n_rows
        &&& forall|f: int, i: int|
            0 <= f < self.n_features && 0 <= i < self.n_rows ==> #[trigger] self.x@[f]@[i]
                == full.x@[f]@[idx[i] as int]
        &&& forall|i: int| 0 <= i < self.n_rows ==> #[trigger] self.y@[i] == full.y@[idx[i] as int]
        &&& opt_drawn(self.weights, full.weights, idx)
        &&& opt_drawn(self.target_low, full.target_low, idx)
        &&& opt_drawn(self.target_high, full.target_high, idx)
    }
}

pub open spec fn opt_drawn<T>(dst: Option<Vec<T>>, src: Option<Vec<T>>, idx: Seq<usize>) -> bool {
    match (dst, src) {
        (Some(d), Some(s)) => forall|i: int|
            0 <= i < idx.len() ==> #[trigger] d@[i] == s@[idx[i] as int],
        _ => true,
    }
}

/// `n` copies of `value`.
fn filled<T: Copy>(n: usize, value: T) -> (r: Vec<T>)
    ensures
        r@.len() == n,
        forall|i: int| 0 <= i < n ==> #[trigger] r@[i] == value,
{
    let mut r: Vec<T> = Vec::new();
    for i in 0..n
        invariant
            r@.len() == i,
            forall|k: int| 0 <= k < i ==> #[trigger] r@[k] == value,
    {
        r.push(value);
    }
    r
}

/// The values at the given indices.
fn gather<T: Copy>(src: &Vec<T>, idx: &Vec<usize>) -> (r: Vec<T>)
    requires
        forall|k: int| 0 <= k < idx@.len() ==> #[trigger] idx@[k] < src@.len(),
    ensures
        r@.len() == idx@.len(),
        forall|i: int| 0 <= i < idx@.len() ==> #[trigger] r@[i] == src@[idx@[i] as int],
{
    let mut r: Vec<T> = Vec::new();
    for i in 0..idx.len()
        invariant
            r@.len() == i,
            forall|k: int| 0 <= k < idx@.len() ==> #[trigger] idx@[k] < src@.len(),
            forall|k: int| 0 <= k < i ==> #[trigger] r@[k] == src@[idx@[k] as int],
    {
        r.push(src[idx[i]]);
    }
    r
}

/// Delays are valid only within a sequence: when the sample `offset` rows
/// back lies in the same sequence, so does every sample in between, and so
/// every shorter delay from the same sample is valid too.
pub proof fn lemma_delay_valid_within_sequence<T: Copy>(
    d: &Dataset<T>,
    row: int,
    offset: int,
    shorter: int,
)
    requires
        d.wf(),
        0 <= row < d.n_rows,
        0 <= shorter <= offset,
        d.spec_delay_valid_at(row, offset),
    ensures
        d.spec_delay_valid_at(row, shorter),
{
    if let Some(ids) = d.sequence_ids {
        assert(ids@[row - offset] <= ids@[row - shorter] <= ids@[row]);
    }
}

/// A dataset that has a sample with a valid delay of `offset` rows has one
/// for every shorter delay; a delay of zero is valid at every sample.
pub proof fn lemma_valid_delay_rows_shorter<T: Copy>(d: &Dataset<T>, offset: int, shorter: int)
    requires
        d.wf(),
        0 <= shorter <= offset,
    ensures
        d.spec_has_valid_delay_rows(offset) ==> d.spec_has_valid_delay_rows(shorter),
        d.spec_has_valid_delay_rows(0) <==> d.n_rows > 0,
{
    if d.spec_has_valid_delay_rows(offset) {
        let row = choose|row: int| 0 <= row < d.n_rows && d.spec_delay_valid_at(row, offset);
        lemma_delay_valid_within_sequence(d, row, offset, shorter);
    }
    if d.n_rows > 0 {
        assert(d.spec_delay_valid_at(0, 0));
    }
}

/// The samples that a loss is taken over.
pub enum LossRows {
    /// Every sample.
    All,
    /// The samples from this index on.
    From(usize),
    /// The samples whose entry is `true`.
    Masked(Vec<bool>),
}

pub enum LossRowsView {
    All,
    From(int),
    Masked(Seq<bool>),
}

impl View for LossRows {
    type V = LossRowsView;

    open spec fn view(&self) -> LossRowsView {
        match self {
            LossRows::All => LossRowsView::All,
            LossRows::From(k) => LossRowsView::From(*k as int),
            LossRows::Masked(m) => LossRowsView::Masked(m@),
        }
    }
}

/// A dataset together with the baseline loss of the constant-zero
/// expression on it, and the row count of the full dataset that it stands
/// for (equal to its own row count unless it is a batch).
pub struct TaggedDataset<'a, T> {
    pub data: &'a Dataset<T>,
    pub baseline_loss: Option<T>,
    pub full_n_rows: usize,
}

impl<'a, T: Copy> TaggedDataset<'a, T> {
    pub fn new(data: &'a Dataset<T>, baseline_loss: Option<T>) -> (r: Self)
        ensures
            r.data == data,
            r.baseline_loss == baseline_loss,
            r.full_n_rows == data.n_rows,
    {
        TaggedDataset { data, baseline_loss, full_n_rows: data.n_rows }
    }

    pub fn for_batch(batch: &'a Dataset<T>, baseline_loss: Option<T>, full_n_rows: usize) -> (r:
        Self)
        ensures
            r.data == batch,
            r.baseline_loss == baseline_loss,
            r.full_n_rows == full_n_rows,
    {
        TaggedDataset { data: batch, baseline_loss, full_n_rows }
    }
}

} // verus!
