//! Early stopping on a plateau of the validation accuracy.

use vstd::prelude::*;
use crate::scalar::{Scalar, spec_zero, spec_from_count, zero, from_count};
use crate::network::state::{Network, NetworkModel};
use crate::fixed::{Fixed, scale};

verus! {

/// Training stops once the steps of the accuracy between the last
/// `patience` epochs are, on average, no more than `stability_threshold`.
pub struct EarlyStopping<S> {
    pub stability_threshold: S,
    pub patience: usize,
}

/// The sum of the first `count` steps of the history from entry `start` on:
/// `history[start + i] - history[start + i - 1]` for `i` from 1 to `count`,
/// added up from the left, starting at zero.
pub open spec fn spec_difference_sum<S: Scalar>(history: Seq<S>, start: int, count: nat) -> S
    decreases count,
{
    if count == 0 {
        spec_zero::<S>()
    } else {
        spec_difference_sum(history, start, (count - 1) as nat).spec_add(
            history[start + count].spec_sub(history[start + count - 1]),
        )
    }
}

/// The number of steps between the last `patience` entries of a history.
pub open spec fn spec_window_steps(patience: usize) -> nat {
    if patience == 0 {
        0
    } else {
        (patience - 1) as nat
    }
}

/// The mean of a sum of `steps` steps: the sum divided by the number of
/// steps. Where there is no step, as in a window of one entry, the mean is
/// zero.
pub open spec fn spec_mean_of_steps<S: Scalar>(sum: S, steps: nat) -> S {
    if steps == 0 {
        spec_zero::<S>()
    } else {
        sum.spec_div(spec_from_count::<S>(steps as usize))
    }
}

/// The mean step between the last `patience` entries of the history: the
/// sum of the steps divided by their number, which is one less than the
/// patience. A patience of one leaves no step, and the mean is zero.
pub open spec fn spec_mean_difference<S: Scalar>(history: Seq<S>, patience: usize) -> S {
    spec_mean_of_steps(
        spec_difference_sum(history, history.len() - patience, spec_window_steps(patience)),
        spec_window_steps(patience),
    )
}

/// Whether the history has reached a plateau: it holds at least `patience`
/// entries and the mean step between the last `patience` of them is at most
/// the threshold. With a patience of one this asks no more than that zero is
/// at most the threshold.
pub open spec fn spec_plateau<S: Scalar>(history: Seq<S>, patience: usize, threshold: S) -> bool {
    history.len() >= patience && spec_mean_difference(history, patience).spec_less_eq(threshold)
}

/// Whether the last `patience` entries of the history are all the same.
pub open spec fn constant_window<S>(history: Seq<S>, patience: usize) -> bool {
    &&& history.len() >= patience
    &&& forall|i: int, j: int|
        history.len() - patience <= i < history.len() && history.len() - patience <= j
            < history.len() ==> history[i] == history[j]
}

/// Training does not stop before the history holds `patience` entries.
pub proof fn lemma_no_plateau_before_window_is_full<S: Scalar>(
    history: Seq<S>,
    patience: usize,
    threshold: S,
)
    requires
        history.len() < patience,
    ensures
        !spec_plateau(history, patience, threshold),
{
}

/// Over a window of equal entries the steps add up to what zero plus the
/// step from an entry to itself, taken again and again, adds up to.
pub proof fn lemma_constant_window_sum<S: Scalar>(history: Seq<S>, patience: usize, count: nat)
    requires
        constant_window(history, patience),
        count < patience,
        forall|value: S| #[trigger] value.spec_sub(value) == spec_zero::<S>(),
        spec_zero::<S>().spec_add(spec_zero::<S>()) == spec_zero::<S>(),
    ensures
        spec_difference_sum(history, history.len() - patience, count) == spec_zero::<S>(),
    decreases count,
{
    if count > 0 {
        lemma_constant_window_sum(history, patience, (count - 1) as nat);
        let start = history.len() - patience;
        assert(history[start + count] == history[start + count - 1]);
    }
}

/// A history whose last `patience` entries are all the same has reached a
/// plateau, for every scalar in which a number minus itself is zero, zero
/// plus zero is zero, and the mean of steps that add up to zero is at most
/// the threshold.
pub proof fn lemma_constant_window_is_plateau_in<S: Scalar>(
    history: Seq<S>,
    patience: usize,
    threshold: S,
)
    requires
        constant_window(history, patience),
        forall|value: S| #[trigger] value.spec_sub(value) == spec_zero::<S>(),
        spec_zero::<S>().spec_add(spec_zero::<S>()) == spec_zero::<S>(),
        spec_mean_of_steps(spec_zero::<S>(), spec_window_steps(patience)).spec_less_eq(threshold),
    ensures
        spec_plateau(history, patience, threshold),
{
    if patience > 0 {
        lemma_constant_window_sum(history, patience, spec_window_steps(patience));
    }
}

/// With the fixed-point scalar, a history whose last `patience` entries are
/// all the same has reached a plateau, whatever threshold that is not
/// negative was set.
pub proof fn lemma_constant_window_is_plateau(
    history: Seq<Fixed>,
    patience: usize,
    threshold: Fixed,
)
    requires
        constant_window(history, patience),
        0 <= threshold.raw,
    ensures
        spec_plateau(history, patience, threshold),
{
    assert(spec_zero::<Fixed>() == Fixed { raw: 0 });
    assert forall|value: Fixed| #[trigger] value.spec_sub(value) == spec_zero::<Fixed>() by {}
    assert(0 * scale() == 0);
    assert(spec_mean_of_steps(spec_zero::<Fixed>(), spec_window_steps(patience)).raw == 0);
    lemma_constant_window_is_plateau_in(history, patience, threshold);
}

/// Whether the accuracy of the new epoch repeats the history: as far as the
/// window of the last `patience` epochs reaches back, every accuracy
/// recorded before is the new one.
pub open spec fn repeats_history<S>(history: Seq<S>, accuracy: S, patience: usize) -> bool {
    forall|i: int|
        0 <= i < history.len() && history.len() + 1 - patience <= i ==> #[trigger] history[i]
            == accuracy
}

/// Where the accuracy of every epoch within the window is the same, training
/// stops exactly from the first epoch at which the window is full: for every
/// scalar in which a number minus itself is zero, zero plus zero is zero,
/// and the mean of steps that add up to zero is at most the threshold. The
/// history itself only grows by the new accuracy.
pub proof fn lemma_constant_accuracy_stops_when_window_is_full_in<S: Scalar>(
    model: NetworkModel<S>,
    accuracy: S,
)
    requires
        repeats_history(model.performance, accuracy, model.early_stopping.patience),
        forall|value: S| #[trigger] value.spec_sub(value) == spec_zero::<S>(),
        spec_zero::<S>().spec_add(spec_zero::<S>()) == spec_zero::<S>(),
        spec_mean_of_steps(
            spec_zero::<S>(),
            spec_window_steps(model.early_stopping.patience),
        ).spec_less_eq(model.early_stopping.stability_threshold),
    ensures
        model.record(accuracy).performance == model.performance + seq![accuracy],
        model.stops_after(accuracy) == (model.performance.len() + 1
            >= model.early_stopping.patience),
{
    let grown = model.performance.push(accuracy);
    assert(grown =~= model.performance + seq![accuracy]);
    if grown.len() >= model.early_stopping.patience {
        assert(constant_window(grown, model.early_stopping.patience));
        lemma_constant_window_is_plateau_in(
            grown,
            model.early_stopping.patience,
            model.early_stopping.stability_threshold,
        );
    }
}

/// With the fixed-point scalar and a threshold that is not negative, training
/// on a constant accuracy stops exactly from the first epoch at which the
/// window is full.
pub proof fn lemma_constant_accuracy_stops_when_window_is_full(
    model: NetworkModel<Fixed>,
    accuracy: Fixed,
)
    requires
        repeats_history(model.performance, accuracy, model.early_stopping.patience),
        0 <= model.early_stopping.stability_threshold.raw,
    ensures
        model.record(accuracy).performance == model.performance + seq![accuracy],
        model.stops_after(accuracy) == (model.performance.len() + 1
            >= model.early_stopping.patience),
{
    assert(spec_zero::<Fixed>() == Fixed { raw: 0 });
    assert forall|value: Fixed| #[trigger] value.spec_sub(value) == spec_zero::<Fixed>() by {}
    assert(0 * scale() == 0);
    assert(spec_mean_of_steps(
        spec_zero::<Fixed>(),
        spec_window_steps(model.early_stopping.patience),
    ).raw == 0);
    lemma_constant_accuracy_stops_when_window_is_full_in(model, accuracy);
}

impl<S: Scalar> NetworkModel<S> {
    /// The network after `accuracy` has been recorded for an epoch.
    pub open spec fn record(self, accuracy: S) -> Self {
        NetworkModel { performance: self.performance.push(accuracy), ..self }
    }

    /// Whether training stops once `accuracy` has been recorded.
    pub open spec fn stops_after(self, accuracy: S) -> bool {
        spec_plateau(
            self.performance.push(accuracy),
            self.early_stopping.patience,
            self.early_stopping.stability_threshold,
        )
    }
}

impl<S: Scalar> EarlyStopping<S> {
    /// Records the accuracy of an epoch and says whether training stops: the
    /// history holds at least `patience` accuracies, and the mean step
    /// between the last `patience` of them is at most the threshold.
    pub fn check(network: &mut Network<S>, accuracy: S) -> (stop: bool)
        ensures
            final(network)@ == old(network)@.record(accuracy),
            stop == old(network)@.stops_after(accuracy),
    {
        network.performance.push(accuracy);
        let patience = network.hyper_params.early_stopping.patience;
        let len = network.performance.len();
        if len >= patience {
            let start = len - patience;
            let steps = if patience == 0 {
                0
            } else {
                patience - 1
            };
            let mut sum_diff: S = zero();
            let mut index: usize = 0;
            while index < steps
                invariant
                    index <= steps,
                    steps == spec_window_steps(patience),
                    start + patience == len,
                    len == network.performance@.len(),
                    sum_diff == spec_difference_sum(network.performance@, start as int, index as nat),
                decreases steps - index,
            {
                index += 1;
                sum_diff = sum_diff.add(
                    network.performance[start + index].sub(network.performance[start + index - 1]),
                );
            }
            let mean_diff = if steps == 0 {
                zero()
            } else {
                sum_diff.div(from_count(steps))
            };
            mean_diff.less_eq(network.hyper_params.early_stopping.stability_threshold)
        } else {
            false
        }
    }
}

} // verus!
