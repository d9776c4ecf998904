//! Evaluation: accuracy and mean cost over a set of samples.

use vstd::prelude::*;
use crate::scalar::{Scalar, spec_zero, spec_one, spec_from_count, zero, one, from_count};
use crate::dataset::Data;
use crate::network::forward::{same_parameters, lemma_forward_overwrites};
use crate::network::optimizations::regularization::Dropout;
use crate::network::state::{Network, NetworkModel};
use crate::network::utils::rows;
use crate::fixed::{Fixed, scale};

verus! {

/// The index of the largest of the first `n` values; of several largest, the
/// last one.
pub open spec fn spec_argmax_prefix<S: Scalar>(values: Seq<S>, n: nat) -> int
    decreases n,
{
    if n <= 1 {
        0
    } else {
        let best = spec_argmax_prefix(values, (n - 1) as nat);
        if values[best].spec_less_eq(values[n - 1]) {
            n - 1
        } else {
            best
        }
    }
}

/// The index of the largest value; of several largest, the last one.
pub open spec fn spec_argmax<S: Scalar>(values: Seq<S>) -> int {
    spec_argmax_prefix(values, values.len())
}

/// Whether the target is one-hot with its one at `index`: the entry at
/// `index` equals one and every other entry equals zero.
pub open spec fn spec_one_hot_at<S: Scalar>(target: Seq<S>, index: int) -> bool {
    &&& 0 <= index < target.len()
    &&& forall|i: int|
        0 <= i < target.len() ==> (#[trigger] target[i]).spec_equals(
            if i == index {
                spec_one::<S>()
            } else {
                spec_zero::<S>()
            },
        )
}

/// A running cost after the first `n` neurons of a sample: for each neuron
/// half the square of target minus output is added, from the left.
pub open spec fn spec_error_sum<S: Scalar>(start: S, outputs: Seq<S>, targets: Seq<S>, n: nat) -> S
    decreases n,
{
    if n == 0 {
        start
    } else {
        spec_error_sum(start, outputs, targets, (n - 1) as nat).spec_add(
            S::spec_from_ratio(1, 2).spec_mul(targets[n - 1].spec_sub(outputs[n - 1]).spec_powi(2)),
        )
    }
}

impl<S: Scalar> NetworkModel<S> {
    /// What the network answers to `inputs` with every neuron active: the
    /// outputs of its last layer. A network without layers answers nothing.
    pub open spec fn predict(self, inputs: Seq<S>) -> Seq<S> {
        if self.depth() == 0 {
            Seq::empty()
        } else {
            self.all_active().forward_layer(inputs, self.depth() - 1).1
        }
    }

    /// Whether the network classifies the sample correctly: the target is
    /// one-hot with its one where the answer is largest.
    pub open spec fn classifies(self, inputs: Seq<S>, targets: Seq<S>) -> bool {
        let outputs = self.predict(inputs);
        outputs.len() > 0 && spec_one_hot_at(targets, spec_argmax(outputs))
    }

    /// The number of the first `n` samples that the network classifies
    /// correctly.
    pub open spec fn correct_count(self, inputs: Seq<Seq<S>>, targets: Seq<Seq<S>>, n: nat) -> nat
        decreases n,
    {
        if n == 0 {
            0
        } else {
            self.correct_count(inputs, targets, (n - 1) as nat) + if self.classifies(
                inputs[n - 1],
                targets[n - 1],
            ) {
                1nat
            } else {
                0nat
            }
        }
    }

    /// The half squared errors of the first `n` samples, added up sample by
    /// sample and neuron by neuron, starting at zero.
    pub open spec fn total_cost(self, inputs: Seq<Seq<S>>, targets: Seq<Seq<S>>, n: nat) -> S
        decreases n,
    {
        if n == 0 {
            spec_zero::<S>()
        } else {
            let outputs = self.predict(inputs[n - 1]);
            spec_error_sum(
                self.total_cost(inputs, targets, (n - 1) as nat),
                outputs,
                targets[n - 1],
                outputs.len(),
            )
        }
    }

    /// Accuracy and mean cost over the samples: the share of samples that are
    /// classified correctly, and the total cost divided by the number of
    /// samples.
    pub open spec fn evaluate(self, inputs: Seq<Seq<S>>, targets: Seq<Seq<S>>) -> (S, S) {
        (
            spec_from_count::<S>(self.correct_count(inputs, targets, inputs.len()) as usize).spec_div(
                spec_from_count::<S>(targets.len() as usize),
            ),
            self.total_cost(inputs, targets, inputs.len()).spec_div(
                spec_from_count::<S>(inputs.len() as usize),
            ),
        )
    }

    /// The network after an evaluation: every neuron is active, and the net
    /// inputs and outputs are those of the last sample.
    pub open spec fn after_evaluation(self, inputs: Seq<Seq<S>>) -> Self {
        if inputs.len() == 0 {
            self.all_active()
        } else {
            self.all_active().forward(inputs[inputs.len() - 1])
        }
    }
}

/// Where every sample is classified correctly, the number of correct
/// samples is the number of samples.
pub proof fn lemma_all_correct<S: Scalar>(
    model: NetworkModel<S>,
    inputs: Seq<Seq<S>>,
    targets: Seq<Seq<S>>,
    n: nat,
)
    requires
        n <= inputs.len(),
        forall|sample: int|
            0 <= sample < n ==> model.classifies(#[trigger] inputs[sample], targets[sample]),
    ensures
        model.correct_count(inputs, targets, n) == n,
    decreases n,
{
    if n > 0 {
        lemma_all_correct(model, inputs, targets, (n - 1) as nat);
    }
}

/// Where no sample is classified correctly, the number of correct samples
/// is zero.
pub proof fn lemma_all_wrong<S: Scalar>(
    model: NetworkModel<S>,
    inputs: Seq<Seq<S>>,
    targets: Seq<Seq<S>>,
    n: nat,
)
    requires
        n <= inputs.len(),
        forall|sample: int|
            0 <= sample < n ==> !model.classifies(#[trigger] inputs[sample], targets[sample]),
    ensures
        model.correct_count(inputs, targets, n) == 0,
    decreases n,
{
    if n > 0 {
        lemma_all_wrong(model, inputs, targets, (n - 1) as nat);
    }
}

/// The accuracy of a network that classifies every sample correctly is the
/// number of samples divided by itself, and that of a network that
/// classifies no sample correctly is zero divided by the number of samples.
pub proof fn lemma_accuracy_at_the_ends<S: Scalar>(
    model: NetworkModel<S>,
    inputs: Seq<Seq<S>>,
    targets: Seq<Seq<S>>,
)
    requires
        inputs.len() <= usize::MAX,
        inputs.len() == targets.len(),
    ensures
        (forall|sample: int|
            0 <= sample < inputs.len() ==> model.classifies(
                #[trigger] inputs[sample],
                targets[sample],
            )) ==> model.evaluate(inputs, targets).0 == spec_from_count::<S>(
            inputs.len() as usize,
        ).spec_div(spec_from_count::<S>(inputs.len() as usize)),
        (forall|sample: int|
            0 <= sample < inputs.len() ==> !model.classifies(
                #[trigger] inputs[sample],
                targets[sample],
            )) ==> model.evaluate(inputs, targets).0 == spec_from_count::<S>(0).spec_div(
            spec_from_count::<S>(inputs.len() as usize),
        ),
{
    if forall|sample: int|
        0 <= sample < inputs.len() ==> model.classifies(#[trigger] inputs[sample], targets[sample]) {
        lemma_all_correct(model, inputs, targets, inputs.len());
    }
    if forall|sample: int|
        0 <= sample < inputs.len() ==> !model.classifies(#[trigger] inputs[sample], targets[sample]) {
        lemma_all_wrong(model, inputs, targets, inputs.len());
    }
}

/// A network that classifies every sample correctly has an accuracy of
/// exactly one, for every scalar in which the number of samples divided by
/// itself is one.
pub proof fn lemma_accuracy_of_all_correct_in<S: Scalar>(
    model: NetworkModel<S>,
    inputs: Seq<Seq<S>>,
    targets: Seq<Seq<S>>,
)
    requires
        inputs.len() <= usize::MAX,
        inputs.len() == targets.len(),
        forall|sample: int|
            0 <= sample < inputs.len() ==> model.classifies(
                #[trigger] inputs[sample],
                targets[sample],
            ),
        spec_from_count::<S>(inputs.len() as usize).spec_div(
            spec_from_count::<S>(inputs.len() as usize),
        ) == spec_one::<S>(),
    ensures
        model.evaluate(inputs, targets).0 == spec_one::<S>(),
{
    lemma_accuracy_at_the_ends(model, inputs, targets);
}

/// A network that classifies no sample correctly has an accuracy of exactly
/// zero, for every scalar in which zero divided by the number of samples is
/// zero.
pub proof fn lemma_accuracy_of_all_wrong_in<S: Scalar>(
    model: NetworkModel<S>,
    inputs: Seq<Seq<S>>,
    targets: Seq<Seq<S>>,
)
    requires
        inputs.len() <= usize::MAX,
        inputs.len() == targets.len(),
        forall|sample: int|
            0 <= sample < inputs.len() ==> !model.classifies(
                #[trigger] inputs[sample],
                targets[sample],
            ),
        spec_from_count::<S>(0).spec_div(spec_from_count::<S>(inputs.len() as usize))
            == spec_zero::<S>(),
    ensures
        model.evaluate(inputs, targets).0 == spec_zero::<S>(),
{
    lemma_accuracy_at_the_ends(model, inputs, targets);
}

/// With the fixed-point scalar, a network that classifies every sample of a
/// set that is not empty correctly has an accuracy of exactly one.
pub proof fn lemma_accuracy_of_all_correct(
    model: NetworkModel<Fixed>,
    inputs: Seq<Seq<Fixed>>,
    targets: Seq<Seq<Fixed>>,
)
    requires
        0 < inputs.len() <= usize::MAX,
        inputs.len() == targets.len(),
        forall|sample: int|
            0 <= sample < inputs.len() ==> model.classifies(
                #[trigger] inputs[sample],
                targets[sample],
            ),
    ensures
        model.evaluate(inputs, targets).0 == spec_one::<Fixed>(),
{
    lemma_all_correct(model, inputs, targets, inputs.len());
    let share = spec_from_count::<Fixed>(inputs.len() as usize);
    assert(share.raw > 0);
    let raw = share.raw as int;
    assert((raw * scale()) / raw == scale()) by (nonlinear_arith)
        requires
            raw > 0,
            scale() == 0x1_0000_0000,
    ;
}

/// With the fixed-point scalar, a network that classifies no sample
/// correctly has an accuracy of exactly zero.
pub proof fn lemma_accuracy_of_all_wrong(
    model: NetworkModel<Fixed>,
    inputs: Seq<Seq<Fixed>>,
    targets: Seq<Seq<Fixed>>,
)
    requires
        inputs.len() <= usize::MAX,
        inputs.len() == targets.len(),
        forall|sample: int|
            0 <= sample < inputs.len() ==> !model.classifies(
                #[trigger] inputs[sample],
                targets[sample],
            ),
    ensures
        model.evaluate(inputs, targets).0 == spec_zero::<Fixed>(),
{
    lemma_all_wrong(model, inputs, targets, inputs.len());
    assert(spec_from_count::<Fixed>(0).raw == 0);
    assert(0 * scale() == 0);
}

/// Making every neuron active keeps the shapes.
pub(crate) proof fn lemma_all_active_wf<S: Scalar>(model: NetworkModel<S>)
    requires
        model.wf(),
    ensures
        model.all_active().wf(),
{
    let active = model.all_active();
    assert forall|layer: int| 0 <= layer < active.dropout_mask.len() implies (
    #[trigger] active.dropout_mask[layer]).len() == active.composition[layer + 0] by {
        assert(model.dropout_mask[layer].len() == model.composition[layer + 0]);
    }
}

impl<S: Scalar> Network<S> {
    /// The index of the largest value; of several largest, the last one.
    pub fn argmax(values: &[S]) -> (r: usize)
        requires
            values@.len() > 0,
        ensures
            r == spec_argmax(values@),
            r < values@.len(),
    {
        let mut best: usize = 0;
        let mut index: usize = 1;
        while index < values.len()
            invariant
                1 <= index <= values@.len(),
                best < index,
                best == spec_argmax_prefix(values@, index as nat),
            decreases values@.len() - index,
        {
            if values[best].less_eq(values[index]) {
                best = index;
            }
            index += 1;
        }
        best
    }

    /// Whether the target is one-hot with its one at `index`.
    pub fn is_one_hot_at(target: &[S], index: usize) -> (r: bool)
        ensures
            r == spec_one_hot_at(target@, index as int),
    {
        if index >= target.len() {
            return false;
        }
        let mut entry: usize = 0;
        while entry < target.len()
            invariant
                entry <= target@.len(),
                index < target@.len(),
                forall|i: int|
                    0 <= i < entry ==> (#[trigger] target@[i]).spec_equals(
                        if i == index {
                            spec_one::<S>()
                        } else {
                            spec_zero::<S>()
                        },
                    ),
            decreases target@.len() - entry,
        {
            let expected: S = if entry == index {
                one()
            } else {
                zero()
            };
            if !target[entry].equals(expected) {
                return false;
            }
            entry += 1;
        }
        true
    }

    /// Evaluates the network on the samples with every neuron active and
    /// returns the accuracy and the mean cost. Parameters, optimiser state
    /// and mini-batch are left as they are.
    pub fn test(&mut self, data: &Data<S>) -> (r: (S, S))
        requires
            old(self).wf(),
            data.fits(old(self)@.composition),
        ensures
            r == old(self)@.evaluate(rows(data.inputs), rows(data.targets)),
            final(self)@ == old(self)@.after_evaluation(rows(data.inputs)),
            final(self).wf(),
    {
        let ghost pre = self@;
        let ghost inputs = rows(data.inputs);
        let ghost targets = rows(data.targets);
        Dropout::set_all_active_mask(self);
        let ghost model = self@;
        proof {
            lemma_all_active_wf(pre);
        }
        let count = data.inputs.len();
        let depth = self.outputs.len();
        let mut correct: usize = 0;
        let mut cost: S = zero();
        let mut index: usize = 0;
        while index < count
            invariant
                index <= count,
                count == data.inputs@.len(),
                count == data.targets@.len(),
                inputs == rows(data.inputs),
                targets == rows(data.targets),
                data.fits(model.composition),
                model == pre.all_active(),
                model.wf(),
                depth == model.depth(),
                self.wf(),
                self@ == if index == 0 {
                    model
                } else {
                    model.forward(inputs[index - 1])
                },
                correct <= index,
                correct == pre.correct_count(inputs, targets, index as nat),
                cost == pre.total_cost(inputs, targets, index as nat),
            decreases count - index,
        {
            let ghost before = self@;
            proof {
                assert(inputs[index as int] == data.inputs@[index as int]@);
                assert(targets[index as int] == data.targets@[index as int]@);
                assert(same_parameters(before, model));
                lemma_forward_overwrites(before, model, inputs[index as int]);
            }
            self.forward(data.inputs[index].as_slice());
            proof {
                assert(self@ == model.forward(inputs[index as int]));
            }
            if depth > 0 {
                proof {
                    assert(self@.outputs[depth - 1] == self.outputs@[depth - 1]@);
                    assert(self@.outputs[depth - 1] == pre.predict(inputs[index as int]));
                    assert(self@.outputs[depth - 1].len() == model.composition[depth as int]);
                }
                let width = self.outputs[depth - 1].len();
                if width > 0 {
                    let prediction = Self::argmax(self.outputs[depth - 1].as_slice());
                    if Self::is_one_hot_at(data.targets[index].as_slice(), prediction) {
                        correct += 1;
                    }
                }
                let half = S::from_ratio(1, 2);
                let ghost start = cost;
                let mut neuron: usize = 0;
                while neuron < width
                    invariant
                        neuron <= width,
                        depth > 0,
                        depth == self.outputs@.len(),
                        width == self.outputs@[depth - 1]@.len(),
                        index < data.targets@.len(),
                        width == data.targets@[index as int]@.len(),
                        half == S::spec_from_ratio(1, 2),
                        cost == spec_error_sum(
                            start,
                            self.outputs@[depth - 1]@,
                            data.targets@[index as int]@,
                            neuron as nat,
                        ),
                    decreases width - neuron,
                {
                    cost = cost.add(
                        half.mul(data.targets[index][neuron].sub(self.outputs[depth - 1][neuron]).powi(2)),
                    );
                    neuron += 1;
                }
            } else {
                proof {
                    assert(pre.predict(inputs[index as int]).len() == 0);
                }
            }
            index += 1;
        }
        proof {
            assert(inputs.len() == count);
            assert(targets.len() == count);
        }
        let accuracy = from_count::<S>(correct).div(from_count(data.targets.len()));
        let cost = cost.div(from_count(data.inputs.len()));
        (accuracy, cost)
    }
}

} // verus!
