//! What a run reports: a step of work that is watched, and the numbers that
//! sum a network up.

use vstd::prelude::*;
use crate::scalar::{Scalar, spec_zero};
use crate::dataset::Data;
use crate::network::forward::{same_parameters, lemma_forward_overwrites};
use crate::network::persistence::{spec_flatten, spec_flatten_3d};
use crate::network::state::{Network, NetworkModel};
use crate::network::utils::rows;
use crate::random::{thread_rng, sample_indices};

verus! {

/// Runs one step of work and hands back what it returns, so that a caller can
/// announce the step before it starts and time it until it ends.
pub fn monitor<T, F: FnOnce() -> T>(function: F) -> (r: T)
    requires
        function.requires(()),
    ensures
        function.ensures((), r),
{
    function()
}

/// One sample put on show: where it stands among the samples, the class its
/// target names, what the network answers to it, and the classes in the
/// order of the answer, the one with the largest output first.
pub struct Showcase<S> {
    pub index: usize,
    pub target: usize,
    pub outputs: Vec<S>,
    pub ranking: Vec<usize>,
}

/// What sums a network up: how it does on a set of samples, and how many
/// parameters it has. A number of parameters that is too large for the
/// machine is left out.
pub struct Statistics<S> {
    pub accuracy: S,
    pub cost: S,
    pub weights: Option<usize>,
    pub biases: Option<usize>,
}

/// Whether `a` is below `b` and `b` is not below `a`.
pub open spec fn spec_strictly_below<S: Scalar>(a: S, b: S) -> bool {
    a.spec_less(b) && !b.spec_less(a)
}

/// Whether `ranking` lists the places of `values`, each once, so that no
/// value is strictly below the one listed after it, and so that a place is
/// listed before an earlier place only where the earlier place holds a value
/// that is strictly below its own: equal values keep their order.
pub open spec fn is_ranking<S: Scalar>(ranking: Seq<usize>, values: Seq<S>) -> bool {
    &&& ranking.len() == values.len()
    &&& forall|i: int| 0 <= i < ranking.len() ==> #[trigger] ranking[i] < values.len()
    &&& forall|i: int, j: int| 0 <= i < j < ranking.len() ==> ranking[i] != ranking[j]
    &&& forall|i: int|
        0 <= i && i + 1 < ranking.len() ==> !spec_strictly_below(
            values[#[trigger] ranking[i] as int],
            values[ranking[i + 1] as int],
        )
    &&& forall|i: int, j: int|
        0 <= i < j < ranking.len() && ranking[i] > ranking[j] ==> spec_strictly_below(
            values[ranking[j] as int],
            values[ranking[i] as int],
        )
}

/// The places of the values from the largest value to the smallest; of equal
/// values the one that stands first comes first.
pub fn rank<S: Scalar>(values: &[S]) -> (r: Vec<usize>)
    ensures
        is_ranking(r@, values@),
{
    let mut ranking: Vec<usize> = Vec::new();
    let mut index: usize = 0;
    while index < values.len()
        invariant
            index <= values@.len(),
            ranking@.len() == index,
            forall|i: int| 0 <= i < ranking@.len() ==> #[trigger] ranking@[i] < index,
            forall|i: int, j: int| 0 <= i < j < ranking@.len() ==> ranking@[i] != ranking@[j],
            forall|i: int|
                0 <= i && i + 1 < ranking@.len() ==> !spec_strictly_below(
                    values@[#[trigger] ranking@[i] as int],
                    values@[ranking@[i + 1] as int],
                ),
            forall|i: int, j: int|
                0 <= i < j < ranking@.len() && ranking@[i] > ranking@[j] ==> spec_strictly_below(
                    values@[ranking@[j] as int],
                    values@[ranking@[i] as int],
                ),
        decreases values@.len() - index,
    {
        let value = values[index];
        let mut place: usize = ranking.len();
        while place > 0 && values[ranking[place - 1]].less(value) && !value.less(
            values[ranking[place - 1]],
        )
            invariant
                place <= ranking@.len(),
                ranking@.len() == index,
                index < values@.len(),
                value == values@[index as int],
                forall|i: int| 0 <= i < ranking@.len() ==> #[trigger] ranking@[i] < index,
                forall|i: int|
                    place <= i < ranking@.len() ==> spec_strictly_below(
                        values@[#[trigger] ranking@[i] as int],
                        value,
                    ),
            decreases place,
        {
            place -= 1;
        }
        let ghost before = ranking@;
        ranking.insert(place, index);
        proof {
            let after = ranking@;
            assert forall|i: int| 0 <= i < after.len() implies #[trigger] after[i] < index + 1 by {
                if i < place {
                    assert(after[i] == before[i]);
                } else if i > place {
                    assert(after[i] == before[i - 1]);
                }
            }
            assert forall|i: int, j: int| 0 <= i < j < after.len() implies after[i] != after[j] by {
                let a = if i < place {
                    i
                } else {
                    i - 1
                };
                let b = if j < place {
                    j
                } else {
                    j - 1
                };
                if i != place && j != place {
                    assert(after[i] == before[a] && after[j] == before[b]);
                } else if i == place {
                    assert(after[j] == before[b]);
                    assert(before[b] < index);
                } else {
                    assert(after[i] == before[a]);
                    assert(before[a] < index);
                }
            }
            assert forall|i: int, j: int|
                0 <= i < j < after.len() && after[i] > after[j] implies spec_strictly_below(
                values@[after[j] as int],
                values@[after[i] as int],
            ) by {
                let a = if i < place {
                    i
                } else {
                    i - 1
                };
                let b = if j < place {
                    j
                } else {
                    j - 1
                };
                if i != place && j != place {
                    assert(after[i] == before[a] && after[j] == before[b]);
                } else if i == place {
                    assert(after[i] == index && after[j] == before[b]);
                    assert(spec_strictly_below(values@[before[b] as int], value));
                } else {
                    assert(after[j] == index && after[i] == before[a]);
                    assert(before[a] < index);
                }
            }
            assert forall|i: int| 0 <= i && i + 1 < after.len() implies !spec_strictly_below(
                values@[#[trigger] after[i] as int],
                values@[after[i + 1] as int],
            ) by {
                if i + 1 < place {
                    assert(after[i] == before[i] && after[i + 1] == before[i + 1]);
                } else if i + 1 == place {
                    assert(after[i] == before[i] && after[i + 1] == index);
                } else if i == place {
                    assert(after[i] == index && after[i + 1] == before[i]);
                    assert(spec_strictly_below(values@[before[i] as int], value));
                } else {
                    assert(after[i] == before[i - 1] && after[i + 1] == before[i]);
                }
            }
        }
        index += 1;
    }
    ranking
}

/// Evaluates the network on the samples and counts its parameters.
pub fn statistics<S: Scalar>(network: &mut Network<S>, data: &Data<S>) -> (r: Statistics<S>)
    requires
        old(network).wf(),
        data.fits(old(network)@.composition),
    ensures
        final(network).wf(),
        final(network)@ == old(network)@.after_evaluation(rows(data.inputs)),
        (r.accuracy, r.cost) == old(network)@.evaluate(rows(data.inputs), rows(data.targets)),
        match r.weights {
            Some(count) => count == spec_flatten_3d(old(network)@.weights).len(),
            None => spec_flatten_3d(old(network)@.weights).len() > usize::MAX,
        },
        match r.biases {
            Some(count) => count == spec_flatten(old(network)@.biases).len(),
            None => spec_flatten(old(network)@.biases).len() > usize::MAX,
        },
{
    let (accuracy, cost) = network.test(data);
    Statistics { accuracy, cost, weights: network.weight_count(), biases: network.bias_count() }
}

/// Whether `label` is the class that a target names: the place of its first
/// entry that is not zero, or 0 where every entry is zero.
pub open spec fn is_label<S: Scalar>(target: Seq<S>, label: int) -> bool {
    &&& forall|i: int| 0 <= i < label ==> (#[trigger] target[i]).spec_equals(spec_zero::<S>())
    &&& if label < target.len() && !target[label].spec_equals(spec_zero::<S>()) {
        0 <= label
    } else {
        label == 0 && Data::<S>::spec_all_zero(target)
    }
}

impl<S: Scalar> NetworkModel<S> {
    /// What the network answers to `inputs` with the dropout mask as it
    /// stands: the outputs of its last layer.
    pub open spec fn answer(self, inputs: Seq<S>) -> Seq<S> {
        if self.depth() == 0 {
            Seq::empty()
        } else {
            self.forward_layer(inputs, self.depth() - 1).1
        }
    }
}

/// A copy of a vector.
fn copied<S: Scalar>(vector: &Vec<S>) -> (r: Vec<S>)
    ensures
        r@ == vector@,
{
    let mut copy: Vec<S> = Vec::new();
    let mut index: usize = 0;
    while index < vector.len()
        invariant
            index <= vector@.len(),
            copy@ == vector@.take(index as int),
        decreases vector@.len() - index,
    {
        copy.push(vector[index]);
        proof {
            assert(copy@ =~= vector@.take(index + 1));
        }
        index += 1;
    }
    proof {
        assert(vector@.take(vector@.len() as int) =~= vector@);
    }
    copy
}

/// Puts up to `num_tests` samples on show, no sample twice: each with the
/// class its target names and the network's answer to it. Which samples are
/// shown is left to chance.
pub fn showcase<S: Scalar>(network: &mut Network<S>, data: &Data<S>, num_tests: usize) -> (r: Vec<
    Showcase<S>,
>)
    requires
        old(network).wf(),
        data.fits(old(network)@.composition),
    ensures
        final(network).wf(),
        final(network)@ == if r@.len() == 0 {
            old(network)@
        } else {
            old(network)@.forward(rows(data.inputs)[r@[r@.len() - 1].index as int])
        },
        r@.len() == if num_tests <= data.inputs@.len() {
            num_tests as int
        } else {
            data.inputs@.len() as int
        },
        forall|i: int| 0 <= i < r@.len() ==> (#[trigger] r@[i]).index < data.inputs@.len(),
        forall|i: int, j: int| 0 <= i < j < r@.len() ==> r@[i].index != r@[j].index,
        forall|i: int|
            0 <= i < r@.len() ==> (#[trigger] r@[i]).outputs@ == old(network)@.answer(
                rows(data.inputs)[r@[i].index as int],
            ),
        forall|i: int|
            0 <= i < r@.len() ==> is_label(
                rows(data.targets)[(#[trigger] r@[i]).index as int],
                r@[i].target as int,
            ),
        forall|i: int| 0 <= i < r@.len() ==> is_ranking((#[trigger] r@[i]).ranking@, r@[i].outputs@),
{
    let ghost model = network@;
    let mut rng = thread_rng();
    let amount = if num_tests <= data.inputs.len() {
        num_tests
    } else {
        data.inputs.len()
    };
    let indices = sample_indices(&mut rng, data.inputs.len(), amount);
    let depth = network.outputs.len();
    let mut shown: Vec<Showcase<S>> = Vec::new();
    let mut position: usize = 0;
    while position < indices.len()
        invariant
            position <= indices@.len(),
            indices@.len() == amount,
            forall|i: int| 0 <= i < indices@.len() ==> indices@[i] < data.inputs@.len(),
            forall|i: int, j: int| 0 <= i < j < indices@.len() ==> indices@[i] != indices@[j],
            data.fits(model.composition),
            model.wf(),
            depth == model.depth(),
            network.wf(),
            network@ == if position == 0 {
                model
            } else {
                model.forward(rows(data.inputs)[indices@[position - 1] as int])
            },
            shown@.len() == position,
            forall|i: int| 0 <= i < position ==> (#[trigger] shown@[i]).index == indices@[i],
            forall|i: int|
                0 <= i < position ==> (#[trigger] shown@[i]).outputs@ == model.answer(
                    rows(data.inputs)[indices@[i] as int],
                ),
            forall|i: int|
                0 <= i < position ==> is_label(
                    rows(data.targets)[indices@[i] as int],
                    (#[trigger] shown@[i]).target as int,
                ),
            forall|i: int|
                0 <= i < position ==> is_ranking((#[trigger] shown@[i]).ranking@, shown@[i].outputs@),
        decreases indices@.len() - position,
    {
        let index = indices[position];
        let ghost before = network@;
        proof {
            assert(rows(data.inputs)[index as int] == data.inputs@[index as int]@);
            assert(rows(data.targets)[index as int] == data.targets@[index as int]@);
            assert(same_parameters(before, model));
            lemma_forward_overwrites(before, model, rows(data.inputs)[index as int]);
        }
        network.forward(data.inputs[index].as_slice());
        let outputs = if depth > 0 {
            proof {
                assert(network@.outputs[depth - 1] == network.outputs@[depth - 1]@);
            }
            copied(&network.outputs[depth - 1])
        } else {
            Vec::new()
        };
        let target = match Data::first_set(data.targets[index].as_slice()) {
            Some(place) => place,
            None => 0,
        };
        let ranking = rank(outputs.as_slice());
        shown.push(Showcase { index, target, outputs, ranking });
        position += 1;
    }
    shown
}

/// The number of entries of a tensor with one row per layer; `None` where the
/// number is too large for the machine.
pub fn count_entries<S: Scalar>(tensor: &Vec<Vec<S>>) -> (r: Option<usize>)
    ensures
        match r {
            Some(count) => count == spec_flatten(rows(*tensor)).len(),
            None => spec_flatten(rows(*tensor)).len() > usize::MAX,
        },
{
    let mut count: usize = 0;
    let mut layer: usize = 0;
    proof {
        assert(rows(*tensor).take(0) =~= Seq::<Seq<S>>::empty());
    }
    while layer < tensor.len()
        invariant
            layer <= tensor@.len(),
            count == spec_flatten(rows(*tensor).take(layer as int)).len(),
        decreases tensor@.len() - layer,
    {
        let width = tensor[layer].len();
        proof {
            let front = rows(*tensor).take(layer + 1);
            assert(front.drop_last() =~= rows(*tensor).take(layer as int));
            assert(front.last() == tensor@[layer as int]@);
            lemma_flatten_grows(rows(*tensor), layer + 1);
        }
        if width > usize::MAX - count {
            return None;
        }
        count += width;
        layer += 1;
    }
    proof {
        assert(rows(*tensor).take(tensor@.len() as int) =~= rows(*tensor));
    }
    Some(count)
}

/// A tensor holds at least as many entries as its first rows.
proof fn lemma_flatten_grows<S>(tensor: Seq<Seq<S>>, n: int)
    requires
        0 <= n <= tensor.len(),
    ensures
        spec_flatten(tensor.take(n)).len() <= spec_flatten(tensor).len(),
    decreases tensor.len() - n,
{
    if n < tensor.len() {
        lemma_flatten_grows(tensor, n + 1);
        assert(tensor.take(n + 1).drop_last() =~= tensor.take(n));
    } else {
        assert(tensor.take(n) =~= tensor);
    }
}

impl<S: Scalar> Network<S> {
    /// The number of biases of the network; `None` where the number is too
    /// large for the machine.
    pub fn bias_count(&self) -> (r: Option<usize>)
        ensures
            match r {
                Some(count) => count == spec_flatten(self@.biases).len(),
                None => spec_flatten(self@.biases).len() > usize::MAX,
            },
    {
        count_entries(&self.biases)
    }

    /// The number of weights of the network; `None` where the number is too
    /// large for the machine.
    pub fn weight_count(&self) -> (r: Option<usize>)
        ensures
            match r {
                Some(count) => count == spec_flatten_3d(self@.weights).len(),
                None => spec_flatten_3d(self@.weights).len() > usize::MAX,
            },
    {
        let mut count: usize = 0;
        let mut layer: usize = 0;
        proof {
            assert(self@.weights.take(0) =~= Seq::<Seq<Seq<S>>>::empty());
        }
        while layer < self.weights.len()
            invariant
                layer <= self.weights@.len(),
                count == spec_flatten_3d(self@.weights.take(layer as int)).len(),
            decreases self.weights@.len() - layer,
        {
            proof {
                let front = self@.weights.take(layer + 1);
                assert(front.drop_last() =~= self@.weights.take(layer as int));
                assert(front.last() == rows(self.weights@[layer as int]));
                lemma_flatten_3d_grows(self@.weights, layer + 1);
            }
            match count_entries(&self.weights[layer]) {
                Some(entries) => {
                    if entries > usize::MAX - count {
                        return None;
                    }
                    count += entries;
                },
                None => {
                    return None;
                },
            }
            layer += 1;
        }
        proof {
            assert(self@.weights.take(self.weights@.len() as int) =~= self@.weights);
        }
        Some(count)
    }
}

/// A tensor holds at least as many entries as its first matrices.
proof fn lemma_flatten_3d_grows<S>(tensor: Seq<Seq<Seq<S>>>, n: int)
    requires
        0 <= n <= tensor.len(),
    ensures
        spec_flatten_3d(tensor.take(n)).len() <= spec_flatten_3d(tensor).len(),
    decreases tensor.len() - n,
{
    if n < tensor.len() {
        lemma_flatten_3d_grows(tensor, n + 1);
        assert(tensor.take(n + 1).drop_last() =~= tensor.take(n));
    } else {
        assert(tensor.take(n) =~= tensor);
    }
}

} // verus!
