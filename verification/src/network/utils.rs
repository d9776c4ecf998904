//! Layered tensors: their shapes, their views and how they are built.

use vstd::prelude::*;
use crate::scalar::{Scalar, spec_zero, spec_one, zero, one};
use crate::random::random_below;

verus! {

/// A tensor with one vector per layer, as a sequence of sequences.
pub open spec fn rows<S>(tensor: Vec<Vec<S>>) -> Seq<Seq<S>> {
    Seq::new(tensor@.len(), |layer: int| tensor@[layer]@)
}

/// A tensor with one matrix per layer, as a sequence of sequences of rows.
pub open spec fn planes<S>(tensor: Vec<Vec<Vec<S>>>) -> Seq<Seq<Seq<S>>> {
    Seq::new(tensor@.len(), |layer: int| rows(tensor@[layer]))
}

/// The number of layers that follow the first `skip` entries of a composition.
pub open spec fn layers_after(composition: Seq<usize>, skip: int) -> int {
    if composition.len() >= skip {
        composition.len() - skip
    } else {
        0
    }
}

/// One vector per layer from entry `skip` of the composition on, each as long
/// as its layer is wide.
pub open spec fn layered<S>(tensor: Seq<Seq<S>>, composition: Seq<usize>, skip: int) -> bool {
    &&& tensor.len() == layers_after(composition, skip)
    &&& forall|layer: int|
        0 <= layer < tensor.len() ==> (#[trigger] tensor[layer]).len() == composition[layer + skip]
}

/// One matrix per layer after the input layer: a row per neuron of the layer,
/// a column per neuron of the layer before it.
pub open spec fn weight_shaped<S>(tensor: Seq<Seq<Seq<S>>>, composition: Seq<usize>) -> bool {
    &&& tensor.len() == layers_after(composition, 1)
    &&& forall|layer: int|
        0 <= layer < tensor.len() ==> (#[trigger] tensor[layer]).len() == composition[layer + 1]
    &&& forall|layer: int, neuron: int|
        0 <= layer < tensor.len() && 0 <= neuron < tensor[layer].len() ==> (
        #[trigger] tensor[layer][neuron]).len() == composition[layer]
}

/// Every entry of the vector is `value`.
pub open spec fn all_equal<S>(vector: Seq<S>, value: S) -> bool {
    forall|index: int| 0 <= index < vector.len() ==> vector[index] == value
}

/// Every entry of the tensor is `value`.
pub open spec fn all_equal_2d<S>(tensor: Seq<Seq<S>>, value: S) -> bool {
    forall|layer: int| 0 <= layer < tensor.len() ==> all_equal(#[trigger] tensor[layer], value)
}

/// Every entry of the tensor is `value`.
pub open spec fn all_equal_3d<S>(tensor: Seq<Seq<Seq<S>>>, value: S) -> bool {
    forall|layer: int| 0 <= layer < tensor.len() ==> all_equal_2d(#[trigger] tensor[layer], value)
}

/// The weight that a draw stands for: the draws `0` to `2^53` are spread
/// evenly from `-1` to `1`.
pub open spec fn spec_weight_from_draw<S: Scalar>(draw: u64) -> S {
    S::spec_from_ratio(draw as i64, 0x10_0000_0000_0000).spec_sub(spec_one::<S>())
}

/// The largest draw a weight is made from.
pub open spec fn weight_draw_max() -> u64 {
    0x20_0000_0000_0000
}

/// Whether a weight is one that a new network can start with.
pub open spec fn is_initial_weight<S: Scalar>(weight: S) -> bool {
    exists|draw: u64| draw <= weight_draw_max() && weight == spec_weight_from_draw::<S>(draw)
}

/// Every entry of the tensor is a weight that a new network can start with.
pub open spec fn all_initial_weights<S: Scalar>(tensor: Seq<Seq<Seq<S>>>) -> bool {
    forall|layer: int, neuron: int, k: int|
        0 <= layer < tensor.len() && 0 <= neuron < tensor[layer].len() && 0 <= k
            < tensor[layer][neuron].len() ==> is_initial_weight(#[trigger] tensor[layer][neuron][k])
}

/// The weight that a draw stands for.
pub fn weight_from_draw<S: Scalar>(draw: u64) -> (r: S)
    requires
        draw <= weight_draw_max(),
    ensures
        r == spec_weight_from_draw::<S>(draw),
        is_initial_weight(r),
{
    let weight = S::from_ratio(draw as i64, 0x10_0000_0000_0000).sub(one());
    assert(weight == spec_weight_from_draw::<S>(draw));
    weight
}

/// A matrix of random weights between `-1` and `1` for each layer after the
/// input layer. Which weights come out is left to chance.
pub fn random_3d_vec<S: Scalar>(rng: &mut rand::rngs::ThreadRng, composition: &[usize]) -> (r: Vec<
    Vec<Vec<S>>,
>)
    ensures
        weight_shaped(planes(r), composition@),
        all_initial_weights(planes(r)),
{
    let mut random_3d_vec: Vec<Vec<Vec<S>>> = Vec::new();
    let mut index: usize = 1;
    while index < composition.len()
        invariant
            1 <= index,
            index <= composition@.len() || random_3d_vec@.len() == 0,
            random_3d_vec@.len() == layers_after(composition@, 1) - layers_after(
                composition@,
                index as int,
            ),
            forall|layer: int|
                0 <= layer < random_3d_vec@.len() ==> (#[trigger] random_3d_vec@[layer])@.len()
                    == composition@[layer + 1],
            forall|layer: int, neuron: int|
                0 <= layer < random_3d_vec@.len() && 0 <= neuron < random_3d_vec@[layer]@.len()
                    ==> (#[trigger] random_3d_vec@[layer]@[neuron])@.len() == composition@[layer],
            forall|layer: int, neuron: int, k: int|
                0 <= layer < random_3d_vec@.len() && 0 <= neuron < random_3d_vec@[layer]@.len() && 0
                    <= k < random_3d_vec@[layer]@[neuron]@.len() ==> is_initial_weight(
                    #[trigger] random_3d_vec@[layer]@[neuron]@[k],
                ),
        decreases composition@.len() - index,
    {
        let mut layer: Vec<Vec<S>> = Vec::new();
        let mut neuron: usize = 0;
        while neuron < composition[index]
            invariant
                1 <= index < composition@.len(),
                neuron <= composition@[index as int],
                layer@.len() == neuron,
                forall|row: int|
                    0 <= row < layer@.len() ==> (#[trigger] layer@[row])@.len() == composition@[index
                        - 1],
                forall|row: int, k: int|
                    0 <= row < layer@.len() && 0 <= k < layer@[row]@.len() ==> is_initial_weight(
                        #[trigger] layer@[row]@[k],
                    ),
            decreases composition@[index as int] - neuron,
        {
            let mut weights: Vec<S> = Vec::new();
            let mut k: usize = 0;
            while k < composition[index - 1]
                invariant
                    1 <= index < composition@.len(),
                    k <= composition@[index - 1],
                    weights@.len() == k,
                    forall|i: int| 0 <= i < k ==> is_initial_weight(#[trigger] weights@[i]),
                decreases composition@[index - 1] - k,
            {
                let draw = random_below(rng, 0x20_0000_0000_0001);
                weights.push(weight_from_draw(draw));
                k += 1;
            }
            layer.push(weights);
            neuron += 1;
        }
        random_3d_vec.push(layer);
        index += 1;
    }
    proof {
        assert forall|layer: int, neuron: int, k: int|
            0 <= layer < planes(random_3d_vec).len() && 0 <= neuron < planes(
                random_3d_vec,
            )[layer].len() && 0 <= k < planes(random_3d_vec)[layer][neuron].len() implies is_initial_weight(
            #[trigger] planes(random_3d_vec)[layer][neuron][k],
        ) by {
            assert(planes(random_3d_vec)[layer][neuron][k] == random_3d_vec@[layer]@[neuron]@[k]);
        }
    }
    random_3d_vec
}

/// Whether the tensor has one vector per layer from entry `skip` of the
/// composition on, each as long as its layer is wide.
pub fn is_layered<S>(tensor: &Vec<Vec<S>>, composition: &[usize], skip: usize) -> (r: bool)
    ensures
        r == layered(rows(*tensor), composition@, skip as int),
{
    let total = composition.len();
    let layers = if total >= skip {
        total - skip
    } else {
        0
    };
    if tensor.len() != layers {
        return false;
    }
    let mut layer: usize = 0;
    while layer < layers
        invariant
            layer <= layers,
            total == composition@.len(),
            layers == tensor@.len(),
            layers == layers_after(composition@, skip as int),
            layers > 0 ==> layers + skip == total,
            forall|done: int|
                0 <= done < layer ==> (#[trigger] rows(*tensor)[done]).len() == composition@[done
                    + skip],
        decreases layers - layer,
    {
        if tensor[layer].len() != composition[layer + skip] {
            proof {
                assert(rows(*tensor)[layer as int] == tensor@[layer as int]@);
            }
            return false;
        }
        proof {
            assert(rows(*tensor)[layer as int] == tensor@[layer as int]@);
        }
        layer += 1;
    }
    true
}

/// Whether the tensor has one matrix per layer after the input layer, with a
/// row per neuron of the layer and a column per neuron of the layer before.
pub fn is_weight_shaped<S>(tensor: &Vec<Vec<Vec<S>>>, composition: &[usize]) -> (r: bool)
    ensures
        r == weight_shaped(planes(*tensor), composition@),
{
    let layers = if composition.len() >= 1 {
        composition.len() - 1
    } else {
        0
    };
    if tensor.len() != layers {
        return false;
    }
    let mut layer: usize = 0;
    while layer < layers
        invariant
            layer <= layers,
            layers == tensor@.len(),
            layers == layers_after(composition@, 1),
            forall|done: int|
                0 <= done < layer ==> (#[trigger] planes(*tensor)[done]).len() == composition@[done
                    + 1],
            forall|done: int, neuron: int|
                0 <= done < layer && 0 <= neuron < planes(*tensor)[done].len() ==> (
                #[trigger] planes(*tensor)[done][neuron]).len() == composition@[done],
        decreases layers - layer,
    {
        proof {
            assert(planes(*tensor)[layer as int] == rows(tensor@[layer as int]));
        }
        if tensor[layer].len() != composition[layer + 1] {
            return false;
        }
        let mut neuron: usize = 0;
        while neuron < tensor[layer].len()
            invariant
                layer < layers,
                layers == tensor@.len(),
                layers == layers_after(composition@, 1),
                neuron <= tensor@[layer as int]@.len(),
                planes(*tensor)[layer as int] == rows(tensor@[layer as int]),
                forall|done: int|
                    0 <= done < neuron ==> (#[trigger] planes(*tensor)[layer as int][done]).len()
                        == composition@[layer as int],
            decreases tensor@[layer as int]@.len() - neuron,
        {
            proof {
                assert(planes(*tensor)[layer as int][neuron as int]
                    == tensor@[layer as int]@[neuron as int]@);
            }
            if tensor[layer][neuron].len() != composition[layer] {
                return false;
            }
            neuron += 1;
        }
        layer += 1;
    }
    true
}

/// A vector of `len` copies of `value`.
pub fn filled<S: Scalar>(value: S, len: usize) -> (r: Vec<S>)
    ensures
        r@.len() == len,
        all_equal(r@, value),
{
    let mut vector: Vec<S> = Vec::new();
    let mut index: usize = 0;
    while index < len
        invariant
            index <= len,
            vector@.len() == index,
            all_equal(vector@, value),
        decreases len - index,
    {
        vector.push(value);
        index += 1;
    }
    vector
}

/// A zero vector for each layer from entry `skip` of the composition on.
pub fn zeros_2d_vec<S: Scalar>(composition: &[usize], skip: usize) -> (r: Vec<Vec<S>>)
    ensures
        layered(rows(r), composition@, skip as int),
        all_equal_2d(rows(r), spec_zero::<S>()),
{
    let mut zeros_2d_vec: Vec<Vec<S>> = Vec::new();
    let mut index: usize = skip;
    while index < composition.len()
        invariant
            skip <= index,
            index <= composition@.len() || zeros_2d_vec@.len() == 0,
            zeros_2d_vec@.len() == layers_after(composition@, skip as int) - layers_after(
                composition@,
                index as int,
            ),
            forall|layer: int|
                0 <= layer < zeros_2d_vec@.len() ==> (#[trigger] zeros_2d_vec@[layer])@.len()
                    == composition@[layer + skip],
            forall|layer: int|
                0 <= layer < zeros_2d_vec@.len() ==> all_equal(
                    (#[trigger] zeros_2d_vec@[layer])@,
                    spec_zero::<S>(),
                ),
        decreases composition@.len() - index,
    {
        zeros_2d_vec.push(filled(zero(), composition[index]));
        index += 1;
    }
    zeros_2d_vec
}

/// A zero matrix for each layer after the input layer.
pub fn zeros_3d_vec<S: Scalar>(composition: &[usize]) -> (r: Vec<Vec<Vec<S>>>)
    ensures
        weight_shaped(planes(r), composition@),
        all_equal_3d(planes(r), spec_zero::<S>()),
{
    let mut zeros_3d_vec: Vec<Vec<Vec<S>>> = Vec::new();
    let mut index: usize = 1;
    while index < composition.len()
        invariant
            1 <= index,
            index <= composition@.len() || zeros_3d_vec@.len() == 0,
            zeros_3d_vec@.len() == layers_after(composition@, 1) - layers_after(
                composition@,
                index as int,
            ),
            forall|layer: int|
                0 <= layer < zeros_3d_vec@.len() ==> (#[trigger] zeros_3d_vec@[layer])@.len()
                    == composition@[layer + 1],
            forall|layer: int, neuron: int|
                0 <= layer < zeros_3d_vec@.len() && 0 <= neuron < zeros_3d_vec@[layer]@.len() ==> (
                #[trigger] zeros_3d_vec@[layer]@[neuron])@.len() == composition@[layer],
            forall|layer: int, neuron: int|
                0 <= layer < zeros_3d_vec@.len() && 0 <= neuron < zeros_3d_vec@[layer]@.len()
                    ==> all_equal((#[trigger] zeros_3d_vec@[layer]@[neuron])@, spec_zero::<S>()),
        decreases composition@.len() - index,
    {
        let mut layer: Vec<Vec<S>> = Vec::new();
        let mut neuron: usize = 0;
        while neuron < composition[index]
            invariant
                1 <= index < composition@.len(),
                neuron <= composition@[index as int],
                layer@.len() == neuron,
                forall|row: int|
                    0 <= row < layer@.len() ==> (#[trigger] layer@[row])@.len() == composition@[index
                        - 1],
                forall|row: int|
                    0 <= row < layer@.len() ==> all_equal(
                        (#[trigger] layer@[row])@,
                        spec_zero::<S>(),
                    ),
            decreases composition@[index as int] - neuron,
        {
            layer.push(filled(zero(), composition[index - 1]));
            neuron += 1;
        }
        zeros_3d_vec.push(layer);
        index += 1;
    }
    zeros_3d_vec
}

} // verus!
