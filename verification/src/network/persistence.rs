//! The parameters of a network as one flat list: every bias, then every
//! weight, layer by layer and neuron by neuron.

use vstd::prelude::*;
use crate::scalar::Scalar;
use crate::network::state::{Network, NetworkModel, NetworkError, HyperParams};
use crate::network::utils::{rows, planes, layered, weight_shaped, layers_after};

verus! {

/// The rows of a tensor one after the other.
pub open spec fn spec_flatten<S>(tensor: Seq<Seq<S>>) -> Seq<S>
    decreases tensor.len(),
{
    if tensor.len() == 0 {
        Seq::empty()
    } else {
        spec_flatten(tensor.drop_last()) + tensor.last()
    }
}

/// The matrices of a tensor one after the other, each row by row.
pub open spec fn spec_flatten_3d<S>(tensor: Seq<Seq<Seq<S>>>) -> Seq<S>
    decreases tensor.len(),
{
    if tensor.len() == 0 {
        Seq::empty()
    } else {
        spec_flatten_3d(tensor.drop_last()) + spec_flatten(tensor.last())
    }
}

/// The number of biases of the first `layers` layers after the input layer.
pub open spec fn spec_bias_count(composition: Seq<usize>, layers: nat) -> nat
    decreases layers,
{
    if layers == 0 {
        0
    } else {
        spec_bias_count(composition, (layers - 1) as nat) + composition[layers as int] as nat
    }
}

/// The number of weights of the first `layers` layers after the input layer.
pub open spec fn spec_weight_count(composition: Seq<usize>, layers: nat) -> nat
    decreases layers,
{
    if layers == 0 {
        0
    } else {
        spec_weight_count(composition, (layers - 1) as nat) + (composition[layers as int]
            * composition[layers - 1]) as nat
    }
}

/// The number of parameters of a network: its biases and its weights.
pub open spec fn spec_parameter_count(composition: Seq<usize>) -> nat {
    let layers = layers_after(composition, 1) as nat;
    spec_bias_count(composition, layers) + spec_weight_count(composition, layers)
}

/// Two tensors with as many rows, each as long as its counterpart.
pub open spec fn same_shape<S>(a: Seq<Seq<S>>, b: Seq<Seq<S>>) -> bool {
    &&& a.len() == b.len()
    &&& forall|row: int| 0 <= row < a.len() ==> (#[trigger] a[row]).len() == b[row].len()
}

/// Two tensors with as many matrices, each of the shape of its counterpart.
pub open spec fn same_shape_3d<S>(a: Seq<Seq<Seq<S>>>, b: Seq<Seq<Seq<S>>>) -> bool {
    &&& a.len() == b.len()
    &&& forall|layer: int| 0 <= layer < a.len() ==> same_shape(#[trigger] a[layer], b[layer])
}

impl<S> NetworkModel<S> {
    /// The parameters in the order in which they are stored: the biases of
    /// every layer, then the weights of every layer, row by row.
    pub open spec fn parameters(self) -> Seq<S> {
        spec_flatten(self.biases) + spec_flatten_3d(self.weights)
    }
}

proof fn lemma_flatten_push<S>(tensor: Seq<Seq<S>>, row: Seq<S>)
    ensures
        spec_flatten(tensor.push(row)) == spec_flatten(tensor) + row,
{
    assert(tensor.push(row).drop_last() =~= tensor);
}

proof fn lemma_flatten_3d_push<S>(tensor: Seq<Seq<Seq<S>>>, matrix: Seq<Seq<S>>)
    ensures
        spec_flatten_3d(tensor.push(matrix)) == spec_flatten_3d(tensor) + spec_flatten(matrix),
{
    assert(tensor.push(matrix).drop_last() =~= tensor);
}

proof fn lemma_flatten_len<S>(a: Seq<Seq<S>>, b: Seq<Seq<S>>)
    requires
        same_shape(a, b),
    ensures
        spec_flatten(a).len() == spec_flatten(b).len(),
    decreases a.len(),
{
    if a.len() > 0 {
        lemma_flatten_len(a.drop_last(), b.drop_last());
    }
}

proof fn lemma_flatten_3d_len<S>(a: Seq<Seq<Seq<S>>>, b: Seq<Seq<Seq<S>>>)
    requires
        same_shape_3d(a, b),
    ensures
        spec_flatten_3d(a).len() == spec_flatten_3d(b).len(),
    decreases a.len(),
{
    if a.len() > 0 {
        lemma_flatten_3d_len(a.drop_last(), b.drop_last());
        lemma_flatten_len(a.last(), b.last());
    }
}

/// Two lists that are equal after lists of equal length were put in front of
/// them are equal, and so are the lists in front.
proof fn lemma_concat_parts<S>(front_a: Seq<S>, back_a: Seq<S>, front_b: Seq<S>, back_b: Seq<S>)
    requires
        front_a + back_a == front_b + back_b,
        front_a.len() == front_b.len(),
    ensures
        front_a == front_b,
        back_a == back_b,
{
    let whole = front_a + back_a;
    assert(front_a =~= whole.subrange(0, front_a.len() as int));
    assert(front_b =~= (front_b + back_b).subrange(0, front_b.len() as int));
    assert(back_a =~= whole.subrange(front_a.len() as int, whole.len() as int));
    assert(back_b =~= (front_b + back_b).subrange(
        front_b.len() as int,
        (front_b + back_b).len() as int,
    ));
}

/// Tensors of one shape with the same flat list are equal.
pub proof fn lemma_flatten_injective<S>(a: Seq<Seq<S>>, b: Seq<Seq<S>>)
    requires
        same_shape(a, b),
        spec_flatten(a) == spec_flatten(b),
    ensures
        a == b,
    decreases a.len(),
{
    if a.len() > 0 {
        lemma_flatten_len(a.drop_last(), b.drop_last());
        lemma_concat_parts(
            spec_flatten(a.drop_last()),
            a.last(),
            spec_flatten(b.drop_last()),
            b.last(),
        );
        lemma_flatten_injective(a.drop_last(), b.drop_last());
        assert(a =~= a.drop_last().push(a.last()));
        assert(b =~= b.drop_last().push(b.last()));
    } else {
        assert(a =~= b);
    }
}

/// Tensors of one shape with the same flat list are equal.
pub proof fn lemma_flatten_3d_injective<S>(a: Seq<Seq<Seq<S>>>, b: Seq<Seq<Seq<S>>>)
    requires
        same_shape_3d(a, b),
        spec_flatten_3d(a) == spec_flatten_3d(b),
    ensures
        a == b,
    decreases a.len(),
{
    if a.len() > 0 {
        lemma_flatten_3d_len(a.drop_last(), b.drop_last());
        lemma_concat_parts(
            spec_flatten_3d(a.drop_last()),
            spec_flatten(a.last()),
            spec_flatten_3d(b.drop_last()),
            spec_flatten(b.last()),
        );
        lemma_flatten_injective(a.last(), b.last());
        lemma_flatten_3d_injective(a.drop_last(), b.drop_last());
        assert(a =~= a.drop_last().push(a.last()));
        assert(b =~= b.drop_last().push(b.last()));
    } else {
        assert(a =~= b);
    }
}

/// A tensor with one row per layer holds as many entries as the layers have
/// neurons.
proof fn lemma_flatten_bias_count<S>(tensor: Seq<Seq<S>>, composition: Seq<usize>)
    requires
        tensor.len() < composition.len(),
        forall|layer: int|
            0 <= layer < tensor.len() ==> (#[trigger] tensor[layer]).len() == composition[layer + 1],
    ensures
        spec_flatten(tensor).len() == spec_bias_count(composition, tensor.len()),
    decreases tensor.len(),
{
    if tensor.len() > 0 {
        let front = tensor.drop_last();
        assert forall|layer: int| 0 <= layer < front.len() implies (#[trigger] front[layer]).len()
            == composition[layer + 1] by {
            assert(front[layer] == tensor[layer]);
        }
        lemma_flatten_bias_count(front, composition);
    }
}

/// A matrix of rows of one length holds rows times length entries.
proof fn lemma_flatten_matrix_len<S>(matrix: Seq<Seq<S>>, columns: nat)
    requires
        forall|row: int| 0 <= row < matrix.len() ==> (#[trigger] matrix[row]).len() == columns,
    ensures
        spec_flatten(matrix).len() == matrix.len() * columns,
    decreases matrix.len(),
{
    if matrix.len() > 0 {
        let front = matrix.drop_last();
        assert forall|row: int| 0 <= row < front.len() implies (#[trigger] front[row]).len()
            == columns by {
            assert(front[row] == matrix[row]);
        }
        lemma_flatten_matrix_len(front, columns);
        assert((front.len() + 1) * columns == front.len() * columns + columns) by (nonlinear_arith);
    } else {
        assert(0 * columns == 0) by (nonlinear_arith);
    }
}

/// A tensor with one weight matrix per layer holds as many entries as the
/// layers have weights.
proof fn lemma_flatten_weight_count<S>(tensor: Seq<Seq<Seq<S>>>, composition: Seq<usize>)
    requires
        tensor.len() < composition.len(),
        forall|layer: int|
            0 <= layer < tensor.len() ==> (#[trigger] tensor[layer]).len() == composition[layer + 1],
        forall|layer: int, neuron: int|
            0 <= layer < tensor.len() && 0 <= neuron < tensor[layer].len() ==> (
            #[trigger] tensor[layer][neuron]).len() == composition[layer],
    ensures
        spec_flatten_3d(tensor).len() == spec_weight_count(composition, tensor.len()),
    decreases tensor.len(),
{
    if tensor.len() > 0 {
        let front = tensor.drop_last();
        assert forall|layer: int| 0 <= layer < front.len() implies (#[trigger] front[layer]).len()
            == composition[layer + 1] by {
            assert(front[layer] == tensor[layer]);
        }
        assert forall|layer: int, neuron: int|
            0 <= layer < front.len() && 0 <= neuron < front[layer].len() implies (
        #[trigger] front[layer][neuron]).len() == composition[layer] by {
            assert(front[layer] == tensor[layer]);
        }
        lemma_flatten_weight_count(front, composition);
        let last = tensor.len() - 1;
        assert forall|row: int| 0 <= row < tensor.last().len() implies (
        #[trigger] tensor.last()[row]).len() == composition[last] as nat by {
            assert(tensor[last][row].len() == composition[last]);
        }
        lemma_flatten_matrix_len(tensor.last(), composition[last] as nat);
    }
}

proof fn lemma_bias_count_monotone(composition: Seq<usize>, fewer: nat, more: nat)
    requires
        fewer <= more,
    ensures
        spec_bias_count(composition, fewer) <= spec_bias_count(composition, more),
    decreases more,
{
    if fewer < more {
        lemma_bias_count_monotone(composition, fewer, (more - 1) as nat);
    }
}

proof fn lemma_weight_count_monotone(composition: Seq<usize>, fewer: nat, more: nat)
    requires
        fewer <= more,
    ensures
        spec_weight_count(composition, fewer) <= spec_weight_count(composition, more),
    decreases more,
{
    if fewer < more {
        lemma_weight_count_monotone(composition, fewer, (more - 1) as nat);
    }
}

/// A well-formed network stores as many parameters as its composition has
/// biases and weights.
pub proof fn lemma_parameter_count<S>(model: NetworkModel<S>)
    requires
        model.wf(),
    ensures
        model.parameters().len() == spec_parameter_count(model.composition),
{
    lemma_flatten_bias_count(model.biases, model.composition);
    lemma_flatten_weight_count(model.weights, model.composition);
}

/// Saving and loading again gives back the same weights and biases: two
/// well-formed networks of one composition that store the same list of
/// parameters have the same weights and the same biases.
pub proof fn lemma_parameters_round_trip<S>(saved: NetworkModel<S>, loaded: NetworkModel<S>)
    requires
        saved.wf(),
        loaded.wf(),
        saved.composition == loaded.composition,
        saved.parameters() == loaded.parameters(),
    ensures
        saved.weights == loaded.weights,
        saved.biases == loaded.biases,
{
    assert(same_shape(saved.biases, loaded.biases));
    assert(same_shape_3d(saved.weights, loaded.weights)) by {
        assert forall|layer: int| 0 <= layer < saved.weights.len() implies same_shape(
            #[trigger] saved.weights[layer],
            loaded.weights[layer],
        ) by {
            assert(loaded.weights[layer].len() == loaded.composition[layer + 1]);
        }
    }
    lemma_flatten_len(saved.biases, loaded.biases);
    lemma_concat_parts(
        spec_flatten(saved.biases),
        spec_flatten_3d(saved.weights),
        spec_flatten(loaded.biases),
        spec_flatten_3d(loaded.weights),
    );
    lemma_flatten_injective(saved.biases, loaded.biases);
    lemma_flatten_3d_injective(saved.weights, loaded.weights);
}

/// The `len` parameters from `start` on.
fn read_row<S: Scalar>(parameters: &[S], start: usize, len: usize) -> (r: Vec<S>)
    requires
        start + len <= parameters@.len(),
    ensures
        r@ == parameters@.subrange(start as int, start + len),
{
    let mut row: Vec<S> = Vec::new();
    let total = parameters.len();
    let mut k: usize = 0;
    proof {
        assert(row@ =~= parameters@.subrange(start as int, start as int));
    }
    while k < len
        invariant
            k <= len,
            total == parameters@.len(),
            start + len <= parameters@.len(),
            row@ == parameters@.subrange(start as int, start + k),
        decreases len - k,
    {
        row.push(parameters[start + k]);
        proof {
            assert(row@ =~= parameters@.subrange(start as int, start + k + 1));
        }
        k += 1;
    }
    row
}

/// The biases of every layer, read from the front of the parameters, and the
/// number of parameters read; nothing where the parameters run out.
fn read_biases<S: Scalar>(parameters: &[S], composition: &[usize]) -> (r: Option<
    (Vec<Vec<S>>, usize),
>)
    ensures
        match r {
            Some((biases, end)) => {
                &&& layered(rows(biases), composition@, 1)
                &&& end == spec_bias_count(composition@, layers_after(composition@, 1) as nat)
                &&& end <= parameters@.len()
                &&& spec_flatten(rows(biases)) == parameters@.subrange(0, end as int)
            },
            None => spec_bias_count(composition@, layers_after(composition@, 1) as nat)
                > parameters@.len(),
        },
{
    let mut biases: Vec<Vec<S>> = Vec::new();
    let mut end: usize = 0;
    let mut index: usize = 1;
    while index < composition.len()
        invariant
            1 <= index,
            index <= composition@.len() || biases@.len() == 0,
            biases@.len() == layers_after(composition@, 1) - layers_after(composition@, index as int),
            forall|layer: int|
                0 <= layer < biases@.len() ==> (#[trigger] biases@[layer])@.len()
                    == composition@[layer + 1],
            end == spec_bias_count(composition@, biases@.len()),
            end <= parameters@.len(),
            spec_flatten(rows(biases)) == parameters@.subrange(0, end as int),
        decreases composition@.len() - index,
    {
        let len = composition[index];
        if len > parameters.len() - end {
            proof {
                lemma_bias_count_monotone(
                    composition@,
                    index as nat,
                    layers_after(composition@, 1) as nat,
                );
            }
            return None;
        }
        let row = read_row(parameters, end, len);
        let ghost before = rows(biases);
        let ghost added = row@;
        proof {
            lemma_flatten_push(before, added);
            assert(parameters@.subrange(0, end as int) + parameters@.subrange(end as int, end + len)
                =~= parameters@.subrange(0, end + len));
        }
        biases.push(row);
        proof {
            assert(rows(biases) =~= before.push(added));
        }
        end += len;
        index += 1;
    }
    proof {
        assert(parameters@.subrange(0, 0) =~= Seq::<S>::empty());
    }
    Some((biases, end))
}

/// The weights of every layer, read from `start` on, and the place where
/// reading ended; nothing where the parameters run out.
fn read_weights<S: Scalar>(parameters: &[S], start: usize, composition: &[usize]) -> (r: Option<
    (Vec<Vec<Vec<S>>>, usize),
>)
    requires
        start <= parameters@.len(),
    ensures
        match r {
            Some((weights, end)) => {
                &&& weight_shaped(planes(weights), composition@)
                &&& end == start + spec_weight_count(
                    composition@,
                    layers_after(composition@, 1) as nat,
                )
                &&& end <= parameters@.len()
                &&& spec_flatten_3d(planes(weights)) == parameters@.subrange(start as int, end as int)
            },
            None => start + spec_weight_count(composition@, layers_after(composition@, 1) as nat)
                > parameters@.len(),
        },
{
    let mut weights: Vec<Vec<Vec<S>>> = Vec::new();
    let mut end: usize = start;
    let mut index: usize = 1;
    proof {
        assert(parameters@.subrange(start as int, start as int) =~= Seq::<S>::empty());
    }
    while index < composition.len()
        invariant
            1 <= index,
            index <= composition@.len() || weights@.len() == 0,
            weights@.len() == layers_after(composition@, 1) - layers_after(composition@, index as int),
            forall|layer: int|
                0 <= layer < weights@.len() ==> (#[trigger] weights@[layer])@.len()
                    == composition@[layer + 1],
            forall|layer: int, neuron: int|
                0 <= layer < weights@.len() && 0 <= neuron < weights@[layer]@.len() ==> (
                #[trigger] weights@[layer]@[neuron])@.len() == composition@[layer],
            start <= end <= parameters@.len(),
            end == start + spec_weight_count(composition@, weights@.len()),
            spec_flatten_3d(planes(weights)) == parameters@.subrange(start as int, end as int),
        decreases composition@.len() - index,
    {
        let height = composition[index];
        let columns = composition[index - 1];
        let layer_start = end;
        let mut layer: Vec<Vec<S>> = Vec::new();
        let mut neuron: usize = 0;
        proof {
            assert(parameters@.subrange(end as int, end as int) =~= Seq::<S>::empty());
            assert(0 * columns == 0) by (nonlinear_arith);
        }
        while neuron < height
            invariant
                1 <= index < composition@.len(),
                height == composition@[index as int],
                columns == composition@[index - 1],
                neuron <= height,
                layer@.len() == neuron,
                forall|row: int| 0 <= row < layer@.len() ==> (#[trigger] layer@[row])@.len() == columns,
                start <= layer_start <= end <= parameters@.len(),
                end == layer_start + neuron * columns,
                layer_start == start + spec_weight_count(composition@, (index - 1) as nat),
                spec_flatten(rows(layer)) == parameters@.subrange(layer_start as int, end as int),
            decreases height - neuron,
        {
            if columns > parameters.len() - end {
                proof {
                    assert((neuron + 1) * columns <= height * columns) by (nonlinear_arith)
                        requires
                            neuron + 1 <= height,
                    ;
                    assert((neuron + 1) * columns == neuron * columns + columns)
                        by (nonlinear_arith);
                    lemma_weight_count_monotone(
                        composition@,
                        index as nat,
                        layers_after(composition@, 1) as nat,
                    );
                }
                return None;
            }
            let row = read_row(parameters, end, columns);
            let ghost before = rows(layer);
            let ghost added = row@;
            proof {
                lemma_flatten_push(before, added);
                assert(parameters@.subrange(layer_start as int, end as int) + parameters@.subrange(
                    end as int,
                    end + columns,
                ) =~= parameters@.subrange(layer_start as int, end + columns));
                assert((neuron + 1) * columns == neuron * columns + columns) by (nonlinear_arith);
            }
            layer.push(row);
            proof {
                assert(rows(layer) =~= before.push(added));
            }
            end += columns;
            neuron += 1;
        }
        let ghost before = planes(weights);
        let ghost added = rows(layer);
        proof {
            lemma_flatten_3d_push(before, added);
            assert(parameters@.subrange(start as int, layer_start as int) + parameters@.subrange(
                layer_start as int,
                end as int,
            ) =~= parameters@.subrange(start as int, end as int));
        }
        weights.push(layer);
        proof {
            assert(planes(weights) =~= before.push(added));
        }
        index += 1;
    }
    Some((weights, end))
}

/// Adds the rows of a tensor, one after the other, to the end of a list.
fn append_rows<S: Scalar>(list: &mut Vec<S>, tensor: &Vec<Vec<S>>)
    ensures
        final(list)@ == old(list)@ + spec_flatten(rows(*tensor)),
{
    let ghost start = list@;
    let mut layer: usize = 0;
    proof {
        assert(rows(*tensor).take(0) =~= Seq::<Seq<S>>::empty());
        assert(list@ =~= start + spec_flatten(rows(*tensor).take(0)));
    }
    while layer < tensor.len()
        invariant
            layer <= tensor@.len(),
            list@ == start + spec_flatten(rows(*tensor).take(layer as int)),
        decreases tensor@.len() - layer,
    {
        let ghost before = list@;
        let mut neuron: usize = 0;
        while neuron < tensor[layer].len()
            invariant
                layer < tensor@.len(),
                neuron <= tensor@[layer as int]@.len(),
                list@ == before + tensor@[layer as int]@.take(neuron as int),
            decreases tensor@[layer as int]@.len() - neuron,
        {
            list.push(tensor[layer][neuron]);
            proof {
                assert(list@ =~= before + tensor@[layer as int]@.take(neuron + 1));
            }
            neuron += 1;
        }
        proof {
            let row = tensor@[layer as int]@;
            assert(row.take(row.len() as int) =~= row);
            lemma_flatten_push(rows(*tensor).take(layer as int), row);
            assert(rows(*tensor).take(layer as int).push(row) =~= rows(*tensor).take(layer + 1));
            assert(list@ =~= start + spec_flatten(rows(*tensor).take(layer + 1)));
        }
        layer += 1;
    }
    proof {
        assert(rows(*tensor).take(tensor@.len() as int) =~= rows(*tensor));
    }
}

impl<S: Scalar> Network<S> {
    /// The parameters as they are stored: every bias, then every weight,
    /// layer by layer and neuron by neuron.
    pub fn save(&self) -> (r: Vec<S>)
        ensures
            r@ == self@.parameters(),
    {
        let mut parameters: Vec<S> = Vec::new();
        append_rows(&mut parameters, &self.biases);
        let ghost biases = parameters@;
        let mut layer: usize = 0;
        proof {
            assert(planes(self.weights).take(0) =~= Seq::<Seq<Seq<S>>>::empty());
            assert(parameters@ =~= biases + spec_flatten_3d(planes(self.weights).take(0)));
        }
        while layer < self.weights.len()
            invariant
                layer <= self.weights@.len(),
                biases == spec_flatten(self@.biases),
                parameters@ == biases + spec_flatten_3d(planes(self.weights).take(layer as int)),
            decreases self.weights@.len() - layer,
        {
            append_rows(&mut parameters, &self.weights[layer]);
            proof {
                let matrix = rows(self.weights@[layer as int]);
                lemma_flatten_3d_push(planes(self.weights).take(layer as int), matrix);
                assert(planes(self.weights).take(layer as int).push(matrix) =~= planes(
                    self.weights,
                ).take(layer + 1));
                assert(parameters@ =~= biases + spec_flatten_3d(planes(self.weights).take(layer + 1)));
            }
            layer += 1;
        }
        proof {
            assert(planes(self.weights).take(self.weights@.len() as int) =~= planes(self.weights));
        }
        parameters
    }

    /// A network for the given hyper-parameters with the stored parameters
    /// as its biases and weights. It is refused where the number of
    /// activations is not the number of layers after the input layer, and
    /// where the number of stored parameters is not the number of biases and
    /// weights of the composition.
    pub fn load(hyper_params: HyperParams<S>, parameters: &[S]) -> (r: Result<Self, NetworkError>)
        ensures
            match r {
                Ok(network) => {
                    &&& hyper_params.activations@.len() + 1 == hyper_params.composition@.len()
                    &&& parameters@.len() == spec_parameter_count(hyper_params.composition@)
                    &&& network.hyper_params == hyper_params
                    &&& network.wf()
                    &&& network@.is_untrained()
                    &&& network@.parameters() == parameters@
                },
                Err(error) => if hyper_params.activations@.len() + 1
                    != hyper_params.composition@.len() {
                    error == NetworkError::LayerActivationCountMismatch
                } else {
                    &&& parameters@.len() != spec_parameter_count(hyper_params.composition@)
                    &&& error == NetworkError::ParameterCountMismatch
                },
            },
    {
        let mut network = match Self::new(hyper_params) {
            Ok(network) => network,
            Err(error) => {
                return Err(error);
            },
        };
        let read = match read_biases(parameters, network.hyper_params.composition.as_slice()) {
            Some((biases, middle)) => match read_weights(
                parameters,
                middle,
                network.hyper_params.composition.as_slice(),
            ) {
                Some((weights, end)) => if end == parameters.len() {
                    Some((biases, weights, middle))
                } else {
                    None
                },
                None => None,
            },
            None => None,
        };
        match read {
            Some((biases, weights, middle)) => {
                proof {
                    assert(parameters@.subrange(0, middle as int) + parameters@.subrange(
                        middle as int,
                        parameters@.len() as int,
                    ) =~= parameters@);
                }
                network.biases = biases;
                network.weights = weights;
                Ok(network)
            },
            None => Err(NetworkError::ParameterCountMismatch),
        }
    }
}

} // verus!
