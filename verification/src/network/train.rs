//! Training: samples, mini-batches, epochs and the loop that ends on a
//! plateau of the validation accuracy or after a given number of epochs.

use vstd::prelude::*;
use crate::scalar::Scalar;
use crate::dataset::Data;
use crate::network::backward::lemma_backward_from_keeps;
use crate::network::forward::{same_parameters, lemma_forward_is_function_of_parameters};
use crate::network::optimizations::batch::Batch;
use crate::network::optimizations::early_stopping::{EarlyStopping, spec_plateau};
use crate::network::optimizations::learning_rate::LearningRate;
use crate::network::optimizations::regularization::{Dropout, draws_fit};
use crate::network::state::{Network, NetworkModel};
use crate::network::utils::rows;

verus! {

/// What one epoch of training reports.
pub struct EpochReport<S> {
    /// The number of the epoch; the first epoch is epoch 1.
    pub epoch: u32,
    /// The learning rate the epoch was trained with.
    pub alpha: S,
    /// The accuracy on the validation samples after the epoch.
    pub accuracy: S,
    /// The mean cost on the validation samples after the epoch.
    pub cost: S,
    /// Whether the accuracy has reached a plateau, so that training stops.
    pub early_stop: bool,
}

/// How a training run ended.
#[derive(Clone, Copy, Debug, PartialEq, Eq)]
pub enum Outcome {
    /// The validation accuracy reached a plateau.
    Converged,
    /// The allowed number of epochs was used up before a plateau was reached.
    Exhausted,
}

/// A training run: the report of every epoch and how the run ended.
pub struct TrainingRun<S> {
    pub reports: Vec<EpochReport<S>>,
    pub outcome: Outcome,
}

/// Whether two networks have the same settings: all hyper-parameters but the
/// current learning rate, which training moves.
pub open spec fn same_settings<S>(a: NetworkModel<S>, b: NetworkModel<S>) -> bool {
    &&& a.composition == b.composition
    &&& a.activations == b.activations
    &&& a.regularization == b.regularization
    &&& a.adam == b.adam
    &&& a.batch_size == b.batch_size
    &&& a.early_stopping == b.early_stopping
    &&& a.learning_rate.restart == b.learning_rate.restart
    &&& a.learning_rate.decay == b.learning_rate.decay
}

/// The accuracies of a list of reports, in order.
pub open spec fn accuracies<S>(reports: Seq<EpochReport<S>>) -> Seq<S> {
    Seq::new(reports.len(), |epoch: int| reports[epoch].accuracy)
}

impl<S: Scalar> NetworkModel<S> {
    /// The network after it has trained on one sample: the iteration counter
    /// moves on by one, then a forward and a backward pass follow.
    pub open spec fn train_sample(self, inputs: Seq<S>, targets: Seq<S>) -> Self {
        (NetworkModel { iteration: (self.iteration + 1) as i32, ..self }).forward(inputs).backward(
            inputs,
            targets,
        )
    }

    /// The network after it has trained on the `count` samples from `start`
    /// on, one after the other.
    pub open spec fn train_samples(
        self,
        inputs: Seq<Seq<S>>,
        targets: Seq<Seq<S>>,
        start: int,
        count: nat,
    ) -> Self
        decreases count,
    {
        if count == 0 {
            self
        } else {
            self.train_samples(inputs, targets, start, (count - 1) as nat).train_sample(
                inputs[start + count - 1],
                targets[start + count - 1],
            )
        }
    }

    /// The network after a mini-batch: it has trained on the `count` samples
    /// from `start` on, and their mean proposal has become its parameters.
    pub open spec fn train_chunk(
        self,
        inputs: Seq<Seq<S>>,
        targets: Seq<Seq<S>>,
        start: int,
        count: nat,
    ) -> Self {
        self.train_samples(inputs, targets, start, count).batch_update(count as usize)
    }

    /// Whether every neuron is active.
    pub open spec fn is_all_active(self) -> bool {
        self.dropout_mask == self.all_active().dropout_mask
    }

    /// The network after the first mini-batches of an epoch, one for each
    /// entry of `masks`: before each mini-batch the dropout mask is made from
    /// that entry's draws.
    pub open spec fn train_batches(
        self,
        inputs: Seq<Seq<S>>,
        targets: Seq<Seq<S>>,
        masks: Seq<Seq<Seq<u64>>>,
    ) -> Self
        decreases masks.len(),
    {
        if masks.len() == 0 {
            self
        } else {
            let batch = (masks.len() - 1) as nat;
            self.train_batches(inputs, targets, masks.drop_last()).with_mask(masks.last()).train_chunk(
                inputs,
                targets,
                spec_batch_start(inputs.len(), self.batch_size, batch) as int,
                spec_batch_len(inputs.len(), self.batch_size, batch),
            )
        }
    }

    /// What the end of an epoch makes of a network that has trained on every
    /// mini-batch, and what it reports: the network is evaluated on the
    /// validation samples with every neuron active, the accuracy is recorded,
    /// and unless the accuracy has reached a plateau the learning rate moves
    /// on. The report holds the learning rate from before the move.
    pub open spec fn finish_epoch(
        self,
        inputs: Seq<Seq<S>>,
        targets: Seq<Seq<S>>,
        epoch: u32,
    ) -> (Self, EpochReport<S>) {
        let (accuracy, cost) = self.evaluate(inputs, targets);
        let recorded = self.after_evaluation(inputs).record(accuracy);
        let early_stop = self.stops_after(accuracy);
        (
            if early_stop {
                recorded
            } else {
                recorded.update_learning_rate(epoch)
            },
            EpochReport { epoch, alpha: self.learning_rate.alpha, accuracy, cost, early_stop },
        )
    }

    /// The network after one epoch under the given masks, and the epoch's
    /// report.
    #[verifier::opaque]
    pub open spec fn train_epoch(
        self,
        train: (Seq<Seq<S>>, Seq<Seq<S>>),
        validation: (Seq<Seq<S>>, Seq<Seq<S>>),
        epoch: u32,
        masks: Seq<Seq<Seq<u64>>>,
    ) -> (Self, EpochReport<S>) {
        self.train_batches(train.0, train.1, masks).finish_epoch(validation.0, validation.1, epoch)
    }

    /// The network after one epoch for each entry of `masks`, the first of
    /// them epoch 1.
    pub open spec fn train_epochs(
        self,
        train: (Seq<Seq<S>>, Seq<Seq<S>>),
        validation: (Seq<Seq<S>>, Seq<Seq<S>>),
        masks: Seq<Seq<Seq<Seq<u64>>>>,
    ) -> Self
        decreases masks.len(),
    {
        if masks.len() == 0 {
            self
        } else {
            self.train_epochs(train, validation, masks.drop_last()).train_epoch(
                train,
                validation,
                masks.len() as u32,
                masks.last(),
            ).0
        }
    }
}

/// The number of samples that come before mini-batch `batch` of an epoch.
pub open spec fn spec_batch_start(total: nat, batch_size: usize, batch: nat) -> nat
    decreases batch,
{
    if batch == 0 {
        0
    } else {
        let next = spec_batch_start(total, batch_size, (batch - 1) as nat) + batch_size as nat;
        if next < total {
            next
        } else {
            total
        }
    }
}

/// The number of samples of mini-batch `batch` of an epoch: the batch size,
/// or what is left of the samples where that is less.
pub open spec fn spec_batch_len(total: nat, batch_size: usize, batch: nat) -> nat {
    let start = spec_batch_start(total, batch_size, batch);
    if batch_size < total - start {
        batch_size as nat
    } else {
        (total - start) as nat
    }
}

/// The masks of a run: for every epoch masks that fit the network as it
/// stands when the epoch begins, and with them the report of every epoch.
#[verifier::opaque]
pub open spec fn run_fits<S: Scalar>(
    masks: Seq<Seq<Seq<Seq<u64>>>>,
    reports: Seq<EpochReport<S>>,
    model: NetworkModel<S>,
    train: (Seq<Seq<S>>, Seq<Seq<S>>),
    validation: (Seq<Seq<S>>, Seq<Seq<S>>),
) -> bool {
    &&& masks.len() == reports.len()
    &&& forall|epoch: int|
        0 <= epoch < masks.len() ==> masks_fit(
            #[trigger] masks[epoch],
            model.train_epochs(train, validation, masks.take(epoch)),
            train.0.len(),
        )
    &&& forall|epoch: int|
        0 <= epoch < masks.len() ==> #[trigger] reports[epoch] == model.train_epochs(
            train,
            validation,
            masks.take(epoch),
        ).train_epoch(train, validation, (epoch + 1) as u32, masks[epoch]).1
}

/// Reports that tell, each for the history up to its epoch, whether the
/// accuracy had reached a plateau, still do so when the report of one more
/// epoch is added.
proof fn lemma_reports_grow<S: Scalar>(
    performance: Seq<S>,
    history: Seq<EpochReport<S>>,
    report: EpochReport<S>,
    patience: usize,
    threshold: S,
)
    requires
        forall|i: int|
            0 <= i < history.len() ==> (#[trigger] history[i]).early_stop == spec_plateau(
                performance + accuracies(history).take(i + 1),
                patience,
                threshold,
            ),
        report.early_stop == spec_plateau(
            (performance + accuracies(history)).push(report.accuracy),
            patience,
            threshold,
        ),
    ensures
        performance + accuracies(history.push(report)) == (performance + accuracies(history)).push(
            report.accuracy,
        ),
        forall|i: int|
            0 <= i < history.len() + 1 ==> (#[trigger] history.push(report)[i]).early_stop
                == spec_plateau(
                performance + accuracies(history.push(report)).take(i + 1),
                patience,
                threshold,
            ),
{
    let grown = history.push(report);
    assert(accuracies(grown) =~= accuracies(history).push(report.accuracy));
    assert(performance + accuracies(grown) =~= (performance + accuracies(history)).push(
        report.accuracy,
    ));
    assert(accuracies(grown).take(grown.len() as int) =~= accuracies(grown));
    assert forall|i: int| 0 <= i < grown.len() implies (#[trigger] grown[i]).early_stop
        == spec_plateau(performance + accuracies(grown).take(i + 1), patience, threshold) by {
        if i < history.len() {
            assert(grown[i] == history[i]);
            assert(accuracies(grown).take(i + 1) =~= accuracies(history).take(i + 1));
        }
    }
}

/// A run without epochs fits.
proof fn lemma_run_starts<S: Scalar>(
    model: NetworkModel<S>,
    train: (Seq<Seq<S>>, Seq<Seq<S>>),
    validation: (Seq<Seq<S>>, Seq<Seq<S>>),
)
    ensures
        run_fits(Seq::empty(), Seq::<EpochReport<S>>::empty(), model, train, validation),
        model.train_epochs(train, validation, Seq::empty()) == model,
{
    reveal(run_fits);
}

/// A run that fits stays one when an epoch is added to it.
proof fn lemma_run_grows<S: Scalar>(
    masks: Seq<Seq<Seq<Seq<u64>>>>,
    reports: Seq<EpochReport<S>>,
    model: NetworkModel<S>,
    train: (Seq<Seq<S>>, Seq<Seq<S>>),
    validation: (Seq<Seq<S>>, Seq<Seq<S>>),
    drawn: Seq<Seq<Seq<u64>>>,
    report: EpochReport<S>,
    after: NetworkModel<S>,
)
    requires
        run_fits(masks, reports, model, train, validation),
        masks_fit(drawn, model.train_epochs(train, validation, masks), train.0.len()),
        (after, report) == model.train_epochs(train, validation, masks).train_epoch(
            train,
            validation,
            (masks.len() + 1) as u32,
            drawn,
        ),
    ensures
        run_fits(masks.push(drawn), reports.push(report), model, train, validation),
        after == model.train_epochs(train, validation, masks.push(drawn)),
{
    reveal(run_fits);
    let more = masks.push(drawn);
    let grown = reports.push(report);
    assert(more.drop_last() =~= masks);
    assert(more.take(masks.len() as int) =~= masks);
    assert forall|epoch: int| 0 <= epoch < more.len() implies masks_fit(
        #[trigger] more[epoch],
        model.train_epochs(train, validation, more.take(epoch)),
        train.0.len(),
    ) by {
        if epoch < masks.len() {
            assert(more.take(epoch) =~= masks.take(epoch));
            assert(more[epoch] == masks[epoch]);
        }
    }
    assert forall|epoch: int| 0 <= epoch < more.len() implies #[trigger] grown[epoch]
        == model.train_epochs(train, validation, more.take(epoch)).train_epoch(
        train,
        validation,
        (epoch + 1) as u32,
        more[epoch],
    ).1 by {
        if epoch < masks.len() {
            assert(more.take(epoch) =~= masks.take(epoch));
            assert(more[epoch] == masks[epoch]);
            assert(grown[epoch] == reports[epoch]);
        }
    }
}

/// The masks of one epoch: one set of draws per mini-batch, each with a draw
/// for every neuron before the output layer, and exactly as many
/// mini-batches as it takes to go through all samples: the mini-batches
/// reach the last sample, and none of them starts behind it.
#[verifier::opaque]
pub open spec fn masks_fit<S>(masks: Seq<Seq<Seq<u64>>>, model: NetworkModel<S>, total: nat) -> bool {
    &&& spec_batch_start(total, model.batch_size, masks.len()) == total
    &&& forall|batch: int|
        0 <= batch < masks.len() ==> draws_fit(#[trigger] masks[batch], model.dropout_mask)
    &&& forall|batch: int|
        0 <= batch < masks.len() ==> #[trigger] spec_batch_start(
            total,
            model.batch_size,
            batch as nat,
        ) < total
}

/// Whether training on samples has left alone what it must: the settings,
/// the learning rate, the recorded accuracies, the dropout mask and, until
/// the mini-batch ends, the weights and biases.
pub open spec fn same_between_batches<S>(a: NetworkModel<S>, b: NetworkModel<S>) -> bool {
    &&& same_settings(a, b)
    &&& a.learning_rate == b.learning_rate
    &&& a.performance == b.performance
    &&& a.dropout_mask == b.dropout_mask
    &&& a.weights == b.weights
    &&& a.biases == b.biases
}

/// Training on samples counts them and moves neither the settings nor,
/// before the mini-batch ends, the weights and biases.
pub proof fn lemma_train_samples_keeps<S: Scalar>(
    model: NetworkModel<S>,
    inputs: Seq<Seq<S>>,
    targets: Seq<Seq<S>>,
    start: int,
    count: nat,
)
    requires
        model.iteration + count <= i32::MAX,
    ensures
        same_between_batches(model.train_samples(inputs, targets, start, count), model),
        model.train_samples(inputs, targets, start, count).iteration == model.iteration + count,
    decreases count,
{
    if count > 0 {
        lemma_train_samples_keeps(model, inputs, targets, start, (count - 1) as nat);
        let before = model.train_samples(inputs, targets, start, (count - 1) as nat);
        let counted = NetworkModel { iteration: (before.iteration + 1) as i32, ..before };
        let forwarded = counted.forward(inputs[start + count - 1]);
        let costed = forwarded.compute_costs(targets[start + count - 1]);
        lemma_backward_from_keeps(costed, inputs[start + count - 1], 0);
    }
}

proof fn lemma_with_mask_wf<S: Scalar>(model: NetworkModel<S>, draws: Seq<Seq<u64>>)
    requires
        model.wf(),
    ensures
        model.with_mask(draws).wf(),
{
    let masked = model.with_mask(draws);
    assert forall|layer: int| 0 <= layer < masked.dropout_mask.len() implies (
    #[trigger] masked.dropout_mask[layer]).len() == masked.composition[layer + 0] by {
        assert(model.dropout_mask[layer].len() == model.composition[layer + 0]);
    }
}

/// Making every neuron active a second time changes nothing.
pub proof fn lemma_all_active_twice<S: Scalar>(model: NetworkModel<S>)
    ensures
        model.all_active().all_active() == model.all_active(),
{
    assert(model.all_active().all_active().dropout_mask =~~= model.all_active().dropout_mask);
}

/// The answer of a network is a function of its weights, biases and
/// activations: two networks that agree on these answer alike, whatever their
/// dropout masks and the rest of their state.
pub proof fn lemma_predict_is_function_of_parameters<S: Scalar>(
    a: NetworkModel<S>,
    b: NetworkModel<S>,
    inputs: Seq<S>,
)
    requires
        same_parameters(a.all_active(), b.all_active()),
    ensures
        a.predict(inputs) == b.predict(inputs),
{
    lemma_forward_is_function_of_parameters(
        a.all_active(),
        b.all_active(),
        inputs,
        a.depth() - 1,
    );
}

/// Accuracy and mean cost are a function of the weights, biases and
/// activations of a network.
pub proof fn lemma_evaluate_is_function_of_parameters<S: Scalar>(
    a: NetworkModel<S>,
    b: NetworkModel<S>,
    inputs: Seq<Seq<S>>,
    targets: Seq<Seq<S>>,
)
    requires
        same_parameters(a.all_active(), b.all_active()),
    ensures
        a.evaluate(inputs, targets) == b.evaluate(inputs, targets),
{
    lemma_counts_are_function_of_parameters(a, b, inputs, targets, inputs.len());
}

proof fn lemma_counts_are_function_of_parameters<S: Scalar>(
    a: NetworkModel<S>,
    b: NetworkModel<S>,
    inputs: Seq<Seq<S>>,
    targets: Seq<Seq<S>>,
    n: nat,
)
    requires
        same_parameters(a.all_active(), b.all_active()),
    ensures
        a.correct_count(inputs, targets, n) == b.correct_count(inputs, targets, n),
        a.total_cost(inputs, targets, n) == b.total_cost(inputs, targets, n),
    decreases n,
{
    if n > 0 {
        lemma_counts_are_function_of_parameters(a, b, inputs, targets, (n - 1) as nat);
        lemma_predict_is_function_of_parameters(a, b, inputs[n - 1]);
    }
}

impl<S: Scalar> Network<S> {
    /// What `train` asks of its caller: a well-formed network, samples that
    /// fit it, a mini-batch size that is not zero, a schedule that can be
    /// followed, and an iteration counter that can count every sample of
    /// every epoch.
    pub open spec fn can_train(
        &self,
        train_data: &Data<S>,
        validation_data: &Data<S>,
        max_epochs: u32,
    ) -> bool {
        &&& self.wf()
        &&& train_data.fits(self@.composition)
        &&& validation_data.fits(self@.composition)
        &&& self@.batch_size > 0
        &&& self@.learning_rate.wf()
        &&& self@.iteration + max_epochs * train_data.inputs@.len() <= i32::MAX
    }

    /// Whether the network can be trained on the samples for up to
    /// `max_epochs` epochs.
    pub fn is_ready_to_train(
        &self,
        train_data: &Data<S>,
        validation_data: &Data<S>,
        max_epochs: u32,
    ) -> (r: bool)
        ensures
            r == self.can_train(train_data, validation_data, max_epochs),
    {
        if !self.is_well_formed() {
            return false;
        }
        let composition = self.hyper_params.composition.as_slice();
        if !train_data.fits_composition(composition) || !validation_data.fits_composition(
            composition,
        ) {
            return false;
        }
        if self.hyper_params.batch_size == 0 || !self.hyper_params.learning_rate.is_well_formed() {
            return false;
        }
        let samples = train_data.inputs.len() as u128;
        proof {
            assert(max_epochs * samples <= 0xffff_ffff * 0xffff_ffff_ffff_ffff) by (nonlinear_arith)
                requires
                    0 <= max_epochs <= 0xffff_ffff,
                    0 <= samples <= 0xffff_ffff_ffff_ffff,
            ;
        }
        let needed = max_epochs as u128 * samples;
        if self.optimizer.iteration < 0 {
            needed <= 0x7fff_ffff + (-(self.optimizer.iteration as i64)) as u128
        } else {
            needed <= 0x7fff_ffff - (self.optimizer.iteration as u128)
        }
    }

    /// Trains on one sample: the iteration counter moves on by one, then a
    /// forward and a backward pass follow.
    pub fn train_sample(&mut self, inputs: &[S], targets: &[S])
        requires
            old(self).wf(),
            old(self)@.iteration < i32::MAX,
            inputs@.len() == old(self)@.composition[0],
            old(self)@.depth() > 0 ==> targets@.len() == old(self)@.composition[old(self)@.depth()],
        ensures
            final(self)@ == old(self)@.train_sample(inputs@, targets@),
            final(self).wf(),
    {
        self.optimizer.iteration += 1;
        self.forward(inputs);
        self.backward(inputs, targets);
    }

    /// Trains on one mini-batch, the `count` samples from `start` on, with
    /// the dropout mask as it stands, and makes the mean of what the samples
    /// proposed the new parameters.
    pub fn train_chunk(&mut self, data: &Data<S>, start: usize, count: usize)
        requires
            old(self).wf(),
            data.fits(old(self)@.composition),
            start + count <= data.inputs@.len(),
            old(self)@.iteration + count <= i32::MAX,
        ensures
            final(self)@ == old(self)@.train_chunk(
                rows(data.inputs),
                rows(data.targets),
                start as int,
                count as nat,
            ),
            final(self).wf(),
    {
        let ghost model = self@;
        let ghost inputs = rows(data.inputs);
        let ghost targets = rows(data.targets);
        let total = data.inputs.len();
        let mut done: usize = 0;
        while done < count
            invariant
                done <= count,
                total == data.inputs@.len(),
                start + count <= data.inputs@.len(),
                data.inputs@.len() == data.targets@.len(),
                data.fits(model.composition),
                inputs == rows(data.inputs),
                targets == rows(data.targets),
                model.wf(),
                model.iteration + count <= i32::MAX,
                self.wf(),
                self@.composition == model.composition,
                self@.iteration == model.iteration + done,
                self@ == model.train_samples(inputs, targets, start as int, done as nat),
            decreases count - done,
        {
            proof {
                assert(inputs[start + done] == data.inputs@[start + done]@);
                assert(targets[start + done] == data.targets@[start + done]@);
                lemma_train_samples_keeps(model, inputs, targets, start as int, (done + 1) as nat);
            }
            self.train_sample(
                data.inputs[start + done].as_slice(),
                data.targets[start + done].as_slice(),
            );
            done += 1;
        }
        Batch::update(self, count);
    }

    /// Trains for one epoch and reports on it: every mini-batch of the
    /// training samples under a dropout mask of its own, then an evaluation
    /// on the validation samples with every neuron active, the test for a
    /// plateau and, unless training stops, the move of the learning rate.
    ///
    /// Which neurons are dropped is left to chance. Network and report are
    /// those that the model gives for the masks that were drawn.
    pub fn train_epoch(&mut self, train_data: &Data<S>, validation_data: &Data<S>, epoch: u32) -> (report:
        EpochReport<S>)
        requires
            old(self).wf(),
            train_data.fits(old(self)@.composition),
            validation_data.fits(old(self)@.composition),
            old(self)@.batch_size > 0,
            old(self)@.learning_rate.wf(),
            old(self)@.iteration + train_data.inputs@.len() <= i32::MAX,
        ensures
            exists|masks: Seq<Seq<Seq<u64>>>|
                #[trigger] masks_fit(masks, old(self)@, train_data.inputs@.len()) && (
                    final(self)@,
                    report,
                ) == old(self)@.train_epoch(
                    (rows(train_data.inputs), rows(train_data.targets)),
                    (rows(validation_data.inputs), rows(validation_data.targets)),
                    epoch,
                    masks,
                ),
            final(self).wf(),
            same_settings(final(self)@, old(self)@),
            final(self)@.is_all_active(),
            final(self)@.iteration == old(self)@.iteration + train_data.inputs@.len(),
            final(self)@.performance == old(self)@.performance.push(report.accuracy),
            report.epoch == epoch,
            report.alpha == old(self)@.learning_rate.alpha,
            (report.accuracy, report.cost) == final(self)@.evaluate(
                rows(validation_data.inputs),
                rows(validation_data.targets),
            ),
            report.early_stop == spec_plateau(
                final(self)@.performance,
                old(self)@.early_stopping.patience,
                old(self)@.early_stopping.stability_threshold,
            ),
            final(self)@.learning_rate.alpha == if report.early_stop {
                old(self)@.learning_rate.alpha
            } else {
                old(self)@.learning_rate.spec_updated(epoch)
            },
    {
        let ghost model = self@;
        let ghost inputs = rows(train_data.inputs);
        let ghost targets = rows(train_data.targets);
        let ghost mut masks: Seq<Seq<Seq<u64>>> = Seq::empty();
        let total = train_data.inputs.len();
        let batch_size = self.hyper_params.batch_size;
        let mut start: usize = 0;
        while start < total
            invariant
                start <= total,
                total == train_data.inputs@.len(),
                total == inputs.len(),
                inputs == rows(train_data.inputs),
                targets == rows(train_data.targets),
                batch_size > 0,
                batch_size == model.batch_size,
                model.wf(),
                model.iteration + total <= i32::MAX,
                train_data.fits(model.composition),
                self.wf(),
                same_settings(self@, model),
                self@.learning_rate == model.learning_rate,
                self@.performance == model.performance,
                self@.iteration == model.iteration + start,
                start == spec_batch_start(total as nat, batch_size, masks.len()),
                forall|batch: int|
                    0 <= batch < masks.len() ==> draws_fit(#[trigger] masks[batch], model.dropout_mask),
                forall|batch: int|
                    0 <= batch < masks.len() ==> #[trigger] spec_batch_start(
                        total as nat,
                        batch_size,
                        batch as nat,
                    ) < total,
                self@ == model.train_batches(inputs, targets, masks),
            decreases total - start,
        {
            let count = if batch_size < total - start {
                batch_size
            } else {
                total - start
            };
            let ghost before = self@;
            Dropout::generate_mask(self);
            proof {
                let draws = choose|draws: Seq<Seq<u64>>|
                    draws_fit(draws, before.dropout_mask) && self@ == before.with_mask(draws);
                lemma_with_mask_wf(before, draws);
                lemma_train_samples_keeps(self@, inputs, targets, start as int, count as nat);
                assert(draws_fit(draws, model.dropout_mask)) by {
                    assert forall|layer: int|
                        0 <= layer < model.dropout_mask.len() implies model.dropout_mask[layer].len()
                        == before.dropout_mask[layer].len() by {
                        assert(model.dropout_mask[layer].len() == model.composition[layer + 0]);
                        assert(before.dropout_mask[layer].len() == before.composition[layer + 0]);
                    }
                }
                let grown = masks.push(draws);
                assert(grown.drop_last() =~= masks);
                assert(grown.last() == draws);
                masks = grown;
            }
            self.train_chunk(train_data, start, count);
            start += count;
        }
        let ghost trained = self@;
        let alpha = self.hyper_params.learning_rate.alpha;
        let (accuracy, cost) = self.test(validation_data);
        let ghost evaluated = self@;
        let early_stop = EarlyStopping::check(self, accuracy);
        if !early_stop {
            LearningRate::update(self, &epoch);
        }
        proof {
            lemma_all_active_twice(trained);
            assert(self@.dropout_mask == evaluated.dropout_mask);
            assert(evaluated.dropout_mask == trained.all_active().dropout_mask);
            assert(self@.all_active().dropout_mask =~~= trained.all_active().dropout_mask);
            lemma_evaluate_is_function_of_parameters(
                self@,
                trained,
                rows(validation_data.inputs),
                rows(validation_data.targets),
            );
            assert(masks_fit(masks, model, total as nat)) by {
                reveal(masks_fit);
            }
            reveal(NetworkModel::train_epoch);
        }
        EpochReport { epoch, alpha, accuracy, cost, early_stop }
    }

    /// Trains epoch after epoch until the validation accuracy reaches a
    /// plateau or `max_epochs` epochs are done, whichever comes first, and
    /// returns the report of every epoch. After the last epoch every neuron
    /// is active, ready for inference.
    ///
    /// Which neurons are dropped is left to chance. Network and reports are
    /// those that the model gives for the masks that were drawn.
    pub fn train(&mut self, train_data: &Data<S>, validation_data: &Data<S>, max_epochs: u32) -> (run:
        TrainingRun<S>)
        requires
            old(self).can_train(train_data, validation_data, max_epochs),
        ensures
            exists|masks: Seq<Seq<Seq<Seq<u64>>>>|
                #[trigger] run_fits(
                    masks,
                    run.reports@,
                    old(self)@,
                    (rows(train_data.inputs), rows(train_data.targets)),
                    (rows(validation_data.inputs), rows(validation_data.targets)),
                ) && final(self)@ == old(self)@.train_epochs(
                    (rows(train_data.inputs), rows(train_data.targets)),
                    (rows(validation_data.inputs), rows(validation_data.targets)),
                    masks,
                ),
            final(self).wf(),
            same_settings(final(self)@, old(self)@),
            run.reports@.len() <= max_epochs,
            forall|i: int| 0 <= i < run.reports@.len() ==> (#[trigger] run.reports@[i]).epoch == i + 1,
            forall|i: int|
                0 <= i < run.reports@.len() ==> (#[trigger] run.reports@[i]).early_stop == spec_plateau(
                    old(self)@.performance + accuracies(run.reports@).take(i + 1),
                    old(self)@.early_stopping.patience,
                    old(self)@.early_stopping.stability_threshold,
                ),
            forall|i: int|
                0 <= i < run.reports@.len() - 1 ==> !(#[trigger] run.reports@[i]).early_stop,
            run.outcome == Outcome::Converged <==> run.reports@.len() > 0
                && run.reports@.last().early_stop,
            run.outcome == Outcome::Exhausted ==> run.reports@.len() == max_epochs,
            final(self)@.iteration == old(self)@.iteration + run.reports@.len()
                * train_data.inputs@.len(),
            final(self)@.performance == old(self)@.performance + accuracies(run.reports@),
            run.reports@.len() > 0 ==> final(self)@.is_all_active(),
            run.reports@.len() > 0 ==> (run.reports@.last().accuracy, run.reports@.last().cost)
                == final(self)@.evaluate(rows(validation_data.inputs), rows(validation_data.targets)),
    {
        let ghost model = self@;
        let ghost samples = train_data.inputs@.len();
        let ghost train = (rows(train_data.inputs), rows(train_data.targets));
        let ghost validation = (rows(validation_data.inputs), rows(validation_data.targets));
        let ghost mut masks: Seq<Seq<Seq<Seq<u64>>>> = Seq::empty();
        let mut reports: Vec<EpochReport<S>> = Vec::new();
        let mut converged = false;
        let mut epoch: u32 = 0;
        proof {
            assert(model.performance + accuracies(reports@) =~= model.performance);
            assert(0 * samples == 0) by (nonlinear_arith);
            lemma_run_starts(model, train, validation);
            assert(reports@ =~= Seq::<EpochReport<S>>::empty());
        }
        while epoch < max_epochs && !converged
            invariant
                epoch <= max_epochs,
                samples == train_data.inputs@.len(),
                model.wf(),
                model.iteration + max_epochs * samples <= i32::MAX,
                train_data.fits(model.composition),
                validation_data.fits(model.composition),
                model.batch_size > 0,
                model.learning_rate.wf(),
                self.wf(),
                same_settings(self@, model),
                reports@.len() == epoch,
                forall|i: int| 0 <= i < reports@.len() ==> (#[trigger] reports@[i]).epoch == i + 1,
                forall|i: int|
                    0 <= i < reports@.len() ==> (#[trigger] reports@[i]).early_stop == spec_plateau(
                        model.performance + accuracies(reports@).take(i + 1),
                        model.early_stopping.patience,
                        model.early_stopping.stability_threshold,
                    ),
                forall|i: int| 0 <= i < reports@.len() - 1 ==> !(#[trigger] reports@[i]).early_stop,
                converged <==> reports@.len() > 0 && reports@.last().early_stop,
                self@.iteration == model.iteration + epoch * samples,
                self@.performance == model.performance + accuracies(reports@),
                reports@.len() > 0 ==> self@.is_all_active(),
                reports@.len() > 0 ==> (reports@.last().accuracy, reports@.last().cost)
                    == self@.evaluate(rows(validation_data.inputs), rows(validation_data.targets)),
                train == (rows(train_data.inputs), rows(train_data.targets)),
                validation == (rows(validation_data.inputs), rows(validation_data.targets)),
                masks.len() == epoch,
                run_fits(masks, reports@, model, train, validation),
                self@ == model.train_epochs(train, validation, masks),
            decreases max_epochs - epoch,
        {
            proof {
                assert((epoch + 1) * samples == epoch * samples + samples) by (nonlinear_arith);
                assert((epoch + 1) * samples <= max_epochs * samples) by (nonlinear_arith)
                    requires
                        epoch + 1 <= max_epochs,
                        samples >= 0,
                ;
            }
            epoch += 1;
            let ghost history = reports@;
            let ghost before = self@;
            let report = self.train_epoch(train_data, validation_data, epoch);
            converged = report.early_stop;
            proof {
                let drawn = choose|drawn: Seq<Seq<Seq<u64>>>|
                    #[trigger] masks_fit(drawn, before, train_data.inputs@.len()) && (self@, report)
                        == before.train_epoch(train, validation, epoch, drawn);
                lemma_run_grows(masks, history, model, train, validation, drawn, report, self@);
                masks = masks.push(drawn);
            }
            proof {
                lemma_reports_grow(
                    model.performance,
                    history,
                    report,
                    model.early_stopping.patience,
                    model.early_stopping.stability_threshold,
                );
            }
            reports.push(report);
        }
        let outcome = if converged {
            Outcome::Converged
        } else {
            Outcome::Exhausted
        };
        let run = TrainingRun { reports, outcome };
        proof {
            assert(run_fits(masks, run.reports@, old(self)@, train, validation) && self@ == old(
                self,
            )@.train_epochs(train, validation, masks));
        }
        run
    }
}

} // verus!
