//! Labelled samples: inputs with their one-hot targets.

use vstd::prelude::*;
use crate::scalar::{Scalar, spec_zero, spec_one, zero, one};

verus! {

/// A list of inputs and, at the same index, the target of each.
pub struct Data<S> {
    pub inputs: Vec<Vec<S>>,
    pub targets: Vec<Vec<S>>,
}

/// The training, validation and test samples of one run.
pub struct Dataset<S> {
    pub train: Data<S>,
    pub validation: Data<S>,
    pub test: Data<S>,
}

/// The number of classes that `one_hot_encode` tells apart: the ten digits.
pub open spec fn class_count() -> usize {
    10
}

/// The one-hot vector of `len` entries whose one is at `index`.
pub open spec fn spec_one_hot<S: Scalar>(index: int, len: nat) -> Seq<S> {
    Seq::new(
        len,
        |i: int|
            if i == index {
                spec_one::<S>()
            } else {
                spec_zero::<S>()
            },
    )
}

/// The number of samples that go to training when the rest is held out for
/// validation: four fifths, rounded down.
pub open spec fn spec_training_share(total: usize) -> int {
    (total * 4) / 5
}

impl<S: Scalar> Data<S> {
    /// The samples fit a network of the given composition: every input has a
    /// target, every input is as long as the input layer is wide, and every
    /// target as long as the output layer.
    pub open spec fn fits(&self, composition: Seq<usize>) -> bool {
        &&& composition.len() > 0
        &&& self.inputs@.len() == self.targets@.len()
        &&& forall|sample: int|
            0 <= sample < self.inputs@.len() ==> (#[trigger] self.inputs@[sample])@.len()
                == composition[0]
        &&& forall|sample: int|
            0 <= sample < self.targets@.len() ==> (#[trigger] self.targets@[sample])@.len()
                == composition[composition.len() - 1]
    }

    /// Whether the samples fit a network of the given composition.
    pub fn fits_composition(&self, composition: &[usize]) -> (r: bool)
        ensures
            r == self.fits(composition@),
    {
        if composition.len() == 0 || self.inputs.len() != self.targets.len() {
            return false;
        }
        let input_width = composition[0];
        let output_width = composition[composition.len() - 1];
        let mut sample: usize = 0;
        while sample < self.inputs.len()
            invariant
                sample <= self.inputs@.len(),
                self.inputs@.len() == self.targets@.len(),
                composition@.len() > 0,
                input_width == composition@[0],
                output_width == composition@[composition@.len() - 1],
                forall|done: int|
                    0 <= done < sample ==> (#[trigger] self.inputs@[done])@.len() == input_width,
                forall|done: int|
                    0 <= done < sample ==> (#[trigger] self.targets@[done])@.len() == output_width,
            decreases self.inputs@.len() - sample,
        {
            if self.inputs[sample].len() != input_width || self.targets[sample].len()
                != output_width {
                return false;
            }
            sample += 1;
        }
        true
    }

    /// The samples of a list of labelled images: each image with its shades
    /// of grey, which range from 0 to 255, scaled down to the range from 0 to
    /// 1, and as its target the one-hot vector of its label.
    pub fn from_records(labels: &[usize], images: &Vec<Vec<S>>) -> (r: Self)
        requires
            labels@.len() == images@.len(),
            forall|sample: int| 0 <= sample < labels@.len() ==> labels@[sample] < class_count(),
        ensures
            r.inputs@.len() == images@.len(),
            r.targets@.len() == images@.len(),
            forall|sample: int|
                0 <= sample < images@.len() ==> (#[trigger] r.targets@[sample])@ == spec_one_hot::<S>(
                    labels@[sample] as int,
                    class_count() as nat,
                ),
            forall|sample: int|
                0 <= sample < images@.len() ==> (#[trigger] r.inputs@[sample])@.len()
                    == images@[sample]@.len(),
            forall|sample: int, pixel: int|
                0 <= sample < images@.len() && 0 <= pixel < images@[sample]@.len() ==> (
                #[trigger] r.inputs@[sample]@[pixel]) == images@[sample]@[pixel].spec_div(
                    S::spec_from_ratio(255, 1),
                ),
    {
        let mut inputs: Vec<Vec<S>> = Vec::new();
        let mut targets: Vec<Vec<S>> = Vec::new();
        let white = S::from_ratio(255, 1);
        let mut sample: usize = 0;
        while sample < images.len()
            invariant
                sample <= images@.len(),
                labels@.len() == images@.len(),
                forall|i: int| 0 <= i < labels@.len() ==> labels@[i] < class_count(),
                white == S::spec_from_ratio(255, 1),
                inputs@.len() == sample,
                targets@.len() == sample,
                forall|i: int|
                    0 <= i < sample ==> (#[trigger] targets@[i])@ == spec_one_hot::<S>(
                        labels@[i] as int,
                        class_count() as nat,
                    ),
                forall|i: int|
                    0 <= i < sample ==> (#[trigger] inputs@[i])@.len() == images@[i]@.len(),
                forall|i: int, pixel: int|
                    0 <= i < sample && 0 <= pixel < images@[i]@.len() ==> (
                    #[trigger] inputs@[i]@[pixel]) == images@[i]@[pixel].spec_div(white),
            decreases images@.len() - sample,
        {
            let mut input: Vec<S> = Vec::new();
            let mut pixel: usize = 0;
            while pixel < images[sample].len()
                invariant
                    sample < images@.len(),
                    pixel <= images@[sample as int]@.len(),
                    input@.len() == pixel,
                    forall|p: int|
                        0 <= p < pixel ==> #[trigger] input@[p] == images@[sample as int]@[p].spec_div(
                            white,
                        ),
                decreases images@[sample as int]@.len() - pixel,
            {
                input.push(images[sample][pixel].div(white));
                pixel += 1;
            }
            inputs.push(input);
            targets.push(Self::one_hot_encode(labels[sample]));
            sample += 1;
        }
        Data { inputs, targets }
    }

    /// Whether every entry equals zero.
    pub open spec fn spec_all_zero(target: Seq<S>) -> bool {
        forall|i: int| 0 <= i < target.len() ==> (#[trigger] target[i]).spec_equals(spec_zero::<S>())
    }

    /// The place of the first entry of a target that is not zero, if there
    /// is one.
    pub fn first_set(target: &[S]) -> (r: Option<usize>)
        ensures
            match r {
                Some(index) => {
                    &&& index < target@.len()
                    &&& !target@[index as int].spec_equals(spec_zero::<S>())
                    &&& forall|i: int|
                        0 <= i < index ==> (#[trigger] target@[i]).spec_equals(spec_zero::<S>())
                },
                None => Self::spec_all_zero(target@),
            },
    {
        let mut index: usize = 0;
        while index < target.len()
            invariant
                index <= target@.len(),
                forall|i: int|
                    0 <= i < index ==> (#[trigger] target@[i]).spec_equals(spec_zero::<S>()),
            decreases target@.len() - index,
        {
            if !target[index].equals(zero()) {
                return Some(index);
            }
            index += 1;
        }
        None
    }

    /// The target of a digit: ten entries, all zero but a one at the digit.
    pub fn one_hot_encode(num: usize) -> (r: Vec<S>)
        requires
            num < class_count(),
        ensures
            r@ == spec_one_hot::<S>(num as int, class_count() as nat),
    {
        let mut vec: Vec<S> = Vec::new();
        let mut index: usize = 0;
        while index < 10
            invariant
                index <= 10,
                vec@.len() == index,
                forall|i: int|
                    0 <= i < index ==> #[trigger] vec@[i] == if i == num {
                        spec_one::<S>()
                    } else {
                        spec_zero::<S>()
                    },
            decreases 10 - index,
        {
            if index == num {
                vec.push(one());
            } else {
                vec.push(zero());
            }
            index += 1;
        }
        proof {
            assert(vec@ =~= spec_one_hot::<S>(num as int, class_count() as nat));
        }
        vec
    }
}

impl<S: Scalar> Dataset<S> {
    /// The samples of one run: the last fifth of the training samples is
    /// held out for validation, the test samples stay as they are.
    pub fn new(training: Data<S>, test: Data<S>) -> (r: Self)
        requires
            training.inputs@.len() == training.targets@.len(),
        ensures
            r.test == test,
            r.train.inputs@ == training.inputs@.take(spec_training_share(training.inputs@.len() as usize)),
            r.train.targets@ == training.targets@.take(
                spec_training_share(training.inputs@.len() as usize),
            ),
            r.validation.inputs@ == training.inputs@.skip(
                spec_training_share(training.inputs@.len() as usize),
            ),
            r.validation.targets@ == training.targets@.skip(
                spec_training_share(training.inputs@.len() as usize),
            ),
    {
        let mut training = training;
        let total = training.targets.len();
        let validation_start_index = total / 5 * 4 + (total % 5) * 4 / 5;
        let validation_inputs = training.inputs.split_off(validation_start_index);
        let validation_targets = training.targets.split_off(validation_start_index);
        Self {
            train: training,
            validation: Data { inputs: validation_inputs, targets: validation_targets },
            test,
        }
    }
}

} // verus!
