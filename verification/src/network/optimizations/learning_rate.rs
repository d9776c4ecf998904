//! The learning rate and its schedule: decay and periodic restarts.

use vstd::prelude::*;
use crate::scalar::{Scalar, spec_one, one};
use crate::network::state::{Network, NetworkModel};

verus! {

/// How the learning rate decays from epoch to epoch.
#[derive(Clone, Copy, Debug, PartialEq, Eq)]
pub enum DecayMethod {
    /// Multiply by the rate on every epoch that is a multiple of the step.
    Step(u32),
    /// Multiply by the rate raised to the number of the epoch.
    Exponential,
    /// Divide by one plus the rate times the number of the epoch.
    Inverse,
}

/// A decay: its method and its rate.
pub struct Decay<S> {
    pub method: DecayMethod,
    pub rate: S,
}

/// Every `interval` epochs the learning rate is set back to `alpha`.
pub struct Restart<S> {
    pub interval: u32,
    pub alpha: S,
}

/// The current learning rate and the schedule that moves it.
pub struct LearningRate<S> {
    pub alpha: S,
    pub restart: Option<Restart<S>>,
    pub decay: Option<Decay<S>>,
}

/// The number of an epoch as an exponent; epochs beyond the largest exponent
/// count as the largest.
pub open spec fn spec_exponent(epoch: u32) -> i32 {
    if epoch <= 0x7fff_ffff {
        epoch as i32
    } else {
        0x7fff_ffff
    }
}

/// The learning rate after the decay of one epoch.
pub open spec fn spec_decayed<S: Scalar>(decay: Option<Decay<S>>, alpha: S, adjusted_epoch: u32) -> S {
    match decay {
        Some(decay) => match decay.method {
            DecayMethod::Step(step) => if step != 0 && adjusted_epoch % step == 0 {
                alpha.spec_mul(decay.rate)
            } else {
                alpha
            },
            DecayMethod::Exponential => alpha.spec_mul(
                decay.rate.spec_powi(spec_exponent(adjusted_epoch)),
            ),
            DecayMethod::Inverse => alpha.spec_div(
                spec_one::<S>().spec_add(decay.rate.spec_mul(S::spec_from_ratio(adjusted_epoch as i64, 1))),
            ),
        },
        None => alpha,
    }
}

/// Whether a restart falls on the epoch.
pub open spec fn spec_restarts<S>(restart: Option<Restart<S>>, epoch: u32) -> bool {
    match restart {
        Some(restart) => restart.interval != 0 && epoch % restart.interval == 0,
        None => false,
    }
}

/// The number of the epoch counted from the last restart.
pub open spec fn spec_adjusted_epoch<S>(restart: Option<Restart<S>>, epoch: u32) -> u32 {
    match restart {
        Some(restart) => if restart.interval != 0 {
            epoch % restart.interval
        } else {
            epoch
        },
        None => epoch,
    }
}

impl<S: Scalar> Decay<S> {
    /// No step decay has a step of zero.
    pub open spec fn wf(self) -> bool {
        match self.method {
            DecayMethod::Step(step) => step != 0,
            _ => true,
        }
    }

    /// Applies the decay of one epoch to the learning rate.
    pub fn decay(decay: &Option<Self>, alpha: &mut S, adjusted_epoch: u32)
        requires
            decay.is_some() ==> decay.unwrap().wf(),
        ensures
            *final(alpha) == spec_decayed(*decay, *old(alpha), adjusted_epoch),
    {
        if let Some(decay) = decay {
            match decay.method {
                DecayMethod::Step(decay_step) => {
                    if adjusted_epoch % decay_step == 0 {
                        *alpha = alpha.mul(decay.rate);
                    }
                },
                DecayMethod::Exponential => {
                    let exponent: i32 = if adjusted_epoch <= 0x7fff_ffff {
                        adjusted_epoch as i32
                    } else {
                        0x7fff_ffff
                    };
                    *alpha = alpha.mul(decay.rate.powi(exponent));
                },
                DecayMethod::Inverse => {
                    *alpha = alpha.div(
                        one::<S>().add(decay.rate.mul(S::from_ratio(adjusted_epoch as i64, 1))),
                    );
                },
            }
        }
    }
}

impl<S: Scalar> Restart<S> {
    /// Restarts come at a positive interval.
    pub open spec fn wf(self) -> bool {
        self.interval != 0
    }

    /// Sets the learning rate back where a restart falls on the epoch.
    pub fn restart(restart: &Option<Self>, alpha: &mut S, epoch: &u32)
        requires
            restart.is_some() ==> restart.unwrap().wf(),
        ensures
            *final(alpha) == if spec_restarts(*restart, *epoch) {
                restart.unwrap().alpha
            } else {
                *old(alpha)
            },
    {
        if let Some(restart) = restart {
            if *epoch % restart.interval == 0 {
                *alpha = restart.alpha;
            }
        }
    }
}

impl<S: Scalar> LearningRate<S> {
    /// The schedule can be followed: restarts come at a positive interval and
    /// a step decay has a positive step.
    pub open spec fn wf(self) -> bool {
        &&& self.restart.is_some() ==> self.restart.unwrap().wf()
        &&& self.decay.is_some() ==> self.decay.unwrap().wf()
    }

    /// The learning rate after the epoch `epoch`: the restart value where a
    /// restart falls on the epoch, else the rate decayed by the number of
    /// epochs since the last restart.
    pub open spec fn spec_updated(self, epoch: u32) -> S {
        if spec_restarts(self.restart, epoch) {
            self.restart.unwrap().alpha
        } else {
            spec_decayed(self.decay, self.alpha, spec_adjusted_epoch(self.restart, epoch))
        }
    }

    /// Whether the schedule can be followed.
    pub fn is_well_formed(&self) -> (r: bool)
        ensures
            r == self.wf(),
    {
        let restart_ok = match &self.restart {
            Some(restart) => restart.interval != 0,
            None => true,
        };
        let decay_ok = match &self.decay {
            Some(decay) => match decay.method {
                DecayMethod::Step(step) => step != 0,
                _ => true,
            },
            None => true,
        };
        restart_ok && decay_ok
    }

    /// Moves the network's learning rate on by one epoch.
    pub fn update(network: &mut Network<S>, epoch: &u32)
        requires
            old(network)@.learning_rate.wf(),
        ensures
            final(network)@ == old(network)@.update_learning_rate(*epoch),
    {
        let mut adjusted_epoch = *epoch;
        if let Some(restart) = &network.hyper_params.learning_rate.restart {
            adjusted_epoch = *epoch % restart.interval;
        }
        let mut alpha = network.hyper_params.learning_rate.alpha;
        Decay::decay(&network.hyper_params.learning_rate.decay, &mut alpha, adjusted_epoch);
        Restart::restart(&network.hyper_params.learning_rate.restart, &mut alpha, epoch);
        network.hyper_params.learning_rate.alpha = alpha;
    }
}

impl<S: Scalar> NetworkModel<S> {
    /// The network after its learning rate has moved on by the epoch `epoch`.
    pub open spec fn update_learning_rate(self, epoch: u32) -> Self {
        NetworkModel {
            learning_rate: LearningRate {
                alpha: self.learning_rate.spec_updated(epoch),
                restart: self.learning_rate.restart,
                decay: self.learning_rate.decay,
            },
            ..self
        }
    }
}

/// Exponential decay without restarts multiplies the learning rate by the
/// decay rate raised to the number of the epoch.
pub proof fn lemma_exponential_decay<S: Scalar>(schedule: LearningRate<S>, epoch: u32)
    requires
        schedule.restart.is_none(),
        schedule.decay.is_some(),
        schedule.decay.unwrap().method == DecayMethod::Exponential,
        epoch <= 0x7fff_ffff,
    ensures
        schedule.spec_updated(epoch) == schedule.alpha.spec_mul(
            schedule.decay.unwrap().rate.spec_powi(epoch as i32),
        ),
{
}

/// Step decay moves the learning rate only on the epochs that are, counted
/// from the last restart, a multiple of the step, and then multiplies it by
/// the decay rate.
pub proof fn lemma_step_decay<S: Scalar>(schedule: LearningRate<S>, step: u32, epoch: u32)
    requires
        schedule.wf(),
        schedule.decay.is_some(),
        schedule.decay.unwrap().method == DecayMethod::Step(step),
        !spec_restarts(schedule.restart, epoch),
    ensures
        spec_adjusted_epoch(schedule.restart, epoch) % step != 0 ==> schedule.spec_updated(epoch)
            == schedule.alpha,
        spec_adjusted_epoch(schedule.restart, epoch) % step == 0 ==> schedule.spec_updated(epoch)
            == schedule.alpha.spec_mul(schedule.decay.unwrap().rate),
{
}

} // verus!
