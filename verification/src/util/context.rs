//! What the layers and their training are configured with.

use vstd::prelude::*;

use crate::util::function::{Activation, LossFunc, Normalisation, Optimiser, Regularisation};
use crate::util::precision::F32;

verus! {

/// Initialisation config for layers. Pass this to layer construction functions.
///
/// # Fields
/// * `normalisation` - See [`Normalisation`]. Pass `Disabled` to disable normalisation.
/// * `activation` - See [`Activation`]. Pass `Identity` to set this layer to an output layer.
/// * `regularisation` - See [`Regularisation`]. Pass [`Regularisation::Disabled`] to disable
///   regularisation.
/// * `mask_coeff` - Mask coefficient for dropout.
#[derive(Debug, Clone, Copy, PartialEq, Eq, Structural)]
pub struct LayerInitConfig {
    pub normalisation: Normalisation,
    pub activation: Activation,
    pub regularisation: Regularisation,
    pub mask_coeff: F32,
}

/// Everything is off.
pub open spec fn plain_layer() -> LayerInitConfig {
    LayerInitConfig {
        normalisation: Normalisation::Disabled,
        activation: Activation::Identity,
        regularisation: Regularisation::Disabled,
        mask_coeff: F32 { bits: 0 },
    }
}

impl Default for LayerInitConfig {
    fn default() -> (r: Self)
        ensures
            r == plain_layer(),
    {
        Self {
            normalisation: Normalisation::Disabled,
            activation: Activation::Identity,
            regularisation: Regularisation::Disabled,
            mask_coeff: F32 { bits: 0 },
        }
    }
}

/// Pass this context to backward propagation functions.
///
/// # Fields
/// * `optimiser` - This [`Optimiser`] is used for linear weights and biases.
/// * `norm_optimiser` - This [`Optimiser`] is used for normalisation weights and biases.
/// * `batch_size` - Size of the batch.
/// * `learn_rate` - The learning rate of the network. Ideally, it should be between `0.0` exclusive
///   and `1.0` inclusive.
/// * `grad_clamp` - Clamps gradient values between `-grad_clamp` and `+grad_clamp`. Pass the largest
///   number to turn off clamping.
#[derive(Debug, Clone, Copy)]
pub struct TrainContext<'a> {
    pub optimiser: &'a Optimiser,
    pub norm_optimiser: &'a Optimiser,
    pub batch_size: usize,
    pub learn_rate: F32,
    pub grad_clamp: F32,
}

/// Pass this context to backward propagation functions.
///
/// # Fields
/// * `optimisers` - The [`Optimiser`]s used for linear weights and biases in each layer.
/// * `norm_optimisers` - The [`Optimiser`]s used for normalisation weights and biases in each layer.
/// * `batch_size` - Size of the batch.
/// * `learn_rate` - The learning rate of the network. Ideally, it should be between `0.0` exclusive
///   and `1.0` inclusive.
/// * `grad_clamp` - Clamps gradient values between `-grad_clamp` and `+grad_clamp`. Pass the largest
///   number to turn off clamping.
#[derive(Debug, Clone, Copy)]
pub struct MultiLayerTrainContext<'a> {
    pub optimisers: &'a [Optimiser],
    pub norm_optimisers: &'a [Optimiser],
    pub batch_size: usize,
    pub learn_rate: F32,
    pub grad_clamp: F32,
}

impl<'a> MultiLayerTrainContext<'a> {
    /// The training of one layer.
    pub open spec fn layer(&self, idx: int) -> TrainContext<'a> {
        TrainContext {
            optimiser: &self.optimisers@[idx],
            norm_optimiser: &self.norm_optimisers@[idx],
            batch_size: self.batch_size,
            learn_rate: self.learn_rate,
            grad_clamp: self.grad_clamp,
        }
    }

    /// The training of one layer.
    pub fn get_train_context(&self, idx: usize) -> (r: TrainContext<'a>)
        requires
            idx < self.optimisers@.len(),
            idx < self.norm_optimisers@.len(),
        ensures
            r == self.layer(idx as int),
    {
        TrainContext {
            optimiser: &self.optimisers[idx],
            norm_optimiser: &self.norm_optimisers[idx],
            batch_size: self.batch_size,
            learn_rate: self.learn_rate,
            grad_clamp: self.grad_clamp,
        }
    }
}

/// Configuration for output loss computation.
///
/// # Fields
/// * `loss_func` - The loss function to be used. See [`LossFunc`] for available loss functions.
/// * `activation` - The outputs's final [`Activation`] (e.g. [`Activation::Softmax`]).
#[derive(Debug, Clone, Copy, PartialEq, Eq, Structural)]
pub struct LossConfig {
    pub loss_func: LossFunc,
    pub activation: Activation,
}

} // verus!
