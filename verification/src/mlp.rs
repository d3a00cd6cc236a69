//! Dense layers: how they are made, and the passes through them.

pub mod checks;
pub mod copies;
pub mod numbers;
pub mod start;
pub mod state;

use vstd::prelude::*;

use crate::io::device::ffn_device::{
    backward_pass, clearing_fits, forward_fits, forward_pass, hidden_backward, hidden_fits,
    output_error, refused, Outcome,
};
use crate::io::device::util_device::{broadcast_ops, broadcast_refusal};
use crate::io::device::{
    given_back, lemma_then_run, settled, tile_area, tile_refusal, tileable, DeviceView, GpuContext,
    HostNumbers, HostView, OpView,
};
use crate::mlp::state::{
    borrowed_view, cache_frees, cache_recipes, cast_cache, delta_recipes, doubled, first_refusal,
    free_optional, halved, law_state_refused_iff_inconsistent, lemma_linear_is_consistent,
    lemma_norm_is_consistent, linear_recipes, made_cache, made_state, norm_recipes, one_pattern,
    optional_free, optional_ok, optional_view, state_frees, state_refusal, CacheView, ForwardCache,
    ParamState, ParamView,
};
use crate::util::context::{plain_layer, LayerInitConfig, LossConfig, TrainContext};
use crate::util::function::{Activation, LossFunc, Normalisation, Regularisation};
use crate::util::init::InitFunc;
use crate::util::log::{invalid_configuration, refusal, Error, ErrorView};
use crate::util::precision::{Precision, PrecisionType, F16, F32};
use crate::util::tensor::{
    cast_all, cast_outcome, castable, element_count, free_ops, lemma_cast_keeps_tile,
    lemma_made_all, lemma_made_keeps_tile, lemma_made_none, lemma_plane_count, made_all,
    made_tensor, next_like, push_delta, push_fill, Fill, Recipe, Tensor1D, Tensor2D, TensorView,
};

verus! {

/// # The Backbone of the Entire Feed Forward Neural Network
/// This dense block stores all the tensors and parameters required for calculation between 2 neural
/// network layers.
/// The `max_batch_size` is required to allocate the required cache to input and output tensors.
/// Preferably, `max_batch_size` should be the batch size used during training.
///
/// To signal that this layer is linked to the output layer, set its [`Activation`] to `Identity`.
///
/// The forward pass goes this way:
///
/// `Input` -> `Weights` -> `Biases` -> `Normalisation` -> `Activation` -> `Mask (dropout)` ->
/// `Output`
#[derive(Debug)]
pub struct DenseBlock<T: PrecisionType> {
    linear_state: ParamState<T>,
    norm_state: ParamState<T>,
    forward_cache: ForwardCache<T>,
    grad: Option<Tensor2D<F32>>,
    d_prenorm_out: Option<Tensor2D<F32>>,
    d_norm_w: Option<Tensor2D<F32>>,
    d_norm_b: Option<Tensor2D<F32>>,
    mask: Tensor2D<T>,
    max_batch_size: usize,
    normalisation: Normalisation,
    activation: Activation,
    regularisation: Regularisation,
    mask_coeff: F32,
    is_training: bool,
}

/// What a [`DenseBlock`] stands for.
pub struct DenseView {
    pub linear: ParamView,
    pub norm: ParamView,
    pub cache: CacheView,
    pub grad: Option<TensorView>,
    pub d_prenorm_out: Option<TensorView>,
    pub d_norm_w: Option<TensorView>,
    pub d_norm_b: Option<TensorView>,
    pub mask: TensorView,
    pub max_batch_size: usize,
    pub config: LayerInitConfig,
    pub is_training: bool,
}

impl<T: PrecisionType> View for DenseBlock<T> {
    type V = DenseView;

    closed spec fn view(&self) -> DenseView {
        DenseView {
            linear: self.linear_state@,
            norm: self.norm_state@,
            cache: self.forward_cache@,
            grad: optional_view(self.grad),
            d_prenorm_out: optional_view(self.d_prenorm_out),
            d_norm_w: optional_view(self.d_norm_w),
            d_norm_b: optional_view(self.d_norm_b),
            mask: self.mask@,
            max_batch_size: self.max_batch_size,
            config: LayerInitConfig {
                normalisation: self.normalisation,
                activation: self.activation,
                regularisation: self.regularisation,
                mask_coeff: self.mask_coeff,
            },
            is_training: self.is_training,
        }
    }
}

impl DenseView {
    /// Every tensor has its axes.
    pub open spec fn wf(self) -> bool {
        &&& self.linear.wf()
        &&& self.norm.wf()
        &&& self.cache.wf()
        &&& optional_ok(self.grad, 2)
        &&& optional_ok(self.d_prenorm_out, 2)
        &&& optional_ok(self.d_norm_w, 2)
        &&& optional_ok(self.d_norm_b, 2)
        &&& self.mask.ok(2)
        &&& self.is_training ==> self.has_gradients()
    }

    /// The gradients of a backward pass have their place.
    pub open spec fn has_gradients(self) -> bool {
        self.grad is Some && self.d_prenorm_out is Some && self.d_norm_w is Some
            && self.d_norm_b is Some
    }

    /// Everything that a backward pass needs is there.
    pub open spec fn trainable(self) -> bool {
        self.has_gradients() && self.linear.trainable() && self.norm.trainable()
    }

    /// The number of inputs.
    pub open spec fn inputs(self) -> usize {
        self.linear.w.shape[0]
    }

    /// The number of outputs.
    pub open spec fn outputs(self) -> usize {
        self.linear.w.shape[1]
    }
}

/// The tensors of a layer besides its weights and biases.
pub open spec fn block_recipes(
    precision: Precision,
    max_batch_size: usize,
    outputs: usize,
    is_training: bool,
) -> Seq<Recipe> {
    let shape = seq![max_batch_size, outputs];
    cache_recipes(precision, max_batch_size, outputs) + delta_recipes(shape, shape, is_training)
        + seq![Recipe { shape, precision, fill: Fill::Constant(one_pattern(precision)) }]
}

/// The layer whose tensors besides its weights and biases are made by a list of recipes.
pub open spec fn made_block(
    d: DeviceView,
    recipes: Seq<Recipe>,
    linear: ParamView,
    norm: ParamView,
    max_batch_size: usize,
    config: LayerInitConfig,
    is_training: bool,
) -> DenseView {
    DenseView {
        linear,
        norm,
        cache: made_cache(d, recipes),
        grad: if is_training {
            Some(made_tensor(d, recipes, 6))
        } else {
            None
        },
        d_prenorm_out: if is_training {
            Some(made_tensor(d, recipes, 7))
        } else {
            None
        },
        d_norm_w: if is_training {
            Some(made_tensor(d, recipes, 8))
        } else {
            None
        },
        d_norm_b: if is_training {
            Some(made_tensor(d, recipes, 9))
        } else {
            None
        },
        mask: made_tensor(
            d,
            recipes,
            if is_training {
                10
            } else {
                6
            },
        ),
        max_batch_size,
        config,
        is_training,
    }
}

/// The tensors of a layer besides its weights and biases.
struct BlockRest<T: PrecisionType> {
    forward_cache: ForwardCache<T>,
    grad: Option<Tensor2D<F32>>,
    d_prenorm_out: Option<Tensor2D<F32>>,
    d_norm_w: Option<Tensor2D<F32>>,
    d_norm_b: Option<Tensor2D<F32>>,
    mask: Tensor2D<T>,
}

impl<T: PrecisionType> BlockRest<T> {
    /// The tensors are those that a list of recipes makes.
    spec fn is_made(self, d: DeviceView, recipes: Seq<Recipe>, is_training: bool) -> bool {
        &&& self.forward_cache@.wf() && self.forward_cache@ == made_cache(d, recipes)
        &&& self.mask.wf() && self.mask@ == made_tensor(
            d,
            recipes,
            if is_training {
                10
            } else {
                6
            },
        )
        &&& is_training ==> {
            &&& self.grad matches Some(t) && t.wf() && t@ == made_tensor(d, recipes, 6)
            &&& self.d_prenorm_out matches Some(t) && t.wf() && t@ == made_tensor(d, recipes, 7)
            &&& self.d_norm_w matches Some(t) && t.wf() && t@ == made_tensor(d, recipes, 8)
            &&& self.d_norm_b matches Some(t) && t.wf() && t@ == made_tensor(d, recipes, 9)
        }
        &&& !is_training ==> self.grad is None && self.d_prenorm_out is None && self.d_norm_w is None
            && self.d_norm_b is None
    }
}

/// The device once a layer is put together from its states, and why that is refused.
pub open spec fn assembled(
    d: DeviceView,
    precision: Precision,
    linear: ParamView,
    norm: ParamView,
    max_batch_size: usize,
    is_training: bool,
) -> (DeviceView, Option<ErrorView>) {
    let mismatch = first_refusal(state_refusal(linear), state_refusal(norm));
    if mismatch is Some {
        (d, mismatch)
    } else {
        made_all(d, block_recipes(precision, max_batch_size, linear.w.shape[1], is_training))
    }
}

/// Why the sizes of a layer are refused.
pub open spec fn size_refusal(inputs: usize, outputs: usize, max_batch_size: usize) -> Option<
    ErrorView,
> {
    if inputs == 0 || outputs == 0 {
        Some(ErrorView::InvalidConfiguration { reason: "Input or output size cannot be 0."@ })
    } else if max_batch_size == 0 {
        Some(ErrorView::InvalidConfiguration { reason: "Batch size cannot be 0."@ })
    } else {
        None
    }
}

/// The tensors of a new layer, in the order in which they are made.
pub open spec fn layer_recipes(
    precision: Precision,
    weights: HostView,
    inputs: usize,
    outputs: usize,
    max_batch_size: usize,
    is_training: bool,
) -> (Seq<Recipe>, Seq<Recipe>, Seq<Recipe>) {
    (
        linear_recipes(precision, weights, seq![inputs, outputs], seq![1, outputs], is_training),
        norm_recipes(precision, seq![1, outputs], is_training),
        block_recipes(precision, max_batch_size, outputs, is_training),
    )
}

/// The device once a new layer is made, and why making it is refused; nothing is made after a
/// refusal.
pub open spec fn made_layer(d: DeviceView, recipes: (Seq<Recipe>, Seq<Recipe>, Seq<Recipe>)) -> (
    DeviceView,
    Option<ErrorView>,
) {
    let linear = made_all(d, recipes.0);
    if linear.1 is Some {
        linear
    } else {
        let norm = made_all(linear.0, recipes.1);
        if norm.1 is Some {
            norm
        } else {
            made_all(norm.0, recipes.2)
        }
    }
}

/// A new layer.
pub open spec fn new_layer(
    d: DeviceView,
    recipes: (Seq<Recipe>, Seq<Recipe>, Seq<Recipe>),
    precision: Precision,
    max_batch_size: usize,
    config: LayerInitConfig,
    is_training: bool,
) -> DenseView {
    let d1 = made_all(d, recipes.0).0;
    let d2 = made_all(d1, recipes.1).0;
    made_block(
        d2,
        recipes.2,
        made_state(d, recipes.0, precision, is_training),
        made_state(d1, recipes.1, precision, is_training),
        max_batch_size,
        config,
        is_training,
    )
}

/// A layer can be made without running past the largest address or the largest grid.
pub open spec fn layer_fits(
    tile_dim: u32,
    inputs: usize,
    outputs: usize,
    max_batch_size: usize,
) -> bool {
    &&& inputs * outputs <= usize::MAX
    &&& max_batch_size * outputs <= usize::MAX
    &&& tileable(outputs as int, tile_area(tile_dim))
    &&& tileable(max_batch_size * outputs, tile_area(tile_dim))
}

/// The buffers of a layer are given back.
pub open spec fn block_frees(b: DenseView) -> Seq<OpView> {
    state_frees(b.linear) + state_frees(b.norm) + cache_frees(b.cache) + optional_free(b.grad)
        + optional_free(b.d_prenorm_out) + optional_free(b.d_norm_w) + optional_free(b.d_norm_b)
        + free_ops(b.mask)
}

/// Why an input does not suit a layer.
pub open spec fn input_refusal(layer: DenseView, input: TensorView, batch_size: usize) -> Option<
    ErrorView,
> {
    if input.shape[0] < batch_size {
        Some(
            ErrorView::MismatchedDimensions {
                reason: "forward input rows vs explicit batch size"@,
                expected: batch_size,
                found: input.shape[0],
            },
        )
    } else if input.shape[0] > layer.max_batch_size {
        Some(
            ErrorView::AllocationLimitExceeded {
                received: input.shape[0],
                max: layer.max_batch_size,
                reason: "input batches"@,
            },
        )
    } else if input.shape[1] != layer.inputs() {
        Some(
            ErrorView::MismatchedDimensions {
                reason: "forward input feature columns mismatch"@,
                expected: layer.inputs(),
                found: input.shape[1],
            },
        )
    } else {
        None
    }
}

/// Why a batch cannot pass through an activation and a normalisation.
pub open spec fn pass_refusal(
    activation: Activation,
    normalisation: Normalisation,
    batch_size: usize,
) -> Option<ErrorView> {
    if activation == Activation::Softmax {
        Some(
            ErrorView::InvalidConfiguration {
                reason: "Softmax activation can only be passed into the compute_loss function."@,
            },
        )
    } else if batch_size == 0 {
        Some(ErrorView::InvalidBatchSize { reason: "Batch size must be more than zero."@ })
    } else if normalisation == Normalisation::BatchNorm && batch_size == 1 {
        Some(
            ErrorView::InvalidBatchSize {
                reason:
                    "Normalisation is set to BatchNorm, but given batch size is 1. Batch size must be more than 1."@,
            },
        )
    } else {
        None
    }
}

/// Checks that a batch can pass through an activation and a normalisation.
pub(crate) fn check_pass_config(
    activation: Activation,
    normalisation: Normalisation,
    batch_size: usize,
) -> (r: Result<(), Error>)
    ensures
        refusal(r) == pass_refusal(activation, normalisation, batch_size),
{
    if activation == Activation::Softmax {
        return Err(
            invalid_configuration(
                "Softmax activation can only be passed into the compute_loss function.",
            ),
        );
    }
    if batch_size == 0 {
        return Err(Error::InvalidBatchSize { reason: "Batch size must be more than zero." });
    }
    if normalisation == Normalisation::BatchNorm && batch_size == 1 {
        return Err(
            Error::InvalidBatchSize {
                reason:
                    "Normalisation is set to BatchNorm, but given batch size is 1. Batch size must be more than 1.",
            },
        );
    }
    Ok(())
}

/// A checked forward pass.
#[verifier::opaque]
pub open spec fn forward_through(
    tile_dim: u32,
    precision: Precision,
    layer: DenseView,
    input: TensorView,
    batch_size: usize,
    use_dropout: bool,
    step: usize,
) -> Outcome {
    match first_refusal(
        input_refusal(layer, input, batch_size),
        pass_refusal(layer.config.activation, layer.config.normalisation, batch_size),
    ) {
        Some(e) => refused(e),
        None => forward_pass(tile_dim, precision, layer, input, batch_size, use_dropout, step),
    }
}

/// The grid and the memory of a checked forward pass can be worked out in 32 bits where it is not
/// refused.
pub open spec fn forward_ready(
    tile_dim: u32,
    precision: Precision,
    layer: DenseView,
    input: TensorView,
    batch_size: usize,
    use_dropout: bool,
    step: usize,
) -> bool {
    forward_through(
        tile_dim,
        precision,
        layer,
        input,
        batch_size,
        use_dropout,
        step,
    ).refused is None ==> forward_fits(tile_dim, precision, layer, batch_size)
}

/// Why a layer does not take an operation of the training.
pub open spec fn training_refusal(layer: DenseView, reason: Seq<char>) -> Option<ErrorView> {
    if layer.is_training {
        None
    } else {
        Some(ErrorView::TrainingModeRequired { reason })
    }
}

/// Why the backward pass of an output layer is refused before the device is asked.
pub open spec fn output_pass_refusal(layer: DenseView, input: TensorView, train: TrainContext)
    -> Option<ErrorView> {
    first_refusal(
        training_refusal(layer, "output layer backward pass"@),
        first_refusal(
            input_refusal(layer, input, train.batch_size),
            pass_refusal(layer.config.activation, layer.config.normalisation, train.batch_size),
        ),
    )
}

/// A checked backward pass of an output layer.
#[verifier::opaque]
pub open spec fn backward_output_through(
    tile_dim: u32,
    precision: Precision,
    layer: DenseView,
    input: TensorView,
    train: TrainContext,
    step: usize,
) -> Outcome {
    match output_pass_refusal(layer, input, train) {
        Some(e) => refused(e),
        None => backward_pass(tile_dim, precision, layer, input, train, step),
    }
}

/// Where the backward pass of an output layer is not refused, the optimiser has its tensors and the
/// grid can be worked out in 32 bits.
pub open spec fn backward_output_ready(
    tile_dim: u32,
    precision: Precision,
    layer: DenseView,
    input: TensorView,
    train: TrainContext,
    step: usize,
) -> bool {
    &&& output_pass_refusal(layer, input, train) is None ==> layer.trainable()
    &&& backward_output_through(tile_dim, precision, layer, input, train, step).refused is None ==> {
        &&& tileable(layer.outputs() as int, tile_dim as int)
        &&& tileable(layer.inputs() as int, tile_dim as int)
    }
}

/// Why the backward pass of a hidden layer is refused before the gradients of the next layer are
/// looked at.
pub open spec fn adjacency_refusal(
    layer: DenseView,
    next: DenseView,
    input: TensorView,
    train: TrainContext,
) -> Option<ErrorView> {
    first_refusal(
        training_refusal(layer, "hidden layer backward pass"@),
        first_refusal(
            input_refusal(layer, input, train.batch_size),
            if next.inputs() != layer.outputs() {
                Some(
                    ErrorView::MismatchedDimensions {
                        reason:
                            "backward pass weight adjacency (next layer rows vs current cols)"@,
                        expected: layer.outputs(),
                        found: next.inputs(),
                    },
                )
            } else {
                None
            },
        ),
    )
}

/// Why the backward pass of a hidden layer is refused before the device is asked.
pub open spec fn hidden_pass_refusal(
    layer: DenseView,
    next: DenseView,
    input: TensorView,
    train: TrainContext,
) -> Option<ErrorView> {
    first_refusal(
        adjacency_refusal(layer, next, input, train),
        first_refusal(
            if next.grad->0.shape[0] != input.shape[0] {
                Some(
                    ErrorView::MismatchedDimensions {
                        reason: "backward pass activation gradient rows"@,
                        expected: input.shape[0],
                        found: next.grad->0.shape[0],
                    },
                )
            } else {
                None
            },
            pass_refusal(layer.config.activation, layer.config.normalisation, train.batch_size),
        ),
    )
}

/// A checked backward pass of a hidden layer.
#[verifier::opaque]
pub open spec fn backward_hidden_through(
    tile_dim: u32,
    precision: Precision,
    layer: DenseView,
    next: DenseView,
    input: TensorView,
    train: TrainContext,
    step: usize,
) -> Outcome {
    match hidden_pass_refusal(layer, next, input, train) {
        Some(e) => refused(e),
        None => hidden_backward(
            tile_dim,
            precision,
            layer,
            next,
            input,
            layer.config.activation,
            train,
            step,
        ),
    }
}

/// Where the backward pass of a hidden layer is not refused, the optimiser has its tensors, the next
/// layer has its gradients, and the grids can be worked out in 32 bits.
pub open spec fn backward_hidden_ready(
    tile_dim: u32,
    precision: Precision,
    layer: DenseView,
    next: DenseView,
    input: TensorView,
    train: TrainContext,
) -> bool {
    &&& adjacency_refusal(layer, next, input, train) is None ==> next.grad is Some
    &&& hidden_pass_refusal(layer, next, input, train) is None && tile_refusal(
        tile_dim,
        precision,
    ) is None ==> {
        &&& layer.trainable()
        &&& next.d_prenorm_out is Some
        &&& hidden_fits(tile_dim, layer, train)
    }
}

/// Why a loss does not go with an activation.
pub open spec fn pairing_refusal(config: LossConfig) -> Option<ErrorView> {
    if config.loss_func.pairs_with(config.activation) {
        None
    } else {
        Some(
            ErrorView::InvalidConfiguration {
                reason: match config.loss_func {
                    LossFunc::MeanSquareLoss =>
                        "Mean Squared Loss does not support the Softmax activation function."@,
                    LossFunc::CrossEntropyLoss =>
                        "Cross-Entropy Loss only supports the Softmax activation function."@,
                    LossFunc::BinaryCrossEntropy =>
                        "Binary Cross-Entropy only supports the Sigmoid activation function."@,
                },
            },
        )
    }
}

/// Why a loss is refused before the device is asked.
pub open spec fn loss_refusal(layer: DenseView, target: TensorView, config: LossConfig) -> Option<
    ErrorView,
> {
    first_refusal(
        training_refusal(layer, "compute loss"@),
        if target.shape[1] != layer.outputs() {
            Some(
                ErrorView::MismatchedDimensions {
                    reason: "target columns"@,
                    expected: layer.outputs(),
                    found: target.shape[1],
                },
            )
        } else if target.shape[0] > layer.max_batch_size {
            Some(
                ErrorView::AllocationLimitExceeded {
                    received: target.shape[0],
                    max: layer.max_batch_size,
                    reason: "target batches"@,
                },
            )
        } else {
            pairing_refusal(config)
        },
    )
}

/// A checked loss.
#[verifier::opaque]
pub open spec fn loss_through(
    tile_dim: u32,
    precision: Precision,
    layer: DenseView,
    target: TensorView,
    config: LossConfig,
) -> Outcome {
    match loss_refusal(layer, target, config) {
        Some(e) => refused(e),
        None => output_error(
            tile_dim,
            precision,
            layer,
            target,
            config.loss_func,
            config.activation,
        ),
    }
}

/// The grids of a loss can be worked out in 32 bits where it is not refused.
pub open spec fn loss_ready(
    tile_dim: u32,
    precision: Precision,
    layer: DenseView,
    target: TensorView,
    config: LossConfig,
) -> bool {
    &&& loss_refusal(layer, target, config) is None ==> clearing_fits(tile_dim, layer)
    &&& loss_through(tile_dim, precision, layer, target, config).refused is None ==> {
        &&& tileable(layer.outputs() as int, tile_dim as int)
        &&& tileable(layer.cache.out.shape[0] as int, tile_dim as int)
    }
}

/// The tensors that are cast where a layer goes to half precision.
pub open spec fn halved_tensors(b: DenseView) -> Seq<TensorView> {
    seq![b.linear.w, b.linear.b, b.norm.w, b.norm.b] + b.cache.tensors() + seq![b.mask]
}

/// The tensors that are cast where a layer goes to full precision.
pub open spec fn doubled_tensors(b: DenseView) -> Seq<TensorView> {
    b.cache.tensors() + seq![b.mask]
}

/// A tensor has more elements than a kernel can count.
pub open spec fn counting_refusal(ts: Seq<TensorView>) -> Option<ErrorView> {
    if exists|i: int| 0 <= i < ts.len() && element_count((#[trigger] ts[i]).shape) > u32::MAX {
        Some(ErrorView::IntConversion)
    } else {
        None
    }
}

/// Why a layer cannot go to half precision.
pub open spec fn halving_refusal(b: DenseView) -> Option<ErrorView> {
    counting_refusal(halved_tensors(b))
}

/// Why a layer cannot go to full precision.
pub open spec fn doubling_refusal(b: DenseView) -> Option<ErrorView> {
    counting_refusal(doubled_tensors(b))
}

/// The tensors that are cast where a layer goes to half precision, one by one.
proof fn lemma_halved_tensors(b: DenseView)
    ensures
        halved_tensors(b).len() == 11,
        halved_tensors(b)[0] == b.linear.w,
        halved_tensors(b)[1] == b.linear.b,
        halved_tensors(b)[2] == b.norm.w,
        halved_tensors(b)[3] == b.norm.b,
        halved_tensors(b)[10] == b.mask,
        forall|i: int| 4 <= i < 10 ==> #[trigger] halved_tensors(b)[i] == b.cache.tensors()[i - 4],
        forall|i: int| 0 <= i < 6 ==> #[trigger] b.cache.tensors()[i] == halved_tensors(b)[i + 4],
{
}

/// The tensors that are cast where a layer goes to full precision, one by one.
proof fn lemma_doubled_tensors(b: DenseView)
    ensures
        doubled_tensors(b).len() == 7,
        doubled_tensors(b)[6] == b.mask,
        forall|i: int| 0 <= i < 6 ==> #[trigger] doubled_tensors(b)[i] == b.cache.tensors()[i],
        forall|i: int| 0 <= i < 6 ==> #[trigger] b.cache.tensors()[i] == doubled_tensors(b)[i],
{
}

/// The device once a layer goes to half precision, and that layer.
pub open spec fn halved_block(d: DeviceView, b: DenseView) -> (DeviceView, DenseView) {
    let (full, half) = (Precision::FP32, Precision::FP16);
    let linear = halved(d, b.linear);
    let norm = halved(linear.0, b.norm);
    let d3 = cast_all(norm.0, full, half, b.cache.tensors());
    (
        cast_outcome(d3, full, half, b.mask).0,
        DenseView {
            linear: linear.1,
            norm: norm.1,
            cache: cast_cache(norm.0, full, half, b.cache),
            mask: next_like(d3, b.mask),
            ..b
        },
    )
}

/// The device once a layer goes to full precision, and that layer.
pub open spec fn doubled_block(d: DeviceView, b: DenseView) -> (DeviceView, DenseView) {
    let (full, half) = (Precision::FP32, Precision::FP16);
    let linear = doubled(d, b.linear);
    let norm = doubled(linear.0, b.norm);
    let d3 = cast_all(norm.0, half, full, b.cache.tensors());
    (
        cast_outcome(d3, half, full, b.mask).0,
        DenseView {
            linear: linear.1,
            norm: norm.1,
            cache: cast_cache(norm.0, half, full, b.cache),
            mask: next_like(d3, b.mask),
            ..b
        },
    )
}

/// Two layers have the same shapes and the same configuration.
pub open spec fn same_layout(a: DenseView, b: DenseView) -> bool {
    &&& a.linear.w.shape == b.linear.w.shape
    &&& a.linear.b.shape == b.linear.b.shape
    &&& a.norm.w.shape == b.norm.w.shape
    &&& a.norm.b.shape == b.norm.b.shape
    &&& a.cache.out.shape == b.cache.out.shape
    &&& a.cache.predrop_out.shape == b.cache.predrop_out.shape
    &&& a.cache.preact_out.shape == b.cache.preact_out.shape
    &&& a.cache.centered_out.shape == b.cache.centered_out.shape
    &&& a.cache.prenorm_out.shape == b.cache.prenorm_out.shape
    &&& a.cache.norm_rstd.shape == b.cache.norm_rstd.shape
    &&& a.mask.shape == b.mask.shape
    &&& a.max_batch_size == b.max_batch_size
    &&& a.config == b.config
    &&& a.is_training == b.is_training
}

/// What an optimiser keeps, and the gradients, are those of another layer.
pub open spec fn same_training(a: DenseView, b: DenseView) -> bool {
    &&& a.linear.dv_w == b.linear.dv_w && a.linear.dv_b == b.linear.dv_b
    &&& a.linear.dm_w == b.linear.dm_w && a.linear.dm_b == b.linear.dm_b
    &&& a.norm.dv_w == b.norm.dv_w && a.norm.dv_b == b.norm.dv_b
    &&& a.norm.dm_w == b.norm.dm_w && a.norm.dm_b == b.norm.dm_b
    &&& a.grad == b.grad && a.d_prenorm_out == b.d_prenorm_out
    &&& a.d_norm_w == b.d_norm_w && a.d_norm_b == b.d_norm_b
}

/// A layer that is turned into half precision keeps its shapes, its configuration and its training
/// state, and gets copies of its weights and biases in full precision that have their shapes.
pub proof fn law_halving_keeps_layout(d: DeviceView, b: DenseView)
    ensures
        ({
            let h = halved_block(d, b).1;
            &&& same_layout(h, b)
            &&& same_training(h, b)
            &&& h.linear.master_w matches Some(t) && t.shape == b.linear.w.shape
            &&& h.linear.master_b matches Some(t) && t.shape == b.linear.b.shape
            &&& h.norm.master_w matches Some(t) && t.shape == b.norm.w.shape
            &&& h.norm.master_b matches Some(t) && t.shape == b.norm.b.shape
        }),
{
}

/// A layer that is turned into half precision and back again has the shapes, the configuration and
/// the training state that it had. That its weights and biases hold the numbers that they held is
/// what [`copies::law_weights_come_back`] says.
pub proof fn law_halving_is_undone(d: DeviceView, b: DenseView, e: DeviceView)
    ensures
        ({
            let back = doubled_block(e, halved_block(d, b).1).1;
            &&& same_layout(back, b)
            &&& same_training(back, b)
            &&& back.linear.master_w is None && back.linear.master_b is None
            &&& back.norm.master_w is None && back.norm.master_b is None
        }),
{
}

/// A tensor is one of a state.
pub open spec fn is_state_tensor(p: ParamView, t: TensorView) -> bool {
    ||| t == p.w
    ||| t == p.b
    ||| Some(t) == p.master_w
    ||| Some(t) == p.master_b
    ||| Some(t) == p.dv_w
    ||| Some(t) == p.dv_b
    ||| Some(t) == p.dm_w
    ||| Some(t) == p.dm_b
}

/// A tensor is one of a layer.
pub open spec fn is_block_tensor(b: DenseView, t: TensorView) -> bool {
    ||| is_state_tensor(b.linear, t)
    ||| is_state_tensor(b.norm, t)
    ||| b.cache.tensors().contains(t)
    ||| Some(t) == b.grad
    ||| Some(t) == b.d_prenorm_out
    ||| Some(t) == b.d_norm_w
    ||| Some(t) == b.d_norm_b
    ||| t == b.mask
}

/// A layer that is dropped gives the buffer of each of its tensors back.
pub proof fn law_drop_frees_everything(b: DenseView, t: TensorView)
    requires
        is_block_tensor(b, t),
    ensures
        block_frees(b).contains(OpView::Free { tensor: t.id }),
{
    broadcast use vstd::seq_lib::lemma_seq_concat_contains_all_elements;

    let op = OpView::Free { tensor: t.id };
    assert(free_ops(t)[0] == op);
    if is_state_tensor(b.linear, t) {
        lemma_state_frees(b.linear, t);
    } else if is_state_tensor(b.norm, t) {
        lemma_state_frees(b.norm, t);
    } else if b.cache.tensors().contains(t) {
        assert(cache_frees(b.cache).contains(op));
    }
}

/// A state that is given back gives the buffer of each of its tensors back.
proof fn lemma_state_frees(p: ParamView, t: TensorView)
    requires
        is_state_tensor(p, t),
    ensures
        state_frees(p).contains(OpView::Free { tensor: t.id }),
{
    broadcast use vstd::seq_lib::lemma_seq_concat_contains_all_elements;

    assert(free_ops(t)[0] == OpView::Free { tensor: t.id });
}

impl<T: PrecisionType> DenseBlock<T> {
    /// Every tensor has its axes.
    pub open spec fn wf(&self) -> bool {
        self@.wf()
    }

    /// Create a new [`DenseBlock`] with default arguments, including setting
    /// normalisation to `Disabled`, activation to `Identity`,
    /// regularisation to [`Regularisation::Disabled`], and `mask_coeff` to `0.0`.
    ///
    /// # Arguments
    /// * `context` - See [`GpuContext`].
    /// * `is_training` - If set to false, tensors related only to the backward pass
    ///   will not be generated to save memory.
    /// * `inputs` - Number of inputs.
    /// * `outputs` - Number of outputs.
    /// * `max_batch_size` - Maximum size of a batch. Forward and backward pass inputs/targets cannot
    ///   have more batches than this.
    /// * `init` - See [`InitFunc`]. Used for initialising weights.
    ///
    /// # Errors
    /// Return an [`Error`] if the given dimensions and configurations are invalid.
    pub fn new<I: InitFunc>(
        context: &mut GpuContext,
        is_training: bool,
        inputs: usize,
        outputs: usize,
        max_batch_size: usize,
        init: &mut I,
    ) -> (r: Result<DenseBlock<T>, Error>)
        requires
            old(context).wf(),
            size_refusal(inputs, outputs, max_batch_size) is None ==> layer_fits(
                old(context)@.tile_dim,
                inputs,
                outputs,
                max_batch_size,
            ) && old(init).accepts(inputs, outputs, (inputs * outputs) as usize),
        ensures
            final(context).wf(),
            size_refusal(inputs, outputs, max_batch_size) matches Some(e) ==> {
                &&& refusal(r) == Some(e)
                &&& final(context)@ == old(context)@
                &&& *final(init) == *old(init)
            },
            size_refusal(inputs, outputs, max_batch_size) is None ==> {
                let len = (inputs * outputs) as usize;
                let recipes = layer_recipes(
                    T::format(),
                    HostView::Drawn(old(init).draws(inputs, outputs, len)),
                    inputs,
                    outputs,
                    max_batch_size,
                    is_training,
                );
                &&& *final(init) == old(init).advanced(inputs, outputs, len)
                &&& settled(old(context)@, made_layer(old(context)@, recipes)) == (
                    final(context)@,
                    refusal(r),
                )
                &&& r matches Ok(b) ==> b.wf() && b@ == new_layer(
                    old(context)@,
                    recipes,
                    T::format(),
                    max_batch_size,
                    plain_layer(),
                    is_training,
                )
            },
    {
        Self::new_with_config(
            context,
            is_training,
            inputs,
            outputs,
            max_batch_size,
            init,
            &LayerInitConfig::default(),
        )
    }

    /// Create a new [`DenseBlock`] with custom configurations.
    ///
    /// # Arguments
    /// * `context` - See [`GpuContext`].
    /// * `is_training` - If set to false, tensors related only to the backward pass
    ///   will not be generated to save memory.
    /// * `inputs` - Number of inputs.
    /// * `outputs` - Number of outputs.
    /// * `max_batch_size` - Maximum size of a batch. Forward and backward pass inputs/targets cannot
    ///   have more batches than this.
    /// * `init` - See [`InitFunc`]. Used for initialising weights.
    /// * `init_config` - See [`LayerInitConfig`].
    ///
    /// # Errors
    /// Return an [`Error`] if the given dimensions and configurations are invalid.
    pub fn new_with_config<I: InitFunc>(
        context: &mut GpuContext,
        is_training: bool,
        inputs: usize,
        outputs: usize,
        max_batch_size: usize,
        init: &mut I,
        init_config: &LayerInitConfig,
    ) -> (r: Result<Self, Error>)
        requires
            old(context).wf(),
            size_refusal(inputs, outputs, max_batch_size) is None ==> layer_fits(
                old(context)@.tile_dim,
                inputs,
                outputs,
                max_batch_size,
            ) && old(init).accepts(inputs, outputs, (inputs * outputs) as usize),
        ensures
            final(context).wf(),
            size_refusal(inputs, outputs, max_batch_size) matches Some(e) ==> {
                &&& refusal(r) == Some(e)
                &&& final(context)@ == old(context)@
                &&& *final(init) == *old(init)
            },
            size_refusal(inputs, outputs, max_batch_size) is None ==> {
                let len = (inputs * outputs) as usize;
                let recipes = layer_recipes(
                    T::format(),
                    HostView::Drawn(old(init).draws(inputs, outputs, len)),
                    inputs,
                    outputs,
                    max_batch_size,
                    is_training,
                );
                &&& *final(init) == old(init).advanced(inputs, outputs, len)
                &&& settled(old(context)@, made_layer(old(context)@, recipes)) == (
                    final(context)@,
                    refusal(r),
                )
                &&& r matches Ok(b) ==> b.wf() && b@ == new_layer(
                    old(context)@,
                    recipes,
                    T::format(),
                    max_batch_size,
                    *init_config,
                    is_training,
                )
            },
    {
        broadcast use lemma_made_keeps_tile;

        if inputs == 0 || outputs == 0 {
            return Err(invalid_configuration("Input or output size cannot be 0."));
        }
        if max_batch_size == 0 {
            return Err(invalid_configuration("Batch size cannot be 0."));
        }
        let draws = init.init::<T>(inputs, outputs, inputs * outputs);
        let first: usize = context.get_next_id();
        let r = Self::make(
            context,
            is_training,
            inputs,
            outputs,
            max_batch_size,
            HostNumbers::Drawn(draws),
            init_config,
        );
        if r.is_err() {
            context.give_back(first);
        }
        r
    }

    /// Makes a layer. Where that is refused, what was made is left to the caller.
    fn make(
        context: &mut GpuContext,
        is_training: bool,
        inputs: usize,
        outputs: usize,
        max_batch_size: usize,
        weights: HostNumbers,
        init_config: &LayerInitConfig,
    ) -> (r: Result<Self, Error>)
        requires
            old(context).wf(),
            layer_fits(old(context)@.tile_dim, inputs, outputs, max_batch_size),
        ensures
            final(context).wf(),
            ({
                let recipes = layer_recipes(
                    T::format(),
                    weights@,
                    inputs,
                    outputs,
                    max_batch_size,
                    is_training,
                );
                &&& made_layer(old(context)@, recipes) == (final(context)@, refusal(r))
                &&& r matches Ok(b) ==> b.wf() && b@ == new_layer(
                    old(context)@,
                    recipes,
                    T::format(),
                    max_batch_size,
                    *init_config,
                    is_training,
                )
            }),
    {
        broadcast use lemma_made_keeps_tile;

        let weight_shape: [usize; 2] = [inputs, outputs];
        let bias_shape: [usize; 2] = [1, outputs];
        proof {
            lemma_plane_count(weight_shape@);
            lemma_plane_count(bias_shape@);
            assert(weight_shape@ == seq![inputs, outputs]);
            assert(bias_shape@ == seq![1usize, outputs]);
        }
        let ghost d = context@;
        let linear = ParamState::<T>::make_linear(
            context,
            &weights,
            &weight_shape,
            &bias_shape,
            is_training,
        )?;
        let ghost d1 = context@;
        let norm = ParamState::<T>::make_norm(context, &bias_shape, is_training)?;
        proof {
            lemma_linear_is_consistent(
                d,
                T::format(),
                weights@,
                weight_shape@,
                bias_shape@,
                is_training,
            );
            lemma_norm_is_consistent(d1, T::format(), bias_shape@, is_training);
            law_state_refused_iff_inconsistent(linear@);
            law_state_refused_iff_inconsistent(norm@);
        }
        Self::assemble(context, is_training, linear, norm, max_batch_size, init_config)
    }

    /// Puts a layer together from its weights and biases.
    ///
    /// # Errors
    /// Return an [`Error`] if the tensors of an optimiser have another shape than what they belong
    /// to. The states are given back then.
    pub fn from_tensors(
        context: &mut GpuContext,
        is_training: bool,
        linear_state: ParamState<T>,
        norm_state: ParamState<T>,
        max_batch_size: usize,
        init_config: &LayerInitConfig,
    ) -> (r: Result<Self, Error>)
        requires
            old(context).wf(),
            linear_state.wf(),
            norm_state.wf(),
            linear_state@.consistent() && norm_state@.consistent() ==> {
                let outputs = linear_state@.w.shape[1];
                &&& max_batch_size * outputs <= usize::MAX
                &&& tileable(max_batch_size * outputs, tile_area(old(context)@.tile_dim))
            },
        ensures
            final(context).wf(),
            ({
                let whole = assembled(
                    old(context)@,
                    T::format(),
                    linear_state@,
                    norm_state@,
                    max_batch_size,
                    is_training,
                );
                &&& refusal(r) == whole.1
                &&& final(context)@ == if whole.1 is Some {
                    given_back(old(context)@, whole.0).then_run(
                        state_frees(linear_state@) + state_frees(norm_state@),
                    )
                } else {
                    whole.0
                }
            }),
            r matches Ok(b) ==> b.wf() && b@ == made_block(
                old(context)@,
                block_recipes(
                    T::format(),
                    max_batch_size,
                    linear_state@.w.shape[1],
                    is_training,
                ),
                linear_state@,
                norm_state@,
                max_batch_size,
                *init_config,
                is_training,
            ),
    {
        proof {
            law_state_refused_iff_inconsistent(linear_state@);
            law_state_refused_iff_inconsistent(norm_state@);
        }
        let first: usize = context.get_next_id();
        let rest = match Self::prepare(
            context,
            is_training,
            &linear_state,
            &norm_state,
            max_batch_size,
        ) {
            Ok(rest) => rest,
            Err(e) => {
                context.give_back(first);
                proof {
                    lemma_then_run(
                        context@,
                        state_frees(linear_state@),
                        state_frees(norm_state@),
                    );
                }
                linear_state.free(context);
                norm_state.free(context);
                return Err(e);
            },
        };
        Ok(Self::joined(linear_state, norm_state, rest, max_batch_size, init_config, is_training))
    }

    /// Puts a layer together from its weights and biases. Where that is refused, the states and what
    /// was made are left to the caller.
    pub(crate) fn assemble(
        context: &mut GpuContext,
        is_training: bool,
        linear_state: ParamState<T>,
        norm_state: ParamState<T>,
        max_batch_size: usize,
        init_config: &LayerInitConfig,
    ) -> (r: Result<Self, Error>)
        requires
            old(context).wf(),
            linear_state.wf(),
            norm_state.wf(),
            linear_state@.consistent() && norm_state@.consistent() ==> {
                let outputs = linear_state@.w.shape[1];
                &&& max_batch_size * outputs <= usize::MAX
                &&& tileable(max_batch_size * outputs, tile_area(old(context)@.tile_dim))
            },
        ensures
            final(context).wf(),
            assembled(
                old(context)@,
                T::format(),
                linear_state@,
                norm_state@,
                max_batch_size,
                is_training,
            ) == (final(context)@, refusal(r)),
            r matches Ok(b) ==> b.wf() && b@ == made_block(
                old(context)@,
                block_recipes(
                    T::format(),
                    max_batch_size,
                    linear_state@.w.shape[1],
                    is_training,
                ),
                linear_state@,
                norm_state@,
                max_batch_size,
                *init_config,
                is_training,
            ),
    {
        let rest = Self::prepare(
            context,
            is_training,
            &linear_state,
            &norm_state,
            max_batch_size,
        )?;
        Ok(Self::joined(linear_state, norm_state, rest, max_batch_size, init_config, is_training))
    }

    /// Looks at the weights and biases of a layer, and makes its other tensors.
    fn prepare(
        context: &mut GpuContext,
        is_training: bool,
        linear_state: &ParamState<T>,
        norm_state: &ParamState<T>,
        max_batch_size: usize,
    ) -> (r: Result<BlockRest<T>, Error>)
        requires
            old(context).wf(),
            linear_state.wf(),
            norm_state.wf(),
            linear_state@.consistent() && norm_state@.consistent() ==> {
                let outputs = linear_state@.w.shape[1];
                &&& max_batch_size * outputs <= usize::MAX
                &&& tileable(max_batch_size * outputs, tile_area(old(context)@.tile_dim))
            },
        ensures
            final(context).wf(),
            assembled(
                old(context)@,
                T::format(),
                linear_state@,
                norm_state@,
                max_batch_size,
                is_training,
            ) == (final(context)@, refusal(r)),
            r matches Ok(rest) ==> rest.is_made(
                old(context)@,
                block_recipes(
                    T::format(),
                    max_batch_size,
                    linear_state@.w.shape[1],
                    is_training,
                ),
                is_training,
            ),
    {
        broadcast use lemma_made_keeps_tile;

        proof {
            law_state_refused_iff_inconsistent(linear_state@);
            law_state_refused_iff_inconsistent(norm_state@);
        }
        linear_state.validate()?;
        norm_state.validate()?;
        let wc: usize = linear_state.w.cols();
        let batch_shape: [usize; 2] = [max_batch_size, wc];
        let ghost d = context@;
        let ghost recipes = block_recipes(T::format(), max_batch_size, wc, is_training);
        let ghost deltas: int = if is_training {
            4
        } else {
            0
        };
        proof {
            lemma_plane_count(batch_shape@);
            assert(batch_shape@ == seq![max_batch_size, wc]);
            lemma_made_none(d, recipes);
            assert(recipes.take(6) == cache_recipes(T::format(), max_batch_size, wc));
        }
        let forward_cache = ForwardCache::new(
            context,
            max_batch_size,
            wc,
            Ghost(d),
            Ghost(recipes),
        )?;
        let grad = push_delta(context, is_training, &batch_shape, Ghost(d), Ghost(recipes), Ghost(6))?;
        let d_prenorm_out = push_delta(
            context,
            is_training,
            &batch_shape,
            Ghost(d),
            Ghost(recipes),
            Ghost(if is_training { 7 } else { 6 }),
        )?;
        let d_norm_w = push_delta(
            context,
            is_training,
            &batch_shape,
            Ghost(d),
            Ghost(recipes),
            Ghost(if is_training { 8 } else { 6 }),
        )?;
        let d_norm_b = push_delta(
            context,
            is_training,
            &batch_shape,
            Ghost(d),
            Ghost(recipes),
            Ghost(if is_training { 9 } else { 6 }),
        )?;
        let mask = push_fill(
            context,
            &batch_shape,
            T::one(),
            Ghost(d),
            Ghost(recipes),
            Ghost(6 + deltas),
        )?;
        proof {
            lemma_made_all(d, recipes, context@);
        }
        Ok(BlockRest { forward_cache, grad, d_prenorm_out, d_norm_w, d_norm_b, mask })
    }

    /// The layer of its weights and biases and its other tensors.
    fn joined(
        linear_state: ParamState<T>,
        norm_state: ParamState<T>,
        rest: BlockRest<T>,
        max_batch_size: usize,
        init_config: &LayerInitConfig,
        is_training: bool,
    ) -> (r: Self)
        ensures
            r@ == (DenseView {
                linear: linear_state@,
                norm: norm_state@,
                cache: rest.forward_cache@,
                grad: optional_view(rest.grad),
                d_prenorm_out: optional_view(rest.d_prenorm_out),
                d_norm_w: optional_view(rest.d_norm_w),
                d_norm_b: optional_view(rest.d_norm_b),
                mask: rest.mask@,
                max_batch_size,
                config: *init_config,
                is_training,
            }),
    {
        let BlockRest { forward_cache, grad, d_prenorm_out, d_norm_w, d_norm_b, mask } = rest;
        Self {
            linear_state,
            norm_state,
            forward_cache,
            grad,
            d_prenorm_out,
            d_norm_w,
            d_norm_b,
            mask,
            max_batch_size,
            normalisation: init_config.normalisation,
            activation: init_config.activation,
            regularisation: init_config.regularisation,
            mask_coeff: init_config.mask_coeff,
            is_training,
        }
    }

    /// The weights.
    pub fn get_weights(&self) -> (r: &Tensor2D<T>)
        ensures
            r@ == self@.linear.w,
    {
        &self.linear_state.w
    }

    /// The biases.
    pub fn get_biases(&self) -> (r: &Tensor2D<T>)
        ensures
            r@ == self@.linear.b,
    {
        &self.linear_state.b
    }

    /// The weights in full precision, where the layer works in half precision.
    pub fn get_master_weights(&self) -> (r: Option<&Tensor2D<F32>>)
        ensures
            borrowed_view(r) == self@.linear.master_w,
    {
        self.linear_state.master_w.as_ref()
    }

    /// The biases in full precision, where the layer works in half precision.
    pub fn get_master_biases(&self) -> (r: Option<&Tensor2D<F32>>)
        ensures
            borrowed_view(r) == self@.linear.master_b,
    {
        self.linear_state.master_b.as_ref()
    }

    /// The optimiser's second moments of the weights.
    pub fn get_dv_weights(&self) -> (r: &Tensor2D<F32>)
        requires
            self@.linear.dv_w is Some,
        ensures
            Some(r@) == self@.linear.dv_w,
    {
        self.linear_state.dv_w.as_ref().unwrap()
    }

    /// The optimiser's second moments of the biases.
    pub fn get_dv_biases(&self) -> (r: &Tensor2D<F32>)
        requires
            self@.linear.dv_b is Some,
        ensures
            Some(r@) == self@.linear.dv_b,
    {
        self.linear_state.dv_b.as_ref().unwrap()
    }

    /// The optimiser's first moments of the weights.
    pub fn get_dm_weights(&self) -> (r: &Tensor2D<F32>)
        requires
            self@.linear.dm_w is Some,
        ensures
            Some(r@) == self@.linear.dm_w,
    {
        self.linear_state.dm_w.as_ref().unwrap()
    }

    /// The optimiser's first moments of the biases.
    pub fn get_dm_biases(&self) -> (r: &Tensor2D<F32>)
        requires
            self@.linear.dm_b is Some,
        ensures
            Some(r@) == self@.linear.dm_b,
    {
        self.linear_state.dm_b.as_ref().unwrap()
    }

    /// The weights of the normalisation.
    pub fn get_norm_weights(&self) -> (r: &Tensor2D<T>)
        ensures
            r@ == self@.norm.w,
    {
        &self.norm_state.w
    }

    /// The biases of the normalisation.
    pub fn get_norm_biases(&self) -> (r: &Tensor2D<T>)
        ensures
            r@ == self@.norm.b,
    {
        &self.norm_state.b
    }

    /// The weights of the normalisation in full precision, where the layer works in half precision.
    pub fn get_master_norm_weights(&self) -> (r: Option<&Tensor2D<F32>>)
        ensures
            borrowed_view(r) == self@.norm.master_w,
    {
        self.norm_state.master_w.as_ref()
    }

    /// The biases of the normalisation in full precision, where the layer works in half precision.
    pub fn get_master_norm_biases(&self) -> (r: Option<&Tensor2D<F32>>)
        ensures
            borrowed_view(r) == self@.norm.master_b,
    {
        self.norm_state.master_b.as_ref()
    }

    /// The gradients of the weights of the normalisation.
    pub fn get_norm_weights_grad(&self) -> (r: &Tensor2D<F32>)
        requires
            self@.d_norm_w is Some,
        ensures
            Some(r@) == self@.d_norm_w,
    {
        self.d_norm_w.as_ref().unwrap()
    }

    /// The gradients of the biases of the normalisation.
    pub fn get_norm_biases_grad(&self) -> (r: &Tensor2D<F32>)
        requires
            self@.d_norm_b is Some,
        ensures
            Some(r@) == self@.d_norm_b,
    {
        self.d_norm_b.as_ref().unwrap()
    }

    /// The optimiser's second moments of the weights of the normalisation.
    pub fn get_dv_norm_weights(&self) -> (r: &Tensor2D<F32>)
        requires
            self@.norm.dv_w is Some,
        ensures
            Some(r@) == self@.norm.dv_w,
    {
        self.norm_state.dv_w.as_ref().unwrap()
    }

    /// The optimiser's second moments of the biases of the normalisation.
    pub fn get_dv_norm_biases(&self) -> (r: &Tensor2D<F32>)
        requires
            self@.norm.dv_b is Some,
        ensures
            Some(r@) == self@.norm.dv_b,
    {
        self.norm_state.dv_b.as_ref().unwrap()
    }

    /// The optimiser's first moments of the weights of the normalisation.
    pub fn get_dm_norm_weights(&self) -> (r: &Tensor2D<F32>)
        requires
            self@.norm.dm_w is Some,
        ensures
            Some(r@) == self@.norm.dm_w,
    {
        self.norm_state.dm_w.as_ref().unwrap()
    }

    /// The optimiser's first moments of the biases of the normalisation.
    pub fn get_dm_norm_biases(&self) -> (r: &Tensor2D<F32>)
        requires
            self@.norm.dm_b is Some,
        ensures
            Some(r@) == self@.norm.dm_b,
    {
        self.norm_state.dm_b.as_ref().unwrap()
    }

    /// The outputs.
    pub fn get_outputs(&self) -> (r: &Tensor2D<T>)
        ensures
            r@ == self@.cache.out,
    {
        &self.forward_cache.out
    }

    /// The outputs before dropout.
    pub fn get_predrop_outputs(&self) -> (r: &Tensor2D<T>)
        ensures
            r@ == self@.cache.predrop_out,
    {
        &self.forward_cache.predrop_out
    }

    /// The outputs before the activation.
    pub fn get_preact_outputs(&self) -> (r: &Tensor2D<T>)
        ensures
            r@ == self@.cache.preact_out,
    {
        &self.forward_cache.preact_out
    }

    /// The centered outputs of the normalisation.
    pub fn get_centered_outputs(&self) -> (r: &Tensor2D<T>)
        ensures
            r@ == self@.cache.centered_out,
    {
        &self.forward_cache.centered_out
    }

    /// The outputs before the normalisation.
    pub fn get_prenorm_outputs(&self) -> (r: &Tensor2D<T>)
        ensures
            r@ == self@.cache.prenorm_out,
    {
        &self.forward_cache.prenorm_out
    }

    /// The reciprocal standard deviations of the normalisation.
    pub fn get_norm_rstd(&self) -> (r: &Tensor1D<T>)
        ensures
            r@ == self@.cache.norm_rstd,
    {
        &self.forward_cache.norm_rstd
    }

    /// The gradients of the outputs.
    pub fn get_grads(&self) -> (r: &Tensor2D<F32>)
        requires
            self@.grad is Some,
        ensures
            Some(r@) == self@.grad,
    {
        self.grad.as_ref().unwrap()
    }

    /// The gradients before the normalisation.
    pub fn get_delta_prenorm_out(&self) -> (r: &Tensor2D<F32>)
        requires
            self@.d_prenorm_out is Some,
        ensures
            Some(r@) == self@.d_prenorm_out,
    {
        self.d_prenorm_out.as_ref().unwrap()
    }

    /// The dropout mask.
    pub fn get_masks(&self) -> (r: &Tensor2D<T>)
        ensures
            r@ == self@.mask,
    {
        &self.mask
    }

    /// The largest batch that the layer takes.
    pub fn get_max_batch_size(&self) -> (r: usize)
        ensures
            r == self@.max_batch_size,
    {
        self.max_batch_size
    }

    /// The mask coefficient for dropout.
    pub fn get_mask_coeff(&self) -> (r: F32)
        ensures
            r == self@.config.mask_coeff,
    {
        self.mask_coeff
    }

    /// Sets the mask coefficient for dropout.
    pub fn set_mask_coeff(&mut self, val: F32)
        ensures
            final(self)@ == (DenseView {
                config: LayerInitConfig { mask_coeff: val, ..old(self)@.config },
                ..old(self)@
            }),
    {
        self.mask_coeff = val;
    }

    /// The normalisation.
    pub fn get_normalisation(&self) -> (r: &Normalisation)
        ensures
            *r == self@.config.normalisation,
    {
        &self.normalisation
    }

    /// Sets the normalisation.
    pub fn set_normalisation(&mut self, val: Normalisation)
        ensures
            final(self)@ == (DenseView {
                config: LayerInitConfig { normalisation: val, ..old(self)@.config },
                ..old(self)@
            }),
    {
        self.normalisation = val;
    }

    /// The activation.
    pub fn get_activation(&self) -> (r: &Activation)
        ensures
            *r == self@.config.activation,
    {
        &self.activation
    }

    /// Sets the activation.
    pub fn set_activation(&mut self, val: Activation)
        ensures
            final(self)@ == (DenseView {
                config: LayerInitConfig { activation: val, ..old(self)@.config },
                ..old(self)@
            }),
    {
        self.activation = val;
    }

    /// The regularisation.
    pub fn get_regularisation(&self) -> (r: &Regularisation)
        ensures
            *r == self@.config.regularisation,
    {
        &self.regularisation
    }

    /// Sets the regularisation.
    pub fn set_regularisation(&mut self, val: Regularisation)
        ensures
            final(self)@ == (DenseView {
                config: LayerInitConfig { regularisation: val, ..old(self)@.config },
                ..old(self)@
            }),
    {
        self.regularisation = val;
    }

    /// Whether the layer can be trained.
    pub fn is_training_mode(&self) -> (r: bool)
        ensures
            r == self@.is_training,
    {
        self.is_training
    }

    /// Returns true if everything that a backward pass needs is there.
    #[must_use]
    pub fn is_trainable(&self) -> (r: bool)
        ensures
            r == self@.trainable(),
    {
        self.grad.is_some() && self.d_prenorm_out.is_some() && self.d_norm_w.is_some()
            && self.d_norm_b.is_some() && self.linear_state.is_trainable()
            && self.norm_state.is_trainable()
    }

    /// Sets all the elements in the `mask` tensor back to 1.0
    ///
    /// # Arguments
    /// * `context` - See [`GpuContext`].
    ///
    /// # Errors
    /// Returns an [`Error`] if the mask fails to be broadcasted.
    pub fn reset_mask(&mut self, context: &mut GpuContext) -> (r: Result<(), Error>)
        requires
            old(context).wf(),
            old(self).wf(),
            tileable(element_count(old(self)@.mask.shape) as int, tile_area(old(context)@.tile_dim)),
        ensures
            final(context).wf(),
            final(self)@ == old(self)@,
            refusal(r) == broadcast_refusal(old(self)@.mask.slice().len),
            r is Ok ==> final(context)@ == old(context)@.then_run(
                broadcast_ops(
                    old(context)@.tile_dim,
                    T::format(),
                    old(self)@.mask.slice(),
                    one_pattern(T::format()),
                ),
            ),
            r is Err ==> final(context)@ == old(context)@,
    {
        self.mask.broadcast(context, T::one())
    }

    /// Gives the buffers of the layer back.
    fn free(self, context: &mut GpuContext)
        requires
            old(context).wf(),
        ensures
            final(context).wf(),
            final(context)@ == old(context)@.then_run(block_frees(self@)),
    {
        broadcast use lemma_then_run;

        self.linear_state.free(context);
        self.norm_state.free(context);
        self.forward_cache.free(context);
        free_optional(self.grad, context);
        free_optional(self.d_prenorm_out, context);
        free_optional(self.d_norm_w, context);
        free_optional(self.d_norm_b, context);
        self.mask.free(context);
    }

    /// Safely remove this block from memory.
    ///
    /// # Arguments
    /// * `context` - See [`GpuContext`].
    pub fn drop(self, context: &mut GpuContext) -> (r: Result<(), Error>)
        requires
            old(context).wf(),
        ensures
            final(context).wf(),
            r is Ok,
            final(context)@ == old(context)@.then_run(
                block_frees(self@) + seq![OpView::Synchronize],
            ),
    {
        broadcast use lemma_then_run;

        self.free(context);
        context.synchronize();
        Ok(())
    }

    /// Checks that an input suits the layer.
    fn check_input_dimension(&self, input: &Tensor2D<T>, batch_size: usize) -> (r: Result<
        (),
        Error,
    >)
        requires
            self.wf(),
            input.wf(),
        ensures
            refusal(r) == input_refusal(self@, input@, batch_size),
    {
        if input.rows() < batch_size {
            return Err(
                Error::MismatchedDimensions {
                    reason: "forward input rows vs explicit batch size",
                    expected: batch_size,
                    found: input.rows(),
                },
            );
        }
        if input.rows() > self.max_batch_size {
            return Err(
                Error::AllocationLimitExceeded {
                    received: input.rows(),
                    max: self.max_batch_size,
                    reason: "input batches",
                },
            );
        }
        let expected_features: usize = self.linear_state.w.rows();
        if input.cols() != expected_features {
            return Err(
                Error::MismatchedDimensions {
                    reason: "forward input feature columns mismatch",
                    expected: expected_features,
                    found: input.cols(),
                },
            );
        }
        Ok(())
    }

    /// Checks that the layer can pass a batch through its activation and its normalisation.
    fn check_pass(&self, batch_size: usize) -> (r: Result<(), Error>)
        ensures
            refusal(r) == pass_refusal(
                self@.config.activation,
                self@.config.normalisation,
                batch_size,
            ),
    {
        check_pass_config(self.activation, self.normalisation, batch_size)
    }

    /// Forward propagation. The matrices are row-major.
    ///
    /// # Arguments
    /// * `context` - GPU Context. See [`GpuContext`].
    /// * `input` - A [`Tensor2D<T>`] with size `(batch size, input features)` representing
    ///   the current input batch.
    /// * `batch_size` - Batch size of `input`. If the input rows exceed `batch_size`, only the
    ///   first `batch_size` rows will be considered.
    /// * `use_dropout` - Whether the forward pass is part of the training loop. If set to `false`,
    ///   the dropout feature will be bypassed.
    /// * `step` - The current training iteration step.
    ///
    /// # Returns
    /// A [`Tensor2D<T>`] reference to this tensor's `out`.
    ///
    /// # Errors
    /// This function will return an error if:
    /// * [`Error::MismatchedDimensions`] - The raw number of `input.rows()` is less than the current
    ///   execution `batch_size`, or the feature data columns (`input.cols()`) fail to align with the
    ///   required weight rows.
    /// * [`Error::AllocationLimitExceeded`] - The runtime execution batch size (`input.rows()`)
    ///   exceeds the statically configured `max_batch_size` limit assigned during layer creation.
    /// * [`Error::InvalidConfiguration`] - The layer has an invalid activation method assigned (such
    ///   as `Softmax`, which must be handled directly via the unified `compute_loss` routine).
    /// * [`Error::InvalidBatchSize`] - The execution `batch_size` is evaluated as `0`, or evaluated
    ///   as `1` while `BatchNorm` is active (which triggers an internal division-by-zero or NaN
    ///   fault).
    /// * [`Error::HardwareConstraintViolation`] or [`Error::IntConversion`] - The tile does not suit
    ///   the precision, or a size does not fit in 32 bits.
    pub fn forward(
        &self,
        context: &mut GpuContext,
        input: &Tensor2D<T>,
        batch_size: usize,
        use_dropout: bool,
        step: usize,
    ) -> (r: Result<&Tensor2D<T>, Error>)
        requires
            old(context).wf(),
            self.wf(),
            input.wf(),
            forward_ready(
                old(context)@.tile_dim,
                T::format(),
                self@,
                input@,
                batch_size,
                use_dropout,
                step,
            ),
        ensures
            final(context).wf(),
            ({
                let outcome = forward_through(
                    old(context)@.tile_dim,
                    T::format(),
                    self@,
                    input@,
                    batch_size,
                    use_dropout,
                    step,
                );
                &&& refusal(r) == outcome.refused
                &&& final(context)@ == old(context)@.then_run(outcome.ops)
            }),
            r matches Ok(out) ==> out@ == self@.cache.out,
    {
        reveal(forward_through);
        self.check_input_dimension(input, batch_size)?;
        self.check_pass(batch_size)?;
        context.gpu_forward_pass(self, input, batch_size, use_dropout, step)?;
        Ok(&self.forward_cache.out)
    }

    /// Computes the backward propagation for network deep learning. Output values are
    /// stored inside the network. As such, only target values are needed to be passed.
    ///
    /// The algorithm used is gradient descent. The algorithm will update the parameters (i.e.
    /// weights and biases) such that the gradient of the parameters to the error approaches 0.
    ///
    /// # Arguments
    /// * `context` - GPU Context. See [`GpuContext`].
    /// * `input` - A [`Tensor2D<T>`] that contains the input to this layer during the forward pass.
    /// * `train_ctx` - Information and hyperparameters for training.
    /// * `step` - The current training iteration step.
    ///
    /// # Errors
    /// This function will return an error if:
    /// * [`Error::TrainingModeRequired`] - The operation is called while the network is evaluated in
    ///   inference mode.
    /// * [`Error::MismatchedDimensions`] - The raw number of `input.rows()` is less than the
    ///   specified execution `batch_size`, or the feature data columns (`input.cols()`) fail to align
    ///   with the required weight rows.
    /// * [`Error::AllocationLimitExceeded`] - The runtime execution batch size (`input.rows()`)
    ///   exceeds the statically configured `max_batch_size` allocation limit assigned during layer
    ///   creation.
    /// * [`Error::InvalidConfiguration`] - The layer has an invalid activation method assigned (such
    ///   as `Softmax`, which must be handled directly via the unified `compute_loss` routine).
    /// * [`Error::InvalidBatchSize`] - The execution `batch_size` is evaluated as `0`, or evaluated
    ///   as `1` while `BatchNorm` is active (which triggers an internal division-by-zero or NaN
    ///   fault).
    pub fn backward_output(
        &self,
        context: &mut GpuContext,
        input: &Tensor2D<T>,
        train_ctx: &TrainContext,
        step: usize,
    ) -> (r: Result<(), Error>)
        requires
            old(context).wf(),
            self.wf(),
            input.wf(),
            backward_output_ready(
                old(context)@.tile_dim,
                T::format(),
                self@,
                input@,
                *train_ctx,
                step,
            ),
        ensures
            final(context).wf(),
            ({
                let outcome = backward_output_through(
                    old(context)@.tile_dim,
                    T::format(),
                    self@,
                    input@,
                    *train_ctx,
                    step,
                );
                &&& refusal(r) == outcome.refused
                &&& final(context)@ == old(context)@.then_run(outcome.ops)
            }),
    {
        reveal(backward_output_through);
        if !self.is_training {
            return Err(Error::TrainingModeRequired { reason: "output layer backward pass" });
        }
        self.check_input_dimension(input, train_ctx.batch_size)?;
        self.check_pass(train_ctx.batch_size)?;
        context.gpu_backward_pass(self, input, train_ctx, step)
    }

    /// Computes the backward propagation for network deep learning. Output values are
    /// stored inside the network. As such, only target values are needed to be passed.
    ///
    /// The algorithm used is gradient descent. The algorithm will update the parameters (i.e.
    /// weights and biases) such that the gradient of the parameters to the error approaches 0.
    ///
    /// # Arguments
    /// * `context` - GPU Context. See [`GpuContext`].
    /// * `next_layer` - The next layer, with its error deltas and weights.
    /// * `input` - A [`Tensor2D<T>`] that contains the input to this layer during the forward pass.
    /// * `train_ctx` - Information and hyperparameters for training.
    /// * `step` - The current training iteration step.
    ///
    /// # Errors
    /// This function will return an error if:
    /// * [`Error::TrainingModeRequired`] - The operation is called while the network is evaluated in
    ///   inference mode.
    /// * [`Error::MismatchedDimensions`] - One of the following structural layout mismatches occurs:
    ///   * The incoming `input` tensor rows are less than the specified execution `batch_size`.
    ///   * The feature columns of the `input` tensor do not align with this layer's weight rows.
    ///   * The row count of the upstream layer's weight matrix does not equal this layer's weight
    ///     columns.
    ///   * The upstream gradient tensor's batch rows do not match the incoming `input` tensor rows.
    /// * [`Error::AllocationLimitExceeded`] - The runtime execution batch size (`input.rows()`)
    ///   exceeds the statically configured `max_batch_size` allocation limit.
    /// * [`Error::InvalidConfiguration`] - The hidden layer has an invalid activation method assigned
    ///   (such as `Softmax`, which is strictly reserved for the output loss layer).
    /// * [`Error::InvalidBatchSize`] - The execution `batch_size` is evaluated as `0`, or evaluated
    ///   as `1` while `BatchNorm` is active (which triggers an internal division-by-zero or NaN
    ///   fault).
    pub fn backward_hidden(
        &self,
        context: &mut GpuContext,
        next_layer: &DenseBlock<T>,
        input: &Tensor2D<T>,
        train_ctx: &TrainContext,
        step: usize,
    ) -> (r: Result<(), Error>)
        requires
            old(context).wf(),
            self.wf(),
            next_layer.wf(),
            input.wf(),
            backward_hidden_ready(
                old(context)@.tile_dim,
                T::format(),
                self@,
                next_layer@,
                input@,
                *train_ctx,
            ),
        ensures
            final(context).wf(),
            ({
                let outcome = backward_hidden_through(
                    old(context)@.tile_dim,
                    T::format(),
                    self@,
                    next_layer@,
                    input@,
                    *train_ctx,
                    step,
                );
                &&& refusal(r) == outcome.refused
                &&& final(context)@ == old(context)@.then_run(outcome.ops)
            }),
    {
        reveal(backward_hidden_through);
        if !self.is_training {
            return Err(Error::TrainingModeRequired { reason: "hidden layer backward pass" });
        }
        self.check_input_dimension(input, train_ctx.batch_size)?;
        let current_cols: usize = self.linear_state.w.cols();
        let next_rows: usize = next_layer.get_weights().rows();
        if next_rows != current_cols {
            return Err(
                Error::MismatchedDimensions {
                    reason: "backward pass weight adjacency (next layer rows vs current cols)",
                    expected: current_cols,
                    found: next_rows,
                },
            );
        }
        let next_grad_rows: usize = next_layer.get_grads().rows();
        if next_grad_rows != input.rows() {
            return Err(
                Error::MismatchedDimensions {
                    reason: "backward pass activation gradient rows",
                    expected: input.rows(),
                    found: next_grad_rows,
                },
            );
        }
        self.check_pass(train_ctx.batch_size)?;
        context.gpu_hidden_layer_backward_pass(
            self,
            next_layer,
            input,
            self.activation,
            train_ctx,
            step,
        )
    }

    /// Computes the error delta for this output layer.
    ///
    /// Note: dropouts are ignored i.e. output layers should not have dropouts.
    /// Also, the activation will be directly applied into the `output` tensor itself.
    ///
    /// # Arguments
    /// * `context` - GPU Context. See [`GpuContext`].
    /// * `target` - A [`Tensor2D<T>`] with size `(batch size, output features)` representing
    ///   the current target batch.
    /// * `loss_config` - See [`LossConfig`].
    ///
    /// # Errors
    /// This function will return an error if:
    /// * [`Error::TrainingModeRequired`] - The network is not currently in training mode.
    /// * [`Error::MismatchedDimensions`] - The number of target columns does not match the linear
    ///   layer weight columns.
    /// * [`Error::AllocationLimitExceeded`] - The target batch size (rows) exceeds the configured
    ///   `max_batch_size`.
    /// * [`Error::InvalidConfiguration`] - An incompatible combination of [`LossFunc`] and
    ///   [`Activation`] function is provided.
    pub fn compute_loss(
        &self,
        context: &mut GpuContext,
        target: &Tensor2D<T>,
        loss_config: &LossConfig,
    ) -> (r: Result<(), Error>)
        requires
            old(context).wf(),
            self.wf(),
            target.wf(),
            loss_ready(
                old(context)@.tile_dim,
                T::format(),
                self@,
                target@,
                *loss_config,
            ),
        ensures
            final(context).wf(),
            ({
                let outcome = loss_through(
                    old(context)@.tile_dim,
                    T::format(),
                    self@,
                    target@,
                    *loss_config,
                );
                &&& refusal(r) == outcome.refused
                &&& final(context)@ == old(context)@.then_run(outcome.ops)
            }),
    {
        reveal(loss_through);
        if !self.is_training {
            return Err(Error::TrainingModeRequired { reason: "compute loss" });
        }
        if target.cols() != self.linear_state.w.cols() {
            return Err(
                Error::MismatchedDimensions {
                    reason: "target columns",
                    expected: self.linear_state.w.cols(),
                    found: target.cols(),
                },
            );
        }
        if target.rows() > self.max_batch_size {
            return Err(
                Error::AllocationLimitExceeded {
                    received: target.rows(),
                    max: self.max_batch_size,
                    reason: "target batches",
                },
            );
        }
        match loss_config.loss_func {
            LossFunc::MeanSquareLoss => {
                if loss_config.activation == Activation::Softmax {
                    return Err(
                        invalid_configuration(
                            "Mean Squared Loss does not support the Softmax activation function.",
                        ),
                    );
                }
            },
            LossFunc::CrossEntropyLoss => {
                if loss_config.activation != Activation::Softmax {
                    return Err(
                        invalid_configuration(
                            "Cross-Entropy Loss only supports the Softmax activation function.",
                        ),
                    );
                }
            },
            LossFunc::BinaryCrossEntropy => {
                if loss_config.activation != Activation::Sigmoid {
                    return Err(
                        invalid_configuration(
                            "Binary Cross-Entropy only supports the Sigmoid activation function.",
                        ),
                    );
                }
            },
        }
        context.gpu_compute_output_layer_error(
            self,
            target,
            loss_config.loss_func,
            loss_config.activation,
        )
    }
}

impl DenseBlock<F32> {
    /// Converts the [`DenseBlock`] weights, states, and caches from its current
    /// numeric type to half-precision floating-point.
    ///
    /// # Arguments
    /// * `context` - See [`GpuContext`].
    ///
    /// # Errors
    /// Returns an [`Error`] if a tensor has more elements than a kernel can count. The layer is
    /// given back then.
    pub fn convert_f16(self, context: &mut GpuContext) -> (r: Result<DenseBlock<F16>, Error>)
        requires
            old(context).wf(),
            self.wf(),
            halving_refusal(self@) is None ==> forall|i: int|
                0 <= i < halved_tensors(self@).len() ==> castable(
                    #[trigger] halved_tensors(self@)[i],
                    old(context)@.tile_dim,
                ),
        ensures
            final(context).wf(),
            refusal(r) == halving_refusal(self@),
            r is Err ==> final(context)@ == old(context)@.then_run(block_frees(self@)),
            r matches Ok(b) ==> b.wf() && (final(context)@, b@) == halved_block(
                old(context)@,
                self@,
            ),
    {
        broadcast use lemma_cast_keeps_tile;

        let ghost ts = halved_tensors(self@);
        proof {
            lemma_halved_tensors(self@);
        }
        let countable = self.linear_state.w.is_countable_by_kernels()
            && self.linear_state.b.is_countable_by_kernels()
            && self.norm_state.w.is_countable_by_kernels()
            && self.norm_state.b.is_countable_by_kernels()
            && self.forward_cache.is_countable_by_kernels() && self.mask.is_countable_by_kernels();
        if !countable {
            self.free(context);
            return Err(Error::IntConversion);
        }
        proof {
            assert(castable(ts[0], context@.tile_dim) && castable(ts[1], context@.tile_dim)
                && castable(ts[2], context@.tile_dim) && castable(ts[3], context@.tile_dim)
                && castable(ts[10], context@.tile_dim));
            assert forall|i: int| 0 <= i < 6 implies castable(
                #[trigger] self@.cache.tensors()[i],
                context@.tile_dim,
            ) by {
                assert(ts[i + 4] == self@.cache.tensors()[i]);
            }
        }
        let linear_state = self.linear_state.cast_f16(context)?;
        let norm_state = self.norm_state.cast_f16(context)?;
        let forward_cache = self.forward_cache.cast::<F16>(context)?;
        let mask = self.mask.cast::<F16>(context)?;
        Ok(
            DenseBlock::<F16> {
                linear_state,
                norm_state,
                forward_cache,
                grad: self.grad,
                d_prenorm_out: self.d_prenorm_out,
                d_norm_w: self.d_norm_w,
                d_norm_b: self.d_norm_b,
                mask,
                max_batch_size: self.max_batch_size,
                normalisation: self.normalisation,
                activation: self.activation,
                regularisation: self.regularisation,
                mask_coeff: self.mask_coeff,
                is_training: self.is_training,
            },
        )
    }
}

impl DenseBlock<F16> {
    /// Converts the [`DenseBlock`] weights, states, and caches from its current
    /// numeric type to single-precision floating-point.
    ///
    /// # Arguments
    /// * `context` - See [`GpuContext`].
    ///
    /// # Errors
    /// Returns an [`Error`] if a tensor has more elements than a kernel can count. The layer is
    /// given back then.
    pub fn convert_f32(self, context: &mut GpuContext) -> (r: Result<DenseBlock<F32>, Error>)
        requires
            old(context).wf(),
            self.wf(),
            doubling_refusal(self@) is None ==> {
                &&& self@.linear.master_w is Some && self@.linear.master_b is Some
                &&& self@.norm.master_w is Some && self@.norm.master_b is Some
                &&& forall|i: int|
                    0 <= i < doubled_tensors(self@).len() ==> castable(
                        #[trigger] doubled_tensors(self@)[i],
                        old(context)@.tile_dim,
                    )
            },
        ensures
            final(context).wf(),
            refusal(r) == doubling_refusal(self@),
            r is Err ==> final(context)@ == old(context)@.then_run(block_frees(self@)),
            r matches Ok(b) ==> b.wf() && (final(context)@, b@) == doubled_block(
                old(context)@,
                self@,
            ),
    {
        broadcast use lemma_cast_keeps_tile;

        let ghost ts = doubled_tensors(self@);
        proof {
            lemma_doubled_tensors(self@);
        }
        let countable = self.forward_cache.is_countable_by_kernels()
            && self.mask.is_countable_by_kernels();
        if !countable {
            self.free(context);
            return Err(Error::IntConversion);
        }
        proof {
            assert(castable(ts[6], context@.tile_dim));
            assert forall|i: int| 0 <= i < 6 implies castable(
                #[trigger] self@.cache.tensors()[i],
                context@.tile_dim,
            ) by {
                assert(ts[i] == self@.cache.tensors()[i]);
            }
        }
        let linear_state = self.linear_state.cast_f32(context)?;
        let norm_state = self.norm_state.cast_f32(context)?;
        let forward_cache = self.forward_cache.cast::<F32>(context)?;
        let mask = self.mask.cast::<F32>(context)?;
        Ok(
            DenseBlock::<F32> {
                linear_state,
                norm_state,
                forward_cache,
                grad: self.grad,
                d_prenorm_out: self.d_prenorm_out,
                d_norm_w: self.d_norm_w,
                d_norm_b: self.d_norm_b,
                mask,
                max_batch_size: self.max_batch_size,
                normalisation: self.normalisation,
                activation: self.activation,
                regularisation: self.regularisation,
                mask_coeff: self.mask_coeff,
                is_training: self.is_training,
            },
        )
    }
}

} // verus!
