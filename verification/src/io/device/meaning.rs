//! What the queue amounts to: which buffer holds what, in terms of what the buffers held before.
//!
//! The numbers in a buffer are not worked out here. They are named by how they come about: by the
//! work that a kernel does, and by everything that goes into that work.

use vstd::prelude::*;

use crate::io::device::signature::{count, handed, number, tensor, yes, Param};
use crate::io::device::{HostView, Kernel, KernelArg, OpView};
use crate::util::function::{
    Activation, LossFunc, Normalisation, Optimiser, PaddingType, PoolingType, Regularisation,
};
use crate::util::precision::{Precision, F32};

verus! {

/// What a buffer holds.
pub enum Contents {
    /// One number throughout, by its bit pattern.
    Filled { precision: Precision, pattern: u32, len: int },
    /// Numbers of the host, of the format `held`.
    Host { precision: Precision, held: Precision, numbers: HostView },
    /// Planes in the top left corner of larger ones.
    Corner {
        planes: int,
        inside: Box<Contents>,
        inner: (int, int),
        around: Box<Contents>,
        outer: (int, int),
    },
    /// What a kernel puts into the buffer that it is handed for a parameter.
    Made { part: Param, precision: Precision, work: Box<Work> },
}

/// How features are dropped.
pub struct Dropout {
    pub coefficient: F32,
    pub seed: int,
}

/// What the backward pass of a normalisation goes by, and the gradients that it starts from.
pub struct NormTrace {
    pub kind: Normalisation,
    pub weights: Contents,
    pub deviations: Contents,
    pub centred: Contents,
    pub prenorm: Contents,
    pub weight_slope: Contents,
    pub bias_slope: Contents,
}

/// Weights and biases, their copies in full precision, and what an optimiser remembers of them.
pub struct Trained {
    pub weights: Contents,
    pub biases: Contents,
    pub full_weights: Contents,
    pub full_biases: Contents,
    pub weight_velocity: Contents,
    pub bias_velocity: Contents,
    pub weight_momentum: Contents,
    pub bias_momentum: Contents,
}

/// Windows that slide over a plane. Of two numbers, the first one is along the width.
pub struct Sliding {
    pub size: (int, int),
    pub pad: int,
    pub pad_type: PaddingType,
    pub stride: (int, int),
    pub dilation: (int, int),
}

/// What a kernel does, and everything that goes into it. Of two sizes, the first one is along the
/// width.
#[allow(inconsistent_fields)]
pub enum Work {
    /// Numbers of one format are turned into another one.
    Cast { of: Contents, from: Precision, to: Precision, len: int },
    /// A matrix of `rows` times `inner` by one of `inner` times `columns`.
    Product {
        left: Contents,
        right: Contents,
        rows: int,
        inner: int,
        columns: int,
        tile: int,
    },
    /// The sum of two matrices.
    Sum { left: Contents, right: Contents, rows: int, columns: int },
    /// An input by the weights, and the biases on top where there are any.
    Linear {
        input: Contents,
        weights: Contents,
        biases: Option<Contents>,
        rows: int,
        inputs: int,
        outputs: int,
        tile: int,
    },
    /// A normalisation, with its own weights and biases.
    Normalise {
        kind: Normalisation,
        of: Contents,
        weights: Contents,
        biases: Contents,
        rows: int,
        outputs: int,
    },
    /// An activation, and a dropout behind it where there is one.
    Activate {
        function: Activation,
        of: Contents,
        dropout: Option<Dropout>,
        rows: int,
        outputs: int,
    },
    /// The softmax of each row.
    Softmax { of: Contents, rows: int, columns: int },
    /// The gradients of a loss.
    OutputError {
        loss: LossFunc,
        function: Activation,
        prediction: Contents,
        target: Contents,
        preact: Contents,
        norm: NormTrace,
        rows: int,
        outputs: int,
    },
    /// The gradients that come from the layer behind.
    HiddenError {
        function: Activation,
        error: Contents,
        weights: Contents,
        predrop: Contents,
        preact: Contents,
        mask: Contents,
        norm: NormTrace,
        rows: int,
        outputs: int,
        outputs_behind: int,
    },
    /// One step of the optimisers.
    Update {
        input: Contents,
        error: Contents,
        linear: Trained,
        norm: Trained,
        norm_weight_slope: Contents,
        norm_bias_slope: Contents,
        uses_biases: bool,
        kind: Normalisation,
        rows: int,
        inputs: int,
        outputs: int,
        rate: F32,
        clamp: F32,
        rule: Optimiser,
        norm_rule: Optimiser,
        regularisation: Regularisation,
        step: int,
    },
    /// Filters slide over images.
    Filter {
        input: Contents,
        weights: Contents,
        biases: Option<Contents>,
        input_channels: int,
        output_channels: int,
        from: (int, int),
        to: (int, int),
        windows: Sliding,
    },
    /// A normalisation of images.
    NormaliseImages {
        kind: Normalisation,
        of: Contents,
        weights: Contents,
        biases: Contents,
        size: (int, int),
        channels: int,
        images: int,
    },
    /// An activation, the pooling behind it, and the dropout behind that.
    Pool {
        function: Activation,
        of: Contents,
        pooling: Option<PoolingType>,
        dropout: Option<Dropout>,
        channels: int,
        from: (int, int),
        to: (int, int),
        windows: Sliding,
    },
    /// The rows of images and of filters are transformed.
    TransformRows {
        input: Contents,
        weights: Contents,
        roots: Contents,
        images: int,
        channels: int,
        size: (int, int),
        transform: (int, int),
        window: (int, int),
        pad: int,
        pad_type: PaddingType,
        dilation: (int, int),
    },
    /// The columns of what the rows became are transformed.
    TransformColumns {
        input: Contents,
        weights: Contents,
        roots: Contents,
        images: int,
        channels: int,
        transform: (int, int),
    },
    /// Frequencies are multiplied, and the rows of the product are transformed back.
    Multiply {
        input: Contents,
        weights: Contents,
        roots: Contents,
        input_channels: int,
        output_channels: int,
        transform: (int, int),
    },
    /// The columns of a product are transformed back.
    TransformBack {
        of: Contents,
        roots: Contents,
        biases: Option<Contents>,
        channels: int,
        transform: (int, int),
        size: (int, int),
        stride: (int, int),
    },
}

/// The normalisation that the kernels know by a number.
pub open spec fn known_normalisation(mode: int) -> Normalisation {
    if mode == 1 {
        Normalisation::RMSNorm
    } else if mode == 2 {
        Normalisation::LayerNorm
    } else if mode == 3 {
        Normalisation::BatchNorm
    } else {
        Normalisation::Disabled
    }
}

/// The activation that the kernels know by a number and a slope.
pub open spec fn known_activation(mode: int, leak: F32) -> Activation {
    if mode == 1 {
        Activation::Sigmoid
    } else if mode == 2 {
        Activation::ReLU
    } else if mode == 3 {
        Activation::LeakyReLU { coeff: leak }
    } else if mode == 4 {
        Activation::Tanh
    } else if mode == 5 {
        Activation::Softmax
    } else if mode == 6 {
        Activation::SiLU
    } else if mode == 7 {
        Activation::Mish
    } else {
        Activation::Identity
    }
}

/// The regularisation that the kernels know by a number and a coefficient.
pub open spec fn known_regularisation(mode: int, coefficient: F32) -> Regularisation {
    if mode == 1 {
        Regularisation::L1Regular { regu_coeff: coefficient }
    } else if mode == 2 {
        Regularisation::L2Regular { regu_coeff: coefficient }
    } else {
        Regularisation::Disabled
    }
}

/// The optimiser that the kernels know by a number and its parameters.
pub open spec fn known_optimiser(
    mode: int,
    first_beta: F32,
    second_beta: F32,
    epsilon: F32,
    nesterov: bool,
) -> Optimiser {
    if mode == 1 {
        Optimiser::Adam { m_coeff: first_beta, v_coeff: second_beta, epsilon }
    } else {
        Optimiser::SGD { v_coeff: first_beta, nesterov }
    }
}

/// The loss that the kernels know by a number.
pub open spec fn known_loss(mode: int) -> LossFunc {
    if mode == 1 {
        LossFunc::CrossEntropyLoss
    } else if mode == 2 {
        LossFunc::BinaryCrossEntropy
    } else {
        LossFunc::MeanSquareLoss
    }
}

/// The padding that the kernels know by a number.
pub open spec fn known_padding(mode: int) -> PaddingType {
    if mode == 1 {
        PaddingType::ReflectivePadding
    } else if mode == 2 {
        PaddingType::ReplicatePadding
    } else {
        PaddingType::ZeroPadding
    }
}

/// The pooling that the kernels know by a number.
pub open spec fn known_pooling(mode: int) -> Option<PoolingType> {
    if mode == 1 {
        Some(PoolingType::MaxPooling)
    } else {
        None
    }
}

/// The contents of the buffer that a kernel is handed for a parameter.
pub open spec fn held(
    c: Map<usize, Contents>,
    kernel: Kernel,
    args: Seq<KernelArg>,
    param: Param,
) -> Contents {
    c[tensor(kernel, args, param)]
}

/// The biases that a kernel adds.
pub open spec fn held_biases(
    c: Map<usize, Contents>,
    kernel: Kernel,
    args: Seq<KernelArg>,
) -> Option<Contents> {
    if yes(kernel, args, Param::UsesBiases) {
        Some(held(c, kernel, args, Param::Biases))
    } else {
        None
    }
}

/// The dropout that a kernel is told of.
pub open spec fn told_dropout(kernel: Kernel, args: Seq<KernelArg>) -> Option<Dropout> {
    if yes(kernel, args, Param::UsesDropout) {
        Some(
            Dropout {
                coefficient: number(kernel, args, Param::MaskCoefficient),
                seed: count(kernel, args, Param::Seed),
            },
        )
    } else {
        None
    }
}

/// The activation that a kernel is told of.
pub open spec fn told_activation(kernel: Kernel, args: Seq<KernelArg>) -> Activation {
    known_activation(
        count(kernel, args, Param::ActivationMode),
        number(kernel, args, Param::Leak),
    )
}

/// The normalisation that a kernel is told of.
pub open spec fn told_normalisation(kernel: Kernel, args: Seq<KernelArg>) -> Normalisation {
    known_normalisation(count(kernel, args, Param::NormMode))
}

/// The windows that a kernel is told of.
pub open spec fn told_windows(kernel: Kernel, args: Seq<KernelArg>) -> Sliding {
    Sliding {
        size: told_pair(kernel, args, Param::WindowWidth, Param::WindowHeight),
        pad: count(kernel, args, Param::Pad),
        pad_type: known_padding(count(kernel, args, Param::PadMode)),
        stride: told_pair(kernel, args, Param::StrideX, Param::StrideY),
        dilation: told_pair(kernel, args, Param::DilationX, Param::DilationY),
    }
}

/// Two sizes that a kernel is told of.
pub open spec fn told_pair(kernel: Kernel, args: Seq<KernelArg>, x: Param, y: Param) -> (int, int) {
    (count(kernel, args, x), count(kernel, args, y))
}

/// What the backward pass of a normalisation is handed.
pub open spec fn held_norm(
    c: Map<usize, Contents>,
    kernel: Kernel,
    args: Seq<KernelArg>,
) -> NormTrace {
    NormTrace {
        kind: told_normalisation(kernel, args),
        weights: held(c, kernel, args, Param::FullNormWeights),
        deviations: held(c, kernel, args, Param::Deviations),
        centred: held(c, kernel, args, Param::Centred),
        prenorm: held(c, kernel, args, Param::Prenorm),
        weight_slope: held(c, kernel, args, Param::NormWeightSlope),
        bias_slope: held(c, kernel, args, Param::NormBiasSlope),
    }
}

/// One step of the optimisers, as it is handed to the kernel for it.
pub open spec fn update_work(c: Map<usize, Contents>, args: Seq<KernelArg>) -> Work {
    let k = Kernel::BackwardPass;
    Work::Update {
        input: held(c, k, args, Param::Input),
        error: held(c, k, args, Param::PrenormSlope),
        linear: Trained {
            weights: held(c, k, args, Param::Weights),
            biases: held(c, k, args, Param::Biases),
            full_weights: held(c, k, args, Param::FullWeights),
            full_biases: held(c, k, args, Param::FullBiases),
            weight_velocity: held(c, k, args, Param::WeightVelocity),
            bias_velocity: held(c, k, args, Param::BiasVelocity),
            weight_momentum: held(c, k, args, Param::WeightMomentum),
            bias_momentum: held(c, k, args, Param::BiasMomentum),
        },
        norm: Trained {
            weights: held(c, k, args, Param::NormWeights),
            biases: held(c, k, args, Param::NormBiases),
            full_weights: held(c, k, args, Param::FullNormWeights),
            full_biases: held(c, k, args, Param::FullNormBiases),
            weight_velocity: held(c, k, args, Param::NormWeightVelocity),
            bias_velocity: held(c, k, args, Param::NormBiasVelocity),
            weight_momentum: held(c, k, args, Param::NormWeightMomentum),
            bias_momentum: held(c, k, args, Param::NormBiasMomentum),
        },
        norm_weight_slope: held(c, k, args, Param::NormWeightSlope),
        norm_bias_slope: held(c, k, args, Param::NormBiasSlope),
        uses_biases: yes(k, args, Param::UsesBiases),
        kind: told_normalisation(k, args),
        rows: count(k, args, Param::Rows),
        inputs: count(k, args, Param::Inputs),
        outputs: count(k, args, Param::Outputs),
        rate: number(k, args, Param::LearningRate),
        clamp: number(k, args, Param::GradientClamp),
        rule: known_optimiser(
            count(k, args, Param::OptimiserMode),
            number(k, args, Param::FirstBeta),
            number(k, args, Param::SecondBeta),
            number(k, args, Param::Epsilon),
            yes(k, args, Param::Nesterov),
        ),
        norm_rule: known_optimiser(
            count(k, args, Param::NormOptimiserMode),
            number(k, args, Param::NormFirstBeta),
            number(k, args, Param::NormSecondBeta),
            number(k, args, Param::NormEpsilon),
            yes(k, args, Param::NormNesterov),
        ),
        regularisation: known_regularisation(
            count(k, args, Param::RegularisationMode),
            number(k, args, Param::RegularisationCoefficient),
        ),
        step: count(k, args, Param::Step),
    }
}

/// The work that a kernel of a dense layer does.
pub open spec fn dense_work(c: Map<usize, Contents>, k: Kernel, args: Seq<KernelArg>) -> Work {
    match k {
        Kernel::ForwardPass0 => Work::Linear {
            input: held(c, k, args, Param::Input),
            weights: held(c, k, args, Param::Weights),
            biases: held_biases(c, k, args),
            rows: count(k, args, Param::Rows),
            inputs: count(k, args, Param::Inputs),
            outputs: count(k, args, Param::Outputs),
            tile: count(k, args, Param::TileSide),
        },
        Kernel::ForwardPass1 => Work::Normalise {
            kind: told_normalisation(k, args),
            of: held(c, k, args, Param::Prenorm),
            weights: held(c, k, args, Param::NormWeights),
            biases: held(c, k, args, Param::NormBiases),
            rows: count(k, args, Param::Rows),
            outputs: count(k, args, Param::Outputs),
        },
        Kernel::ForwardPass2 => Work::Activate {
            function: told_activation(k, args),
            of: held(c, k, args, Param::Preact),
            dropout: told_dropout(k, args),
            rows: count(k, args, Param::Rows),
            outputs: count(k, args, Param::Outputs),
        },
        Kernel::ComputeOutputLayerError => Work::OutputError {
            loss: known_loss(count(k, args, Param::LossMode)),
            function: told_activation(k, args),
            prediction: held(c, k, args, Param::Prediction),
            target: held(c, k, args, Param::Target),
            preact: held(c, k, args, Param::Preact),
            norm: held_norm(c, k, args),
            rows: count(k, args, Param::Rows),
            outputs: count(k, args, Param::Outputs),
        },
        Kernel::ComputeHiddenLayerError => Work::HiddenError {
            function: told_activation(k, args),
            error: held(c, k, args, Param::ErrorBehind),
            weights: held(c, k, args, Param::WeightsBehind),
            predrop: held(c, k, args, Param::Predrop),
            preact: held(c, k, args, Param::Preact),
            mask: held(c, k, args, Param::Mask),
            norm: held_norm(c, k, args),
            rows: count(k, args, Param::Rows),
            outputs: count(k, args, Param::Outputs),
            outputs_behind: count(k, args, Param::OutputsBehind),
        },
        _ => update_work(c, args),
    }
}

/// The work that a kernel of a convolutional layer does.
pub open spec fn image_work(c: Map<usize, Contents>, k: Kernel, args: Seq<KernelArg>) -> Work {
    match k {
        Kernel::ConvForwardPass0 => Work::Filter {
            input: held(c, k, args, Param::Input),
            weights: held(c, k, args, Param::Weights),
            biases: held_biases(c, k, args),
            input_channels: count(k, args, Param::InputChannels),
            output_channels: count(k, args, Param::OutputChannels),
            from: told_pair(k, args, Param::InputWidth, Param::InputHeight),
            to: told_pair(k, args, Param::OutputWidth, Param::OutputHeight),
            windows: told_windows(k, args),
        },
        Kernel::ConvForwardPass1 => Work::NormaliseImages {
            kind: told_normalisation(k, args),
            of: held(c, k, args, Param::Prenorm),
            weights: held(c, k, args, Param::NormWeights),
            biases: held(c, k, args, Param::NormBiases),
            size: told_pair(k, args, Param::OutputWidth, Param::OutputHeight),
            channels: count(k, args, Param::OutputChannels),
            images: count(k, args, Param::Images),
        },
        Kernel::ConvForwardPass2 => Work::Pool {
            function: told_activation(k, args),
            of: held(c, k, args, Param::Preact),
            pooling: known_pooling(count(k, args, Param::PoolingMode)),
            dropout: told_dropout(k, args),
            channels: count(k, args, Param::OutputChannels),
            from: told_pair(k, args, Param::InputWidth, Param::InputHeight),
            to: told_pair(k, args, Param::OutputWidth, Param::OutputHeight),
            windows: told_windows(k, args),
        },
        Kernel::ConvFftRowTransform => Work::TransformRows {
            input: held(c, k, args, Param::Input),
            weights: held(c, k, args, Param::Weights),
            roots: held(c, k, args, Param::Roots),
            images: count(k, args, Param::Images),
            channels: count(k, args, Param::InputChannels),
            size: told_pair(k, args, Param::InputWidth, Param::InputHeight),
            transform: told_pair(k, args, Param::TransformWidth, Param::TransformHeight),
            window: told_pair(k, args, Param::WindowWidth, Param::WindowHeight),
            pad: count(k, args, Param::Pad),
            pad_type: known_padding(count(k, args, Param::PadMode)),
            dilation: told_pair(k, args, Param::DilationX, Param::DilationY),
        },
        Kernel::ConvFftColTransform => Work::TransformColumns {
            input: held(c, k, args, Param::InputFrequencies),
            weights: held(c, k, args, Param::WeightFrequencies),
            roots: held(c, k, args, Param::Roots),
            images: count(k, args, Param::Images),
            channels: count(k, args, Param::InputChannels),
            transform: told_pair(k, args, Param::TransformWidth, Param::TransformHeight),
        },
        Kernel::ConvElemMulIfftRow => Work::Multiply {
            input: held(c, k, args, Param::InputFrequencies),
            weights: held(c, k, args, Param::WeightFrequencies),
            roots: held(c, k, args, Param::Roots),
            input_channels: count(k, args, Param::InputChannels),
            output_channels: count(k, args, Param::OutputChannels),
            transform: told_pair(k, args, Param::TransformWidth, Param::TransformHeight),
        },
        _ => Work::TransformBack {
            of: held(c, k, args, Param::OutputFrequencies),
            roots: held(c, k, args, Param::Roots),
            biases: held_biases(c, k, args),
            channels: count(k, args, Param::OutputChannels),
            transform: told_pair(k, args, Param::TransformWidth, Param::TransformHeight),
            size: told_pair(k, args, Param::OutputWidth, Param::OutputHeight),
            stride: told_pair(k, args, Param::StrideX, Param::StrideY),
        },
    }
}

/// The work that a kernel on plain matrices does.
pub open spec fn matrix_work(c: Map<usize, Contents>, k: Kernel, args: Seq<KernelArg>) -> Work {
    match k {
        Kernel::CastF32ToF16 => Work::Cast {
            of: held(c, k, args, Param::Source),
            from: Precision::FP32,
            to: Precision::FP16,
            len: count(k, args, Param::Length),
        },
        Kernel::CastF16ToF32 => Work::Cast {
            of: held(c, k, args, Param::Source),
            from: Precision::FP16,
            to: Precision::FP32,
            len: count(k, args, Param::Length),
        },
        Kernel::Gemm => Work::Product {
            left: held(c, k, args, Param::Left),
            right: held(c, k, args, Param::Right),
            rows: count(k, args, Param::Rows),
            inner: count(k, args, Param::Inner),
            columns: count(k, args, Param::Columns),
            tile: count(k, args, Param::TileSide),
        },
        Kernel::Geam => Work::Sum {
            left: held(c, k, args, Param::Left),
            right: held(c, k, args, Param::Right),
            rows: count(k, args, Param::Rows),
            columns: count(k, args, Param::Columns),
        },
        _ => Work::Softmax {
            of: held(c, k, args, Param::Output),
            rows: count(k, args, Param::Rows),
            columns: count(k, args, Param::Columns),
        },
    }
}

/// What a work leaves in the buffer that is handed for a parameter.
pub open spec fn part(param: Param, precision: Precision, work: Work) -> Contents {
    Contents::Made { part: param, precision, work: Box::new(work) }
}

/// The buffers once a kernel has put the outcome of its work into those that it is handed for some
/// of its parameters.
pub open spec fn written(
    c: Map<usize, Contents>,
    kernel: Kernel,
    precision: Precision,
    args: Seq<KernelArg>,
    work: Work,
    params: Seq<Param>,
) -> Map<usize, Contents>
    decreases params.len(),
{
    if params.len() == 0 {
        c
    } else {
        written(c, kernel, precision, args, work, params.drop_last()).insert(
            tensor(kernel, args, params.last()),
            part(params.last(), precision, work),
        )
    }
}

/// The parameters whose buffers a kernel writes to.
pub open spec fn outcomes(kernel: Kernel) -> Seq<Param> {
    match kernel {
        Kernel::CastF32ToF16 | Kernel::CastF16ToF32 | Kernel::Broadcast => seq![Param::Destination],
        Kernel::Gemm | Kernel::Geam | Kernel::Softmax | Kernel::ForwardPass0
        | Kernel::ConvForwardPass0 | Kernel::ConvIfftColTransform => seq![Param::Output],
        Kernel::ForwardPass1 | Kernel::ConvForwardPass1 => seq![
            Param::Output,
            Param::Centred,
            Param::Deviations,
        ],
        Kernel::ForwardPass2 => seq![Param::Output, Param::Predrop, Param::Mask],
        Kernel::ConvForwardPass2 => seq![
            Param::Output,
            Param::Predrop,
            Param::Prepooling,
            Param::Mask,
        ],
        Kernel::ComputeOutputLayerError | Kernel::ComputeHiddenLayerError => seq![
            Param::OutputSlope,
            Param::PrenormSlope,
            Param::NormWeightSlope,
            Param::NormBiasSlope,
        ],
        Kernel::BackwardPass => seq![
            Param::Weights,
            Param::Biases,
            Param::FullWeights,
            Param::FullBiases,
            Param::WeightVelocity,
            Param::BiasVelocity,
            Param::WeightMomentum,
            Param::BiasMomentum,
            Param::NormWeights,
            Param::NormBiases,
            Param::FullNormWeights,
            Param::FullNormBiases,
            Param::NormWeightVelocity,
            Param::NormBiasVelocity,
            Param::NormWeightMomentum,
            Param::NormBiasMomentum,
        ],
        Kernel::ConvFftRowTransform | Kernel::ConvFftColTransform => seq![
            Param::InputFrequencies,
            Param::WeightFrequencies,
        ],
        Kernel::ConvElemMulIfftRow => seq![Param::OutputFrequencies],
    }
}

/// The work that a kernel does.
pub open spec fn work(c: Map<usize, Contents>, kernel: Kernel, args: Seq<KernelArg>) -> Work {
    match kernel {
        Kernel::CastF32ToF16 | Kernel::CastF16ToF32 | Kernel::Broadcast | Kernel::Gemm
        | Kernel::Geam | Kernel::Softmax => matrix_work(c, kernel, args),
        Kernel::ForwardPass0 | Kernel::ForwardPass1 | Kernel::ForwardPass2
        | Kernel::ComputeOutputLayerError | Kernel::ComputeHiddenLayerError
        | Kernel::BackwardPass => dense_work(c, kernel, args),
        _ => image_work(c, kernel, args),
    }
}

/// The buffers once a kernel has run.
pub open spec fn launched(
    c: Map<usize, Contents>,
    kernel: Kernel,
    precision: Precision,
    args: Seq<KernelArg>,
) -> Map<usize, Contents> {
    if kernel == Kernel::Broadcast {
        c.insert(
            tensor(kernel, args, Param::Destination),
            Contents::Filled {
                precision: handed(kernel, args, Param::Value)->Scalar_precision,
                pattern: handed(kernel, args, Param::Value)->Scalar_pattern,
                len: count(kernel, args, Param::Length),
            },
        )
    } else {
        written(c, kernel, precision, args, work(c, kernel, args), outcomes(kernel))
    }
}

/// The buffers once an operation is carried out.
pub open spec fn carried_out(c: Map<usize, Contents>, op: OpView) -> Map<usize, Contents> {
    match op {
        OpView::Allocate { tensor, precision, len } => c.insert(
            tensor,
            Contents::Filled { precision, pattern: 0, len: len as int },
        ),
        OpView::Upload { tensor, precision, held, numbers } => c.insert(
            tensor,
            Contents::Host { precision, held, numbers },
        ),
        OpView::Duplicate { tensor, source } => c.insert(tensor, c[source]),
        OpView::Adopt { tensor, source } => c.insert(tensor, c[source]),
        OpView::Inset { tensor, source, planes, inner, outer } => c.insert(
            tensor,
            Contents::Corner {
                planes: planes as int,
                inside: Box::new(c[source]),
                inner: (inner.0 as int, inner.1 as int),
                around: Box::new(c[tensor]),
                outer: (outer.0 as int, outer.1 as int),
            },
        ),
        OpView::Launch { kernel, precision, args, config } => launched(c, kernel, precision, args),
        OpView::Synchronize => c,
        OpView::Free { tensor } => c.remove(tensor),
    }
}

/// The buffers once operations are carried out, one after the other.
pub open spec fn after(c: Map<usize, Contents>, ops: Seq<OpView>) -> Map<usize, Contents>
    decreases ops.len(),
{
    if ops.len() == 0 {
        c
    } else {
        carried_out(after(c, ops.drop_last()), ops.last())
    }
}

/// Operations behind operations start from what those leave.
pub proof fn law_work_goes_on_from_work(c: Map<usize, Contents>, a: Seq<OpView>, b: Seq<OpView>)
    ensures
        after(c, a + b) == after(after(c, a), b),
    decreases b.len(),
{
    if b.len() == 0 {
        assert(a + b == a);
    } else {
        assert((a + b).drop_last() == a + b.drop_last());
        assert((a + b).last() == b.last());
        law_work_goes_on_from_work(c, a, b.drop_last());
    }
}

/// What a kernel does not write to stays as it is.
pub proof fn lemma_written_elsewhere(
    c: Map<usize, Contents>,
    kernel: Kernel,
    precision: Precision,
    args: Seq<KernelArg>,
    work: Work,
    params: Seq<Param>,
    id: usize,
)
    requires
        forall|i: int| 0 <= i < params.len() ==> tensor(kernel, args, #[trigger] params[i]) != id,
    ensures
        written(c, kernel, precision, args, work, params)[id] == c[id],
    decreases params.len(),
{
    if params.len() > 0 {
        assert(params[params.len() - 1] == params.last());
        assert forall|i: int| 0 <= i < params.drop_last().len() implies tensor(
            kernel,
            args,
            #[trigger] params.drop_last()[i],
        ) != id by {
            assert(params.drop_last()[i] == params[i]);
        }
        lemma_written_elsewhere(c, kernel, precision, args, work, params.drop_last(), id);
    }
}

/// What a kernel writes to a buffer stands there, unless it writes to it once more.
pub proof fn lemma_written_at(
    c: Map<usize, Contents>,
    kernel: Kernel,
    precision: Precision,
    args: Seq<KernelArg>,
    work: Work,
    params: Seq<Param>,
    k: int,
)
    requires
        0 <= k < params.len(),
        forall|i: int|
            k < i < params.len() ==> tensor(kernel, args, #[trigger] params[i]) != tensor(
                kernel,
                args,
                params[k],
            ),
    ensures
        written(c, kernel, precision, args, work, params)[tensor(kernel, args, params[k])] == part(
            params[k],
            precision,
            work,
        ),
    decreases params.len(),
{
    let last = params.len() - 1;
    assert(params[last] == params.last());
    if k < last {
        let rest = params.drop_last();
        assert(rest[k] == params[k]);
        assert forall|i: int| k < i < rest.len() implies tensor(kernel, args, #[trigger] rest[i])
            != tensor(kernel, args, rest[k]) by {
            assert(rest[i] == params[i]);
        }
        lemma_written_at(c, kernel, precision, args, work, rest, k);
    }
}

/// What a kernel with one outcome leaves.
pub proof fn lemma_one(
    c: Map<usize, Contents>,
    k: Kernel,
    precision: Precision,
    args: Seq<KernelArg>,
    w: Work,
    param: Param,
)
    requires
        outcomes(k) == seq![param],
    ensures
        ({
            let r = written(c, k, precision, args, w, outcomes(k));
            &&& r[tensor(k, args, param)] == part(param, precision, w)
            &&& forall|id: usize| id != tensor(k, args, param) ==> (#[trigger] r[id]) == c[id]
        }),
{
    let params = outcomes(k);
    assert(params[0] == param);
    lemma_written_at(c, k, precision, args, w, params, 0);
    let r = written(c, k, precision, args, w, params);
    assert forall|id: usize| id != tensor(k, args, param) implies (#[trigger] r[id]) == c[id] by {
        lemma_written_elsewhere(c, k, precision, args, w, params, id);
    }
}

/// One operation on its own.
pub proof fn lemma_single(c: Map<usize, Contents>, op: OpView)
    ensures
        after(c, seq![op]) == carried_out(c, op),
{
    let one = seq![op];
    assert(one.drop_last() == Seq::<OpView>::empty());
    assert(after(c, one.drop_last()) == c);
    assert(one.last() == op);
}

/// A launch that is waited for.
pub proof fn lemma_waited(c: Map<usize, Contents>, op: OpView)
    ensures
        after(c, seq![op, OpView::Synchronize]) == carried_out(c, op),
{
    lemma_single(c, op);
    lemma_single(after(c, seq![op]), OpView::Synchronize);
    law_work_goes_on_from_work(c, seq![op], seq![OpView::Synchronize]);
    assert(seq![op] + seq![OpView::Synchronize] == seq![op, OpView::Synchronize]);
}

} // verus!
