//! The signatures of the kernels: what each of them takes, and at which place.

use vstd::prelude::*;

use crate::io::device::{Kernel, KernelArg, OpView};
use crate::util::precision::F32;

verus! {

/// What a parameter is to a kernel.
pub enum Param {
    /// What is cast.
    Source,
    /// What is filled.
    Destination,
    /// How many numbers a buffer holds.
    Length,
    /// The number that a buffer is filled with.
    Value,
    /// The first matrix of a product or a sum.
    Left,
    /// The second matrix of a product or a sum.
    Right,
    /// Where the outcome goes.
    Output,
    /// The number of rows.
    Rows,
    /// The number of columns of the first matrix of a product.
    Inner,
    /// The number of columns.
    Columns,
    /// The side of a tile.
    TileSide,
    /// What a layer takes.
    Input,
    /// The weights of the linear part or of the filters.
    Weights,
    /// The biases of the linear part or of the filters.
    Biases,
    /// Whether the biases are added.
    UsesBiases,
    /// The number of features that a layer takes.
    Inputs,
    /// The number of features that a layer puts out.
    Outputs,
    /// What is left of the features once their mean is taken away.
    Centred,
    /// What goes into the normalisation.
    Prenorm,
    /// The weights of the normalisation.
    NormWeights,
    /// The biases of the normalisation.
    NormBiases,
    /// The reciprocals of the standard deviations.
    Deviations,
    /// The kind of normalisation.
    NormMode,
    /// What the dropout starts from.
    Predrop,
    /// What goes into the activation.
    Preact,
    /// Which features the dropout keeps.
    Mask,
    /// The activation.
    ActivationMode,
    /// The slope of the activation for negative values.
    Leak,
    /// Whether features are dropped.
    UsesDropout,
    /// The share of the features that is dropped.
    MaskCoefficient,
    /// The seed of the dropout.
    Seed,
    /// What a network puts out.
    Prediction,
    /// What a network should put out.
    Target,
    /// The weights of the normalisation in full precision.
    FullNormWeights,
    /// The gradient of the outputs.
    OutputSlope,
    /// The gradient of what goes into the normalisation.
    PrenormSlope,
    /// The gradient of the weights of the normalisation.
    NormWeightSlope,
    /// The gradient of the biases of the normalisation.
    NormBiasSlope,
    /// The loss.
    LossMode,
    /// The error of the layer behind.
    ErrorBehind,
    /// The weights of the layer behind, in full precision.
    WeightsBehind,
    /// The number of features that the layer behind puts out.
    OutputsBehind,
    /// The weights in full precision.
    FullWeights,
    /// The biases in full precision.
    FullBiases,
    /// The velocities of the weights.
    WeightVelocity,
    /// The velocities of the biases.
    BiasVelocity,
    /// The momenta of the weights.
    WeightMomentum,
    /// The momenta of the biases.
    BiasMomentum,
    /// The biases of the normalisation in full precision.
    FullNormBiases,
    /// The velocities of the weights of the normalisation.
    NormWeightVelocity,
    /// The velocities of the biases of the normalisation.
    NormBiasVelocity,
    /// The momenta of the weights of the normalisation.
    NormWeightMomentum,
    /// The momenta of the biases of the normalisation.
    NormBiasMomentum,
    /// The learning rate.
    LearningRate,
    /// The bound on the gradients.
    GradientClamp,
    /// The optimiser.
    OptimiserMode,
    /// The optimiser of the normalisation.
    NormOptimiserMode,
    /// The first coefficient of the optimiser.
    FirstBeta,
    /// The second coefficient of the optimiser.
    SecondBeta,
    /// What keeps the optimiser from dividing by zero.
    Epsilon,
    /// Whether the optimiser looks ahead.
    Nesterov,
    /// The first coefficient of the optimiser of the normalisation.
    NormFirstBeta,
    /// The second coefficient of the optimiser of the normalisation.
    NormSecondBeta,
    /// What keeps the optimiser of the normalisation from dividing by zero.
    NormEpsilon,
    /// Whether the optimiser of the normalisation looks ahead.
    NormNesterov,
    /// The kind of regularisation.
    RegularisationMode,
    /// The coefficient of the regularisation.
    RegularisationCoefficient,
    /// The step of the training.
    Step,
    /// The number of channels of the input.
    InputChannels,
    /// The number of channels of the output.
    OutputChannels,
    /// The width of the planes that the windows slide over.
    InputWidth,
    /// The height of the planes that the windows slide over.
    InputHeight,
    /// The width of the planes that come out.
    OutputWidth,
    /// The height of the planes that come out.
    OutputHeight,
    /// The width of a window.
    WindowWidth,
    /// The height of a window.
    WindowHeight,
    /// How far the planes are padded.
    Pad,
    /// What the padding holds.
    PadMode,
    /// The step of the windows along the width.
    StrideX,
    /// The step of the windows along the height.
    StrideY,
    /// The distance of the pixels of a window along the width.
    DilationX,
    /// The distance of the pixels of a window along the height.
    DilationY,
    /// The number of images.
    Images,
    /// What goes into the pooling.
    Prepooling,
    /// The kind of pooling.
    PoolingMode,
    /// The frequencies of the input.
    InputFrequencies,
    /// The frequencies of the filters.
    WeightFrequencies,
    /// The roots of unity.
    Roots,
    /// The width of the transforms.
    TransformWidth,
    /// The height of the transforms.
    TransformHeight,
    /// The frequencies of the output.
    OutputFrequencies,
}

/// The place of a parameter among those of a kernel, if the kernel has it.
pub open spec fn place(kernel: Kernel, param: Param) -> Option<int> {
    match kernel {
        Kernel::CastF32ToF16 | Kernel::CastF16ToF32 => match param {
            Param::Source => Some(0),
            Param::Destination => Some(1),
            Param::Length => Some(2),
            _ => None,
        },
        Kernel::Broadcast => match param {
            Param::Destination => Some(0),
            Param::Value => Some(1),
            Param::Length => Some(2),
            _ => None,
        },
        Kernel::Gemm => match param {
            Param::Left => Some(0),
            Param::Right => Some(1),
            Param::Output => Some(2),
            Param::Rows => Some(3),
            Param::Inner => Some(4),
            Param::Columns => Some(5),
            Param::TileSide => Some(6),
            _ => None,
        },
        Kernel::Geam => match param {
            Param::Left => Some(0),
            Param::Right => Some(1),
            Param::Output => Some(2),
            Param::Rows => Some(3),
            Param::Columns => Some(4),
            _ => None,
        },
        Kernel::ForwardPass0 => match param {
            Param::Output => Some(0),
            Param::Input => Some(1),
            Param::Weights => Some(2),
            Param::Biases => Some(3),
            Param::UsesBiases => Some(4),
            Param::Rows => Some(5),
            Param::Inputs => Some(6),
            Param::Outputs => Some(7),
            Param::TileSide => Some(8),
            _ => None,
        },
        Kernel::ForwardPass1 => match param {
            Param::Output => Some(0),
            Param::Centred => Some(1),
            Param::Prenorm => Some(2),
            Param::NormWeights => Some(3),
            Param::NormBiases => Some(4),
            Param::Deviations => Some(5),
            Param::Rows => Some(6),
            Param::Outputs => Some(7),
            Param::NormMode => Some(8),
            _ => None,
        },
        Kernel::ForwardPass2 => match param {
            Param::Output => Some(0),
            Param::Predrop => Some(1),
            Param::Preact => Some(2),
            Param::Mask => Some(3),
            Param::Rows => Some(4),
            Param::Outputs => Some(5),
            Param::ActivationMode => Some(6),
            Param::Leak => Some(7),
            Param::UsesDropout => Some(8),
            Param::MaskCoefficient => Some(9),
            Param::Seed => Some(10),
            _ => None,
        },
        Kernel::Softmax => match param {
            Param::Output => Some(0),
            Param::Rows => Some(1),
            Param::Columns => Some(2),
            _ => None,
        },
        Kernel::ComputeOutputLayerError => match param {
            Param::Prediction => Some(0),
            Param::Preact => Some(1),
            Param::Target => Some(2),
            Param::FullNormWeights => Some(3),
            Param::OutputSlope => Some(4),
            Param::PrenormSlope => Some(5),
            Param::NormWeightSlope => Some(6),
            Param::NormBiasSlope => Some(7),
            Param::Deviations => Some(8),
            Param::Centred => Some(9),
            Param::Prenorm => Some(10),
            Param::Rows => Some(11),
            Param::Outputs => Some(12),
            Param::LossMode => Some(13),
            Param::NormMode => Some(14),
            Param::ActivationMode => Some(15),
            Param::Leak => Some(16),
            _ => None,
        },
        Kernel::ComputeHiddenLayerError => match param {
            Param::ErrorBehind => Some(0),
            Param::WeightsBehind => Some(1),
            Param::FullNormWeights => Some(2),
            Param::OutputSlope => Some(3),
            Param::PrenormSlope => Some(4),
            Param::NormWeightSlope => Some(5),
            Param::NormBiasSlope => Some(6),
            Param::Deviations => Some(7),
            Param::Centred => Some(8),
            Param::Prenorm => Some(9),
            Param::Predrop => Some(10),
            Param::Preact => Some(11),
            Param::Mask => Some(12),
            Param::Rows => Some(13),
            Param::Outputs => Some(14),
            Param::OutputsBehind => Some(15),
            Param::NormMode => Some(16),
            Param::ActivationMode => Some(17),
            Param::Leak => Some(18),
            _ => None,
        },
        Kernel::BackwardPass => match param {
            Param::Input => Some(0),
            Param::Weights => Some(1),
            Param::Biases => Some(2),
            Param::FullWeights => Some(3),
            Param::FullBiases => Some(4),
            Param::PrenormSlope => Some(5),
            Param::WeightVelocity => Some(6),
            Param::BiasVelocity => Some(7),
            Param::WeightMomentum => Some(8),
            Param::BiasMomentum => Some(9),
            Param::NormWeights => Some(10),
            Param::NormBiases => Some(11),
            Param::FullNormWeights => Some(12),
            Param::FullNormBiases => Some(13),
            Param::NormWeightSlope => Some(14),
            Param::NormBiasSlope => Some(15),
            Param::NormWeightVelocity => Some(16),
            Param::NormBiasVelocity => Some(17),
            Param::NormWeightMomentum => Some(18),
            Param::NormBiasMomentum => Some(19),
            Param::UsesBiases => Some(20),
            Param::NormMode => Some(21),
            Param::Rows => Some(22),
            Param::Outputs => Some(23),
            Param::Inputs => Some(24),
            Param::LearningRate => Some(25),
            Param::GradientClamp => Some(26),
            Param::OptimiserMode => Some(27),
            Param::NormOptimiserMode => Some(28),
            Param::FirstBeta => Some(29),
            Param::SecondBeta => Some(30),
            Param::Epsilon => Some(31),
            Param::Nesterov => Some(32),
            Param::NormFirstBeta => Some(33),
            Param::NormSecondBeta => Some(34),
            Param::NormEpsilon => Some(35),
            Param::NormNesterov => Some(36),
            Param::RegularisationMode => Some(37),
            Param::RegularisationCoefficient => Some(38),
            Param::Step => Some(39),
            _ => None,
        },
        Kernel::ConvForwardPass0 => match param {
            Param::Output => Some(0),
            Param::Input => Some(1),
            Param::Weights => Some(2),
            Param::Biases => Some(3),
            Param::UsesBiases => Some(4),
            Param::InputChannels => Some(5),
            Param::OutputChannels => Some(6),
            Param::InputWidth => Some(7),
            Param::InputHeight => Some(8),
            Param::OutputWidth => Some(9),
            Param::OutputHeight => Some(10),
            Param::WindowWidth => Some(11),
            Param::WindowHeight => Some(12),
            Param::Pad => Some(13),
            Param::PadMode => Some(14),
            Param::StrideX => Some(15),
            Param::StrideY => Some(16),
            Param::DilationX => Some(17),
            Param::DilationY => Some(18),
            _ => None,
        },
        Kernel::ConvForwardPass1 => match param {
            Param::Output => Some(0),
            Param::Centred => Some(1),
            Param::Prenorm => Some(2),
            Param::NormWeights => Some(3),
            Param::NormBiases => Some(4),
            Param::Deviations => Some(5),
            Param::OutputWidth => Some(6),
            Param::OutputHeight => Some(7),
            Param::OutputChannels => Some(8),
            Param::Images => Some(9),
            Param::NormMode => Some(10),
            _ => None,
        },
        Kernel::ConvForwardPass2 => match param {
            Param::Output => Some(0),
            Param::Predrop => Some(1),
            Param::Prepooling => Some(2),
            Param::Preact => Some(3),
            Param::Mask => Some(4),
            Param::UsesDropout => Some(5),
            Param::PoolingMode => Some(6),
            Param::OutputChannels => Some(7),
            Param::InputWidth => Some(8),
            Param::InputHeight => Some(9),
            Param::OutputWidth => Some(10),
            Param::OutputHeight => Some(11),
            Param::WindowWidth => Some(12),
            Param::WindowHeight => Some(13),
            Param::Pad => Some(14),
            Param::PadMode => Some(15),
            Param::StrideX => Some(16),
            Param::StrideY => Some(17),
            Param::DilationX => Some(18),
            Param::DilationY => Some(19),
            Param::ActivationMode => Some(20),
            Param::Leak => Some(21),
            Param::MaskCoefficient => Some(22),
            Param::Seed => Some(23),
            _ => None,
        },
        Kernel::ConvFftRowTransform => match param {
            Param::InputFrequencies => Some(0),
            Param::WeightFrequencies => Some(1),
            Param::Roots => Some(2),
            Param::Input => Some(3),
            Param::Weights => Some(4),
            Param::Images => Some(5),
            Param::InputChannels => Some(6),
            Param::InputWidth => Some(7),
            Param::InputHeight => Some(8),
            Param::TransformWidth => Some(9),
            Param::TransformHeight => Some(10),
            Param::WindowWidth => Some(11),
            Param::WindowHeight => Some(12),
            Param::Pad => Some(13),
            Param::PadMode => Some(14),
            Param::DilationX => Some(15),
            Param::DilationY => Some(16),
            _ => None,
        },
        Kernel::ConvFftColTransform => match param {
            Param::InputFrequencies => Some(0),
            Param::WeightFrequencies => Some(1),
            Param::Roots => Some(2),
            Param::Images => Some(3),
            Param::InputChannels => Some(4),
            Param::TransformWidth => Some(5),
            Param::TransformHeight => Some(6),
            _ => None,
        },
        Kernel::ConvElemMulIfftRow => match param {
            Param::InputFrequencies => Some(0),
            Param::WeightFrequencies => Some(1),
            Param::OutputFrequencies => Some(2),
            Param::Roots => Some(3),
            Param::OutputChannels => Some(4),
            Param::InputChannels => Some(5),
            Param::TransformWidth => Some(6),
            Param::TransformHeight => Some(7),
            _ => None,
        },
        Kernel::ConvIfftColTransform => match param {
            Param::Output => Some(0),
            Param::OutputFrequencies => Some(1),
            Param::Roots => Some(2),
            Param::Biases => Some(3),
            Param::UsesBiases => Some(4),
            Param::OutputChannels => Some(5),
            Param::TransformWidth => Some(6),
            Param::TransformHeight => Some(7),
            Param::OutputWidth => Some(8),
            Param::OutputHeight => Some(9),
            Param::StrideX => Some(10),
            Param::StrideY => Some(11),
            _ => None,
        },
    }
}

/// The number of parameters of a kernel.
pub open spec fn arity(kernel: Kernel) -> nat {
    match kernel {
        Kernel::CastF32ToF16 => 3,
        Kernel::CastF16ToF32 => 3,
        Kernel::Broadcast => 3,
        Kernel::Gemm => 7,
        Kernel::Geam => 5,
        Kernel::ForwardPass0 => 9,
        Kernel::ForwardPass1 => 9,
        Kernel::ForwardPass2 => 11,
        Kernel::Softmax => 3,
        Kernel::ComputeOutputLayerError => 17,
        Kernel::ComputeHiddenLayerError => 19,
        Kernel::BackwardPass => 40,
        Kernel::ConvForwardPass0 => 19,
        Kernel::ConvForwardPass1 => 11,
        Kernel::ConvForwardPass2 => 24,
        Kernel::ConvFftRowTransform => 17,
        Kernel::ConvFftColTransform => 7,
        Kernel::ConvElemMulIfftRow => 8,
        Kernel::ConvIfftColTransform => 12,
    }
}

/// Two parameters of a kernel have different places, all of which lie below its number of parameters.
pub proof fn law_places_are_taken_once(kernel: Kernel, a: Param, b: Param)
    ensures
        place(kernel, a) matches Some(i) ==> 0 <= i < arity(kernel),
        place(kernel, a) is Some && place(kernel, a) == place(kernel, b) ==> a == b,
{
}

/// What a kernel is handed for a parameter.
pub open spec fn handed(kernel: Kernel, args: Seq<KernelArg>, param: Param) -> KernelArg {
    args[place(kernel, param)->0]
}

/// The tensor that a kernel is handed for a parameter.
pub open spec fn tensor(kernel: Kernel, args: Seq<KernelArg>, param: Param) -> usize {
    handed(kernel, args, param)->Tensor_0
}

/// The whole number that a kernel is handed for a parameter.
pub open spec fn count(kernel: Kernel, args: Seq<KernelArg>, param: Param) -> int {
    match handed(kernel, args, param) {
        KernelArg::U32(x) => x as int,
        KernelArg::I32(x) => x as int,
        KernelArg::Usize(x) => x as int,
        _ => -1,
    }
}

/// Whether a kernel is told yes for a parameter.
pub open spec fn yes(kernel: Kernel, args: Seq<KernelArg>, param: Param) -> bool {
    count(kernel, args, param) != 0
}

/// The number that a kernel is handed for a parameter.
pub open spec fn number(kernel: Kernel, args: Seq<KernelArg>, param: Param) -> F32 {
    handed(kernel, args, param)->Real_0
}

/// What an argument is made of.
pub enum Kind {
    Buffer,
    Unsigned,
    Signed,
    Address,
    Number,
    Scalar,
}

/// What an argument is made of.
pub open spec fn kind_of(arg: KernelArg) -> Kind {
    match arg {
        KernelArg::Tensor(_) => Kind::Buffer,
        KernelArg::U32(_) => Kind::Unsigned,
        KernelArg::I32(_) => Kind::Signed,
        KernelArg::Usize(_) => Kind::Address,
        KernelArg::Real(_) => Kind::Number,
        KernelArg::Scalar { .. } => Kind::Scalar,
    }
}

/// What the parameters of a kernel are made of, in their order.
pub open spec fn kinds(kernel: Kernel) -> Seq<Kind> {
    match kernel {
        Kernel::CastF32ToF16 | Kernel::CastF16ToF32 => seq![
            Kind::Buffer,
            Kind::Buffer,
            Kind::Unsigned,
        ],
        Kernel::Broadcast => seq![
            Kind::Buffer,
            Kind::Scalar,
            Kind::Unsigned,
        ],
        Kernel::Gemm => seq![
            Kind::Buffer,
            Kind::Buffer,
            Kind::Buffer,
            Kind::Address,
            Kind::Address,
            Kind::Address,
            Kind::Unsigned,
        ],
        Kernel::Geam => seq![
            Kind::Buffer,
            Kind::Buffer,
            Kind::Buffer,
            Kind::Address,
            Kind::Address,
        ],
        Kernel::ForwardPass0 => seq![
            Kind::Buffer,
            Kind::Buffer,
            Kind::Buffer,
            Kind::Buffer,
            Kind::Unsigned,
            Kind::Unsigned,
            Kind::Unsigned,
            Kind::Unsigned,
            Kind::Unsigned,
        ],
        Kernel::ForwardPass1 => seq![
            Kind::Buffer,
            Kind::Buffer,
            Kind::Buffer,
            Kind::Buffer,
            Kind::Buffer,
            Kind::Buffer,
            Kind::Unsigned,
            Kind::Unsigned,
            Kind::Unsigned,
        ],
        Kernel::ForwardPass2 => seq![
            Kind::Buffer,
            Kind::Buffer,
            Kind::Buffer,
            Kind::Buffer,
            Kind::Unsigned,
            Kind::Unsigned,
            Kind::Unsigned,
            Kind::Number,
            Kind::Unsigned,
            Kind::Number,
            Kind::Unsigned,
        ],
        Kernel::Softmax => seq![
            Kind::Buffer,
            Kind::Unsigned,
            Kind::Unsigned,
        ],
        Kernel::ComputeOutputLayerError => seq![
            Kind::Buffer,
            Kind::Buffer,
            Kind::Buffer,
            Kind::Buffer,
            Kind::Buffer,
            Kind::Buffer,
            Kind::Buffer,
            Kind::Buffer,
            Kind::Buffer,
            Kind::Buffer,
            Kind::Buffer,
            Kind::Unsigned,
            Kind::Unsigned,
            Kind::Unsigned,
            Kind::Unsigned,
            Kind::Unsigned,
            Kind::Number,
        ],
        Kernel::ComputeHiddenLayerError => seq![
            Kind::Buffer,
            Kind::Buffer,
            Kind::Buffer,
            Kind::Buffer,
            Kind::Buffer,
            Kind::Buffer,
            Kind::Buffer,
            Kind::Buffer,
            Kind::Buffer,
            Kind::Buffer,
            Kind::Buffer,
            Kind::Buffer,
            Kind::Buffer,
            Kind::Unsigned,
            Kind::Unsigned,
            Kind::Unsigned,
            Kind::Unsigned,
            Kind::Unsigned,
            Kind::Number,
        ],
        Kernel::BackwardPass => seq![
            Kind::Buffer,
            Kind::Buffer,
            Kind::Buffer,
            Kind::Buffer,
            Kind::Buffer,
            Kind::Buffer,
            Kind::Buffer,
            Kind::Buffer,
            Kind::Buffer,
            Kind::Buffer,
            Kind::Buffer,
            Kind::Buffer,
            Kind::Buffer,
            Kind::Buffer,
            Kind::Buffer,
            Kind::Buffer,
            Kind::Buffer,
            Kind::Buffer,
            Kind::Buffer,
            Kind::Buffer,
            Kind::Unsigned,
            Kind::Unsigned,
            Kind::Unsigned,
            Kind::Unsigned,
            Kind::Unsigned,
            Kind::Number,
            Kind::Number,
            Kind::Unsigned,
            Kind::Unsigned,
            Kind::Number,
            Kind::Number,
            Kind::Number,
            Kind::Signed,
            Kind::Number,
            Kind::Number,
            Kind::Number,
            Kind::Signed,
            Kind::Unsigned,
            Kind::Number,
            Kind::Unsigned,
        ],
        Kernel::ConvForwardPass0 => seq![
            Kind::Buffer,
            Kind::Buffer,
            Kind::Buffer,
            Kind::Buffer,
            Kind::Unsigned,
            Kind::Unsigned,
            Kind::Unsigned,
            Kind::Unsigned,
            Kind::Unsigned,
            Kind::Unsigned,
            Kind::Unsigned,
            Kind::Unsigned,
            Kind::Unsigned,
            Kind::Unsigned,
            Kind::Unsigned,
            Kind::Unsigned,
            Kind::Unsigned,
            Kind::Unsigned,
            Kind::Unsigned,
        ],
        Kernel::ConvForwardPass1 => seq![
            Kind::Buffer,
            Kind::Buffer,
            Kind::Buffer,
            Kind::Buffer,
            Kind::Buffer,
            Kind::Buffer,
            Kind::Unsigned,
            Kind::Unsigned,
            Kind::Unsigned,
            Kind::Address,
            Kind::Unsigned,
        ],
        Kernel::ConvForwardPass2 => seq![
            Kind::Buffer,
            Kind::Buffer,
            Kind::Buffer,
            Kind::Buffer,
            Kind::Buffer,
            Kind::Unsigned,
            Kind::Unsigned,
            Kind::Unsigned,
            Kind::Unsigned,
            Kind::Unsigned,
            Kind::Unsigned,
            Kind::Unsigned,
            Kind::Unsigned,
            Kind::Unsigned,
            Kind::Unsigned,
            Kind::Unsigned,
            Kind::Unsigned,
            Kind::Unsigned,
            Kind::Unsigned,
            Kind::Unsigned,
            Kind::Unsigned,
            Kind::Number,
            Kind::Number,
            Kind::Unsigned,
        ],
        Kernel::ConvFftRowTransform => seq![
            Kind::Buffer,
            Kind::Buffer,
            Kind::Buffer,
            Kind::Buffer,
            Kind::Buffer,
            Kind::Unsigned,
            Kind::Unsigned,
            Kind::Unsigned,
            Kind::Unsigned,
            Kind::Unsigned,
            Kind::Unsigned,
            Kind::Unsigned,
            Kind::Unsigned,
            Kind::Unsigned,
            Kind::Unsigned,
            Kind::Unsigned,
            Kind::Unsigned,
        ],
        Kernel::ConvFftColTransform => seq![
            Kind::Buffer,
            Kind::Buffer,
            Kind::Buffer,
            Kind::Unsigned,
            Kind::Unsigned,
            Kind::Unsigned,
            Kind::Unsigned,
        ],
        Kernel::ConvElemMulIfftRow => seq![
            Kind::Buffer,
            Kind::Buffer,
            Kind::Buffer,
            Kind::Buffer,
            Kind::Unsigned,
            Kind::Unsigned,
            Kind::Unsigned,
            Kind::Unsigned,
        ],
        Kernel::ConvIfftColTransform => seq![
            Kind::Buffer,
            Kind::Buffer,
            Kind::Buffer,
            Kind::Buffer,
            Kind::Unsigned,
            Kind::Unsigned,
            Kind::Unsigned,
            Kind::Unsigned,
            Kind::Unsigned,
            Kind::Unsigned,
            Kind::Unsigned,
            Kind::Unsigned,
        ],
    }
}

/// A launch hands a kernel as many arguments as it takes, each one made of what the kernel expects
/// at its place.
pub open spec fn is_well_typed(op: OpView) -> bool {
    op is Launch ==> {
        &&& op->args.len() == kinds(op->kernel).len()
        &&& op->args.len() == arity(op->kernel)
        &&& forall|i: int|
            0 <= i < op->args.len() ==> kind_of(#[trigger] op->args[i]) == kinds(op->kernel)[i]
    }
}

/// An operation launches a kernel.
pub open spec fn launches(op: OpView, kernel: Kernel) -> bool {
    op is Launch && op->kernel == kernel
}

} // verus!
