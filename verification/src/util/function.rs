//! What a layer can be told to do: activations, normalisations, optimisers, losses, and the
//! windows of a convolution.

use vstd::arithmetic::div_mod::{lemma_div_is_ordered, lemma_div_pos_is_pos};
use vstd::prelude::*;

use crate::util::log::{invalid_configuration, refusal, Error, ErrorView};
use crate::util::precision::F32;

verus! {

/// Regularisation is applied right before the optimiser.
#[derive(Debug, Clone, Copy, PartialEq, Eq, Structural)]
#[allow(inconsistent_fields)]
pub enum Regularisation {
    /// No regularisation is used.
    Disabled,
    /// L1 Regularisation (Lasso). This adds a penalty proportional to the absolute value of the
    /// weights in order to drive less important weights directly into `0.0`, which creates a
    /// simpler and sparser model.
    ///
    /// The derivative formula is `w[i] -= L * sign(w[i])`.
    ///
    /// `L` is the regularisation coefficient.
    L1Regular { regu_coeff: F32 },
    /// L2 Regularisation (Ridge). This adds a penalty proportional to the squared values of the
    /// weights, reducing them close to `0.0` without completely eliminating them. This is to
    /// prevent overfitting.
    ///
    /// The derivative formula is `w[i] -= 2 * L * w[i]`.
    ///
    /// `L` is the regularisation coefficient.
    L2Regular { regu_coeff: F32 },
}

impl Regularisation {
    /// The number by which the kernels know the regularisation.
    pub open spec fn mode(self) -> usize {
        match self {
            Regularisation::Disabled => 0,
            Regularisation::L1Regular { .. } => 1,
            Regularisation::L2Regular { .. } => 2,
        }
    }

    /// The regularisation coefficient, zero where there is none.
    pub open spec fn coefficient(self) -> F32 {
        match self {
            Regularisation::Disabled => F32 { bits: 0 },
            Regularisation::L1Regular { regu_coeff } => regu_coeff,
            Regularisation::L2Regular { regu_coeff } => regu_coeff,
        }
    }

    /// IMPORTANT: 0 is for NO regularisation.
    pub fn ordinal(&self) -> (r: usize)
        ensures
            r == self.mode(),
    {
        match self {
            Regularisation::Disabled => 0,
            Regularisation::L1Regular { .. } => 1,
            Regularisation::L2Regular { .. } => 2,
        }
    }

    /// The regularisation coefficient, zero where there is none.
    pub(crate) fn get_coeff(&self) -> (r: F32)
        ensures
            r == self.coefficient(),
    {
        match self {
            Regularisation::Disabled => F32 { bits: 0 },
            Regularisation::L1Regular { regu_coeff } => *regu_coeff,
            Regularisation::L2Regular { regu_coeff } => *regu_coeff,
        }
    }
}

/// Normalization methods used to scale hidden layer activations. They
/// improve training stability and convergence efficiency.
#[derive(Debug, Clone, Copy, PartialEq, Eq, Structural)]
pub enum Normalisation {
    /// Features pass without normalisation.
    Disabled,
    /// Scales activations by their root-mean-square.
    ///
    /// Applied across the feature dimension for each sample independently.
    RMSNorm,
    /// Scales activations by their mean and variance.
    ///
    /// Applied across the feature dimension for each sample independently.
    LayerNorm,
    /// Scales activations across the entire batch dimension. For BatchNorm, linear biases are
    /// not considered i.e. removed from calculation due to the linear bias being eliminated from
    /// the mathematical formula.
    ///
    /// Applied to each individual feature independently across all samples in a batch.
    BatchNorm,
}

impl Normalisation {
    /// The number by which the kernels know the normalisation.
    pub open spec fn mode(self) -> usize {
        match self {
            Normalisation::Disabled => 0,
            Normalisation::RMSNorm => 1,
            Normalisation::LayerNorm => 2,
            Normalisation::BatchNorm => 3,
        }
    }

    /// IMPORTANT: 0 is for NO normalisation.
    pub fn ordinal(&self) -> (r: usize)
        ensures
            r == self.mode(),
    {
        match self {
            Normalisation::Disabled => 0,
            Normalisation::RMSNorm => 1,
            Normalisation::LayerNorm => 2,
            Normalisation::BatchNorm => 3,
        }
    }
}

/// The parameters of an optimiser, as the kernels take them.
#[derive(Debug, Clone, Copy, PartialEq, Eq, Structural)]
pub struct OptimiserInfo {
    pub beta1: F32,
    pub beta2: F32,
    pub epsilon: F32,
    pub nesterov: i32,
}

/// Optimisers are rules that dictate how weights and biases are updated.
#[derive(Debug, Clone, Copy, PartialEq, Eq, Structural)]
#[allow(inconsistent_fields)]
pub enum Optimiser {
    /// The optimiser that updates model parameters by taking a single step in the
    /// exact opposite direction of the current batch's gradient, scaled by a learning rate.
    ///
    /// # Parameters
    /// * `v_coeff` - The amount of 'friction' on the momentum. If set to `0.0`,
    ///   momentum is turned off and no data for momentum will be stored.
    /// * `nesterov` - If set to true, uses Nesterov Accelerated Gradient.
    SGD { v_coeff: F32, nesterov: bool },
    /// Adaptive optimisation algorithm that speeds up training by calculating
    /// unique learning rates for individual parameters based on a running combination of
    /// their average gradient direction (momentum) and their gradient variance (scaling factor).
    ///
    /// # Parameters
    /// * `m_coeff` - The amount of 'friction' on the momentum.
    /// * `v_coeff` - Controls how quickly past gradient magnitudes adapt.
    /// * `epsilon` - A very small value to prevent zero division.
    Adam { m_coeff: F32, v_coeff: F32, epsilon: F32 },
}

impl Optimiser {
    /// The number by which the kernels know the optimiser.
    pub open spec fn mode(self) -> usize {
        match self {
            Optimiser::SGD { .. } => 0,
            Optimiser::Adam { .. } => 1,
        }
    }

    /// The parameters, as the kernels take them: what an optimiser does not have is zero.
    pub open spec fn info(self) -> OptimiserInfo {
        match self {
            Optimiser::SGD { v_coeff, nesterov } => OptimiserInfo {
                beta1: v_coeff,
                beta2: F32 { bits: 0 },
                epsilon: F32 { bits: 0 },
                nesterov: if nesterov {
                    1
                } else {
                    0
                },
            },
            Optimiser::Adam { m_coeff, v_coeff, epsilon } => OptimiserInfo {
                beta1: m_coeff,
                beta2: v_coeff,
                epsilon,
                nesterov: 0,
            },
        }
    }

    /// The number by which the kernels know the optimiser.
    pub fn ordinal(&self) -> (r: usize)
        ensures
            r == self.mode(),
    {
        match self {
            Optimiser::SGD { .. } => 0,
            Optimiser::Adam { .. } => 1,
        }
    }

    /// The parameters, as the kernels take them.
    pub(crate) fn extract_info(&self) -> (r: OptimiserInfo)
        ensures
            r == self.info(),
    {
        match self {
            Optimiser::SGD { v_coeff, nesterov } => OptimiserInfo {
                beta1: *v_coeff,
                beta2: F32 { bits: 0 },
                epsilon: F32 { bits: 0 },
                nesterov: if *nesterov {
                    1
                } else {
                    0
                },
            },
            Optimiser::Adam { m_coeff, v_coeff, epsilon } => OptimiserInfo {
                beta1: *m_coeff,
                beta2: *v_coeff,
                epsilon: *epsilon,
                nesterov: 0,
            },
        }
    }
}

/// Supported mathematical activation functions.
#[derive(Debug, Clone, Copy, PartialEq, Eq, Structural)]
pub enum Activation {
    /// All values pass through normally.
    Identity,
    /// Squeezes any real-valued input into a smooth, continuous range between **0.0 and 1.0**.
    Sigmoid,
    /// Passes positive values through completely unchanged, while mapping all negative values
    /// strictly to **0.0**.
    ///
    /// Recommended to use He initialisations.
    ReLU,
    /// Passes positive values through completely unchanged, while multiplying all negative values
    /// by `coeff`.
    ///
    /// Recommended to use He initialisations.
    ///
    /// # Parameters
    /// * `coeff` - LeakyReLU negative coefficient (`coeff * x`).
    LeakyReLU { coeff: F32 },
    /// Squeezes any real-valued input into a smooth, continuous range between **-1.0 and 1.0**.
    Tanh,
    /// Converts the logits into a probability distribution, ensuring all outputs range between
    /// '0.0' and '1.0' (inclusive) and sum up to exactly '1.0'.
    Softmax,
    /// Multiplies the input by its own sigmoid value to create a smooth, non-monotonic variant of
    /// ReLU that avoids dying neurons.
    /// Recommended to use Xavier initialisations and a lower learning rate.
    SiLU,
    /// Multiplies the input by the hyperbolic tangent of its softplus transformation, offering a
    /// deeply smooth negative pocket for advanced gradient flow.
    /// Recommended to use Xavier initialisations and a lower learning rate.
    Mish,
}

impl Activation {
    /// The number by which the kernels know the activation.
    pub open spec fn mode(self) -> usize {
        match self {
            Activation::Identity => 0,
            Activation::Sigmoid => 1,
            Activation::ReLU => 2,
            Activation::LeakyReLU { .. } => 3,
            Activation::Tanh => 4,
            Activation::Softmax => 5,
            Activation::SiLU => 6,
            Activation::Mish => 7,
        }
    }

    /// The slope of negative values, zero where the activation has none.
    pub open spec fn leak(self) -> F32 {
        match self {
            Activation::LeakyReLU { coeff } => coeff,
            _ => F32 { bits: 0 },
        }
    }

    /// The number by which the kernels know the activation.
    pub fn ordinal(&self) -> (r: usize)
        ensures
            r == self.mode(),
    {
        match self {
            Activation::Identity => 0,
            Activation::Sigmoid => 1,
            Activation::ReLU => 2,
            Activation::LeakyReLU { .. } => 3,
            Activation::Tanh => 4,
            Activation::Softmax => 5,
            Activation::SiLU => 6,
            Activation::Mish => 7,
        }
    }

    /// The slope of negative values, zero where the activation has none.
    pub(crate) fn leaky_coeff(&self) -> (r: F32)
        ensures
            r == self.leak(),
    {
        match self {
            Activation::LeakyReLU { coeff } => *coeff,
            _ => F32 { bits: 0 },
        }
    }
}

/// Supported error calculation functions.
#[derive(Debug, Clone, Copy, PartialEq, Eq, Structural)]
pub enum LossFunc {
    /// Cannot be paired with softmax. (`1/2N * (target - output)^2`)
    MeanSquareLoss,
    /// Can only be paired with softmax.
    CrossEntropyLoss,
    /// Can only be paired with sigmoid
    BinaryCrossEntropy,
}

impl LossFunc {
    /// The number by which the kernels know the loss.
    pub open spec fn mode(self) -> u32 {
        match self {
            LossFunc::MeanSquareLoss => 0,
            LossFunc::CrossEntropyLoss => 1,
            LossFunc::BinaryCrossEntropy => 2,
        }
    }

    /// The loss works on the outcome of an activation.
    pub open spec fn pairs_with(self, activation: Activation) -> bool {
        match self {
            LossFunc::MeanSquareLoss => activation != Activation::Softmax,
            LossFunc::CrossEntropyLoss => activation == Activation::Softmax,
            LossFunc::BinaryCrossEntropy => activation == Activation::Sigmoid,
        }
    }

    /// The number by which the kernels know the loss.
    pub(crate) fn ordinal(&self) -> (r: u32)
        ensures
            r == self.mode(),
    {
        match self {
            LossFunc::MeanSquareLoss => 0,
            LossFunc::CrossEntropyLoss => 1,
            LossFunc::BinaryCrossEntropy => 2,
        }
    }
}

/// How several pixels become one.
#[derive(Debug, Clone, Copy, PartialEq, Eq, Structural)]
pub enum PoolingType {
    /// The largest pixel of a window stays.
    MaxPooling,
}

/// The number by which the kernels know a kind of pooling. 0 is for NO pooling.
pub open spec fn pooling_mode(pooling: Option<PoolingType>) -> usize {
    match pooling {
        None => 0,
        Some(PoolingType::MaxPooling) => 1,
    }
}

/// The number by which the kernels know a kind of pooling.
///
/// IMPORTANT: 0 is for NO pooling.
pub(crate) fn pooling_ordinal(pooling: Option<PoolingType>) -> (r: usize)
    ensures
        r == pooling_mode(pooling),
{
    match pooling {
        None => 0,
        Some(PoolingType::MaxPooling) => 1,
    }
}

/// What lies beyond the edge of an image.
#[derive(Debug, Clone, Copy, PartialEq, Eq, Structural)]
pub enum PaddingType {
    /// Padding is filled with `0`s.
    ///
    /// `0 0 | A B C | 0 0`
    ZeroPadding,
    /// Padding pixels are a mirror image of the pixels inside the edge.
    ///
    /// `C B | A B C | B A`
    ReflectivePadding,
    /// Takes the very last pixel on the edge and repeats it outwards indefinitely.
    ///
    /// `A A | A B C | C C`
    ReplicatePadding,
}

impl PaddingType {
    /// The number by which the kernels know the padding.
    pub open spec fn mode(self) -> usize {
        match self {
            PaddingType::ZeroPadding => 0,
            PaddingType::ReflectivePadding => 1,
            PaddingType::ReplicatePadding => 2,
        }
    }

    /// The number by which the kernels know the padding.
    pub fn ordinal(&self) -> (r: usize)
        ensures
            r == self.mode(),
    {
        match self {
            PaddingType::ZeroPadding => 0,
            PaddingType::ReflectivePadding => 1,
            PaddingType::ReplicatePadding => 2,
        }
    }
}

/// How a convolution was told to work.
#[derive(Debug, Clone, Copy, PartialEq, Eq, Structural)]
pub enum ConvAlgorithm {
    /// Slide the filter over the image.
    Spatial,
    /// Multiply the frequencies of the filter and the image.
    FrequencyFFT,
}

/// Different choices have different numbers, whatever their parameters, and zero stands for
/// nothing being done.
pub proof fn law_modes_are_distinct(
    n1: Normalisation,
    n2: Normalisation,
    g1: Regularisation,
    g2: Regularisation,
    a1: Activation,
    a2: Activation,
    l1: LossFunc,
    l2: LossFunc,
    p1: PaddingType,
    p2: PaddingType,
    q1: Option<PoolingType>,
    q2: Option<PoolingType>,
)
    ensures
        n1.mode() == n2.mode() <==> n1 == n2,
        n1.mode() == 0 <==> n1 == Normalisation::Disabled,
        g1.mode() == g2.mode() && g1.coefficient() == g2.coefficient() <==> g1 == g2,
        g1.mode() == 0 <==> g1 == Regularisation::Disabled,
        a1.mode() == a2.mode() && a1.leak() == a2.leak() <==> a1 == a2,
        a1.mode() == 0 <==> a1 == Activation::Identity,
        l1.mode() == l2.mode() <==> l1 == l2,
        p1.mode() == p2.mode() <==> p1 == p2,
        pooling_mode(q1) == pooling_mode(q2) <==> q1 == q2,
        pooling_mode(q1) == 0 <==> q1 is None,
{
    if q1 is Some && q2 is Some {
        assert(q1->0 == PoolingType::MaxPooling && q2->0 == PoolingType::MaxPooling);
    }
}

/// The kernels can tell any two optimisers apart.
pub proof fn law_optimisers_are_distinct(o1: Optimiser, o2: Optimiser)
    ensures
        o1.mode() == o2.mode() && o1.info() == o2.info() <==> o1 == o2,
{
}

/// The number of windows that a sliding filter has on a line, each one `stride` behind the one
/// before it: the last of them ends within the line.
pub open spec fn window_count(padded: int, size: int, stride: int) -> int {
    if padded < size {
        0
    } else {
        (padded - size) / stride + 1
    }
}

/// A window is counted exactly if it ends within the line.
pub proof fn law_windows_end_within(padded: int, size: int, stride: int, i: int)
    requires
        0 < stride,
        0 <= i,
    ensures
        i < window_count(padded, size, stride) <==> i * stride + size <= padded,
{
    if padded < size {
        assert(0 <= i * stride) by (nonlinear_arith)
            requires
                0 < stride,
                0 <= i,
        ;
    } else {
        let room = padded - size;
        let whole = room / stride;
        let rest = room % stride;
        assert(room == whole * stride + rest && 0 <= rest < stride) by (nonlinear_arith)
            requires
                0 < stride,
                whole == room / stride,
                rest == room % stride,
        ;
        assert(i <= whole <==> i * stride <= room) by (nonlinear_arith)
            requires
                room == whole * stride + rest,
                0 <= rest < stride,
        ;
    }
}

/// The number of steps of `stride` that it takes to walk a line from end to end.
pub open spec fn step_count(len: int, stride: int) -> int {
    (len + stride - 1) / stride
}

/// The steps are the length divided by the stride, rounded up: one step fewer would leave the end
/// of the line untouched.
pub proof fn law_steps_reach_the_end(len: int, stride: int)
    requires
        0 < stride,
        0 <= len,
    ensures
        len <= step_count(len, stride) * stride < len + stride,
{
    let n = len + stride - 1;
    let q = n / stride;
    let r = n % stride;
    assert(n == q * stride + r && 0 <= r < stride) by (nonlinear_arith)
        requires
            0 < stride,
            q == n / stride,
            r == n % stride,
    ;
}

/// The span of a filter whose elements are `dilation` apart.
pub open spec fn dilated(size: int, dilation: int) -> int {
    (size - 1) * dilation + 1
}

/// The windows of a filter or of a pooling stage.
#[derive(Debug, Clone, Copy)]
pub struct KernelConfig {
    pub dimension: (usize, usize),
    pub pad: usize,
    pub auto_pad: bool,
    pub pad_type: PaddingType,
    pub stride: (usize, usize),
    pub dilation: (usize, usize),
}

/// Why windows make no sense.
pub open spec fn kernel_refusal(
    dimension: (usize, usize),
    stride: (usize, usize),
    dilation: (usize, usize),
) -> Option<ErrorView> {
    if dimension.0 == 0 {
        Some(ErrorView::InvalidConfiguration { reason: "Kernel width cannot be 0."@ })
    } else if dimension.1 == 0 {
        Some(ErrorView::InvalidConfiguration { reason: "Kernel height cannot be 0."@ })
    } else if stride.0 == 0 || stride.1 == 0 {
        Some(ErrorView::InvalidConfiguration { reason: "Kernel stride cannot be 0."@ })
    } else if dilation.0 == 0 || dilation.1 == 0 {
        Some(ErrorView::InvalidConfiguration { reason: "Kernel dilation cannot be 0."@ })
    } else {
        None
    }
}

impl KernelConfig {
    /// The windows are not empty, and they move.
    pub open spec fn wf(&self) -> bool {
        kernel_refusal(self.dimension, self.stride, self.dilation) is None
    }

    /// The windows leave data between them out.
    pub open spec fn skips_data(&self) -> bool {
        self.stride.0 > self.dimension.0 || self.stride.1 > self.dimension.1
    }

    /// The span of a window.
    pub open spec fn span(&self) -> (int, int) {
        (
            dilated(self.dimension.0 as int, self.dilation.0 as int),
            dilated(self.dimension.1 as int, self.dilation.1 as int),
        )
    }

    /// How many windows lie side by side on an input, along its width and along its height.
    pub open spec fn elements(&self, len: (int, int)) -> (int, int) {
        if self.auto_pad {
            (
                step_count(len.0, self.stride.0 as int),
                step_count(len.1, self.stride.1 as int),
            )
        } else {
            (
                window_count(len.0 + 2 * self.pad, self.span().0, self.stride.0 as int),
                window_count(len.1 + 2 * self.pad, self.span().1, self.stride.1 as int),
            )
        }
    }

    /// The windows on an input can be counted without running past the largest address.
    pub open spec fn measures(&self, len: (int, int)) -> bool {
        if self.auto_pad {
            len.0 + self.stride.0 <= usize::MAX && len.1 + self.stride.1 <= usize::MAX
        } else {
            &&& len.0 + 2 * self.pad <= usize::MAX
            &&& len.1 + 2 * self.pad <= usize::MAX
            &&& self.span().0 <= usize::MAX
            &&& self.span().1 <= usize::MAX
        }
    }

    /// Creates a manual padding configuration where an explicit number of zero-filled rows
    /// and columns are symmetrically appended to all outer boundaries of the input tensor.
    ///
    /// # Arguments
    /// * `dimension` - Spatial width (`dimension.0`) and height (`dimension.1`) of each kernel.
    /// * `pad` - The number of padding layers to apply symmetrically along both spatial dimensions
    ///   (width and height).
    /// * `pad_type` - The type of padding to use. See [`PaddingType`].
    /// * `stride` - Discrete step increment for the sliding window.
    ///   `stride.0` represents the x-axis (width) while `stride.1` represents the y-axis (height).
    /// * `dilation` - The spacing between kernel elements, inserting `dilation - 1` spaces in
    ///   between.
    pub fn new(
        dimension: (usize, usize),
        pad: usize,
        pad_type: PaddingType,
        stride: (usize, usize),
        dilation: (usize, usize),
    ) -> (r: Result<Self, Error>)
        ensures
            refusal(r) == kernel_refusal(dimension, stride, dilation),
            r matches Ok(cfg) ==> cfg.wf() && cfg == (KernelConfig {
                dimension,
                pad,
                auto_pad: false,
                pad_type,
                stride,
                dilation,
            }),
    {
        if dimension.0 == 0 {
            return Err(invalid_configuration("Kernel width cannot be 0."));
        }
        if dimension.1 == 0 {
            return Err(invalid_configuration("Kernel height cannot be 0."));
        }
        if stride.0 == 0 || stride.1 == 0 {
            return Err(invalid_configuration("Kernel stride cannot be 0."));
        }
        if dilation.0 == 0 || dilation.1 == 0 {
            return Err(invalid_configuration("Kernel dilation cannot be 0."));
        }
        Ok(Self { dimension, pad, auto_pad: false, pad_type, stride, dilation })
    }

    /// Creates an automatic padding configuration that dynamically computes the required
    /// padding size at execution time, ensuring that the filter covers all spatial boundary
    /// elements and the output dimensions are ceiling-divided by the stride value.
    pub fn auto_pad(
        dimension: (usize, usize),
        pad_type: PaddingType,
        stride: (usize, usize),
        dilation: (usize, usize),
    ) -> (r: Result<Self, Error>)
        ensures
            refusal(r) == kernel_refusal(dimension, stride, dilation),
            r matches Ok(cfg) ==> cfg.wf() && cfg == (KernelConfig {
                dimension,
                pad: 0,
                auto_pad: true,
                pad_type,
                stride,
                dilation,
            }),
    {
        let mut cfg = Self::new(dimension, 0, pad_type, stride, dilation)?;
        cfg.auto_pad = true;
        Ok(cfg)
    }

    /// Whether the windows leave data between them out. Worth a warning.
    pub fn ignores_data(&self) -> (r: bool)
        ensures
            r == self.skips_data(),
    {
        self.stride.0 > self.dimension.0 || self.stride.1 > self.dimension.1
    }

    /// The width and height of each kernel.
    pub fn get_dimension(&self) -> (r: &(usize, usize))
        ensures
            *r == self.dimension,
    {
        &self.dimension
    }

    /// The number of padding layers.
    pub fn get_pad(&self) -> (r: usize)
        ensures
            r == self.pad,
    {
        self.pad
    }

    /// The type of padding.
    pub fn get_pad_type(&self) -> (r: &PaddingType)
        ensures
            *r == self.pad_type,
    {
        &self.pad_type
    }

    /// The step of the sliding window.
    pub fn get_stride(&self) -> (r: &(usize, usize))
        ensures
            *r == self.stride,
    {
        &self.stride
    }

    /// The spacing between kernel elements.
    pub fn get_dilation(&self) -> (r: &(usize, usize))
        ensures
            *r == self.dilation,
    {
        &self.dilation
    }

    /// How much padding an automatic configuration adds to an input along its width and along its
    /// height: the least with which the windows of all outputs, dilation and all, end within the
    /// padded input. A manual configuration adds none.
    pub fn auto_pad_val(&self, dim: &(usize, usize)) -> (r: (usize, usize))
        requires
            self.wf(),
            self.auto_pad ==> {
                &&& self.measures((dim.0 as int, dim.1 as int))
                &&& 0 < dim.0
                &&& 0 < dim.1
                &&& self.reach((dim.0 as int, dim.1 as int)).0 <= usize::MAX
                &&& self.reach((dim.0 as int, dim.1 as int)).1 <= usize::MAX
            },
        ensures
            !self.auto_pad ==> r == (0usize, 0usize),
            self.auto_pad ==> {
                let missing = self.missing((dim.0 as int, dim.1 as int));
                r.0 == missing.0 && r.1 == missing.1
            },
    {
        if self.auto_pad {
            proof {
                law_steps_reach_the_end(dim.0 as int, self.stride.0 as int);
                law_steps_reach_the_end(dim.1 as int, self.stride.1 as int);
            }
            let out = self.elements_from_length(dim);
            assert(0 < out.0 && 0 <= (out.0 - 1) * self.stride.0) by (nonlinear_arith)
                requires
                    0 < dim.0 <= out.0 * self.stride.0,
                    0 <= out.0,
                    0 < self.stride.0,
            ;
            assert(0 < out.1 && 0 <= (out.1 - 1) * self.stride.1) by (nonlinear_arith)
                requires
                    0 < dim.1 <= out.1 * self.stride.1,
                    0 <= out.1,
                    0 < self.stride.1,
            ;
            let needed_w: usize = (out.0 - 1) * self.stride.0 + self.actual_width();
            let pad_w: usize = if needed_w > dim.0 {
                needed_w - dim.0
            } else {
                0
            };
            let needed_h: usize = (out.1 - 1) * self.stride.1 + self.actual_height();
            let pad_h: usize = if needed_h > dim.1 {
                needed_h - dim.1
            } else {
                0
            };
            (pad_w, pad_h)
        } else {
            (0, 0)
        }
    }

    /// Where the window of the last output of an automatic configuration ends.
    pub open spec fn reach(&self, dim: (int, int)) -> (int, int) {
        let out = self.elements(dim);
        (
            (out.0 - 1) * self.stride.0 + self.span().0,
            (out.1 - 1) * self.stride.1 + self.span().1,
        )
    }

    /// How far the windows of an automatic configuration reach out of an input.
    pub open spec fn missing(&self, dim: (int, int)) -> (int, int) {
        let reach = self.reach(dim);
        (
            if reach.0 > dim.0 {
                reach.0 - dim.0
            } else {
                0
            },
            if reach.1 > dim.1 {
                reach.1 - dim.1
            } else {
                0
            },
        )
    }

    /// The span of a window along the width.
    pub fn actual_width(&self) -> (r: usize)
        requires
            self.wf(),
            self.span().0 <= usize::MAX,
        ensures
            r == self.span().0,
    {
        assert(0 <= (self.dimension.0 - 1) * self.dilation.0) by (nonlinear_arith)
            requires
                0 < self.dimension.0,
        ;
        (self.dimension.0 - 1) * self.dilation.0 + 1
    }

    /// The span of a window along the height.
    pub fn actual_height(&self) -> (r: usize)
        requires
            self.wf(),
            self.span().1 <= usize::MAX,
        ensures
            r == self.span().1,
    {
        assert(0 <= (self.dimension.1 - 1) * self.dilation.1) by (nonlinear_arith)
            requires
                0 < self.dimension.1,
        ;
        (self.dimension.1 - 1) * self.dilation.1 + 1
    }

    /// How many windows lie on an input, along its width and along its height.
    ///
    /// # Arguments
    /// * `len` - The dimension of the input (spatial width, spatial height).
    pub fn elements_from_length(&self, len: &(usize, usize)) -> (r: (usize, usize))
        requires
            self.wf(),
            self.measures((len.0 as int, len.1 as int)),
        ensures
            r.0 == self.elements((len.0 as int, len.1 as int)).0,
            r.1 == self.elements((len.0 as int, len.1 as int)).1,
    {
        if self.auto_pad {
            ((len.0 + self.stride.0 - 1) / self.stride.0, (len.1 + self.stride.1 - 1)
                / self.stride.1)
        } else {
            let padded_len_x: usize = len.0 + 2 * self.pad;
            let padded_len_y: usize = len.1 + 2 * self.pad;
            let size_x: usize = self.actual_width();
            let size_y: usize = self.actual_height();
            proof {
                lemma_span_is_positive(self);
                lemma_quotient_bound((padded_len_x - size_x) as int, self.stride.0 as int);
                lemma_quotient_bound((padded_len_y - size_y) as int, self.stride.1 as int);
            }
            let elems_x: usize = if padded_len_x < size_x {
                0
            } else {
                ((padded_len_x - size_x) / self.stride.0) + 1
            };
            let elems_y: usize = if padded_len_y < size_y {
                0
            } else {
                ((padded_len_y - size_y) / self.stride.1) + 1
            };
            (elems_x, elems_y)
        }
    }
}

/// A window spans at least one element.
proof fn lemma_span_is_positive(cfg: &KernelConfig)
    requires
        cfg.wf(),
    ensures
        1 <= cfg.span().0,
        1 <= cfg.span().1,
{
    assert(0 <= (cfg.dimension.0 - 1) * cfg.dilation.0) by (nonlinear_arith)
        requires
            0 < cfg.dimension.0,
    ;
    assert(0 <= (cfg.dimension.1 - 1) * cfg.dilation.1) by (nonlinear_arith)
        requires
            0 < cfg.dimension.1,
    ;
}

/// A quotient is no larger than what is divided.
proof fn lemma_quotient_bound(a: int, d: int)
    requires
        0 < d,
    ensures
        0 <= a ==> a / d <= a,
{
    assert(0 <= a ==> a / d <= a) by (nonlinear_arith)
        requires
            0 < d,
    ;
}

/// A smaller input has no more windows: what is reserved for the largest input is enough for every
/// other one.
pub proof fn law_smaller_inputs_have_fewer_windows(cfg: KernelConfig, a: (int, int), b: (int, int))
    requires
        cfg.wf(),
        0 <= a.0 <= b.0,
        0 <= a.1 <= b.1,
    ensures
        0 <= cfg.elements(a).0 <= cfg.elements(b).0,
        0 <= cfg.elements(a).1 <= cfg.elements(b).1,
{
    let (x, y) = (cfg.stride.0 as int, cfg.stride.1 as int);
    if cfg.auto_pad {
        lemma_quotient_grows(a.0 + x - 1, b.0 + x - 1, x);
        lemma_quotient_grows(a.1 + y - 1, b.1 + y - 1, y);
    } else {
        let (w, h) = cfg.span();
        let pad = 2 * cfg.pad;
        if a.0 + pad >= w {
            lemma_quotient_grows(a.0 + pad - w, b.0 + pad - w, x);
        } else if b.0 + pad >= w {
            lemma_quotient_grows(0, b.0 + pad - w, x);
        }
        if a.1 + pad >= h {
            lemma_quotient_grows(a.1 + pad - h, b.1 + pad - h, y);
        } else if b.1 + pad >= h {
            lemma_quotient_grows(0, b.1 + pad - h, y);
        }
    }
}

/// A larger number has no smaller quotient.
proof fn lemma_quotient_grows(a: int, b: int, d: int)
    requires
        0 <= a <= b,
        0 < d,
    ensures
        0 <= a / d <= b / d,
{
    lemma_div_is_ordered(a, b, d);
    lemma_div_pos_is_pos(a, d);
}

/// With automatic padding, the outputs are the input divided by the stride, rounded up; the windows
/// of all of them end within the padded input, and no smaller padding is enough.
pub proof fn law_auto_pad_covers(cfg: KernelConfig, dim: (int, int), i: (int, int), pad: (int, int))
    requires
        cfg.wf(),
        cfg.auto_pad,
        0 < dim.0,
        0 < dim.1,
        0 <= i.0 < cfg.elements(dim).0,
        0 <= i.1 < cfg.elements(dim).1,
        0 <= pad.0,
        0 <= pad.1,
    ensures
        dim.0 <= cfg.elements(dim).0 * cfg.stride.0 < dim.0 + cfg.stride.0,
        dim.1 <= cfg.elements(dim).1 * cfg.stride.1 < dim.1 + cfg.stride.1,
        i.0 * cfg.stride.0 + cfg.span().0 <= dim.0 + cfg.missing(dim).0,
        i.1 * cfg.stride.1 + cfg.span().1 <= dim.1 + cfg.missing(dim).1,
        cfg.reach(dim).0 <= dim.0 + pad.0 <==> cfg.missing(dim).0 <= pad.0,
        cfg.reach(dim).1 <= dim.1 + pad.1 <==> cfg.missing(dim).1 <= pad.1,
{
    law_steps_reach_the_end(dim.0, cfg.stride.0 as int);
    law_steps_reach_the_end(dim.1, cfg.stride.1 as int);
    let (last_x, last_y) = (cfg.elements(dim).0 - 1, cfg.elements(dim).1 - 1);
    assert(i.0 * cfg.stride.0 <= last_x * cfg.stride.0) by (nonlinear_arith)
        requires
            i.0 <= last_x,
    ;
    assert(i.1 * cfg.stride.1 <= last_y * cfg.stride.1) by (nonlinear_arith)
        requires
            i.1 <= last_y,
    ;
}

/// The windows of a manual configuration are those that end within the padded input, along the width
/// and along the height each: the one at place `i` starts `i` strides behind the padding in front,
/// and its pixels are a dilation apart.
pub proof fn law_windows_fit_on_the_padded_input(cfg: KernelConfig, dim: (int, int), i: int)
    requires
        cfg.wf(),
        !cfg.auto_pad,
        0 <= i,
    ensures
        i < cfg.elements(dim).0 <==> i * cfg.stride.0 + (cfg.dimension.0 - 1) * cfg.dilation.0 + 1
            <= dim.0 + 2 * cfg.pad,
        i < cfg.elements(dim).1 <==> i * cfg.stride.1 + (cfg.dimension.1 - 1) * cfg.dilation.1 + 1
            <= dim.1 + 2 * cfg.pad,
{
    law_windows_end_within(dim.0 + 2 * cfg.pad, cfg.span().0, cfg.stride.0 as int, i);
    law_windows_end_within(dim.1 + 2 * cfg.pad, cfg.span().1, cfg.stride.1 as int, i);
}

} // verus!
