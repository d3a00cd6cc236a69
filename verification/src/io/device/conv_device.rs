//! The passes through a convolutional layer, as work for the device.

use vstd::prelude::*;

use crate::conv::{ConvBlock, ConvView, FftBuffers};
use crate::io::device::ffn_device::{
    buffer, done, flag, flag_arg, refused, run, size, too_wide, Outcome,
};
use crate::io::device::{
    lemma_then_run, line_launch, tile_area, tileable, volume_launch, GpuContext, Kernel, KernelArg,
    LaunchConfig, OpView,
};
use crate::util::function::{
    pooling_mode, pooling_ordinal, Activation, ConvAlgorithm, KernelConfig, LossFunc,
    Normalisation, PaddingType,
};
use crate::util::log::{refusal, to_u32, Error, ErrorView};
use crate::util::precision::{Precision, PrecisionType};
use crate::util::tensor::{scramble_seed, scrambled_seed, Tensor4D, TensorView};

verus! {

/// The width and height of a tensor.
pub open spec fn plane(t: TensorView) -> (int, int) {
    (t.shape[3] as int, t.shape[2] as int)
}

/// The side of the part of an input that one tile of outputs looks at: the windows of the first
/// output and of the last one, and what lies between them.
pub open spec fn tile_side(tile_dim: u32, stride: int, span: int) -> int {
    (tile_dim - 1) * stride + span
}

/// The windows of a pooling stage that does nothing: one pixel each.
pub open spec fn single_pixels() -> KernelConfig {
    KernelConfig {
        dimension: (1, 1),
        pad: 0,
        auto_pad: false,
        pad_type: PaddingType::ZeroPadding,
        stride: (1, 1),
        dilation: (1, 1),
    }
}

/// The windows of the pooling stage of a layer.
pub open spec fn pooling_windows(layer: ConvView) -> KernelConfig {
    match layer.pooling {
        Some(cfg) => cfg,
        None => single_pixels(),
    }
}

/// The sizes that the kernels take of the windows of a stage.
pub open spec fn window_sizes(dimension: (usize, usize), cfg: KernelConfig) -> Seq<usize> {
    seq![
        dimension.0,
        dimension.1,
        cfg.pad,
        cfg.stride.0,
        cfg.stride.1,
        cfg.dilation.0,
        cfg.dilation.1,
    ]
}

/// The windows of a stage, as arguments.
pub open spec fn window_args(dimension: (usize, usize), cfg: KernelConfig) -> Seq<KernelArg> {
    seq![
        size(dimension.0),
        size(dimension.1),
        size(cfg.pad),
        size(cfg.pad_type.mode()),
        size(cfg.stride.0),
        size(cfg.stride.1),
        size(cfg.dilation.0),
        size(cfg.dilation.1),
    ]
}

/// How many outputs the filters of a layer have on an input.
pub open spec fn filtered(layer: ConvView, input: TensorView) -> (usize, usize) {
    let out = layer.filter.elements(plane(input));
    (out.0 as usize, out.1 as usize)
}

/// How many outputs the pooling stage of a layer has behind its filters.
pub open spec fn pooled(layer: ConvView, input: TensorView) -> (usize, usize) {
    let from = filtered(layer, input);
    let out = pooling_windows(layer).elements((from.0 as int, from.1 as int));
    (out.0 as usize, out.1 as usize)
}

/// The sizes of an input.
pub open spec fn input_sizes(input: TensorView) -> Seq<usize> {
    seq![input.shape[0], input.shape[1], input.shape[3], input.shape[2]]
}

/// The width and height of the filters of a layer.
pub open spec fn filter_size(layer: ConvView) -> (usize, usize) {
    (layer.weights.shape[3], layer.weights.shape[2])
}

/// Every size that the filters of a layer hand to a kernel.
pub open spec fn filter_sizes(layer: ConvView, input: TensorView, output: TensorView) -> Seq<
    usize,
> {
    let out = filtered(layer, input);
    input_sizes(input) + seq![out.0, out.1, output.shape[1]] + window_sizes(
        filter_size(layer),
        layer.filter,
    )
}

/// Work over a volume is refused: a size, a span of the windows or the number of planes does not
/// fit in 32 bits.
pub open spec fn volume_refusal(sizes: Seq<usize>, span: (int, int), planes: int) -> Option<
    ErrorView,
> {
    if too_wide(sizes) is Some || span.0 > u32::MAX || span.1 > u32::MAX || planes > u32::MAX {
        Some(ErrorView::IntConversion)
    } else {
        None
    }
}

/// The part of the inputs that a tile looks at can be worked out in 32 bits, up to the size that
/// does not fit.
pub open spec fn tile_fits(
    tile_dim: u32,
    precision: Precision,
    cfg: KernelConfig,
    extra: int,
) -> bool {
    let h = tile_side(tile_dim, cfg.stride.1 as int, cfg.span().1);
    let w = tile_side(tile_dim, cfg.stride.0 as int, cfg.span().0) + extra;
    &&& cfg.span().1 <= usize::MAX
    &&& (tile_dim - 1) * cfg.stride.1 <= u32::MAX
    &&& cfg.span().1 <= u32::MAX ==> {
        &&& h <= u32::MAX
        &&& cfg.span().0 <= usize::MAX
        &&& (tile_dim - 1) * cfg.stride.0 <= u32::MAX
        &&& cfg.span().0 <= u32::MAX ==> {
            &&& w <= u32::MAX
            &&& w * h <= u32::MAX
            &&& w * h * precision.width() <= u32::MAX
        }
    }
}

/// The filters of a layer, slid over an input.
pub open spec fn spatial_filters(
    tile_dim: u32,
    precision: Precision,
    layer: ConvView,
    input: TensorView,
    output: TensorView,
) -> Outcome {
    let out = filtered(layer, input);
    match volume_refusal(
        filter_sizes(layer, input, output),
        layer.filter.span(),
        input.shape[0] * output.shape[1],
    ) {
        Some(e) => refused(e),
        None => done(
            run(
                Kernel::ConvForwardPass0,
                precision,
                seq![
                    buffer(output),
                    buffer(input),
                    buffer(layer.weights),
                    buffer(layer.biases),
                    flag(layer.config.normalisation != Normalisation::BatchNorm),
                    size(input.shape[1]),
                    size(output.shape[1]),
                    size(input.shape[3]),
                    size(input.shape[2]),
                    size(out.0),
                    size(out.1),
                ] + window_args(filter_size(layer), layer.filter),
                volume_launch(
                    tile_dim,
                    input.shape[0] as int,
                    output.shape[1] as int,
                    out.1 as int,
                    out.0 as int,
                    (tile_side(tile_dim, layer.filter.stride.0 as int, layer.filter.span().0)
                        * tile_side(tile_dim, layer.filter.stride.1 as int, layer.filter.span().1)
                        * precision.width()) as u32,
                ),
            ),
        ),
    }
}

/// What the filters of a layer need to be slid over an input.
pub open spec fn spatial_ready(
    tile_dim: u32,
    precision: Precision,
    layer: ConvView,
    input: TensorView,
    output: TensorView,
) -> bool {
    &&& too_wide(input_sizes(input)) is None ==> layer.filter.measures(plane(input))
    &&& too_wide(filter_sizes(layer, input, output)) is None ==> {
        &&& tile_fits(tile_dim, precision, layer.filter, 0)
        &&& tileable(filtered(layer, input).0 as int, tile_dim as int)
        &&& tileable(filtered(layer, input).1 as int, tile_dim as int)
        &&& input.shape[0] * output.shape[1] <= usize::MAX
    }
}

/// The number of bytes of a complex number.
pub const COMPLEX_BYTES: u32 = 8;

/// The filters of a layer, by way of the frequencies: the rows and the columns of the input and of
/// the filters are transformed, the frequencies are multiplied, and the product is transformed
/// back.
pub open spec fn frequency_filters(
    tile_dim: u32,
    precision: Precision,
    layer: ConvView,
    input: TensorView,
    output: TensorView,
    fft: FftBuffers,
) -> Outcome {
    let out = filtered(layer, input);
    let (n, ic, oc) = (input.shape[0] as int, input.shape[1] as int, output.shape[1] as int);
    let (ow, oh) = (fft.size.0, fft.size.1);
    match too_wide(filter_sizes(layer, input, output) + seq![ow, oh]) {
        Some(e) => refused(e),
        None => done(
            seq![
                OpView::Launch {
                    kernel: Kernel::ConvFftRowTransform,
                    precision,
                    args: seq![
                        KernelArg::Tensor(fft.input.tensor),
                        KernelArg::Tensor(fft.weights.tensor),
                        KernelArg::Tensor(fft.twiddle_width.tensor),
                        buffer(input),
                        buffer(layer.weights),
                        size(input.shape[0]),
                        size(input.shape[1]),
                        size(input.shape[3]),
                        size(input.shape[2]),
                        size(ow),
                        size(oh),
                        size(filter_size(layer).0),
                        size(filter_size(layer).1),
                        size(layer.filter.pad),
                        size(layer.filter.pad_type.mode()),
                        size(layer.filter.dilation.0),
                        size(layer.filter.dilation.1),
                    ],
                    config: line_launch(
                        tile_dim,
                        (n + oc) * ic * oh,
                        (ow * COMPLEX_BYTES) as u32,
                    ),
                },
                OpView::Launch {
                    kernel: Kernel::ConvFftColTransform,
                    precision,
                    args: seq![
                        KernelArg::Tensor(fft.input.tensor),
                        KernelArg::Tensor(fft.weights.tensor),
                        KernelArg::Tensor(fft.twiddle_height.tensor),
                        size(input.shape[0]),
                        size(input.shape[1]),
                        size(ow),
                        size(oh),
                    ],
                    config: line_launch(
                        tile_dim,
                        (n + oc) * ic * ow,
                        (oh * COMPLEX_BYTES) as u32,
                    ),
                },
                OpView::Launch {
                    kernel: Kernel::ConvElemMulIfftRow,
                    precision,
                    args: seq![
                        KernelArg::Tensor(fft.input.tensor),
                        KernelArg::Tensor(fft.weights.tensor),
                        KernelArg::Tensor(fft.output.tensor),
                        KernelArg::Tensor(fft.twiddle_width.tensor),
                        size(output.shape[1]),
                        size(input.shape[1]),
                        size(ow),
                        size(oh),
                    ],
                    config: line_launch(tile_dim, n * oc * oh, (ow * COMPLEX_BYTES) as u32),
                },
                OpView::Launch {
                    kernel: Kernel::ConvIfftColTransform,
                    precision,
                    args: seq![
                        buffer(output),
                        KernelArg::Tensor(fft.output.tensor),
                        KernelArg::Tensor(fft.twiddle_height.tensor),
                        buffer(layer.biases),
                        flag(layer.config.normalisation != Normalisation::BatchNorm),
                        size(output.shape[1]),
                        size(ow),
                        size(oh),
                        size(out.0),
                        size(out.1),
                        size(layer.filter.stride.0),
                        size(layer.filter.stride.1),
                    ],
                    config: line_launch(
                        tile_dim,
                        n * oc * out.0,
                        (oh * COMPLEX_BYTES) as u32,
                    ),
                },
            ],
        ),
    }
}

/// What the filters of a layer need to go by way of the frequencies: the sizes of the grids fit in
/// 32 bits.
pub open spec fn frequency_ready(
    layer: ConvView,
    input: TensorView,
    output: TensorView,
    fft: FftBuffers,
) -> bool {
    let out = filtered(layer, input);
    let (n, ic, oc) = (input.shape[0] as int, input.shape[1] as int, output.shape[1] as int);
    let (ow, oh) = (fft.size.0, fft.size.1);
    &&& too_wide(input_sizes(input)) is None ==> layer.filter.measures(plane(input))
    &&& too_wide(filter_sizes(layer, input, output) + seq![ow, oh]) is None ==> {
        &&& (n + oc) * ic <= u32::MAX
        &&& (n + oc) * ic * oh <= u32::MAX
        &&& (n + oc) * ic * ow <= u32::MAX
        &&& n + oc <= u32::MAX
        &&& n * oc <= u32::MAX
        &&& n * oc * oh <= u32::MAX
        &&& n * oc * out.0 <= u32::MAX
        &&& ow * COMPLEX_BYTES <= u32::MAX
        &&& oh * COMPLEX_BYTES <= u32::MAX
    }
}

/// The normalisation behind the filters: one block for each channel of a batch normalisation, one
/// for each image otherwise.
pub open spec fn conv_norm_part(
    tile_dim: u32,
    precision: Precision,
    layer: ConvView,
    input: TensorView,
    output: TensorView,
    batch_size: usize,
) -> Outcome {
    let out = filtered(layer, input);
    let norm = layer.config.normalisation;
    let grid = if norm == Normalisation::BatchNorm {
        output.shape[1]
    } else {
        batch_size
    };
    match too_wide(seq![out.0, out.1, output.shape[1], grid]) {
        Some(e) => refused(e),
        None => done(
            run(
                Kernel::ConvForwardPass1,
                precision,
                seq![
                    buffer(output),
                    buffer(layer.norm->0.centered_features),
                    buffer(layer.norm->0.prenorm_features),
                    buffer(layer.norm->0.norm_weights),
                    buffer(layer.norm->0.norm_biases),
                    buffer(layer.norm->0.norm_rstd),
                    size(out.0),
                    size(out.1),
                    size(output.shape[1]),
                    KernelArg::Usize(batch_size),
                    size(norm.mode()),
                ],
                line_launch(tile_dim, grid as int, (tile_area(tile_dim) * 4) as u32),
            ),
        ),
    }
}

/// Every size that the last stage of a layer hands to a kernel before its outputs are counted.
pub open spec fn stage_sizes(layer: ConvView, input: TensorView, step: usize) -> Seq<usize> {
    let from = filtered(layer, input);
    seq![step, layer.weights.id, input.shape[0], from.0, from.1]
}

/// Every size that the last stage of a layer hands to a kernel.
pub open spec fn pooling_sizes(layer: ConvView, input: TensorView, step: usize) -> Seq<usize> {
    let out = pooled(layer, input);
    stage_sizes(layer, input, step) + seq![out.0, out.1, layer.cache.features.shape[1]]
        + window_sizes(pooling_windows(layer).dimension, pooling_windows(layer))
}

/// One more element where the rows of a tile would otherwise all start in the same memory bank.
pub open spec fn bank_padding(width: int) -> int {
    if width % 32 == 0 {
        1
    } else {
        0
    }
}

/// The activation, the pooling and the dropout of a layer.
pub open spec fn pooling_part(
    tile_dim: u32,
    precision: Precision,
    layer: ConvView,
    input: TensorView,
    use_dropout: bool,
    step: usize,
) -> Outcome {
    let windows = pooling_windows(layer);
    let from = filtered(layer, input);
    let out = pooled(layer, input);
    let act = layer.config.activation;
    let channels = layer.cache.features.shape[1];
    let width = tile_side(tile_dim, windows.stride.0 as int, windows.span().0);
    match volume_refusal(
        pooling_sizes(layer, input, step),
        windows.span(),
        input.shape[0] * channels,
    ) {
        Some(e) => refused(e),
        None => done(
            run(
                Kernel::ConvForwardPass2,
                precision,
                seq![
                    buffer(layer.cache.features),
                    buffer(layer.cache.predrop_features),
                    buffer(layer.cache.prepooling_features),
                    buffer(layer.cache.preact_features),
                    buffer(layer.mask),
                    flag(use_dropout),
                    size(pooling_mode(layer.pooling_type)),
                    size(channels),
                    size(from.0),
                    size(from.1),
                    size(out.0),
                    size(out.1),
                ] + window_args(windows.dimension, windows) + seq![
                    size(act.mode()),
                    KernelArg::Real(act.leak()),
                    KernelArg::Real(layer.config.mask_coeff),
                    KernelArg::U32(scrambled_seed(step as u32, layer.weights.id as u32)),
                ],
                volume_launch(
                    tile_dim,
                    input.shape[0] as int,
                    channels as int,
                    out.1 as int,
                    out.0 as int,
                    ((width + bank_padding(width)) * tile_side(
                        tile_dim,
                        windows.stride.1 as int,
                        windows.span().1,
                    ) * precision.width()) as u32,
                ),
            ),
        ),
    }
}

/// What the last stage of a layer needs.
pub open spec fn pooling_ready(
    tile_dim: u32,
    precision: Precision,
    layer: ConvView,
    input: TensorView,
    step: usize,
) -> bool {
    let windows = pooling_windows(layer);
    let from = filtered(layer, input);
    let out = pooled(layer, input);
    let channels = layer.cache.features.shape[1];
    let width = tile_side(tile_dim, windows.stride.0 as int, windows.span().0);
    &&& too_wide(stage_sizes(layer, input, step)) is None ==> windows.measures(
        (from.0 as int, from.1 as int),
    )
    &&& too_wide(pooling_sizes(layer, input, step)) is None ==> {
        &&& tile_fits(tile_dim, precision, windows, bank_padding(width))
        &&& tileable(out.0 as int, tile_dim as int)
        &&& tileable(out.1 as int, tile_dim as int)
        &&& input.shape[0] * channels <= usize::MAX
    }
}

/// The last stage of a layer has something to do.
pub open spec fn has_last_stage(layer: ConvView, use_dropout: bool) -> bool {
    layer.config.activation != Activation::Identity || layer.pooling is Some || use_dropout
}

/// Where the normalisation of a layer puts its outcome, or its filters where it has none.
pub open spec fn stage_output(layer: ConvView, use_dropout: bool) -> TensorView {
    if has_last_stage(layer, use_dropout) {
        layer.cache.preact_features
    } else {
        layer.cache.features
    }
}

/// Where the filters of a layer put their outcome.
pub open spec fn filter_output(layer: ConvView, use_dropout: bool) -> TensorView {
    if layer.config.normalisation != Normalisation::Disabled {
        layer.norm->0.prenorm_features
    } else {
        stage_output(layer, use_dropout)
    }
}

/// The filters of a layer.
pub open spec fn filter_part(
    tile_dim: u32,
    precision: Precision,
    layer: ConvView,
    input: TensorView,
    use_dropout: bool,
) -> Outcome {
    let output = filter_output(layer, use_dropout);
    match layer.algorithm {
        ConvAlgorithm::Spatial => spatial_filters(tile_dim, precision, layer, input, output),
        ConvAlgorithm::FrequencyFFT => frequency_filters(
            tile_dim,
            precision,
            layer,
            input,
            output,
            layer.fft->0,
        ),
    }
}

/// A forward pass: the filters, the normalisation where there is one, and the last stage where it
/// has something to do.
pub open spec fn conv_forward_pass(
    tile_dim: u32,
    precision: Precision,
    layer: ConvView,
    input: TensorView,
    batch_size: usize,
    use_dropout: bool,
    step: usize,
) -> Outcome {
    filter_part(tile_dim, precision, layer, input, use_dropout).and_next(
        if layer.config.normalisation != Normalisation::Disabled {
            conv_norm_part(
                tile_dim,
                precision,
                layer,
                input,
                stage_output(layer, use_dropout),
                batch_size,
            )
        } else {
            done(seq![])
        },
    ).and_next(
        if has_last_stage(layer, use_dropout) {
            pooling_part(tile_dim, precision, layer, input, use_dropout, step)
        } else {
            done(seq![])
        },
    )
}

/// What a forward pass needs: buffers for the frequencies where they are used, windows that can be
/// counted, and grids that can be worked out in 32 bits.
pub open spec fn conv_forward_ready(
    tile_dim: u32,
    precision: Precision,
    layer: ConvView,
    input: TensorView,
    use_dropout: bool,
    step: usize,
) -> bool {
    let output = filter_output(layer, use_dropout);
    &&& layer.algorithm == ConvAlgorithm::Spatial ==> spatial_ready(
        tile_dim,
        precision,
        layer,
        input,
        output,
    )
    &&& layer.algorithm == ConvAlgorithm::FrequencyFFT ==> layer.fft is Some && frequency_ready(
        layer,
        input,
        output,
        layer.fft->0,
    )
    &&& filter_part(tile_dim, precision, layer, input, use_dropout).refused is None ==> {
        &&& layer.config.normalisation != Normalisation::Disabled ==> tile_area(tile_dim) * 4
            <= u32::MAX
        &&& has_last_stage(layer, use_dropout) ==> pooling_ready(
            tile_dim,
            precision,
            layer,
            input,
            step,
        )
    }
}

/// The error of an output layer: the softmax over each image where the loss wants it.
pub open spec fn conv_output_error(
    tile_dim: u32,
    precision: Precision,
    layer: ConvView,
    activation: Activation,
) -> Outcome {
    let out = layer.cache.features;
    let softmax = activation == Activation::Softmax;
    let pixels = out.shape[1] * out.shape[3] * out.shape[2];
    if out.shape[0] > u32::MAX || (softmax && pixels > u32::MAX) {
        refused(ErrorView::IntConversion)
    } else if softmax {
        done(
            run(
                Kernel::Softmax,
                precision,
                seq![buffer(out), size(out.shape[0]), KernelArg::U32(pixels as u32)],
                line_launch(tile_dim, out.shape[0] as int, 0),
            ),
        )
    } else {
        done(seq![])
    }
}

/// The sizes of the windows of a stage, in 32 bits.
#[derive(Clone, Copy)]
struct Windows {
    width: u32,
    height: u32,
    pad: u32,
    pad_mode: u32,
    stride_x: u32,
    stride_y: u32,
    dilation_x: u32,
    dilation_y: u32,
}

impl Windows {
    /// The sizes of the windows of a stage are these.
    spec fn of(self, dimension: (usize, usize), cfg: KernelConfig) -> bool {
        &&& self.width == dimension.0
        &&& self.height == dimension.1
        &&& self.pad == cfg.pad
        &&& self.pad_mode == cfg.pad_type.mode()
        &&& self.stride_x == cfg.stride.0
        &&& self.stride_y == cfg.stride.1
        &&& self.dilation_x == cfg.dilation.0
        &&& self.dilation_y == cfg.dilation.1
    }
}

/// Narrows the sizes of the windows of a stage to 32 bits.
fn narrow_windows(dimension: (usize, usize), cfg: &KernelConfig) -> (r: Result<Windows, Error>)
    ensures
        refusal(r) == too_wide(window_sizes(dimension, *cfg)),
        r matches Ok(w) ==> w.of(dimension, *cfg),
{
    let ghost sizes = window_sizes(dimension, *cfg);
    proof {
        assert(sizes[0] == dimension.0 && sizes[1] == dimension.1 && sizes[2] == cfg.pad && sizes[3]
            == cfg.stride.0 && sizes[4] == cfg.stride.1 && sizes[5] == cfg.dilation.0 && sizes[6]
            == cfg.dilation.1);
    }
    let width: u32 = to_u32(dimension.0)?;
    let height: u32 = to_u32(dimension.1)?;
    let pad: u32 = to_u32(cfg.get_pad())?;
    let pad_mode: u32 = to_u32(cfg.get_pad_type().ordinal())?;
    let stride_x: u32 = to_u32(cfg.get_stride().0)?;
    let stride_y: u32 = to_u32(cfg.get_stride().1)?;
    let dilation_x: u32 = to_u32(cfg.get_dilation().0)?;
    let dilation_y: u32 = to_u32(cfg.get_dilation().1)?;
    Ok(
        Windows {
            width,
            height,
            pad,
            pad_mode,
            stride_x,
            stride_y,
            dilation_x,
            dilation_y,
        },
    )
}

/// Two lists of sizes fit in 32 bits if both of them do.
proof fn lemma_too_wide_split(a: Seq<usize>, b: Seq<usize>)
    ensures
        too_wide(a + b) is None <==> too_wide(a) is None && too_wide(b) is None,
{
    let both = a + b;
    if too_wide(a) is Some {
        let i = choose|i: int| 0 <= i < a.len() && a[i] > u32::MAX;
        assert(both[i] > u32::MAX);
    }
    if too_wide(b) is Some {
        let i = choose|i: int| 0 <= i < b.len() && b[i] > u32::MAX;
        assert(both[a.len() + i] > u32::MAX);
    }
    if too_wide(both) is Some {
        let i = choose|i: int| 0 <= i < both.len() && both[i] > u32::MAX;
        if i < a.len() {
            assert(a[i] > u32::MAX);
        } else {
            assert(b[i - a.len()] > u32::MAX);
        }
    }
}

/// The windows of the pooling stage of a layer.
fn pooling_config<T: PrecisionType>(cur_layer: &ConvBlock<T>) -> (r: KernelConfig)
    ensures
        r == pooling_windows(cur_layer@),
{
    match cur_layer.get_pooling_cfg() {
        Some(cfg) => *cfg,
        None => KernelConfig {
            dimension: (1, 1),
            pad: 0,
            auto_pad: false,
            pad_type: PaddingType::ZeroPadding,
            stride: (1, 1),
            dilation: (1, 1),
        },
    }
}

impl GpuContext {
    /// The memory of the part of the inputs that a tile looks at. With `banked`, the rows are kept
    /// out of step with the memory banks.
    fn window_memory(&self, precision: Precision, cfg: &KernelConfig, banked: bool) -> (r: Result<
        u32,
        Error,
    >)
        requires
            self.wf(),
            cfg.wf(),
            cfg.stride.0 <= u32::MAX,
            cfg.stride.1 <= u32::MAX,
            tile_fits(
                self@.tile_dim,
                precision,
                *cfg,
                if banked {
                    bank_padding(tile_side(self@.tile_dim, cfg.stride.0 as int, cfg.span().0))
                } else {
                    0
                },
            ),
        ensures
            refusal(r) == if cfg.span().0 > u32::MAX || cfg.span().1 > u32::MAX {
                Some(ErrorView::IntConversion)
            } else {
                None
            },
            r matches Ok(mem) ==> {
                let w = tile_side(self@.tile_dim, cfg.stride.0 as int, cfg.span().0);
                let h = tile_side(self@.tile_dim, cfg.stride.1 as int, cfg.span().1);
                mem == (w + if banked {
                    bank_padding(w)
                } else {
                    0
                }) * h * precision.width()
            },
    {
        broadcast use GpuContext::lemma_tile;

        let tile_dim: u32 = self.get_tile_dim();
        let stride_x: u32 = to_u32(cfg.get_stride().0)?;
        let stride_y: u32 = to_u32(cfg.get_stride().1)?;
        assert(0 <= (tile_dim - 1) * stride_y && 0 <= (tile_dim - 1) * stride_x)
            by (nonlinear_arith)
            requires
                tile_dim >= 1,
        ;
        let tile_h: u32 = (tile_dim - 1) * stride_y + to_u32(cfg.actual_height())?;
        let mut tile_w: u32 = (tile_dim - 1) * stride_x + to_u32(cfg.actual_width())?;
        let ghost w = tile_w as int;
        if banked && tile_w % 32 == 0 {
            tile_w += 1;
        }
        assert(0 <= tile_w * tile_h) by (nonlinear_arith);
        let width: u32 = to_u32(precision.size_bytes())?;
        Ok(tile_w * tile_h * width)
    }

    /// Queues the forward pass of a convolutional layer.
    ///
    /// With automatic padding, the width and height of the outputs run past those of the input on
    /// purpose; the kernels work the padded values out from the index. The kernel parameter `pad` is
    /// just an alias for the offset of the starting index coordinates i.e. `(-pad, -pad)`.
    pub fn gpu_conv_forward_pass<T: PrecisionType>(
        &mut self,
        cur_layer: &ConvBlock<T>,
        input: &Tensor4D<T>,
        batch_size: usize,
        use_dropout: bool,
        step: usize,
    ) -> (r: Result<(), Error>)
        requires
            old(self).wf(),
            cur_layer.wf(),
            input.wf(),
            conv_forward_ready(
                old(self)@.tile_dim,
                T::format(),
                cur_layer@,
                input@,
                use_dropout,
                step,
            ),
        ensures
            final(self).wf(),
            ({
                let outcome = conv_forward_pass(
                    old(self)@.tile_dim,
                    T::format(),
                    cur_layer@,
                    input@,
                    batch_size,
                    use_dropout,
                    step,
                );
                &&& refusal(r) == outcome.refused
                &&& final(self)@ == old(self)@.then_run(outcome.ops)
            }),
    {
        broadcast use lemma_then_run;

        let norm = *cur_layer.get_normalisation();
        let act = *cur_layer.get_activation();
        let allow_pass_1 = norm != Normalisation::Disabled;
        let allow_pass_2 = act != Activation::Identity || cur_layer.get_pooling_cfg().is_some()
            || use_dropout;
        let output = if allow_pass_1 {
            &cur_layer.get_norm_cache().unwrap().prenorm_features
        } else if allow_pass_2 {
            cur_layer.get_preact_features()
        } else {
            cur_layer.get_features()
        };
        match cur_layer.get_algorithm() {
            ConvAlgorithm::Spatial => self.gpu_conv_spatial(cur_layer, input, output)?,
            ConvAlgorithm::FrequencyFFT => self.gpu_conv_fft(cur_layer, input, output)?,
        }
        proof {
            lemma_filters_measured(
                self@.tile_dim,
                T::format(),
                cur_layer@,
                input@,
                use_dropout,
            );
        }
        if allow_pass_1 {
            self.gpu_conv_norm_pass(cur_layer, input, batch_size, use_dropout, allow_pass_2)?;
        }
        if allow_pass_2 {
            self.gpu_conv_activation_pool_dropout_pass(cur_layer, input, use_dropout, step)?;
        }
        Ok(())
    }

    /// Queues the filters of a layer, slid over an input.
    fn gpu_conv_spatial<T: PrecisionType>(
        &mut self,
        cur_layer: &ConvBlock<T>,
        input: &Tensor4D<T>,
        output: &Tensor4D<T>,
    ) -> (r: Result<(), Error>)
        requires
            old(self).wf(),
            cur_layer.wf(),
            input.wf(),
            output.wf(),
            spatial_ready(old(self)@.tile_dim, T::format(), cur_layer@, input@, output@),
        ensures
            final(self).wf(),
            ({
                let outcome = spatial_filters(
                    old(self)@.tile_dim,
                    T::format(),
                    cur_layer@,
                    input@,
                    output@,
                );
                &&& refusal(r) == outcome.refused
                &&& final(self)@ == old(self)@.then_run(outcome.ops)
            }),
    {
        let f_cfg = cur_layer.get_filter_cfg();
        let filter_weights = cur_layer.get_filter_weights();
        let ghost ins = input_sizes(input@);
        let ghost out = filtered(cur_layer@, input@);
        let ghost outs = seq![out.0, out.1, output@.shape[1]];
        let ghost wins = window_sizes(filter_size(cur_layer@), cur_layer@.filter);
        proof {
            lemma_too_wide_split(ins, outs);
            lemma_too_wide_split(ins + outs, wins);
            assert(ins[0] == input@.shape[0] && ins[1] == input@.shape[1] && ins[2]
                == input@.shape[3] && ins[3] == input@.shape[2]);
            assert(outs[0] == out.0 && outs[1] == out.1 && outs[2] == output@.shape[1]);
        }
        let n_u32: u32 = to_u32(input.batches())?;
        let ic_u32: u32 = to_u32(input.channels())?;
        let iw_u32: u32 = to_u32(input.width())?;
        let ih_u32: u32 = to_u32(input.height())?;
        let o_size = f_cfg.elements_from_length(&(input.width(), input.height()));
        let ow_u32: u32 = to_u32(o_size.0)?;
        let oh_u32: u32 = to_u32(o_size.1)?;
        let oc_u32: u32 = to_u32(output.channels())?;
        let w = narrow_windows((filter_weights.width(), filter_weights.height()), f_cfg)?;
        let args = vec![
            KernelArg::Tensor(output.get_id()),
            KernelArg::Tensor(input.get_id()),
            KernelArg::Tensor(filter_weights.get_id()),
            KernelArg::Tensor(cur_layer.get_filter_biases().get_id()),
            flag_arg(*cur_layer.get_normalisation() != Normalisation::BatchNorm),
            KernelArg::U32(ic_u32),
            KernelArg::U32(oc_u32),
            KernelArg::U32(iw_u32),
            KernelArg::U32(ih_u32),
            KernelArg::U32(ow_u32),
            KernelArg::U32(oh_u32),
            KernelArg::U32(w.width),
            KernelArg::U32(w.height),
            KernelArg::U32(w.pad),
            KernelArg::U32(w.pad_mode),
            KernelArg::U32(w.stride_x),
            KernelArg::U32(w.stride_y),
            KernelArg::U32(w.dilation_x),
            KernelArg::U32(w.dilation_y),
        ];
        let mem: u32 = self.window_memory(T::precision(), f_cfg, false)?;
        let cfg = self.calculate_cfg4d(
            n_u32 as usize,
            oc_u32 as usize,
            oh_u32 as usize,
            ow_u32 as usize,
            mem,
        )?;
        assert(args@ == seq![
            buffer(output@),
            buffer(input@),
            buffer(cur_layer@.weights),
            buffer(cur_layer@.biases),
            flag(cur_layer@.config.normalisation != Normalisation::BatchNorm),
            size(input@.shape[1]),
            size(output@.shape[1]),
            size(input@.shape[3]),
            size(input@.shape[2]),
            size(out.0),
            size(out.1),
        ] + window_args(filter_size(cur_layer@), cur_layer@.filter));
        self.launch(Kernel::ConvForwardPass0, T::precision(), args, cfg);
        self.synchronize();
        Ok(())
    }

    /// Queues the filters of a layer, by way of the frequencies.
    fn gpu_conv_fft<T: PrecisionType>(
        &mut self,
        cur_layer: &ConvBlock<T>,
        input: &Tensor4D<T>,
        output: &Tensor4D<T>,
    ) -> (r: Result<(), Error>)
        requires
            old(self).wf(),
            cur_layer.wf(),
            input.wf(),
            output.wf(),
            cur_layer@.fft is Some,
            frequency_ready(cur_layer@, input@, output@, cur_layer@.fft->0),
        ensures
            final(self).wf(),
            ({
                let outcome = frequency_filters(
                    old(self)@.tile_dim,
                    T::format(),
                    cur_layer@,
                    input@,
                    output@,
                    cur_layer@.fft->0,
                );
                &&& refusal(r) == outcome.refused
                &&& final(self)@ == old(self)@.then_run(outcome.ops)
            }),
    {
        let f_cfg = cur_layer.get_filter_cfg();
        let filter_weights = cur_layer.get_filter_weights();
        let fft = cur_layer.get_fft().unwrap();
        let ghost ins = input_sizes(input@);
        let ghost out = filtered(cur_layer@, input@);
        let ghost outs = seq![out.0, out.1, output@.shape[1]];
        let ghost wins = window_sizes(filter_size(cur_layer@), cur_layer@.filter);
        let ghost ffts = seq![fft.size.0, fft.size.1];
        proof {
            lemma_too_wide_split(ins, outs);
            lemma_too_wide_split(ins + outs, wins);
            lemma_too_wide_split(ins + outs + wins, ffts);
            assert(ins[0] == input@.shape[0] && ins[1] == input@.shape[1] && ins[2]
                == input@.shape[3] && ins[3] == input@.shape[2]);
            assert(outs[0] == out.0 && outs[1] == out.1 && outs[2] == output@.shape[1]);
            assert(ffts[0] == fft.size.0 && ffts[1] == fft.size.1);
        }
        let n: u32 = to_u32(input.batches())?;
        let ic: u32 = to_u32(input.channels())?;
        let iw: u32 = to_u32(input.width())?;
        let ih: u32 = to_u32(input.height())?;
        let o_size = f_cfg.elements_from_length(&(input.width(), input.height()));
        let ow: u32 = to_u32(o_size.0)?;
        let oh: u32 = to_u32(o_size.1)?;
        let oc: u32 = to_u32(output.channels())?;
        let w = narrow_windows((filter_weights.width(), filter_weights.height()), f_cfg)?;
        let fft_ow: u32 = to_u32(fft.size.0)?;
        let fft_oh: u32 = to_u32(fft.size.1)?;
        assert(0 <= (n + oc) * ic && 0 <= n * oc) by (nonlinear_arith);
        let area: u32 = self.get_tile_dim_2();
        let row_args = vec![
            KernelArg::Tensor(fft.input.tensor),
            KernelArg::Tensor(fft.weights.tensor),
            KernelArg::Tensor(fft.twiddle_width.tensor),
            KernelArg::Tensor(input.get_id()),
            KernelArg::Tensor(filter_weights.get_id()),
            KernelArg::U32(n),
            KernelArg::U32(ic),
            KernelArg::U32(iw),
            KernelArg::U32(ih),
            KernelArg::U32(fft_ow),
            KernelArg::U32(fft_oh),
            KernelArg::U32(w.width),
            KernelArg::U32(w.height),
            KernelArg::U32(w.pad),
            KernelArg::U32(w.pad_mode),
            KernelArg::U32(w.dilation_x),
            KernelArg::U32(w.dilation_y),
        ];
        let cfg = LaunchConfig {
            grid_dim: ((n + oc) * ic * fft_oh, 1, 1),
            block_dim: (area, 1, 1),
            shared_mem_bytes: fft_ow * COMPLEX_BYTES,
        };
        self.launch(Kernel::ConvFftRowTransform, T::precision(), row_args, cfg);
        let col_args = vec![
            KernelArg::Tensor(fft.input.tensor),
            KernelArg::Tensor(fft.weights.tensor),
            KernelArg::Tensor(fft.twiddle_height.tensor),
            KernelArg::U32(n),
            KernelArg::U32(ic),
            KernelArg::U32(fft_ow),
            KernelArg::U32(fft_oh),
        ];
        let cfg = LaunchConfig {
            grid_dim: ((n + oc) * ic * fft_ow, 1, 1),
            block_dim: (area, 1, 1),
            shared_mem_bytes: fft_oh * COMPLEX_BYTES,
        };
        self.launch(Kernel::ConvFftColTransform, T::precision(), col_args, cfg);
        let ifft_row_args = vec![
            KernelArg::Tensor(fft.input.tensor),
            KernelArg::Tensor(fft.weights.tensor),
            KernelArg::Tensor(fft.output.tensor),
            KernelArg::Tensor(fft.twiddle_width.tensor),
            KernelArg::U32(oc),
            KernelArg::U32(ic),
            KernelArg::U32(fft_ow),
            KernelArg::U32(fft_oh),
        ];
        let cfg = LaunchConfig {
            grid_dim: (n * oc * fft_oh, 1, 1),
            block_dim: (area, 1, 1),
            shared_mem_bytes: fft_ow * COMPLEX_BYTES,
        };
        self.launch(Kernel::ConvElemMulIfftRow, T::precision(), ifft_row_args, cfg);
        let ifft_col_args = vec![
            KernelArg::Tensor(output.get_id()),
            KernelArg::Tensor(fft.output.tensor),
            KernelArg::Tensor(fft.twiddle_height.tensor),
            KernelArg::Tensor(cur_layer.get_filter_biases().get_id()),
            flag_arg(*cur_layer.get_normalisation() != Normalisation::BatchNorm),
            KernelArg::U32(oc),
            KernelArg::U32(fft_ow),
            KernelArg::U32(fft_oh),
            KernelArg::U32(ow),
            KernelArg::U32(oh),
            KernelArg::U32(w.stride_x),
            KernelArg::U32(w.stride_y),
        ];
        let cfg = LaunchConfig {
            grid_dim: (n * oc * ow, 1, 1),
            block_dim: (area, 1, 1),
            shared_mem_bytes: fft_oh * COMPLEX_BYTES,
        };
        self.launch(Kernel::ConvIfftColTransform, T::precision(), ifft_col_args, cfg);
        Ok(())
    }

    /// Queues the normalisation behind the filters.
    fn gpu_conv_norm_pass<T: PrecisionType>(
        &mut self,
        cur_layer: &ConvBlock<T>,
        input: &Tensor4D<T>,
        batch_size: usize,
        use_dropout: bool,
        allow_pass_2: bool,
    ) -> (r: Result<(), Error>)
        requires
            old(self).wf(),
            cur_layer.wf(),
            input.wf(),
            cur_layer@.norm is Some,
            allow_pass_2 == has_last_stage(cur_layer@, use_dropout),
            cur_layer@.filter.measures(plane(input@)),
            tile_area(old(self)@.tile_dim) * 4 <= u32::MAX,
        ensures
            final(self).wf(),
            ({
                let outcome = conv_norm_part(
                    old(self)@.tile_dim,
                    T::format(),
                    cur_layer@,
                    input@,
                    stage_output(cur_layer@, use_dropout),
                    batch_size,
                );
                &&& refusal(r) == outcome.refused
                &&& final(self)@ == old(self)@.then_run(outcome.ops)
            }),
    {
        let f_cfg = cur_layer.get_filter_cfg();
        let norm = *cur_layer.get_normalisation();
        let norm_mode_u32: u32 = to_u32(norm.ordinal())?;
        let norm_cache = cur_layer.get_norm_cache().unwrap();
        let norm_output = if allow_pass_2 {
            cur_layer.get_preact_features()
        } else {
            cur_layer.get_features()
        };
        let ghost out = filtered(cur_layer@, input@);
        let ghost grid = if norm == Normalisation::BatchNorm {
            norm_output@.shape[1]
        } else {
            batch_size
        };
        let ghost sizes = seq![out.0, out.1, norm_output@.shape[1], grid];
        proof {
            assert(sizes[0] == out.0 && sizes[1] == out.1 && sizes[2] == norm_output@.shape[1]
                && sizes[3] == grid);
        }
        let o_size = f_cfg.elements_from_length(&(input.width(), input.height()));
        let ow_u32: u32 = to_u32(o_size.0)?;
        let oh_u32: u32 = to_u32(o_size.1)?;
        let oc_u32: u32 = to_u32(norm_output.channels())?;
        let args = vec![
            KernelArg::Tensor(norm_output.get_id()),
            KernelArg::Tensor(norm_cache.centered_features.get_id()),
            KernelArg::Tensor(norm_cache.prenorm_features.get_id()),
            KernelArg::Tensor(norm_cache.norm_weights.get_id()),
            KernelArg::Tensor(norm_cache.norm_biases.get_id()),
            KernelArg::Tensor(norm_cache.norm_rstd.get_id()),
            KernelArg::U32(ow_u32),
            KernelArg::U32(oh_u32),
            KernelArg::U32(oc_u32),
            KernelArg::Usize(batch_size),
            KernelArg::U32(norm_mode_u32),
        ];
        let grid_x: usize = if norm == Normalisation::BatchNorm {
            oc_u32 as usize
        } else {
            batch_size
        };
        let area: u32 = self.get_tile_dim_2();
        let cfg = LaunchConfig {
            grid_dim: (to_u32(grid_x)?, 1, 1),
            block_dim: (area, 1, 1),
            shared_mem_bytes: area * 4,
        };
        self.launch(Kernel::ConvForwardPass1, T::precision(), args, cfg);
        self.synchronize();
        Ok(())
    }

    /// Queues the activation, the pooling and the dropout of a layer.
    fn gpu_conv_activation_pool_dropout_pass<T: PrecisionType>(
        &mut self,
        cur_layer: &ConvBlock<T>,
        input: &Tensor4D<T>,
        use_dropout: bool,
        step: usize,
    ) -> (r: Result<(), Error>)
        requires
            old(self).wf(),
            cur_layer.wf(),
            input.wf(),
            cur_layer@.filter.measures(plane(input@)),
            pooling_ready(old(self)@.tile_dim, T::format(), cur_layer@, input@, step),
        ensures
            final(self).wf(),
            ({
                let outcome = pooling_part(
                    old(self)@.tile_dim,
                    T::format(),
                    cur_layer@,
                    input@,
                    use_dropout,
                    step,
                );
                &&& refusal(r) == outcome.refused
                &&& final(self)@ == old(self)@.then_run(outcome.ops)
            }),
    {
        let f_cfg = cur_layer.get_filter_cfg();
        let p_cfg = pooling_config(cur_layer);
        let act = *cur_layer.get_activation();
        let features = cur_layer.get_features();
        let ghost from = filtered(cur_layer@, input@);
        let ghost out = pooled(cur_layer@, input@);
        let ghost froms = stage_sizes(cur_layer@, input@, step);
        let ghost outs = seq![out.0, out.1, cur_layer@.cache.features.shape[1]];
        let ghost wins = window_sizes(p_cfg.dimension, p_cfg);
        proof {
            lemma_too_wide_split(froms, outs);
            lemma_too_wide_split(froms + outs, wins);
            assert(froms[0] == step && froms[1] == cur_layer@.weights.id && froms[2]
                == input@.shape[0] && froms[3] == from.0 && froms[4] == from.1);
            assert(outs[0] == out.0 && outs[1] == out.1 && outs[2]
                == cur_layer@.cache.features.shape[1]);
        }
        let step_u32: u32 = to_u32(step)?;
        let id_u32: u32 = to_u32(cur_layer.get_filter_weights().get_id())?;
        let seed: u32 = scramble_seed(step_u32, id_u32);
        let n_u32: u32 = to_u32(input.batches())?;
        let act_mode_u32: u32 = to_u32(act.ordinal())?;
        let pool_mode_u32: u32 = to_u32(
            pooling_ordinal(
                match cur_layer.get_pooling_type() {
                    Some(t) => Some(*t),
                    None => None,
                },
            ),
        )?;

        // the 'input' here is the result of the filter/normalisation
        let f_o_size = f_cfg.elements_from_length(&(input.width(), input.height()));
        let iw_u32: u32 = to_u32(f_o_size.0)?;
        let ih_u32: u32 = to_u32(f_o_size.1)?;

        // the `output` here is the result of pooling
        let o_size = p_cfg.elements_from_length(&(iw_u32 as usize, ih_u32 as usize));
        let ow_u32: u32 = to_u32(o_size.0)?;
        let oh_u32: u32 = to_u32(o_size.1)?;
        let oc_u32: u32 = to_u32(features.channels())?;
        let w = narrow_windows(*p_cfg.get_dimension(), &p_cfg)?;
        let args = vec![
            KernelArg::Tensor(features.get_id()),
            KernelArg::Tensor(cur_layer.get_predrop_features().get_id()),
            KernelArg::Tensor(cur_layer.get_prepooling_features().get_id()),
            KernelArg::Tensor(cur_layer.get_preact_features().get_id()),
            KernelArg::Tensor(cur_layer.get_mask().get_id()),
            flag_arg(use_dropout),
            KernelArg::U32(pool_mode_u32),
            KernelArg::U32(oc_u32),
            KernelArg::U32(iw_u32),
            KernelArg::U32(ih_u32),
            KernelArg::U32(ow_u32),
            KernelArg::U32(oh_u32),
            KernelArg::U32(w.width),
            KernelArg::U32(w.height),
            KernelArg::U32(w.pad),
            KernelArg::U32(w.pad_mode),
            KernelArg::U32(w.stride_x),
            KernelArg::U32(w.stride_y),
            KernelArg::U32(w.dilation_x),
            KernelArg::U32(w.dilation_y),
            KernelArg::U32(act_mode_u32),
            KernelArg::Real(act.leaky_coeff()),
            KernelArg::Real(cur_layer.get_mask_coeff()),
            KernelArg::U32(seed),
        ];
        let mem: u32 = self.window_memory(T::precision(), &p_cfg, true)?;
        let cfg = self.calculate_cfg4d(
            n_u32 as usize,
            oc_u32 as usize,
            oh_u32 as usize,
            ow_u32 as usize,
            mem,
        )?;
        assert(args@ == seq![
            buffer(cur_layer@.cache.features),
            buffer(cur_layer@.cache.predrop_features),
            buffer(cur_layer@.cache.prepooling_features),
            buffer(cur_layer@.cache.preact_features),
            buffer(cur_layer@.mask),
            flag(use_dropout),
            size(pooling_mode(cur_layer@.pooling_type)),
            size(cur_layer@.cache.features.shape[1]),
            size(from.0),
            size(from.1),
            size(out.0),
            size(out.1),
        ] + window_args(p_cfg.dimension, p_cfg) + seq![
            size(act.mode()),
            KernelArg::Real(act.leak()),
            KernelArg::Real(cur_layer@.config.mask_coeff),
            KernelArg::U32(scrambled_seed(step as u32, cur_layer@.weights.id as u32)),
        ]);
        self.launch(Kernel::ConvForwardPass2, T::precision(), args, cfg);
        self.synchronize();
        Ok(())
    }

    /// Queues the work that finds the error of an output layer.
    pub fn gpu_conv_compute_output_layer_error<T: PrecisionType>(
        &mut self,
        cur_layer: &ConvBlock<T>,
        _target: &Tensor4D<T>,
        _err_mode: LossFunc,
        activation: Activation,
    ) -> (r: Result<(), Error>)
        requires
            old(self).wf(),
            cur_layer.wf(),
            cur_layer@.cache.features.shape[0] <= u32::MAX && activation == Activation::Softmax ==> {
                let out = cur_layer@.cache.features;
                &&& out.shape[1] * out.shape[3] <= usize::MAX
                &&& out.shape[1] * out.shape[3] * out.shape[2] <= usize::MAX
            },
        ensures
            final(self).wf(),
            ({
                let outcome = conv_output_error(
                    old(self)@.tile_dim,
                    T::format(),
                    cur_layer@,
                    activation,
                );
                &&& refusal(r) == outcome.refused
                &&& final(self)@ == old(self)@.then_run(outcome.ops)
            }),
    {
        let features = cur_layer.get_features();
        let m: usize = features.batches();
        let m_u32: u32 = to_u32(m)?;

        // Run softmax if needed first
        if activation == Activation::Softmax {
            let (c, w, h) = (features.channels(), features.width(), features.height());
            assert(0 <= c * w && 0 <= c * w * h) by (nonlinear_arith);
            let cols_u32: u32 = to_u32(c * w * h)?;
            let args = vec![
                KernelArg::Tensor(features.get_id()),
                KernelArg::U32(m_u32),
                KernelArg::U32(cols_u32),
            ];
            let softmax_cfg = LaunchConfig {
                grid_dim: (m_u32, 1, 1),
                block_dim: (self.get_tile_dim_2(), 1, 1),
                shared_mem_bytes: 0,
            };
            self.launch(Kernel::Softmax, T::precision(), args, softmax_cfg);
            self.synchronize();
        }
        Ok(())
    }
}

/// Where the filters are not refused, their windows were counted.
proof fn lemma_filters_measured(
    tile_dim: u32,
    precision: Precision,
    layer: ConvView,
    input: TensorView,
    use_dropout: bool,
)
    requires
        layer.algorithm == ConvAlgorithm::Spatial ==> spatial_ready(
            tile_dim,
            precision,
            layer,
            input,
            filter_output(layer, use_dropout),
        ),
        layer.algorithm == ConvAlgorithm::FrequencyFFT ==> frequency_ready(
            layer,
            input,
            filter_output(layer, use_dropout),
            layer.fft->0,
        ),
    ensures
        filter_part(tile_dim, precision, layer, input, use_dropout).refused is None
            ==> layer.filter.measures(plane(input)),
{
    let output = filter_output(layer, use_dropout);
    let out = filtered(layer, input);
    let ins = input_sizes(input);
    let outs = seq![out.0, out.1, output.shape[1]];
    let wins = window_sizes(filter_size(layer), layer.filter);
    lemma_too_wide_split(ins, outs);
    lemma_too_wide_split(ins + outs, wins);
    lemma_too_wide_split(ins + outs + wins, seq![layer.fft->0.size.0, layer.fft->0.size.1]);
}

} // verus!
