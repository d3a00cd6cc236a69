//! How the kernels of a convolutional layer are launched: over which grid, and on tensors of which
//! shapes.

use vstd::prelude::*;

use crate::conv::{ConvView, FftBuffers};
use crate::io::device::conv_device::{
    bank_padding, conv_forward_pass, conv_norm_part, filter_output, filter_part, filter_sizes,
    filtered, frequency_filters, frequency_ready, has_last_stage, pooled, pooling_part,
    pooling_sizes, pooling_windows, spatial_filters, stage_output, tile_side,
};
use crate::io::device::conv_laws::{filter_outputs, is_counted, pooling_outputs};
use crate::io::device::launch_laws::is_line;
use crate::io::device::meaning::told_normalisation;
use crate::io::device::signature::{count, is_well_typed, tensor, yes, Param};
use crate::io::device::{law_volume_launch_covers, tile_area, Kernel, LaunchConfig, OpView};
use crate::util::function::{ConvAlgorithm, Normalisation};
use crate::util::precision::Precision;
use crate::util::tensor::TensorView;

verus! {

/// A grid has a thread for each pixel of `planes` planes of `x` times `y` pixels, and less than a
/// block more along each side of a plane.
pub open spec fn is_volume(config: LaunchConfig, x: int, y: int, planes: int) -> bool {
    &&& x <= config.grid_dim.0 * config.block_dim.0 < x + config.block_dim.0
    &&& y <= config.grid_dim.1 * config.block_dim.1 < y + config.block_dim.1
    &&& config.grid_dim.2 == planes && config.block_dim.2 == 1
}

/// How far the windows of a row of `threads` outputs reach: from the first pixel of the first window
/// to the last pixel of the last one.
pub open spec fn reach(threads: int, stride: int, size: int, dilation: int) -> int {
    (threads - 1) * stride + (size - 1) * dilation + 1
}

/// What the windows of one block of threads look at, in pixels.
pub open spec fn block_reach(op: OpView) -> (int, int) {
    let (k, args, config) = (op->kernel, op->args, op->config);
    (
        reach(
            config.block_dim.0 as int,
            count(k, args, Param::StrideX),
            count(k, args, Param::WindowWidth),
            count(k, args, Param::DilationX),
        ),
        reach(
            config.block_dim.1 as int,
            count(k, args, Param::StrideY),
            count(k, args, Param::WindowHeight),
            count(k, args, Param::DilationY),
        ),
    )
}

/// The threads of a launch reach every pixel that its kernel works out, for so many images: a thread
/// for each pixel of each channel of each image; a block for each channel of a batch normalisation,
/// and for each image of any other; a block for each line that is transformed. There is memory for
/// the pixels that the windows of a block look at, or for the line that is transformed.
pub open spec fn is_image_reached(op: OpView, images: int, filters: int) -> bool {
    op is Launch ==> {
        let (k, args, config) = (op->kernel, op->args, op->config);
        let channels = count(k, args, Param::InputChannels);
        let outputs = count(k, args, Param::OutputChannels);
        let (x, y) = (count(k, args, Param::OutputWidth), count(k, args, Param::OutputHeight));
        let (w, h) = (
            count(k, args, Param::TransformWidth),
            count(k, args, Param::TransformHeight),
        );
        let seen = block_reach(op);
        let width = op->Launch_precision.width();
        match k {
            Kernel::ConvForwardPass0 => {
                &&& is_volume(config, x, y, images * outputs)
                &&& config.shared_mem_bytes == seen.0 * seen.1 * width
            },
            Kernel::ConvForwardPass2 => {
                &&& is_volume(config, x, y, images * outputs)
                &&& config.shared_mem_bytes == (if seen.0 % 32 == 0 {
                    seen.0 + 1
                } else {
                    seen.0
                }) * seen.1 * width
            },
            Kernel::ConvForwardPass1 => {
                &&& is_line(
                    config,
                    if told_normalisation(k, args) == Normalisation::BatchNorm {
                        outputs
                    } else {
                        count(k, args, Param::Images)
                    },
                )
                &&& config.shared_mem_bytes == 4 * config.block_dim.0
            },
            Kernel::ConvFftRowTransform => {
                &&& is_line(config, (images + filters) * channels * h)
                &&& config.shared_mem_bytes == 8 * w
            },
            Kernel::ConvFftColTransform => {
                &&& is_line(config, (images + filters) * channels * w)
                &&& config.shared_mem_bytes == 8 * h
            },
            Kernel::ConvElemMulIfftRow => {
                &&& is_line(config, images * outputs * h)
                &&& config.shared_mem_bytes == 8 * w
            },
            Kernel::ConvIfftColTransform => {
                &&& is_line(config, images * outputs * x)
                &&& config.shared_mem_bytes == 8 * h
            },
            _ => true,
        }
    }
}

/// A tensor holds images of so many channels, each one of so many columns and rows.
pub open spec fn are_images(shape: Seq<usize>, channels: int, x: int, y: int) -> bool {
    shape.len() == 4 && shape[1] == channels && shape[2] == y && shape[3] == x
}

/// The tensors that a launch hands to its kernel have the shapes that the kernel goes by: what it
/// takes as the channels of the input are those of the input and the second axis of the filters,
/// what it takes as the channels of the output are those of the output and the first axis of the
/// filters, and the planes are as large as it is told.
pub open spec fn is_image_fitting(op: OpView, shapes: Map<usize, Seq<usize>>) -> bool {
    op is Launch ==> {
        let (k, args) = (op->kernel, op->args);
        let channels = count(k, args, Param::InputChannels);
        let outputs = count(k, args, Param::OutputChannels);
        let (w, h) = (count(k, args, Param::InputWidth), count(k, args, Param::InputHeight));
        let (x, y) = (count(k, args, Param::OutputWidth), count(k, args, Param::OutputHeight));
        let window = (count(k, args, Param::WindowWidth), count(k, args, Param::WindowHeight));
        let shape = |p: Param| shapes[tensor(k, args, p)];
        match k {
            Kernel::ConvForwardPass0 => {
                &&& are_images(shape(Param::Input), channels, w, h)
                &&& are_images(shape(Param::Output), outputs, x, y)
                &&& are_images(shape(Param::Weights), channels, window.0, window.1)
                &&& shape(Param::Weights)[0] == outputs
                &&& shape(Param::Biases).len() == 1 && shape(Param::Biases)[0] == outputs
            },
            Kernel::ConvForwardPass1 => {
                &&& are_images(shape(Param::Prenorm), outputs, x, y)
                &&& are_images(shape(Param::Centred), outputs, x, y)
                &&& are_images(shape(Param::Output), outputs, x, y)
                &&& if told_normalisation(k, args) == Normalisation::BatchNorm {
                    &&& are_images(shape(Param::NormWeights), outputs, 1, 1)
                    &&& are_images(shape(Param::NormBiases), outputs, 1, 1)
                    &&& outputs <= shape(Param::Deviations)[0]
                } else {
                    &&& are_images(shape(Param::NormWeights), outputs, x, y)
                    &&& are_images(shape(Param::NormBiases), outputs, x, y)
                    &&& count(k, args, Param::Images) <= shape(Param::Deviations)[0]
                }
            },
            Kernel::ConvForwardPass2 => {
                &&& are_images(shape(Param::Preact), outputs, w, h)
                &&& are_images(shape(Param::Mask), outputs, w, h)
                &&& yes(k, args, Param::PoolingMode) ==> are_images(
                    shape(Param::Prepooling),
                    outputs,
                    w,
                    h,
                )
                &&& are_images(shape(Param::Predrop), outputs, x, y)
                &&& are_images(shape(Param::Output), outputs, x, y)
            },
            Kernel::ConvFftRowTransform => {
                &&& are_images(shape(Param::Input), channels, w, h)
                &&& shape(Param::Input)[0] == count(k, args, Param::Images)
                &&& are_images(shape(Param::Weights), channels, window.0, window.1)
            },
            Kernel::ConvIfftColTransform => {
                &&& are_images(shape(Param::Output), outputs, x, y)
                &&& shape(Param::Biases).len() == 1 && shape(Param::Biases)[0] == outputs
            },
            _ => true,
        }
    }
}

/// A launch is as its kernel expects it.
pub open spec fn is_image_in_order(
    op: OpView,
    shapes: Map<usize, Seq<usize>>,
    images: int,
    filters: int,
) -> bool {
    is_well_typed(op) && is_image_reached(op, images, filters) && is_image_fitting(op, shapes)
}

/// The tensors of a layer have the shapes that belong together on an input: a filter for each
/// channel of the features, with a plane for each channel of the input.
pub open spec fn are_regular_images(layer: ConvView, input: TensorView) -> bool {
    let outputs = layer.weights.shape[0];
    let (x, y) = filter_outputs(layer, input);
    let (u, v) = pooling_outputs(layer, input);
    &&& input.shape.len() == 4
    &&& are_images(
        layer.weights.shape,
        input.shape[1] as int,
        layer.filter.dimension.0 as int,
        layer.filter.dimension.1 as int,
    )
    &&& layer.biases.shape == seq![outputs]
    &&& are_images(layer.cache.preact_features.shape, outputs as int, x, y)
    &&& are_images(layer.cache.features.shape, outputs as int, u, v)
    &&& are_images(layer.cache.predrop_features.shape, outputs as int, u, v)
    &&& are_images(layer.mask.shape, outputs as int, x, y)
    &&& layer.pooling is Some ==> are_images(
        layer.cache.prepooling_features.shape,
        outputs as int,
        x,
        y,
    )
    &&& layer.norm matches Some(n) ==> {
        &&& are_images(n.prenorm_features.shape, outputs as int, x, y)
        &&& are_images(n.centered_features.shape, outputs as int, x, y)
        &&& if layer.config.normalisation == Normalisation::BatchNorm {
            &&& are_images(n.norm_weights.shape, outputs as int, 1, 1)
            &&& are_images(n.norm_biases.shape, outputs as int, 1, 1)
            &&& n.norm_rstd.shape == seq![outputs]
        } else {
            &&& are_images(n.norm_weights.shape, outputs as int, x, y)
            &&& are_images(n.norm_biases.shape, outputs as int, x, y)
            &&& n.norm_rstd.shape == seq![layer.max_batch_size]
        }
    }
}

/// The shapes of the tensors of a layer and of an input are known by their ids.
pub open spec fn are_known_images(
    shapes: Map<usize, Seq<usize>>,
    layer: ConvView,
    input: TensorView,
) -> bool {
    &&& shapes[input.id] == input.shape
    &&& shapes[layer.weights.id] == layer.weights.shape
    &&& shapes[layer.biases.id] == layer.biases.shape
    &&& shapes[layer.cache.preact_features.id] == layer.cache.preact_features.shape
    &&& shapes[layer.cache.predrop_features.id] == layer.cache.predrop_features.shape
    &&& shapes[layer.cache.prepooling_features.id] == layer.cache.prepooling_features.shape
    &&& shapes[layer.cache.features.id] == layer.cache.features.shape
    &&& shapes[layer.mask.id] == layer.mask.shape
    &&& layer.norm matches Some(n) ==> {
        &&& shapes[n.prenorm_features.id] == n.prenorm_features.shape
        &&& shapes[n.centered_features.id] == n.centered_features.shape
        &&& shapes[n.norm_weights.id] == n.norm_weights.shape
        &&& shapes[n.norm_biases.id] == n.norm_biases.shape
        &&& shapes[n.norm_rstd.id] == n.norm_rstd.shape
    }
}

/// The launch that slides the filters of a layer over an input: the channels that the kernel takes
/// for those of the input are the channels of the input and the second axis of the filters, the ones
/// that it takes for those of the output are the channels of the output and the first axis of the
/// filters, and every pixel of the output is reached.
#[verifier::rlimit(40)]
pub proof fn law_slid_filters_are_in_order(
    shapes: Map<usize, Seq<usize>>,
    tile_dim: u32,
    precision: Precision,
    layer: ConvView,
    input: TensorView,
    output: TensorView,
    i: int,
)
    requires
        1 <= tile_dim,
        layer.filter.wf(),
        are_regular_images(layer, input),
        is_counted(layer, input),
        shapes[input.id] == input.shape,
        shapes[output.id] == output.shape,
        shapes[layer.weights.id] == layer.weights.shape,
        shapes[layer.biases.id] == layer.biases.shape,
        are_images(
            output.shape,
            layer.weights.shape[0] as int,
            filter_outputs(layer, input).0,
            filter_outputs(layer, input).1,
        ),
        slid_memory(tile_dim, precision, layer) <= u32::MAX,
        spatial_filters(tile_dim, precision, layer, input, output).refused is None,
        0 <= i < spatial_filters(tile_dim, precision, layer, input, output).ops.len(),
    ensures
        is_image_in_order(
            spatial_filters(tile_dim, precision, layer, input, output).ops[i],
            shapes,
            input.shape[0] as int,
            layer.weights.shape[0] as int,
        ),
{
    let op = spatial_filters(tile_dim, precision, layer, input, output).ops[0];
    let sizes = filter_sizes(layer, input, output);
    assert(sizes[0] == input.shape[0] && sizes[1] == input.shape[1] && sizes[2] == input.shape[3]
        && sizes[3] == input.shape[2] && sizes[4] == filtered(layer, input).0 && sizes[5]
        == filtered(layer, input).1 && sizes[6] == output.shape[1] && sizes[7]
        == layer.weights.shape[3] && sizes[8] == layer.weights.shape[2] && sizes[9]
        == layer.filter.pad && sizes[10] == layer.filter.stride.0 && sizes[11]
        == layer.filter.stride.1 && sizes[12] == layer.filter.dilation.0 && sizes[13]
        == layer.filter.dilation.1);
    let (n, oc) = (input.shape[0] as int, output.shape[1] as int);
    assert(0 <= n * oc) by (nonlinear_arith)
        requires
            0 <= n,
            0 <= oc,
    ;
    law_volume_launch_covers(
        tile_dim,
        n,
        oc,
        filtered(layer, input).1 as int,
        filtered(layer, input).0 as int,
        op->config.shared_mem_bytes,
    );
    assert(is_well_typed(op));
    assert(is_image_fitting(op, shapes));
    lemma_slid_memory(tile_dim, precision, layer);
    let seen = block_reach(op);
    assert(seen.0 == tile_side(tile_dim, layer.filter.stride.0 as int, layer.filter.span().0));
    assert(seen.1 == tile_side(tile_dim, layer.filter.stride.1 as int, layer.filter.span().1));
    assert(is_image_reached(op, n, layer.weights.shape[0] as int));
}

/// The memory for the pixels that the windows of one block look at.
pub open spec fn slid_memory(tile_dim: u32, precision: Precision, layer: ConvView) -> int {
    tile_side(tile_dim, layer.filter.stride.0 as int, layer.filter.span().0) * tile_side(
        tile_dim,
        layer.filter.stride.1 as int,
        layer.filter.span().1,
    ) * precision.width()
}

/// The memory for the pixels that the windows of one block look at is no negative number.
proof fn lemma_slid_memory(tile_dim: u32, precision: Precision, layer: ConvView)
    requires
        1 <= tile_dim,
        layer.filter.wf(),
    ensures
        0 <= slid_memory(tile_dim, precision, layer),
{
    let (a, b) = (layer.filter.stride.0 as int, layer.filter.stride.1 as int);
    let (p, q) = (layer.filter.span().0, layer.filter.span().1);
    lemma_side(tile_dim, a, layer.filter.dimension.0 as int, layer.filter.dilation.0 as int);
    lemma_side(tile_dim, b, layer.filter.dimension.1 as int, layer.filter.dilation.1 as int);
    let (s, t) = (tile_side(tile_dim, a, p), tile_side(tile_dim, b, q));
    assert(0 <= s * t * precision.width()) by (nonlinear_arith)
        requires
            0 <= s,
            0 <= t,
            0 <= precision.width(),
    ;
}

/// The side of what the windows of one block look at is no negative number.
proof fn lemma_side(tile_dim: u32, stride: int, size: int, dilation: int)
    requires
        1 <= tile_dim,
        0 <= stride,
        1 <= size,
        0 <= dilation,
    ensures
        1 <= tile_side(tile_dim, stride, (size - 1) * dilation + 1),
{
    assert(0 <= (tile_dim - 1) * stride && 0 <= (size - 1) * dilation) by (nonlinear_arith)
        requires
            1 <= tile_dim,
            0 <= stride,
            1 <= size,
            0 <= dilation,
    ;
}

/// The launches that take the filters of a layer by way of the frequencies: one block for each line
/// of each channel of each image and of each filter on the way there, and for each line of each
/// channel of the output on the way back.
#[verifier::rlimit(40)]
pub proof fn law_frequency_launches_are_in_order(
    shapes: Map<usize, Seq<usize>>,
    tile_dim: u32,
    precision: Precision,
    layer: ConvView,
    input: TensorView,
    output: TensorView,
    fft: FftBuffers,
    i: int,
)
    requires
        are_regular_images(layer, input),
        is_counted(layer, input),
        shapes[input.id] == input.shape,
        shapes[output.id] == output.shape,
        shapes[layer.weights.id] == layer.weights.shape,
        shapes[layer.biases.id] == layer.biases.shape,
        are_images(
            output.shape,
            layer.weights.shape[0] as int,
            filter_outputs(layer, input).0,
            filter_outputs(layer, input).1,
        ),
        frequency_ready(layer, input, output, fft),
        frequency_filters(tile_dim, precision, layer, input, output, fft).refused is None,
        0 <= i < frequency_filters(tile_dim, precision, layer, input, output, fft).ops.len(),
    ensures
        is_image_in_order(
            frequency_filters(tile_dim, precision, layer, input, output, fft).ops[i],
            shapes,
            input.shape[0] as int,
            layer.weights.shape[0] as int,
        ),
{
    let ops = frequency_filters(tile_dim, precision, layer, input, output, fft).ops;
    let part = filter_sizes(layer, input, output);
    let sizes = part + seq![fft.size.0, fft.size.1];
    assert(sizes[0] == input.shape[0] && sizes[1] == input.shape[1] && sizes[2] == input.shape[3]
        && sizes[3] == input.shape[2] && sizes[4] == filtered(layer, input).0 && sizes[5]
        == filtered(layer, input).1 && sizes[6] == output.shape[1] && sizes[7]
        == layer.weights.shape[3] && sizes[8] == layer.weights.shape[2] && sizes[9]
        == layer.filter.pad && sizes[10] == layer.filter.stride.0 && sizes[11]
        == layer.filter.stride.1 && sizes[12] == layer.filter.dilation.0 && sizes[13]
        == layer.filter.dilation.1 && sizes[14] == fft.size.0 && sizes[15] == fft.size.1);
    let (n, ic, oc) = (input.shape[0] as int, input.shape[1] as int, output.shape[1] as int);
    let (w, h, x) = (fft.size.0 as int, fft.size.1 as int, filtered(layer, input).0 as int);
    assert(0 <= (n + oc) * ic * h && 0 <= (n + oc) * ic * w && 0 <= n * oc * h && 0 <= n * oc * x)
        by (nonlinear_arith)
        requires
            0 <= n,
            0 <= ic,
            0 <= oc,
            0 <= w,
            0 <= h,
            0 <= x,
    ;
    assert(i == 0 || i == 1 || i == 2 || i == 3);
    if i == 0 {
        assert(is_well_typed(ops[0]) && is_image_fitting(ops[0], shapes));
    } else if i == 1 {
        assert(is_well_typed(ops[1]) && is_image_fitting(ops[1], shapes));
    } else if i == 2 {
        assert(is_well_typed(ops[2]) && is_image_fitting(ops[2], shapes));
    } else {
        assert(is_well_typed(ops[3]) && is_image_fitting(ops[3], shapes));
    }
}

/// The launch of the normalisation behind the filters reaches every channel or every image, on
/// planes that are as large as the outputs of the filters.
pub proof fn law_image_norm_launch_is_in_order(
    shapes: Map<usize, Seq<usize>>,
    tile_dim: u32,
    precision: Precision,
    layer: ConvView,
    input: TensorView,
    output: TensorView,
    images: usize,
    i: int,
)
    requires
        tile_area(tile_dim) * 4 <= u32::MAX,
        layer.norm is Some,
        images <= layer.max_batch_size,
        are_regular_images(layer, input),
        is_counted(layer, input),
        are_known_images(shapes, layer, input),
        shapes[output.id] == output.shape,
        are_images(
            output.shape,
            layer.weights.shape[0] as int,
            filter_outputs(layer, input).0,
            filter_outputs(layer, input).1,
        ),
        conv_norm_part(tile_dim, precision, layer, input, output, images).refused is None,
        0 <= i < conv_norm_part(tile_dim, precision, layer, input, output, images).ops.len(),
    ensures
        is_image_in_order(
            conv_norm_part(tile_dim, precision, layer, input, output, images).ops[i],
            shapes,
            input.shape[0] as int,
            layer.weights.shape[0] as int,
        ),
{
    let out = filtered(layer, input);
    let grid = if layer.config.normalisation == Normalisation::BatchNorm {
        output.shape[1]
    } else {
        images
    };
    let sizes = seq![out.0, out.1, output.shape[1], grid];
    assert(sizes[0] == out.0 && sizes[1] == out.1 && sizes[2] == output.shape[1] && sizes[3]
        == grid);
    assert(0 <= tile_dim * tile_dim) by (nonlinear_arith);
}

/// The memory for the pixels that the pooling windows of one block look at, with one more column
/// where every row would otherwise start in the same memory bank.
pub open spec fn pool_memory(tile_dim: u32, precision: Precision, layer: ConvView) -> int {
    let windows = pooling_windows(layer);
    let width = tile_side(tile_dim, windows.stride.0 as int, windows.span().0);
    (width + bank_padding(width)) * tile_side(
        tile_dim,
        windows.stride.1 as int,
        windows.span().1,
    ) * precision.width()
}

/// The outputs of the pooling, or of the filters where there is no pooling.
proof fn lemma_pooled(layer: ConvView, input: TensorView)
    requires
        is_counted(layer, input),
    ensures
        (pooled(layer, input).0 as int, pooled(layer, input).1 as int) == pooling_outputs(
            layer,
            input,
        ),
{
    let from = filtered(layer, input);
    let windows = pooling_windows(layer);
    assert((from.0 as int, from.1 as int) == filter_outputs(layer, input));
    if layer.pooling is None {
        assert(windows.span() == (1int, 1int));
        assert(windows.elements((from.0 as int, from.1 as int)) == (from.0 as int, from.1 as int));
    }
}

/// The launch of the last stage of a layer reaches every pixel of the features, from planes that are
/// as large as the outputs of the filters.
#[verifier::rlimit(40)]
pub proof fn law_pooling_launch_is_in_order(
    shapes: Map<usize, Seq<usize>>,
    tile_dim: u32,
    precision: Precision,
    layer: ConvView,
    input: TensorView,
    use_dropout: bool,
    step: usize,
    i: int,
)
    requires
        1 <= tile_dim,
        are_regular_images(layer, input),
        is_counted(layer, input),
        layer.pooling matches Some(cfg) ==> cfg.wf(),
        layer.pooling_type is Some ==> layer.pooling is Some,
        are_known_images(shapes, layer, input),
        pool_memory(tile_dim, precision, layer) <= u32::MAX,
        pooling_part(tile_dim, precision, layer, input, use_dropout, step).refused is None,
        0 <= i < pooling_part(tile_dim, precision, layer, input, use_dropout, step).ops.len(),
    ensures
        is_image_in_order(
            pooling_part(tile_dim, precision, layer, input, use_dropout, step).ops[i],
            shapes,
            input.shape[0] as int,
            layer.weights.shape[0] as int,
        ),
{
    let op = pooling_part(tile_dim, precision, layer, input, use_dropout, step).ops[0];
    let windows = pooling_windows(layer);
    let sizes = pooling_sizes(layer, input, step);
    let from = filtered(layer, input);
    let out = pooled(layer, input);
    assert(sizes[2] == input.shape[0] && sizes[3] == from.0 && sizes[4] == from.1 && sizes[5]
        == out.0 && sizes[6] == out.1 && sizes[7] == layer.cache.features.shape[1] && sizes[8]
        == windows.dimension.0 && sizes[9] == windows.dimension.1 && sizes[10] == windows.pad
        && sizes[11] == windows.stride.0 && sizes[12] == windows.stride.1 && sizes[13]
        == windows.dilation.0 && sizes[14] == windows.dilation.1);
    assert((from.0 as int, from.1 as int) == filter_outputs(layer, input));
    lemma_pooled(layer, input);
    assert((out.0 as int, out.1 as int) == pooling_outputs(layer, input));
    let (n, oc) = (input.shape[0] as int, layer.cache.features.shape[1] as int);
    assert(0 <= n * oc) by (nonlinear_arith)
        requires
            0 <= n,
            0 <= oc,
    ;
    law_volume_launch_covers(
        tile_dim,
        n,
        oc,
        out.1 as int,
        out.0 as int,
        op->config.shared_mem_bytes,
    );
    lemma_side(
        tile_dim,
        windows.stride.0 as int,
        windows.dimension.0 as int,
        windows.dilation.0 as int,
    );
    lemma_side(
        tile_dim,
        windows.stride.1 as int,
        windows.dimension.1 as int,
        windows.dilation.1 as int,
    );
    let s = tile_side(tile_dim, windows.stride.0 as int, windows.span().0);
    let t = tile_side(tile_dim, windows.stride.1 as int, windows.span().1);
    let u = s + bank_padding(s);
    assert(0 <= u * t * precision.width()) by (nonlinear_arith)
        requires
            0 <= u,
            0 <= t,
            0 <= precision.width(),
    ;
    assert(is_well_typed(op));
    assert(is_image_fitting(op, shapes));
    let seen = block_reach(op);
    assert(seen.0 == s && seen.1 == t);
    assert(is_image_reached(op, n, layer.weights.shape[0] as int));
}

/// Filters are slid over an input exactly if every number that the kernel takes fits in its 32 bits,
/// and so do the spans of the windows and the number of planes.
pub proof fn law_fitting_filters_are_slid(
    tile_dim: u32,
    precision: Precision,
    layer: ConvView,
    input: TensorView,
    output: TensorView,
)
    requires
        is_counted(layer, input),
    ensures
        spatial_filters(tile_dim, precision, layer, input, output).refused is None <==> {
            let (x, y) = filter_outputs(layer, input);
            &&& input.shape[0] <= u32::MAX && input.shape[1] <= u32::MAX
            &&& input.shape[2] <= u32::MAX && input.shape[3] <= u32::MAX
            &&& x <= u32::MAX && y <= u32::MAX && output.shape[1] <= u32::MAX
            &&& layer.weights.shape[2] <= u32::MAX && layer.weights.shape[3] <= u32::MAX
            &&& layer.filter.pad <= u32::MAX
            &&& layer.filter.stride.0 <= u32::MAX && layer.filter.stride.1 <= u32::MAX
            &&& layer.filter.dilation.0 <= u32::MAX && layer.filter.dilation.1 <= u32::MAX
            &&& (layer.filter.dimension.0 - 1) * layer.filter.dilation.0 + 1 <= u32::MAX
            &&& (layer.filter.dimension.1 - 1) * layer.filter.dilation.1 + 1 <= u32::MAX
            &&& input.shape[0] * output.shape[1] <= u32::MAX
        },
{
    let sizes = filter_sizes(layer, input, output);
    assert(sizes.len() == 14 && sizes[0] == input.shape[0] && sizes[1] == input.shape[1] && sizes[2]
        == input.shape[3] && sizes[3] == input.shape[2] && sizes[4] == filtered(layer, input).0
        && sizes[5] == filtered(layer, input).1 && sizes[6] == output.shape[1] && sizes[7]
        == layer.weights.shape[3] && sizes[8] == layer.weights.shape[2] && sizes[9]
        == layer.filter.pad && sizes[10] == layer.filter.stride.0 && sizes[11]
        == layer.filter.stride.1 && sizes[12] == layer.filter.dilation.0 && sizes[13]
        == layer.filter.dilation.1);
}

/// What the grids and the memory of a forward pass over images need: they can be worked out in 32
/// bits.
pub open spec fn is_launchable(
    tile_dim: u32,
    precision: Precision,
    layer: ConvView,
    input: TensorView,
    use_dropout: bool,
) -> bool {
    &&& 1 <= tile_dim && tile_area(tile_dim) * 4 <= u32::MAX
    &&& layer.wf()
    &&& layer.pooling_type is Some ==> layer.pooling is Some
    &&& layer.algorithm == ConvAlgorithm::Spatial ==> slid_memory(tile_dim, precision, layer)
        <= u32::MAX
    &&& layer.algorithm == ConvAlgorithm::FrequencyFFT ==> layer.fft is Some && frequency_ready(
        layer,
        input,
        filter_output(layer, use_dropout),
        layer.fft->0,
    )
    &&& pool_memory(tile_dim, precision, layer) <= u32::MAX
}

/// Every launch of a forward pass over images reaches every pixel that it works out, and hands its
/// kernel tensors whose shapes go together.
pub proof fn law_image_launches_are_in_order(
    shapes: Map<usize, Seq<usize>>,
    tile_dim: u32,
    precision: Precision,
    layer: ConvView,
    input: TensorView,
    images: usize,
    use_dropout: bool,
    step: usize,
    i: int,
)
    requires
        is_launchable(tile_dim, precision, layer, input, use_dropout),
        are_regular_images(layer, input),
        is_counted(layer, input),
        are_known_images(shapes, layer, input),
        images <= layer.max_batch_size,
        ({
            let outcome = conv_forward_pass(
                tile_dim,
                precision,
                layer,
                input,
                images,
                use_dropout,
                step,
            );
            outcome.refused is None && 0 <= i < outcome.ops.len()
        }),
    ensures
        is_image_in_order(
            conv_forward_pass(
                tile_dim,
                precision,
                layer,
                input,
                images,
                use_dropout,
                step,
            ).ops[i],
            shapes,
            input.shape[0] as int,
            layer.weights.shape[0] as int,
        ),
{
    let normal = layer.config.normalisation != Normalisation::Disabled;
    let to = stage_output(layer, use_dropout);
    let from = filter_output(layer, use_dropout);
    let last = has_last_stage(layer, use_dropout);
    let first = filter_part(tile_dim, precision, layer, input, use_dropout).ops;
    let second = if normal {
        conv_norm_part(tile_dim, precision, layer, input, to, images).ops
    } else {
        seq![]
    };
    let third = if last {
        pooling_part(tile_dim, precision, layer, input, use_dropout, step).ops
    } else {
        seq![]
    };
    let all = conv_forward_pass(
        tile_dim,
        precision,
        layer,
        input,
        images,
        use_dropout,
        step,
    ).ops;
    assert(all == first + second + third);
    let (m, n) = (first.len() as int, second.len() as int);
    if i < m {
        assert(all[i] == first[i]);
        if layer.algorithm == ConvAlgorithm::Spatial {
            law_slid_filters_are_in_order(shapes, tile_dim, precision, layer, input, from, i);
        } else {
            law_frequency_launches_are_in_order(
                shapes,
                tile_dim,
                precision,
                layer,
                input,
                from,
                layer.fft->0,
                i,
            );
        }
    } else if i < m + n {
        assert(all[i] == second[i - m]);
        law_image_norm_launch_is_in_order(
            shapes,
            tile_dim,
            precision,
            layer,
            input,
            to,
            images,
            i - m,
        );
    } else {
        assert(all[i] == third[i - m - n]);
        law_pooling_launch_is_in_order(
            shapes,
            tile_dim,
            precision,
            layer,
            input,
            use_dropout,
            step,
            i - m - n,
        );
    }
}

} // verus!
