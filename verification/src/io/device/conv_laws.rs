//! What the passes through a convolutional layer amount to.

use vstd::prelude::*;

use crate::conv::ConvView;
use crate::io::device::conv_device::{
    conv_forward_pass, conv_norm_part, conv_output_error, filter_output, filter_part, filter_sizes,
    filtered, frequency_filters, has_last_stage, pooled, pooling_part, pooling_sizes,
    pooling_windows, spatial_filters, stage_output,
};
use crate::io::device::meaning::{
    after, carried_out, law_work_goes_on_from_work, launched, lemma_one, lemma_single, lemma_waited,
    lemma_written_at, lemma_written_elsewhere, outcomes, part, work, written, Contents, Dropout,
    Sliding, Work,
};
use crate::io::device::signature::{tensor, Param};
use crate::io::device::{Kernel, KernelArg, OpView};
use crate::util::function::{
    Activation, ConvAlgorithm, KernelConfig, Normalisation, PaddingType, PoolingType,
};
use crate::util::precision::Precision;
use crate::util::tensor::{scrambled_seed, TensorView};

verus! {

/// The buffers of a layer.
pub open spec fn image_buffers(layer: ConvView) -> Seq<Option<usize>> {
    let (norm, fft) = (layer.norm, layer.fft);
    seq![
        Some(layer.weights.id),
        Some(layer.biases.id),
        Some(layer.cache.features.id),
        Some(layer.cache.predrop_features.id),
        Some(layer.cache.prepooling_features.id),
        Some(layer.cache.preact_features.id),
        Some(layer.mask.id),
        if norm is Some {
            Some((norm->0).norm_weights.id)
        } else {
            None
        },
        if norm is Some {
            Some((norm->0).norm_biases.id)
        } else {
            None
        },
        if norm is Some {
            Some((norm->0).centered_features.id)
        } else {
            None
        },
        if norm is Some {
            Some((norm->0).prenorm_features.id)
        } else {
            None
        },
        if norm is Some {
            Some((norm->0).norm_rstd.id)
        } else {
            None
        },
        if fft is Some {
            Some((fft->0).input.tensor)
        } else {
            None
        },
        if fft is Some {
            Some((fft->0).weights.tensor)
        } else {
            None
        },
        if fft is Some {
            Some((fft->0).output.tensor)
        } else {
            None
        },
        if fft is Some {
            Some((fft->0).twiddle_width.tensor)
        } else {
            None
        },
        if fft is Some {
            Some((fft->0).twiddle_height.tensor)
        } else {
            None
        },
    ]
}

/// No two buffers of a list are the same.
pub open spec fn are_apart(ids: Seq<Option<usize>>) -> bool {
    forall|i: int, j: int|
        0 <= i < j < ids.len() && (#[trigger] ids[i]) is Some && (#[trigger] ids[j]) is Some
            ==> ids[i] != ids[j]
}

/// The channels of a layer: every filter looks at each channel of the input, and gives one channel
/// of the features.
pub open spec fn channels_agree(layer: ConvView, input: TensorView) -> bool {
    &&& input.shape[1] == layer.weights.shape[1]
    &&& layer.cache.features.shape[1] == layer.weights.shape[0]
    &&& layer.cache.preact_features.shape[1] == layer.weights.shape[0]
    &&& layer.norm matches Some(n) ==> n.prenorm_features.shape[1] == layer.weights.shape[0]
}

/// How many windows of the filters lie side by side on an input.
pub open spec fn filter_outputs(layer: ConvView, input: TensorView) -> (int, int) {
    layer.filter.elements((input.shape[3] as int, input.shape[2] as int))
}

/// How many pixels are left of the outputs of the filters once they are pooled.
pub open spec fn pooling_outputs(layer: ConvView, input: TensorView) -> (int, int) {
    match layer.pooling {
        Some(cfg) => cfg.elements(filter_outputs(layer, input)),
        None => filter_outputs(layer, input),
    }
}

/// The windows of a layer on an input can be counted.
pub open spec fn is_counted(layer: ConvView, input: TensorView) -> bool {
    &&& 0 <= filter_outputs(layer, input).0 <= usize::MAX
    &&& 0 <= filter_outputs(layer, input).1 <= usize::MAX
    &&& 0 <= pooling_outputs(layer, input).0 <= usize::MAX
    &&& 0 <= pooling_outputs(layer, input).1 <= usize::MAX
}

/// Windows of a size that slide as they are told to.
pub open spec fn sliding(size: (usize, usize), cfg: KernelConfig) -> Sliding {
    Sliding {
        size: (size.0 as int, size.1 as int),
        pad: cfg.pad as int,
        pad_type: cfg.pad_type,
        stride: (cfg.stride.0 as int, cfg.stride.1 as int),
        dilation: (cfg.dilation.0 as int, cfg.dilation.1 as int),
    }
}

/// The biases that the filters of a layer add: none before a batch normalisation, which takes them
/// away again.
pub open spec fn filter_biases(c: Map<usize, Contents>, layer: ConvView) -> Option<Contents> {
    if layer.config.normalisation == Normalisation::BatchNorm {
        None
    } else {
        Some(c[layer.biases.id])
    }
}

/// The filters of a layer, slid over an input.
pub open spec fn slid_work(c: Map<usize, Contents>, layer: ConvView, input: TensorView) -> Work {
    Work::Filter {
        input: c[input.id],
        weights: c[layer.weights.id],
        biases: filter_biases(c, layer),
        input_channels: layer.weights.shape[1] as int,
        output_channels: layer.weights.shape[0] as int,
        from: (input.shape[3] as int, input.shape[2] as int),
        to: filter_outputs(layer, input),
        windows: sliding((layer.weights.shape[3], layer.weights.shape[2]), layer.filter),
    }
}

/// The width and height of the transforms of a layer.
pub open spec fn transform(layer: ConvView) -> (int, int) {
    ((layer.fft->0).size.0 as int, (layer.fft->0).size.1 as int)
}

/// The rows of an input and of the filters of a layer are transformed.
pub open spec fn rows_work(c: Map<usize, Contents>, layer: ConvView, input: TensorView) -> Work {
    Work::TransformRows {
        input: c[input.id],
        weights: c[layer.weights.id],
        roots: c[(layer.fft->0).twiddle_width.tensor],
        images: input.shape[0] as int,
        channels: layer.weights.shape[1] as int,
        size: (input.shape[3] as int, input.shape[2] as int),
        transform: transform(layer),
        window: (layer.weights.shape[3] as int, layer.weights.shape[2] as int),
        pad: layer.filter.pad as int,
        pad_type: layer.filter.pad_type,
        dilation: (layer.filter.dilation.0 as int, layer.filter.dilation.1 as int),
    }
}

/// The columns of what the rows became are transformed.
pub open spec fn columns_work(
    c: Map<usize, Contents>,
    precision: Precision,
    layer: ConvView,
    input: TensorView,
) -> Work {
    let rows = rows_work(c, layer, input);
    Work::TransformColumns {
        input: part(Param::InputFrequencies, precision, rows),
        weights: part(Param::WeightFrequencies, precision, rows),
        roots: c[(layer.fft->0).twiddle_height.tensor],
        images: input.shape[0] as int,
        channels: layer.weights.shape[1] as int,
        transform: transform(layer),
    }
}

/// The frequencies are multiplied, and the rows of the product are transformed back.
pub open spec fn product_work(
    c: Map<usize, Contents>,
    precision: Precision,
    layer: ConvView,
    input: TensorView,
) -> Work {
    let columns = columns_work(c, precision, layer, input);
    Work::Multiply {
        input: part(Param::InputFrequencies, precision, columns),
        weights: part(Param::WeightFrequencies, precision, columns),
        roots: c[(layer.fft->0).twiddle_width.tensor],
        input_channels: layer.weights.shape[1] as int,
        output_channels: layer.weights.shape[0] as int,
        transform: transform(layer),
    }
}

/// The columns of the product are transformed back.
pub open spec fn back_work(
    c: Map<usize, Contents>,
    precision: Precision,
    layer: ConvView,
    input: TensorView,
) -> Work {
    Work::TransformBack {
        of: part(
            Param::OutputFrequencies,
            precision,
            product_work(c, precision, layer, input),
        ),
        roots: c[(layer.fft->0).twiddle_height.tensor],
        biases: filter_biases(c, layer),
        channels: layer.weights.shape[0] as int,
        transform: transform(layer),
        size: filter_outputs(layer, input),
        stride: (layer.filter.stride.0 as int, layer.filter.stride.1 as int),
    }
}

/// What the filters of a layer make of an input.
pub open spec fn filtered_images(
    c: Map<usize, Contents>,
    precision: Precision,
    layer: ConvView,
    input: TensorView,
) -> Contents {
    match layer.algorithm {
        ConvAlgorithm::Spatial => part(Param::Output, precision, slid_work(c, layer, input)),
        ConvAlgorithm::FrequencyFFT => part(
            Param::Output,
            precision,
            back_work(c, precision, layer, input),
        ),
    }
}

/// The normalisation of what the filters of a layer make of an input.
pub open spec fn image_norm_work(
    c: Map<usize, Contents>,
    precision: Precision,
    layer: ConvView,
    input: TensorView,
    images: usize,
) -> Work {
    Work::NormaliseImages {
        kind: layer.config.normalisation,
        of: filtered_images(c, precision, layer, input),
        weights: c[(layer.norm->0).norm_weights.id],
        biases: c[(layer.norm->0).norm_biases.id],
        size: filter_outputs(layer, input),
        channels: layer.weights.shape[0] as int,
        images: images as int,
    }
}

/// What comes out of the normalisation of a layer, or out of its filters where it has none.
pub open spec fn normalised_images(
    c: Map<usize, Contents>,
    precision: Precision,
    layer: ConvView,
    input: TensorView,
    images: usize,
) -> Contents {
    if layer.config.normalisation == Normalisation::Disabled {
        filtered_images(c, precision, layer, input)
    } else {
        part(Param::Output, precision, image_norm_work(c, precision, layer, input, images))
    }
}

/// The activation, the pooling and the dropout of a layer. Without a pooling, every pixel is a window
/// of its own.
pub open spec fn pool_work(
    of: Contents,
    layer: ConvView,
    input: TensorView,
    use_dropout: bool,
    step: usize,
) -> Work {
    Work::Pool {
        function: layer.config.activation,
        of,
        pooling: layer.pooling_type,
        dropout: if use_dropout {
            Some(
                Dropout {
                    coefficient: layer.config.mask_coeff,
                    seed: scrambled_seed(step as u32, layer.weights.id as u32) as int,
                },
            )
        } else {
            None
        },
        channels: layer.weights.shape[0] as int,
        from: filter_outputs(layer, input),
        to: pooling_outputs(layer, input),
        windows: match layer.pooling {
            Some(cfg) => sliding(cfg.dimension, cfg),
            None => Sliding {
                size: (1, 1),
                pad: 0,
                pad_type: PaddingType::ZeroPadding,
                stride: (1, 1),
                dilation: (1, 1),
            },
        },
    }
}

/// What a kernel that transforms an input and filters leaves.
proof fn lemma_two(
    c: Map<usize, Contents>,
    k: Kernel,
    precision: Precision,
    args: Seq<KernelArg>,
    w: Work,
)
    requires
        k == Kernel::ConvFftRowTransform || k == Kernel::ConvFftColTransform,
        tensor(k, args, Param::InputFrequencies) != tensor(k, args, Param::WeightFrequencies),
    ensures
        ({
            let r = written(c, k, precision, args, w, outcomes(k));
            let (a, b) = (
                tensor(k, args, Param::InputFrequencies),
                tensor(k, args, Param::WeightFrequencies),
            );
            &&& r[a] == part(Param::InputFrequencies, precision, w)
            &&& r[b] == part(Param::WeightFrequencies, precision, w)
            &&& forall|id: usize| id != a && id != b ==> (#[trigger] r[id]) == c[id]
        }),
{
    let params = outcomes(k);
    assert(params[0] == Param::InputFrequencies && params[1] == Param::WeightFrequencies);
    lemma_written_at(c, k, precision, args, w, params, 0);
    lemma_written_at(c, k, precision, args, w, params, 1);
    let r = written(c, k, precision, args, w, params);
    assert forall|id: usize|
        id != tensor(k, args, Param::InputFrequencies) && id != tensor(
            k,
            args,
            Param::WeightFrequencies,
        ) implies (#[trigger] r[id]) == c[id] by {
        lemma_written_elsewhere(c, k, precision, args, w, params, id);
    }
}

/// The sizes that the filters of a layer hand to a kernel, one by one.
proof fn lemma_filter_sizes(layer: ConvView, input: TensorView, output: TensorView)
    ensures
        ({
            let sizes = filter_sizes(layer, input, output);
            &&& sizes.len() == 14
            &&& sizes[0] == input.shape[0] && sizes[1] == input.shape[1]
            &&& sizes[2] == input.shape[3] && sizes[3] == input.shape[2]
            &&& sizes[4] == filtered(layer, input).0 && sizes[5] == filtered(layer, input).1
            &&& sizes[6] == output.shape[1]
            &&& sizes[7] == layer.weights.shape[3] && sizes[8] == layer.weights.shape[2]
            &&& sizes[9] == layer.filter.pad
            &&& sizes[10] == layer.filter.stride.0 && sizes[11] == layer.filter.stride.1
            &&& sizes[12] == layer.filter.dilation.0 && sizes[13] == layer.filter.dilation.1
        }),
{
}

/// The filters, slid over an input.
#[verifier::rlimit(40)]
proof fn lemma_spatial(
    c: Map<usize, Contents>,
    tile_dim: u32,
    precision: Precision,
    layer: ConvView,
    input: TensorView,
    output: TensorView,
)
    requires
        is_counted(layer, input),
        input.shape[1] == layer.weights.shape[1],
        output.shape[1] == layer.weights.shape[0],
        spatial_filters(tile_dim, precision, layer, input, output).refused is None,
    ensures
        ({
            let r = after(c, spatial_filters(tile_dim, precision, layer, input, output).ops);
            &&& r[output.id] == part(Param::Output, precision, slid_work(c, layer, input))
            &&& forall|id: usize| id != output.id ==> (#[trigger] r[id]) == c[id]
        }),
{
    let ops = spatial_filters(tile_dim, precision, layer, input, output).ops;
    let k = Kernel::ConvForwardPass0;
    let args = ops[0]->args;
    lemma_filter_sizes(layer, input, output);
    lemma_waited(c, ops[0]);
    assert(ops == seq![ops[0], OpView::Synchronize]);
    lemma_one(c, k, precision, args, work(c, k, args), Param::Output);
    assert(after(c, ops) == launched(c, k, precision, args));
    assert(work(c, k, args) == slid_work(c, layer, input));
}

/// The filters, by way of the frequencies.
#[verifier::rlimit(40)]
proof fn lemma_frequency(
    c: Map<usize, Contents>,
    tile_dim: u32,
    precision: Precision,
    layer: ConvView,
    input: TensorView,
    output: TensorView,
)
    requires
        are_apart(image_buffers(layer)),
        layer.fft is Some,
        is_counted(layer, input),
        input.shape[1] == layer.weights.shape[1],
        output.shape[1] == layer.weights.shape[0],
        frequency_filters(
            tile_dim,
            precision,
            layer,
            input,
            output,
            layer.fft->0,
        ).refused is None,
    ensures
        ({
            let fft = layer.fft->0;
            let r = after(
                c,
                frequency_filters(tile_dim, precision, layer, input, output, fft).ops,
            );
            &&& r[output.id] == part(
                Param::Output,
                precision,
                back_work(c, precision, layer, input),
            )
            &&& forall|id: usize|
                id != output.id && id != fft.input.tensor && id != fft.weights.tensor && id
                    != fft.output.tensor ==> (#[trigger] r[id]) == c[id]
        }),
{
    let fft = layer.fft->0;
    let ops = frequency_filters(tile_dim, precision, layer, input, output, fft).ops;
    lemma_filter_sizes(layer, input, output);
    let sizes = filter_sizes(layer, input, output) + seq![fft.size.0, fft.size.1];
    assert(forall|i: int|
        0 <= i < 14 ==> sizes[i] == #[trigger] filter_sizes(layer, input, output)[i]);
    assert(sizes[14] == fft.size.0 && sizes[15] == fft.size.1);
    assert(forall|i: int| 0 <= i < 16 ==> #[trigger] sizes[i] <= u32::MAX);
    let b = image_buffers(layer);
    assert(b[1] == Some(layer.biases.id) && b[12] == Some(fft.input.tensor) && b[13] == Some(
        fft.weights.tensor,
    ) && b[14] == Some(fft.output.tensor) && b[15] == Some(fft.twiddle_width.tensor) && b[16]
        == Some(fft.twiddle_height.tensor));
    let c1 = carried_out(c, ops[0]);
    let c2 = carried_out(c1, ops[1]);
    let c3 = carried_out(c2, ops[2]);
    let c4 = carried_out(c3, ops[3]);
    lemma_single(c, ops[0]);
    lemma_single(c1, ops[1]);
    lemma_single(c2, ops[2]);
    lemma_single(c3, ops[3]);
    law_work_goes_on_from_work(c, seq![ops[0]], seq![ops[1]]);
    law_work_goes_on_from_work(c, seq![ops[0]] + seq![ops[1]], seq![ops[2]]);
    law_work_goes_on_from_work(c, seq![ops[0]] + seq![ops[1]] + seq![ops[2]], seq![ops[3]]);
    assert(ops == seq![ops[0]] + seq![ops[1]] + seq![ops[2]] + seq![ops[3]]);
    assert(after(c, ops) == c4);
    let k1 = Kernel::ConvFftRowTransform;
    let rows = rows_work(c, layer, input);
    assert(work(c, k1, ops[0]->args) == rows);
    lemma_two(c, k1, precision, ops[0]->args, rows);
    let k2 = Kernel::ConvFftColTransform;
    let columns = columns_work(c, precision, layer, input);
    assert(work(c1, k2, ops[1]->args) == columns);
    lemma_two(c1, k2, precision, ops[1]->args, columns);
    let k3 = Kernel::ConvElemMulIfftRow;
    let product = product_work(c, precision, layer, input);
    assert(work(c2, k3, ops[2]->args) == product);
    lemma_one(c2, k3, precision, ops[2]->args, product, Param::OutputFrequencies);
    let k4 = Kernel::ConvIfftColTransform;
    let back = back_work(c, precision, layer, input);
    assert(work(c3, k4, ops[3]->args) == back);
    lemma_one(c3, k4, precision, ops[3]->args, back, Param::Output);
}

/// The normalisation of images.
#[verifier::rlimit(40)]
proof fn lemma_image_norm(
    c: Map<usize, Contents>,
    tile_dim: u32,
    precision: Precision,
    layer: ConvView,
    input: TensorView,
    output: TensorView,
    images: usize,
)
    requires
        are_apart(image_buffers(layer)),
        layer.norm is Some,
        is_counted(layer, input),
        output == layer.cache.preact_features || output == layer.cache.features,
        output.shape[1] == layer.weights.shape[0],
        conv_norm_part(tile_dim, precision, layer, input, output, images).refused is None,
    ensures
        ({
            let r = after(
                c,
                conv_norm_part(tile_dim, precision, layer, input, output, images).ops,
            );
            let norm = layer.norm->0;
            let w = Work::NormaliseImages {
                kind: layer.config.normalisation,
                of: c[norm.prenorm_features.id],
                weights: c[norm.norm_weights.id],
                biases: c[norm.norm_biases.id],
                size: filter_outputs(layer, input),
                channels: layer.weights.shape[0] as int,
                images: images as int,
            };
            &&& r[output.id] == part(Param::Output, precision, w)
            &&& r[norm.centered_features.id] == part(Param::Centred, precision, w)
            &&& r[norm.norm_rstd.id] == part(Param::Deviations, precision, w)
            &&& forall|id: usize|
                id != output.id && id != norm.centered_features.id && id != norm.norm_rstd.id
                    ==> (#[trigger] r[id]) == c[id]
        }),
{
    let ops = conv_norm_part(tile_dim, precision, layer, input, output, images).ops;
    let norm = layer.norm->0;
    let k = Kernel::ConvForwardPass1;
    let args = ops[0]->args;
    let out = filtered(layer, input);
    let grid = if layer.config.normalisation == Normalisation::BatchNorm {
        output.shape[1]
    } else {
        images
    };
    let sizes = seq![out.0, out.1, output.shape[1], grid];
    assert(sizes[0] == out.0 && sizes[1] == out.1 && sizes[2] == output.shape[1]);
    lemma_waited(c, ops[0]);
    assert(ops == seq![ops[0], OpView::Synchronize]);
    let b = image_buffers(layer);
    assert(b[2] == Some(layer.cache.features.id) && b[5] == Some(layer.cache.preact_features.id)
        && b[9] == Some(norm.centered_features.id) && b[11] == Some(norm.norm_rstd.id));
    let w = work(c, k, args);
    let params = outcomes(k);
    assert(params[0] == Param::Output && params[1] == Param::Centred && params[2]
        == Param::Deviations);
    lemma_written_at(c, k, precision, args, w, params, 0);
    lemma_written_at(c, k, precision, args, w, params, 1);
    lemma_written_at(c, k, precision, args, w, params, 2);
    let r = after(c, ops);
    assert(r == launched(c, k, precision, args));
    assert forall|id: usize|
        id != output.id && id != norm.centered_features.id && id
            != norm.norm_rstd.id implies (#[trigger] r[id]) == c[id] by {
        lemma_written_elsewhere(c, k, precision, args, w, params, id);
    }
}

/// What the last stage of a layer leaves.
pub open spec fn has_pooled(
    r: Map<usize, Contents>,
    precision: Precision,
    layer: ConvView,
    w: Work,
) -> bool {
    &&& r[layer.cache.features.id] == part(Param::Output, precision, w)
    &&& r[layer.cache.predrop_features.id] == part(Param::Predrop, precision, w)
    &&& r[layer.cache.prepooling_features.id] == part(Param::Prepooling, precision, w)
    &&& r[layer.mask.id] == part(Param::Mask, precision, w)
}

/// The last stage of a layer writes to none of the buffers.
pub open spec fn is_kept_pooling(layer: ConvView, id: usize) -> bool {
    &&& id != layer.cache.features.id
    &&& id != layer.cache.predrop_features.id
    &&& id != layer.cache.prepooling_features.id
    &&& id != layer.mask.id
}

/// The activation, the pooling and the dropout.
#[verifier::rlimit(40)]
proof fn lemma_pooling(
    c: Map<usize, Contents>,
    tile_dim: u32,
    precision: Precision,
    layer: ConvView,
    input: TensorView,
    use_dropout: bool,
    step: usize,
)
    requires
        are_apart(image_buffers(layer)),
        is_counted(layer, input),
        layer.cache.features.shape[1] == layer.weights.shape[0],
        pooling_part(tile_dim, precision, layer, input, use_dropout, step).refused is None,
    ensures
        ({
            let r = after(
                c,
                pooling_part(tile_dim, precision, layer, input, use_dropout, step).ops,
            );
            let w = pool_work(c[layer.cache.preact_features.id], layer, input, use_dropout, step);
            &&& has_pooled(r, precision, layer, w)
            &&& forall|id: usize| is_kept_pooling(layer, id) ==> (#[trigger] r[id]) == c[id]
        }),
{
    let ops = pooling_part(tile_dim, precision, layer, input, use_dropout, step).ops;
    let k = Kernel::ConvForwardPass2;
    let args = ops[0]->args;
    let windows = pooling_windows(layer);
    let sizes = pooling_sizes(layer, input, step);
    let from = filtered(layer, input);
    let out = pooled(layer, input);
    assert(sizes[3] == from.0 && sizes[4] == from.1 && sizes[5] == out.0 && sizes[6] == out.1
        && sizes[7] == layer.cache.features.shape[1] && sizes[8] == windows.dimension.0 && sizes[9]
        == windows.dimension.1 && sizes[10] == windows.pad && sizes[11] == windows.stride.0
        && sizes[12] == windows.stride.1 && sizes[13] == windows.dilation.0 && sizes[14]
        == windows.dilation.1);
    assert((from.0 as int, from.1 as int) == filter_outputs(layer, input));
    if layer.pooling is None {
        assert(windows.span() == (1int, 1int));
        assert(windows.elements((from.0 as int, from.1 as int)) == (from.0 as int, from.1 as int));
    }
    assert((out.0 as int, out.1 as int) == pooling_outputs(layer, input));
    lemma_waited(c, ops[0]);
    assert(ops == seq![ops[0], OpView::Synchronize]);
    if layer.pooling_type is Some {
        assert(layer.pooling_type->0 == PoolingType::MaxPooling);
    }
    let w = work(c, k, args);
    assert(w == pool_work(c[layer.cache.preact_features.id], layer, input, use_dropout, step));
    let params = outcomes(k);
    assert(params[0] == Param::Output && params[1] == Param::Predrop && params[2]
        == Param::Prepooling && params[3] == Param::Mask);
    let b = image_buffers(layer);
    assert(b[2] == Some(layer.cache.features.id) && b[3] == Some(layer.cache.predrop_features.id)
        && b[4] == Some(layer.cache.prepooling_features.id) && b[6] == Some(layer.mask.id));
    lemma_written_at(c, k, precision, args, w, params, 0);
    lemma_written_at(c, k, precision, args, w, params, 1);
    lemma_written_at(c, k, precision, args, w, params, 2);
    lemma_written_at(c, k, precision, args, w, params, 3);
    let r = after(c, ops);
    assert(r == launched(c, k, precision, args));
    assert forall|id: usize| is_kept_pooling(layer, id) implies (#[trigger] r[id]) == c[id] by {
        lemma_written_elsewhere(c, k, precision, args, w, params, id);
    }
}

/// The filters of a layer put what they make of an input where the stage behind them starts from,
/// and use nothing but the buffers of the frequencies beside.
proof fn lemma_filters(
    c: Map<usize, Contents>,
    tile_dim: u32,
    precision: Precision,
    layer: ConvView,
    input: TensorView,
    use_dropout: bool,
)
    requires
        are_apart(image_buffers(layer)),
        channels_agree(layer, input),
        is_counted(layer, input),
        layer.config.normalisation != Normalisation::Disabled ==> layer.norm is Some,
        layer.algorithm == ConvAlgorithm::FrequencyFFT ==> layer.fft is Some,
        filter_part(tile_dim, precision, layer, input, use_dropout).refused is None,
    ensures
        ({
            let r = after(c, filter_part(tile_dim, precision, layer, input, use_dropout).ops);
            let to = filter_output(layer, use_dropout);
            &&& r[to.id] == filtered_images(c, precision, layer, input)
            &&& forall|id: usize|
                id != to.id && !is_frequency_buffer(layer, id) ==> (#[trigger] r[id]) == c[id]
        }),
{
    let output = filter_output(layer, use_dropout);
    if layer.algorithm == ConvAlgorithm::Spatial {
        lemma_spatial(c, tile_dim, precision, layer, input, output);
    } else {
        lemma_frequency(c, tile_dim, precision, layer, input, output);
    }
}

/// A buffer holds frequencies of a layer.
pub open spec fn is_frequency_buffer(layer: ConvView, id: usize) -> bool {
    layer.fft matches Some(fft) && (id == fft.input.tensor || id == fft.weights.tensor || id
        == fft.output.tensor)
}

/// A forward pass writes to none of the buffers.
pub open spec fn is_kept_by_images(layer: ConvView, id: usize) -> bool {
    &&& is_kept_pooling(layer, id)
    &&& id != layer.cache.preact_features.id
    &&& !is_frequency_buffer(layer, id)
    &&& layer.norm matches Some(n) ==> id != n.centered_features.id && id != n.prenorm_features.id
        && id != n.norm_rstd.id
}

/// A forward pass takes the input through the filters of the layer, one channel of the outcome for
/// each filter, through its normalisation where it has one, and through its activation, pooling and
/// dropout where any of them has something to do; the outcome is put into the features. Each stage
/// starts from what the stage before it has written. Nothing but the buffers of the stages changes.
#[verifier::rlimit(40)]
pub proof fn law_images_go_through_the_layer(
    c: Map<usize, Contents>,
    tile_dim: u32,
    precision: Precision,
    layer: ConvView,
    input: TensorView,
    images: usize,
    use_dropout: bool,
    step: usize,
)
    requires
        are_apart(image_buffers(layer)),
        channels_agree(layer, input),
        is_counted(layer, input),
        layer.config.normalisation != Normalisation::Disabled ==> layer.norm is Some,
        layer.algorithm == ConvAlgorithm::FrequencyFFT ==> layer.fft is Some,
        conv_forward_pass(
            tile_dim,
            precision,
            layer,
            input,
            images,
            use_dropout,
            step,
        ).refused is None,
    ensures
        ({
            let r = after(
                c,
                conv_forward_pass(
                    tile_dim,
                    precision,
                    layer,
                    input,
                    images,
                    use_dropout,
                    step,
                ).ops,
            );
            let of = normalised_images(c, precision, layer, input, images);
            let norm = image_norm_work(c, precision, layer, input, images);
            let idle = layer.config.activation == Activation::Identity && layer.pooling is None
                && !use_dropout;
            &&& idle ==> r[layer.cache.features.id] == of
            &&& !idle ==> {
                &&& r[layer.cache.preact_features.id] == of
                &&& has_pooled(
                    r,
                    precision,
                    layer,
                    pool_work(of, layer, input, use_dropout, step),
                )
            }
            &&& layer.config.normalisation != Normalisation::Disabled ==> {
                let n = layer.norm->0;
                &&& r[n.prenorm_features.id] == filtered_images(c, precision, layer, input)
                &&& r[n.centered_features.id] == part(Param::Centred, precision, norm)
                &&& r[n.norm_rstd.id] == part(Param::Deviations, precision, norm)
            }
            &&& forall|id: usize| is_kept_by_images(layer, id) ==> (#[trigger] r[id]) == c[id]
        }),
{
    let b = image_buffers(layer);
    assert(b[0] == Some(layer.weights.id) && b[1] == Some(layer.biases.id));
    assert(b[2] == Some(layer.cache.features.id) && b[3] == Some(layer.cache.predrop_features.id));
    assert(b[4] == Some(layer.cache.prepooling_features.id));
    assert(b[5] == Some(layer.cache.preact_features.id) && b[6] == Some(layer.mask.id));
    if layer.norm is Some {
        let n = layer.norm->0;
        assert(b[7] == Some(n.norm_weights.id) && b[8] == Some(n.norm_biases.id));
        assert(b[9] == Some(n.centered_features.id) && b[10] == Some(n.prenorm_features.id));
        assert(b[11] == Some(n.norm_rstd.id));
    }
    if layer.fft is Some {
        let fft = layer.fft->0;
        assert(b[12] == Some(fft.input.tensor) && b[13] == Some(fft.weights.tensor));
        assert(b[14] == Some(fft.output.tensor));
    }
    let normal = layer.config.normalisation != Normalisation::Disabled;
    let to = stage_output(layer, use_dropout);
    let last = has_last_stage(layer, use_dropout);
    let first = filter_part(tile_dim, precision, layer, input, use_dropout).ops;
    let second = if normal {
        conv_norm_part(tile_dim, precision, layer, input, to, images).ops
    } else {
        seq![]
    };
    let third = if last {
        pooling_part(tile_dim, precision, layer, input, use_dropout, step).ops
    } else {
        seq![]
    };
    let all = conv_forward_pass(
        tile_dim,
        precision,
        layer,
        input,
        images,
        use_dropout,
        step,
    ).ops;
    assert(all == first + second + third);
    let c1 = after(c, first);
    let c2 = after(c1, second);
    let c3 = after(c2, third);
    law_work_goes_on_from_work(c, first, second);
    law_work_goes_on_from_work(c, first + second, third);
    assert(after(c, all) == c3);
    lemma_filters(c, tile_dim, precision, layer, input, use_dropout);
    if normal {
        lemma_image_norm(c1, tile_dim, precision, layer, input, to, images);
    } else {
        assert(c2 == c1);
    }
    if last {
        lemma_pooling(c2, tile_dim, precision, layer, input, use_dropout, step);
    } else {
        assert(c3 == c2);
    }
}

/// The error of an output layer takes the softmax over each whole image where the loss asks for one,
/// and changes nothing otherwise.
pub proof fn law_image_loss_takes_the_softmax(
    c: Map<usize, Contents>,
    tile_dim: u32,
    precision: Precision,
    layer: ConvView,
    activation: Activation,
)
    requires
        conv_output_error(tile_dim, precision, layer, activation).refused is None,
    ensures
        ({
            let r = after(c, conv_output_error(tile_dim, precision, layer, activation).ops);
            let out = layer.cache.features;
            &&& activation == Activation::Softmax ==> r[out.id] == part(
                Param::Output,
                precision,
                Work::Softmax {
                    of: c[out.id],
                    rows: out.shape[0] as int,
                    columns: out.shape[1] * out.shape[3] * out.shape[2],
                },
            )
            &&& activation != Activation::Softmax ==> r == c
            &&& forall|id: usize| id != out.id ==> (#[trigger] r[id]) == c[id]
        }),
{
    let ops = conv_output_error(tile_dim, precision, layer, activation).ops;
    let out = layer.cache.features;
    if activation == Activation::Softmax {
        let k = Kernel::Softmax;
        let args = ops[0]->args;
        assert(0 <= out.shape[1] * out.shape[3] * out.shape[2]) by (nonlinear_arith);
        lemma_waited(c, ops[0]);
        assert(ops == seq![ops[0], OpView::Synchronize]);
        lemma_one(c, k, precision, args, work(c, k, args), Param::Output);
    }
}

} // verus!
