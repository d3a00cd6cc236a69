//! Which images a convolutional layer takes, and what it makes of them.

use vstd::prelude::*;

use crate::conv::{
    conv_forward_through, conv_pass_refusal, full_input, is_full, norm_shapes, padded_input,
    ConvPlan, ConvView,
};
use crate::io::device::conv_device::conv_forward_pass;
use crate::io::device::conv_launch_laws::are_regular_images;
use crate::io::device::conv_laws::{
    are_apart, channels_agree, filter_outputs, filtered_images, has_pooled, image_buffers,
    image_norm_work, is_counted, is_kept_by_images, law_images_go_through_the_layer,
    normalised_images, pool_work, pooling_outputs,
};
use crate::io::device::meaning::{after, lemma_single, part, Contents};
use crate::io::device::signature::Param;
use crate::io::device::util_laws::{
    fill_of, left, lemma_freed, lemma_left, lemma_left_nothing, lemma_made_holds, lemma_zeros,
};
use crate::io::device::{DeviceView, HostView, OpView};
use crate::mlp::start::{numbers_in, ones, zeros};
use crate::util::context::LayerInitConfig;
use crate::util::function::{Activation, ConvAlgorithm, Normalisation, PoolingType};
use crate::util::precision::Precision;
use crate::util::tensor::{element_count, free_ops, made_all, with_zeros, Recipe, TensorView};

verus! {

/// Images suit a layer: there are enough of them for the batch and room for all of them, they have
/// the channels that the filters look at, they are at least as large as the filters, larger than
/// their padding, and no larger than what the layer was made for.
pub open spec fn are_suitable(layer: ConvView, input: TensorView, images: usize) -> bool {
    let (w, h) = (input.shape[3], input.shape[2]);
    &&& images <= input.shape[0] <= layer.max_batch_size
    &&& input.shape[1] == layer.weights.shape[1]
    &&& 1 <= w && layer.weights.shape[3] <= w <= layer.max_input_dim.0
    &&& 1 <= h && layer.weights.shape[2] <= h <= layer.max_input_dim.1
    &&& layer.filter.pad < w && layer.filter.pad < h
}

/// A layer takes images exactly if they are suitable, there is at least one, a batch normalisation
/// has at least two to compare, and the layer leaves the softmax to the loss.
pub proof fn law_suitable_images_are_taken(layer: ConvView, input: TensorView, images: usize)
    ensures
        conv_pass_refusal(layer, input, images) is None <==> {
            &&& are_suitable(layer, input, images)
            &&& images >= 1
            &&& layer.config.normalisation == Normalisation::BatchNorm ==> images >= 2
            &&& layer.config.activation != Activation::Softmax
        },
{
}

/// What the filters of a layer see of an input: its images, or where they are smaller than the layer
/// was made for, planes of zeros with the images in their top left corners.
pub open spec fn seen(
    c: Map<usize, Contents>,
    precision: Precision,
    layer: ConvView,
    input: TensorView,
) -> Contents {
    let (w, h) = (input.shape[3], input.shape[2]);
    if w == layer.max_input_dim.0 && h == layer.max_input_dim.1 {
        c[input.id]
    } else {
        let shape = seq![
            input.shape[0],
            input.shape[1],
            layer.max_input_dim.1,
            layer.max_input_dim.0,
        ];
        Contents::Corner {
            planes: (input.shape[0] * input.shape[1]) as usize as int,
            inside: Box::new(c[input.id]),
            inner: (w as int, h as int),
            around: Box::new(
                Contents::Filled {
                    precision,
                    pattern: 0,
                    len: element_count(shape) as usize as int,
                },
            ),
            outer: (layer.max_input_dim.0 as int, layer.max_input_dim.1 as int),
        }
    }
}

/// The padded images of an input.
proof fn lemma_padded(
    c: Map<usize, Contents>,
    d: DeviceView,
    precision: Precision,
    layer: ConvView,
    input: TensorView,
)
    requires
        !is_full(layer, input),
        input.id != d.next_id,
    ensures
        ({
            let e = padded_input(d, precision, layer, input);
            &&& left(c, d, e) == c.insert(
                d.next_id,
                Contents::Filled {
                    precision,
                    pattern: 0,
                    len: element_count(full_input(d, layer, input).shape) as usize as int,
                },
            ).insert(d.next_id, seen(c, precision, layer, input))
            &&& d.queue.len() <= e.queue.len()
        }),
{
    let full = full_input(d, layer, input);
    let zeroed = with_zeros(d, precision, full.shape);
    lemma_left_nothing(c, d);
    lemma_zeros(c, d, d, precision, full.shape);
    let op = OpView::Inset {
        tensor: full.id,
        source: input.id,
        planes: (input.shape[0] * input.shape[1]) as usize,
        inner: (input.shape[3], input.shape[2]),
        outer: layer.max_input_dim,
    };
    lemma_left(c, d, zeroed, seq![op]);
    lemma_single(left(c, d, zeroed), op);
}

/// What a forward pass makes of what its filters see is in the features, and in what the layer keeps
/// for its backward pass.
pub open spec fn has_passed(
    r: Map<usize, Contents>,
    s: Map<usize, Contents>,
    precision: Precision,
    layer: ConvView,
    full: TensorView,
    images: usize,
    use_dropout: bool,
    step: usize,
) -> bool {
    let of = normalised_images(s, precision, layer, full, images);
    let norm = image_norm_work(s, precision, layer, full, images);
    let idle = layer.config.activation == Activation::Identity && layer.pooling is None
        && !use_dropout;
    &&& idle ==> r[layer.cache.features.id] == of
    &&& !idle ==> {
        &&& r[layer.cache.preact_features.id] == of
        &&& has_pooled(r, precision, layer, pool_work(of, layer, full, use_dropout, step))
    }
    &&& layer.config.normalisation != Normalisation::Disabled ==> {
        let n = layer.norm->0;
        &&& r[n.prenorm_features.id] == filtered_images(s, precision, layer, full)
        &&& r[n.centered_features.id] == part(Param::Centred, precision, norm)
        &&& r[n.norm_rstd.id] == part(Param::Deviations, precision, norm)
    }
}

/// The buffers once an input is there as the filters of a layer see it.
pub open spec fn shown(
    c: Map<usize, Contents>,
    d: DeviceView,
    precision: Precision,
    layer: ConvView,
    input: TensorView,
) -> Map<usize, Contents> {
    if is_full(layer, input) {
        c
    } else {
        c.insert(d.next_id, seen(c, precision, layer, input))
    }
}

/// A forward pass over what the filters see.
proof fn lemma_passed(
    s: Map<usize, Contents>,
    tile_dim: u32,
    precision: Precision,
    layer: ConvView,
    full: TensorView,
    images: usize,
    use_dropout: bool,
    step: usize,
)
    requires
        layer.wf(),
        are_apart(image_buffers(layer)),
        channels_agree(layer, full),
        is_counted(layer, full),
        layer.algorithm == ConvAlgorithm::FrequencyFFT ==> layer.fft is Some,
        conv_forward_pass(
            tile_dim,
            precision,
            layer,
            full,
            images,
            use_dropout,
            step,
        ).refused is None,
    ensures
        ({
            let r = after(
                s,
                conv_forward_pass(
                    tile_dim,
                    precision,
                    layer,
                    full,
                    images,
                    use_dropout,
                    step,
                ).ops,
            );
            &&& has_passed(r, s, precision, layer, full, images, use_dropout, step)
            &&& forall|id: usize| is_kept_by_images(layer, id) ==> (#[trigger] r[id]) == s[id]
        }),
{
    law_images_go_through_the_layer(
        s,
        tile_dim,
        precision,
        layer,
        full,
        images,
        use_dropout,
        step,
    );
}

/// What a forward pass has left stays when a buffer beside those of the layer changes.
#[verifier::rlimit(40)]
proof fn lemma_stays_passed(
    r: Map<usize, Contents>,
    m: Map<usize, Contents>,
    s: Map<usize, Contents>,
    precision: Precision,
    layer: ConvView,
    full: TensorView,
    images: usize,
    use_dropout: bool,
    step: usize,
    free: usize,
)
    requires
        layer.wf(),
        has_passed(m, s, precision, layer, full, images, use_dropout, step),
        forall|id: usize| id != free ==> (#[trigger] r[id]) == m[id],
        forall|i: int|
            0 <= i < image_buffers(layer).len() ==> (#[trigger] image_buffers(layer)[i]) != Some(
                free,
            ),
    ensures
        has_passed(r, s, precision, layer, full, images, use_dropout, step),
{
    lemma_buffers(layer, free);
}

/// Whatever the size of its images, an input that a layer takes goes through its filters as images of
/// the size that the layer was made for, and on through the stages behind them into the features. No
/// tensor beside those of the layer changes.
#[verifier::rlimit(40)]
pub proof fn law_images_of_any_size_go_through_the_layer(
    c: Map<usize, Contents>,
    d: DeviceView,
    precision: Precision,
    layer: ConvView,
    input: TensorView,
    images: usize,
    use_dropout: bool,
    step: usize,
)
    requires
        layer.wf(),
        are_apart(image_buffers(layer)),
        forall|i: int|
            0 <= i < image_buffers(layer).len() ==> (#[trigger] image_buffers(layer)[i]) != Some(
                d.next_id,
            ),
        input.id != d.next_id,
        channels_agree(layer, full_input(d, layer, input)),
        is_counted(layer, full_input(d, layer, input)),
        layer.algorithm == ConvAlgorithm::FrequencyFFT ==> layer.fft is Some,
        conv_forward_through(d, precision, layer, input, images, use_dropout, step).1 is None,
    ensures
        ({
            let e = conv_forward_through(
                d,
                precision,
                layer,
                input,
                images,
                use_dropout,
                step,
            ).0;
            let r = left(c, d, e);
            let s = shown(c, d, precision, layer, input);
            &&& has_passed(
                r,
                s,
                precision,
                layer,
                full_input(d, layer, input),
                images,
                use_dropout,
                step,
            )
            &&& forall|id: usize|
                is_kept_by_images(layer, id) && id != d.next_id ==> (#[trigger] r[id]) == c[id]
        }),
{
    let full = full_input(d, layer, input);
    let s = shown(c, d, precision, layer, input);
    let ops = conv_forward_pass(
        d.tile_dim,
        precision,
        layer,
        full,
        images,
        use_dropout,
        step,
    ).ops;
    let e = conv_forward_through(d, precision, layer, input, images, use_dropout, step).0;
    let r = left(c, d, e);
    lemma_left_nothing(c, d);
    lemma_passed(s, d.tile_dim, precision, layer, full, images, use_dropout, step);
    if is_full(layer, input) {
        lemma_left(c, d, d, ops);
    } else {
        lemma_padded(c, d, precision, layer, input);
        let padded = padded_input(d, precision, layer, input);
        assert(left(c, d, padded) =~= s);
        lemma_left(c, d, padded, ops);
        let passed = padded.then_run(ops);
        lemma_left(c, d, passed, free_ops(full));
        let m = left(c, d, passed);
        assert(m == after(s, ops));
        assert forall|id: usize| id != d.next_id implies (#[trigger] r[id]) == m[id] by {
            lemma_freed(m, free_ops(full), id);
        }
        lemma_stays_passed(
            r,
            m,
            s,
            precision,
            layer,
            full,
            images,
            use_dropout,
            step,
            d.next_id,
        );
    }
}

/// The buffers of a layer are not the one that is made next.
proof fn lemma_buffers(layer: ConvView, id: usize)
    requires
        forall|i: int|
            0 <= i < image_buffers(layer).len() ==> (#[trigger] image_buffers(layer)[i]) != Some(
                id,
            ),
    ensures
        layer.cache.features.id != id && layer.cache.predrop_features.id != id,
        layer.cache.prepooling_features.id != id && layer.cache.preact_features.id != id,
        layer.mask.id != id,
        layer.norm matches Some(n) ==> n.centered_features.id != id && n.prenorm_features.id != id
            && n.norm_rstd.id != id,
{
    let b = image_buffers(layer);
    assert(b[2] == Some(layer.cache.features.id) && b[3] == Some(layer.cache.predrop_features.id));
    assert(b[4] == Some(layer.cache.prepooling_features.id));
    assert(b[5] == Some(layer.cache.preact_features.id) && b[6] == Some(layer.mask.id));
    if layer.norm is Some {
        let n = layer.norm->0;
        assert(b[9] == Some(n.centered_features.id) && b[10] == Some(n.prenorm_features.id) && b[11]
            == Some(n.norm_rstd.id));
    }
}

/// A list of tensors makes a layer: what it keeps of a forward pass, the filters, their biases, the
/// mask, and the tensors of a normalisation.
pub open spec fn makes_layer(
    list: Seq<Recipe>,
    plan: ConvPlan,
    precision: Precision,
    weights: HostView,
    norm: Normalisation,
) -> bool {
    let (before, behind) = (plan.filter_shape(), plan.pooling_shape());
    let shapes = norm_shapes(norm, before);
    &&& list.len() == (if norm == Normalisation::Disabled {
        7int
    } else {
        12
    })
    &&& list[0] == zeros(precision, behind) && list[1] == zeros(precision, behind)
    &&& plan.pooling is Some ==> list[2] == zeros(precision, before)
    &&& list[3] == zeros(precision, before)
    &&& list[4] == numbers_in(precision, precision, weights, plan.weight_shape())
    &&& list[5] == zeros(precision, seq![plan.out_channels])
    &&& list[6] == zeros(precision, before)
    &&& norm != Normalisation::Disabled ==> {
        &&& list[7] == ones(precision, shapes.0) && list[8] == zeros(precision, shapes.0)
        &&& list[9] == zeros(precision, before) && list[10] == zeros(precision, before)
        &&& list[11] == zeros(precision, shapes.1)
    }
}

/// The tensors of a planned layer.
proof fn lemma_planned(
    plan: ConvPlan,
    precision: Precision,
    weights: HostView,
    norm: Normalisation,
)
    ensures
        makes_layer(plan.recipes(precision, weights, norm), plan, precision, weights, norm),
{
    assert(plan.weight_shape()[0] == plan.out_channels);
}

/// The tensors of a new layer, by the ids that they take.
proof fn lemma_planned_ids(
    d: DeviceView,
    list: Seq<Recipe>,
    plan: ConvPlan,
    pooling_type: Option<PoolingType>,
    config: LayerInitConfig,
    is_training: bool,
)
    requires
        made_all(d, list).1 is None,
        d.next_id + 12 <= usize::MAX,
        list.len() == (if config.normalisation == Normalisation::Disabled {
            7int
        } else {
            12
        }),
    ensures
        ({
            let layer = plan.layer(d, list, pooling_type, config, is_training);
            let n = d.next_id as int;
            &&& layer.cache.features.id == n && layer.cache.predrop_features.id == n + 1
            &&& layer.cache.prepooling_features.id == n + 2
            &&& layer.cache.preact_features.id == n + 3
            &&& layer.weights.id == n + 4 && layer.biases.id == n + 5 && layer.mask.id == n + 6
            &&& layer.norm is Some <==> config.normalisation != Normalisation::Disabled
            &&& layer.norm matches Some(m) ==> {
                &&& m.norm_weights.id == n + 7 && m.norm_biases.id == n + 8
                &&& m.centered_features.id == n + 9 && m.prenorm_features.id == n + 10
                &&& m.norm_rstd.id == n + 11
            }
        }),
{
    let c = Map::<usize, Contents>::empty();
    lemma_made_holds(c, d, d, list, 0);
    lemma_made_holds(c, d, d, list, 1);
    lemma_made_holds(c, d, d, list, 2);
    lemma_made_holds(c, d, d, list, 3);
    lemma_made_holds(c, d, d, list, 4);
    lemma_made_holds(c, d, d, list, 5);
    lemma_made_holds(c, d, d, list, 6);
    if config.normalisation != Normalisation::Disabled {
        lemma_made_holds(c, d, d, list, 7);
        lemma_made_holds(c, d, d, list, 8);
        lemma_made_holds(c, d, d, list, 9);
        lemma_made_holds(c, d, d, list, 10);
        lemma_made_holds(c, d, d, list, 11);
    }
}

/// Each tensor of a new layer takes an id of its own, behind all that were given out before. On images
/// of the size that the layer was made for its tensors have the shapes that belong together, with a
/// filter for each channel of the features and a plane of it for each channel of the images.
pub proof fn law_new_conv_layer_owns_its_tensors(
    d: DeviceView,
    plan: ConvPlan,
    precision: Precision,
    weights: HostView,
    pooling_type: Option<PoolingType>,
    config: LayerInitConfig,
    is_training: bool,
    input: TensorView,
)
    requires
        d.next_id + 12 <= usize::MAX,
        made_all(d, plan.recipes(precision, weights, config.normalisation)).1 is None,
        0 <= plan.filter_out().0 <= usize::MAX,
        0 <= plan.filter_out().1 <= usize::MAX,
        0 <= plan.pooling_out().0 <= usize::MAX,
        0 <= plan.pooling_out().1 <= usize::MAX,
        input.shape.len() == 4,
        input.shape[1] == plan.in_channels,
        input.shape[2] == plan.max_input_dim.1,
        input.shape[3] == plan.max_input_dim.0,
    ensures
        ({
            let list = plan.recipes(precision, weights, config.normalisation);
            let layer = plan.layer(d, list, pooling_type, config, is_training);
            &&& are_apart(image_buffers(layer))
            &&& forall|i: int|
                0 <= i < image_buffers(layer).len() ==> {
                    (#[trigger] image_buffers(layer)[i]) matches Some(id) ==> d.next_id <= id
                        < d.next_id + 12
                }
            &&& are_regular_images(layer, input)
            &&& channels_agree(layer, input)
            &&& is_counted(layer, input)
            &&& layer.config == config && layer.max_batch_size == plan.max_batch_size
        }),
{
    let norm = config.normalisation;
    let list = plan.recipes(precision, weights, norm);
    let layer = plan.layer(d, list, pooling_type, config, is_training);
    lemma_planned(plan, precision, weights, norm);
    lemma_planned_ids(d, list, plan, pooling_type, config, is_training);
    lemma_planned_buffers(layer, d.next_id as int);
    lemma_planned_shapes(d, list, plan, precision, weights, pooling_type, config, is_training, input);
}

/// The buffers of a layer whose tensors have their ids one after the other.
proof fn lemma_planned_buffers(layer: ConvView, n: int)
    requires
        layer.fft is None,
        layer.cache.features.id == n && layer.cache.predrop_features.id == n + 1,
        layer.cache.prepooling_features.id == n + 2,
        layer.cache.preact_features.id == n + 3,
        layer.weights.id == n + 4 && layer.biases.id == n + 5 && layer.mask.id == n + 6,
        layer.norm matches Some(m) ==> {
            &&& m.norm_weights.id == n + 7 && m.norm_biases.id == n + 8
            &&& m.centered_features.id == n + 9 && m.prenorm_features.id == n + 10
            &&& m.norm_rstd.id == n + 11
        },
    ensures
        are_apart(image_buffers(layer)),
        forall|i: int|
            0 <= i < image_buffers(layer).len() ==> {
                (#[trigger] image_buffers(layer)[i]) matches Some(id) ==> n <= id < n + 12
            },
{
    let b = image_buffers(layer);
    let places = seq![4, 5, 0, 1, 2, 3, 6, 7, 8, 9, 10, 11int];
    assert forall|i: int| 0 <= i < b.len() && (#[trigger] b[i]) is Some implies 0 <= i < 12 && (
    b[i]->0) == n + places[i] by {
        assert(i == 0 || i == 1 || i == 2 || i == 3 || i == 4 || i == 5 || i == 6 || i == 7 || i
            == 8 || i == 9 || i == 10 || i == 11 || i == 12 || i == 13 || i == 14 || i == 15 || i
            == 16);
    }
    assert forall|i: int| 0 <= i < 12 implies 0 <= #[trigger] places[i] < 12 by {}
    assert forall|i: int, j: int| 0 <= i < j < 12 implies #[trigger] places[i]
        != #[trigger] places[j] by {}
}

/// The shapes of the tensors of a new layer.
proof fn lemma_planned_shapes(
    d: DeviceView,
    list: Seq<Recipe>,
    plan: ConvPlan,
    precision: Precision,
    weights: HostView,
    pooling_type: Option<PoolingType>,
    config: LayerInitConfig,
    is_training: bool,
    input: TensorView,
)
    requires
        makes_layer(list, plan, precision, weights, config.normalisation),
        0 <= plan.filter_out().0 <= usize::MAX,
        0 <= plan.filter_out().1 <= usize::MAX,
        0 <= plan.pooling_out().0 <= usize::MAX,
        0 <= plan.pooling_out().1 <= usize::MAX,
        input.shape.len() == 4,
        input.shape[1] == plan.in_channels,
        input.shape[2] == plan.max_input_dim.1,
        input.shape[3] == plan.max_input_dim.0,
    ensures
        ({
            let layer = plan.layer(d, list, pooling_type, config, is_training);
            &&& are_regular_images(layer, input)
            &&& channels_agree(layer, input)
            &&& is_counted(layer, input)
        }),
{
    let layer = plan.layer(d, list, pooling_type, config, is_training);
    assert(filter_outputs(layer, input) == plan.filter_out());
    assert(pooling_outputs(layer, input) == plan.pooling_out());
}

/// The filters of a new layer start from the numbers of the host and their biases from zero, and its
/// normalisation starts out changing nothing: its weights are one and its biases zero.
pub proof fn law_new_filters_are_those_of_the_host(
    c: Map<usize, Contents>,
    d: DeviceView,
    plan: ConvPlan,
    precision: Precision,
    weights: HostView,
    pooling_type: Option<PoolingType>,
    config: LayerInitConfig,
    is_training: bool,
)
    requires
        d.next_id + 12 <= usize::MAX,
        made_all(d, plan.recipes(precision, weights, config.normalisation)).1 is None,
    ensures
        ({
            let list = plan.recipes(precision, weights, config.normalisation);
            let layer = plan.layer(d, list, pooling_type, config, is_training);
            let r = left(c, d, made_all(d, list).0);
            &&& r[layer.weights.id] == (Contents::Host {
                precision,
                held: precision,
                numbers: weights,
            })
            &&& r[layer.biases.id] == fill_of(zeros(precision, layer.biases.shape))
            &&& layer.norm matches Some(n) ==> {
                &&& r[n.norm_weights.id] == fill_of(ones(precision, n.norm_weights.shape))
                &&& r[n.norm_biases.id] == fill_of(zeros(precision, n.norm_biases.shape))
            }
        }),
{
    let norm = config.normalisation;
    let list = plan.recipes(precision, weights, norm);
    lemma_planned(plan, precision, weights, norm);
    lemma_planned_ids(d, list, plan, pooling_type, config, is_training);
    lemma_made_holds(c, d, d, list, 4);
    lemma_made_holds(c, d, d, list, 5);
    if norm != Normalisation::Disabled {
        lemma_made_holds(c, d, d, list, 7);
        lemma_made_holds(c, d, d, list, 8);
    }
}

/// The filters of a layer have as many weights in all as one filter has for each filter, and as look
/// at one channel of the images for each channel.
pub proof fn law_fans_count_the_weights(plan: ConvPlan)
    ensures
        ({
            let s = plan.weight_shape();
            &&& plan.fan_in() * plan.out_channels == s[0] * s[1] * s[2] * s[3]
            &&& plan.fan_out() * plan.in_channels == s[0] * s[1] * s[2] * s[3]
            &&& s[0] == plan.out_channels && s[1] == plan.in_channels
        }),
{
    let (o, i, w, h) = (
        plan.out_channels as int,
        plan.in_channels as int,
        plan.filter.dimension.0 as int,
        plan.filter.dimension.1 as int,
    );
    assert(i * w * h * o == o * i * h * w && o * w * h * i == o * i * h * w) by (nonlinear_arith);
}

} // verus!
