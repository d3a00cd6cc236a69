//! Which batches a dense layer takes, and that it launches nothing out of order for them.

use vstd::prelude::*;

use crate::io::device::ffn_device::forward_fits;
use crate::io::device::launch_laws::{
    are_known, is_in_order, is_regular, law_forward_launches_are_in_order,
    law_hidden_launches_are_in_order, law_loss_launches_are_in_order, law_update_launch_is_in_order,
};
use crate::io::device::tile_area;
use crate::mlp::{
    backward_hidden_through, backward_output_through, forward_through, loss_through, DenseView,
};
use crate::util::context::{LossConfig, TrainContext};
use crate::util::function::{Activation, LossFunc, Normalisation};
use crate::util::precision::Precision;
use crate::util::tensor::TensorView;

verus! {

/// A batch of so many rows of an input suits a layer: the input has that many rows, the layer has
/// room for all rows of the input, and takes as many features as the input has.
pub open spec fn suits(layer: DenseView, input: TensorView, rows: usize) -> bool {
    &&& rows <= input.shape[0]
    &&& input.shape[0] <= layer.max_batch_size
    &&& input.shape[1] == layer.linear.w.shape[0]
}

/// So many rows can go through a layer: there is at least one, a batch normalisation has at least
/// two to compare, and the layer leaves the softmax to the loss.
pub open spec fn can_pass(layer: DenseView, rows: usize) -> bool {
    &&& rows >= 1
    &&& layer.config.normalisation == Normalisation::BatchNorm ==> rows >= 2
    &&& layer.config.activation != Activation::Softmax
}

/// Halves are worked on in tiles of sixteen.
pub open spec fn has_tiles(tile_dim: u32, precision: Precision) -> bool {
    precision == Precision::FP16 ==> tile_dim == 16
}

/// A layer takes a batch forward exactly if the batch suits it and can pass, the tiles fit the
/// precision, and every number fits in the 32 bits that the kernels take.
pub proof fn law_fitting_batches_are_taken_forward(
    tile_dim: u32,
    precision: Precision,
    layer: DenseView,
    input: TensorView,
    rows: usize,
    use_dropout: bool,
    step: usize,
)
    ensures
        forward_through(
            tile_dim,
            precision,
            layer,
            input,
            rows,
            use_dropout,
            step,
        ).refused is None <==> {
            &&& suits(layer, input, rows) && can_pass(layer, rows)
            &&& has_tiles(tile_dim, precision)
            &&& step <= u32::MAX && layer.linear.w.id <= u32::MAX && rows <= u32::MAX
            &&& layer.linear.w.shape[0] <= u32::MAX && layer.linear.w.shape[1] <= u32::MAX
        },
{
    reveal(forward_through);
    let sizes = seq![step, layer.linear.w.id, rows, input.shape[1], layer.outputs()];
    assert(sizes[0] == step && sizes[1] == layer.linear.w.id && sizes[2] == rows && sizes[3]
        == input.shape[1] && sizes[4] == layer.outputs());
}

/// Every launch for a batch that a layer takes forward is in order.
pub proof fn law_accepted_batches_are_launched_in_order(
    shapes: Map<usize, Seq<usize>>,
    tile_dim: u32,
    precision: Precision,
    layer: DenseView,
    input: TensorView,
    rows: usize,
    use_dropout: bool,
    step: usize,
    i: int,
)
    requires
        1 <= tile_dim,
        tile_area(tile_dim) * 4 <= u32::MAX,
        is_regular(layer),
        are_known(shapes, layer),
        shapes[input.id] == input.shape,
        input.shape.len() == 2,
        forward_fits(tile_dim, precision, layer, rows),
        ({
            let outcome = forward_through(
                tile_dim,
                precision,
                layer,
                input,
                rows,
                use_dropout,
                step,
            );
            outcome.refused is None && 0 <= i < outcome.ops.len()
        }),
    ensures
        is_in_order(
            forward_through(
                tile_dim,
                precision,
                layer,
                input,
                rows,
                use_dropout,
                step,
            ).ops[i],
            shapes,
        ),
{
    reveal(forward_through);
    law_forward_launches_are_in_order(
        shapes,
        tile_dim,
        precision,
        layer,
        input,
        rows,
        use_dropout,
        step,
        i,
    );
}

/// An output layer learns from a batch exactly if it is being trained, the batch suits it and can
/// pass, and every number fits in the 32 bits that the kernels take.
pub proof fn law_fitting_batches_are_learned_from(
    tile_dim: u32,
    precision: Precision,
    layer: DenseView,
    input: TensorView,
    train: TrainContext,
    step: usize,
)
    ensures
        backward_output_through(tile_dim, precision, layer, input, train, step).refused is None
            <==> {
            &&& layer.is_training
            &&& suits(layer, input, train.batch_size) && can_pass(layer, train.batch_size)
            &&& train.batch_size <= u32::MAX && step <= u32::MAX
            &&& layer.linear.w.shape[0] <= u32::MAX && layer.linear.w.shape[1] <= u32::MAX
        },
{
    reveal(backward_output_through);
    let sizes = seq![train.batch_size, layer.outputs(), layer.inputs(), step];
    assert(sizes[0] == train.batch_size && sizes[1] == layer.outputs() && sizes[2]
        == layer.inputs() && sizes[3] == step);
}

/// The launch of an update that is accepted is in order.
pub proof fn law_accepted_updates_are_launched_in_order(
    shapes: Map<usize, Seq<usize>>,
    tile_dim: u32,
    precision: Precision,
    layer: DenseView,
    input: TensorView,
    train: TrainContext,
    step: usize,
    i: int,
)
    requires
        1 <= tile_dim,
        is_regular(layer),
        layer.trainable(),
        are_known(shapes, layer),
        shapes[input.id] == input.shape,
        input.shape.len() == 2,
        ({
            let outcome = backward_output_through(
                tile_dim,
                precision,
                layer,
                input,
                train,
                step,
            );
            outcome.refused is None && 0 <= i < outcome.ops.len()
        }),
    ensures
        is_in_order(
            backward_output_through(tile_dim, precision, layer, input, train, step).ops[i],
            shapes,
        ),
{
    reveal(backward_output_through);
    law_update_launch_is_in_order(shapes, tile_dim, precision, layer, input, train, step, i);
}

/// A hidden layer learns from a batch exactly if it is being trained, the batch suits it and can
/// pass, the layer behind it takes as many features as it puts out and has gradients for each row of
/// the input, the tiles fit the precision, and every number fits in the 32 bits that the kernels take.
pub proof fn law_fitting_layers_learn_from_behind(
    tile_dim: u32,
    precision: Precision,
    layer: DenseView,
    next: DenseView,
    input: TensorView,
    train: TrainContext,
    step: usize,
)
    ensures
        backward_hidden_through(
            tile_dim,
            precision,
            layer,
            next,
            input,
            train,
            step,
        ).refused is None <==> {
            &&& layer.is_training
            &&& suits(layer, input, train.batch_size) && can_pass(layer, train.batch_size)
            &&& next.linear.w.shape[0] == layer.linear.w.shape[1]
            &&& (next.grad->0).shape[0] == input.shape[0]
            &&& has_tiles(tile_dim, precision)
            &&& (layer.d_norm_w->0).slice().len <= u32::MAX
            &&& (layer.d_norm_b->0).slice().len <= u32::MAX
            &&& train.batch_size <= u32::MAX && step <= u32::MAX
            &&& layer.linear.w.shape[0] <= u32::MAX && layer.linear.w.shape[1] <= u32::MAX
            &&& next.cache.out.shape[1] <= u32::MAX
        },
{
    reveal(backward_hidden_through);
    let sizes = seq![train.batch_size, layer.outputs(), layer.inputs(), step];
    assert(sizes[0] == train.batch_size && sizes[1] == layer.outputs() && sizes[2]
        == layer.inputs() && sizes[3] == step);
    let behind = seq![train.batch_size, layer.outputs(), next.cache.out.shape[1]];
    assert(behind[0] == train.batch_size && behind[1] == layer.outputs() && behind[2]
        == next.cache.out.shape[1]);
}

/// Every launch of the backward pass of a hidden layer that is accepted is in order.
pub proof fn law_accepted_hidden_passes_are_launched_in_order(
    shapes: Map<usize, Seq<usize>>,
    tile_dim: u32,
    precision: Precision,
    layer: DenseView,
    next: DenseView,
    input: TensorView,
    train: TrainContext,
    step: usize,
    i: int,
)
    requires
        1 <= tile_dim,
        tile_area(tile_dim) <= u32::MAX,
        is_regular(layer),
        is_regular(next),
        layer.trainable(),
        next.has_gradients(),
        are_known(shapes, layer),
        are_known(shapes, next),
        shapes[input.id] == input.shape,
        input.shape.len() == 2,
        ({
            let outcome = backward_hidden_through(
                tile_dim,
                precision,
                layer,
                next,
                input,
                train,
                step,
            );
            outcome.refused is None && 0 <= i < outcome.ops.len()
        }),
    ensures
        is_in_order(
            backward_hidden_through(
                tile_dim,
                precision,
                layer,
                next,
                input,
                train,
                step,
            ).ops[i],
            shapes,
        ),
{
    reveal(backward_hidden_through);
    assert((next.grad->0).shape[0] == next.max_batch_size);
    law_hidden_launches_are_in_order(
        shapes,
        tile_dim,
        precision,
        layer,
        next,
        input,
        layer.config.activation,
        train,
        step,
        i,
    );
}

/// A loss goes with an activation: a cross entropy with the softmax and with nothing else, a binary
/// one with the sigmoid and with nothing else, and a mean square with everything but the softmax.
pub open spec fn goes_with(config: LossConfig) -> bool {
    match config.activation {
        Activation::Softmax => config.loss_func == LossFunc::CrossEntropyLoss,
        Activation::Sigmoid => config.loss_func != LossFunc::CrossEntropyLoss,
        _ => config.loss_func == LossFunc::MeanSquareLoss,
    }
}

/// A loss is taken exactly if the layer is being trained, the target has a column for each output
/// and no more rows than there is room for, the loss goes with the activation, and every number fits
/// in the 32 bits that the kernels take.
pub proof fn law_fitting_targets_are_taken(
    tile_dim: u32,
    precision: Precision,
    layer: DenseView,
    target: TensorView,
    config: LossConfig,
)
    ensures
        loss_through(tile_dim, precision, layer, target, config).refused is None <==> {
            &&& layer.is_training
            &&& target.shape[1] == layer.linear.w.shape[1]
            &&& target.shape[0] <= layer.max_batch_size
            &&& goes_with(config)
            &&& (layer.d_norm_w->0).slice().len <= u32::MAX
            &&& (layer.d_norm_b->0).slice().len <= u32::MAX
            &&& layer.cache.out.shape[0] <= u32::MAX && layer.linear.w.shape[1] <= u32::MAX
            &&& config.activation == Activation::Softmax ==> layer.cache.out.shape[1] <= u32::MAX
        },
{
    reveal(loss_through);
    let sizes = seq![layer.cache.out.shape[0], layer.outputs()];
    assert(sizes[0] == layer.cache.out.shape[0] && sizes[1] == layer.outputs());
    let columns = seq![layer.cache.out.shape[1]];
    assert(columns[0] == layer.cache.out.shape[1]);
}

/// Every launch of a loss that is accepted is in order.
pub proof fn law_accepted_losses_are_launched_in_order(
    shapes: Map<usize, Seq<usize>>,
    tile_dim: u32,
    precision: Precision,
    layer: DenseView,
    target: TensorView,
    config: LossConfig,
    i: int,
)
    requires
        1 <= tile_dim,
        tile_area(tile_dim) <= u32::MAX,
        is_regular(layer),
        layer.has_gradients(),
        are_known(shapes, layer),
        shapes[target.id] == target.shape,
        target.shape.len() == 2,
        ({
            let outcome = loss_through(tile_dim, precision, layer, target, config);
            outcome.refused is None && 0 <= i < outcome.ops.len()
        }),
    ensures
        is_in_order(loss_through(tile_dim, precision, layer, target, config).ops[i], shapes),
{
    reveal(loss_through);
    law_loss_launches_are_in_order(
        shapes,
        tile_dim,
        precision,
        layer,
        target,
        config.loss_func,
        config.activation,
        i,
    );
}

} // verus!
