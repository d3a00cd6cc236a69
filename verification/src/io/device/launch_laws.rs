//! How the kernels of a dense layer are launched: over which grid, and on tensors of which shapes.

use vstd::prelude::*;

use crate::io::device::backward_laws::full_copy;
use crate::io::device::ffn_device::{
    activation_part, backward_pass, clear_norm_gradients, forward_fits, forward_pass, hidden_error,
    hidden_backward, linear_part, norm_part, output_error, softmax_part,
};
use crate::io::device::ffn_laws::layer_tensors;
use crate::io::device::meaning::told_normalisation;
use crate::io::device::signature::{count, handed, is_well_typed, launches, tensor, Param};
use crate::io::device::util_device::broadcast_ops;
use crate::io::device::{
    law_plane_launch_covers, law_tiles_cover, tile_area, Kernel, KernelArg, LaunchConfig, OpView,
};
use crate::mlp::state::larger;
use crate::mlp::DenseView;
use crate::util::context::TrainContext;
use crate::util::function::{Activation, LossFunc, Normalisation};
use crate::util::precision::Precision;
use crate::util::tensor::TensorView;

verus! {

/// A grid has a thread for each of `x` times `y` numbers, and less than a block more along each side.
pub open spec fn is_plane(config: LaunchConfig, x: int, y: int) -> bool {
    &&& x <= config.grid_dim.0 * config.block_dim.0 < x + config.block_dim.0
    &&& y <= config.grid_dim.1 * config.block_dim.1 < y + config.block_dim.1
    &&& config.grid_dim.2 == 1 && config.block_dim.2 == 1
}

/// A grid has one block for each of `n` items.
pub open spec fn is_line(config: LaunchConfig, n: int) -> bool {
    &&& config.grid_dim.0 == n
    &&& config.grid_dim.1 == 1 && config.grid_dim.2 == 1
    &&& config.block_dim.1 == 1 && config.block_dim.2 == 1
}

/// The threads of a launch reach every number that its kernel works out: a thread for each output of
/// each row, or for each weight of an update; a block for each feature of a batch normalisation, and
/// for each row of any other normalisation or of a softmax. A kernel that multiplies matrices tile
/// by tile has memory for one tile of each of them.
pub open spec fn is_reached(op: OpView) -> bool {
    op is Launch ==> {
        let (k, args, config) = (op->kernel, op->args, op->config);
        let (x, y) = (config.block_dim.0, config.block_dim.1);
        match k {
            Kernel::ForwardPass0 => {
                &&& is_plane(config, count(k, args, Param::Outputs), count(k, args, Param::Rows))
                &&& config.shared_mem_bytes == 2 * (x * y) * op->Launch_precision.width()
            },
            Kernel::ForwardPass2 | Kernel::ComputeOutputLayerError => is_plane(
                config,
                count(k, args, Param::Outputs),
                count(k, args, Param::Rows),
            ),
            Kernel::ComputeHiddenLayerError => {
                &&& is_plane(config, count(k, args, Param::Outputs), count(k, args, Param::Rows))
                &&& op->Launch_precision == Precision::FP16 ==> config.shared_mem_bytes == 2 * (x
                    * y) * op->Launch_precision.width()
            },
            Kernel::BackwardPass => is_plane(
                config,
                count(k, args, Param::Outputs),
                count(k, args, Param::Inputs),
            ),
            Kernel::ForwardPass1 => {
                &&& is_line(
                    config,
                    if told_normalisation(k, args) == Normalisation::BatchNorm {
                        count(k, args, Param::Outputs)
                    } else {
                        count(k, args, Param::Rows)
                    },
                )
                &&& config.shared_mem_bytes == 4 * x
            },
            Kernel::Softmax => is_line(config, count(k, args, Param::Rows)),
            Kernel::Broadcast => count(k, args, Param::Length) <= config.grid_dim.0
                * config.block_dim.0 < count(k, args, Param::Length) + config.block_dim.0,
            _ => true,
        }
    }
}

/// A tensor has at least so many rows, and exactly so many columns.
pub open spec fn is_matrix(shape: Seq<usize>, rows: int, columns: int) -> bool {
    shape.len() == 2 && rows <= shape[0] && shape[1] == columns
}

/// The tensors that a launch hands to its kernel have the shapes that the kernel goes by: an input
/// has as many columns as the weights have rows, an output as many as the weights have columns, and
/// the weights that an error is taken back through have as many columns as that error.
pub open spec fn is_fitting(op: OpView, shapes: Map<usize, Seq<usize>>) -> bool {
    op is Launch ==> {
        let (k, args) = (op->kernel, op->args);
        let rows = count(k, args, Param::Rows);
        let outputs = count(k, args, Param::Outputs);
        let inputs = count(k, args, Param::Inputs);
        let shape = |p: Param| shapes[tensor(k, args, p)];
        match k {
            Kernel::ForwardPass0 => {
                &&& is_matrix(shape(Param::Input), rows, inputs)
                &&& is_matrix(shape(Param::Weights), inputs, outputs)
                &&& shape(Param::Weights)[0] == inputs
                &&& is_matrix(shape(Param::Biases), 1, outputs)
                &&& is_matrix(shape(Param::Output), rows, outputs)
            },
            Kernel::ForwardPass1 => {
                &&& is_matrix(shape(Param::Prenorm), rows, outputs)
                &&& is_matrix(shape(Param::Centred), rows, outputs)
                &&& is_matrix(shape(Param::Output), rows, outputs)
                &&& is_matrix(shape(Param::NormWeights), 1, outputs)
                &&& is_matrix(shape(Param::NormBiases), 1, outputs)
                &&& rows <= shape(Param::Deviations)[0] && outputs <= shape(Param::Deviations)[0]
            },
            Kernel::ForwardPass2 => {
                &&& is_matrix(shape(Param::Preact), rows, outputs)
                &&& is_matrix(shape(Param::Predrop), rows, outputs)
                &&& is_matrix(shape(Param::Mask), rows, outputs)
                &&& is_matrix(shape(Param::Output), rows, outputs)
            },
            Kernel::Softmax => is_matrix(
                shape(Param::Output),
                rows,
                count(k, args, Param::Columns),
            ),
            Kernel::ComputeOutputLayerError => {
                &&& is_matrix(shape(Param::Prediction), rows, outputs)
                &&& is_matrix(shape(Param::Target), 0, outputs)
                &&& is_matrix(shape(Param::Preact), rows, outputs)
                &&& is_matrix(shape(Param::FullNormWeights), 1, outputs)
                &&& is_matrix(shape(Param::OutputSlope), rows, outputs)
                &&& is_matrix(shape(Param::PrenormSlope), rows, outputs)
                &&& is_matrix(shape(Param::Centred), rows, outputs)
                &&& is_matrix(shape(Param::Prenorm), rows, outputs)
            },
            Kernel::ComputeHiddenLayerError => {
                let behind = count(k, args, Param::OutputsBehind);
                &&& is_matrix(shape(Param::ErrorBehind), rows, behind)
                &&& is_matrix(shape(Param::WeightsBehind), outputs, behind)
                &&& shape(Param::WeightsBehind)[0] == outputs
                &&& is_matrix(shape(Param::FullNormWeights), 1, outputs)
                &&& is_matrix(shape(Param::OutputSlope), rows, outputs)
                &&& is_matrix(shape(Param::PrenormSlope), rows, outputs)
                &&& is_matrix(shape(Param::Centred), rows, outputs)
                &&& is_matrix(shape(Param::Prenorm), rows, outputs)
                &&& is_matrix(shape(Param::Predrop), rows, outputs)
                &&& is_matrix(shape(Param::Preact), rows, outputs)
                &&& is_matrix(shape(Param::Mask), rows, outputs)
            },
            Kernel::BackwardPass => {
                &&& is_matrix(shape(Param::Input), rows, inputs)
                &&& is_matrix(shape(Param::PrenormSlope), rows, outputs)
                &&& shape(Param::Weights) == seq![inputs as usize, outputs as usize]
                &&& shape(Param::FullWeights) == shape(Param::Weights)
                &&& shape(Param::WeightVelocity) == shape(Param::Weights)
                &&& shape(Param::WeightMomentum) == shape(Param::Weights)
                &&& shape(Param::Biases) == seq![1usize, outputs as usize]
                &&& shape(Param::FullBiases) == shape(Param::Biases)
                &&& shape(Param::BiasVelocity) == shape(Param::Biases)
                &&& shape(Param::BiasMomentum) == shape(Param::Biases)
                &&& shape(Param::NormWeights) == shape(Param::Biases)
                &&& shape(Param::FullNormWeights) == shape(Param::Biases)
                &&& shape(Param::NormWeightVelocity) == shape(Param::Biases)
                &&& shape(Param::NormWeightMomentum) == shape(Param::Biases)
                &&& shape(Param::NormBiases) == shape(Param::Biases)
                &&& shape(Param::FullNormBiases) == shape(Param::Biases)
                &&& shape(Param::NormBiasVelocity) == shape(Param::Biases)
                &&& shape(Param::NormBiasMomentum) == shape(Param::Biases)
            },
            _ => true,
        }
    }
}

/// A launch is as its kernel expects it.
pub open spec fn is_in_order(op: OpView, shapes: Map<usize, Seq<usize>>) -> bool {
    is_well_typed(op) && is_reached(op) && is_fitting(op, shapes)
}

/// A tensor that may be missing has a shape.
pub open spec fn is_shaped(t: Option<TensorView>, shape: Seq<usize>) -> bool {
    t matches Some(t) ==> t.shape == shape
}

/// The tensors of a layer have the shapes that belong together: the weights have a row for each
/// input and a column for each output, and everything else has a column for each output.
pub open spec fn is_regular(layer: DenseView) -> bool {
    let (linear, norm, cache) = (layer.linear, layer.norm, layer.cache);
    let line = seq![1usize, linear.w.shape[1]];
    let batch = seq![layer.max_batch_size, linear.w.shape[1]];
    &&& linear.w.shape.len() == 2
    &&& is_shaped(linear.master_w, linear.w.shape)
    &&& is_shaped(linear.dv_w, linear.w.shape) && is_shaped(linear.dm_w, linear.w.shape)
    &&& linear.b.shape == line && is_shaped(linear.master_b, line)
    &&& is_shaped(linear.dv_b, line) && is_shaped(linear.dm_b, line)
    &&& norm.w.shape == line && is_shaped(norm.master_w, line)
    &&& is_shaped(norm.dv_w, line) && is_shaped(norm.dm_w, line)
    &&& norm.b.shape == line && is_shaped(norm.master_b, line)
    &&& is_shaped(norm.dv_b, line) && is_shaped(norm.dm_b, line)
    &&& cache.out.shape == batch && cache.predrop_out.shape == batch
    &&& cache.preact_out.shape == batch && cache.centered_out.shape == batch
    &&& cache.prenorm_out.shape == batch
    &&& cache.norm_rstd.shape == seq![larger(layer.max_batch_size, linear.w.shape[1])]
    &&& layer.mask.shape == batch
    &&& is_shaped(layer.grad, batch) && is_shaped(layer.d_prenorm_out, batch)
    &&& is_shaped(layer.d_norm_w, batch) && is_shaped(layer.d_norm_b, batch)
}

/// The shapes of the tensors of a layer are known by their ids.
pub open spec fn are_known(shapes: Map<usize, Seq<usize>>, layer: DenseView) -> bool {
    forall|i: int|
        0 <= i < layer_tensors(layer).len() && (#[trigger] layer_tensors(layer)[i]) is Some
            ==> shapes[(layer_tensors(layer)[i]->0).id] == (layer_tensors(layer)[i]->0).shape
}

/// The tensors of a layer, one by one.
proof fn lemma_known(shapes: Map<usize, Seq<usize>>, layer: DenseView)
    requires
        are_known(shapes, layer),
    ensures
        ({
            let (linear, norm, cache) = (layer.linear, layer.norm, layer.cache);
            &&& shapes[linear.w.id] == linear.w.shape && shapes[linear.b.id] == linear.b.shape
            &&& linear.master_w matches Some(t) ==> shapes[t.id] == t.shape
            &&& linear.master_b matches Some(t) ==> shapes[t.id] == t.shape
            &&& linear.dv_w matches Some(t) ==> shapes[t.id] == t.shape
            &&& linear.dv_b matches Some(t) ==> shapes[t.id] == t.shape
            &&& linear.dm_w matches Some(t) ==> shapes[t.id] == t.shape
            &&& linear.dm_b matches Some(t) ==> shapes[t.id] == t.shape
            &&& shapes[norm.w.id] == norm.w.shape && shapes[norm.b.id] == norm.b.shape
            &&& norm.master_w matches Some(t) ==> shapes[t.id] == t.shape
            &&& norm.master_b matches Some(t) ==> shapes[t.id] == t.shape
            &&& norm.dv_w matches Some(t) ==> shapes[t.id] == t.shape
            &&& norm.dv_b matches Some(t) ==> shapes[t.id] == t.shape
            &&& norm.dm_w matches Some(t) ==> shapes[t.id] == t.shape
            &&& norm.dm_b matches Some(t) ==> shapes[t.id] == t.shape
            &&& shapes[cache.out.id] == cache.out.shape
            &&& shapes[cache.predrop_out.id] == cache.predrop_out.shape
            &&& shapes[cache.preact_out.id] == cache.preact_out.shape
            &&& shapes[cache.centered_out.id] == cache.centered_out.shape
            &&& shapes[cache.prenorm_out.id] == cache.prenorm_out.shape
            &&& shapes[cache.norm_rstd.id] == cache.norm_rstd.shape
            &&& shapes[layer.mask.id] == layer.mask.shape
            &&& layer.grad matches Some(t) ==> shapes[t.id] == t.shape
            &&& layer.d_prenorm_out matches Some(t) ==> shapes[t.id] == t.shape
            &&& layer.d_norm_w matches Some(t) ==> shapes[t.id] == t.shape
            &&& layer.d_norm_b matches Some(t) ==> shapes[t.id] == t.shape
        }),
{
    let ts = layer_tensors(layer);
    assert(ts[0] == Some(layer.linear.w) && ts[1] == Some(layer.linear.b) && ts[2]
        == layer.linear.master_w && ts[3] == layer.linear.master_b && ts[4] == layer.linear.dv_w
        && ts[5] == layer.linear.dv_b && ts[6] == layer.linear.dm_w && ts[7] == layer.linear.dm_b);
    assert(ts[8] == Some(layer.norm.w) && ts[9] == Some(layer.norm.b) && ts[10]
        == layer.norm.master_w && ts[11] == layer.norm.master_b && ts[12] == layer.norm.dv_w
        && ts[13] == layer.norm.dv_b && ts[14] == layer.norm.dm_w && ts[15] == layer.norm.dm_b);
    assert(ts[16] == Some(layer.cache.out) && ts[17] == Some(layer.cache.predrop_out) && ts[18]
        == Some(layer.cache.preact_out) && ts[19] == Some(layer.cache.centered_out) && ts[20]
        == Some(layer.cache.prenorm_out) && ts[21] == Some(layer.cache.norm_rstd));
    assert(ts[22] == Some(layer.mask) && ts[23] == layer.grad && ts[24] == layer.d_prenorm_out
        && ts[25] == layer.d_norm_w && ts[26] == layer.d_norm_b);
}

/// Every launch of a forward pass reaches every output of every row, and hands its kernel tensors
/// whose shapes go together.
#[verifier::rlimit(40)]
pub proof fn law_forward_launches_are_in_order(
    shapes: Map<usize, Seq<usize>>,
    tile_dim: u32,
    precision: Precision,
    layer: DenseView,
    input: TensorView,
    rows: usize,
    use_dropout: bool,
    step: usize,
    i: int,
)
    requires
        1 <= tile_dim,
        tile_area(tile_dim) * 4 <= u32::MAX,
        is_regular(layer),
        are_known(shapes, layer),
        shapes[input.id] == input.shape,
        input.shape.len() == 2,
        input.shape[1] == layer.inputs(),
        rows <= input.shape[0],
        rows <= layer.max_batch_size,
        forward_pass(tile_dim, precision, layer, input, rows, use_dropout, step).refused is None,
        forward_fits(tile_dim, precision, layer, rows),
        0 <= i < forward_pass(
            tile_dim,
            precision,
            layer,
            input,
            rows,
            use_dropout,
            step,
        ).ops.len(),
    ensures
        is_in_order(
            forward_pass(tile_dim, precision, layer, input, rows, use_dropout, step).ops[i],
            shapes,
        ),
{
    let sizes = seq![step, layer.linear.w.id, rows, input.shape[1], layer.outputs()];
    assert(sizes[0] == step && sizes[1] == layer.linear.w.id && sizes[2] == rows && sizes[3]
        == input.shape[1] && sizes[4] == layer.outputs());
    lemma_known(shapes, layer);
    let first = linear_part(tile_dim, precision, layer, input, rows);
    let second = norm_part(tile_dim, precision, layer, rows);
    let third = activation_part(tile_dim, precision, layer, rows, use_dropout, step);
    let all = forward_pass(tile_dim, precision, layer, input, rows, use_dropout, step).ops;
    lemma_linear_launch(shapes, tile_dim, precision, layer, input, rows);
    if layer.config.normalisation != Normalisation::Disabled {
        lemma_norm_launch(shapes, tile_dim, precision, layer, rows);
        assert(all[0] == first[0] && all[1] == OpView::Synchronize);
        assert(all[2] == second[0] && all[3] == OpView::Synchronize);
        assert(all[4] == third[0] && all[5] == OpView::Synchronize);
        assert(i == 0 || i == 1 || i == 2 || i == 3 || i == 4 || i == 5);
    } else {
        assert(all[0] == first[0] && all[1] == OpView::Synchronize);
        assert(all[2] == third[0] && all[3] == OpView::Synchronize);
        assert(i == 0 || i == 1 || i == 2 || i == 3);
    }
    lemma_activation_launch(shapes, tile_dim, precision, layer, rows, use_dropout, step);
}

/// The launch of the linear part.
proof fn lemma_linear_launch(
    shapes: Map<usize, Seq<usize>>,
    tile_dim: u32,
    precision: Precision,
    layer: DenseView,
    input: TensorView,
    rows: usize,
)
    requires
        1 <= tile_dim,
        is_regular(layer),
        are_known(shapes, layer),
        shapes[input.id] == input.shape,
        input.shape.len() == 2,
        input.shape[1] == layer.inputs(),
        rows <= input.shape[0],
        rows <= layer.max_batch_size,
        rows <= u32::MAX,
        layer.inputs() <= u32::MAX,
        layer.outputs() <= u32::MAX,
        forward_fits(tile_dim, precision, layer, rows),
    ensures
        is_in_order(linear_part(tile_dim, precision, layer, input, rows)[0], shapes),
{
    lemma_known(shapes, layer);
    let op = linear_part(tile_dim, precision, layer, input, rows)[0];
    assert(0 <= 2 * tile_area(tile_dim) * precision.width()) by (nonlinear_arith)
        requires
            tile_area(tile_dim) == tile_dim * tile_dim,
            precision.width() >= 0,
    ;
    law_plane_launch_covers(
        tile_dim,
        layer.outputs() as int,
        rows as int,
        op->config.shared_mem_bytes,
    );
}

/// The launch of the normalisation.
proof fn lemma_norm_launch(
    shapes: Map<usize, Seq<usize>>,
    tile_dim: u32,
    precision: Precision,
    layer: DenseView,
    rows: usize,
)
    requires
        1 <= tile_dim,
        tile_area(tile_dim) * 4 <= u32::MAX,
        is_regular(layer),
        are_known(shapes, layer),
        layer.config.normalisation != Normalisation::Disabled,
        rows <= layer.max_batch_size,
        rows <= u32::MAX,
        layer.outputs() <= u32::MAX,
    ensures
        is_in_order(norm_part(tile_dim, precision, layer, rows)[0], shapes),
{
    lemma_known(shapes, layer);
    assert(0 <= tile_dim * tile_dim) by (nonlinear_arith);
}

/// The launch of the activation.
proof fn lemma_activation_launch(
    shapes: Map<usize, Seq<usize>>,
    tile_dim: u32,
    precision: Precision,
    layer: DenseView,
    rows: usize,
    use_dropout: bool,
    step: usize,
)
    requires
        1 <= tile_dim,
        is_regular(layer),
        are_known(shapes, layer),
        rows <= layer.max_batch_size,
        rows <= u32::MAX,
        layer.outputs() <= u32::MAX,
    ensures
        is_in_order(
            activation_part(tile_dim, precision, layer, rows, use_dropout, step)[0],
            shapes,
        ),
{
    lemma_known(shapes, layer);
    law_plane_launch_covers(tile_dim, layer.outputs() as int, rows as int, 0);
}

/// The launch that fills a gradient of the normalisation with zeros.
proof fn lemma_fill_launch(shapes: Map<usize, Seq<usize>>, tile_dim: u32, t: TensorView)
    requires
        1 <= tile_dim,
        tile_area(tile_dim) <= u32::MAX,
        t.slice().len <= u32::MAX,
    ensures
        is_in_order(broadcast_ops(tile_dim, Precision::FP32, t.slice(), 0)[0], shapes),
{
    assert(1 <= tile_dim * tile_dim) by (nonlinear_arith)
        requires
            1 <= tile_dim,
    ;
    law_tiles_cover(t.slice().len as int, tile_area(tile_dim));
}

/// Every launch of the error of an output layer reaches every output of every row, and hands its
/// kernel tensors whose shapes go together.
#[verifier::rlimit(40)]
pub proof fn law_loss_launches_are_in_order(
    shapes: Map<usize, Seq<usize>>,
    tile_dim: u32,
    precision: Precision,
    layer: DenseView,
    target: TensorView,
    loss: LossFunc,
    activation: Activation,
    i: int,
)
    requires
        1 <= tile_dim,
        tile_area(tile_dim) <= u32::MAX,
        is_regular(layer),
        layer.has_gradients(),
        are_known(shapes, layer),
        shapes[target.id] == target.shape,
        target.shape.len() == 2,
        target.shape[1] == layer.outputs(),
        output_error(tile_dim, precision, layer, target, loss, activation).refused is None,
        0 <= i < output_error(tile_dim, precision, layer, target, loss, activation).ops.len(),
    ensures
        is_in_order(
            output_error(tile_dim, precision, layer, target, loss, activation).ops[i],
            shapes,
        ),
{
    let out = layer.cache.out;
    let sizes = seq![out.shape[0], layer.outputs()];
    assert(sizes[0] == out.shape[0] && sizes[1] == layer.outputs());
    let columns = seq![out.shape[1]];
    assert(columns[0] == out.shape[1]);
    lemma_known(shapes, layer);
    lemma_fill_launch(shapes, tile_dim, layer.d_norm_w->0);
    lemma_fill_launch(shapes, tile_dim, layer.d_norm_b->0);
    law_plane_launch_covers(tile_dim, layer.outputs() as int, out.shape[0] as int, 0);
    let all = output_error(tile_dim, precision, layer, target, loss, activation).ops;
    assert(all[0] == broadcast_ops(tile_dim, Precision::FP32, (layer.d_norm_w->0).slice(), 0)[0]);
    assert(all[1] == broadcast_ops(tile_dim, Precision::FP32, (layer.d_norm_b->0).slice(), 0)[0]);
    if activation == Activation::Softmax {
        assert(all[2] == softmax_part(tile_dim, precision, out)[0]);
        assert(all.len() == 6 && all[3] == OpView::Synchronize && all[5] == OpView::Synchronize);
        assert(launches(all[4], Kernel::ComputeOutputLayerError));
        assert(i == 0 || i == 1 || i == 2 || i == 3 || i == 4 || i == 5);
        assert(is_in_order(all[2], shapes));
        lemma_loss_launch(
            shapes,
            tile_dim,
            precision,
            layer,
            target,
            loss,
            activation,
            all[4],
        );
    } else {
        assert(all.len() == 4 && all[3] == OpView::Synchronize);
        assert(i == 0 || i == 1 || i == 2 || i == 3);
        lemma_loss_launch(
            shapes,
            tile_dim,
            precision,
            layer,
            target,
            loss,
            activation,
            all[2],
        );
    }
}

/// The launch that works the error of an output layer out.
proof fn lemma_loss_launch(
    shapes: Map<usize, Seq<usize>>,
    tile_dim: u32,
    precision: Precision,
    layer: DenseView,
    target: TensorView,
    loss: LossFunc,
    activation: Activation,
    op: OpView,
)
    requires
        1 <= tile_dim,
        is_regular(layer),
        layer.has_gradients(),
        are_known(shapes, layer),
        shapes[target.id] == target.shape,
        target.shape.len() == 2,
        target.shape[1] == layer.outputs(),
        layer.cache.out.shape[0] <= u32::MAX,
        layer.outputs() <= u32::MAX,
        ({
            let ops = output_error(tile_dim, precision, layer, target, loss, activation).ops;
            ops.len() >= 2 && op == ops[ops.len() - 2]
        }),
        output_error(tile_dim, precision, layer, target, loss, activation).refused is None,
    ensures
        is_in_order(op, shapes),
{
    lemma_known(shapes, layer);
    law_plane_launch_covers(
        tile_dim,
        layer.outputs() as int,
        layer.cache.out.shape[0] as int,
        0,
    );
}

/// The launch of an update reaches every weight, and hands its kernel tensors whose shapes go
/// together.
#[verifier::rlimit(40)]
pub proof fn law_update_launch_is_in_order(
    shapes: Map<usize, Seq<usize>>,
    tile_dim: u32,
    precision: Precision,
    layer: DenseView,
    input: TensorView,
    train: TrainContext,
    step: usize,
    i: int,
)
    requires
        1 <= tile_dim,
        is_regular(layer),
        layer.trainable(),
        are_known(shapes, layer),
        shapes[input.id] == input.shape,
        input.shape.len() == 2,
        input.shape[1] == layer.inputs(),
        train.batch_size <= input.shape[0],
        train.batch_size <= layer.max_batch_size,
        backward_pass(tile_dim, precision, layer, input, train, step).refused is None,
        0 <= i < backward_pass(tile_dim, precision, layer, input, train, step).ops.len(),
    ensures
        is_in_order(
            backward_pass(tile_dim, precision, layer, input, train, step).ops[i],
            shapes,
        ),
{
    let sizes = seq![train.batch_size, layer.outputs(), layer.inputs(), step];
    assert(sizes[0] == train.batch_size && sizes[1] == layer.outputs() && sizes[2]
        == layer.inputs() && sizes[3] == step);
    lemma_known(shapes, layer);
    law_plane_launch_covers(tile_dim, layer.outputs() as int, layer.inputs() as int, 0);
    let op = backward_pass(tile_dim, precision, layer, input, train, step).ops[0];
    assert(layer.linear.w.shape == seq![layer.inputs(), layer.outputs()]);
    assert(is_fitting(op, shapes));
    assert(is_well_typed(op));
    assert(is_reached(op));
}

/// The launch that works the error of a hidden layer out.
proof fn lemma_hidden_launch(
    shapes: Map<usize, Seq<usize>>,
    tile_dim: u32,
    precision: Precision,
    layer: DenseView,
    next: DenseView,
    activation: Activation,
    rows: usize,
)
    requires
        1 <= tile_dim,
        precision == Precision::FP16 ==> tile_dim == 16,
        is_regular(layer),
        is_regular(next),
        layer.has_gradients(),
        next.d_prenorm_out is Some,
        next.inputs() == layer.outputs(),
        are_known(shapes, layer),
        are_known(shapes, next),
        rows <= layer.max_batch_size,
        rows <= next.max_batch_size,
        hidden_error(tile_dim, precision, layer, next, activation, rows).refused is None,
    ensures
        is_in_order(
            hidden_error(tile_dim, precision, layer, next, activation, rows).ops[0],
            shapes,
        ),
{
    let sizes = seq![rows, layer.outputs(), next.cache.out.shape[1]];
    assert(sizes[0] == rows && sizes[1] == layer.outputs() && sizes[2] == next.cache.out.shape[1]);
    lemma_known(shapes, layer);
    lemma_known(shapes, next);
    let op = hidden_error(tile_dim, precision, layer, next, activation, rows).ops[0];
    law_plane_launch_covers(
        tile_dim,
        layer.outputs() as int,
        rows as int,
        op->config.shared_mem_bytes,
    );
    assert(full_copy(next.linear.master_w, next.linear.w).shape == next.linear.w.shape);
    if precision == Precision::FP16 {
        assert(tile_area(tile_dim) == 256);
    }
}

/// Every launch of the backward pass of a hidden layer reaches every number that it works out, and
/// hands its kernel tensors whose shapes go together: the error that comes from behind has as many
/// columns as the weights that it is taken back through, and those have as many rows as the hidden
/// layer has outputs.
pub proof fn law_hidden_launches_are_in_order(
    shapes: Map<usize, Seq<usize>>,
    tile_dim: u32,
    precision: Precision,
    layer: DenseView,
    next: DenseView,
    input: TensorView,
    activation: Activation,
    train: TrainContext,
    step: usize,
    i: int,
)
    requires
        1 <= tile_dim,
        tile_area(tile_dim) <= u32::MAX,
        is_regular(layer),
        is_regular(next),
        layer.trainable(),
        next.d_prenorm_out is Some,
        next.inputs() == layer.outputs(),
        are_known(shapes, layer),
        are_known(shapes, next),
        shapes[input.id] == input.shape,
        input.shape.len() == 2,
        input.shape[1] == layer.inputs(),
        train.batch_size <= input.shape[0],
        train.batch_size <= layer.max_batch_size,
        train.batch_size <= next.max_batch_size,
        hidden_backward(
            tile_dim,
            precision,
            layer,
            next,
            input,
            activation,
            train,
            step,
        ).refused is None,
        0 <= i < hidden_backward(
            tile_dim,
            precision,
            layer,
            next,
            input,
            activation,
            train,
            step,
        ).ops.len(),
    ensures
        is_in_order(
            hidden_backward(
                tile_dim,
                precision,
                layer,
                next,
                input,
                activation,
                train,
                step,
            ).ops[i],
            shapes,
        ),
{
    let first = clear_norm_gradients(tile_dim, layer).ops;
    let second = hidden_error(
        tile_dim,
        precision,
        layer,
        next,
        activation,
        train.batch_size,
    ).ops;
    let third = backward_pass(tile_dim, precision, layer, input, train, step).ops;
    let all = hidden_backward(
        tile_dim,
        precision,
        layer,
        next,
        input,
        activation,
        train,
        step,
    ).ops;
    lemma_fill_launch(shapes, tile_dim, layer.d_norm_w->0);
    lemma_fill_launch(shapes, tile_dim, layer.d_norm_b->0);
    lemma_hidden_launch(
        shapes,
        tile_dim,
        precision,
        layer,
        next,
        activation,
        train.batch_size,
    );
    law_update_launch_is_in_order(shapes, tile_dim, precision, layer, input, train, step, 0);
    assert(all == first + second + third);
    assert(first.len() == 2 && second.len() == 2 && third.len() == 2);
    assert(all[0] == first[0] && all[1] == first[1] && all[2] == second[0] && all[3] == second[1]
        && all[4] == third[0] && all[5] == third[1]);
    assert(i == 0 || i == 1 || i == 2 || i == 3 || i == 4 || i == 5);
}

/// For every update that is queued, the parameter that the kernel knows as the learning rate is the
/// learning rate of the training, the one that it knows as the bound on the gradients is the bound
/// of the training, and the step is the step of the training.
pub proof fn law_update_is_handed_the_training(
    tile_dim: u32,
    precision: Precision,
    layer: DenseView,
    input: TensorView,
    train: TrainContext,
    step: usize,
    i: int,
)
    requires
        ({
            let outcome = backward_pass(tile_dim, precision, layer, input, train, step);
            0 <= i < outcome.ops.len() && launches(outcome.ops[i], Kernel::BackwardPass)
        }),
    ensures
        ({
            let k = Kernel::BackwardPass;
            let args = backward_pass(tile_dim, precision, layer, input, train, step).ops[i]->args;
            &&& handed(k, args, Param::LearningRate) == KernelArg::Real(train.learn_rate)
            &&& handed(k, args, Param::GradientClamp) == KernelArg::Real(train.grad_clamp)
            &&& count(k, args, Param::Rows) == train.batch_size
            &&& count(k, args, Param::Step) == step
            &&& tensor(k, args, Param::Input) == input.id
        }),
{
    let sizes = seq![train.batch_size, layer.outputs(), layer.inputs(), step];
    assert(sizes[0] == train.batch_size && sizes[3] == step);
}

/// For every error of a hidden layer that is queued, the error and the weights that it is taken back
/// through are both tensors of the layer behind, and everything else is a tensor of the hidden layer
/// itself.
pub proof fn law_hidden_error_comes_from_behind(
    tile_dim: u32,
    precision: Precision,
    layer: DenseView,
    next: DenseView,
    activation: Activation,
    rows: usize,
    i: int,
)
    requires
        ({
            let outcome = hidden_error(tile_dim, precision, layer, next, activation, rows);
            0 <= i < outcome.ops.len() && launches(
                outcome.ops[i],
                Kernel::ComputeHiddenLayerError,
            )
        }),
    ensures
        ({
            let k = Kernel::ComputeHiddenLayerError;
            let args = hidden_error(
                tile_dim,
                precision,
                layer,
                next,
                activation,
                rows,
            ).ops[i]->args;
            &&& tensor(k, args, Param::ErrorBehind) == (next.d_prenorm_out->0).id
            &&& tensor(k, args, Param::WeightsBehind) == full_copy(
                next.linear.master_w,
                next.linear.w,
            ).id
            &&& tensor(k, args, Param::OutputSlope) == (layer.grad->0).id
            &&& tensor(k, args, Param::PrenormSlope) == (layer.d_prenorm_out->0).id
            &&& tensor(k, args, Param::Preact) == layer.cache.preact_out.id
            &&& tensor(k, args, Param::Mask) == layer.mask.id
        }),
{
}

/// For every error of an output layer that is queued, the prediction is the tensor that a forward
/// pass through the layer puts its outputs into, and the target is the tensor that the caller passes.
pub proof fn law_prediction_and_target_have_their_places(
    tile_dim: u32,
    precision: Precision,
    layer: DenseView,
    target: TensorView,
    loss: LossFunc,
    activation: Activation,
    i: int,
    input: TensorView,
    rows: usize,
    use_dropout: bool,
    step: usize,
    j: int,
)
    requires
        ({
            let outcome = output_error(tile_dim, precision, layer, target, loss, activation);
            0 <= i < outcome.ops.len() && launches(
                outcome.ops[i],
                Kernel::ComputeOutputLayerError,
            )
        }),
        ({
            let outcome = forward_pass(
                tile_dim,
                precision,
                layer,
                input,
                rows,
                use_dropout,
                step,
            );
            0 <= j < outcome.ops.len() && launches(outcome.ops[j], Kernel::ForwardPass2)
        }),
    ensures
        ({
            let k = Kernel::ComputeOutputLayerError;
            let args = output_error(
                tile_dim,
                precision,
                layer,
                target,
                loss,
                activation,
            ).ops[i]->args;
            let pass = forward_pass(
                tile_dim,
                precision,
                layer,
                input,
                rows,
                use_dropout,
                step,
            ).ops[j]->args;
            &&& tensor(k, args, Param::Prediction) == tensor(
                Kernel::ForwardPass2,
                pass,
                Param::Output,
            )
            &&& tensor(k, args, Param::Preact) == tensor(
                Kernel::ForwardPass2,
                pass,
                Param::Preact,
            )
            &&& tensor(k, args, Param::Target) == target.id
        }),
{
}

/// A launch is waited for: nothing is queued between it and the wait.
pub open spec fn is_waited_for(ops: Seq<OpView>, i: int) -> bool {
    i + 1 < ops.len() && ops[i + 1] == OpView::Synchronize
}

/// The kernels that work on the outcome of one another are waited for, each one before the next one
/// starts, and so is the last one of a pass.
pub proof fn law_launches_are_waited_for(
    tile_dim: u32,
    precision: Precision,
    layer: DenseView,
    next: DenseView,
    input: TensorView,
    target: TensorView,
    loss: LossFunc,
    activation: Activation,
    rows: usize,
    use_dropout: bool,
    train: TrainContext,
    step: usize,
    i: int,
)
    ensures
        ({
            let ops = forward_pass(tile_dim, precision, layer, input, rows, use_dropout, step).ops;
            0 <= i < ops.len() && ops[i] is Launch ==> is_waited_for(ops, i)
        }),
        ({
            let ops = backward_pass(tile_dim, precision, layer, input, train, step).ops;
            0 <= i < ops.len() && ops[i] is Launch ==> is_waited_for(ops, i)
        }),
        ({
            let ops = hidden_error(tile_dim, precision, layer, next, activation, rows).ops;
            0 <= i < ops.len() && ops[i] is Launch ==> is_waited_for(ops, i)
        }),
        ({
            let ops = output_error(tile_dim, precision, layer, target, loss, activation).ops;
            0 <= i < ops.len() && (launches(ops[i], Kernel::Softmax) || launches(
                ops[i],
                Kernel::ComputeOutputLayerError,
            )) ==> is_waited_for(ops, i)
        }),
{
    let first = linear_part(tile_dim, precision, layer, input, rows);
    let second = norm_part(tile_dim, precision, layer, rows);
    let third = activation_part(tile_dim, precision, layer, rows, use_dropout, step);
    let all = forward_pass(tile_dim, precision, layer, input, rows, use_dropout, step).ops;
    if all.len() > 0 {
        assert(all == first + second + third);
        assert(all[1] == OpView::Synchronize && all[3] == OpView::Synchronize);
        if second.len() > 0 {
            assert(all[5] == OpView::Synchronize);
        }
    }
}

} // verus!
