//! What the backward passes through a dense layer amount to.

use vstd::prelude::*;

use crate::io::device::ffn_device::{
    backward_pass, clear_norm_gradients, hidden_backward, hidden_error, output_error, softmax_part,
};
use crate::io::device::ffn_laws::{kept_apart, layer_tensors};
use crate::io::device::meaning::{
    after, carried_out, law_work_goes_on_from_work, launched, lemma_single, lemma_waited,
    lemma_written_at, lemma_written_elsewhere, outcomes, part, work, written, Contents, NormTrace,
    Trained, Work,
};
use crate::io::device::signature::{arity, tensor, Param};
use crate::io::device::util_device::broadcast_ops;
use crate::io::device::{Kernel, KernelArg, OpView};
use crate::mlp::state::ParamView;
use crate::mlp::DenseView;
use crate::util::context::TrainContext;
use crate::util::function::{Activation, LossFunc, Normalisation};
use crate::util::precision::Precision;
use crate::util::tensor::{element_count, TensorView};

verus! {

/// The copy of a tensor in full precision, or the tensor itself where it has none.
pub open spec fn full_copy(copy: Option<TensorView>, own: TensorView) -> TensorView {
    match copy {
        Some(t) => t,
        None => own,
    }
}

/// A buffer is none of those of a layer.
pub open spec fn is_apart(layer: DenseView, id: usize) -> bool {
    forall|i: int|
        0 <= i < layer_tensors(layer).len() && (#[trigger] layer_tensors(layer)[i]) is Some ==> (
        layer_tensors(layer)[i]->0).id != id
}

/// Zeros in the gradient of a normalisation.
pub open spec fn cleared(t: TensorView) -> Contents {
    Contents::Filled {
        precision: Precision::FP32,
        pattern: 0,
        len: element_count(t.shape) as usize as int,
    }
}

/// What the backward pass of the normalisation of a layer goes by: its weights in full precision,
/// what the last forward pass kept, and gradients that start from zero.
pub open spec fn norm_trace(c: Map<usize, Contents>, layer: DenseView) -> NormTrace {
    NormTrace {
        kind: layer.config.normalisation,
        weights: c[full_copy(layer.norm.master_w, layer.norm.w).id],
        deviations: c[layer.cache.norm_rstd.id],
        centred: c[layer.cache.centered_out.id],
        prenorm: c[layer.cache.prenorm_out.id],
        weight_slope: cleared(layer.d_norm_w->0),
        bias_slope: cleared(layer.d_norm_b->0),
    }
}

/// The gradients that an error leaves in a layer.
pub open spec fn has_slopes(
    r: Map<usize, Contents>,
    precision: Precision,
    layer: DenseView,
    error: Work,
) -> bool {
    &&& r[(layer.grad->0).id] == part(Param::OutputSlope, precision, error)
    &&& r[(layer.d_prenorm_out->0).id] == part(Param::PrenormSlope, precision, error)
    &&& r[(layer.d_norm_w->0).id] == part(Param::NormWeightSlope, precision, error)
    &&& r[(layer.d_norm_b->0).id] == part(Param::NormBiasSlope, precision, error)
}

/// A buffer holds none of the gradients of a layer.
pub open spec fn is_no_slope(layer: DenseView, id: usize) -> bool {
    &&& id != (layer.grad->0).id
    &&& id != (layer.d_prenorm_out->0).id
    &&& id != (layer.d_norm_w->0).id
    &&& id != (layer.d_norm_b->0).id
}

/// One fill of a buffer.
proof fn lemma_fill(c: Map<usize, Contents>, tile_dim: u32, t: TensorView)
    requires
        t.slice().len <= u32::MAX,
    ensures
        ({
            let r = after(c, broadcast_ops(tile_dim, Precision::FP32, t.slice(), 0));
            &&& r[t.id] == cleared(t)
            &&& forall|id: usize| id != t.id ==> (#[trigger] r[id]) == c[id]
        }),
{
    let ops = broadcast_ops(tile_dim, Precision::FP32, t.slice(), 0);
    lemma_single(c, ops[0]);
    assert(ops == seq![ops[0]]);
}

/// Both gradients of a normalisation are set to zero.
proof fn lemma_clearing(c: Map<usize, Contents>, tile_dim: u32, layer: DenseView)
    requires
        kept_apart(layer_tensors(layer)),
        layer.has_gradients(),
        clear_norm_gradients(tile_dim, layer).refused is None,
    ensures
        ({
            let r = after(c, clear_norm_gradients(tile_dim, layer).ops);
            &&& r[(layer.d_norm_w->0).id] == cleared(layer.d_norm_w->0)
            &&& r[(layer.d_norm_b->0).id] == cleared(layer.d_norm_b->0)
            &&& forall|id: usize|
                id != (layer.d_norm_w->0).id && id != (layer.d_norm_b->0).id ==> (#[trigger] r[id])
                    == c[id]
        }),
{
    let w = layer.d_norm_w->0;
    let b = layer.d_norm_b->0;
    let first = broadcast_ops(tile_dim, Precision::FP32, w.slice(), 0);
    let second = broadcast_ops(tile_dim, Precision::FP32, b.slice(), 0);
    lemma_fill(c, tile_dim, w);
    lemma_fill(after(c, first), tile_dim, b);
    law_work_goes_on_from_work(c, first, second);
    let ts = layer_tensors(layer);
    assert(ts[25] == Some(w) && ts[26] == Some(b));
}

/// What a kernel that works gradients out leaves.
proof fn lemma_four(
    c: Map<usize, Contents>,
    k: Kernel,
    precision: Precision,
    args: Seq<KernelArg>,
    w: Work,
    layer: DenseView,
)
    requires
        k == Kernel::ComputeOutputLayerError || k == Kernel::ComputeHiddenLayerError,
        kept_apart(layer_tensors(layer)),
        layer.has_gradients(),
        tensor(k, args, Param::OutputSlope) == (layer.grad->0).id,
        tensor(k, args, Param::PrenormSlope) == (layer.d_prenorm_out->0).id,
        tensor(k, args, Param::NormWeightSlope) == (layer.d_norm_w->0).id,
        tensor(k, args, Param::NormBiasSlope) == (layer.d_norm_b->0).id,
    ensures
        has_slopes(written(c, k, precision, args, w, outcomes(k)), precision, layer, w),
        forall|id: usize|
            is_no_slope(layer, id) ==> (#[trigger] written(
                c,
                k,
                precision,
                args,
                w,
                outcomes(k),
            )[id]) == c[id],
{
    let params = outcomes(k);
    let ts = layer_tensors(layer);
    assert(ts[23] == layer.grad && ts[24] == layer.d_prenorm_out && ts[25] == layer.d_norm_w
        && ts[26] == layer.d_norm_b);
    assert(params[0] == Param::OutputSlope && params[1] == Param::PrenormSlope && params[2]
        == Param::NormWeightSlope && params[3] == Param::NormBiasSlope);
    lemma_written_at(c, k, precision, args, w, params, 0);
    lemma_written_at(c, k, precision, args, w, params, 1);
    lemma_written_at(c, k, precision, args, w, params, 2);
    lemma_written_at(c, k, precision, args, w, params, 3);
    assert forall|id: usize| is_no_slope(layer, id) implies (#[trigger] written(
        c,
        k,
        precision,
        args,
        w,
        params,
    )[id]) == c[id] by {
        lemma_written_elsewhere(c, k, precision, args, w, params, id);
    }
}

/// What a layer puts out once the softmax of each row is taken, or as it is where the loss does not
/// ask for a softmax.
pub open spec fn prediction(
    c: Map<usize, Contents>,
    precision: Precision,
    layer: DenseView,
    activation: Activation,
) -> Contents {
    let out = layer.cache.out;
    if activation == Activation::Softmax {
        part(
            Param::Output,
            precision,
            Work::Softmax {
                of: c[out.id],
                rows: out.shape[0] as int,
                columns: out.shape[1] as int,
            },
        )
    } else {
        c[out.id]
    }
}

/// The error of an output layer: what it puts out is the prediction, and what the caller names as
/// the target is what the prediction is held against.
pub open spec fn loss_work(
    c: Map<usize, Contents>,
    precision: Precision,
    layer: DenseView,
    target: TensorView,
    loss: LossFunc,
    activation: Activation,
) -> Work {
    Work::OutputError {
        loss,
        function: activation,
        prediction: prediction(c, precision, layer, activation),
        target: c[target.id],
        preact: c[layer.cache.preact_out.id],
        norm: norm_trace(c, layer),
        rows: layer.cache.out.shape[0] as int,
        outputs: layer.linear.w.shape[1] as int,
    }
}

/// The softmax of the outputs.
proof fn lemma_softmax(c: Map<usize, Contents>, tile_dim: u32, precision: Precision, out: TensorView)
    requires
        out.shape[0] <= u32::MAX,
        out.shape[1] <= u32::MAX,
    ensures
        ({
            let r = after(c, softmax_part(tile_dim, precision, out));
            &&& r[out.id] == part(
                Param::Output,
                precision,
                Work::Softmax {
                    of: c[out.id],
                    rows: out.shape[0] as int,
                    columns: out.shape[1] as int,
                },
            )
            &&& forall|id: usize| id != out.id ==> (#[trigger] r[id]) == c[id]
        }),
{
    let ops = softmax_part(tile_dim, precision, out);
    let k = Kernel::Softmax;
    let args = ops[0]->args;
    lemma_waited(c, ops[0]);
    assert(ops == seq![ops[0], OpView::Synchronize]);
    let w = work(c, k, args);
    let params = outcomes(k);
    assert(params[0] == Param::Output);
    lemma_written_at(c, k, precision, args, w, params, 0);
    let r = after(c, ops);
    assert(r == launched(c, k, precision, args));
    assert forall|id: usize| id != out.id implies (#[trigger] r[id]) == c[id] by {
        lemma_written_elsewhere(c, k, precision, args, w, params, id);
    }
}

/// The launch that works the error of an output layer out.
spec fn loss_launch(
    tile_dim: u32,
    precision: Precision,
    layer: DenseView,
    target: TensorView,
    loss: LossFunc,
    activation: Activation,
) -> OpView {
    let ops = output_error(tile_dim, precision, layer, target, loss, activation).ops;
    ops[ops.len() - 2]
}

/// The last launch of an output error.
proof fn lemma_loss_launch(
    c: Map<usize, Contents>,
    tile_dim: u32,
    precision: Precision,
    layer: DenseView,
    target: TensorView,
    loss: LossFunc,
    activation: Activation,
)
    requires
        kept_apart(layer_tensors(layer)),
        layer.has_gradients(),
        layer.cache.out.shape[0] <= u32::MAX,
        layer.outputs() <= u32::MAX,
        output_error(tile_dim, precision, layer, target, loss, activation).refused is None,
    ensures
        ({
            let r = carried_out(
                c,
                loss_launch(tile_dim, precision, layer, target, loss, activation),
            );
            let error = Work::OutputError {
                loss,
                function: activation,
                prediction: c[layer.cache.out.id],
                target: c[target.id],
                preact: c[layer.cache.preact_out.id],
                norm: NormTrace {
                    kind: layer.config.normalisation,
                    weights: c[full_copy(layer.norm.master_w, layer.norm.w).id],
                    deviations: c[layer.cache.norm_rstd.id],
                    centred: c[layer.cache.centered_out.id],
                    prenorm: c[layer.cache.prenorm_out.id],
                    weight_slope: c[(layer.d_norm_w->0).id],
                    bias_slope: c[(layer.d_norm_b->0).id],
                },
                rows: layer.cache.out.shape[0] as int,
                outputs: layer.linear.w.shape[1] as int,
            };
            &&& has_slopes(r, precision, layer, error)
            &&& forall|id: usize| is_no_slope(layer, id) ==> (#[trigger] r[id]) == c[id]
        }),
{
    let k = Kernel::ComputeOutputLayerError;
    let op = loss_launch(tile_dim, precision, layer, target, loss, activation);
    let args = op->args;
    assert(op == OpView::Launch { kernel: k, precision, args, config: op->config });
    lemma_four(c, k, precision, args, work(c, k, args), layer);
}

/// The error of an output layer holds what the layer puts out, behind a softmax where the loss asks
/// for one, against the target that the caller passes. The gradients of the normalisation start from
/// zero, and nothing but the gradients and, with a softmax, the outputs changes.
#[verifier::rlimit(40)]
pub proof fn law_loss_holds_the_outputs_against_the_target(
    c: Map<usize, Contents>,
    tile_dim: u32,
    precision: Precision,
    layer: DenseView,
    target: TensorView,
    loss: LossFunc,
    activation: Activation,
)
    requires
        kept_apart(layer_tensors(layer)),
        is_apart(layer, target.id),
        layer.has_gradients(),
        output_error(tile_dim, precision, layer, target, loss, activation).refused is None,
    ensures
        ({
            let r = after(
                c,
                output_error(tile_dim, precision, layer, target, loss, activation).ops,
            );
            let error = loss_work(c, precision, layer, target, loss, activation);
            &&& has_slopes(r, precision, layer, error)
            &&& r[layer.cache.out.id] == prediction(c, precision, layer, activation)
            &&& forall|id: usize|
                is_no_slope(layer, id) && id != layer.cache.out.id ==> (#[trigger] r[id]) == c[id]
        }),
{
    let out = layer.cache.out;
    let sizes = seq![out.shape[0], layer.outputs()];
    assert(sizes[0] == out.shape[0] && sizes[1] == layer.outputs());
    let columns = seq![out.shape[1]];
    assert(columns[0] == out.shape[1]);
    let softmax = activation == Activation::Softmax;
    let first = clear_norm_gradients(tile_dim, layer).ops;
    let second = if softmax {
        softmax_part(tile_dim, precision, out)
    } else {
        seq![]
    };
    let op = loss_launch(tile_dim, precision, layer, target, loss, activation);
    let third = seq![op, OpView::Synchronize];
    let all = output_error(tile_dim, precision, layer, target, loss, activation).ops;
    assert(all == first + (second + third));
    assert(first + (second + third) == first + second + third);
    let c1 = after(c, first);
    let c2 = after(c1, second);
    law_work_goes_on_from_work(c, first, second);
    law_work_goes_on_from_work(c, first + second, third);
    lemma_clearing(c, tile_dim, layer);
    if softmax {
        lemma_softmax(c1, tile_dim, precision, out);
    } else {
        assert(c2 == c1);
    }
    lemma_waited(c2, op);
    lemma_loss_launch(c2, tile_dim, precision, layer, target, loss, activation);
    let ts = layer_tensors(layer);
    assert(ts[8] == Some(layer.norm.w) && ts[10] == layer.norm.master_w);
    assert(ts[16] == Some(out) && ts[18] == Some(layer.cache.preact_out));
    assert(ts[19] == Some(layer.cache.centered_out) && ts[20] == Some(layer.cache.prenorm_out));
    assert(ts[21] == Some(layer.cache.norm_rstd));
    assert(ts[23] == layer.grad && ts[24] == layer.d_prenorm_out);
    assert(ts[25] == layer.d_norm_w && ts[26] == layer.d_norm_b);
}

/// Weights and biases of a layer, their copies in full precision, and what the optimiser remembers.
pub open spec fn trained(c: Map<usize, Contents>, p: ParamView) -> Trained {
    Trained {
        weights: c[p.w.id],
        biases: c[p.b.id],
        full_weights: c[full_copy(p.master_w, p.w).id],
        full_biases: c[full_copy(p.master_b, p.b).id],
        weight_velocity: c[(p.dv_w->0).id],
        bias_velocity: c[(p.dv_b->0).id],
        weight_momentum: c[(p.dm_w->0).id],
        bias_momentum: c[(p.dm_b->0).id],
    }
}

/// One step of the training of a layer: the optimisers, the learning rate and the bound on the
/// gradients are those of the training, and the regularisation is that of the layer.
pub open spec fn step_work(
    c: Map<usize, Contents>,
    layer: DenseView,
    input: TensorView,
    train: TrainContext,
    step: usize,
) -> Work {
    Work::Update {
        input: c[input.id],
        error: c[(layer.d_prenorm_out->0).id],
        linear: trained(c, layer.linear),
        norm: trained(c, layer.norm),
        norm_weight_slope: c[(layer.d_norm_w->0).id],
        norm_bias_slope: c[(layer.d_norm_b->0).id],
        uses_biases: layer.config.normalisation != Normalisation::BatchNorm,
        kind: layer.config.normalisation,
        rows: train.batch_size as int,
        inputs: layer.linear.w.shape[0] as int,
        outputs: layer.linear.w.shape[1] as int,
        rate: train.learn_rate,
        clamp: train.grad_clamp,
        rule: *train.optimiser,
        norm_rule: *train.norm_optimiser,
        regularisation: layer.config.regularisation,
        step: step as int,
    }
}

/// The launch of an update.
spec fn step_launch(
    tile_dim: u32,
    precision: Precision,
    layer: DenseView,
    input: TensorView,
    train: TrainContext,
    step: usize,
) -> OpView {
    backward_pass(tile_dim, precision, layer, input, train, step).ops[0]
}

/// The work of an update is what the training asks for.
#[verifier::rlimit(40)]
proof fn lemma_step_work(
    c: Map<usize, Contents>,
    tile_dim: u32,
    precision: Precision,
    layer: DenseView,
    input: TensorView,
    train: TrainContext,
    step: usize,
)
    requires
        backward_pass(tile_dim, precision, layer, input, train, step).refused is None,
    ensures
        ({
            let op = step_launch(tile_dim, precision, layer, input, train, step);
            &&& op is Launch && op->kernel == Kernel::BackwardPass && op->Launch_precision
                == precision
            &&& op->args.len() == arity(Kernel::BackwardPass)
            &&& work(c, Kernel::BackwardPass, op->args) == step_work(c, layer, input, train, step)
        }),
{
    let sizes = seq![train.batch_size, layer.outputs(), layer.inputs(), step];
    assert(sizes[0] == train.batch_size && sizes[1] == layer.outputs() && sizes[2]
        == layer.inputs() && sizes[3] == step);
}

/// The tensors that an update writes to, in the order of the tensors of a layer. Where there is no
/// copy in full precision, the tensor itself stands in its place.
#[verifier::rlimit(40)]
proof fn lemma_step_tensors(
    tile_dim: u32,
    precision: Precision,
    layer: DenseView,
    input: TensorView,
    train: TrainContext,
    step: usize,
    i: int,
)
    requires
        layer.trainable(),
        backward_pass(tile_dim, precision, layer, input, train, step).refused is None,
        0 <= i < 16,
    ensures
        ({
            let k = Kernel::BackwardPass;
            let args = step_launch(tile_dim, precision, layer, input, train, step)->args;
            let ts = layer_tensors(layer);
            tensor(k, args, outcomes(k)[i]) == if ts[i] is Some {
                (ts[i]->0).id
            } else {
                (ts[i - 2]->0).id
            }
        }),
        layer_tensors(layer)[i] is None ==> i == 2 || i == 3 || i == 10 || i == 11,
        outcomes(Kernel::BackwardPass).len() == 16,
{
    let ts = layer_tensors(layer);
    let params = outcomes(Kernel::BackwardPass);
    assert(i == 0 || i == 1 || i == 2 || i == 3 || i == 4 || i == 5 || i == 6 || i == 7 || i == 8
        || i == 9 || i == 10 || i == 11 || i == 12 || i == 13 || i == 14 || i == 15);
}

/// What an update leaves in the buffers of weights and biases and of what the optimiser remembers of
/// them, in the order of the tensors of a layer.
pub open spec fn is_updated(
    r: Map<usize, Contents>,
    precision: Precision,
    layer: DenseView,
    update: Work,
    i: int,
) -> bool {
    let ts = layer_tensors(layer);
    let params = seq![
        Param::Weights,
        Param::Biases,
        Param::FullWeights,
        Param::FullBiases,
        Param::WeightVelocity,
        Param::BiasVelocity,
        Param::WeightMomentum,
        Param::BiasMomentum,
        Param::NormWeights,
        Param::NormBiases,
        Param::FullNormWeights,
        Param::FullNormBiases,
        Param::NormWeightVelocity,
        Param::NormBiasVelocity,
        Param::NormWeightMomentum,
        Param::NormBiasMomentum,
    ];
    let full = (i == 0 || i == 1 || i == 8 || i == 9) && ts[i + 2] is None;
    ts[i] is Some ==> r[(ts[i]->0).id] == part(
        params[if full {
            i + 2
        } else {
            i
        }],
        precision,
        update,
    )
}

/// A buffer is none of those that the training of a layer changes.
pub open spec fn is_kept_backward(layer: DenseView, id: usize) -> bool {
    forall|i: int|
        0 <= i < 16 && (#[trigger] layer_tensors(layer)[i]) is Some ==> (layer_tensors(layer)[i]->0).id
            != id
}

/// An update takes one step of the training that it is told of, from the error of the layer and the
/// input that led to it: every weight and bias, its copy in full precision and what the optimiser
/// remembers of it come out of that step, and nothing else changes.
#[verifier::rlimit(40)]
pub proof fn law_update_takes_the_step_of_the_training(
    c: Map<usize, Contents>,
    tile_dim: u32,
    precision: Precision,
    layer: DenseView,
    input: TensorView,
    train: TrainContext,
    step: usize,
)
    requires
        kept_apart(layer_tensors(layer)),
        layer.trainable(),
        backward_pass(tile_dim, precision, layer, input, train, step).refused is None,
    ensures
        ({
            let r = after(c, backward_pass(tile_dim, precision, layer, input, train, step).ops);
            let update = step_work(c, layer, input, train, step);
            &&& forall|i: int|
                0 <= i < 16 ==> #[trigger] is_updated(r, precision, layer, update, i)
            &&& forall|id: usize| is_kept_backward(layer, id) ==> (#[trigger] r[id]) == c[id]
        }),
{
    let k = Kernel::BackwardPass;
    let ops = backward_pass(tile_dim, precision, layer, input, train, step).ops;
    let args = ops[0]->args;
    let params = outcomes(k);
    let ts = layer_tensors(layer);
    let update = step_work(c, layer, input, train, step);
    lemma_step_work(c, tile_dim, precision, layer, input, train, step);
    lemma_waited(c, ops[0]);
    assert(ops == seq![ops[0], OpView::Synchronize]);
    let r = after(c, ops);
    assert(r == written(c, k, precision, args, update, params));
    assert forall|i: int| 0 <= i < 16 implies #[trigger] is_updated(r, precision, layer, update, i)
        by {
        let full = (i == 0 || i == 1 || i == 8 || i == 9) && ts[i + 2] is None;
        let at = if full {
            i + 2
        } else {
            i
        };
        lemma_step_tensors(tile_dim, precision, layer, input, train, step, at);
        if ts[i] is Some {
            assert forall|j: int| at < j < params.len() implies tensor(k, args, #[trigger] params[j])
                != tensor(k, args, params[at]) by {
                lemma_step_tensors(tile_dim, precision, layer, input, train, step, j);
            }
            lemma_written_at(c, k, precision, args, update, params, at);
        }
    }
    assert forall|id: usize| is_kept_backward(layer, id) implies (#[trigger] r[id]) == c[id] by {
        assert forall|j: int| 0 <= j < params.len() implies tensor(k, args, #[trigger] params[j])
            != id by {
            lemma_step_tensors(tile_dim, precision, layer, input, train, step, j);
        }
        lemma_written_elsewhere(c, k, precision, args, update, params, id);
    }
}

/// The error of a hidden layer: the error of the layer behind it, taken back through the weights of
/// that same layer, and through what the hidden layer kept of its own forward pass.
pub open spec fn hidden_work(
    c: Map<usize, Contents>,
    layer: DenseView,
    next: DenseView,
    activation: Activation,
    rows: usize,
) -> Work {
    Work::HiddenError {
        function: activation,
        error: c[(next.d_prenorm_out->0).id],
        weights: c[full_copy(next.linear.master_w, next.linear.w).id],
        predrop: c[layer.cache.predrop_out.id],
        preact: c[layer.cache.preact_out.id],
        mask: c[layer.mask.id],
        norm: norm_trace(c, layer),
        rows: rows as int,
        outputs: layer.linear.w.shape[1] as int,
        outputs_behind: next.cache.out.shape[1] as int,
    }
}

/// The launch that works the error of a hidden layer out.
proof fn lemma_hidden_error(
    c: Map<usize, Contents>,
    tile_dim: u32,
    precision: Precision,
    layer: DenseView,
    next: DenseView,
    activation: Activation,
    rows: usize,
)
    requires
        kept_apart(layer_tensors(layer)),
        layer.has_gradients(),
        hidden_error(tile_dim, precision, layer, next, activation, rows).refused is None,
        c[(layer.d_norm_w->0).id] == cleared(layer.d_norm_w->0),
        c[(layer.d_norm_b->0).id] == cleared(layer.d_norm_b->0),
    ensures
        ({
            let r = after(
                c,
                hidden_error(tile_dim, precision, layer, next, activation, rows).ops,
            );
            &&& has_slopes(
                r,
                precision,
                layer,
                hidden_work(c, layer, next, activation, rows),
            )
            &&& forall|id: usize| is_no_slope(layer, id) ==> (#[trigger] r[id]) == c[id]
        }),
{
    let k = Kernel::ComputeHiddenLayerError;
    let sizes = seq![rows, layer.outputs(), next.cache.out.shape[1]];
    assert(sizes[0] == rows && sizes[1] == layer.outputs() && sizes[2] == next.cache.out.shape[1]);
    let ops = hidden_error(tile_dim, precision, layer, next, activation, rows).ops;
    let args = ops[0]->args;
    lemma_waited(c, ops[0]);
    assert(ops == seq![ops[0], OpView::Synchronize]);
    lemma_four(c, k, precision, args, work(c, k, args), layer);
    assert(after(c, ops) == launched(c, k, precision, args));
}

/// The backward pass of a hidden layer takes the error of the layer behind it back through the
/// weights of that layer, with gradients of the normalisation that start from zero, and then takes
/// one step of the training from the error that it has just worked out. Nothing but the gradients of
/// the layer, its weights and biases and what the optimisers remember of them changes.
#[verifier::rlimit(40)]
pub proof fn law_hidden_layer_learns_from_the_layer_behind(
    c: Map<usize, Contents>,
    tile_dim: u32,
    precision: Precision,
    layer: DenseView,
    next: DenseView,
    input: TensorView,
    activation: Activation,
    train: TrainContext,
    step: usize,
)
    requires
        kept_apart(layer_tensors(layer)),
        layer.trainable(),
        is_apart(layer, input.id),
        is_apart(layer, (next.d_prenorm_out->0).id),
        is_apart(layer, full_copy(next.linear.master_w, next.linear.w).id),
        hidden_backward(
            tile_dim,
            precision,
            layer,
            next,
            input,
            activation,
            train,
            step,
        ).refused is None,
    ensures
        ({
            let r = after(
                c,
                hidden_backward(
                    tile_dim,
                    precision,
                    layer,
                    next,
                    input,
                    activation,
                    train,
                    step,
                ).ops,
            );
            let error = hidden_work(c, layer, next, activation, train.batch_size);
            let update = learning_work(c, precision, layer, input, train, step, error);
            &&& has_slopes(r, precision, layer, error)
            &&& forall|i: int|
                0 <= i < 16 ==> #[trigger] is_updated(r, precision, layer, update, i)
            &&& forall|id: usize|
                is_no_slope(layer, id) && is_kept_backward(layer, id) ==> (#[trigger] r[id])
                    == c[id]
        }),
{
    let first = clear_norm_gradients(tile_dim, layer).ops;
    let second = hidden_error(
        tile_dim,
        precision,
        layer,
        next,
        activation,
        train.batch_size,
    ).ops;
    let third = backward_pass(tile_dim, precision, layer, input, train, step).ops;
    let c1 = after(c, first);
    let c2 = after(c1, second);
    law_work_goes_on_from_work(c, first, second);
    law_work_goes_on_from_work(c, first + second, third);
    lemma_clearing(c, tile_dim, layer);
    lemma_hidden_error(c1, tile_dim, precision, layer, next, activation, train.batch_size);
    law_update_takes_the_step_of_the_training(c2, tile_dim, precision, layer, input, train, step);
    let error = hidden_work(c, layer, next, activation, train.batch_size);
    let ts = layer_tensors(layer);
    lemma_tensor_places(layer);
    assert(hidden_work(c1, layer, next, activation, train.batch_size) == error);
    let update = learning_work(c, precision, layer, input, train, step, error);
    lemma_learning(c, c2, precision, layer, input, train, step, error);
    let r = after(c2, third);
    assert forall|i: int| 23 <= i < 27 implies is_kept_backward(layer, (#[trigger] ts[i]->0).id) by {
    }
    assert forall|id: usize|
        is_no_slope(layer, id) && is_kept_backward(layer, id) implies (#[trigger] r[id]) == c[id]
        by {
        assert(c2[id] == c1[id]);
        assert(c1[id] == c[id]);
    }
}

/// One step of the training of a layer from an error that has just been worked out.
pub open spec fn learning_work(
    c: Map<usize, Contents>,
    precision: Precision,
    layer: DenseView,
    input: TensorView,
    train: TrainContext,
    step: usize,
    error: Work,
) -> Work {
    Work::Update {
        input: c[input.id],
        error: part(Param::PrenormSlope, precision, error),
        linear: trained(c, layer.linear),
        norm: trained(c, layer.norm),
        norm_weight_slope: part(Param::NormWeightSlope, precision, error),
        norm_bias_slope: part(Param::NormBiasSlope, precision, error),
        uses_biases: layer.config.normalisation != Normalisation::BatchNorm,
        kind: layer.config.normalisation,
        rows: train.batch_size as int,
        inputs: layer.linear.w.shape[0] as int,
        outputs: layer.linear.w.shape[1] as int,
        rate: train.learn_rate,
        clamp: train.grad_clamp,
        rule: *train.optimiser,
        norm_rule: *train.norm_optimiser,
        regularisation: layer.config.regularisation,
        step: step as int,
    }
}

/// The tensors of a layer, one by one.
proof fn lemma_tensor_places(layer: DenseView)
    ensures
        ({
            let ts = layer_tensors(layer);
            &&& ts.len() == 27
            &&& ts[0] == Some(layer.linear.w) && ts[1] == Some(layer.linear.b)
            &&& ts[2] == layer.linear.master_w && ts[3] == layer.linear.master_b
            &&& ts[4] == layer.linear.dv_w && ts[5] == layer.linear.dv_b
            &&& ts[6] == layer.linear.dm_w && ts[7] == layer.linear.dm_b
            &&& ts[8] == Some(layer.norm.w) && ts[9] == Some(layer.norm.b)
            &&& ts[10] == layer.norm.master_w && ts[11] == layer.norm.master_b
            &&& ts[12] == layer.norm.dv_w && ts[13] == layer.norm.dv_b
            &&& ts[14] == layer.norm.dm_w && ts[15] == layer.norm.dm_b
            &&& ts[16] == Some(layer.cache.out) && ts[17] == Some(layer.cache.predrop_out)
            &&& ts[18] == Some(layer.cache.preact_out) && ts[19] == Some(layer.cache.centered_out)
            &&& ts[20] == Some(layer.cache.prenorm_out) && ts[21] == Some(layer.cache.norm_rstd)
            &&& ts[22] == Some(layer.mask) && ts[23] == layer.grad
            &&& ts[24] == layer.d_prenorm_out && ts[25] == layer.d_norm_w
            &&& ts[26] == layer.d_norm_b
        }),
{
}

/// Once only the gradients of a layer have changed, one step of its training starts from them and
/// from what everything else held before.
pub proof fn lemma_learning(
    c: Map<usize, Contents>,
    now: Map<usize, Contents>,
    precision: Precision,
    layer: DenseView,
    input: TensorView,
    train: TrainContext,
    step: usize,
    error: Work,
)
    requires
        kept_apart(layer_tensors(layer)),
        layer.trainable(),
        is_no_slope(layer, input.id),
        has_slopes(now, precision, layer, error),
        forall|id: usize| is_no_slope(layer, id) ==> (#[trigger] now[id]) == c[id],
    ensures
        step_work(now, layer, input, train, step) == learning_work(
            c,
            precision,
            layer,
            input,
            train,
            step,
            error,
        ),
{
    lemma_tensor_places(layer);
    let ts = layer_tensors(layer);
    assert forall|i: int| 0 <= i < 16 && ts[i] is Some implies now[(#[trigger] ts[i]->0).id]
        == c[(ts[i]->0).id] by {
        assert(is_no_slope(layer, (ts[i]->0).id));
    }
    assert(trained(now, layer.linear) == trained(c, layer.linear));
    assert(trained(now, layer.norm) == trained(c, layer.norm));
}

} // verus!
