//! What the passes through a dense layer amount to.

use vstd::prelude::*;

use crate::io::device::ffn_device::{activation_part, forward_pass, linear_part, norm_part};
use crate::io::device::meaning::{
    after, law_work_goes_on_from_work, launched, lemma_waited, lemma_written_at,
    lemma_written_elsewhere, outcomes, part, work, written, Contents, Dropout, Work,
};
use crate::io::device::signature::{tensor, Param};
use crate::io::device::{Kernel, KernelArg, OpView};
use crate::mlp::DenseView;
use crate::util::function::Normalisation;
use crate::util::precision::Precision;
use crate::util::tensor::{scrambled_seed, TensorView};

verus! {

/// The tensors of a layer.
pub open spec fn layer_tensors(layer: DenseView) -> Seq<Option<TensorView>> {
    seq![
        Some(layer.linear.w),
        Some(layer.linear.b),
        layer.linear.master_w,
        layer.linear.master_b,
        layer.linear.dv_w,
        layer.linear.dv_b,
        layer.linear.dm_w,
        layer.linear.dm_b,
        Some(layer.norm.w),
        Some(layer.norm.b),
        layer.norm.master_w,
        layer.norm.master_b,
        layer.norm.dv_w,
        layer.norm.dv_b,
        layer.norm.dm_w,
        layer.norm.dm_b,
        Some(layer.cache.out),
        Some(layer.cache.predrop_out),
        Some(layer.cache.preact_out),
        Some(layer.cache.centered_out),
        Some(layer.cache.prenorm_out),
        Some(layer.cache.norm_rstd),
        Some(layer.mask),
        layer.grad,
        layer.d_prenorm_out,
        layer.d_norm_w,
        layer.d_norm_b,
    ]
}

/// Each tensor of a list has a buffer of its own.
pub open spec fn kept_apart(ts: Seq<Option<TensorView>>) -> bool {
    forall|i: int, j: int|
        0 <= i < j < ts.len() && (#[trigger] ts[i]) is Some && (#[trigger] ts[j]) is Some ==> (
        ts[i]->0).id != (ts[j]->0).id
}

/// What a layer makes of an input by its weights, with its biases on top unless a batch
/// normalisation takes them away again.
pub open spec fn weighed(
    c: Map<usize, Contents>,
    tile_dim: u32,
    precision: Precision,
    layer: DenseView,
    input: TensorView,
    rows: usize,
) -> Contents {
    part(
        Param::Output,
        precision,
        Work::Linear {
            input: c[input.id],
            weights: c[layer.linear.w.id],
            biases: if layer.config.normalisation == Normalisation::BatchNorm {
                None
            } else {
                Some(c[layer.linear.b.id])
            },
            rows: rows as int,
            inputs: input.shape[1] as int,
            outputs: layer.linear.w.shape[1] as int,
            tile: tile_dim as int,
        },
    )
}

/// The normalisation of what a layer makes of an input.
pub open spec fn norm_work(
    c: Map<usize, Contents>,
    tile_dim: u32,
    precision: Precision,
    layer: DenseView,
    input: TensorView,
    rows: usize,
) -> Work {
    Work::Normalise {
        kind: layer.config.normalisation,
        of: weighed(c, tile_dim, precision, layer, input, rows),
        weights: c[layer.norm.w.id],
        biases: c[layer.norm.b.id],
        rows: rows as int,
        outputs: layer.linear.w.shape[1] as int,
    }
}

/// The activation and the dropout of a layer, of what comes out of its normalisation, or of its
/// linear part where it has none.
pub open spec fn activation_work(
    c: Map<usize, Contents>,
    tile_dim: u32,
    precision: Precision,
    layer: DenseView,
    input: TensorView,
    rows: usize,
    use_dropout: bool,
    step: usize,
) -> Work {
    Work::Activate {
        function: layer.config.activation,
        of: if layer.config.normalisation == Normalisation::Disabled {
            weighed(c, tile_dim, precision, layer, input, rows)
        } else {
            part(
                Param::Output,
                precision,
                norm_work(c, tile_dim, precision, layer, input, rows),
            )
        },
        dropout: if use_dropout {
            Some(
                Dropout {
                    coefficient: layer.config.mask_coeff,
                    seed: scrambled_seed(step as u32, layer.linear.w.id as u32) as int,
                },
            )
        } else {
            None
        },
        rows: rows as int,
        outputs: layer.linear.w.shape[1] as int,
    }
}

/// A tensor is none of those that a forward pass writes to.
pub open spec fn is_kept_forward(layer: DenseView, id: usize) -> bool {
    &&& id != layer.cache.out.id
    &&& id != layer.cache.predrop_out.id
    &&& id != layer.cache.preact_out.id
    &&& id != layer.mask.id
    &&& layer.config.normalisation != Normalisation::Disabled ==> {
        &&& id != layer.cache.centered_out.id
        &&& id != layer.cache.prenorm_out.id
        &&& id != layer.cache.norm_rstd.id
    }
}

/// What a kernel with up to three outcomes leaves.
proof fn lemma_three(
    c: Map<usize, Contents>,
    k: Kernel,
    precision: Precision,
    args: Seq<KernelArg>,
    w: Work,
    params: Seq<Param>,
)
    requires
        params.len() == 3,
        tensor(k, args, params[0]) != tensor(k, args, params[1]),
        tensor(k, args, params[0]) != tensor(k, args, params[2]),
        tensor(k, args, params[1]) != tensor(k, args, params[2]),
    ensures
        written(c, k, precision, args, w, params)[tensor(k, args, params[0])] == part(
            params[0],
            precision,
            w,
        ),
        written(c, k, precision, args, w, params)[tensor(k, args, params[1])] == part(
            params[1],
            precision,
            w,
        ),
        written(c, k, precision, args, w, params)[tensor(k, args, params[2])] == part(
            params[2],
            precision,
            w,
        ),
        forall|id: usize|
            id != tensor(k, args, params[0]) && id != tensor(k, args, params[1]) && id != tensor(
                k,
                args,
                params[2],
            ) ==> (#[trigger] written(c, k, precision, args, w, params)[id]) == c[id],
{
    lemma_written_at(c, k, precision, args, w, params, 0);
    lemma_written_at(c, k, precision, args, w, params, 1);
    lemma_written_at(c, k, precision, args, w, params, 2);
    assert forall|id: usize|
        id != tensor(k, args, params[0]) && id != tensor(k, args, params[1]) && id != tensor(
            k,
            args,
            params[2],
        ) implies (#[trigger] written(c, k, precision, args, w, params)[id]) == c[id] by {
        lemma_written_elsewhere(c, k, precision, args, w, params, id);
    }
}

/// The linear part of a forward pass puts what it makes of the input where the normalisation, or the
/// activation without one, starts from.
proof fn lemma_linear_part(
    c: Map<usize, Contents>,
    tile_dim: u32,
    precision: Precision,
    layer: DenseView,
    input: TensorView,
    rows: usize,
)
    requires
        rows <= u32::MAX,
        input.shape[1] <= u32::MAX,
        layer.outputs() <= u32::MAX,
    ensures
        ({
            let r = after(c, linear_part(tile_dim, precision, layer, input, rows));
            let to = if layer.config.normalisation == Normalisation::Disabled {
                layer.cache.preact_out.id
            } else {
                layer.cache.prenorm_out.id
            };
            &&& r[to] == weighed(c, tile_dim, precision, layer, input, rows)
            &&& forall|id: usize| id != to ==> (#[trigger] r[id]) == c[id]
        }),
{
    let ops = linear_part(tile_dim, precision, layer, input, rows);
    let k = Kernel::ForwardPass0;
    let args = ops[0]->args;
    lemma_waited(c, ops[0]);
    assert(ops == seq![ops[0], OpView::Synchronize]);
    let w = work(c, k, args);
    let params = outcomes(k);
    assert(params[0] == Param::Output);
    lemma_written_at(c, k, precision, args, w, params, 0);
    let r = after(c, ops);
    assert(r == launched(c, k, precision, args));
    let to = tensor(k, args, Param::Output);
    assert forall|id: usize| id != to implies (#[trigger] r[id]) == c[id] by {
        lemma_written_elsewhere(c, k, precision, args, w, params, id);
    }
}

/// The normalisation of a forward pass.
proof fn lemma_norm_part(
    c: Map<usize, Contents>,
    tile_dim: u32,
    precision: Precision,
    layer: DenseView,
    rows: usize,
)
    requires
        rows <= u32::MAX,
        layer.outputs() <= u32::MAX,
        layer.config.normalisation != Normalisation::Disabled,
        kept_apart(layer_tensors(layer)),
    ensures
        ({
            let r = after(c, norm_part(tile_dim, precision, layer, rows));
            let w = Work::Normalise {
                kind: layer.config.normalisation,
                of: c[layer.cache.prenorm_out.id],
                weights: c[layer.norm.w.id],
                biases: c[layer.norm.b.id],
                rows: rows as int,
                outputs: layer.linear.w.shape[1] as int,
            };
            &&& r[layer.cache.preact_out.id] == part(Param::Output, precision, w)
            &&& r[layer.cache.centered_out.id] == part(Param::Centred, precision, w)
            &&& r[layer.cache.norm_rstd.id] == part(Param::Deviations, precision, w)
            &&& forall|id: usize|
                id != layer.cache.preact_out.id && id != layer.cache.centered_out.id && id
                    != layer.cache.norm_rstd.id ==> (#[trigger] r[id]) == c[id]
        }),
{
    let ops = norm_part(tile_dim, precision, layer, rows);
    let k = Kernel::ForwardPass1;
    let args = ops[0]->args;
    lemma_waited(c, ops[0]);
    assert(ops == seq![ops[0], OpView::Synchronize]);
    let w = work(c, k, args);
    let params = outcomes(k);
    let ts = layer_tensors(layer);
    assert(ts[18] == Some(layer.cache.preact_out) && ts[19] == Some(layer.cache.centered_out)
        && ts[21] == Some(layer.cache.norm_rstd));
    lemma_three(c, k, precision, args, w, params);
    assert(after(c, ops) == launched(c, k, precision, args));
}

/// The activation and the dropout of a forward pass.
proof fn lemma_activation_part(
    c: Map<usize, Contents>,
    tile_dim: u32,
    precision: Precision,
    layer: DenseView,
    rows: usize,
    use_dropout: bool,
    step: usize,
)
    requires
        rows <= u32::MAX,
        layer.outputs() <= u32::MAX,
        kept_apart(layer_tensors(layer)),
    ensures
        ({
            let r = after(
                c,
                activation_part(tile_dim, precision, layer, rows, use_dropout, step),
            );
            let w = Work::Activate {
                function: layer.config.activation,
                of: c[layer.cache.preact_out.id],
                dropout: if use_dropout {
                    Some(
                        Dropout {
                            coefficient: layer.config.mask_coeff,
                            seed: scrambled_seed(
                                step as u32,
                                layer.linear.w.id as u32,
                            ) as int,
                        },
                    )
                } else {
                    None
                },
                rows: rows as int,
                outputs: layer.linear.w.shape[1] as int,
            };
            &&& r[layer.cache.out.id] == part(Param::Output, precision, w)
            &&& r[layer.cache.predrop_out.id] == part(Param::Predrop, precision, w)
            &&& r[layer.mask.id] == part(Param::Mask, precision, w)
            &&& forall|id: usize|
                id != layer.cache.out.id && id != layer.cache.predrop_out.id && id != layer.mask.id
                    ==> (#[trigger] r[id]) == c[id]
        }),
{
    let ops = activation_part(tile_dim, precision, layer, rows, use_dropout, step);
    let k = Kernel::ForwardPass2;
    let args = ops[0]->args;
    lemma_waited(c, ops[0]);
    assert(ops == seq![ops[0], OpView::Synchronize]);
    let w = work(c, k, args);
    let params = outcomes(k);
    let ts = layer_tensors(layer);
    assert(ts[16] == Some(layer.cache.out) && ts[17] == Some(layer.cache.predrop_out) && ts[22]
        == Some(layer.mask));
    lemma_three(c, k, precision, args, w, params);
    assert(after(c, ops) == launched(c, k, precision, args));
}

/// A forward pass takes the input by the weights, adds the biases, normalises the sums where the
/// layer has a normalisation, and puts the activation of that into the outputs of the layer. Each
/// stage starts from what the stage before it has written, and what is kept for the backward pass is
/// what the stages went through. Nothing else changes.
#[verifier::rlimit(40)]
pub proof fn law_forward_pass_goes_through_the_layer(
    c: Map<usize, Contents>,
    tile_dim: u32,
    precision: Precision,
    layer: DenseView,
    input: TensorView,
    rows: usize,
    use_dropout: bool,
    step: usize,
)
    requires
        kept_apart(layer_tensors(layer)),
        forward_pass(tile_dim, precision, layer, input, rows, use_dropout, step).refused is None,
    ensures
        ({
            let r = after(
                c,
                forward_pass(tile_dim, precision, layer, input, rows, use_dropout, step).ops,
            );
            let sums = weighed(c, tile_dim, precision, layer, input, rows);
            let norm = norm_work(c, tile_dim, precision, layer, input, rows);
            let act = activation_work(
                c,
                tile_dim,
                precision,
                layer,
                input,
                rows,
                use_dropout,
                step,
            );
            &&& r[layer.cache.out.id] == part(Param::Output, precision, act)
            &&& r[layer.cache.predrop_out.id] == part(Param::Predrop, precision, act)
            &&& r[layer.mask.id] == part(Param::Mask, precision, act)
            &&& r[layer.cache.preact_out.id] == act->Activate_of
            &&& layer.config.normalisation != Normalisation::Disabled ==> {
                &&& r[layer.cache.prenorm_out.id] == sums
                &&& r[layer.cache.centered_out.id] == part(Param::Centred, precision, norm)
                &&& r[layer.cache.norm_rstd.id] == part(Param::Deviations, precision, norm)
            }
            &&& forall|id: usize| is_kept_forward(layer, id) ==> (#[trigger] r[id]) == c[id]
        }),
{
    let sizes = seq![step, layer.linear.w.id, rows, input.shape[1], layer.outputs()];
    assert(sizes[0] == step && sizes[1] == layer.linear.w.id && sizes[2] == rows && sizes[3]
        == input.shape[1] && sizes[4] == layer.outputs());
    let first = linear_part(tile_dim, precision, layer, input, rows);
    let second = norm_part(tile_dim, precision, layer, rows);
    let third = activation_part(tile_dim, precision, layer, rows, use_dropout, step);
    let c1 = after(c, first);
    let c2 = after(c1, second);
    law_work_goes_on_from_work(c, first, second);
    law_work_goes_on_from_work(c, first + second, third);
    lemma_linear_part(c, tile_dim, precision, layer, input, rows);
    if layer.config.normalisation != Normalisation::Disabled {
        lemma_norm_part(c1, tile_dim, precision, layer, rows);
    } else {
        assert(c2 == c1);
    }
    lemma_activation_part(c2, tile_dim, precision, layer, rows, use_dropout, step);
    let ts = layer_tensors(layer);
    assert(ts[8] == Some(layer.norm.w) && ts[9] == Some(layer.norm.b));
    assert(ts[16] == Some(layer.cache.out) && ts[17] == Some(layer.cache.predrop_out));
    assert(ts[18] == Some(layer.cache.preact_out) && ts[19] == Some(layer.cache.centered_out));
    assert(ts[20] == Some(layer.cache.prenorm_out) && ts[21] == Some(layer.cache.norm_rstd));
    assert(ts[22] == Some(layer.mask));
}

} // verus!
