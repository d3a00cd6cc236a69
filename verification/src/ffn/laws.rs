//! What the passes through a stack of dense layers amount to.

use vstd::prelude::*;

use crate::ffn::{
    backward_layers, forward_layers, forward_numbers, input_of, outputs_of, BackwardRun, ForwardRun,
    NetworkView,
};
use crate::io::device::backward_laws::{
    full_copy, has_slopes, hidden_work, is_apart, is_kept_backward, is_no_slope, is_updated,
    law_hidden_layer_learns_from_the_layer_behind, law_loss_holds_the_outputs_against_the_target,
    law_update_takes_the_step_of_the_training, learning_work, lemma_learning, loss_work, prediction,
};
use crate::io::device::ffn_laws::{
    activation_work, is_kept_forward, kept_apart, law_forward_pass_goes_through_the_layer,
    layer_tensors,
};
use crate::io::device::meaning::{after, law_work_goes_on_from_work, part, Contents, Work};
use crate::io::device::signature::Param;
use crate::io::device::util_laws::{
    fill_of, left, lemma_copied, lemma_freed, lemma_left, lemma_left_nothing, lemma_made,
};
use crate::io::device::{DeviceView, HostView};
use crate::mlp::{
    backward_hidden_through, backward_output_through, forward_through, loss_through, DenseView,
};
use crate::util::context::{LossConfig, TrainContext};
use crate::util::precision::Precision;
use crate::util::tensor::{copied, free_ops, made, Fill, Recipe, TensorView};

verus! {

/// No two layers share a tensor, and neither do two tensors of one layer.
pub open spec fn are_apart(layers: Seq<DenseView>) -> bool {
    &&& forall|i: int| 0 <= i < layers.len() ==> kept_apart(layer_tensors(#[trigger] layers[i]))
    &&& forall|i: int, j: int, k: int|
        0 <= i < layers.len() && 0 <= j < layers.len() && i != j && 0 <= k < 27 && (
        #[trigger] layer_tensors(layers[j])[k]) is Some ==> is_apart(
            #[trigger] layers[i],
            (layer_tensors(layers[j])[k]->0).id,
        )
}

/// A tensor belongs to none of the layers.
pub open spec fn is_apart_from_all(layers: Seq<DenseView>, id: usize) -> bool {
    forall|i: int| 0 <= i < layers.len() ==> is_apart(#[trigger] layers[i], id)
}

/// What comes out of the first `k` layers of a stack: each of them is applied to what comes out of
/// the ones before it.
pub open spec fn sent(
    c: Map<usize, Contents>,
    run: ForwardRun,
    layers: Seq<DenseView>,
    input: TensorView,
    k: int,
) -> Contents
    decreases k,
{
    if k <= 0 {
        c[input.id]
    } else {
        let layer = layers[k - 1];
        let from = if k == 1 {
            input
        } else {
            layers[k - 2].cache.out
        };
        part(
            Param::Output,
            run.precision,
            activation_work(
                c.insert(from.id, sent(c, run, layers, input, k - 1)),
                run.tile_dim,
                run.precision,
                layer,
                from,
                run.batch_size,
                run.use_dropout,
                run.step,
            ),
        )
    }
}

/// The tensors of a layer that a forward pass reads or writes.
proof fn lemma_forward_tensors(layer: DenseView, id: usize)
    requires
        is_apart(layer, id),
    ensures
        is_kept_forward(layer, id),
        id != layer.linear.w.id && id != layer.linear.b.id,
        id != layer.norm.w.id && id != layer.norm.b.id,
{
    let ts = layer_tensors(layer);
    assert(ts[0] == Some(layer.linear.w) && ts[1] == Some(layer.linear.b));
    assert(ts[8] == Some(layer.norm.w) && ts[9] == Some(layer.norm.b));
    assert(ts[16] == Some(layer.cache.out) && ts[17] == Some(layer.cache.predrop_out));
    assert(ts[18] == Some(layer.cache.preact_out) && ts[19] == Some(layer.cache.centered_out));
    assert(ts[20] == Some(layer.cache.prenorm_out) && ts[21] == Some(layer.cache.norm_rstd));
    assert(ts[22] == Some(layer.mask));
}

/// The outputs and the weights of one layer are no tensors of another one.
proof fn lemma_other_layer(layers: Seq<DenseView>, i: int, j: int)
    requires
        are_apart(layers),
        0 <= i < layers.len(),
        0 <= j < layers.len(),
        i != j,
    ensures
        is_apart(layers[i], layers[j].cache.out.id),
        is_apart(layers[i], layers[j].linear.w.id),
        is_apart(layers[i], layers[j].linear.b.id),
        is_apart(layers[i], layers[j].norm.w.id),
        is_apart(layers[i], layers[j].norm.b.id),
        is_apart(layers[i], full_copy(layers[j].linear.master_w, layers[j].linear.w).id),
        layers[j].d_prenorm_out matches Some(t) ==> is_apart(layers[i], t.id),
{
    let ts = layer_tensors(layers[j]);
    assert(ts[0] == Some(layers[j].linear.w) && ts[1] == Some(layers[j].linear.b));
    assert(ts[2] == layers[j].linear.master_w);
    assert(ts[8] == Some(layers[j].norm.w) && ts[9] == Some(layers[j].norm.b));
    assert(ts[16] == Some(layers[j].cache.out) && ts[24] == layers[j].d_prenorm_out);
    assert(is_apart(layers[i], (ts[0]->0).id) && is_apart(layers[i], (ts[1]->0).id));
    assert(is_apart(layers[i], (ts[8]->0).id) && is_apart(layers[i], (ts[9]->0).id));
    assert(is_apart(layers[i], (ts[16]->0).id));
}

/// A batch that is sent through a stack goes through its layers one after the other: each layer is
/// applied to what the layer before it has put out, the first one to the input, and with the weights
/// that were there before. No tensor beside those of the layers changes.
#[verifier::rlimit(40)]
pub proof fn law_batch_goes_from_layer_to_layer(
    c: Map<usize, Contents>,
    run: ForwardRun,
    layers: Seq<DenseView>,
    input: TensorView,
    k: int,
)
    requires
        are_apart(layers),
        is_apart_from_all(layers, input.id),
        0 <= k <= layers.len(),
        forward_layers(run, layers, input, k).refused is None,
    ensures
        ({
            let r = after(c, forward_layers(run, layers, input, k).ops);
            &&& forall|i: int|
                0 <= i < k ==> r[(#[trigger] layers[i]).cache.out.id] == sent(
                    c,
                    run,
                    layers,
                    input,
                    i + 1,
                )
            &&& forall|id: usize|
                (forall|i: int| 0 <= i < k ==> is_kept_forward(#[trigger] layers[i], id)) ==> (
                #[trigger] r[id]) == c[id]
        }),
    decreases k,
{
    if k > 0 {
        reveal(forward_through);
        let layer = layers[k - 1];
        let from = input_of(outputs_of(layers), input, k - 1);
        let before = forward_layers(run, layers, input, k - 1);
        let pass = forward_through(
            run.tile_dim,
            run.precision,
            layer,
            from,
            run.batch_size,
            run.use_dropout,
            run.step,
        );
        law_batch_goes_from_layer_to_layer(c, run, layers, input, k - 1);
        law_work_goes_on_from_work(c, before.ops, pass.ops);
        let m = after(c, before.ops);
        law_forward_pass_goes_through_the_layer(
            m,
            run.tile_dim,
            run.precision,
            layer,
            from,
            run.batch_size,
            run.use_dropout,
            run.step,
        );
        let r = after(c, forward_layers(run, layers, input, k).ops);
        assert(r == after(m, pass.ops));
        assert forall|id: usize|
            (forall|i: int| 0 <= i < k - 1 ==> is_apart(#[trigger] layers[i], id)) implies (
        #[trigger] m[id]) == c[id] by {
            assert forall|i: int| 0 <= i < k - 1 implies is_kept_forward(
                #[trigger] layers[i],
                id,
            ) by {
                lemma_forward_tensors(layers[i], id);
            }
        }
        assert forall|i: int| 0 <= i < k - 1 implies is_apart(
            #[trigger] layers[i],
            layer.linear.w.id,
        ) && is_apart(layers[i], layer.linear.b.id) && is_apart(layers[i], layer.norm.w.id)
            && is_apart(layers[i], layer.norm.b.id) by {
            lemma_other_layer(layers, i, k - 1);
        }
        assert(m[layer.linear.w.id] == c[layer.linear.w.id]);
        assert(m[layer.linear.b.id] == c[layer.linear.b.id]);
        assert(m[layer.norm.w.id] == c[layer.norm.w.id]);
        assert(m[layer.norm.b.id] == c[layer.norm.b.id]);
        if k == 1 {
            assert(m[input.id] == c[input.id]);
            assert(is_apart(layer, input.id));
        } else {
            assert(from == layers[k - 2].cache.out);
            assert(m[layers[k - 2].cache.out.id] == sent(c, run, layers, input, k - 1));
            lemma_other_layer(layers, k - 1, k - 2);
        }
        lemma_forward_tensors(layer, from.id);
        let s = c.insert(from.id, sent(c, run, layers, input, k - 1));
        assert(s[from.id] == m[from.id]);
        assert(activation_work(
            s,
            run.tile_dim,
            run.precision,
            layer,
            from,
            run.batch_size,
            run.use_dropout,
            run.step,
        ) == activation_work(
            m,
            run.tile_dim,
            run.precision,
            layer,
            from,
            run.batch_size,
            run.use_dropout,
            run.step,
        ));
        assert forall|i: int| 0 <= i < k implies r[(#[trigger] layers[i]).cache.out.id] == sent(
            c,
            run,
            layers,
            input,
            i + 1,
        ) by {
            if i < k - 1 {
                lemma_other_layer(layers, k - 1, i);
                lemma_forward_tensors(layer, layers[i].cache.out.id);
            }
        }
        assert forall|id: usize|
            (forall|i: int| 0 <= i < k ==> is_kept_forward(#[trigger] layers[i], id)) implies (
        #[trigger] r[id]) == c[id] by {
            assert(is_kept_forward(layers[k - 1], id));
            assert(m[id] == c[id]);
        }
    }
}

/// The training of one layer of a stack: the optimisers that are listed for it, and the batch, the
/// learning rate and the bound on the gradients of the stack.
pub open spec fn training_of<'a>(run: BackwardRun<'a>, k: int) -> TrainContext<'a> {
    TrainContext {
        optimiser: &run.train.optimisers@[k],
        norm_optimiser: &run.train.norm_optimisers@[k],
        batch_size: run.train.batch_size,
        learn_rate: run.train.learn_rate,
        grad_clamp: run.train.grad_clamp,
    }
}

/// What a layer of a stack is applied to: the input of the stack, or the outputs of the layer before
/// it.
pub open spec fn taken_by(outputs: Seq<TensorView>, input: TensorView, k: int) -> TensorView {
    if k == 0 {
        input
    } else {
        outputs[k - 1]
    }
}

/// What a pass leaves of a layer that learns: the gradients of an error, and weights and biases one
/// step of the training on.
pub open spec fn has_learned(
    before: Map<usize, Contents>,
    now: Map<usize, Contents>,
    run: BackwardRun,
    layer: DenseView,
    taken: TensorView,
    k: int,
    error: Work,
) -> bool {
    let update = learning_work(
        before,
        run.precision,
        layer,
        taken,
        training_of(run, k),
        run.step,
        error,
    );
    &&& has_slopes(now, run.precision, layer, error)
    &&& forall|i: int| 0 <= i < 16 ==> #[trigger] is_updated(now, run.precision, layer, update, i)
}

/// The last layer of a stack learns from the target: its error holds its outputs against the target
/// that the caller passes, and its weights take a step with the optimisers that are listed for it,
/// from the outputs of the layer before it.
#[verifier::rlimit(40)]
pub proof fn law_last_layer_learns_from_the_target(
    c: Map<usize, Contents>,
    run: BackwardRun,
    layers: Seq<DenseView>,
    outputs: Seq<TensorView>,
    target: TensorView,
    input: TensorView,
    config: LossConfig,
)
    requires
        are_apart(layers),
        layers.len() > 0,
        layers.last().trainable(),
        is_apart(layers.last(), target.id),
        is_apart(layers.last(), taken_by(outputs, input, layers.len() - 1).id),
        backward_layers(
            run,
            layers,
            outputs,
            target,
            input,
            config,
            layers.len() - 1,
        ).refused is None,
    ensures
        ({
            let last = layers.len() - 1;
            let layer = layers[last];
            let r = after(
                c,
                backward_layers(run, layers, outputs, target, input, config, last).ops,
            );
            let error = loss_work(
                c,
                run.precision,
                layer,
                target,
                config.loss_func,
                config.activation,
            );
            &&& has_learned(c, r, run, layer, taken_by(outputs, input, last), last, error)
            &&& r[layer.cache.out.id] == prediction(c, run.precision, layer, config.activation)
            &&& forall|id: usize| is_apart(layer, id) ==> (#[trigger] r[id]) == c[id]
        }),
{
    reveal(loss_through);
    reveal(backward_output_through);
    let last = layers.len() - 1;
    let layer = layers[last];
    let from = taken_by(outputs, input, last);
    let train = training_of(run, last);
    assert(from == input_of(outputs, input, last));
    assert(train == run.train.layer(last));
    let first = loss_through(run.tile_dim, run.precision, layer, target, config);
    let second = backward_output_through(
        run.tile_dim,
        run.precision,
        layer,
        from,
        train,
        run.step,
    );
    law_work_goes_on_from_work(c, first.ops, second.ops);
    let m = after(c, first.ops);
    law_loss_holds_the_outputs_against_the_target(
        c,
        run.tile_dim,
        run.precision,
        layer,
        target,
        config.loss_func,
        config.activation,
    );
    law_update_takes_the_step_of_the_training(
        m,
        run.tile_dim,
        run.precision,
        layer,
        from,
        train,
        run.step,
    );
    let error = loss_work(c, run.precision, layer, target, config.loss_func, config.activation);
    let ts = layer_tensors(layer);
    lemma_gradients(layer, from.id);
    // The step does not read the outputs, which the softmax may have changed.
    let s = c.insert(layer.cache.out.id, m[layer.cache.out.id]);
    lemma_learning(s, m, run.precision, layer, from, train, run.step, error);
    lemma_outputs_are_not_learned_from(
        c,
        s,
        run.precision,
        layer,
        from,
        train,
        run.step,
        error,
    );
    let r = after(m, second.ops);
    lemma_kept_gradients(layer);
    assert forall|id: usize| is_apart(layer, id) implies (#[trigger] r[id]) == c[id] by {
        lemma_gradients(layer, id);
        lemma_forward_tensors(layer, id);
        assert(m[id] == c[id]);
    }
    assert(r[layer.cache.out.id] == m[layer.cache.out.id]);
}

/// A tensor beside those of a layer is none of its gradients, and the training does not change it.
proof fn lemma_gradients(layer: DenseView, id: usize)
    requires
        is_apart(layer, id),
        layer.has_gradients(),
    ensures
        is_no_slope(layer, id),
        is_kept_backward(layer, id),
{
    let ts = layer_tensors(layer);
    assert(ts[23] == layer.grad && ts[24] == layer.d_prenorm_out && ts[25] == layer.d_norm_w
        && ts[26] == layer.d_norm_b);
}

/// The training of a layer changes neither its gradients nor its outputs.
proof fn lemma_kept_gradients(layer: DenseView)
    requires
        kept_apart(layer_tensors(layer)),
        layer.has_gradients(),
    ensures
        is_kept_backward(layer, (layer.grad->0).id),
        is_kept_backward(layer, (layer.d_prenorm_out->0).id),
        is_kept_backward(layer, (layer.d_norm_w->0).id),
        is_kept_backward(layer, (layer.d_norm_b->0).id),
        is_kept_backward(layer, layer.cache.out.id),
{
    let ts = layer_tensors(layer);
    assert(ts[16] == Some(layer.cache.out));
    assert(ts[23] == layer.grad && ts[24] == layer.d_prenorm_out && ts[25] == layer.d_norm_w
        && ts[26] == layer.d_norm_b);
}

/// One step of the training does not depend on what the outputs of the layer hold.
proof fn lemma_outputs_are_not_learned_from(
    c: Map<usize, Contents>,
    s: Map<usize, Contents>,
    precision: Precision,
    layer: DenseView,
    from: TensorView,
    train: TrainContext,
    step: usize,
    error: Work,
)
    requires
        kept_apart(layer_tensors(layer)),
        layer.trainable(),
        from.id != layer.cache.out.id,
        forall|id: usize| id != layer.cache.out.id ==> (#[trigger] s[id]) == c[id],
    ensures
        learning_work(s, precision, layer, from, train, step, error) == learning_work(
            c,
            precision,
            layer,
            from,
            train,
            step,
            error,
        ),
{
    let ts = layer_tensors(layer);
    assert(ts[16] == Some(layer.cache.out));
    assert(ts[0] == Some(layer.linear.w) && ts[1] == Some(layer.linear.b));
    assert(ts[2] == layer.linear.master_w && ts[3] == layer.linear.master_b);
    assert(ts[4] == layer.linear.dv_w && ts[5] == layer.linear.dv_b);
    assert(ts[6] == layer.linear.dm_w && ts[7] == layer.linear.dm_b);
    assert(ts[8] == Some(layer.norm.w) && ts[9] == Some(layer.norm.b));
    assert(ts[10] == layer.norm.master_w && ts[11] == layer.norm.master_b);
    assert(ts[12] == layer.norm.dv_w && ts[13] == layer.norm.dv_b);
    assert(ts[14] == layer.norm.dm_w && ts[15] == layer.norm.dm_b);
}

/// A hidden layer of a stack learns from the layer behind it, once that one has learned: the error of
/// that layer is taken back through its weights, and the weights of the hidden layer take a step with
/// the optimisers that are listed for it, from the outputs of the layer before it. The other layers
/// stay as they are.
pub proof fn law_hidden_layers_learn_one_after_the_other(
    c: Map<usize, Contents>,
    run: BackwardRun,
    layers: Seq<DenseView>,
    outputs: Seq<TensorView>,
    target: TensorView,
    input: TensorView,
    config: LossConfig,
    k: int,
)
    requires
        are_apart(layers),
        0 <= k < layers.len() - 1,
        layers[k].trainable(),
        layers[k + 1].d_prenorm_out is Some,
        is_apart(layers[k], taken_by(outputs, input, k).id),
        backward_layers(run, layers, outputs, target, input, config, k).refused is None,
    ensures
        ({
            let layer = layers[k];
            let m = after(
                c,
                backward_layers(run, layers, outputs, target, input, config, k + 1).ops,
            );
            let r = after(
                c,
                backward_layers(run, layers, outputs, target, input, config, k).ops,
            );
            let error = hidden_work(
                m,
                layer,
                layers[k + 1],
                layer.config.activation,
                run.train.batch_size,
            );
            &&& has_learned(m, r, run, layer, taken_by(outputs, input, k), k, error)
            &&& forall|id: usize| is_apart(layer, id) ==> (#[trigger] r[id]) == m[id]
        }),
{
    reveal(backward_hidden_through);
    let layer = layers[k];
    let next = layers[k + 1];
    let from = taken_by(outputs, input, k);
    let train = training_of(run, k);
    assert(from == input_of(outputs, input, k));
    assert(train == run.train.layer(k));
    let before = backward_layers(run, layers, outputs, target, input, config, k + 1);
    let pass = backward_hidden_through(
        run.tile_dim,
        run.precision,
        layer,
        next,
        from,
        train,
        run.step,
    );
    law_work_goes_on_from_work(c, before.ops, pass.ops);
    let m = after(c, before.ops);
    lemma_other_layer(layers, k, k + 1);
    law_hidden_layer_learns_from_the_layer_behind(
        m,
        run.tile_dim,
        run.precision,
        layer,
        next,
        from,
        layer.config.activation,
        train,
        run.step,
    );
    let r = after(m, pass.ops);
    assert forall|id: usize| is_apart(layer, id) implies (#[trigger] r[id]) == m[id] by {
        lemma_gradients(layer, id);
    }
}

/// Raw numbers that are sent through a network come out as what the layers make of them, one after
/// the other, in a tensor of its own; no tensor beside those of the layers and the two new ones
/// changes.
#[verifier::rlimit(40)]
pub proof fn law_raw_numbers_go_through_the_network(
    c: Map<usize, Contents>,
    d: DeviceView,
    run: ForwardRun,
    network: NetworkView,
    numbers: Seq<u32>,
)
    requires
        are_apart(network.layers),
        is_apart_from_all(network.layers, d.next_id),
        d.next_id < usize::MAX,
        is_apart_from_all(network.layers, (d.next_id + 1) as usize),
        forward_numbers(d, run, network, numbers).1 is None,
    ensures
        ({
            let (e, refused, out) = forward_numbers(d, run, network, numbers);
            let layers = network.layers;
            let r = left(c, d, e);
            let input = TensorView { id: d.next_id, shape: seq![run.batch_size, network.inputs] };
            let s = c.insert(
                d.next_id,
                Contents::Host {
                    precision: run.precision,
                    held: run.precision,
                    numbers: HostView::Patterns(numbers),
                },
            );
            &&& layers.len() > 0
            &&& r[out.id] == sent(s, run, layers, input, layers.len() as int)
            &&& out.shape == layers.last().cache.out.shape
            &&& out.id == d.next_id + 1
            &&& forall|id: usize|
                is_apart_from_all(layers, id) && id != d.next_id && id != d.next_id + 1 ==> (
                #[trigger] r[id]) == c[id]
        }),
{
    let layers = network.layers;
    let n = layers.len() as int;
    let shape = seq![run.batch_size, network.inputs];
    let input = TensorView { id: d.next_id, shape };
    let recipe = Recipe {
        shape,
        precision: run.precision,
        fill: Fill::Host { held: run.precision, numbers: HostView::Patterns(numbers) },
    };
    let s = c.insert(d.next_id, fill_of(recipe));
    let e = forward_numbers(d, run, network, numbers).0;
    let r = left(c, d, e);
    let uploaded = made(d, recipe).0;
    lemma_left_nothing(c, d);
    lemma_made(c, d, d, recipe);
    let c0 = left(c, d, uploaded);
    let ops = forward_layers(run, layers, input, n).ops;
    lemma_left(c, d, uploaded, ops);
    law_batch_goes_from_layer_to_layer(c0, run, layers, input, n);
    lemma_sent_alike(c0, s, run, layers, input, n);
    let passed = uploaded.then_run(ops);
    let c1 = left(c, d, passed);
    let last = layers.last().cache.out;
    lemma_copied(c, d, passed, last);
    let done = copied(passed, last);
    let c2 = left(c, d, done);
    lemma_left(c, d, done, free_ops(input));
    assert(r == after(c2, free_ops(input)));
    lemma_freed(c2, free_ops(input), (d.next_id + 1) as usize);
    assert(layers[n - 1] == layers.last());
    assert forall|id: usize|
        is_apart_from_all(layers, id) && id != d.next_id && id != d.next_id + 1 implies (
    #[trigger] r[id]) == c[id] by {
        lemma_freed(c2, free_ops(input), id);
        assert forall|i: int| 0 <= i < n implies is_kept_forward(#[trigger] layers[i], id) by {
            lemma_forward_tensors(layers[i], id);
        }
        assert(c1[id] == c0[id]);
    }
}

/// What comes out of a stack depends on what the buffers hold, and on nothing else about them.
proof fn lemma_sent_alike(
    a: Map<usize, Contents>,
    b: Map<usize, Contents>,
    run: ForwardRun,
    layers: Seq<DenseView>,
    input: TensorView,
    k: int,
)
    requires
        forall|id: usize| (#[trigger] a[id]) == b[id],
    ensures
        sent(a, run, layers, input, k) == sent(b, run, layers, input, k),
    decreases k,
{
    if k > 0 {
        lemma_sent_alike(a, b, run, layers, input, k - 1);
        let from = if k == 1 {
            input
        } else {
            layers[k - 2].cache.out
        };
        let x = sent(a, run, layers, input, k - 1);
        assert forall|id: usize| (#[trigger] a.insert(from.id, x)[id]) == b.insert(from.id, x)[id] by {
            if id != from.id {
                assert(a[id] == b[id]);
            }
        }
        let layer = layers[k - 1];
        let (s, t) = (a.insert(from.id, x), b.insert(from.id, x));
        assert(s[from.id] == t[from.id] && s[layer.linear.w.id] == t[layer.linear.w.id]
            && s[layer.linear.b.id] == t[layer.linear.b.id] && s[layer.norm.w.id]
            == t[layer.norm.w.id] && s[layer.norm.b.id] == t[layer.norm.b.id]);
    }
}

} // verus!
