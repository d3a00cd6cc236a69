//! A stack of dense layers.

pub mod laws;

use vstd::prelude::*;
use vstd::string::*;

use crate::io::device::ffn_device::{done, refused, Outcome};
use crate::io::device::{
    lemma_then_run, tile_refusal, DeviceView, GpuContext, HostNumbers, HostView,
};
use crate::mlp::{
    backward_hidden_ready, backward_hidden_through, backward_output_ready,
    backward_output_through, forward_ready, forward_through, loss_ready, loss_through, DenseBlock,
    DenseView,
};
use crate::util::context::{LossConfig, MultiLayerTrainContext};
use crate::util::function::{Activation, Normalisation};
use crate::util::log::{invalid_configuration, refusal, Error, ErrorView};
use crate::util::precision::{Precision, PrecisionType};
use crate::util::tensor::{
    copied, free_ops, lemma_plane_count, made, next_like, patterns, to_patterns, Fill, Recipe,
    Tensor2D, TensorView,
};
use crate::util::text::{append_decimal, decimal};

verus! {

/// A stack of dense layers, each of which takes what the one before it puts out.
#[derive(Debug)]
pub struct FeedForwardNetwork<T: PrecisionType> {
    layers: Vec<DenseBlock<T>>,
    inputs: usize,
}

/// What a [`FeedForwardNetwork`] stands for.
#[verifier::ext_equal]
pub struct NetworkView {
    pub layers: Seq<DenseView>,
    pub inputs: usize,
}

impl<T: PrecisionType> View for FeedForwardNetwork<T> {
    type V = NetworkView;

    closed spec fn view(&self) -> NetworkView {
        NetworkView { layers: layer_views(self.layers@), inputs: self.inputs }
    }
}

/// What layers stand for.
pub open spec fn layer_views<T: PrecisionType>(layers: Seq<DenseBlock<T>>) -> Seq<DenseView> {
    layers.map_values(|b: DenseBlock<T>| b@)
}

/// What tensors stand for.
pub open spec fn tensor_views<T: PrecisionType>(ts: Seq<&Tensor2D<T>>) -> Seq<TensorView> {
    ts.map_values(|t: &Tensor2D<T>| t@)
}

/// How a batch is sent forward.
pub struct ForwardRun {
    pub tile_dim: u32,
    pub precision: Precision,
    pub batch_size: usize,
    pub use_dropout: bool,
    pub step: usize,
}

/// What a layer of a stack takes: the input of the stack, or what the layer before it puts out.
pub open spec fn input_of(outputs: Seq<TensorView>, input: TensorView, k: int) -> TensorView {
    if k > 0 {
        outputs[k - 1]
    } else {
        input
    }
}

/// What layers put out.
pub open spec fn outputs_of(layers: Seq<DenseView>) -> Seq<TensorView> {
    layers.map_values(|l: DenseView| l.cache.out)
}

/// The forward passes of the first `k` layers, one after the other.
pub open spec fn forward_layers(
    run: ForwardRun,
    layers: Seq<DenseView>,
    input: TensorView,
    k: int,
) -> Outcome
    decreases k,
{
    if k <= 0 {
        done(seq![])
    } else {
        forward_layers(run, layers, input, k - 1).and_next(
            forward_through(
                run.tile_dim,
                run.precision,
                layers[k - 1],
                input_of(outputs_of(layers), input, k - 1),
                run.batch_size,
                run.use_dropout,
                run.step,
            ),
        )
    }
}

/// The grids of every forward pass that is not refused can be worked out in 32 bits.
pub open spec fn forward_layers_ready(
    run: ForwardRun,
    layers: Seq<DenseView>,
    input: TensorView,
) -> bool {
    forall|k: int|
        0 <= k < layers.len() && (#[trigger] forward_layers(run, layers, input, k)).refused is None
            ==> forward_ready(
            run.tile_dim,
            run.precision,
            layers[k],
            input_of(outputs_of(layers), input, k),
            run.batch_size,
            run.use_dropout,
            run.step,
        )
}

/// The device once raw numbers are sent forward, why that is refused, and what comes out: a copy
/// of what the last layer puts out. The tensor of the numbers is given back in any case.
pub open spec fn forward_numbers(
    d: DeviceView,
    run: ForwardRun,
    network: NetworkView,
    numbers: Seq<u32>,
) -> (DeviceView, Option<ErrorView>, TensorView) {
    let shape = seq![run.batch_size, network.inputs];
    let uploaded = made(
        d,
        Recipe {
            shape,
            precision: run.precision,
            fill: Fill::Host { held: run.precision, numbers: HostView::Patterns(numbers) },
        },
    );
    let input = TensorView { id: d.next_id, shape };
    let passes = forward_layers(run, network.layers, input, network.layers.len() as int);
    let last = network.layers.last().cache.out;
    if uploaded.1 is Some {
        (uploaded.0, uploaded.1, input)
    } else {
        let passed = uploaded.0.then_run(passes.ops);
        if passes.refused is Some {
            (passed.then_run(free_ops(input)), passes.refused, input)
        } else if network.layers.len() == 0 {
            (
                passed.then_run(free_ops(input)),
                Some(
                    ErrorView::InvalidConfiguration {
                        reason:
                            "Cannot execute raw forward pass on an empty network matrix architecture"@,
                    },
                ),
                input,
            )
        } else {
            (copied(passed, last).then_run(free_ops(input)), None, next_like(passed, last))
        }
    }
}

/// How a batch is sent backward.
pub struct BackwardRun<'a> {
    pub tile_dim: u32,
    pub precision: Precision,
    pub train: MultiLayerTrainContext<'a>,
    pub step: usize,
}

/// The loss and the backward pass of the last layer.
pub open spec fn backward_last(
    run: BackwardRun,
    layers: Seq<DenseView>,
    outputs: Seq<TensorView>,
    target: TensorView,
    input: TensorView,
    config: LossConfig,
) -> Outcome {
    let last = layers.len() - 1;
    loss_through(run.tile_dim, run.precision, layers[last], target, config).and_next(
        backward_output_through(
            run.tile_dim,
            run.precision,
            layers[last],
            input_of(outputs, input, last),
            run.train.layer(last),
            run.step,
        ),
    )
}

/// The loss and the backward passes of the layers from the last one down to the one at place `k`.
pub open spec fn backward_layers(
    run: BackwardRun,
    layers: Seq<DenseView>,
    outputs: Seq<TensorView>,
    target: TensorView,
    input: TensorView,
    config: LossConfig,
    k: int,
) -> Outcome
    decreases layers.len() - k,
{
    if k >= layers.len() - 1 {
        backward_last(run, layers, outputs, target, input, config)
    } else {
        backward_layers(run, layers, outputs, target, input, config, k + 1).and_next(
            backward_hidden_through(
                run.tile_dim,
                run.precision,
                layers[k],
                layers[k + 1],
                input_of(outputs, input, k),
                run.train.layer(k),
                run.step,
            ),
        )
    }
}

/// Why a backward pass of a stack is refused before the layers are asked: there has to be one
/// output and one optimiser for each layer.
pub open spec fn stack_refusal(layers: nat, outputs: nat, optimisers: nat) -> Option<ErrorView> {
    if outputs != layers || optimisers != layers {
        Some(
            ErrorView::InvalidConfiguration {
                reason: "Backward pass expects exactly "@ + decimal(layers)
                    + " activation vectors and optimizers. Found "@ + decimal(outputs)
                    + " outputs, "@ + decimal(optimisers) + " optimisers."@,
            },
        )
    } else {
        None
    }
}

/// The backward pass of a stack.
pub open spec fn backward_stack(
    run: BackwardRun,
    layers: Seq<DenseView>,
    outputs: Seq<TensorView>,
    target: TensorView,
    input: TensorView,
    config: LossConfig,
) -> Outcome {
    match stack_refusal(layers.len(), outputs.len(), run.train.optimisers@.len()) {
        Some(e) => refused(e),
        None => backward_layers(run, layers, outputs, target, input, config, 0),
    }
}

/// There is a layer, there is an optimiser of the normalisation for each layer, and every pass that
/// is reached finds its tensors and can work its grids out in 32 bits.
pub open spec fn backward_stack_ready(
    run: BackwardRun,
    layers: Seq<DenseView>,
    outputs: Seq<TensorView>,
    target: TensorView,
    input: TensorView,
    config: LossConfig,
) -> bool {
    let last = layers.len() - 1;
    &&& 0 < layers.len() <= run.train.norm_optimisers@.len()
    &&& loss_ready(run.tile_dim, run.precision, layers[last], target, config)
    &&& loss_through(run.tile_dim, run.precision, layers[last], target, config).refused is None
        ==> backward_output_ready(
        run.tile_dim,
        run.precision,
        layers[last],
        input_of(outputs, input, last),
        run.train.layer(last),
        run.step,
    )
    &&& forall|k: int|
        0 < k <= last && (#[trigger] backward_layers(
            run,
            layers,
            outputs,
            target,
            input,
            config,
            k,
        )).refused is None ==> backward_hidden_ready(
            run.tile_dim,
            run.precision,
            layers[k - 1],
            layers[k],
            input_of(outputs, input, k - 1),
            run.train.layer(k - 1),
        )
}

impl<T: PrecisionType> FeedForwardNetwork<T> {
    /// Every tensor of every layer has its axes.
    pub open spec fn wf(&self) -> bool {
        forall|i: int| 0 <= i < self@.layers.len() ==> (#[trigger] self@.layers[i]).wf()
    }

    /// Creates a new `FeedForwardNetwork` instance by wrapping a sequential stack of layers.
    ///
    /// # Arguments
    /// * `layers` - A vector of `DenseBlock<T>` representing the layers of the network.
    /// * `inputs` - The total expected feature dimension length of a single raw input sample.
    #[must_use]
    pub fn new(layers: Vec<DenseBlock<T>>, inputs: usize) -> (r: Self)
        ensures
            r@ == (NetworkView { layers: layer_views(layers@), inputs }),
    {
        Self { layers, inputs }
    }

    /// Executes a sequential forward execution pass.
    ///
    /// # Arguments
    /// * `context` - See [`GpuContext`].
    /// * `input` - The input tensor for the first layer.
    /// * `batch_size` - The batch size for this pass.
    /// * `use_dropout` - If set to false, dropout is disabled.
    /// * `step` - The current training iteration step.
    ///
    /// # Returns
    /// A reference to a vector of outputs from each layer in the network.
    ///
    /// # Errors
    /// Returns an [`Error`] if dense block forward propagation fails.
    pub fn forward<'a>(
        &'a self,
        context: &mut GpuContext,
        input: &'a Tensor2D<T>,
        batch_size: usize,
        use_dropout: bool,
        step: usize,
    ) -> (r: Result<Vec<&'a Tensor2D<T>>, Error>)
        requires
            old(context).wf(),
            self.wf(),
            input.wf(),
            forward_layers_ready(
                (ForwardRun {
                    tile_dim: old(context)@.tile_dim,
                    precision: T::format(),
                    batch_size,
                    use_dropout,
                    step,
                }),
                self@.layers,
                input@,
            ),
        ensures
            final(context).wf(),
            ({
                let outcome = forward_layers(
                    ForwardRun {
                        tile_dim: old(context)@.tile_dim,
                        precision: T::format(),
                        batch_size,
                        use_dropout,
                        step,
                    },
                    self@.layers,
                    input@,
                    self@.layers.len() as int,
                );
                &&& refusal(r) == outcome.refused
                &&& final(context)@ == old(context)@.then_run(outcome.ops)
            }),
            r matches Ok(outputs) ==> tensor_views(outputs@) == outputs_of(self@.layers),
    {
        broadcast use lemma_then_run;

        let ghost run = ForwardRun {
            tile_dim: context@.tile_dim,
            precision: T::format(),
            batch_size,
            use_dropout,
            step,
        };
        let ghost d = context@;
        let mut outputs: Vec<&'a Tensor2D<T>> = Vec::with_capacity(self.layers.len());
        let mut current_input: &'a Tensor2D<T> = input;
        let mut i: usize = 0;
        assert(d.then_run(seq![]) == d);
        while i < self.layers.len()
            invariant
                i <= self@.layers.len(),
                self@.layers == layer_views(self.layers@),
                self.wf(),
                context.wf(),
                d == old(context)@,
                d.tile_dim == run.tile_dim,
                run == (ForwardRun {
                    tile_dim: run.tile_dim,
                    precision: T::format(),
                    batch_size,
                    use_dropout,
                    step,
                }),
                current_input.wf(),
                current_input@ == input_of(outputs_of(self@.layers), input@, i as int),
                forward_layers_ready(run, self@.layers, input@),
                forward_layers(run, self@.layers, input@, i as int).refused is None,
                context@ == d.then_run(forward_layers(run, self@.layers, input@, i as int).ops),
                tensor_views(outputs@) == outputs_of(self@.layers).take(i as int),
            decreases self@.layers.len() - i,
        {
            assert(self@.layers[i as int] == self.layers[i as int]@);
            let ghost before = outputs@;
            match self.layers[i].forward(context, current_input, batch_size, use_dropout, step) {
                Ok(out) => {
                    current_input = out;
                    outputs.push(out);
                    assert(tensor_views(outputs@) == tensor_views(before).push(out@));
                },
                Err(e) => {
                    proof {
                        lemma_forward_stops(run, self@.layers, input@, i + 1);
                    }
                    return Err(e);
                },
            }
            i += 1;
            assert(tensor_views(outputs@) == outputs_of(self@.layers).take(i as int));
        }
        assert(outputs_of(self@.layers).take(i as int) == outputs_of(self@.layers));
        Ok(outputs)
    }

    /// Executes a sequential forward execution pass.
    ///
    /// # Arguments
    /// * `context` - See [`GpuContext`].
    /// * `raw_pixels` - The input vector for the first layer. This vector will be converted into a
    ///   tensor internally.
    /// * `batch_size` - The batch size for this pass.
    /// * `use_dropout` - If set to false, dropout is disabled.
    /// * `step` - The current training iteration step.
    ///
    /// # Returns
    /// A **copy** of the output tensor from the very last layer.
    ///
    /// # Errors
    /// Returns an [`Error`] if dense block forward propagation or GPU memory allocation fails, or if
    /// there are not as many numbers as the batch has inputs.
    pub fn forward_raw(
        &self,
        context: &mut GpuContext,
        raw_pixels: &[T],
        batch_size: usize,
        use_dropout: bool,
        step: usize,
    ) -> (r: Result<Tensor2D<T>, Error>)
        requires
            old(context).wf(),
            self.wf(),
            batch_size * self@.inputs <= usize::MAX,
            raw_pixels@.len() == batch_size * self@.inputs ==> forward_layers_ready(
                (ForwardRun {
                    tile_dim: old(context)@.tile_dim,
                    precision: T::format(),
                    batch_size,
                    use_dropout,
                    step,
                }),
                self@.layers,
                (TensorView { id: old(context)@.next_id, shape: seq![batch_size, self@.inputs] }),
            ),
        ensures
            final(context).wf(),
            ({
                let outcome = forward_numbers(
                    old(context)@,
                    ForwardRun {
                        tile_dim: old(context)@.tile_dim,
                        precision: T::format(),
                        batch_size,
                        use_dropout,
                        step,
                    },
                    self@,
                    patterns(raw_pixels@),
                );
                &&& final(context)@ == outcome.0
                &&& refusal(r) == outcome.1
                &&& r matches Ok(t) ==> t.wf() && t@ == outcome.2
            }),
    {
        let shape: [usize; 2] = [batch_size, self.inputs];
        proof {
            lemma_plane_count(shape@);
            assert(shape@ == seq![batch_size, self@.inputs]);
            assert(self@.layers == layer_views(self.layers@));
        }
        let numbers = HostNumbers::Patterns(to_patterns(raw_pixels));
        let input_tensor = Tensor2D::from_host(context, numbers, T::precision(), &shape)?;
        let passed = self.forward(context, &input_tensor, batch_size, use_dropout, step);
        let all_outputs = match passed {
            Ok(all_outputs) => all_outputs,
            Err(e) => {
                input_tensor.free(context);
                return Err(e);
            },
        };
        assert(tensor_views(all_outputs@).len() == outputs_of(self@.layers).len());
        if all_outputs.len() == 0 {
            assert(tensor_views(all_outputs@).len() == 0);
            input_tensor.free(context);
            return Err(
                invalid_configuration(
                    "Cannot execute raw forward pass on an empty network matrix architecture",
                ),
            );
        }
        let last: usize = all_outputs.len() - 1;
        proof {
            assert(tensor_views(all_outputs@)[last as int] == outputs_of(self@.layers)[last as int]);
        }
        let copy = all_outputs[last].clone(context)?;
        input_tensor.free(context);
        Ok(copy)
    }

    /// Executes a sequential backward execution pass.
    ///
    /// # Arguments
    /// * `context` - GPU Context. See [`GpuContext`].
    /// * `outputs` - What each layer put out in the forward pass.
    /// * `target` - A [`Tensor2D<T>`] with size `(batch size, output features)` representing
    ///   the current target batch.
    /// * `input` - A [`Tensor2D<T>`] that contains the input to this layer during the forward pass.
    /// * `loss_config` - See [`LossConfig`].
    /// * `train_ctx` - Information and hyperparameters for training.
    /// * `step` - The current training iteration step.
    ///
    /// # Errors
    /// Returns an [`Error`] if dense block back propagation fails.
    pub fn backward(
        &self,
        context: &mut GpuContext,
        outputs: &[&Tensor2D<T>],
        target: &Tensor2D<T>,
        input: &Tensor2D<T>,
        loss_config: &LossConfig,
        train_ctx: &MultiLayerTrainContext,
        step: usize,
    ) -> (r: Result<(), Error>)
        requires
            old(context).wf(),
            self.wf(),
            target.wf(),
            input.wf(),
            forall|i: int| 0 <= i < outputs@.len() ==> (#[trigger] outputs@[i]).wf(),
            stack_refusal(
                self@.layers.len(),
                outputs@.len(),
                train_ctx.optimisers@.len(),
            ) is None ==> backward_stack_ready(
                (BackwardRun {
                    tile_dim: old(context)@.tile_dim,
                    precision: T::format(),
                    train: *train_ctx,
                    step,
                }),
                self@.layers,
                tensor_views(outputs@),
                target@,
                input@,
                *loss_config,
            ),
        ensures
            final(context).wf(),
            ({
                let outcome = backward_stack(
                    BackwardRun {
                        tile_dim: old(context)@.tile_dim,
                        precision: T::format(),
                        train: *train_ctx,
                        step,
                    },
                    self@.layers,
                    tensor_views(outputs@),
                    target@,
                    input@,
                    *loss_config,
                );
                &&& refusal(r) == outcome.refused
                &&& final(context)@ == old(context)@.then_run(outcome.ops)
            }),
    {
        broadcast use lemma_then_run;

        let ghost run = BackwardRun {
            tile_dim: context@.tile_dim,
            precision: T::format(),
            train: *train_ctx,
            step,
        };
        let ghost d = context@;
        let ghost views = tensor_views(outputs@);
        assert(d.then_run(seq![]) == d);
        let num_layers: usize = self.layers.len();
        if outputs.len() != num_layers || train_ctx.optimisers.len() != num_layers {
            let mut reason: String = "Backward pass expects exactly ".to_owned();
            append_decimal(&mut reason, num_layers);
            reason.append(" activation vectors and optimizers. Found ");
            append_decimal(&mut reason, outputs.len());
            reason.append(" outputs, ");
            append_decimal(&mut reason, train_ctx.optimisers.len());
            reason.append(" optimisers.");
            return Err(Error::InvalidConfiguration { reason });
        }
        let last_idx: usize = num_layers - 1;
        assert(self@.layers[last_idx as int] == self.layers[last_idx as int]@);
        let head_input = if last_idx > 0 {
            assert(views[last_idx - 1] == outputs@[last_idx - 1]@);
            outputs[last_idx - 1]
        } else {
            input
        };

        // Compute output layer
        match self.layers[last_idx].compute_loss(context, target, loss_config) {
            Ok(()) => {},
            Err(e) => {
                proof {
                    lemma_backward_stops(
                        run,
                        self@.layers,
                        views,
                        target@,
                        input@,
                        *loss_config,
                        last_idx as int,
                    );
                }
                return Err(e);
            },
        }
        match self.layers[last_idx].backward_output(
            context,
            head_input,
            &train_ctx.get_train_context(last_idx),
            step,
        ) {
            Ok(()) => {},
            Err(e) => {
                proof {
                    lemma_backward_stops(
                        run,
                        self@.layers,
                        views,
                        target@,
                        input@,
                        *loss_config,
                        last_idx as int,
                    );
                }
                return Err(e);
            },
        }

        // Compute hidden layer
        let mut i: usize = last_idx;
        while i > 0
            invariant
                i <= last_idx,
                last_idx + 1 == self@.layers.len(),
                self@.layers == layer_views(self.layers@),
                self.wf(),
                input.wf(),
                context.wf(),
                d == old(context)@,
                run == (BackwardRun {
                    tile_dim: d.tile_dim,
                    precision: T::format(),
                    train: *train_ctx,
                    step,
                }),
                views == tensor_views(outputs@),
                outputs@.len() == self@.layers.len(),
                train_ctx.optimisers@.len() == self@.layers.len(),
                forall|i: int| 0 <= i < outputs@.len() ==> (#[trigger] outputs@[i]).wf(),
                backward_stack_ready(run, self@.layers, views, target@, input@, *loss_config),
                backward_layers(
                    run,
                    self@.layers,
                    views,
                    target@,
                    input@,
                    *loss_config,
                    i as int,
                ).refused is None,
                context@ == d.then_run(
                    backward_layers(
                        run,
                        self@.layers,
                        views,
                        target@,
                        input@,
                        *loss_config,
                        i as int,
                    ).ops,
                ),
            decreases i,
        {
            i -= 1;
            assert(self@.layers[i as int] == self.layers[i as int]@);
            assert(self@.layers[i + 1] == self.layers[i + 1]@);
            let layer_input = if i > 0 {
                assert(views[i - 1] == outputs@[i - 1]@);
                outputs[i - 1]
            } else {
                input
            };
            match self.layers[i].backward_hidden(
                context,
                &self.layers[i + 1],
                layer_input,
                &train_ctx.get_train_context(i),
                step,
            ) {
                Ok(()) => {},
                Err(e) => {
                    proof {
                        lemma_backward_stops(
                            run,
                            self@.layers,
                            views,
                            target@,
                            input@,
                            *loss_config,
                            i as int,
                        );
                    }
                    return Err(e);
                },
            }
        }
        Ok(())
    }

    /// The layers.
    pub fn get_layers(&self) -> (r: &Vec<DenseBlock<T>>)
        ensures
            layer_views(r@) == self@.layers,
    {
        &self.layers
    }

    /// Returns the total number of layers in the network.
    #[must_use]
    pub fn len(&self) -> (r: usize)
        ensures
            r == self@.layers.len(),
    {
        self.layers.len()
    }

    /// Returns true if neural network is empty.
    #[must_use]
    pub fn is_empty(&self) -> (r: bool)
        ensures
            r == (self@.layers.len() == 0),
    {
        self.layers.len() == 0
    }
}

/// No layer is passed after a refusal.
proof fn lemma_forward_stops(run: ForwardRun, layers: Seq<DenseView>, input: TensorView, k: int)
    requires
        0 <= k <= layers.len(),
        forward_layers(run, layers, input, k).refused is Some,
    ensures
        forward_layers(run, layers, input, layers.len() as int) == forward_layers(
            run,
            layers,
            input,
            k,
        ),
    decreases layers.len() - k,
{
    if k < layers.len() {
        lemma_forward_stops(run, layers, input, k + 1);
    }
}

/// No layer is passed after a refusal.
proof fn lemma_backward_stops(
    run: BackwardRun,
    layers: Seq<DenseView>,
    outputs: Seq<TensorView>,
    target: TensorView,
    input: TensorView,
    config: LossConfig,
    k: int,
)
    requires
        0 <= k < layers.len(),
        backward_layers(run, layers, outputs, target, input, config, k).refused is Some,
    ensures
        backward_layers(run, layers, outputs, target, input, config, 0) == backward_layers(
            run,
            layers,
            outputs,
            target,
            input,
            config,
            k,
        ),
    decreases k,
{
    if k > 0 {
        lemma_backward_stops(run, layers, outputs, target, input, config, k - 1);
    }
}

/// The sizes of a stack fit together: each layer takes as many features as the one before it puts
/// out, and no batch is larger than what the next layer has room for.
pub open spec fn chained(layers: Seq<DenseView>, input: TensorView) -> bool {
    forall|k: int|
        0 <= k < layers.len() ==> {
            let from = #[trigger] input_of(outputs_of(layers), input, k);
            &&& from.shape[1] == layers[k].inputs()
            &&& from.shape[0] <= layers[k].max_batch_size
        }
}

/// A batch passes through every layer of a stack whose sizes fit together, if each layer on its own
/// can take it: no activation is a softmax, no batch normalisation sees fewer than two samples, and
/// the sizes fit in 32 bits.
pub proof fn law_chained_stack_is_passed(
    run: ForwardRun,
    layers: Seq<DenseView>,
    input: TensorView,
    k: int,
)
    requires
        0 <= k <= layers.len(),
        chained(layers, input),
        tile_refusal(run.tile_dim, run.precision) is None,
        0 < run.batch_size <= u32::MAX,
        run.step <= u32::MAX,
        forall|i: int|
            0 <= i < layers.len() ==> {
                let layer = #[trigger] layers[i];
                &&& run.batch_size <= input_of(outputs_of(layers), input, i).shape[0]
                &&& layer.config.activation != Activation::Softmax
                &&& layer.config.normalisation == Normalisation::BatchNorm ==> run.batch_size > 1
                &&& layer.linear.w.id <= u32::MAX
                &&& layer.inputs() <= u32::MAX
                &&& layer.outputs() <= u32::MAX
            },
    ensures
        forward_layers(run, layers, input, k).refused is None,
    decreases k,
{
    if k > 0 {
        law_chained_stack_is_passed(run, layers, input, k - 1);
        reveal(forward_through);
        let layer = layers[k - 1];
        let from = input_of(outputs_of(layers), input, k - 1);
        assert(from.shape[1] == layer.inputs());
        let sizes = seq![
            run.step,
            layer.linear.w.id,
            run.batch_size,
            from.shape[1],
            layer.outputs(),
        ];
        assert forall|i: int| 0 <= i < sizes.len() implies sizes[i] <= u32::MAX by {
        }
    }
}

/// Nothing is queued for the layers behind one that refuses its input, and the refusal of the stack
/// is that of the layer.
pub proof fn law_stack_stops_at_refusal(
    run: ForwardRun,
    layers: Seq<DenseView>,
    input: TensorView,
    k: int,
)
    requires
        0 <= k < layers.len(),
        forward_layers(run, layers, input, k).refused is None,
        forward_through(
            run.tile_dim,
            run.precision,
            layers[k],
            input_of(outputs_of(layers), input, k),
            run.batch_size,
            run.use_dropout,
            run.step,
        ).refused is Some,
    ensures
        ({
            let last = forward_through(
                run.tile_dim,
                run.precision,
                layers[k],
                input_of(outputs_of(layers), input, k),
                run.batch_size,
                run.use_dropout,
                run.step,
            );
            let all = forward_layers(run, layers, input, layers.len() as int);
            &&& all.refused == last.refused
            &&& all.ops == forward_layers(run, layers, input, k).ops + last.ops
        }),
{
    lemma_forward_stops(run, layers, input, k + 1);
}

} // verus!
