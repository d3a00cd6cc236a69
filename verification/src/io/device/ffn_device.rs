//! The passes through a dense layer, as work for the device.

use vstd::prelude::*;

use crate::io::device::util_device::{broadcast_ops, broadcast_refusal};
use crate::io::device::{
    line_launch, plane_launch, tile_area, tile_refusal, tileable, GpuContext, Kernel, KernelArg,
    LaunchConfig, OpView,
};
use crate::mlp::state::first_refusal;
use crate::mlp::{DenseBlock, DenseView};
use crate::util::context::TrainContext;
use crate::util::function::{Activation, LossFunc, Normalisation};
use crate::util::log::{refusal, to_u32, Error, ErrorView};
use crate::util::precision::{Precision, PrecisionType, F32};
use crate::util::tensor::{lemma_countable, scramble_seed, scrambled_seed, Tensor2D, TensorView};

verus! {

/// What a pass queues, and why it is refused; what was queued before the refusal stays.
pub struct Outcome {
    pub ops: Seq<OpView>,
    pub refused: Option<ErrorView>,
}

/// Nothing is done.
pub open spec fn refused(e: ErrorView) -> Outcome {
    Outcome { ops: seq![], refused: Some(e) }
}

/// Everything is done.
pub open spec fn done(ops: Seq<OpView>) -> Outcome {
    Outcome { ops, refused: None }
}

impl Outcome {
    /// One pass after another; the second one does not start where the first one is refused.
    pub open spec fn and_next(self, next: Outcome) -> Outcome {
        if self.refused is Some {
            self
        } else {
            Outcome { ops: self.ops + next.ops, refused: next.refused }
        }
    }
}

/// A size does not fit in the 32 bits that a kernel takes.
pub open spec fn too_wide(sizes: Seq<usize>) -> Option<ErrorView> {
    if exists|i: int| 0 <= i < sizes.len() && sizes[i] > u32::MAX {
        Some(ErrorView::IntConversion)
    } else {
        None
    }
}

/// A buffer as an argument.
pub open spec fn buffer(t: TensorView) -> KernelArg {
    KernelArg::Tensor(t.id)
}

/// The copy of a tensor in full precision, or the tensor itself where there is no copy.
pub open spec fn master_arg(master: Option<TensorView>, fallback: TensorView) -> KernelArg {
    match master {
        Some(t) => buffer(t),
        None => buffer(fallback),
    }
}

/// A yes or no as an argument.
pub open spec fn flag(yes: bool) -> KernelArg {
    KernelArg::U32(
        if yes {
            1
        } else {
            0
        },
    )
}

/// A size as an argument.
pub open spec fn size(x: usize) -> KernelArg {
    KernelArg::U32(x as u32)
}

/// The launch of a kernel, and the wait for it.
pub open spec fn run(
    kernel: Kernel,
    precision: Precision,
    args: Seq<KernelArg>,
    config: LaunchConfig,
) -> Seq<OpView> {
    seq![OpView::Launch { kernel, precision, args, config }, OpView::Synchronize]
}

/// The memory of two tiles.
pub open spec fn two_tiles(tile_dim: u32, precision: Precision) -> int {
    2 * tile_area(tile_dim) * precision.width()
}

/// The linear part of a forward pass.
pub open spec fn linear_part(
    tile_dim: u32,
    precision: Precision,
    layer: DenseView,
    input: TensorView,
    batch_size: usize,
) -> Seq<OpView> {
    let norm = layer.config.normalisation;
    run(
        Kernel::ForwardPass0,
        precision,
        seq![
            if norm == Normalisation::Disabled {
                buffer(layer.cache.preact_out)
            } else {
                buffer(layer.cache.prenorm_out)
            },
            buffer(input),
            buffer(layer.linear.w),
            buffer(layer.linear.b),
            flag(norm != Normalisation::BatchNorm),
            size(batch_size),
            size(input.shape[1]),
            size(layer.outputs()),
            KernelArg::U32(tile_dim),
        ],
        plane_launch(
            tile_dim,
            layer.outputs() as int,
            batch_size as int,
            two_tiles(tile_dim, precision) as u32,
        ),
    )
}

/// The normalisation of a forward pass: one block for each feature of a batch normalisation, one
/// for each sample otherwise.
pub open spec fn norm_part(
    tile_dim: u32,
    precision: Precision,
    layer: DenseView,
    batch_size: usize,
) -> Seq<OpView> {
    let norm = layer.config.normalisation;
    if norm == Normalisation::Disabled {
        seq![]
    } else {
        run(
            Kernel::ForwardPass1,
            precision,
            seq![
                buffer(layer.cache.preact_out),
                buffer(layer.cache.centered_out),
                buffer(layer.cache.prenorm_out),
                buffer(layer.norm.w),
                buffer(layer.norm.b),
                buffer(layer.cache.norm_rstd),
                size(batch_size),
                size(layer.outputs()),
                size(norm.mode()),
            ],
            line_launch(
                tile_dim,
                if norm == Normalisation::BatchNorm {
                    layer.outputs() as int
                } else {
                    batch_size as int
                },
                (tile_area(tile_dim) * 4) as u32,
            ),
        )
    }
}

/// The activation and the dropout of a forward pass.
pub open spec fn activation_part(
    tile_dim: u32,
    precision: Precision,
    layer: DenseView,
    batch_size: usize,
    use_dropout: bool,
    step: usize,
) -> Seq<OpView> {
    let act = layer.config.activation;
    run(
        Kernel::ForwardPass2,
        precision,
        seq![
            buffer(layer.cache.out),
            buffer(layer.cache.predrop_out),
            buffer(layer.cache.preact_out),
            buffer(layer.mask),
            size(batch_size),
            size(layer.outputs()),
            size(act.mode()),
            KernelArg::Real(act.leak()),
            flag(use_dropout),
            KernelArg::Real(layer.config.mask_coeff),
            KernelArg::U32(scrambled_seed(step as u32, layer.linear.w.id as u32)),
        ],
        plane_launch(tile_dim, layer.outputs() as int, batch_size as int, 0),
    )
}

/// A forward pass: the tile has to suit the precision and every size has to fit in 32 bits.
pub open spec fn forward_pass(
    tile_dim: u32,
    precision: Precision,
    layer: DenseView,
    input: TensorView,
    batch_size: usize,
    use_dropout: bool,
    step: usize,
) -> Outcome {
    match first_refusal(
        tile_refusal(tile_dim, precision),
        too_wide(
            seq![step, layer.linear.w.id, batch_size, input.shape[1], layer.outputs()],
        ),
    ) {
        Some(e) => refused(e),
        None => done(
            linear_part(tile_dim, precision, layer, input, batch_size) + norm_part(
                tile_dim,
                precision,
                layer,
                batch_size,
            ) + activation_part(tile_dim, precision, layer, batch_size, use_dropout, step),
        ),
    }
}

/// The grid and the memory of a forward pass can be worked out in 32 bits.
pub open spec fn forward_fits(
    tile_dim: u32,
    precision: Precision,
    layer: DenseView,
    batch_size: usize,
) -> bool {
    &&& tileable(layer.outputs() as int, tile_dim as int)
    &&& tileable(batch_size as int, tile_dim as int)
    &&& two_tiles(tile_dim, precision) <= u32::MAX
}

/// Both gradients of the normalisation set to zero.
pub open spec fn clear_norm_gradients(tile_dim: u32, layer: DenseView) -> Outcome {
    let w = layer.d_norm_w->0.slice();
    let b = layer.d_norm_b->0.slice();
    (match broadcast_refusal(w.len) {
        Some(e) => refused(e),
        None => done(broadcast_ops(tile_dim, Precision::FP32, w, 0)),
    }).and_next(
        match broadcast_refusal(b.len) {
            Some(e) => refused(e),
            None => done(broadcast_ops(tile_dim, Precision::FP32, b, 0)),
        },
    )
}

/// The grids that set the gradients of the normalisation to zero can be worked out in 32 bits.
pub open spec fn clearing_fits(tile_dim: u32, layer: DenseView) -> bool {
    let w = layer.d_norm_w->0.slice();
    let b = layer.d_norm_b->0.slice();
    &&& tileable(w.len as int, tile_area(tile_dim))
    &&& w.len <= u32::MAX ==> tileable(b.len as int, tile_area(tile_dim))
}

/// The softmax over the rows of the outputs: one block for each row.
pub open spec fn softmax_part(tile_dim: u32, precision: Precision, out: TensorView) -> Seq<OpView> {
    run(
        Kernel::Softmax,
        precision,
        seq![buffer(out), size(out.shape[0]), size(out.shape[1])],
        line_launch(tile_dim, out.shape[0] as int, 0),
    )
}

/// The error of an output layer: the gradients of the normalisation are set to zero, the softmax
/// is applied to the outputs where the loss wants it, and the error is worked out.
pub open spec fn output_error(
    tile_dim: u32,
    precision: Precision,
    layer: DenseView,
    target: TensorView,
    loss: LossFunc,
    activation: Activation,
) -> Outcome {
    let out = layer.cache.out;
    let softmax = activation == Activation::Softmax;
    clear_norm_gradients(tile_dim, layer).and_next(
        match first_refusal(
            too_wide(seq![out.shape[0], layer.outputs()]),
            if softmax {
                too_wide(seq![out.shape[1]])
            } else {
                None
            },
        ) {
            Some(e) => refused(e),
            None => done(
                (if softmax {
                    softmax_part(tile_dim, precision, out)
                } else {
                    seq![]
                }) + run(
                    Kernel::ComputeOutputLayerError,
                    precision,
                    seq![
                        buffer(out),
                        buffer(layer.cache.preact_out),
                        buffer(target),
                        master_arg(layer.norm.master_w, layer.norm.w),
                        buffer(layer.grad->0),
                        buffer(layer.d_prenorm_out->0),
                        buffer(layer.d_norm_w->0),
                        buffer(layer.d_norm_b->0),
                        buffer(layer.cache.norm_rstd),
                        buffer(layer.cache.centered_out),
                        buffer(layer.cache.prenorm_out),
                        size(out.shape[0]),
                        size(layer.outputs()),
                        KernelArg::U32(loss.mode()),
                        size(layer.config.normalisation.mode()),
                        size(activation.mode()),
                        KernelArg::Real(activation.leak()),
                    ],
                    plane_launch(tile_dim, layer.outputs() as int, out.shape[0] as int, 0),
                ),
            ),
        },
    )
}

/// The update of the weights and biases of a layer.
pub open spec fn backward_pass(
    tile_dim: u32,
    precision: Precision,
    layer: DenseView,
    input: TensorView,
    train: TrainContext,
    step: usize,
) -> Outcome {
    let linear = train.optimiser.info();
    let norm = train.norm_optimiser.info();
    match too_wide(seq![train.batch_size, layer.outputs(), layer.inputs(), step]) {
        Some(e) => refused(e),
        None => done(
            run(
                Kernel::BackwardPass,
                precision,
                seq![
                    buffer(input),
                    buffer(layer.linear.w),
                    buffer(layer.linear.b),
                    master_arg(layer.linear.master_w, layer.linear.w),
                    master_arg(layer.linear.master_b, layer.linear.b),
                    buffer(layer.d_prenorm_out->0),
                    buffer(layer.linear.dv_w->0),
                    buffer(layer.linear.dv_b->0),
                    buffer(layer.linear.dm_w->0),
                    buffer(layer.linear.dm_b->0),
                    buffer(layer.norm.w),
                    buffer(layer.norm.b),
                    master_arg(layer.norm.master_w, layer.norm.w),
                    master_arg(layer.norm.master_b, layer.norm.b),
                    buffer(layer.d_norm_w->0),
                    buffer(layer.d_norm_b->0),
                    buffer(layer.norm.dv_w->0),
                    buffer(layer.norm.dv_b->0),
                    buffer(layer.norm.dm_w->0),
                    buffer(layer.norm.dm_b->0),
                    flag(layer.config.normalisation != Normalisation::BatchNorm),
                    size(layer.config.normalisation.mode()),
                    size(train.batch_size),
                    size(layer.outputs()),
                    size(layer.inputs()),
                    KernelArg::Real(train.learn_rate),
                    KernelArg::Real(train.grad_clamp),
                    size(train.optimiser.mode()),
                    size(train.norm_optimiser.mode()),
                    KernelArg::Real(linear.beta1),
                    KernelArg::Real(linear.beta2),
                    KernelArg::Real(linear.epsilon),
                    KernelArg::I32(linear.nesterov),
                    KernelArg::Real(norm.beta1),
                    KernelArg::Real(norm.beta2),
                    KernelArg::Real(norm.epsilon),
                    KernelArg::I32(norm.nesterov),
                    size(layer.config.regularisation.mode()),
                    KernelArg::Real(layer.config.regularisation.coefficient()),
                    size(step),
                ],
                plane_launch(tile_dim, layer.outputs() as int, layer.inputs() as int, 0),
            ),
        ),
    }
}

/// The error of a hidden layer, from the error of the layer behind it.
pub open spec fn hidden_error(
    tile_dim: u32,
    precision: Precision,
    layer: DenseView,
    next: DenseView,
    activation: Activation,
    batch_size: usize,
) -> Outcome {
    match too_wide(seq![batch_size, layer.outputs(), next.cache.out.shape[1]]) {
        Some(e) => refused(e),
        None => done(
            run(
                Kernel::ComputeHiddenLayerError,
                precision,
                seq![
                    buffer(next.d_prenorm_out->0),
                    master_arg(next.linear.master_w, next.linear.w),
                    master_arg(layer.norm.master_w, layer.norm.w),
                    buffer(layer.grad->0),
                    buffer(layer.d_prenorm_out->0),
                    buffer(layer.d_norm_w->0),
                    buffer(layer.d_norm_b->0),
                    buffer(layer.cache.norm_rstd),
                    buffer(layer.cache.centered_out),
                    buffer(layer.cache.prenorm_out),
                    buffer(layer.cache.predrop_out),
                    buffer(layer.cache.preact_out),
                    buffer(layer.mask),
                    size(batch_size),
                    size(layer.outputs()),
                    size(next.cache.out.shape[1]),
                    size(layer.config.normalisation.mode()),
                    size(activation.mode()),
                    KernelArg::Real(activation.leak()),
                ],
                plane_launch(
                    tile_dim,
                    layer.outputs() as int,
                    batch_size as int,
                    match precision {
                        Precision::FP32 => 0,
                        Precision::FP16 => two_tiles(tile_dim, precision) as u32,
                    },
                ),
            ),
        ),
    }
}

/// The backward pass of a hidden layer: the gradients of the normalisation are set to zero, the
/// error is worked out, and the weights and biases are updated.
pub open spec fn hidden_backward(
    tile_dim: u32,
    precision: Precision,
    layer: DenseView,
    next: DenseView,
    input: TensorView,
    activation: Activation,
    train: TrainContext,
    step: usize,
) -> Outcome {
    match tile_refusal(tile_dim, precision) {
        Some(e) => refused(e),
        None => clear_norm_gradients(tile_dim, layer).and_next(
            hidden_error(tile_dim, precision, layer, next, activation, train.batch_size),
        ).and_next(backward_pass(tile_dim, precision, layer, input, train, step)),
    }
}

/// The grids of the backward pass of a hidden layer can be worked out in 32 bits.
pub open spec fn hidden_fits(tile_dim: u32, layer: DenseView, train: TrainContext) -> bool {
    &&& clearing_fits(tile_dim, layer)
    &&& tileable(layer.outputs() as int, tile_dim as int)
    &&& tileable(train.batch_size as int, tile_dim as int)
    &&& tileable(layer.inputs() as int, tile_dim as int)
}

impl GpuContext {
    /// The copy of a tensor in full precision, or the tensor itself where there is no copy.
    fn master_tensor<T: PrecisionType>(
        tensor: Option<&Tensor2D<F32>>,
        fallback: &Tensor2D<T>,
    ) -> (r: KernelArg)
        ensures
            r == master_arg(crate::mlp::state::borrowed_view(tensor), fallback@),
    {
        if let Some(t) = tensor {
            KernelArg::Tensor(t.get_id())
        } else {
            KernelArg::Tensor(fallback.get_id())
        }
    }

    /// Queues the forward pass of a dense layer.
    pub fn gpu_forward_pass<T: PrecisionType>(
        &mut self,
        cur_layer: &DenseBlock<T>,
        input: &Tensor2D<T>,
        batch_size: usize,
        use_dropout: bool,
        step: usize,
    ) -> (r: Result<(), Error>)
        requires
            old(self).wf(),
            cur_layer.wf(),
            input.wf(),
            forward_pass(
                old(self)@.tile_dim,
                T::format(),
                cur_layer@,
                input@,
                batch_size,
                use_dropout,
                step,
            ).refused is None ==> forward_fits(
                old(self)@.tile_dim,
                T::format(),
                cur_layer@,
                batch_size,
            ),
        ensures
            final(self).wf(),
            ({
                let outcome = forward_pass(
                    old(self)@.tile_dim,
                    T::format(),
                    cur_layer@,
                    input@,
                    batch_size,
                    use_dropout,
                    step,
                );
                &&& refusal(r) == outcome.refused
                &&& final(self)@ == old(self)@.then_run(outcome.ops)
            }),
    {
        broadcast use GpuContext::lemma_tile;

        let ghost sizes = seq![
            step,
            cur_layer@.linear.w.id,
            batch_size,
            input@.shape[1],
            cur_layer@.outputs(),
        ];
        proof {
            assert(sizes[0] == step && sizes[1] == cur_layer@.linear.w.id && sizes[2] == batch_size
                && sizes[3] == input@.shape[1] && sizes[4] == cur_layer@.outputs());
        }
        self.check_tile_dim::<T>()?;
        let wc: usize = cur_layer.get_weights().cols();
        let norm = *cur_layer.get_normalisation();
        let act = *cur_layer.get_activation();
        let step_u32: u32 = to_u32(step)?;
        let id_u32: u32 = to_u32(cur_layer.get_weights().get_id())?;
        let seed: u32 = scramble_seed(step_u32, id_u32);
        let m_u32: u32 = to_u32(batch_size)?;
        let n_u32: u32 = to_u32(input.cols())?;
        let wc_u32: u32 = to_u32(wc)?;
        let norm_mode_u32: u32 = to_u32(norm.ordinal())?;
        let act_mode_u32: u32 = to_u32(act.ordinal())?;
        let tile_dim: u32 = self.get_tile_dim();
        let area: u32 = self.get_tile_dim_2();
        let width: u32 = to_u32(T::precision().size_bytes())?;
        assert(2 * area <= 2 * area * width && area * 4 <= 2 * area * width) by (nonlinear_arith)
            requires
                width >= 2,
        ;
        let args = vec![
            if norm == Normalisation::Disabled {
                KernelArg::Tensor(cur_layer.get_preact_outputs().get_id())
            } else {
                KernelArg::Tensor(cur_layer.get_prenorm_outputs().get_id())
            },
            KernelArg::Tensor(input.get_id()),
            KernelArg::Tensor(cur_layer.get_weights().get_id()),
            KernelArg::Tensor(cur_layer.get_biases().get_id()),
            flag_arg(norm != Normalisation::BatchNorm),
            KernelArg::U32(m_u32),
            KernelArg::U32(n_u32),
            KernelArg::U32(wc_u32),
            KernelArg::U32(tile_dim),
        ];
        let cfg = self.calculate_cfg2d(wc, batch_size, 2 * area * width)?;
        self.launch(Kernel::ForwardPass0, T::precision(), args, cfg);
        self.synchronize();

        // Normalisation
        if norm != Normalisation::Disabled {
            let args = vec![
                KernelArg::Tensor(cur_layer.get_preact_outputs().get_id()),
                KernelArg::Tensor(cur_layer.get_centered_outputs().get_id()),
                KernelArg::Tensor(cur_layer.get_prenorm_outputs().get_id()),
                KernelArg::Tensor(cur_layer.get_norm_weights().get_id()),
                KernelArg::Tensor(cur_layer.get_norm_biases().get_id()),
                KernelArg::Tensor(cur_layer.get_norm_rstd().get_id()),
                KernelArg::U32(m_u32),
                KernelArg::U32(wc_u32),
                KernelArg::U32(norm_mode_u32),
            ];
            let grid_x: u32 = if norm == Normalisation::BatchNorm {
                wc_u32
            } else {
                m_u32
            };
            let cfg = LaunchConfig {
                grid_dim: (grid_x, 1, 1),
                block_dim: (area, 1, 1),
                shared_mem_bytes: area * 4,
            };
            self.launch(Kernel::ForwardPass1, T::precision(), args, cfg);
            self.synchronize();
        }
        let args = vec![
            KernelArg::Tensor(cur_layer.get_outputs().get_id()),
            KernelArg::Tensor(cur_layer.get_predrop_outputs().get_id()),
            KernelArg::Tensor(cur_layer.get_preact_outputs().get_id()),
            KernelArg::Tensor(cur_layer.get_masks().get_id()),
            KernelArg::U32(m_u32),
            KernelArg::U32(wc_u32),
            KernelArg::U32(act_mode_u32),
            KernelArg::Real(act.leaky_coeff()),
            flag_arg(use_dropout),
            KernelArg::Real(cur_layer.get_mask_coeff()),
            KernelArg::U32(seed),
        ];
        let cfg = self.calculate_cfg2d(wc, batch_size, 0)?;
        self.launch(Kernel::ForwardPass2, T::precision(), args, cfg);
        self.synchronize();
        Ok(())
    }

    /// Queues the work that sets both gradients of the normalisation to zero.
    fn gpu_clear_norm_gradients<T: PrecisionType>(&mut self, cur_layer: &DenseBlock<T>) -> (r: Result<
        (),
        Error,
    >)
        requires
            old(self).wf(),
            cur_layer.wf(),
            cur_layer@.has_gradients(),
            clearing_fits(old(self)@.tile_dim, cur_layer@),
        ensures
            final(self).wf(),
            ({
                let outcome = clear_norm_gradients(old(self)@.tile_dim, cur_layer@);
                &&& refusal(r) == outcome.refused
                &&& final(self)@ == old(self)@.then_run(outcome.ops)
            }),
    {
        broadcast use lemma_countable;

        let zero = F32 { bits: 0 };
        self.gpu_broadcast(cur_layer.get_norm_weights_grad().get_data(), zero)?;
        self.gpu_broadcast(cur_layer.get_norm_biases_grad().get_data(), zero)
    }

    /// Queues the work that finds the error of an output layer.
    pub fn gpu_compute_output_layer_error<T: PrecisionType>(
        &mut self,
        cur_layer: &DenseBlock<T>,
        target: &Tensor2D<T>,
        err_mode: LossFunc,
        activation: Activation,
    ) -> (r: Result<(), Error>)
        requires
            old(self).wf(),
            cur_layer.wf(),
            target.wf(),
            cur_layer@.has_gradients(),
            clearing_fits(old(self)@.tile_dim, cur_layer@),
            output_error(
                old(self)@.tile_dim,
                T::format(),
                cur_layer@,
                target@,
                err_mode,
                activation,
            ).refused is None ==> {
                &&& tileable(cur_layer@.outputs() as int, old(self)@.tile_dim as int)
                &&& tileable(cur_layer@.cache.out.shape[0] as int, old(self)@.tile_dim as int)
            },
        ensures
            final(self).wf(),
            ({
                let outcome = output_error(
                    old(self)@.tile_dim,
                    T::format(),
                    cur_layer@,
                    target@,
                    err_mode,
                    activation,
                );
                &&& refusal(r) == outcome.refused
                &&& final(self)@ == old(self)@.then_run(outcome.ops)
            }),
    {
        self.gpu_clear_norm_gradients(cur_layer)?;
        let ghost sizes = seq![cur_layer@.cache.out.shape[0], cur_layer@.outputs()];
        let ghost wide = seq![cur_layer@.cache.out.shape[1]];
        proof {
            assert(sizes[0] == cur_layer@.cache.out.shape[0] && sizes[1] == cur_layer@.outputs());
            assert(wide[0] == cur_layer@.cache.out.shape[1]);
        }
        let out_tensor = cur_layer.get_outputs();
        let m: usize = out_tensor.rows();
        let n: usize = cur_layer.get_weights().cols();
        let m_u32: u32 = to_u32(m)?;
        let n_u32: u32 = to_u32(n)?;
        let norm_mode_u32: u32 = to_u32(cur_layer.get_normalisation().ordinal())?;
        let act_mode_u32: u32 = to_u32(activation.ordinal())?;

        // Run softmax if needed first
        if activation == Activation::Softmax {
            let cols_u32: u32 = to_u32(out_tensor.cols())?;
            let args = vec![
                KernelArg::Tensor(out_tensor.get_id()),
                KernelArg::U32(m_u32),
                KernelArg::U32(cols_u32),
            ];
            let softmax_cfg = LaunchConfig {
                grid_dim: (m_u32, 1, 1),
                block_dim: (self.get_tile_dim_2(), 1, 1),
                shared_mem_bytes: 0,
            };
            self.launch(Kernel::Softmax, T::precision(), args, softmax_cfg);
            self.synchronize();
        }
        let args = vec![
            KernelArg::Tensor(out_tensor.get_id()),
            KernelArg::Tensor(cur_layer.get_preact_outputs().get_id()),
            KernelArg::Tensor(target.get_id()),
            Self::master_tensor(cur_layer.get_master_norm_weights(), cur_layer.get_norm_weights()),
            KernelArg::Tensor(cur_layer.get_grads().get_id()),
            KernelArg::Tensor(cur_layer.get_delta_prenorm_out().get_id()),
            KernelArg::Tensor(cur_layer.get_norm_weights_grad().get_id()),
            KernelArg::Tensor(cur_layer.get_norm_biases_grad().get_id()),
            KernelArg::Tensor(cur_layer.get_norm_rstd().get_id()),
            KernelArg::Tensor(cur_layer.get_centered_outputs().get_id()),
            KernelArg::Tensor(cur_layer.get_prenorm_outputs().get_id()),
            KernelArg::U32(m_u32),
            KernelArg::U32(n_u32),
            KernelArg::U32(err_mode.ordinal()),
            KernelArg::U32(norm_mode_u32),
            KernelArg::U32(act_mode_u32),
            KernelArg::Real(activation.leaky_coeff()),
        ];
        let cfg = self.calculate_cfg2d(n, m, 0)?;
        self.launch(Kernel::ComputeOutputLayerError, T::precision(), args, cfg);
        self.synchronize();
        Ok(())
    }

    /// Queues the update of the weights and biases of a dense layer.
    pub fn gpu_backward_pass<T: PrecisionType>(
        &mut self,
        cur_layer: &DenseBlock<T>,
        input: &Tensor2D<T>,
        train_ctx: &TrainContext,
        step: usize,
    ) -> (r: Result<(), Error>)
        requires
            old(self).wf(),
            cur_layer.wf(),
            input.wf(),
            cur_layer@.trainable(),
            backward_pass(
                old(self)@.tile_dim,
                T::format(),
                cur_layer@,
                input@,
                *train_ctx,
                step,
            ).refused is None ==> {
                &&& tileable(cur_layer@.outputs() as int, old(self)@.tile_dim as int)
                &&& tileable(cur_layer@.inputs() as int, old(self)@.tile_dim as int)
            },
        ensures
            final(self).wf(),
            ({
                let outcome = backward_pass(
                    old(self)@.tile_dim,
                    T::format(),
                    cur_layer@,
                    input@,
                    *train_ctx,
                    step,
                );
                &&& refusal(r) == outcome.refused
                &&& final(self)@ == old(self)@.then_run(outcome.ops)
            }),
    {
        let ghost sizes = seq![
            train_ctx.batch_size,
            cur_layer@.outputs(),
            cur_layer@.inputs(),
            step,
        ];
        proof {
            assert(sizes[0] == train_ctx.batch_size && sizes[1] == cur_layer@.outputs() && sizes[2]
                == cur_layer@.inputs() && sizes[3] == step);
        }
        let n: usize = cur_layer.get_weights().cols();
        let wr: usize = cur_layer.get_weights().rows();
        let norm = *cur_layer.get_normalisation();
        let regularisation = *cur_layer.get_regularisation();
        let norm_mode_u32: u32 = to_u32(norm.ordinal())?;
        let m_u32: u32 = to_u32(train_ctx.batch_size)?;
        let n_u32: u32 = to_u32(n)?;
        let wr_u32: u32 = to_u32(wr)?;
        let optimiser_u32: u32 = to_u32(train_ctx.optimiser.ordinal())?;
        let norm_optimiser_u32: u32 = to_u32(train_ctx.norm_optimiser.ordinal())?;
        let regu_mode_u32: u32 = to_u32(regularisation.ordinal())?;
        let step_u32: u32 = to_u32(step)?;
        let linear_info = train_ctx.optimiser.extract_info();
        let norm_info = train_ctx.norm_optimiser.extract_info();
        let args = vec![
            KernelArg::Tensor(input.get_id()),
            KernelArg::Tensor(cur_layer.get_weights().get_id()),
            KernelArg::Tensor(cur_layer.get_biases().get_id()),
            Self::master_tensor(cur_layer.get_master_weights(), cur_layer.get_weights()),
            Self::master_tensor(cur_layer.get_master_biases(), cur_layer.get_biases()),
            KernelArg::Tensor(cur_layer.get_delta_prenorm_out().get_id()),
            KernelArg::Tensor(cur_layer.get_dv_weights().get_id()),
            KernelArg::Tensor(cur_layer.get_dv_biases().get_id()),
            KernelArg::Tensor(cur_layer.get_dm_weights().get_id()),
            KernelArg::Tensor(cur_layer.get_dm_biases().get_id()),
            KernelArg::Tensor(cur_layer.get_norm_weights().get_id()),
            KernelArg::Tensor(cur_layer.get_norm_biases().get_id()),
            Self::master_tensor(cur_layer.get_master_norm_weights(), cur_layer.get_norm_weights()),
            Self::master_tensor(cur_layer.get_master_norm_biases(), cur_layer.get_norm_biases()),
            KernelArg::Tensor(cur_layer.get_norm_weights_grad().get_id()),
            KernelArg::Tensor(cur_layer.get_norm_biases_grad().get_id()),
            KernelArg::Tensor(cur_layer.get_dv_norm_weights().get_id()),
            KernelArg::Tensor(cur_layer.get_dv_norm_biases().get_id()),
            KernelArg::Tensor(cur_layer.get_dm_norm_weights().get_id()),
            KernelArg::Tensor(cur_layer.get_dm_norm_biases().get_id()),
            flag_arg(norm != Normalisation::BatchNorm),
            KernelArg::U32(norm_mode_u32),
            KernelArg::U32(m_u32),
            KernelArg::U32(n_u32),
            KernelArg::U32(wr_u32),
            KernelArg::Real(train_ctx.learn_rate),
            KernelArg::Real(train_ctx.grad_clamp),
            KernelArg::U32(optimiser_u32),
            KernelArg::U32(norm_optimiser_u32),
            KernelArg::Real(linear_info.beta1),
            KernelArg::Real(linear_info.beta2),
            KernelArg::Real(linear_info.epsilon),
            KernelArg::I32(linear_info.nesterov),
            KernelArg::Real(norm_info.beta1),
            KernelArg::Real(norm_info.beta2),
            KernelArg::Real(norm_info.epsilon),
            KernelArg::I32(norm_info.nesterov),
            KernelArg::U32(regu_mode_u32),
            KernelArg::Real(regularisation.get_coeff()),
            KernelArg::U32(step_u32),
        ];
        let cfg = self.calculate_cfg2d(n, wr, 0)?;
        self.launch(Kernel::BackwardPass, T::precision(), args, cfg);
        self.synchronize();
        Ok(())
    }

    /// Queues the backward pass of a hidden layer.
    pub fn gpu_hidden_layer_backward_pass<T: PrecisionType>(
        &mut self,
        cur_layer: &DenseBlock<T>,
        next_layer: &DenseBlock<T>,
        input: &Tensor2D<T>,
        activation: Activation,
        train_ctx: &TrainContext,
        step: usize,
    ) -> (r: Result<(), Error>)
        requires
            old(self).wf(),
            cur_layer.wf(),
            next_layer.wf(),
            input.wf(),
            tile_refusal(old(self)@.tile_dim, T::format()) is None ==> {
                &&& cur_layer@.trainable()
                &&& next_layer@.d_prenorm_out is Some
                &&& hidden_fits(old(self)@.tile_dim, cur_layer@, *train_ctx)
            },
        ensures
            final(self).wf(),
            ({
                let outcome = hidden_backward(
                    old(self)@.tile_dim,
                    T::format(),
                    cur_layer@,
                    next_layer@,
                    input@,
                    activation,
                    *train_ctx,
                    step,
                );
                &&& refusal(r) == outcome.refused
                &&& final(self)@ == old(self)@.then_run(outcome.ops)
            }),
    {
        self.check_tile_dim::<T>()?;
        self.gpu_clear_norm_gradients(cur_layer)?;
        self.gpu_compute_hidden_layer_error(
            cur_layer,
            next_layer,
            activation,
            train_ctx.batch_size,
        )?;
        self.gpu_backward_pass(cur_layer, input, train_ctx, step)
    }

    /// Queues the work that finds the error of a hidden layer.
    fn gpu_compute_hidden_layer_error<T: PrecisionType>(
        &mut self,
        cur_layer: &DenseBlock<T>,
        next_layer: &DenseBlock<T>,
        activation: Activation,
        batch_size: usize,
    ) -> (r: Result<(), Error>)
        requires
            old(self).wf(),
            tile_refusal(old(self)@.tile_dim, T::format()) is None,
            cur_layer.wf(),
            next_layer.wf(),
            cur_layer@.has_gradients(),
            next_layer@.d_prenorm_out is Some,
            tileable(cur_layer@.outputs() as int, old(self)@.tile_dim as int),
            tileable(batch_size as int, old(self)@.tile_dim as int),
        ensures
            final(self).wf(),
            ({
                let outcome = hidden_error(
                    old(self)@.tile_dim,
                    T::format(),
                    cur_layer@,
                    next_layer@,
                    activation,
                    batch_size,
                );
                &&& refusal(r) == outcome.refused
                &&& final(self)@ == old(self)@.then_run(outcome.ops)
            }),
    {
        let ghost sizes = seq![
            batch_size,
            cur_layer@.outputs(),
            next_layer@.cache.out.shape[1],
        ];
        proof {
            assert(sizes[0] == batch_size && sizes[1] == cur_layer@.outputs() && sizes[2]
                == next_layer@.cache.out.shape[1]);
        }
        let n: usize = cur_layer.get_weights().cols();
        let ec: usize = next_layer.get_outputs().cols();
        let m_u32: u32 = to_u32(batch_size)?;
        let n_u32: u32 = to_u32(n)?;
        let ec_u32: u32 = to_u32(ec)?;
        let norm_mode_u32: u32 = to_u32(cur_layer.get_normalisation().ordinal())?;
        let act_mode_u32: u32 = to_u32(activation.ordinal())?;
        let args = vec![
            KernelArg::Tensor(next_layer.get_delta_prenorm_out().get_id()),
            Self::master_tensor(next_layer.get_master_weights(), next_layer.get_weights()),
            Self::master_tensor(cur_layer.get_master_norm_weights(), cur_layer.get_norm_weights()),
            KernelArg::Tensor(cur_layer.get_grads().get_id()),
            KernelArg::Tensor(cur_layer.get_delta_prenorm_out().get_id()),
            KernelArg::Tensor(cur_layer.get_norm_weights_grad().get_id()),
            KernelArg::Tensor(cur_layer.get_norm_biases_grad().get_id()),
            KernelArg::Tensor(cur_layer.get_norm_rstd().get_id()),
            KernelArg::Tensor(cur_layer.get_centered_outputs().get_id()),
            KernelArg::Tensor(cur_layer.get_prenorm_outputs().get_id()),
            KernelArg::Tensor(cur_layer.get_predrop_outputs().get_id()),
            KernelArg::Tensor(cur_layer.get_preact_outputs().get_id()),
            KernelArg::Tensor(cur_layer.get_masks().get_id()),
            KernelArg::U32(m_u32),
            KernelArg::U32(n_u32),
            KernelArg::U32(ec_u32),
            KernelArg::U32(norm_mode_u32),
            KernelArg::U32(act_mode_u32),
            KernelArg::Real(activation.leaky_coeff()),
        ];
        let mem: u32 = match T::precision() {
            Precision::FP32 => 0,
            Precision::FP16 => {
                assert(tile_area(16) == 256);
                2 * self.get_tile_dim_2() * to_u32(T::precision().size_bytes())?
            },
        };
        let cfg = self.calculate_cfg2d(n, batch_size, mem)?;
        self.launch(Kernel::ComputeHiddenLayerError, T::precision(), args, cfg);
        self.synchronize();
        Ok(())
    }
}

/// A yes or no as an argument.
pub(crate) fn flag_arg(yes: bool) -> (r: KernelArg)
    ensures
        r == flag(yes),
{
    KernelArg::U32(
        if yes {
            1
        } else {
            0
        },
    )
}

} // verus!
