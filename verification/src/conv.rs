//! Convolutional layers: how they are made, and the forward pass through them.

pub mod laws;

use vstd::prelude::*;

use crate::io::device::conv_device::{
    conv_forward_pass, conv_forward_ready, filtered, plane, pooled, pooling_windows,
};
use crate::io::device::{
    lemma_then_run, settled, tile_area, tileable, DeviceOp, DeviceSlice, DeviceView, GpuContext,
    HostNumbers, HostView, OpView,
};
use crate::mlp::state::{first_refusal, one_pattern};
use crate::mlp::{check_pass_config, counting_refusal, pass_refusal};
use crate::util::context::LayerInitConfig;
use crate::util::function::{
    Activation, ConvAlgorithm, KernelConfig, Normalisation, PoolingType, Regularisation,
};
use crate::util::init::InitFunc;
use crate::util::log::{invalid_configuration, refusal, Error, ErrorView};
use crate::util::precision::{Precision, PrecisionType, F16, F32};
use crate::util::tensor::{
    cast_all, cast_tensor, castable, countable, element_count, free_ops, lemma_cast_keeps_tile,
    lemma_line_count, lemma_made_all, lemma_made_keeps_tile, lemma_made_none, lemma_volume_count,
    made_all, made_tensor, push_cast, push_fill, push_host, push_zeros, under_way, with_zeros, Fill,
    Recipe, Tensor1D, Tensor4D, TensorView,
};

verus! {

/// What a convolutional layer keeps of its last forward pass.
#[derive(Debug)]
pub struct ConvForwardCache<T: PrecisionType> {
    pub features: Tensor4D<T>,
    pub predrop_features: Tensor4D<T>,
    pub prepooling_features: Tensor4D<T>,
    pub preact_features: Tensor4D<T>,
}

/// What a [`ConvForwardCache`] stands for.
pub struct ConvCacheView {
    pub features: TensorView,
    pub predrop_features: TensorView,
    pub prepooling_features: TensorView,
    pub preact_features: TensorView,
}

impl<T: PrecisionType> View for ConvForwardCache<T> {
    type V = ConvCacheView;

    open spec fn view(&self) -> ConvCacheView {
        ConvCacheView {
            features: self.features@,
            predrop_features: self.predrop_features@,
            prepooling_features: self.prepooling_features@,
            preact_features: self.preact_features@,
        }
    }
}

impl ConvCacheView {
    /// Every tensor has its axes.
    pub open spec fn wf(self) -> bool {
        &&& self.features.ok(4)
        &&& self.predrop_features.ok(4)
        &&& self.prepooling_features.ok(4)
        &&& self.preact_features.ok(4)
    }

    /// The tensors, in the order of the fields.
    pub open spec fn tensors(self) -> Seq<TensorView> {
        seq![
            self.features,
            self.predrop_features,
            self.prepooling_features,
            self.preact_features,
        ]
    }
}

/// What the normalisation of a convolutional layer keeps.
#[derive(Debug)]
pub struct ConvNormCache<T: PrecisionType> {
    pub norm_weights: Tensor4D<T>,
    pub norm_biases: Tensor4D<T>,
    pub centered_features: Tensor4D<T>,
    pub prenorm_features: Tensor4D<T>,
    pub norm_rstd: Tensor1D<T>,
}

/// What a [`ConvNormCache`] stands for.
pub struct ConvNormView {
    pub norm_weights: TensorView,
    pub norm_biases: TensorView,
    pub centered_features: TensorView,
    pub prenorm_features: TensorView,
    pub norm_rstd: TensorView,
}

impl<T: PrecisionType> View for ConvNormCache<T> {
    type V = ConvNormView;

    open spec fn view(&self) -> ConvNormView {
        ConvNormView {
            norm_weights: self.norm_weights@,
            norm_biases: self.norm_biases@,
            centered_features: self.centered_features@,
            prenorm_features: self.prenorm_features@,
            norm_rstd: self.norm_rstd@,
        }
    }
}

impl ConvNormView {
    /// Every tensor has its axes.
    pub open spec fn wf(self) -> bool {
        &&& self.norm_weights.ok(4)
        &&& self.norm_biases.ok(4)
        &&& self.centered_features.ok(4)
        &&& self.prenorm_features.ok(4)
        &&& self.norm_rstd.ok(1)
    }

    /// The tensors, in the order of the fields.
    pub open spec fn tensors(self) -> Seq<TensorView> {
        seq![
            self.norm_weights,
            self.norm_biases,
            self.centered_features,
            self.prenorm_features,
            self.norm_rstd,
        ]
    }
}

/// What a cache of the normalisation that may be missing stands for.
pub open spec fn optional_norm_view<T: PrecisionType>(c: Option<ConvNormCache<T>>) -> Option<
    ConvNormView,
> {
    match c {
        Some(x) => Some(x@),
        None => None,
    }
}

/// The buffers of the frequencies: of the input, of the filters and of their product, the roots of
/// unity along the width and along the height, and the width and height of the transforms.
#[derive(Debug, Clone, Copy)]
pub struct FftBuffers {
    pub input: DeviceSlice,
    pub weights: DeviceSlice,
    pub output: DeviceSlice,
    pub twiddle_width: DeviceSlice,
    pub twiddle_height: DeviceSlice,
    pub size: (usize, usize),
}

/// A convolutional layer.
#[derive(Debug)]
pub struct ConvBlock<T: PrecisionType> {
    forward_cache: ConvForwardCache<T>,
    filter_weights: Tensor4D<T>,
    filter_biases: Tensor1D<T>,
    filter_cfg: KernelConfig,
    pooling_cfg: Option<KernelConfig>,
    pooling_type: Option<PoolingType>,
    norm_cache: Option<ConvNormCache<T>>,
    mask: Tensor4D<T>,
    max_batch_size: usize,
    max_input_dim: (usize, usize),
    is_training: bool,
    normalisation: Normalisation,
    activation: Activation,
    regularisation: Regularisation,
    mask_coeff: F32,
    algorithm: ConvAlgorithm,
    fft: Option<FftBuffers>,
}

/// What a [`ConvBlock`] stands for.
pub struct ConvView {
    pub cache: ConvCacheView,
    pub weights: TensorView,
    pub biases: TensorView,
    pub filter: KernelConfig,
    pub pooling: Option<KernelConfig>,
    pub pooling_type: Option<PoolingType>,
    pub norm: Option<ConvNormView>,
    pub mask: TensorView,
    pub max_batch_size: usize,
    pub max_input_dim: (usize, usize),
    pub config: LayerInitConfig,
    pub is_training: bool,
    pub algorithm: ConvAlgorithm,
    pub fft: Option<FftBuffers>,
}

impl<T: PrecisionType> View for ConvBlock<T> {
    type V = ConvView;

    closed spec fn view(&self) -> ConvView {
        ConvView {
            cache: self.forward_cache@,
            weights: self.filter_weights@,
            biases: self.filter_biases@,
            filter: self.filter_cfg,
            pooling: self.pooling_cfg,
            pooling_type: self.pooling_type,
            norm: optional_norm_view(self.norm_cache),
            mask: self.mask@,
            max_batch_size: self.max_batch_size,
            max_input_dim: self.max_input_dim,
            config: LayerInitConfig {
                normalisation: self.normalisation,
                activation: self.activation,
                regularisation: self.regularisation,
                mask_coeff: self.mask_coeff,
            },
            is_training: self.is_training,
            algorithm: self.algorithm,
            fft: self.fft,
        }
    }
}

impl ConvView {
    /// Every tensor has its axes, the windows make sense, and a normalisation has its tensors.
    pub open spec fn wf(self) -> bool {
        &&& self.cache.wf()
        &&& self.weights.ok(4)
        &&& self.biases.ok(1)
        &&& self.filter.wf()
        &&& self.pooling matches Some(cfg) ==> cfg.wf()
        &&& self.norm matches Some(c) ==> c.wf()
        &&& self.config.normalisation != Normalisation::Disabled ==> self.norm is Some
        &&& self.mask.ok(4)
    }
}

/// The tensors of a forward cache. Without pooling, the one before the pooling is empty.
pub open spec fn conv_cache_recipes(
    precision: Precision,
    before: Seq<usize>,
    after: Seq<usize>,
    enable_pooling: bool,
) -> Seq<Recipe> {
    seq![
        Recipe { shape: after, precision, fill: Fill::Zeros },
        Recipe { shape: after, precision, fill: Fill::Zeros },
        Recipe {
            shape: if enable_pooling {
                before
            } else {
                seq![0, 0, 0, 0]
            },
            precision,
            fill: Fill::Zeros,
        },
        Recipe { shape: before, precision, fill: Fill::Zeros },
    ]
}

/// The shapes of the weights and of the deviations of a normalisation: one weight for each channel
/// of a batch normalisation, one for each feature otherwise; one deviation for each channel of a
/// batch normalisation, one for each image otherwise.
pub open spec fn norm_shapes(norm: Normalisation, features: Seq<usize>) -> (
    Seq<usize>,
    Seq<usize>,
) {
    if norm == Normalisation::BatchNorm {
        (seq![1, features[1], 1, 1], seq![features[1]])
    } else {
        (seq![1, features[1], features[2], features[3]], seq![features[0]])
    }
}

/// The tensors of a normalisation.
pub open spec fn conv_norm_recipes(
    precision: Precision,
    norm: Normalisation,
    features: Seq<usize>,
) -> Seq<Recipe> {
    let shapes = norm_shapes(norm, features);
    seq![
        Recipe {
            shape: shapes.0,
            precision,
            fill: Fill::Constant(one_pattern(precision)),
        },
        Recipe { shape: shapes.0, precision, fill: Fill::Zeros },
        Recipe { shape: features, precision, fill: Fill::Zeros },
        Recipe { shape: features, precision, fill: Fill::Zeros },
        Recipe { shape: shapes.1, precision, fill: Fill::Zeros },
    ]
}

/// The buffers of a forward cache are given back.
pub open spec fn conv_cache_frees(c: ConvCacheView) -> Seq<OpView> {
    free_ops(c.features) + free_ops(c.predrop_features) + free_ops(c.prepooling_features)
        + free_ops(c.preact_features)
}

/// The buffers of a normalisation are given back.
pub open spec fn conv_norm_frees(c: ConvNormView) -> Seq<OpView> {
    free_ops(c.norm_weights) + free_ops(c.norm_biases) + free_ops(c.centered_features) + free_ops(
        c.prenorm_features,
    ) + free_ops(c.norm_rstd)
}

/// The buffers of a layer are given back.
pub open spec fn conv_frees(b: ConvView) -> Seq<OpView> {
    conv_cache_frees(b.cache) + free_ops(b.weights) + free_ops(b.biases) + (match b.norm {
        Some(c) => conv_norm_frees(c),
        None => seq![],
    }) + free_ops(b.mask)
}

impl<T: PrecisionType> ConvForwardCache<T> {
    /// The cache of a layer, as the first four tensors of a list of recipes.
    pub(crate) fn new(
        context: &mut GpuContext,
        pre_pooling_shape: &[usize; 4],
        aft_pooling_shape: &[usize; 4],
        enable_pooling: bool,
        Ghost(d): Ghost<DeviceView>,
        Ghost(recipes): Ghost<Seq<Recipe>>,
    ) -> (r: Result<Self, Error>)
        requires
            old(context).wf(),
            countable(pre_pooling_shape@),
            countable(aft_pooling_shape@),
            under_way(d, recipes, 0, old(context)@),
            4 <= recipes.len(),
            recipes.take(4) == conv_cache_recipes(
                T::format(),
                pre_pooling_shape@,
                aft_pooling_shape@,
                enable_pooling,
            ),
        ensures
            final(context).wf(),
            under_way(d, recipes, 4, final(context)@),
            r matches Ok(c) && c@.wf() && c@ == made_conv_cache(d, recipes),
    {
        let nothing: [usize; 4] = [0, 0, 0, 0];
        proof {
            lemma_volume_count(nothing@);
            let own = conv_cache_recipes(
                T::format(),
                pre_pooling_shape@,
                aft_pooling_shape@,
                enable_pooling,
            );
            assert(nothing@ == seq![0usize, 0, 0, 0]);
            assert forall|k: int| 0 <= k < 4 implies #[trigger] recipes[k] == own[k] by {
                assert(recipes.take(4)[k] == own[k]);
            }
        }
        let features = push_zeros(context, aft_pooling_shape, Ghost(d), Ghost(recipes), Ghost(0))?;
        let predrop_features = push_zeros(
            context,
            aft_pooling_shape,
            Ghost(d),
            Ghost(recipes),
            Ghost(1),
        )?;
        let prepooling_features = push_zeros(
            context,
            if enable_pooling {
                pre_pooling_shape
            } else {
                &nothing
            },
            Ghost(d),
            Ghost(recipes),
            Ghost(2),
        )?;
        let preact_features = push_zeros(
            context,
            pre_pooling_shape,
            Ghost(d),
            Ghost(recipes),
            Ghost(3),
        )?;
        Ok(Self { features, predrop_features, prepooling_features, preact_features })
    }
}

/// The cache whose tensors are made by the first four recipes of a list.
pub open spec fn made_conv_cache(d: DeviceView, recipes: Seq<Recipe>) -> ConvCacheView {
    ConvCacheView {
        features: made_tensor(d, recipes, 0),
        predrop_features: made_tensor(d, recipes, 1),
        prepooling_features: made_tensor(d, recipes, 2),
        preact_features: made_tensor(d, recipes, 3),
    }
}

/// The tensors of a normalisation that are made by a list of recipes from the seventh one on.
pub open spec fn made_conv_norm(d: DeviceView, recipes: Seq<Recipe>) -> ConvNormView {
    ConvNormView {
        norm_weights: made_tensor(d, recipes, 7),
        norm_biases: made_tensor(d, recipes, 8),
        centered_features: made_tensor(d, recipes, 9),
        prenorm_features: made_tensor(d, recipes, 10),
        norm_rstd: made_tensor(d, recipes, 11),
    }
}

impl<T: PrecisionType> ConvNormCache<T> {
    /// The tensors of a normalisation, as the last five tensors of a list of recipes.
    pub(crate) fn new(
        context: &mut GpuContext,
        norm: Normalisation,
        feature_shape: &[usize; 4],
        Ghost(d): Ghost<DeviceView>,
        Ghost(recipes): Ghost<Seq<Recipe>>,
    ) -> (r: Result<Self, Error>)
        requires
            old(context).wf(),
            norm != Normalisation::Disabled,
            countable(feature_shape@),
            countable(norm_shapes(norm, feature_shape@).0),
            tileable(
                element_count(norm_shapes(norm, feature_shape@).0) as int,
                tile_area(old(context)@.tile_dim),
            ),
            under_way(d, recipes, 7, old(context)@),
            recipes.len() == 12,
            recipes.skip(7) == conv_norm_recipes(T::format(), norm, feature_shape@),
        ensures
            final(context).wf(),
            made_all(d, recipes) == (final(context)@, refusal(r)),
            r matches Ok(c) ==> c@.wf() && c@ == made_conv_norm(d, recipes),
    {
        let (norm_shape, rstd_shape): ([usize; 4], [usize; 1]) = if norm
            == Normalisation::BatchNorm {
            ([1, feature_shape[1], 1, 1], [feature_shape[1]])
        } else {
            ([1, feature_shape[1], feature_shape[2], feature_shape[3]], [feature_shape[0]])
        };
        proof {
            lemma_line_count(rstd_shape@);
            assert(norm_shape@ == norm_shapes(norm, feature_shape@).0);
            assert(rstd_shape@ == norm_shapes(norm, feature_shape@).1);
            let own = conv_norm_recipes(T::format(), norm, feature_shape@);
            assert forall|k: int| 7 <= k < 12 implies #[trigger] recipes[k] == own[k - 7] by {
                assert(recipes.skip(7)[k - 7] == own[k - 7]);
            }
        }
        let norm_weights = push_fill(
            context,
            &norm_shape,
            T::one(),
            Ghost(d),
            Ghost(recipes),
            Ghost(7),
        )?;
        let norm_biases = push_zeros(context, &norm_shape, Ghost(d), Ghost(recipes), Ghost(8))?;
        let centered_features = push_zeros(
            context,
            feature_shape,
            Ghost(d),
            Ghost(recipes),
            Ghost(9),
        )?;
        let prenorm_features = push_zeros(
            context,
            feature_shape,
            Ghost(d),
            Ghost(recipes),
            Ghost(10),
        )?;
        let norm_rstd = push_zeros(context, &rstd_shape, Ghost(d), Ghost(recipes), Ghost(11))?;
        proof {
            lemma_made_all(d, recipes, context@);
        }
        Ok(Self { norm_weights, norm_biases, centered_features, prenorm_features, norm_rstd })
    }
}

/// The tensors of a layer, in the order in which they are made.
pub open spec fn conv_recipes(
    precision: Precision,
    filter_shape: Seq<usize>,
    pooling_shape: Seq<usize>,
    weight_shape: Seq<usize>,
    enable_pooling: bool,
    weights: HostView,
    norm: Normalisation,
) -> Seq<Recipe> {
    conv_cache_recipes(precision, filter_shape, pooling_shape, enable_pooling) + seq![
        Recipe {
            shape: weight_shape,
            precision,
            fill: Fill::Host { held: precision, numbers: weights },
        },
        Recipe { shape: seq![weight_shape[0]], precision, fill: Fill::Zeros },
        Recipe { shape: filter_shape, precision, fill: Fill::Zeros },
    ] + if norm == Normalisation::Disabled {
        seq![]
    } else {
        conv_norm_recipes(precision, norm, filter_shape)
    }
}

/// The tensors of a layer.
struct ConvTensors<T: PrecisionType> {
    forward_cache: ConvForwardCache<T>,
    filter_weights: Tensor4D<T>,
    filter_biases: Tensor1D<T>,
    mask: Tensor4D<T>,
    norm_cache: Option<ConvNormCache<T>>,
}

impl<T: PrecisionType> ConvTensors<T> {
    /// Makes the tensors of a layer. Where that is refused, what was made is left to the caller.
    fn new(
        context: &mut GpuContext,
        filter_shape: &[usize; 4],
        pooling_shape: &[usize; 4],
        weight_shape: &[usize; 4],
        enable_pooling: bool,
        weights: HostNumbers,
        normalisation: Normalisation,
    ) -> (r: Result<Self, Error>)
        requires
            old(context).wf(),
            countable(filter_shape@),
            countable(pooling_shape@),
            countable(weight_shape@),
            normalisation != Normalisation::Disabled ==> {
                let shape = norm_shapes(normalisation, filter_shape@).0;
                &&& countable(shape)
                &&& tileable(element_count(shape) as int, tile_area(old(context)@.tile_dim))
            },
        ensures
            final(context).wf(),
            ({
                let d = old(context)@;
                let recipes = conv_recipes(
                    T::format(),
                    filter_shape@,
                    pooling_shape@,
                    weight_shape@,
                    enable_pooling,
                    weights@,
                    normalisation,
                );
                &&& made_all(d, recipes) == (final(context)@, refusal(r))
                &&& r matches Ok(t) ==> {
                    &&& t.forward_cache@.wf() && t.forward_cache@ == made_conv_cache(d, recipes)
                    &&& t.filter_weights.wf() && t.filter_weights@ == made_tensor(d, recipes, 4)
                    &&& t.filter_biases.wf() && t.filter_biases@ == made_tensor(d, recipes, 5)
                    &&& t.mask.wf() && t.mask@ == made_tensor(d, recipes, 6)
                    &&& normalisation == Normalisation::Disabled ==> t.norm_cache is None
                    &&& normalisation != Normalisation::Disabled ==> (t.norm_cache matches Some(c)
                        && c@.wf() && c@ == made_conv_norm(d, recipes))
                }
            }),
    {
        broadcast use lemma_made_keeps_tile;

        let bias_shape: [usize; 1] = [weight_shape[0]];
        let ghost d = context@;
        let ghost recipes = conv_recipes(
            T::format(),
            filter_shape@,
            pooling_shape@,
            weight_shape@,
            enable_pooling,
            weights@,
            normalisation,
        );
        proof {
            assert(bias_shape@ == seq![weight_shape@[0]]);
            lemma_line_count(bias_shape@);
            lemma_made_none(d, recipes);
            assert(recipes.take(4) == conv_cache_recipes(
                T::format(),
                filter_shape@,
                pooling_shape@,
                enable_pooling,
            ));
            if normalisation != Normalisation::Disabled {
                assert(recipes.skip(7) == conv_norm_recipes(
                    T::format(),
                    normalisation,
                    filter_shape@,
                ));
            }
        }
        let forward_cache = ConvForwardCache::<T>::new(
            context,
            filter_shape,
            pooling_shape,
            enable_pooling,
            Ghost(d),
            Ghost(recipes),
        )?;
        let filter_weights: Tensor4D<T> = push_host(
            context,
            weights,
            T::precision(),
            weight_shape,
            Ghost(d),
            Ghost(recipes),
            Ghost(4),
        )?;
        let filter_biases: Tensor1D<T> = push_zeros(
            context,
            &bias_shape,
            Ghost(d),
            Ghost(recipes),
            Ghost(5),
        )?;
        let mask: Tensor4D<T> = push_zeros(
            context,
            filter_shape,
            Ghost(d),
            Ghost(recipes),
            Ghost(6),
        )?;
        let norm_cache: Option<ConvNormCache<T>> = if normalisation == Normalisation::Disabled {
            proof {
                lemma_made_all(d, recipes, context@);
            }
            None
        } else {
            Some(
                ConvNormCache::new(
                    context,
                    normalisation,
                    filter_shape,
                    Ghost(d),
                    Ghost(recipes),
                )?,
            )
        };
        Ok(Self { forward_cache, filter_weights, filter_biases, mask, norm_cache })
    }
}

/// The windows and the channels of a layer that is to be made.
pub struct ConvPlan {
    pub max_batch_size: usize,
    pub max_input_dim: (usize, usize),
    pub filter: KernelConfig,
    pub pooling: Option<KernelConfig>,
    pub in_channels: usize,
    pub out_channels: usize,
}

impl ConvPlan {
    /// Why the batch or the channels are refused.
    pub open spec fn size_refusal(self) -> Option<ErrorView> {
        if self.max_batch_size == 0 {
            Some(ErrorView::InvalidConfiguration { reason: "Batch size cannot be 0."@ })
        } else if self.in_channels == 0 || self.out_channels == 0 {
            Some(ErrorView::InvalidConfiguration { reason: "Channel size cannot be 0."@ })
        } else {
            None
        }
    }

    /// The number of weights of one filter.
    pub open spec fn fan_in(self) -> int {
        self.in_channels * self.filter.dimension.0 * self.filter.dimension.1
    }

    /// The number of weights that look at one pixel.
    pub open spec fn fan_out(self) -> int {
        self.out_channels * self.filter.dimension.0 * self.filter.dimension.1
    }

    /// The number of outputs of the filters.
    pub open spec fn filter_out(self) -> (int, int) {
        self.filter.elements((self.max_input_dim.0 as int, self.max_input_dim.1 as int))
    }

    /// The number of outputs of the pooling.
    pub open spec fn pooling_out(self) -> (int, int) {
        match self.pooling {
            Some(cfg) => cfg.elements(self.filter_out()),
            None => self.filter_out(),
        }
    }

    /// Why the windows are refused: they leave no output.
    pub open spec fn window_refusal(self) -> Option<ErrorView> {
        if self.filter_out().0 == 0 || self.filter_out().1 == 0 {
            Some(
                ErrorView::InvalidConfiguration {
                    reason:
                        "The filter size is too large. The output tensor cannot be created."@,
                },
            )
        } else if self.pooling is Some && (self.pooling_out().0 == 0 || self.pooling_out().1 == 0) {
            Some(
                ErrorView::InvalidConfiguration {
                    reason:
                        "The pooling size is too large. The output tensor cannot be created."@,
                },
            )
        } else {
            None
        }
    }

    /// The shape of the outputs of the filters.
    pub open spec fn filter_shape(self) -> Seq<usize> {
        seq![
            self.max_batch_size,
            self.out_channels,
            self.filter_out().1 as usize,
            self.filter_out().0 as usize,
        ]
    }

    /// The shape of the outputs of the pooling.
    pub open spec fn pooling_shape(self) -> Seq<usize> {
        seq![
            self.max_batch_size,
            self.out_channels,
            self.pooling_out().1 as usize,
            self.pooling_out().0 as usize,
        ]
    }

    /// The shape of the weights of the filters.
    pub open spec fn weight_shape(self) -> Seq<usize> {
        seq![
            self.out_channels,
            self.in_channels,
            self.filter.dimension.1,
            self.filter.dimension.0,
        ]
    }

    /// The weights can be counted.
    pub open spec fn weights_fit(self) -> bool {
        &&& self.in_channels * self.filter.dimension.0 <= usize::MAX
        &&& self.fan_in() <= usize::MAX
        &&& self.out_channels * self.filter.dimension.0 <= usize::MAX
        &&& self.fan_out() <= usize::MAX
        &&& self.out_channels * self.fan_in() <= usize::MAX
    }

    /// The windows can be counted, up to where they are refused.
    pub open spec fn windows_fit(self) -> bool {
        &&& self.filter.wf()
        &&& self.pooling matches Some(cfg) ==> cfg.wf()
        &&& self.filter.measures((self.max_input_dim.0 as int, self.max_input_dim.1 as int))
        &&& self.filter_out().0 != 0 && self.filter_out().1 != 0 ==> (self.pooling matches Some(
            cfg,
        ) ==> cfg.measures(self.filter_out()))
    }

    /// The tensors can be made without running past the largest address or the largest grid.
    pub open spec fn tensors_fit(self, tile_dim: u32, norm: Normalisation) -> bool {
        &&& countable(self.filter_shape())
        &&& countable(self.pooling_shape())
        &&& countable(self.weight_shape())
        &&& norm != Normalisation::Disabled ==> {
            let shape = norm_shapes(norm, self.filter_shape()).0;
            countable(shape) && tileable(element_count(shape) as int, tile_area(tile_dim))
        }
    }

    /// The tensors of the layer, in the order in which they are made.
    pub open spec fn recipes(self, precision: Precision, weights: HostView, norm: Normalisation)
        -> Seq<Recipe> {
        conv_recipes(
            precision,
            self.filter_shape(),
            self.pooling_shape(),
            self.weight_shape(),
            self.pooling is Some,
            weights,
            norm,
        )
    }

    /// The layer whose tensors are made by a list of recipes.
    pub open spec fn layer(
        self,
        d: DeviceView,
        recipes: Seq<Recipe>,
        pooling_type: Option<PoolingType>,
        config: LayerInitConfig,
        is_training: bool,
    ) -> ConvView {
        ConvView {
            cache: made_conv_cache(d, recipes),
            weights: made_tensor(d, recipes, 4),
            biases: made_tensor(d, recipes, 5),
            filter: self.filter,
            pooling: self.pooling,
            pooling_type,
            norm: if config.normalisation == Normalisation::Disabled {
                None
            } else {
                Some(made_conv_norm(d, recipes))
            },
            mask: made_tensor(d, recipes, 6),
            max_batch_size: self.max_batch_size,
            max_input_dim: self.max_input_dim,
            config,
            is_training,
            algorithm: ConvAlgorithm::Spatial,
            fft: None,
        }
    }
}

/// Why an input does not suit a layer.
pub open spec fn conv_input_refusal(layer: ConvView, input: TensorView, batch_size: usize)
    -> Option<ErrorView> {
    let (n, c, h, w) = (input.shape[0], input.shape[1], input.shape[2], input.shape[3]);
    let (fh, fw) = (layer.weights.shape[2], layer.weights.shape[3]);
    if n < batch_size {
        Some(
            ErrorView::MismatchedDimensions {
                reason: "forward input batches vs explicit batch size"@,
                expected: batch_size,
                found: n,
            },
        )
    } else if n > layer.max_batch_size {
        Some(
            ErrorView::AllocationLimitExceeded {
                received: n,
                max: layer.max_batch_size,
                reason: "input batches"@,
            },
        )
    } else if c != layer.weights.shape[1] {
        Some(
            ErrorView::MismatchedDimensions {
                reason: "forward input channels mismatch"@,
                expected: layer.weights.shape[1],
                found: c,
            },
        )
    } else if w == 0 || w < fw {
        Some(
            ErrorView::MismatchedDimensions {
                reason: "forward input width is smaller than filter width or zero"@,
                expected: fw,
                found: w,
            },
        )
    } else if h == 0 || h < fh {
        Some(
            ErrorView::MismatchedDimensions {
                reason: "forward input height is smaller than filter height or zero"@,
                expected: fh,
                found: h,
            },
        )
    } else if w > layer.max_input_dim.0 {
        Some(
            ErrorView::AllocationLimitExceeded {
                received: w,
                max: layer.max_input_dim.0,
                reason: "input width"@,
            },
        )
    } else if h > layer.max_input_dim.1 {
        Some(
            ErrorView::AllocationLimitExceeded {
                received: h,
                max: layer.max_input_dim.1,
                reason: "input height"@,
            },
        )
    } else if layer.filter.pad >= w {
        Some(
            ErrorView::MismatchedDimensions {
                reason: "forward input width is larger or equal to the padding size"@,
                expected: layer.filter.pad,
                found: w,
            },
        )
    } else if layer.filter.pad >= h {
        Some(
            ErrorView::MismatchedDimensions {
                reason: "forward input height is larger or equal to the padding size"@,
                expected: layer.filter.pad,
                found: h,
            },
        )
    } else {
        None
    }
}

/// The images of an input are as large as a layer takes them.
pub open spec fn is_full(layer: ConvView, input: TensorView) -> bool {
    input.shape[3] == layer.max_input_dim.0 && input.shape[2] == layer.max_input_dim.1
}

/// What the filters of a layer see of an input: the input itself where its images are as large as
/// the layer takes them, and otherwise a new tensor with images of that size.
pub open spec fn full_input(d: DeviceView, layer: ConvView, input: TensorView) -> TensorView {
    if is_full(layer, input) {
        input
    } else {
        TensorView {
            id: d.next_id,
            shape: seq![
                input.shape[0],
                input.shape[1],
                layer.max_input_dim.1,
                layer.max_input_dim.0,
            ],
        }
    }
}

/// The device once the images of an input are padded with zeros behind their last column and row.
pub open spec fn padded_input(
    d: DeviceView,
    precision: Precision,
    layer: ConvView,
    input: TensorView,
) -> DeviceView {
    let full = full_input(d, layer, input);
    with_zeros(d, precision, full.shape).then_run(
        seq![
            OpView::Inset {
                tensor: full.id,
                source: input.id,
                planes: (input.shape[0] * input.shape[1]) as usize,
                inner: (input.shape[3], input.shape[2]),
                outer: layer.max_input_dim,
            },
        ],
    )
}

/// Why a forward pass is refused before the device is asked.
pub open spec fn conv_pass_refusal(layer: ConvView, input: TensorView, batch_size: usize) -> Option<
    ErrorView,
> {
    first_refusal(
        conv_input_refusal(layer, input, batch_size),
        pass_refusal(layer.config.activation, layer.config.normalisation, batch_size),
    )
}

/// The device once a checked forward pass is made, and why it is refused. A smaller input is padded
/// with zeros first, and the padded one is given back at the end.
pub open spec fn conv_forward_through(
    d: DeviceView,
    precision: Precision,
    layer: ConvView,
    input: TensorView,
    batch_size: usize,
    use_dropout: bool,
    step: usize,
) -> (DeviceView, Option<ErrorView>) {
    if conv_pass_refusal(layer, input, batch_size) is Some {
        (d, conv_pass_refusal(layer, input, batch_size))
    } else {
        let full = full_input(d, layer, input);
        let outcome = conv_forward_pass(
            d.tile_dim,
            precision,
            layer,
            full,
            batch_size,
            use_dropout,
            step,
        );
        if is_full(layer, input) {
            (d.then_run(outcome.ops), outcome.refused)
        } else {
            (
                padded_input(d, precision, layer, input).then_run(outcome.ops).then_run(
                    free_ops(full),
                ),
                outcome.refused,
            )
        }
    }
}

/// Whatever size an input has, its filters see images of the size that the layer was made for, and
/// give as many outputs as there is room for.
pub proof fn law_every_input_fills_the_features(
    d: DeviceView,
    plan: ConvPlan,
    layer: ConvView,
    input: TensorView,
)
    requires
        layer.filter == plan.filter,
        layer.pooling == plan.pooling,
        layer.max_input_dim == plan.max_input_dim,
        input.shape.len() == 4,
        0 <= plan.filter_out().0 <= usize::MAX,
        0 <= plan.filter_out().1 <= usize::MAX,
        0 <= plan.pooling_out().0 <= usize::MAX,
        0 <= plan.pooling_out().1 <= usize::MAX,
    ensures
        ({
            let full = full_input(d, layer, input);
            &&& full.shape[0] == input.shape[0] && full.shape[1] == input.shape[1]
            &&& full.shape[2] == layer.max_input_dim.1 && full.shape[3] == layer.max_input_dim.0
            &&& filtered(layer, full).0 == plan.filter_out().0
            &&& filtered(layer, full).1 == plan.filter_out().1
            &&& pooled(layer, full).0 == plan.pooling_out().0
            &&& pooled(layer, full).1 == plan.pooling_out().1
        }),
{
    let full = full_input(d, layer, input);
    let largest = (plan.max_input_dim.0 as int, plan.max_input_dim.1 as int);
    assert(plane(full) == largest);
    let from = filtered(layer, full);
    assert((from.0 as int, from.1 as int) == plan.filter_out());
    if layer.pooling is None {
        let single = pooling_windows(layer);
        assert(single.span() == (1int, 1int));
        assert(single.elements((from.0 as int, from.1 as int)) == (from.0 as int, from.1 as int));
    }
}

/// The tensors that are cast where a layer changes its precision.
pub open spec fn conv_tensors(b: ConvView) -> Seq<TensorView> {
    seq![b.weights, b.biases] + b.cache.tensors() + (match b.norm {
        Some(c) => c.tensors(),
        None => seq![],
    }) + seq![b.mask]
}

/// The device once a layer changes its precision, and that layer.
pub open spec fn cast_conv(d: DeviceView, from: Precision, to: Precision, b: ConvView) -> (
    DeviceView,
    ConvView,
) {
    let ts = conv_tensors(b);
    let mask: int = if b.norm is Some {
        11
    } else {
        6
    };
    (
        cast_all(d, from, to, ts),
        ConvView {
            weights: cast_tensor(d, from, to, ts, 0),
            biases: cast_tensor(d, from, to, ts, 1),
            cache: ConvCacheView {
                features: cast_tensor(d, from, to, ts, 2),
                predrop_features: cast_tensor(d, from, to, ts, 3),
                prepooling_features: cast_tensor(d, from, to, ts, 4),
                preact_features: cast_tensor(d, from, to, ts, 5),
            },
            norm: if b.norm is Some {
                Some(
                    ConvNormView {
                        norm_weights: cast_tensor(d, from, to, ts, 6),
                        norm_biases: cast_tensor(d, from, to, ts, 7),
                        centered_features: cast_tensor(d, from, to, ts, 8),
                        prenorm_features: cast_tensor(d, from, to, ts, 9),
                        norm_rstd: cast_tensor(d, from, to, ts, 10),
                    },
                )
            } else {
                None
            },
            mask: cast_tensor(d, from, to, ts, mask),
            ..b
        },
    )
}

/// A layer that changes its precision keeps its shapes and its configuration.
pub proof fn law_casting_keeps_conv_layout(
    d: DeviceView,
    from: Precision,
    to: Precision,
    b: ConvView,
)
    ensures
        ({
            let c = cast_conv(d, from, to, b).1;
            &&& c.weights.shape == b.weights.shape
            &&& c.biases.shape == b.biases.shape
            &&& c.cache.features.shape == b.cache.features.shape
            &&& c.cache.predrop_features.shape == b.cache.predrop_features.shape
            &&& c.cache.prepooling_features.shape == b.cache.prepooling_features.shape
            &&& c.cache.preact_features.shape == b.cache.preact_features.shape
            &&& c.mask.shape == b.mask.shape
            &&& c.norm is Some <==> b.norm is Some
            &&& b.norm matches Some(n) ==> {
                &&& c.norm->0.norm_weights.shape == n.norm_weights.shape
                &&& c.norm->0.norm_biases.shape == n.norm_biases.shape
                &&& c.norm->0.centered_features.shape == n.centered_features.shape
                &&& c.norm->0.prenorm_features.shape == n.prenorm_features.shape
                &&& c.norm->0.norm_rstd.shape == n.norm_rstd.shape
            }
            &&& c.filter == b.filter
            &&& c.pooling == b.pooling
            &&& c.pooling_type == b.pooling_type
            &&& c.config == b.config
            &&& c.max_batch_size == b.max_batch_size
            &&& c.max_input_dim == b.max_input_dim
            &&& c.is_training == b.is_training
            &&& c.algorithm == b.algorithm
        }),
{
    lemma_conv_tensors(b);
}

/// A layer that is used up without a successor gives the buffer of each of its tensors back.
pub proof fn law_layer_frees_everything(b: ConvView, t: TensorView)
    requires
        conv_tensors(b).contains(t),
    ensures
        conv_frees(b).contains(OpView::Free { tensor: t.id }),
{
    broadcast use vstd::seq_lib::lemma_seq_concat_contains_all_elements;

    lemma_conv_tensors(b);
    let op = OpView::Free { tensor: t.id };
    assert(free_ops(t)[0] == op);
    if b.cache.tensors().contains(t) {
        assert(conv_cache_frees(b.cache).contains(op));
    } else if let Some(c) = b.norm {
        if c.tensors().contains(t) {
            assert(conv_norm_frees(c).contains(op));
        }
    }
}

impl<T: PrecisionType> ConvBlock<T> {
    /// Every tensor has its axes, the windows make sense, and a normalisation has its tensors.
    pub open spec fn wf(&self) -> bool {
        self@.wf()
    }

    /// Create a new convolutional block with default arguments, including setting
    /// activation to `Identity`, regularisation to [`Regularisation::Disabled`],
    /// pooling type to [`PoolingType::MaxPooling`], and `mask_coeff` to `0.0`.
    ///
    /// # Arguments
    /// * `context` - See [`GpuContext`].
    /// * `is_training` - If set to false, tensors related only to the backward pass will not be
    ///   generated.
    /// * `max_batch_size` - Maximum size of a batch.
    /// * `max_input_dim` - Maximum width (`max_input_dim.0`) and height (`max_input_dim.1`) of the
    ///   input image.
    /// * `init` - See [`InitFunc`]. Used for initialising weight filters.
    /// * `filter_cfg` - The configuration for the filters. See [`KernelConfig`].
    /// * `pooling_cfg` - The configuration for pooling. See [`KernelConfig`]. Pass `None` to disable.
    /// * `in_channels` - Number of input feature channels.
    /// * `out_channels` - Number of output feature channels.
    /// * `normalisation` - See [`Normalisation`]. Pass `Disabled` to disable normalisation.
    pub fn default<I: InitFunc>(
        context: &mut GpuContext,
        is_training: bool,
        max_batch_size: usize,
        max_input_dim: &(usize, usize),
        init: &mut I,
        filter_cfg: KernelConfig,
        pooling_cfg: Option<KernelConfig>,
        in_channels: usize,
        out_channels: usize,
        normalisation: Normalisation,
    ) -> (r: Result<Self, Error>)
        requires
            old(context).wf(),
            ({
                let plan = ConvPlan {
                    max_batch_size,
                    max_input_dim: *max_input_dim,
                    filter: filter_cfg,
                    pooling: pooling_cfg,
                    in_channels,
                    out_channels,
                };
                plan.size_refusal() is None ==> {
                    &&& plan.weights_fit()
                    &&& plan.windows_fit()
                    &&& old(init).accepts(
                        plan.fan_in() as usize,
                        plan.fan_out() as usize,
                        (out_channels * plan.fan_in()) as usize,
                    )
                    &&& plan.window_refusal() is None ==> plan.tensors_fit(
                        old(context)@.tile_dim,
                        normalisation,
                    )
                }
            }),
        ensures
            final(context).wf(),
            conv_made(
                ConvPlan {
                    max_batch_size,
                    max_input_dim: *max_input_dim,
                    filter: filter_cfg,
                    pooling: pooling_cfg,
                    in_channels,
                    out_channels,
                },
                old(context)@,
                final(context)@,
                *old(init),
                *final(init),
                Some(PoolingType::MaxPooling),
                LayerInitConfig {
                    normalisation,
                    activation: Activation::Identity,
                    regularisation: Regularisation::Disabled,
                    mask_coeff: F32 { bits: 0 },
                },
                is_training,
                r,
            ),
    {
        Self::new(
            context,
            is_training,
            max_batch_size,
            max_input_dim,
            init,
            filter_cfg,
            pooling_cfg,
            Some(PoolingType::MaxPooling),
            in_channels,
            out_channels,
            Activation::Identity,
            normalisation,
            Regularisation::Disabled,
            F32 { bits: 0 },
        )
    }

    /// Create a new convolutional layer block.
    ///
    /// # Arguments
    /// * `context` - See [`GpuContext`].
    /// * `is_training` - If set to false, tensors related only to the backward pass will not be
    ///   generated.
    /// * `max_batch_size` - Maximum size of an activation batch.
    /// * `max_input_dim` - Maximum width (`max_input_dim.0`) and height (`max_input_dim.1`) of the
    ///   input image.
    /// * `init` - See [`InitFunc`]. Used for initialising weight filters.
    /// * `filter_cfg` - The configuration for the filters. See [`KernelConfig`].
    /// * `pooling_cfg` - The configuration for pooling. See [`KernelConfig`]. Pass `None` to disable.
    /// * `pooling_type` - The type of pooling. See [`PoolingType`]. Pass `None` to disable.
    /// * `in_channels` - Number of input feature channels.
    /// * `out_channels` - Number of output feature channels.
    /// * `activation` - See [`Activation`]. Pass `Identity` to set this layer to an output layer.
    /// * `normalisation` - See [`Normalisation`]. Pass `Disabled` to disable normalisation.
    /// * `regularisation` - See [`Regularisation`]. Pass [`Regularisation::Disabled`] to disable
    ///   regularisation.
    /// * `mask_coeff` - Mask coefficient for dropout.
    pub fn new<I: InitFunc>(
        context: &mut GpuContext,
        is_training: bool,
        max_batch_size: usize,
        max_input_dim: &(usize, usize),
        init: &mut I,
        filter_cfg: KernelConfig,
        pooling_cfg: Option<KernelConfig>,
        pooling_type: Option<PoolingType>,
        in_channels: usize,
        out_channels: usize,
        activation: Activation,
        normalisation: Normalisation,
        regularisation: Regularisation,
        mask_coeff: F32,
    ) -> (r: Result<Self, Error>)
        requires
            old(context).wf(),
            ({
                let plan = ConvPlan {
                    max_batch_size,
                    max_input_dim: *max_input_dim,
                    filter: filter_cfg,
                    pooling: pooling_cfg,
                    in_channels,
                    out_channels,
                };
                plan.size_refusal() is None ==> {
                    &&& plan.weights_fit()
                    &&& plan.windows_fit()
                    &&& old(init).accepts(
                        plan.fan_in() as usize,
                        plan.fan_out() as usize,
                        (out_channels * plan.fan_in()) as usize,
                    )
                    &&& plan.window_refusal() is None ==> plan.tensors_fit(
                        old(context)@.tile_dim,
                        normalisation,
                    )
                }
            }),
        ensures
            final(context).wf(),
            conv_made(
                ConvPlan {
                    max_batch_size,
                    max_input_dim: *max_input_dim,
                    filter: filter_cfg,
                    pooling: pooling_cfg,
                    in_channels,
                    out_channels,
                },
                old(context)@,
                final(context)@,
                *old(init),
                *final(init),
                pooling_type,
                LayerInitConfig { normalisation, activation, regularisation, mask_coeff },
                is_training,
                r,
            ),
    {
        broadcast use lemma_made_keeps_tile;

        let ghost plan = ConvPlan {
            max_batch_size,
            max_input_dim: *max_input_dim,
            filter: filter_cfg,
            pooling: pooling_cfg,
            in_channels,
            out_channels,
        };
        if max_batch_size == 0 {
            return Err(invalid_configuration("Batch size cannot be 0."));
        }
        if in_channels == 0 || out_channels == 0 {
            return Err(invalid_configuration("Channel size cannot be 0."));
        }
        let filter_dim = *filter_cfg.get_dimension();
        assert(0 <= in_channels * filter_dim.0 && 0 <= out_channels * filter_dim.0)
            by (nonlinear_arith);
        let fan_in: usize = in_channels * filter_dim.0 * filter_dim.1;
        let filter_draws = init.init::<T>(
            fan_in,
            out_channels * filter_dim.0 * filter_dim.1,
            out_channels * fan_in,
        );
        let weights = HostNumbers::Drawn(filter_draws);
        let filter_out_dim = filter_cfg.elements_from_length(max_input_dim);
        if filter_out_dim.0 == 0 || filter_out_dim.1 == 0 {
            return Err(
                invalid_configuration(
                    "The filter size is too large. The output tensor cannot be created.",
                ),
            );
        }
        let pooling_out_dim: (usize, usize) = match &pooling_cfg {
            Some(cfg) => {
                let out = cfg.elements_from_length(&filter_out_dim);
                if out.0 == 0 || out.1 == 0 {
                    return Err(
                        invalid_configuration(
                            "The pooling size is too large. The output tensor cannot be created.",
                        ),
                    );
                }
                out
            },
            None => filter_out_dim,
        };
        let filter_out_shape: [usize; 4] = [
            max_batch_size,
            out_channels,
            filter_out_dim.1,
            filter_out_dim.0,
        ];
        let pooling_out_shape: [usize; 4] = [
            max_batch_size,
            out_channels,
            pooling_out_dim.1,
            pooling_out_dim.0,
        ];
        let weight_shape: [usize; 4] = [out_channels, in_channels, filter_dim.1, filter_dim.0];
        proof {
            assert(filter_out_shape@ == plan.filter_shape());
            assert(pooling_out_shape@ == plan.pooling_shape());
            assert(weight_shape@ == plan.weight_shape());
        }
        let first: usize = context.get_next_id();
        let tensors = match ConvTensors::<T>::new(
            context,
            &filter_out_shape,
            &pooling_out_shape,
            &weight_shape,
            pooling_cfg.is_some(),
            weights,
            normalisation,
        ) {
            Ok(tensors) => tensors,
            Err(e) => {
                context.give_back(first);
                return Err(e);
            },
        };
        let ConvTensors { forward_cache, filter_weights, filter_biases, mask, norm_cache } = tensors;
        Ok(
            Self {
                forward_cache,
                filter_weights,
                filter_biases,
                filter_cfg,
                pooling_cfg,
                pooling_type,
                norm_cache,
                mask,
                max_batch_size,
                max_input_dim: *max_input_dim,
                is_training,
                normalisation,
                activation,
                regularisation,
                mask_coeff,
                algorithm: ConvAlgorithm::Spatial,
                fft: None,
            },
        )
    }

    /// The weights of the filters.
    pub fn get_filter_weights(&self) -> (r: &Tensor4D<T>)
        ensures
            r@ == self@.weights,
    {
        &self.filter_weights
    }

    /// The biases of the filters.
    pub fn get_filter_biases(&self) -> (r: &Tensor1D<T>)
        ensures
            r@ == self@.biases,
    {
        &self.filter_biases
    }

    /// The features before the activation.
    pub fn get_preact_features(&self) -> (r: &Tensor4D<T>)
        ensures
            r@ == self@.cache.preact_features,
    {
        &self.forward_cache.preact_features
    }

    /// The features before the dropout.
    pub fn get_predrop_features(&self) -> (r: &Tensor4D<T>)
        ensures
            r@ == self@.cache.predrop_features,
    {
        &self.forward_cache.predrop_features
    }

    /// The features before the pooling.
    pub fn get_prepooling_features(&self) -> (r: &Tensor4D<T>)
        ensures
            r@ == self@.cache.prepooling_features,
    {
        &self.forward_cache.prepooling_features
    }

    /// The features that the layer puts out.
    pub fn get_features(&self) -> (r: &Tensor4D<T>)
        ensures
            r@ == self@.cache.features,
    {
        &self.forward_cache.features
    }

    /// What the normalisation keeps, where there is one.
    pub fn get_norm_cache(&self) -> (r: Option<&ConvNormCache<T>>)
        ensures
            (match r {
                Some(c) => Some(c@),
                None => None,
            }) == self@.norm,
    {
        self.norm_cache.as_ref()
    }

    /// The dropout mask.
    pub fn get_mask(&self) -> (r: &Tensor4D<T>)
        ensures
            r@ == self@.mask,
    {
        &self.mask
    }

    /// The windows of the filters.
    pub fn get_filter_cfg(&self) -> (r: &KernelConfig)
        ensures
            *r == self@.filter,
    {
        &self.filter_cfg
    }

    /// The windows of the pooling, where there is one.
    pub fn get_pooling_cfg(&self) -> (r: Option<&KernelConfig>)
        ensures
            (match r {
                Some(cfg) => Some(*cfg),
                None => None,
            }) == self@.pooling,
    {
        self.pooling_cfg.as_ref()
    }

    /// The type of pooling, where there is one.
    pub fn get_pooling_type(&self) -> (r: Option<&PoolingType>)
        ensures
            (match r {
                Some(t) => Some(*t),
                None => None,
            }) == self@.pooling_type,
    {
        self.pooling_type.as_ref()
    }

    /// The way in which the filters are applied.
    pub fn get_algorithm(&self) -> (r: ConvAlgorithm)
        ensures
            r == self@.algorithm,
    {
        self.algorithm
    }

    /// The buffers of the frequencies, where there are any.
    pub fn get_fft(&self) -> (r: Option<FftBuffers>)
        ensures
            r == self@.fft,
    {
        self.fft
    }

    /// The largest batch that the layer takes.
    pub fn get_max_batch_size(&self) -> (r: usize)
        ensures
            r == self@.max_batch_size,
    {
        self.max_batch_size
    }

    /// The mask coefficient for dropout.
    pub fn get_mask_coeff(&self) -> (r: F32)
        ensures
            r == self@.config.mask_coeff,
    {
        self.mask_coeff
    }

    /// The normalisation.
    pub fn get_normalisation(&self) -> (r: &Normalisation)
        ensures
            *r == self@.config.normalisation,
    {
        &self.normalisation
    }

    /// The activation.
    pub fn get_activation(&self) -> (r: &Activation)
        ensures
            *r == self@.config.activation,
    {
        &self.activation
    }

    /// The regularisation.
    pub fn get_regularisation(&self) -> (r: &Regularisation)
        ensures
            *r == self@.config.regularisation,
    {
        &self.regularisation
    }

    /// Whether the layer can be trained.
    pub fn is_training_mode(&self) -> (r: bool)
        ensures
            r == self@.is_training,
    {
        self.is_training
    }

    /// Sets the mask coefficient for dropout.
    pub fn set_mask_coeff(&mut self, val: F32)
        ensures
            final(self)@ == (ConvView {
                config: LayerInitConfig { mask_coeff: val, ..old(self)@.config },
                ..old(self)@
            }),
    {
        self.mask_coeff = val;
    }

    /// Sets the activation.
    pub fn set_activation(&mut self, val: Activation)
        ensures
            final(self)@ == (ConvView {
                config: LayerInitConfig { activation: val, ..old(self)@.config },
                ..old(self)@
            }),
    {
        self.activation = val;
    }

    /// Sets the regularisation.
    pub fn set_regularisation(&mut self, val: Regularisation)
        ensures
            final(self)@ == (ConvView {
                config: LayerInitConfig { regularisation: val, ..old(self)@.config },
                ..old(self)@
            }),
    {
        self.regularisation = val;
    }

    /// Sets the type of pooling.
    ///
    /// Note: if no pooling configuration was specified, this function will have no effect.
    pub fn set_pooling_type(&mut self, pooling_type: PoolingType)
        ensures
            final(self)@ == if old(self)@.pooling is Some {
                ConvView { pooling_type: Some(pooling_type), ..old(self)@ }
            } else {
                old(self)@
            },
    {
        if self.pooling_cfg.is_some() {
            self.pooling_type = Some(pooling_type);
        }
    }

    /// Applies the filters by way of the frequencies from now on.
    ///
    /// # Arguments
    /// * `buffers` - Where the frequencies go, and the width and height of the transforms.
    pub fn use_fft(&mut self, buffers: FftBuffers)
        ensures
            final(self)@ == (ConvView {
                algorithm: ConvAlgorithm::FrequencyFFT,
                fft: Some(buffers),
                ..old(self)@
            }),
    {
        self.algorithm = ConvAlgorithm::FrequencyFFT;
        self.fft = Some(buffers);
    }

    /// Checks that an input suits the layer.
    fn check_input_dimension(&self, input: &Tensor4D<T>, batch_size: usize) -> (r: Result<
        (),
        Error,
    >)
        requires
            self.wf(),
            input.wf(),
        ensures
            refusal(r) == conv_input_refusal(self@, input@, batch_size),
    {
        if input.batches() < batch_size {
            return Err(
                Error::MismatchedDimensions {
                    reason: "forward input batches vs explicit batch size",
                    expected: batch_size,
                    found: input.batches(),
                },
            );
        }
        if input.batches() > self.max_batch_size {
            return Err(
                Error::AllocationLimitExceeded {
                    received: input.batches(),
                    max: self.max_batch_size,
                    reason: "input batches",
                },
            );
        }
        let expected_features: usize = self.filter_weights.channels();
        if input.channels() != expected_features {
            return Err(
                Error::MismatchedDimensions {
                    reason: "forward input channels mismatch",
                    expected: expected_features,
                    found: input.channels(),
                },
            );
        }
        let weight_width: usize = self.filter_weights.width();
        let weight_height: usize = self.filter_weights.height();
        if input.width() == 0 || input.width() < weight_width {
            return Err(
                Error::MismatchedDimensions {
                    reason: "forward input width is smaller than filter width or zero",
                    expected: weight_width,
                    found: input.width(),
                },
            );
        }
        if input.height() == 0 || input.height() < weight_height {
            return Err(
                Error::MismatchedDimensions {
                    reason: "forward input height is smaller than filter height or zero",
                    expected: weight_height,
                    found: input.height(),
                },
            );
        }
        if input.width() > self.max_input_dim.0 {
            return Err(
                Error::AllocationLimitExceeded {
                    received: input.width(),
                    max: self.max_input_dim.0,
                    reason: "input width",
                },
            );
        }
        if input.height() > self.max_input_dim.1 {
            return Err(
                Error::AllocationLimitExceeded {
                    received: input.height(),
                    max: self.max_input_dim.1,
                    reason: "input height",
                },
            );
        }
        if self.filter_cfg.get_pad() >= input.width() {
            return Err(
                Error::MismatchedDimensions {
                    reason: "forward input width is larger or equal to the padding size",
                    expected: self.filter_cfg.get_pad(),
                    found: input.width(),
                },
            );
        }
        if self.filter_cfg.get_pad() >= input.height() {
            return Err(
                Error::MismatchedDimensions {
                    reason: "forward input height is larger or equal to the padding size",
                    expected: self.filter_cfg.get_pad(),
                    found: input.height(),
                },
            );
        }
        Ok(())
    }

    /// Forward propagation. If the given input dimensions are smaller than the statically configured
    /// maximum input dimensions, the input tensor is padded with zeros starting from the
    /// top-left origin `(0,0)` to match the maximum boundaries before execution.
    ///
    /// # Arguments
    /// * `context` - GPU Context. See [`GpuContext`].
    /// * `input` - A [`Tensor4D<T>`] with size `(batch size, input features, input height, input
    ///   width)` representing the current input batch.
    /// * `batch_size` - Batch size of `input`. If the input rows exceed `batch_size`, only the
    ///   first `batch_size` rows will be considered.
    /// * `use_dropout` - Whether the forward pass is part of the training loop. If set to `false`,
    ///   the dropout feature will be bypassed.
    /// * `step` - The current training iteration step.
    ///
    /// # Returns
    /// A [`Tensor4D<T>`] reference to this tensor's `out`.
    ///
    /// # Errors
    /// This function will return an error if:
    /// * [`Error::MismatchedDimensions`] - The raw number of `input.batches()` is less than the
    ///   current execution `batch_size`, the input channels do not match the filter's input channels,
    ///   or the input spatial dimensions are smaller than the filter's kernel dimensions.
    /// * [`Error::AllocationLimitExceeded`] - The batch size exceeds the
    ///   statically configured `max_batch_size` limit assigned during layer creation, or the input
    ///   image dimensions exceed the configured maximum input width and height boundaries.
    /// * [`Error::InvalidConfiguration`] - The layer has an invalid activation method assigned (such
    ///   as `Softmax`, which must be handled directly via the unified `compute_loss` routine).
    /// * [`Error::InvalidBatchSize`] - The execution `batch_size` is evaluated as `0`, or evaluated
    ///   as `1` while `BatchNorm` is active (which triggers an internal division-by-zero or NaN
    ///   fault).
    /// * [`Error::IntConversion`] - A size does not fit in 32 bits.
    pub fn forward(
        &self,
        context: &mut GpuContext,
        input: &Tensor4D<T>,
        batch_size: usize,
        use_dropout: bool,
        step: usize,
    ) -> (r: Result<&Tensor4D<T>, Error>)
        requires
            old(context).wf(),
            self.wf(),
            input.wf(),
            conv_pass_refusal(self@, input@, batch_size) is None ==> {
                let full = full_input(old(context)@, self@, input@);
                &&& countable(full.shape)
                &&& conv_forward_ready(
                    old(context)@.tile_dim,
                    T::format(),
                    self@,
                    full,
                    use_dropout,
                    step,
                )
            },
        ensures
            final(context).wf(),
            (final(context)@, refusal(r)) == conv_forward_through(
                old(context)@,
                T::format(),
                self@,
                input@,
                batch_size,
                use_dropout,
                step,
            ),
            r matches Ok(features) ==> features@ == self@.cache.features,
    {
        self.check_input_dimension(input, batch_size)?;
        check_pass_config(self.activation, self.normalisation, batch_size)?;
        let (width, height) = self.max_input_dim;
        if input.width() == width && input.height() == height {
            context.gpu_conv_forward_pass(self, input, batch_size, use_dropout, step)?;
        } else {
            let ghost d = context@;
            let ghost shape = full_input(d, self@, input@).shape;
            let full: Tensor4D<T> = Tensor4D::zeros(
                context,
                &[input.batches(), input.channels(), height, width],
            )?;
            proof {
                assert(full@.shape =~= shape);
                lemma_volume_count(shape);
            }
            context.record(
                DeviceOp::Inset {
                    tensor: full.get_id(),
                    source: input.get_id(),
                    planes: input.batches() * input.channels(),
                    inner: (input.width(), input.height()),
                    outer: (width, height),
                },
            );
            let outcome = context.gpu_conv_forward_pass(self, &full, batch_size, use_dropout, step);
            full.free(context);
            outcome?;
        }
        Ok(&self.forward_cache.features)
    }
}

/// The tensors of a layer, one by one.
proof fn lemma_conv_tensors(b: ConvView)
    ensures
        ({
            let ts = conv_tensors(b);
            let last: int = if b.norm is Some {
                11
            } else {
                6
            };
            &&& ts.len() == last + 1
            &&& ts[0] == b.weights && ts[1] == b.biases
            &&& ts[2] == b.cache.features && ts[3] == b.cache.predrop_features
            &&& ts[4] == b.cache.prepooling_features && ts[5] == b.cache.preact_features
            &&& b.norm matches Some(c) ==> {
                &&& ts[6] == c.norm_weights && ts[7] == c.norm_biases
                &&& ts[8] == c.centered_features && ts[9] == c.prenorm_features
                &&& ts[10] == c.norm_rstd
            }
            &&& ts[last] == b.mask
        }),
{
}

impl<T: PrecisionType> ConvForwardCache<T> {
    /// Gives the buffers of the cache back.
    fn free(self, context: &mut GpuContext)
        requires
            old(context).wf(),
        ensures
            final(context).wf(),
            final(context)@ == old(context)@.then_run(conv_cache_frees(self@)),
    {
        self.features.free(context);
        self.predrop_features.free(context);
        self.prepooling_features.free(context);
        self.preact_features.free(context);
    }
}

impl<T: PrecisionType> ConvNormCache<T> {
    /// Gives the buffers of the cache back.
    fn free(self, context: &mut GpuContext)
        requires
            old(context).wf(),
        ensures
            final(context).wf(),
            final(context)@ == old(context)@.then_run(conv_norm_frees(self@)),
    {
        self.norm_weights.free(context);
        self.norm_biases.free(context);
        self.centered_features.free(context);
        self.prenorm_features.free(context);
        self.norm_rstd.free(context);
    }

    /// Whether kernels can count the elements of all tensors.
    fn is_countable_by_kernels(&self) -> (r: bool)
        requires
            self@.wf(),
        ensures
            r == (element_count(self@.norm_weights.shape) <= u32::MAX && element_count(
                self@.norm_biases.shape,
            ) <= u32::MAX && element_count(self@.centered_features.shape) <= u32::MAX
                && element_count(self@.prenorm_features.shape) <= u32::MAX && element_count(
                self@.norm_rstd.shape,
            ) <= u32::MAX),
    {
        self.norm_weights.is_countable_by_kernels() && self.norm_biases.is_countable_by_kernels()
            && self.centered_features.is_countable_by_kernels()
            && self.prenorm_features.is_countable_by_kernels()
            && self.norm_rstd.is_countable_by_kernels()
    }
}

impl<T: PrecisionType> ConvBlock<T> {
    /// Whether kernels can count the elements of all tensors.
    fn is_countable_by_kernels(&self) -> (r: bool)
        requires
            self.wf(),
        ensures
            r == (counting_refusal(conv_tensors(self@)) is None),
    {
        let ghost ts = conv_tensors(self@);
        proof {
            lemma_conv_tensors(self@);
        }
        let norm = match &self.norm_cache {
            Some(c) => c.is_countable_by_kernels(),
            None => true,
        };
        let all = self.filter_weights.is_countable_by_kernels()
            && self.filter_biases.is_countable_by_kernels()
            && self.forward_cache.features.is_countable_by_kernels()
            && self.forward_cache.predrop_features.is_countable_by_kernels()
            && self.forward_cache.prepooling_features.is_countable_by_kernels()
            && self.forward_cache.preact_features.is_countable_by_kernels() && norm
            && self.mask.is_countable_by_kernels();
        proof {
            if all {
                assert forall|i: int| 0 <= i < ts.len() implies element_count(
                    (#[trigger] ts[i]).shape,
                ) <= u32::MAX by {
                    if self@.norm is Some {
                        assert(i == 0 || i == 1 || i == 2 || i == 3 || i == 4 || i == 5 || i == 6
                            || i == 7 || i == 8 || i == 9 || i == 10 || i == 11);
                    } else {
                        assert(i == 0 || i == 1 || i == 2 || i == 3 || i == 4 || i == 5 || i == 6);
                    }
                }
            }
        }
        all
    }

    /// Gives the buffers of the layer back.
    fn free(self, context: &mut GpuContext)
        requires
            old(context).wf(),
        ensures
            final(context).wf(),
            final(context)@ == old(context)@.then_run(conv_frees(self@)),
    {
        broadcast use lemma_then_run;

        self.forward_cache.free(context);
        self.filter_weights.free(context);
        self.filter_biases.free(context);
        if let Some(c) = self.norm_cache {
            c.free(context);
        } else {
            assert(context@.then_run(seq![]) == context@);
        }
        self.mask.free(context);
    }

    /// Casts all tensors.
    fn cast<U: PrecisionType>(self, context: &mut GpuContext) -> (r: Result<ConvBlock<U>, Error>)
        requires
            old(context).wf(),
            self.wf(),
            T::format() != U::format(),
            counting_refusal(conv_tensors(self@)) is None ==> forall|i: int|
                0 <= i < conv_tensors(self@).len() ==> castable(
                    #[trigger] conv_tensors(self@)[i],
                    old(context)@.tile_dim,
                ),
        ensures
            final(context).wf(),
            refusal(r) == counting_refusal(conv_tensors(self@)),
            r is Err ==> final(context)@ == old(context)@.then_run(conv_frees(self@)),
            r matches Ok(b) ==> b.wf() && (final(context)@, b@) == cast_conv(
                old(context)@,
                T::format(),
                U::format(),
                self@,
            ),
    {
        broadcast use lemma_cast_keeps_tile;

        if !self.is_countable_by_kernels() {
            self.free(context);
            return Err(Error::IntConversion);
        }
        let ghost d = context@;
        let ghost ts = conv_tensors(self@);
        let ghost mask_place: int = if self@.norm is Some {
            11
        } else {
            6
        };
        proof {
            lemma_conv_tensors(self@);
            assert(ts.take(0).len() == 0);
        }
        let filter_weights = push_cast(context, self.filter_weights, Ghost(d), Ghost(ts), Ghost(0))?;
        let filter_biases = push_cast(context, self.filter_biases, Ghost(d), Ghost(ts), Ghost(1))?;
        let features = push_cast(
            context,
            self.forward_cache.features,
            Ghost(d),
            Ghost(ts),
            Ghost(2),
        )?;
        let predrop_features = push_cast(
            context,
            self.forward_cache.predrop_features,
            Ghost(d),
            Ghost(ts),
            Ghost(3),
        )?;
        let prepooling_features = push_cast(
            context,
            self.forward_cache.prepooling_features,
            Ghost(d),
            Ghost(ts),
            Ghost(4),
        )?;
        let preact_features = push_cast(
            context,
            self.forward_cache.preact_features,
            Ghost(d),
            Ghost(ts),
            Ghost(5),
        )?;
        let norm_cache: Option<ConvNormCache<U>> = match self.norm_cache {
            Some(c) => {
                let norm_weights = push_cast(
                    context,
                    c.norm_weights,
                    Ghost(d),
                    Ghost(ts),
                    Ghost(6),
                )?;
                let norm_biases = push_cast(
                    context,
                    c.norm_biases,
                    Ghost(d),
                    Ghost(ts),
                    Ghost(7),
                )?;
                let centered_features = push_cast(
                    context,
                    c.centered_features,
                    Ghost(d),
                    Ghost(ts),
                    Ghost(8),
                )?;
                let prenorm_features = push_cast(
                    context,
                    c.prenorm_features,
                    Ghost(d),
                    Ghost(ts),
                    Ghost(9),
                )?;
                let norm_rstd = push_cast(context, c.norm_rstd, Ghost(d), Ghost(ts), Ghost(10))?;
                Some(
                    ConvNormCache {
                        norm_weights,
                        norm_biases,
                        centered_features,
                        prenorm_features,
                        norm_rstd,
                    },
                )
            },
            None => None,
        };
        let mask = push_cast(context, self.mask, Ghost(d), Ghost(ts), Ghost(mask_place))?;
        assert(ts.take(mask_place + 1) == ts);
        Ok(
            ConvBlock::<U> {
                forward_cache: ConvForwardCache {
                    features,
                    predrop_features,
                    prepooling_features,
                    preact_features,
                },
                filter_weights,
                filter_biases,
                filter_cfg: self.filter_cfg,
                pooling_cfg: self.pooling_cfg,
                pooling_type: self.pooling_type,
                norm_cache,
                mask,
                max_batch_size: self.max_batch_size,
                max_input_dim: self.max_input_dim,
                is_training: self.is_training,
                normalisation: self.normalisation,
                activation: self.activation,
                regularisation: self.regularisation,
                mask_coeff: self.mask_coeff,
                algorithm: self.algorithm,
                fft: self.fft,
            },
        )
    }
}

impl ConvBlock<F32> {
    /// Converts the tensors of the layer to half precision.
    ///
    /// # Errors
    /// Returns an [`Error`] if a tensor has more elements than a kernel can count. The layer is
    /// given back then.
    pub fn convert_f16(self, context: &mut GpuContext) -> (r: Result<ConvBlock<F16>, Error>)
        requires
            old(context).wf(),
            self.wf(),
            counting_refusal(conv_tensors(self@)) is None ==> forall|i: int|
                0 <= i < conv_tensors(self@).len() ==> castable(
                    #[trigger] conv_tensors(self@)[i],
                    old(context)@.tile_dim,
                ),
        ensures
            final(context).wf(),
            refusal(r) == counting_refusal(conv_tensors(self@)),
            r is Err ==> final(context)@ == old(context)@.then_run(conv_frees(self@)),
            r matches Ok(b) ==> b.wf() && (final(context)@, b@) == cast_conv(
                old(context)@,
                Precision::FP32,
                Precision::FP16,
                self@,
            ),
    {
        self.cast::<F16>(context)
    }
}

impl ConvBlock<F16> {
    /// Converts the tensors of the layer to full precision.
    ///
    /// # Errors
    /// Returns an [`Error`] if a tensor has more elements than a kernel can count. The layer is
    /// given back then.
    pub fn convert_f32(self, context: &mut GpuContext) -> (r: Result<ConvBlock<F32>, Error>)
        requires
            old(context).wf(),
            self.wf(),
            counting_refusal(conv_tensors(self@)) is None ==> forall|i: int|
                0 <= i < conv_tensors(self@).len() ==> castable(
                    #[trigger] conv_tensors(self@)[i],
                    old(context)@.tile_dim,
                ),
        ensures
            final(context).wf(),
            refusal(r) == counting_refusal(conv_tensors(self@)),
            r is Err ==> final(context)@ == old(context)@.then_run(conv_frees(self@)),
            r matches Ok(b) ==> b.wf() && (final(context)@, b@) == cast_conv(
                old(context)@,
                Precision::FP16,
                Precision::FP32,
                self@,
            ),
    {
        self.cast::<F32>(context)
    }
}

/// A layer was made from a plan, or refused: the weights are drawn before the windows are looked at.
pub open spec fn conv_made<T: PrecisionType, I: InitFunc>(
    plan: ConvPlan,
    before: DeviceView,
    after: DeviceView,
    init: I,
    init_after: I,
    pooling_type: Option<PoolingType>,
    config: LayerInitConfig,
    is_training: bool,
    r: Result<ConvBlock<T>, Error>,
) -> bool {
    let fan_in = plan.fan_in() as usize;
    let fan_out = plan.fan_out() as usize;
    let len = (plan.out_channels * plan.fan_in()) as usize;
    if plan.size_refusal() is Some {
        &&& refusal(r) == plan.size_refusal()
        &&& after == before
        &&& init_after == init
    } else if plan.window_refusal() is Some {
        &&& refusal(r) == plan.window_refusal()
        &&& after == before
        &&& init_after == init.advanced(fan_in, fan_out, len)
    } else {
        let recipes = plan.recipes(
            T::format(),
            HostView::Drawn(init.draws(fan_in, fan_out, len)),
            config.normalisation,
        );
        &&& init_after == init.advanced(fan_in, fan_out, len)
        &&& settled(before, made_all(before, recipes)) == (after, refusal(r))
        &&& r matches Ok(b) ==> b.wf() && b@ == plan.layer(
            before,
            recipes,
            pooling_type,
            config,
            is_training,
        )
    }
}

} // verus!
