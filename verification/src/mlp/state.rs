//! The tensors of a dense layer: its weights and biases, and what it keeps of a forward pass.

use vstd::prelude::*;

use crate::io::device::{
    lemma_then_run, settled, tile_area, tileable, DeviceView, GpuContext, HostNumbers, HostView,
    OpView,
};
use crate::util::log::{refusal, Error, ErrorView};
use crate::util::precision::{
    Precision, PrecisionType, F16, F32, ONE_IN_16_BITS, ONE_IN_32_BITS,
};
use crate::util::tensor::{
    cast_all, cast_outcome, cast_tensor, castable, copied, countable, element_count, free_ops,
    lemma_cast_keeps_tile, lemma_countable, lemma_line_count, lemma_made_all,
    lemma_made_keeps_tile, lemma_made_none, lemma_plane_count, made_all, made_tensor, next_like,
    push_cast, push_delta, push_fill, push_host, push_zeros, under_way, Fill, Recipe, Tensor1D,
    Tensor2D, TensorView,
};

verus! {

/// The bit pattern of `1.0`.
pub open spec fn one_pattern(precision: Precision) -> u32 {
    match precision {
        Precision::FP32 => ONE_IN_32_BITS,
        Precision::FP16 => ONE_IN_16_BITS as u32,
    }
}

/// What a tensor that may be missing stands for.
pub open spec fn optional_view<T: PrecisionType>(t: Option<Tensor2D<T>>) -> Option<TensorView> {
    match t {
        Some(x) => Some(x@),
        None => None,
    }
}

/// What a borrowed tensor that may be missing stands for.
pub open spec fn borrowed_view<T: PrecisionType>(t: Option<&Tensor2D<T>>) -> Option<TensorView> {
    match t {
        Some(x) => Some(x@),
        None => None,
    }
}

/// A tensor that may be missing has `axes` axes, and the number of its elements can be worked out.
pub open spec fn optional_ok(t: Option<TensorView>, axes: nat) -> bool {
    t matches Some(x) ==> x.ok(axes)
}

/// The weights and biases of a layer, with what an optimiser keeps about them.
#[derive(Debug)]
pub struct ParamState<T: PrecisionType> {
    pub w: Tensor2D<T>,
    pub b: Tensor2D<T>,
    pub master_w: Option<Tensor2D<F32>>,
    pub master_b: Option<Tensor2D<F32>>,
    pub dv_w: Option<Tensor2D<F32>>,
    pub dv_b: Option<Tensor2D<F32>>,
    pub dm_w: Option<Tensor2D<F32>>,
    pub dm_b: Option<Tensor2D<F32>>,
}

/// What a [`ParamState`] stands for.
pub struct ParamView {
    pub w: TensorView,
    pub b: TensorView,
    pub master_w: Option<TensorView>,
    pub master_b: Option<TensorView>,
    pub dv_w: Option<TensorView>,
    pub dv_b: Option<TensorView>,
    pub dm_w: Option<TensorView>,
    pub dm_b: Option<TensorView>,
}

impl<T: PrecisionType> View for ParamState<T> {
    type V = ParamView;

    open spec fn view(&self) -> ParamView {
        ParamView {
            w: self.w@,
            b: self.b@,
            master_w: optional_view(self.master_w),
            master_b: optional_view(self.master_b),
            dv_w: optional_view(self.dv_w),
            dv_b: optional_view(self.dv_b),
            dm_w: optional_view(self.dm_w),
            dm_b: optional_view(self.dm_b),
        }
    }
}

impl ParamView {
    /// Every tensor has rows and columns.
    pub open spec fn wf(self) -> bool {
        &&& self.w.ok(2)
        &&& self.b.ok(2)
        &&& optional_ok(self.master_w, 2)
        &&& optional_ok(self.master_b, 2)
        &&& optional_ok(self.dv_w, 2)
        &&& optional_ok(self.dv_b, 2)
        &&& optional_ok(self.dm_w, 2)
        &&& optional_ok(self.dm_b, 2)
    }

    /// Everything that an optimiser needs is there.
    pub open spec fn trainable(self) -> bool {
        self.dv_w is Some && self.dv_b is Some && self.dm_w is Some && self.dm_b is Some
    }

    /// The optimiser's tensors that are there have the shape of what they belong to.
    pub open spec fn consistent(self) -> bool {
        &&& self.dv_w matches Some(t) ==> t.shape == self.w.shape
        &&& self.dm_w matches Some(t) ==> t.shape == self.w.shape
        &&& self.dv_b matches Some(t) ==> t.shape == self.b.shape
        &&& self.dm_b matches Some(t) ==> t.shape == self.b.shape
    }
}

/// Why the shape of an optimiser's tensor is refused. The rows are looked at first.
pub open spec fn shape_refusal(
    of: TensorView,
    found: Option<TensorView>,
    rows_reason: Seq<char>,
    cols_reason: Seq<char>,
) -> Option<ErrorView> {
    match found {
        None => None,
        Some(t) => if of.shape[0] != t.shape[0] {
            Some(
                ErrorView::MismatchedDimensions {
                    reason: rows_reason,
                    expected: of.shape[0],
                    found: t.shape[0],
                },
            )
        } else if of.shape[1] != t.shape[1] {
            Some(
                ErrorView::MismatchedDimensions {
                    reason: cols_reason,
                    expected: of.shape[1],
                    found: t.shape[1],
                },
            )
        } else {
            None
        },
    }
}

/// The first of two reasons.
pub open spec fn first_refusal(a: Option<ErrorView>, b: Option<ErrorView>) -> Option<ErrorView> {
    if a is Some {
        a
    } else {
        b
    }
}

/// Why the tensors of a state do not belong together.
pub open spec fn state_refusal(p: ParamView) -> Option<ErrorView> {
    first_refusal(
        shape_refusal(
            p.w,
            p.dv_w,
            "optimizer state weight vs dv_w rows"@,
            "optimizer state weight vs dv_w columns"@,
        ),
        first_refusal(
            shape_refusal(
                p.w,
                p.dm_w,
                "optimizer state weight vs dm_w rows"@,
                "optimizer state weight vs dm_w columns"@,
            ),
            first_refusal(
                shape_refusal(
                    p.b,
                    p.dv_b,
                    "optimizer state bias vs dv_b rows"@,
                    "optimizer state bias vs dv_b columns"@,
                ),
                shape_refusal(
                    p.b,
                    p.dm_b,
                    "optimizer state bias vs dm_b rows"@,
                    "optimizer state bias vs dm_b columns"@,
                ),
            ),
        ),
    )
}

/// A state is refused exactly if a tensor of its optimiser has another shape than what it belongs
/// to.
pub proof fn law_state_refused_iff_inconsistent(p: ParamView)
    requires
        p.wf(),
    ensures
        state_refusal(p) is None <==> p.consistent(),
{
    if state_refusal(p) is None {
        assert(p.dv_w matches Some(t) ==> t.shape =~= p.w.shape);
        assert(p.dm_w matches Some(t) ==> t.shape =~= p.w.shape);
        assert(p.dv_b matches Some(t) ==> t.shape =~= p.b.shape);
        assert(p.dm_b matches Some(t) ==> t.shape =~= p.b.shape);
    }
}

/// A tensor of zeros in 32 bits.
pub open spec fn delta_recipe(shape: Seq<usize>) -> Recipe {
    Recipe { shape, precision: Precision::FP32, fill: Fill::Zeros }
}

/// The tensors that an optimiser needs.
pub open spec fn delta_recipes(
    w_shape: Seq<usize>,
    b_shape: Seq<usize>,
    is_training: bool,
) -> Seq<Recipe> {
    if is_training {
        seq![
            delta_recipe(w_shape),
            delta_recipe(b_shape),
            delta_recipe(w_shape),
            delta_recipe(b_shape),
        ]
    } else {
        seq![]
    }
}

/// The tensors of linear weights and biases: the weights from the host, the biases zero, in half
/// precision a copy of both in 32 bits, and in training those of the optimiser.
pub open spec fn linear_recipes(
    precision: Precision,
    weights: HostView,
    w_shape: Seq<usize>,
    b_shape: Seq<usize>,
    is_training: bool,
) -> Seq<Recipe> {
    seq![
        Recipe {
            shape: w_shape,
            precision,
            fill: Fill::Host { held: precision, numbers: weights },
        },
        Recipe { shape: b_shape, precision, fill: Fill::Zeros },
    ] + (match precision {
        Precision::FP32 => seq![],
        Precision::FP16 => seq![
            Recipe {
                shape: w_shape,
                precision: Precision::FP32,
                fill: Fill::Host { held: precision, numbers: weights },
            },
            delta_recipe(b_shape),
        ],
    }) + delta_recipes(w_shape, b_shape, is_training)
}

/// The tensors of the weights and biases of a normalisation: the weights one, the biases zero, in
/// half precision a copy of both in 32 bits, and in training those of the optimiser.
pub open spec fn norm_recipes(precision: Precision, shape: Seq<usize>, is_training: bool) -> Seq<
    Recipe,
> {
    seq![
        Recipe { shape, precision, fill: Fill::Constant(one_pattern(precision)) },
        Recipe { shape, precision, fill: Fill::Zeros },
    ] + (match precision {
        Precision::FP32 => seq![],
        Precision::FP16 => seq![
            Recipe {
                shape,
                precision: Precision::FP32,
                fill: Fill::Constant(one_pattern(Precision::FP32)),
            },
            delta_recipe(shape),
        ],
    }) + delta_recipes(shape, shape, is_training)
}

/// The state whose tensors are made by a list of recipes.
pub open spec fn made_state(
    d: DeviceView,
    recipes: Seq<Recipe>,
    precision: Precision,
    is_training: bool,
) -> ParamView {
    let half = precision == Precision::FP16;
    let deltas: int = if half {
        4
    } else {
        2
    };
    ParamView {
        w: made_tensor(d, recipes, 0),
        b: made_tensor(d, recipes, 1),
        master_w: if half {
            Some(made_tensor(d, recipes, 2))
        } else {
            None
        },
        master_b: if half {
            Some(made_tensor(d, recipes, 3))
        } else {
            None
        },
        dv_w: if is_training {
            Some(made_tensor(d, recipes, deltas))
        } else {
            None
        },
        dv_b: if is_training {
            Some(made_tensor(d, recipes, deltas + 1))
        } else {
            None
        },
        dm_w: if is_training {
            Some(made_tensor(d, recipes, deltas + 2))
        } else {
            None
        },
        dm_b: if is_training {
            Some(made_tensor(d, recipes, deltas + 3))
        } else {
            None
        },
    }
}

/// The tensors of a new linear state belong together.
pub(crate) proof fn lemma_linear_is_consistent(
    d: DeviceView,
    precision: Precision,
    weights: HostView,
    w_shape: Seq<usize>,
    b_shape: Seq<usize>,
    is_training: bool,
)
    ensures
        ({
            let recipes = linear_recipes(precision, weights, w_shape, b_shape, is_training);
            let state = made_state(d, recipes, precision, is_training);
            state.consistent() && state.w.shape == w_shape
        }),
{
}

/// The tensors of a new state of a normalisation belong together.
pub(crate) proof fn lemma_norm_is_consistent(
    d: DeviceView,
    precision: Precision,
    shape: Seq<usize>,
    is_training: bool,
)
    ensures
        made_state(
            d,
            norm_recipes(precision, shape, is_training),
            precision,
            is_training,
        ).consistent(),
{
}

impl<T: PrecisionType> ParamState<T> {
    /// Every tensor has rows and columns.
    pub open spec fn wf(&self) -> bool {
        self@.wf()
    }

    /// Returns true if everything that an optimiser needs is there.
    pub(crate) fn is_trainable(&self) -> (r: bool)
        ensures
            r == self@.trainable(),
    {
        self.dv_w.is_some() && self.dv_b.is_some() && self.dm_w.is_some() && self.dm_b.is_some()
    }

    /// The state of linear weights and biases.
    pub fn new_linear(
        context: &mut GpuContext,
        weights: &HostNumbers,
        w_shape: &[usize; 2],
        b_shape: &[usize; 2],
        is_training: bool,
    ) -> (r: Result<Self, Error>)
        requires
            old(context).wf(),
            countable(w_shape@),
            countable(b_shape@),
        ensures
            final(context).wf(),
            ({
                let recipes = linear_recipes(
                    T::format(),
                    weights@,
                    w_shape@,
                    b_shape@,
                    is_training,
                );
                &&& settled(old(context)@, made_all(old(context)@, recipes)) == (
                    final(context)@,
                    refusal(r),
                )
                &&& r matches Ok(p) ==> p.wf() && p@ == made_state(
                    old(context)@,
                    recipes,
                    T::format(),
                    is_training,
                )
            }),
    {
        let first: usize = context.get_next_id();
        let r = Self::make_linear(context, weights, w_shape, b_shape, is_training);
        if r.is_err() {
            context.give_back(first);
        }
        r
    }

    /// Makes the state of linear weights and biases. Where that is refused, what was made is left to
    /// the caller.
    pub(crate) fn make_linear(
        context: &mut GpuContext,
        weights: &HostNumbers,
        w_shape: &[usize; 2],
        b_shape: &[usize; 2],
        is_training: bool,
    ) -> (r: Result<Self, Error>)
        requires
            old(context).wf(),
            countable(w_shape@),
            countable(b_shape@),
        ensures
            final(context).wf(),
            ({
                let recipes = linear_recipes(
                    T::format(),
                    weights@,
                    w_shape@,
                    b_shape@,
                    is_training,
                );
                &&& made_all(old(context)@, recipes) == (final(context)@, refusal(r))
                &&& r matches Ok(p) ==> p.wf() && p@ == made_state(
                    old(context)@,
                    recipes,
                    T::format(),
                    is_training,
                )
            }),
    {
        let ghost d = context@;
        let ghost recipes = linear_recipes(T::format(), weights@, w_shape@, b_shape@, is_training);
        let ghost deltas: int = if T::format() == Precision::FP16 {
            4
        } else {
            2
        };
        proof {
            lemma_made_none(d, recipes);
        }
        let w: Tensor2D<T> = push_host(
            context,
            weights.duplicate(),
            T::precision(),
            w_shape,
            Ghost(d),
            Ghost(recipes),
            Ghost(0),
        )?;
        let b: Tensor2D<T> = push_zeros(context, b_shape, Ghost(d), Ghost(recipes), Ghost(1))?;
        let mut master_w: Option<Tensor2D<F32>> = None;
        let mut master_b: Option<Tensor2D<F32>> = None;
        if T::precision() == Precision::FP16 {
            let copy: Tensor2D<F32> = push_host(
                context,
                weights.duplicate(),
                T::precision(),
                w_shape,
                Ghost(d),
                Ghost(recipes),
                Ghost(2),
            )?;
            master_w = Some(copy);
            let copy: Tensor2D<F32> = push_zeros(
                context,
                b_shape,
                Ghost(d),
                Ghost(recipes),
                Ghost(3),
            )?;
            master_b = Some(copy);
        }
        let dv_w = push_delta(context, is_training, w_shape, Ghost(d), Ghost(recipes), Ghost(deltas))?;
        let dv_b = push_delta(
            context,
            is_training,
            b_shape,
            Ghost(d),
            Ghost(recipes),
            Ghost(if is_training { deltas + 1 } else { deltas }),
        )?;
        let dm_w = push_delta(
            context,
            is_training,
            w_shape,
            Ghost(d),
            Ghost(recipes),
            Ghost(if is_training { deltas + 2 } else { deltas }),
        )?;
        let dm_b = push_delta(
            context,
            is_training,
            b_shape,
            Ghost(d),
            Ghost(recipes),
            Ghost(if is_training { deltas + 3 } else { deltas }),
        )?;
        proof {
            lemma_made_all(d, recipes, context@);
        }
        Ok(Self { w, b, master_w, master_b, dv_w, dv_b, dm_w, dm_b })
    }

    /// The state of the weights and biases of a normalisation.
    pub fn new_norm(context: &mut GpuContext, shape: &[usize; 2], is_training: bool) -> (r: Result<
        Self,
        Error,
    >)
        requires
            old(context).wf(),
            countable(shape@),
            tileable(element_count(shape@) as int, tile_area(old(context)@.tile_dim)),
        ensures
            final(context).wf(),
            ({
                let recipes = norm_recipes(T::format(), shape@, is_training);
                &&& settled(old(context)@, made_all(old(context)@, recipes)) == (
                    final(context)@,
                    refusal(r),
                )
                &&& r matches Ok(p) ==> p.wf() && p@ == made_state(
                    old(context)@,
                    recipes,
                    T::format(),
                    is_training,
                )
            }),
    {
        let first: usize = context.get_next_id();
        let r = Self::make_norm(context, shape, is_training);
        if r.is_err() {
            context.give_back(first);
        }
        r
    }

    /// Makes the state of the weights and biases of a normalisation. Where that is refused, what was
    /// made is left to the caller.
    pub(crate) fn make_norm(
        context: &mut GpuContext,
        shape: &[usize; 2],
        is_training: bool,
    ) -> (r: Result<Self, Error>)
        requires
            old(context).wf(),
            countable(shape@),
            tileable(element_count(shape@) as int, tile_area(old(context)@.tile_dim)),
        ensures
            final(context).wf(),
            ({
                let recipes = norm_recipes(T::format(), shape@, is_training);
                &&& made_all(old(context)@, recipes) == (final(context)@, refusal(r))
                &&& r matches Ok(p) ==> p.wf() && p@ == made_state(
                    old(context)@,
                    recipes,
                    T::format(),
                    is_training,
                )
            }),
    {
        broadcast use lemma_made_keeps_tile;

        let ghost d = context@;
        let ghost recipes = norm_recipes(T::format(), shape@, is_training);
        let ghost deltas: int = if T::format() == Precision::FP16 {
            4
        } else {
            2
        };
        proof {
            lemma_made_none(d, recipes);
        }
        let w: Tensor2D<T> = push_fill(
            context,
            shape,
            T::one(),
            Ghost(d),
            Ghost(recipes),
            Ghost(0),
        )?;
        let b: Tensor2D<T> = push_zeros(context, shape, Ghost(d), Ghost(recipes), Ghost(1))?;
        let mut master_w: Option<Tensor2D<F32>> = None;
        let mut master_b: Option<Tensor2D<F32>> = None;
        if T::precision() == Precision::FP16 {
            let copy: Tensor2D<F32> = push_fill(
                context,
                shape,
                F32::one(),
                Ghost(d),
                Ghost(recipes),
                Ghost(2),
            )?;
            master_w = Some(copy);
            let copy: Tensor2D<F32> = push_zeros(
                context,
                shape,
                Ghost(d),
                Ghost(recipes),
                Ghost(3),
            )?;
            master_b = Some(copy);
        }
        let dv_w = push_delta(context, is_training, shape, Ghost(d), Ghost(recipes), Ghost(deltas))?;
        let dv_b = push_delta(
            context,
            is_training,
            shape,
            Ghost(d),
            Ghost(recipes),
            Ghost(if is_training { deltas + 1 } else { deltas }),
        )?;
        let dm_w = push_delta(
            context,
            is_training,
            shape,
            Ghost(d),
            Ghost(recipes),
            Ghost(if is_training { deltas + 2 } else { deltas }),
        )?;
        let dm_b = push_delta(
            context,
            is_training,
            shape,
            Ghost(d),
            Ghost(recipes),
            Ghost(if is_training { deltas + 3 } else { deltas }),
        )?;
        proof {
            lemma_made_all(d, recipes, context@);
        }
        Ok(Self { w, b, master_w, master_b, dv_w, dv_b, dm_w, dm_b })
    }

    /// Checks that the tensors of the optimiser have the shape of what they belong to.
    ///
    /// # Errors
    /// Names the first tensor that does not.
    pub fn validate(&self) -> (r: Result<(), Error>)
        requires
            self.wf(),
        ensures
            refusal(r) == state_refusal(self@),
    {
        check_shape(
            &self.w,
            &self.dv_w,
            "optimizer state weight vs dv_w rows",
            "optimizer state weight vs dv_w columns",
        )?;
        check_shape(
            &self.w,
            &self.dm_w,
            "optimizer state weight vs dm_w rows",
            "optimizer state weight vs dm_w columns",
        )?;
        check_shape(
            &self.b,
            &self.dv_b,
            "optimizer state bias vs dv_b rows",
            "optimizer state bias vs dv_b columns",
        )?;
        check_shape(
            &self.b,
            &self.dm_b,
            "optimizer state bias vs dm_b rows",
            "optimizer state bias vs dm_b columns",
        )
    }
}

/// Checks that an optimiser's tensor that is there has the shape of what it belongs to.
fn check_shape<T: PrecisionType>(
    of: &Tensor2D<T>,
    found: &Option<Tensor2D<F32>>,
    rows_reason: &'static str,
    cols_reason: &'static str,
) -> (r: Result<(), Error>)
    requires
        of.wf(),
        optional_ok(optional_view(*found), 2),
    ensures
        refusal(r) == shape_refusal(of@, optional_view(*found), rows_reason@, cols_reason@),
{
    if let Some(t) = found {
        if of.rows() != t.rows() {
            return Err(
                Error::MismatchedDimensions {
                    reason: rows_reason,
                    expected: of.rows(),
                    found: t.rows(),
                },
            );
        }
        if of.cols() != t.cols() {
            return Err(
                Error::MismatchedDimensions {
                    reason: cols_reason,
                    expected: of.cols(),
                    found: t.cols(),
                },
            );
        }
    }
    Ok(())
}

/// What a layer keeps of its last forward pass.
#[derive(Debug)]
pub struct ForwardCache<T: PrecisionType> {
    pub out: Tensor2D<T>,
    pub predrop_out: Tensor2D<T>,
    pub preact_out: Tensor2D<T>,
    pub centered_out: Tensor2D<T>,
    pub prenorm_out: Tensor2D<T>,
    pub norm_rstd: Tensor1D<T>,
}

/// What a [`ForwardCache`] stands for.
pub struct CacheView {
    pub out: TensorView,
    pub predrop_out: TensorView,
    pub preact_out: TensorView,
    pub centered_out: TensorView,
    pub prenorm_out: TensorView,
    pub norm_rstd: TensorView,
}

impl<T: PrecisionType> View for ForwardCache<T> {
    type V = CacheView;

    open spec fn view(&self) -> CacheView {
        CacheView {
            out: self.out@,
            predrop_out: self.predrop_out@,
            preact_out: self.preact_out@,
            centered_out: self.centered_out@,
            prenorm_out: self.prenorm_out@,
            norm_rstd: self.norm_rstd@,
        }
    }
}

impl CacheView {
    /// Every tensor has its axes.
    pub open spec fn wf(self) -> bool {
        &&& self.out.ok(2)
        &&& self.predrop_out.ok(2)
        &&& self.preact_out.ok(2)
        &&& self.centered_out.ok(2)
        &&& self.prenorm_out.ok(2)
        &&& self.norm_rstd.ok(1)
    }
}

/// The larger one of two sizes.
pub open spec fn larger(a: usize, b: usize) -> usize {
    if a > b {
        a
    } else {
        b
    }
}

/// The tensors of a forward cache.
pub open spec fn cache_recipes(precision: Precision, max_batch_size: usize, outputs: usize) -> Seq<
    Recipe,
> {
    let batch = Recipe { shape: seq![max_batch_size, outputs], precision, fill: Fill::Zeros };
    seq![
        batch,
        batch,
        batch,
        batch,
        batch,
        Recipe { shape: seq![larger(max_batch_size, outputs)], precision, fill: Fill::Zeros },
    ]
}

/// The cache whose tensors are made by the first six recipes of a list.
pub open spec fn made_cache(d: DeviceView, recipes: Seq<Recipe>) -> CacheView {
    CacheView {
        out: made_tensor(d, recipes, 0),
        predrop_out: made_tensor(d, recipes, 1),
        preact_out: made_tensor(d, recipes, 2),
        centered_out: made_tensor(d, recipes, 3),
        prenorm_out: made_tensor(d, recipes, 4),
        norm_rstd: made_tensor(d, recipes, 5),
    }
}

impl<T: PrecisionType> ForwardCache<T> {
    /// The cache of a layer, as the first six tensors of a list of recipes.
    pub(crate) fn new(
        context: &mut GpuContext,
        max_batch_size: usize,
        outputs: usize,
        Ghost(d): Ghost<DeviceView>,
        Ghost(recipes): Ghost<Seq<Recipe>>,
    ) -> (r: Result<Self, Error>)
        requires
            old(context).wf(),
            max_batch_size * outputs <= usize::MAX,
            under_way(d, recipes, 0, old(context)@),
            6 <= recipes.len(),
            recipes.take(6) == cache_recipes(T::format(), max_batch_size, outputs),
        ensures
            final(context).wf(),
            under_way(d, recipes, 6, final(context)@),
            r matches Ok(c) && c@.wf() && c@ == made_cache(d, recipes),
    {
        let shape: [usize; 2] = [max_batch_size, outputs];
        let line: [usize; 1] = [if max_batch_size > outputs { max_batch_size } else { outputs }];
        proof {
            lemma_plane_count(shape@);
            lemma_line_count(line@);
            let own = cache_recipes(T::format(), max_batch_size, outputs);
            assert(shape@ == seq![max_batch_size, outputs]);
            assert(line@ == seq![larger(max_batch_size, outputs)]);
            assert forall|k: int| 0 <= k < 6 implies #[trigger] recipes[k] == own[k] by {
                assert(recipes.take(6)[k] == own[k]);
            }
        }
        let out = push_zeros(context, &shape, Ghost(d), Ghost(recipes), Ghost(0))?;
        let predrop_out = push_zeros(context, &shape, Ghost(d), Ghost(recipes), Ghost(1))?;
        let preact_out = push_zeros(context, &shape, Ghost(d), Ghost(recipes), Ghost(2))?;
        let centered_out = push_zeros(context, &shape, Ghost(d), Ghost(recipes), Ghost(3))?;
        let prenorm_out = push_zeros(context, &shape, Ghost(d), Ghost(recipes), Ghost(4))?;
        let norm_rstd = push_zeros(context, &line, Ghost(d), Ghost(recipes), Ghost(5))?;
        Ok(Self { out, predrop_out, preact_out, centered_out, prenorm_out, norm_rstd })
    }
}

/// The buffer of a tensor that may be missing is given back.
pub open spec fn optional_free(t: Option<TensorView>) -> Seq<OpView> {
    match t {
        Some(x) => free_ops(x),
        None => seq![],
    }
}

/// Gives the buffer of a tensor that may be missing back.
pub(crate) fn free_optional(t: Option<Tensor2D<F32>>, context: &mut GpuContext)
    requires
        old(context).wf(),
    ensures
        final(context).wf(),
        final(context)@ == old(context)@.then_run(optional_free(optional_view(t))),
{
    if let Some(x) = t {
        x.free(context);
    }
}

/// The buffers of a state are given back.
pub open spec fn state_frees(p: ParamView) -> Seq<OpView> {
    free_ops(p.w) + free_ops(p.b) + optional_free(p.master_w) + optional_free(p.master_b)
        + optional_free(p.dv_w) + optional_free(p.dv_b) + optional_free(p.dm_w) + optional_free(
        p.dm_b,
    )
}

/// The buffers of a cache are given back.
pub open spec fn cache_frees(c: CacheView) -> Seq<OpView> {
    free_ops(c.out) + free_ops(c.predrop_out) + free_ops(c.preact_out) + free_ops(c.centered_out)
        + free_ops(c.prenorm_out) + free_ops(c.norm_rstd)
}

/// The device once a state in full precision is turned into one in half precision, and that state.
/// The weights and biases are copied and the copies cast; further copies stay in full precision;
/// the old buffers are given back.
pub open spec fn halved(d: DeviceView, p: ParamView) -> (DeviceView, ParamView) {
    let (full, half) = (Precision::FP32, Precision::FP16);
    let d1 = copied(d, p.w);
    let d2 = copied(d1, p.b);
    let d3 = cast_outcome(d2, full, half, next_like(d, p.w)).0;
    let d4 = cast_outcome(d3, full, half, next_like(d1, p.b)).0;
    let d5 = copied(d4, p.w);
    let d6 = copied(d5, p.b);
    (
        d6.then_run(
            free_ops(p.w) + free_ops(p.b) + optional_free(p.master_w) + optional_free(p.master_b),
        ),
        ParamView {
            w: next_like(d2, p.w),
            b: next_like(d3, p.b),
            master_w: Some(next_like(d4, p.w)),
            master_b: Some(next_like(d5, p.b)),
            ..p
        },
    )
}

/// The device once a state in half precision is turned into one in full precision, and that state.
/// The copies in full precision take the place of the weights and biases; the old buffers are given
/// back.
pub open spec fn doubled(d: DeviceView, p: ParamView) -> (DeviceView, ParamView) {
    let d1 = copied(d, p.master_w->0).then_run(optional_free(p.master_w));
    let d2 = copied(d1, p.master_b->0).then_run(optional_free(p.master_b));
    (
        d2.then_run(free_ops(p.w) + free_ops(p.b)),
        ParamView {
            w: next_like(d, p.master_w->0),
            b: next_like(d1, p.master_b->0),
            master_w: None,
            master_b: None,
            ..p
        },
    )
}

impl ParamState<F32> {
    /// Turns the state into one in half precision.
    pub fn cast_f16(self, context: &mut GpuContext) -> (r: Result<ParamState<F16>, Error>)
        requires
            old(context).wf(),
            self.wf(),
            castable(self@.w, old(context)@.tile_dim),
            castable(self@.b, old(context)@.tile_dim),
        ensures
            final(context).wf(),
            r matches Ok(p) && p.wf() && (final(context)@, p@) == halved(old(context)@, self@),
    {
        broadcast use lemma_countable;

        let w = self.w.clone(context)?;
        let b = self.b.clone(context)?;
        let w = w.cast(context)?;
        let b = b.cast(context)?;
        let master_w = Some(self.w.clone(context)?);
        let master_b = Some(self.b.clone(context)?);
        self.w.free(context);
        self.b.free(context);
        free_optional(self.master_w, context);
        free_optional(self.master_b, context);
        Ok(
            ParamState::<F16> {
                w,
                b,
                master_w,
                master_b,
                dv_w: self.dv_w,
                dv_b: self.dv_b,
                dm_w: self.dm_w,
                dm_b: self.dm_b,
            },
        )
    }
}

impl ParamState<F16> {
    /// Turns the state into one in full precision.
    pub fn cast_f32(self, context: &mut GpuContext) -> (r: Result<ParamState<F32>, Error>)
        requires
            old(context).wf(),
            self.wf(),
            self@.master_w is Some,
            self@.master_b is Some,
        ensures
            final(context).wf(),
            r matches Ok(p) && p.wf() && (final(context)@, p@) == doubled(old(context)@, self@),
    {
        let old_w = self.master_w.unwrap();
        let w = old_w.clone(context)?;
        old_w.free(context);
        let old_b = self.master_b.unwrap();
        let b = old_b.clone(context)?;
        old_b.free(context);
        self.w.free(context);
        self.b.free(context);
        Ok(
            ParamState::<F32> {
                w,
                b,
                master_w: None,
                master_b: None,
                dv_w: self.dv_w,
                dv_b: self.dv_b,
                dm_w: self.dm_w,
                dm_b: self.dm_b,
            },
        )
    }
}

impl<T: PrecisionType> ParamState<T> {
    /// Gives the buffers of the state back.
    pub(crate) fn free(self, context: &mut GpuContext)
        requires
            old(context).wf(),
        ensures
            final(context).wf(),
            final(context)@ == old(context)@.then_run(state_frees(self@)),
    {
        broadcast use lemma_then_run;

        self.w.free(context);
        self.b.free(context);
        free_optional(self.master_w, context);
        free_optional(self.master_b, context);
        free_optional(self.dv_w, context);
        free_optional(self.dv_b, context);
        free_optional(self.dm_w, context);
        free_optional(self.dm_b, context);
    }
}

impl CacheView {
    /// The tensors, in the order of the fields.
    pub open spec fn tensors(self) -> Seq<TensorView> {
        seq![
            self.out,
            self.predrop_out,
            self.preact_out,
            self.centered_out,
            self.prenorm_out,
            self.norm_rstd,
        ]
    }
}

/// The cache whose tensors are cast from those of another one.
pub open spec fn cast_cache(d: DeviceView, from: Precision, to: Precision, c: CacheView)
    -> CacheView {
    CacheView {
        out: cast_tensor(d, from, to, c.tensors(), 0),
        predrop_out: cast_tensor(d, from, to, c.tensors(), 1),
        preact_out: cast_tensor(d, from, to, c.tensors(), 2),
        centered_out: cast_tensor(d, from, to, c.tensors(), 3),
        prenorm_out: cast_tensor(d, from, to, c.tensors(), 4),
        norm_rstd: cast_tensor(d, from, to, c.tensors(), 5),
    }
}

impl<T: PrecisionType> ForwardCache<T> {
    /// Casts all tensors.
    pub(crate) fn cast<U: PrecisionType>(self, context: &mut GpuContext) -> (r: Result<
        ForwardCache<U>,
        Error,
    >)
        requires
            old(context).wf(),
            self@.wf(),
            T::format() != U::format(),
            forall|i: int|
                0 <= i < 6 ==> castable(#[trigger] self@.tensors()[i], old(context)@.tile_dim),
        ensures
            final(context).wf(),
            final(context)@ == cast_all(
                old(context)@,
                T::format(),
                U::format(),
                self@.tensors(),
            ),
            r matches Ok(c) && c@.wf() && c@ == cast_cache(
                old(context)@,
                T::format(),
                U::format(),
                self@,
            ),
    {
        broadcast use lemma_cast_keeps_tile;

        let ghost d = context@;
        let ghost ts = self@.tensors();
        proof {
            assert(ts.take(0).len() == 0);
            assert(ts[0] == self.out@ && ts[1] == self.predrop_out@ && ts[2] == self.preact_out@
                && ts[3] == self.centered_out@ && ts[4] == self.prenorm_out@ && ts[5]
                == self.norm_rstd@);
        }
        let out = push_cast(context, self.out, Ghost(d), Ghost(ts), Ghost(0))?;
        let predrop_out = push_cast(context, self.predrop_out, Ghost(d), Ghost(ts), Ghost(1))?;
        let preact_out = push_cast(context, self.preact_out, Ghost(d), Ghost(ts), Ghost(2))?;
        let centered_out = push_cast(context, self.centered_out, Ghost(d), Ghost(ts), Ghost(3))?;
        let prenorm_out = push_cast(context, self.prenorm_out, Ghost(d), Ghost(ts), Ghost(4))?;
        let norm_rstd = push_cast(context, self.norm_rstd, Ghost(d), Ghost(ts), Ghost(5))?;
        assert(ts.take(6) == ts);
        Ok(
            ForwardCache::<U> {
                out,
                predrop_out,
                preact_out,
                centered_out,
                prenorm_out,
                norm_rstd,
            },
        )
    }

    /// Whether kernels can count the elements of all tensors.
    pub(crate) fn is_countable_by_kernels(&self) -> (r: bool)
        requires
            self@.wf(),
        ensures
            r == forall|i: int|
                0 <= i < 6 ==> element_count((#[trigger] self@.tensors()[i]).shape) <= u32::MAX,
    {
        let ghost ts = self@.tensors();
        proof {
            assert(ts[0] == self.out@ && ts[1] == self.predrop_out@ && ts[2] == self.preact_out@
                && ts[3] == self.centered_out@ && ts[4] == self.prenorm_out@ && ts[5]
                == self.norm_rstd@);
        }
        self.out.is_countable_by_kernels() && self.predrop_out.is_countable_by_kernels()
            && self.preact_out.is_countable_by_kernels()
            && self.centered_out.is_countable_by_kernels()
            && self.prenorm_out.is_countable_by_kernels()
            && self.norm_rstd.is_countable_by_kernels()
    }

    /// Gives the buffers of the cache back.
    pub(crate) fn free(self, context: &mut GpuContext)
        requires
            old(context).wf(),
        ensures
            final(context).wf(),
            final(context)@ == old(context)@.then_run(cache_frees(self@)),
    {
        self.out.free(context);
        self.predrop_out.free(context);
        self.preact_out.free(context);
        self.centered_out.free(context);
        self.prenorm_out.free(context);
        self.norm_rstd.free(context);
    }
}

} // verus!
