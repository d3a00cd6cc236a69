//! Tensors on the device.

use std::marker::PhantomData;

use vstd::arithmetic::div_mod::{
    lemma_add_mod_noop, lemma_fundamental_div_mod, lemma_mod_bound, lemma_mod_multiples_vanish,
    lemma_mod_self_0, lemma_mul_mod_noop_left, lemma_small_mod,
};
use vstd::arithmetic::mul::{
    lemma_mul_inequality, lemma_mul_is_commutative, lemma_mul_is_distributive_sub,
};
use vstd::prelude::*;

use crate::io::device::util_device::{broadcast_ops, broadcast_refusal, cast_ops, cast_refusal};
use crate::io::device::{
    settled, tile_area, tileable, DeviceOp, DeviceSlice, DeviceView, GpuContext, HostNumbers,
    HostView, OpView,
};
use crate::util::image::{volume, ImageBatch};
use crate::util::log::{refusal, to_u32, Error, ErrorView};
use crate::util::matrix::Matrix;
use crate::util::precision::{Precision, PrecisionType, F32};

verus! {

/// Mixes the training step and the id of a layer into the seed of the layer's dropout mask.
pub fn scramble_seed(step: u32, layer_id: u32) -> (r: u32)
    ensures
        r == scrambled_seed(step, layer_id),
{
    let mixed: u32 = step.wrapping_mul(1_103_515_245).wrapping_add(layer_id);
    let hash: u32 = (mixed ^ (mixed >> 16)).wrapping_mul(1_103_515_245);
    hash ^ (hash >> 15)
}

/// The seed of the dropout mask of a layer in a training step.
pub open spec fn scrambled_seed(step: u32, layer_id: u32) -> u32 {
    let mixed = step.wrapping_mul(1_103_515_245).wrapping_add(layer_id);
    let hash = (mixed ^ (mixed >> 16)).wrapping_mul(1_103_515_245);
    hash ^ (hash >> 15)
}

/// No two layers share the seed of their dropout masks in a training step.
pub proof fn law_seeds_are_distinct(step: u32, a: u32, b: u32)
    ensures
        scrambled_seed(step, a) == scrambled_seed(step, b) <==> a == b,
{
    let x = step.wrapping_mul(1_103_515_245);
    let y = x.wrapping_add(a);
    let z = x.wrapping_add(b);
    lemma_shift_mix_is_injective(y, z);
    let p = (y ^ (y >> 16)).wrapping_mul(1_103_515_245);
    let q = (z ^ (z >> 16)).wrapping_mul(1_103_515_245);
    lemma_odd_multiple_is_injective(y ^ (y >> 16), z ^ (z >> 16));
    assert(p ^ (p >> 15) == q ^ (q >> 15) ==> p == q) by (bit_vector);
}

/// Folding the upper half of a word onto the lower one can be undone.
proof fn lemma_shift_mix_is_injective(y: u32, z: u32)
    ensures
        y ^ (y >> 16) == z ^ (z >> 16) ==> y == z,
{
    assert(y ^ (y >> 16) == z ^ (z >> 16) ==> y == z) by (bit_vector);
}

/// Multiplication by the odd factor of the seed can be undone.
proof fn lemma_odd_multiple_is_injective(y: u32, z: u32)
    ensures
        y.wrapping_mul(1_103_515_245) == z.wrapping_mul(1_103_515_245) ==> y == z,
{
    let f: int = 1_103_515_245;
    let m: int = 0x1_0000_0000;
    let inverse: int = 4_005_161_829;
    let quotient: int = 1_029_054_899;
    lemma_mul_mod_noop_left(y * f, inverse, m);
    lemma_mul_mod_noop_left(z * f, inverse, m);
    assert(y * f * inverse == m * (quotient * y) + y) by (nonlinear_arith)
        requires
            f * inverse == quotient * m + 1,
    ;
    assert(z * f * inverse == m * (quotient * z) + z) by (nonlinear_arith)
        requires
            f * inverse == quotient * m + 1,
    ;
    lemma_mod_multiples_vanish(quotient * y, y as int, m);
    lemma_mod_multiples_vanish(quotient * z, z as int, m);
}

/// The number of elements of a tensor.
pub open spec fn element_count(shape: Seq<usize>) -> nat
    decreases shape.len(),
{
    if shape.len() == 0 {
        1
    } else {
        element_count(shape.drop_last()) * shape.last() as nat
    }
}

/// The number of elements can be worked out from the left without running past the largest
/// address.
pub open spec fn countable(shape: Seq<usize>) -> bool {
    forall|k: int| 0 <= k <= shape.len() ==> #[trigger] element_count(shape.take(k)) <= usize::MAX
}

/// Works the number of elements of a tensor out.
pub(crate) fn count_elements<const N: usize>(shape: &[usize; N]) -> (r: usize)
    requires
        countable(shape@),
    ensures
        r == element_count(shape@),
{
    let mut size: usize = 1;
    let mut k: usize = 0;
    while k < N
        invariant
            k <= N,
            shape@.len() == N,
            countable(shape@),
            size == element_count(shape@.take(k as int)),
        decreases N - k,
    {
        assert(shape@.take(k + 1).drop_last() == shape@.take(k as int));
        assert(element_count(shape@.take(k + 1)) == size * shape@[k as int]);
        size = size * shape[k];
        k += 1;
    }
    assert(shape@.take(N as int) == shape@);
    size
}

/// The number of elements of a countable shape is an address.
pub broadcast proof fn lemma_countable(shape: Seq<usize>)
    requires
        #[trigger] countable(shape),
    ensures
        element_count(shape) <= usize::MAX,
{
    assert(shape.take(shape.len() as int) == shape);
}

/// The elements of a flat tensor.
pub proof fn lemma_line_count(shape: Seq<usize>)
    requires
        shape.len() == 1,
    ensures
        element_count(shape) == shape[0],
        countable(shape),
{
    reveal_with_fuel(element_count, 2);
    assert forall|k: int| 0 <= k <= shape.len() implies #[trigger] element_count(shape.take(k))
        <= usize::MAX by {
        if k == 1 {
            assert(shape.take(k) == shape);
        }
    }
}

/// The elements of a tensor of rows and columns.
pub proof fn lemma_plane_count(shape: Seq<usize>)
    requires
        shape.len() == 2,
    ensures
        element_count(shape) == shape[0] * shape[1],
        countable(shape) <==> shape[0] * shape[1] <= usize::MAX,
{
    reveal_with_fuel(element_count, 3);
    assert(shape.take(2) == shape);
    assert(shape.take(1).last() == shape[0]);
    assert(shape.drop_last().last() == shape[0]);
    assert(element_count(shape.take(0)) == 1);
    assert(element_count(shape.take(1)) == shape[0]);
    assert forall|k: int|
        0 <= k <= shape.len() && shape[0] * shape[1] <= usize::MAX implies #[trigger] element_count(
        shape.take(k),
    ) <= usize::MAX by {
        assert(k == 0 || k == 1 || k == 2);
    }
}

/// The elements of a tensor of batches, channels, rows and columns.
pub proof fn lemma_volume_count(shape: Seq<usize>)
    requires
        shape.len() == 4,
    ensures
        element_count(shape) == volume(
            shape[0] as int,
            shape[1] as int,
            shape[2] as int,
            shape[3] as int,
        ),
        countable(shape) <==> {
            &&& shape[0] * shape[1] <= usize::MAX
            &&& shape[0] * shape[1] * shape[2] <= usize::MAX
            &&& volume(shape[0] as int, shape[1] as int, shape[2] as int, shape[3] as int)
                <= usize::MAX
        },
{
    lemma_line_count(shape.take(1));
    lemma_plane_count(shape.take(2));
    assert(shape.take(4) == shape);
    assert(shape.drop_last() == shape.take(3));
    assert(shape.take(3).drop_last() == shape.take(2));
    assert(shape.take(2).drop_last() == shape.take(1));
    assert(shape.take(1).drop_last() == shape.take(0));
    assert(element_count(shape.take(0)) == 1);
    assert(shape.take(1).last() == shape[0]);
    assert(shape.take(2).last() == shape[1]);
    assert(shape.take(3).last() == shape[2]);
    assert(element_count(shape.take(1)) == shape[0]);
    assert(element_count(shape.take(2)) == shape[0] * shape[1]);
    assert(element_count(shape.take(3)) == shape[0] * shape[1] * shape[2]);
    if countable(shape) {
        assert(element_count(shape.take(2)) <= usize::MAX);
        assert(element_count(shape.take(3)) <= usize::MAX);
        assert(element_count(shape.take(4)) <= usize::MAX);
    }
    assert(element_count(shape) == element_count(shape.take(3)) * shape[3]);
    assert forall|k: int|
        0 <= k <= shape.len() && shape[0] * shape[1] <= usize::MAX && shape[0] * shape[1] * shape[2]
            <= usize::MAX && volume(
            shape[0] as int,
            shape[1] as int,
            shape[2] as int,
            shape[3] as int,
        ) <= usize::MAX implies #[trigger] element_count(shape.take(k)) <= usize::MAX by {
        assert(k == 0 || k == 1 || k == 2 || k == 3 || k == 4);
    }
}

/// What a new tensor starts out with.
pub enum Fill {
    /// Zeros.
    Zeros,
    /// One number everywhere, by its bit pattern.
    Constant(u32),
    /// Numbers of the host, in the format that the host holds them in.
    Host { held: Precision, numbers: HostView },
}

/// A tensor that is to be made.
pub struct Recipe {
    pub shape: Seq<usize>,
    pub precision: Precision,
    pub fill: Fill,
}

/// The buffer of the next tensor of a device.
pub open spec fn next_slice(d: DeviceView, shape: Seq<usize>) -> DeviceSlice {
    DeviceSlice { tensor: d.next_id, len: element_count(shape) as usize }
}

/// The device once a tensor of zeros is made.
pub open spec fn with_zeros(d: DeviceView, precision: Precision, shape: Seq<usize>) -> DeviceView {
    d.then_run(
        seq![
            OpView::Allocate {
                tensor: d.next_id,
                precision,
                len: element_count(shape) as usize,
            },
            OpView::Synchronize,
        ],
    ).id_taken()
}

/// The device once a tensor is made, and why making it is refused. The buffer of a tensor that is
/// refused is still there: [`settled`] says what becomes of it.
pub open spec fn made(d: DeviceView, recipe: Recipe) -> (DeviceView, Option<ErrorView>) {
    let len = element_count(recipe.shape) as usize;
    match recipe.fill {
        Fill::Zeros => (with_zeros(d, recipe.precision, recipe.shape), None),
        Fill::Constant(pattern) => {
            let zeroed = with_zeros(d, recipe.precision, recipe.shape);
            if broadcast_refusal(len) is Some {
                (zeroed, broadcast_refusal(len))
            } else {
                (
                    zeroed.then_run(
                        broadcast_ops(
                            d.tile_dim,
                            recipe.precision,
                            next_slice(d, recipe.shape),
                            pattern,
                        ),
                    ),
                    None,
                )
            }
        },
        Fill::Host { held, numbers } => if numbers.len() != len {
            (
                d,
                Some(
                    ErrorView::MismatchedDimensions {
                        reason:
                            "length of CPU data does not match the total elements of the tensor"@,
                        expected: len,
                        found: numbers.len() as usize,
                    },
                ),
            )
        } else {
            (
                d.then_run(
                    seq![
                        OpView::Upload {
                            tensor: d.next_id,
                            precision: recipe.precision,
                            held,
                            numbers,
                        },
                        OpView::Synchronize,
                    ],
                ).id_taken(),
                None,
            )
        },
    }
}

/// The device once tensors are made one after the other, and why making one of them is refused;
/// nothing is made after a refusal.
pub open spec fn made_all(d: DeviceView, recipes: Seq<Recipe>) -> (DeviceView, Option<ErrorView>)
    decreases recipes.len(),
{
    if recipes.len() == 0 {
        (d, None)
    } else {
        let before = made_all(d, recipes.drop_last());
        if before.1 is Some {
            before
        } else {
            made(before.0, recipes.last())
        }
    }
}

/// The first `k` tensors are made, and nothing else happened.
pub open spec fn under_way(d: DeviceView, recipes: Seq<Recipe>, k: int, now: DeviceView) -> bool {
    0 <= k <= recipes.len() && made_all(d, recipes.take(k)) == (now, None::<ErrorView>)
}

/// The tensor that the recipe at place `k` of a list makes.
pub open spec fn made_tensor(d: DeviceView, recipes: Seq<Recipe>, k: int) -> TensorView {
    TensorView { id: made_all(d, recipes.take(k)).0.next_id, shape: recipes[k].shape }
}

/// One more tensor is made.
pub(crate) proof fn lemma_made_next(d: DeviceView, recipes: Seq<Recipe>, k: int, now: DeviceView)
    requires
        under_way(d, recipes, k, now),
        k < recipes.len(),
    ensures
        made_all(d, recipes.take(k + 1)) == made(now, recipes[k]),
        made(now, recipes[k]).1 is Some ==> made_all(d, recipes) == made(now, recipes[k]),
{
    assert(recipes.take(k + 1).drop_last() == recipes.take(k));
    if made(now, recipes[k]).1 is Some {
        lemma_made_stops(d, recipes, k + 1);
    }
}

/// Nothing is made after a refusal.
proof fn lemma_made_stops(d: DeviceView, recipes: Seq<Recipe>, k: int)
    requires
        0 <= k <= recipes.len(),
        made_all(d, recipes.take(k)).1 is Some,
    ensures
        made_all(d, recipes) == made_all(d, recipes.take(k)),
    decreases recipes.len() - k,
{
    if k == recipes.len() {
        assert(recipes.take(k) == recipes);
    } else {
        assert(recipes.take(k + 1).drop_last() == recipes.take(k));
        lemma_made_stops(d, recipes, k + 1);
    }
}

/// All tensors are made.
pub(crate) proof fn lemma_made_all(d: DeviceView, recipes: Seq<Recipe>, now: DeviceView)
    requires
        under_way(d, recipes, recipes.len() as int, now),
    ensures
        made_all(d, recipes) == (now, None::<ErrorView>),
{
    assert(recipes.take(recipes.len() as int) == recipes);
}

/// No tensor is made yet.
pub(crate) proof fn lemma_made_none(d: DeviceView, recipes: Seq<Recipe>)
    ensures
        under_way(d, recipes, 0, d),
{
    assert(recipes.take(0).len() == 0);
}

/// Making tensors changes neither the device nor its tile.
pub broadcast proof fn lemma_made_keeps_tile(d: DeviceView, recipes: Seq<Recipe>)
    ensures
        (#[trigger] made_all(d, recipes)).0.tile_dim == d.tile_dim,
        made_all(d, recipes).0.ordinal == d.ordinal,
    decreases recipes.len(),
{
    if recipes.len() > 0 {
        lemma_made_keeps_tile(d, recipes.drop_last());
    }
}

/// Each tensor that is made takes the next id.
proof fn lemma_ids_count_up(d: DeviceView, recipes: Seq<Recipe>)
    requires
        made_all(d, recipes).1 is None,
    ensures
        made_all(d, recipes).0.next_id == (d.next_id + recipes.len()) % (usize::MAX + 1),
    decreases recipes.len(),
{
    if recipes.len() > 0 {
        let before = recipes.drop_last();
        lemma_ids_count_up(d, before);
        let id = made_all(d, before).0.next_id;
        let n = d.next_id + before.len();
        lemma_mod_bound(n, usize::MAX + 1);
        lemma_add_mod_noop(n, 1, usize::MAX + 1);
        lemma_small_mod(1, (usize::MAX + 1) as nat);
        if id < usize::MAX {
            lemma_small_mod((id + 1) as nat, (usize::MAX + 1) as nat);
        } else {
            lemma_mod_self_0(usize::MAX + 1);
        }
        assert(id.wrapping_add(1) == (id + 1) % (usize::MAX + 1));
        assert((n % (usize::MAX + 1) + 1) % (usize::MAX + 1) == (n + 1) % (usize::MAX + 1));
    } else {
        lemma_small_mod(d.next_id as nat, (usize::MAX + 1) as nat);
    }
}

/// No two tensors that are made one after the other have the same id, as long as there are ids for
/// all of them.
pub proof fn law_ids_are_distinct(d: DeviceView, recipes: Seq<Recipe>, i: int, j: int)
    requires
        made_all(d, recipes).1 is None,
        recipes.len() <= usize::MAX,
        0 <= i < j < recipes.len(),
    ensures
        made_tensor(d, recipes, i).id != made_tensor(d, recipes, j).id,
{
    if made_all(d, recipes.take(i)).1 is Some {
        lemma_made_stops(d, recipes, i);
    }
    if made_all(d, recipes.take(j)).1 is Some {
        lemma_made_stops(d, recipes, j);
    }
    lemma_ids_count_up(d, recipes.take(i));
    lemma_ids_count_up(d, recipes.take(j));
    let m = usize::MAX + 1;
    let (a, b) = (d.next_id + i, d.next_id + j);
    if a % m == b % m {
        lemma_fundamental_div_mod(a, m);
        lemma_fundamental_div_mod(b, m);
        assert(b - a == m * (b / m) - m * (a / m));
        assert(b - a == m * (b / m - a / m)) by {
            lemma_mul_is_distributive_sub(m, b / m, a / m);
        }
        assert(0 < b - a < m);
        if b / m - a / m >= 1 {
            lemma_mul_inequality(1, b / m - a / m, m);
            lemma_mul_is_commutative(b / m - a / m, m);
        } else if b / m - a / m <= -1 {
            lemma_mul_inequality(b / m - a / m, -1, m);
            lemma_mul_is_commutative(b / m - a / m, m);
        }
    }
}

/// Tensors that are made in two contexts have different ids, where the ids of the second one start
/// behind those that the first one gives out.
pub proof fn law_contexts_share_no_ids(
    a: DeviceView,
    in_a: Seq<Recipe>,
    b: DeviceView,
    in_b: Seq<Recipe>,
    i: int,
    j: int,
)
    requires
        made_all(a, in_a).1 is None,
        made_all(b, in_b).1 is None,
        0 <= i < in_a.len(),
        0 <= j < in_b.len(),
        a.next_id + in_a.len() <= b.next_id,
        b.next_id + in_b.len() <= usize::MAX,
    ensures
        made_tensor(a, in_a, i).id < b.next_id <= made_tensor(b, in_b, j).id,
{
    if made_all(a, in_a.take(i)).1 is Some {
        lemma_made_stops(a, in_a, i);
    }
    if made_all(b, in_b.take(j)).1 is Some {
        lemma_made_stops(b, in_b, j);
    }
    lemma_ids_count_up(a, in_a.take(i));
    lemma_ids_count_up(b, in_b.take(j));
    lemma_small_mod((a.next_id + i) as nat, (usize::MAX + 1) as nat);
    lemma_small_mod((b.next_id + j) as nat, (usize::MAX + 1) as nat);
}

/// Makes the tensor of zeros that a list has at place `k`.
pub(crate) fn push_zeros<T: PrecisionType, const N: usize>(
    context: &mut GpuContext,
    shape: &[usize; N],
    Ghost(d): Ghost<DeviceView>,
    Ghost(recipes): Ghost<Seq<Recipe>>,
    Ghost(k): Ghost<int>,
) -> (r: Result<Tensor<T, N>, Error>)
    requires
        old(context).wf(),
        under_way(d, recipes, k, old(context)@),
        k < recipes.len(),
        countable(shape@),
        recipes[k] == (Recipe { shape: shape@, precision: T::format(), fill: Fill::Zeros }),
    ensures
        final(context).wf(),
        under_way(d, recipes, k + 1, final(context)@),
        r matches Ok(t) && t.wf() && t@ == made_tensor(d, recipes, k),
{
    proof {
        lemma_made_next(d, recipes, k, context@);
    }
    Tensor::<T, N>::zeros(context, shape)
}

/// Makes the tensor of zeros that a list has at place `k` where training needs it.
pub(crate) fn push_delta(
    context: &mut GpuContext,
    is_training: bool,
    shape: &[usize; 2],
    Ghost(d): Ghost<DeviceView>,
    Ghost(recipes): Ghost<Seq<Recipe>>,
    Ghost(k): Ghost<int>,
) -> (r: Result<Option<Tensor2D<F32>>, Error>)
    requires
        old(context).wf(),
        under_way(d, recipes, k, old(context)@),
        countable(shape@),
        is_training ==> k < recipes.len() && recipes[k] == (Recipe {
            shape: shape@,
            precision: Precision::FP32,
            fill: Fill::Zeros,
        }),
    ensures
        final(context).wf(),
        is_training ==> under_way(d, recipes, k + 1, final(context)@),
        !is_training ==> under_way(d, recipes, k, final(context)@),
        r matches Ok(t) && {
            &&& t is Some <==> is_training
            &&& t matches Some(x) ==> x.wf() && x@ == made_tensor(d, recipes, k)
        },
{
    if is_training {
        let t = push_zeros(context, shape, Ghost(d), Ghost(recipes), Ghost(k))?;
        Ok(Some(t))
    } else {
        Ok(None)
    }
}

/// Makes the tensor of equal numbers that a list has at place `k`.
pub(crate) fn push_fill<T: PrecisionType, const N: usize>(
    context: &mut GpuContext,
    shape: &[usize; N],
    value: T,
    Ghost(d): Ghost<DeviceView>,
    Ghost(recipes): Ghost<Seq<Recipe>>,
    Ghost(k): Ghost<int>,
) -> (r: Result<Tensor<T, N>, Error>)
    requires
        old(context).wf(),
        under_way(d, recipes, k, old(context)@),
        k < recipes.len(),
        countable(shape@),
        tileable(element_count(shape@) as int, tile_area(old(context)@.tile_dim)),
        recipes[k] == (Recipe {
            shape: shape@,
            precision: T::format(),
            fill: Fill::Constant(value.pattern()),
        }),
    ensures
        final(context).wf(),
        r matches Ok(t) ==> {
            &&& under_way(d, recipes, k + 1, final(context)@)
            &&& t.wf()
            &&& t@ == made_tensor(d, recipes, k)
        },
        r is Err ==> made_all(d, recipes) == (final(context)@, refusal(r)),
{
    proof {
        lemma_made_next(d, recipes, k, context@);
    }
    Tensor::<T, N>::make_filled(context, shape, value)
}

/// Makes the tensor of numbers of the host that a list has at place `k`.
pub(crate) fn push_host<T: PrecisionType, const N: usize>(
    context: &mut GpuContext,
    numbers: HostNumbers,
    held: Precision,
    shape: &[usize; N],
    Ghost(d): Ghost<DeviceView>,
    Ghost(recipes): Ghost<Seq<Recipe>>,
    Ghost(k): Ghost<int>,
) -> (r: Result<Tensor<T, N>, Error>)
    requires
        old(context).wf(),
        under_way(d, recipes, k, old(context)@),
        k < recipes.len(),
        countable(shape@),
        recipes[k] == (Recipe {
            shape: shape@,
            precision: T::format(),
            fill: Fill::Host { held, numbers: numbers@ },
        }),
    ensures
        final(context).wf(),
        r matches Ok(t) ==> {
            &&& under_way(d, recipes, k + 1, final(context)@)
            &&& t.wf()
            &&& t@ == made_tensor(d, recipes, k)
        },
        r is Err ==> made_all(d, recipes) == (final(context)@, refusal(r)),
{
    proof {
        lemma_made_next(d, recipes, k, context@);
    }
    Tensor::<T, N>::from_host(context, numbers, held, shape)
}

/// What a [`Tensor`] stands for.
pub struct TensorView {
    pub id: usize,
    pub shape: Seq<usize>,
}

impl TensorView {
    /// The tensor has `axes` axes, and the number of its elements can be worked out.
    pub open spec fn ok(self, axes: nat) -> bool {
        &&& self.shape.len() == axes
        &&& countable(self.shape)
    }

    /// The buffer of the tensor.
    pub open spec fn slice(self) -> DeviceSlice {
        DeviceSlice { tensor: self.id, len: element_count(self.shape) as usize }
    }
}

/// The multidimensional data container which generalises scalars, vectors, and matrices to
/// any number of dimensions, that serves as the fundamental memory and
/// mathematical tracking unit of a neural network.
///
/// The numbers live in a buffer of the device, which the tensor's id names. Data is generally
/// row-major. `N` is the number of axes.
#[derive(Debug)]
pub struct Tensor<T: PrecisionType, const N: usize> {
    id: usize,
    shape: [usize; N],
    format: PhantomData<T>,
}

/// A 1-dimensional GPU tensor representing flat, contiguous data.
///
/// This is the device memory counterpart to a standard [`Vec`].
pub type Tensor1D<T> = Tensor<T, 1>;

/// A 2-dimensional GPU tensor structured in rows and columns.
///
/// This serves as the accelerated device counterpart to the host-side [`Matrix`].
pub type Tensor2D<T> = Tensor<T, 2>;

/// A 4-dimensional GPU tensor organised in the `NCHW` layout.
///
/// This serves as the accelerated device counterpart to the host-side [`ImageBatch`]
/// and is optimised for convolutional network blocks.
pub type Tensor4D<T> = Tensor<T, 4>;

impl<T: PrecisionType, const N: usize> View for Tensor<T, N> {
    type V = TensorView;

    closed spec fn view(&self) -> TensorView {
        TensorView { id: self.id, shape: self.shape@ }
    }
}

impl<T: PrecisionType, const N: usize> Tensor<T, N> {
    /// The number of elements can be worked out.
    pub open spec fn wf(&self) -> bool {
        self@.ok(N as nat)
    }

    /// Creates a new tensor from CPU data vector.
    ///
    /// # Arguments
    /// * `context` - See [`GpuContext`]
    /// * `cpu_data` - The data value of the tensor.
    /// * `shape` - The shape of the matrix of this tensor.
    ///
    /// The length of `cpu_data` is the number of elements of a tensor of size `shape`.
    pub fn from_cpu_vector(
        context: &mut GpuContext,
        cpu_data: &[T],
        shape: &[usize; N],
    ) -> (r: Result<Self, Error>)
        requires
            old(context).wf(),
            countable(shape@),
            cpu_data@.len() == element_count(shape@),
        ensures
            final(context).wf(),
            final(context)@ == made(
                old(context)@,
                Recipe {
                    shape: shape@,
                    precision: T::format(),
                    fill: Fill::Host {
                        held: T::format(),
                        numbers: HostView::Patterns(patterns(cpu_data@)),
                    },
                },
            ).0,
            r matches Ok(t) && t.wf() && t@ == (TensorView {
                id: old(context)@.next_id,
                shape: shape@,
            }),
    {
        broadcast use lemma_countable;

        Self::from_host(context, HostNumbers::Patterns(to_patterns(cpu_data)), T::precision(), shape)
    }

    /// Creates a new tensor from numbers of the host.
    ///
    /// # Arguments
    /// * `context` - See [`GpuContext`]
    /// * `numbers` - The numbers.
    /// * `held` - The format that the numbers are held in.
    /// * `shape` - The shape of this tensor.
    ///
    /// # Errors
    /// Return an [`Error`] if there are not as many numbers as the tensor has elements.
    pub fn from_host(
        context: &mut GpuContext,
        numbers: HostNumbers,
        held: Precision,
        shape: &[usize; N],
    ) -> (r: Result<Self, Error>)
        requires
            old(context).wf(),
            countable(shape@),
        ensures
            final(context).wf(),
            ({
                let outcome = made(
                    old(context)@,
                    Recipe {
                        shape: shape@,
                        precision: T::format(),
                        fill: Fill::Host { held, numbers: numbers@ },
                    },
                );
                final(context)@ == outcome.0 && refusal(r) == outcome.1
            }),
            r matches Ok(t) ==> t.wf() && t@ == (TensorView {
                id: old(context)@.next_id,
                shape: shape@,
            }),
    {
        let size: usize = count_elements(shape);
        let found: usize = numbers.len();
        if size != found {
            return Err(
                Error::MismatchedDimensions {
                    reason: "length of CPU data does not match the total elements of the tensor",
                    expected: size,
                    found,
                },
            );
        }
        let id: usize = context.generate_unique_tensor_id();
        context.record(DeviceOp::Upload { tensor: id, precision: T::precision(), held, numbers });
        context.synchronize();
        Ok(Self { id, shape: *shape, format: PhantomData })
    }

    /// Creates a new tensor that takes the buffer of a flat one over.
    ///
    /// # Errors
    /// Return an [`Error`] if the buffer does not hold as many numbers as the tensor has elements.
    pub fn from_gpu_slice(
        context: &mut GpuContext,
        gpu_slice: Tensor<T, 1>,
        shape: &[usize; N],
    ) -> (r: Result<Self, Error>)
        requires
            old(context).wf(),
            gpu_slice.wf(),
            countable(shape@),
        ensures
            final(context).wf(),
            refusal(r) == if element_count(shape@) == gpu_slice@.shape[0] {
                None
            } else {
                Some(
                    ErrorView::MismatchedDimensions {
                        reason:
                            "length of CUDA slice does not match the total elements of the tensor"@,
                        expected: gpu_slice@.shape[0],
                        found: element_count(shape@) as usize,
                    },
                )
            },
            r is Err ==> final(context)@ == old(context)@.then_run(
                seq![OpView::Free { tensor: gpu_slice@.id }],
            ),
            r matches Ok(t) ==> {
                &&& t.wf()
                &&& t@ == (TensorView { id: old(context)@.next_id, shape: shape@ })
                &&& final(context)@ == old(context)@.then_run(
                    seq![OpView::Adopt { tensor: t@.id, source: gpu_slice@.id }],
                ).id_taken()
            },
    {
        let size: usize = count_elements(shape);
        let len: usize = gpu_slice.shape[0];
        if size != len {
            context.record(DeviceOp::Free { tensor: gpu_slice.id });
            return Err(
                Error::MismatchedDimensions {
                    reason: "length of CUDA slice does not match the total elements of the tensor",
                    expected: len,
                    found: size,
                },
            );
        }
        let id: usize = context.generate_unique_tensor_id();
        context.record(DeviceOp::Adopt { tensor: id, source: gpu_slice.id });
        Ok(Self { id, shape: *shape, format: PhantomData })
    }

    /// Creates a new tensor with all the same values.
    ///
    /// # Arguments
    /// * `context` - See [`GpuContext`]
    /// * `shape` - The shape of the matrix of this tensor.
    /// * `value` - The value to be broadcasted to the entire tensor.
    ///
    /// # Errors
    /// Return an [`Error`] if data is unable to be broadcasted.
    pub fn fill(context: &mut GpuContext, shape: &[usize; N], value: T) -> (r: Result<Self, Error>)
        requires
            old(context).wf(),
            countable(shape@),
            tileable(element_count(shape@) as int, tile_area(old(context)@.tile_dim)),
        ensures
            final(context).wf(),
            (final(context)@, refusal(r)) == settled(
                old(context)@,
                made(
                    old(context)@,
                    Recipe {
                        shape: shape@,
                        precision: T::format(),
                        fill: Fill::Constant(value.pattern()),
                    },
                ),
            ),
            r matches Ok(t) ==> t.wf() && t@ == (TensorView {
                id: old(context)@.next_id,
                shape: shape@,
            }),
    {
        let first: usize = context.get_next_id();
        let r = Self::make_filled(context, shape, value);
        if r.is_err() {
            context.give_back(first);
        }
        r
    }

    /// Creates a new tensor with all the same values. Where that is refused, the buffer of the
    /// tensor is left to the caller.
    pub(crate) fn make_filled(context: &mut GpuContext, shape: &[usize; N], value: T) -> (r: Result<
        Self,
        Error,
    >)
        requires
            old(context).wf(),
            countable(shape@),
            tileable(element_count(shape@) as int, tile_area(old(context)@.tile_dim)),
        ensures
            final(context).wf(),
            ({
                let outcome = made(
                    old(context)@,
                    Recipe {
                        shape: shape@,
                        precision: T::format(),
                        fill: Fill::Constant(value.pattern()),
                    },
                );
                final(context)@ == outcome.0 && refusal(r) == outcome.1
            }),
            r matches Ok(t) ==> t.wf() && t@ == (TensorView {
                id: old(context)@.next_id,
                shape: shape@,
            }),
    {
        let mut tensor = Self::zeros(context, shape)?;
        tensor.broadcast(context, value)?;
        Ok(tensor)
    }

    /// Creates a new empty tensor.
    ///
    /// # Arguments
    /// * `context` - See [`GpuContext`]
    /// * `shape` - The shape of the matrix of this tensor.
    ///
    /// For 1D, it is the length of the array. Pass a `[usize; 1]`.
    ///
    /// For 2D, it is the rows and columns of the matrix respectively. Pass a `[usize; 2]`.
    ///
    /// For 4D, it is in `NCHW` format. Pass a `[usize; 4]`.
    pub fn zeros(context: &mut GpuContext, shape: &[usize; N]) -> (r: Result<Self, Error>)
        requires
            old(context).wf(),
            countable(shape@),
        ensures
            final(context).wf(),
            final(context)@ == made(
                old(context)@,
                Recipe { shape: shape@, precision: T::format(), fill: Fill::Zeros },
            ).0,
            r matches Ok(t) && t.wf() && t@ == (TensorView {
                id: old(context)@.next_id,
                shape: shape@,
            }),
    {
        let size: usize = count_elements(shape);
        let id: usize = context.generate_unique_tensor_id();
        context.record(DeviceOp::Allocate { tensor: id, precision: T::precision(), len: size });
        context.synchronize();
        Ok(Self { id, shape: *shape, format: PhantomData })
    }

    /// Each tensor possesses its own unique ID.
    pub fn get_id(&self) -> (r: usize)
        ensures
            r == self@.id,
    {
        self.id
    }

    /// The buffer of the tensor.
    pub fn get_data(&self) -> (r: DeviceSlice)
        requires
            self.wf(),
        ensures
            r == self@.slice(),
    {
        DeviceSlice { tensor: self.id, len: count_elements(&self.shape) }
    }

    /// The shape of the tensor.
    pub fn get_shape(&self) -> (r: &[usize; N])
        ensures
            r@ == self@.shape,
    {
        &self.shape
    }

    /// Safely frees this tensor from memory.
    ///
    /// # Arguments
    /// * `context` - See [`GpuContext`].
    pub fn free_and_sync(self, context: &mut GpuContext) -> (r: Result<(), Error>)
        requires
            old(context).wf(),
        ensures
            final(context).wf(),
            r is Ok,
            final(context)@ == old(context)@.then_run(
                seq![OpView::Free { tensor: self@.id }, OpView::Synchronize],
            ),
    {
        context.record(DeviceOp::Free { tensor: self.id });
        context.synchronize();
        Ok(())
    }

    /// Gives the buffer of this tensor back.
    pub(crate) fn free(self, context: &mut GpuContext)
        requires
            old(context).wf(),
        ensures
            final(context).wf(),
            final(context)@ == old(context)@.then_run(free_ops(self@)),
    {
        context.record(DeviceOp::Free { tensor: self.id });
    }

    /// Whether a kernel can count the elements of this tensor.
    pub(crate) fn is_countable_by_kernels(&self) -> (r: bool)
        requires
            self.wf(),
        ensures
            r == (element_count(self@.shape) <= u32::MAX),
    {
        broadcast use lemma_countable;

        match to_u32(self.get_data().len) {
            Ok(_) => true,
            Err(_) => false,
        }
    }

    /// Sets all the elements of this tensor to a value in the live GPU memory buffers.
    ///
    /// # Arguments
    /// * `context` - See [`GpuContext`]
    /// * `value` - The value to set.
    ///
    /// # Errors
    /// Return an [`Error`] if data is unable to be broadcasted.
    pub fn broadcast(&mut self, context: &mut GpuContext, value: T) -> (r: Result<(), Error>)
        requires
            old(context).wf(),
            old(self).wf(),
            tileable(element_count(old(self)@.shape) as int, tile_area(old(context)@.tile_dim)),
        ensures
            final(context).wf(),
            *final(self) == *old(self),
            refusal(r) == broadcast_refusal(old(self)@.slice().len),
            r is Ok ==> final(context)@ == old(context)@.then_run(
                broadcast_ops(
                    old(context)@.tile_dim,
                    T::format(),
                    old(self)@.slice(),
                    value.pattern(),
                ),
            ),
            r is Err ==> final(context)@ == old(context)@,
    {
        broadcast use lemma_countable;

        context.gpu_broadcast(self.get_data(), value)
    }

    /// Copies this tensor by copying the data from the live GPU memory buffers.
    ///
    /// # Arguments
    /// * `context` - See [`GpuContext`]
    pub fn clone(&self, context: &mut GpuContext) -> (r: Result<Self, Error>)
        requires
            old(context).wf(),
            self.wf(),
        ensures
            final(context).wf(),
            r matches Ok(t) && t.wf() && t@ == (TensorView {
                id: old(context)@.next_id,
                shape: self@.shape,
            }),
            final(context)@ == old(context)@.then_run(
                seq![OpView::Duplicate { tensor: old(context)@.next_id, source: self@.id }],
            ).id_taken(),
    {
        let id: usize = context.generate_unique_tensor_id();
        context.record(DeviceOp::Duplicate { tensor: id, source: self.id });
        Ok(Self { id, shape: self.shape, format: PhantomData })
    }

    /// Casts the tensor from type `T` to type `U`. New GPU buffer is allocated which is
    /// filled with the type-casted values. The old GPU buffer is deallocated.
    ///
    /// # Errors
    /// This function will return an error if:
    /// * [`Error::IntConversion`] - There are more elements than a kernel can count.
    /// * [`Error::UnsupportedTypeCast`] - The two types are of the same precision.
    pub fn cast<U: PrecisionType>(self, context: &mut GpuContext) -> (r: Result<Tensor<U, N>, Error>)
        requires
            old(context).wf(),
            self.wf(),
            T::format() != U::format() ==> tileable(
                element_count(self@.shape) as int,
                tile_area(old(context)@.tile_dim),
            ),
        ensures
            final(context).wf(),
            refusal(r) == cast_outcome(old(context)@, T::format(), U::format(), self@).1,
            final(context)@ == cast_outcome(old(context)@, T::format(), U::format(), self@).0,
            r matches Ok(t) ==> t.wf() && t@ == (TensorView {
                id: old(context)@.next_id,
                shape: self@.shape,
            }),
    {
        broadcast use lemma_countable;

        let tensor = Tensor::<U, N>::zeros(context, &self.shape)?;
        match context.gpu_cast_t::<T, U>(self.get_data(), tensor.get_data()) {
            Ok(()) => {
                self.free_and_sync(context)?;
                Ok(tensor)
            },
            Err(e) => {
                tensor.free(context);
                self.free(context);
                Err(e)
            },
        }
    }
}

/// The buffer of a tensor is given back.
pub open spec fn free_ops(t: TensorView) -> Seq<OpView> {
    seq![OpView::Free { tensor: t.id }]
}

/// The device once a tensor is cast, and why the cast is refused. Either way the old buffer is
/// given back, and the new one too where the cast is refused.
pub open spec fn cast_outcome(d: DeviceView, from: Precision, to: Precision, t: TensorView) -> (
    DeviceView,
    Option<ErrorView>,
) {
    let zeroed = with_zeros(d, to, t.shape);
    let target = next_slice(d, t.shape);
    match cast_refusal(from, t.slice(), to, target) {
        None => (
            zeroed.then_run(cast_ops(d.tile_dim, from, t.slice(), target)).then_run(
                seq![OpView::Free { tensor: t.id }, OpView::Synchronize],
            ),
            None,
        ),
        Some(e) => (
            zeroed.then_run(
                seq![OpView::Free { tensor: d.next_id }, OpView::Free { tensor: t.id }],
            ),
            Some(e),
        ),
    }
}

/// The buffer of a tensor can be cast: its elements can be counted and tiled in 32 bits.
pub open spec fn castable(t: TensorView, tile_dim: u32) -> bool {
    &&& element_count(t.shape) <= u32::MAX
    &&& tileable(element_count(t.shape) as int, tile_area(tile_dim))
}

/// The device once a tensor is copied.
pub open spec fn copied(d: DeviceView, t: TensorView) -> DeviceView {
    d.then_run(seq![OpView::Duplicate { tensor: d.next_id, source: t.id }]).id_taken()
}

/// The next tensor of a device, with the shape of another one.
pub open spec fn next_like(d: DeviceView, t: TensorView) -> TensorView {
    TensorView { id: d.next_id, shape: t.shape }
}

/// The device once tensors are cast one after the other.
pub open spec fn cast_all(d: DeviceView, from: Precision, to: Precision, ts: Seq<TensorView>)
    -> DeviceView
    decreases ts.len(),
{
    if ts.len() == 0 {
        d
    } else {
        cast_outcome(cast_all(d, from, to, ts.drop_last()), from, to, ts.last()).0
    }
}

/// What the tensor at place `k` of a list of tensors is cast into.
pub open spec fn cast_tensor(
    d: DeviceView,
    from: Precision,
    to: Precision,
    ts: Seq<TensorView>,
    k: int,
) -> TensorView {
    next_like(cast_all(d, from, to, ts.take(k)), ts[k])
}

/// Casting changes neither the device nor its tile.
pub broadcast proof fn lemma_cast_keeps_tile(
    d: DeviceView,
    from: Precision,
    to: Precision,
    ts: Seq<TensorView>,
)
    ensures
        (#[trigger] cast_all(d, from, to, ts)).tile_dim == d.tile_dim,
    decreases ts.len(),
{
    if ts.len() > 0 {
        lemma_cast_keeps_tile(d, from, to, ts.drop_last());
    }
}

/// Casts the tensor at place `k` of a list of tensors.
pub(crate) fn push_cast<T: PrecisionType, U: PrecisionType, const N: usize>(
    context: &mut GpuContext,
    t: Tensor<T, N>,
    Ghost(d): Ghost<DeviceView>,
    Ghost(ts): Ghost<Seq<TensorView>>,
    Ghost(k): Ghost<int>,
) -> (r: Result<Tensor<U, N>, Error>)
    requires
        old(context).wf(),
        t.wf(),
        T::format() != U::format(),
        0 <= k < ts.len(),
        t@ == ts[k],
        castable(t@, old(context)@.tile_dim),
        old(context)@ == cast_all(d, T::format(), U::format(), ts.take(k)),
    ensures
        final(context).wf(),
        final(context)@ == cast_all(d, T::format(), U::format(), ts.take(k + 1)),
        r matches Ok(c) && c.wf() && c@ == cast_tensor(d, T::format(), U::format(), ts, k),
{
    broadcast use lemma_countable;

    assert(ts.take(k + 1).drop_last() == ts.take(k));
    t.cast(context)
}

/// The bit patterns of numbers.
pub open spec fn patterns<T: PrecisionType>(v: Seq<T>) -> Seq<u32> {
    v.map_values(|x: T| x.pattern())
}

/// The bit patterns of numbers.
pub fn to_patterns<T: PrecisionType>(v: &[T]) -> (r: Vec<u32>)
    ensures
        r@ == patterns(v@),
{
    let mut bits: Vec<u32> = Vec::with_capacity(v.len());
    let mut i: usize = 0;
    while i < v.len()
        invariant
            i <= v@.len(),
            bits@ == patterns(v@.take(i as int)),
        decreases v@.len() - i,
    {
        bits.push(v[i].to_pattern());
        i += 1;
        assert(bits@ == patterns(v@.take(i as int)));
    }
    assert(v@.take(i as int) == v@);
    bits
}

impl<T: PrecisionType> Tensor<T, 1> {
    /// The number of elements.
    #[must_use]
    pub fn len(&self) -> (r: usize)
        requires
            self.wf(),
        ensures
            r == self@.shape[0],
    {
        self.shape[0]
    }

    /// Returns `true` if the tensor has no elements.
    #[must_use]
    pub fn is_empty(&self) -> (r: bool)
        requires
            self.wf(),
        ensures
            r == (self@.shape[0] == 0),
    {
        self.len() == 0
    }
}

impl<T: PrecisionType> Tensor<T, 2> {
    /// The number of rows.
    #[must_use]
    pub fn rows(&self) -> (r: usize)
        requires
            self.wf(),
        ensures
            r == self@.shape[0],
    {
        self.shape[0]
    }

    /// The number of columns.
    #[must_use]
    pub fn cols(&self) -> (r: usize)
        requires
            self.wf(),
        ensures
            r == self@.shape[1],
    {
        self.shape[1]
    }

    /// The matrix that this tensor holds, given the numbers that were fetched from its buffer.
    #[must_use]
    pub fn downloaded(&self, data: Vec<T>) -> (r: Matrix<T>)
        requires
            self.wf(),
            data@.len() == element_count(self@.shape),
        ensures
            r.wf(),
            r.rows == self@.shape[0],
            r.cols == self@.shape[1],
            r.v == data,
    {
        proof {
            lemma_plane_count(self@.shape);
        }
        Matrix { rows: self.rows(), cols: self.cols(), v: data }
    }
}

impl<T: PrecisionType> Tensor<T, 4> {
    /// Returns the size of the outermost dimension (Axis 0).
    ///
    /// Corresponds to batch size, or the number of output filters for weights.
    #[must_use]
    pub fn outer_dim(&self) -> (r: usize)
        requires
            self.wf(),
        ensures
            r == self@.shape[0],
    {
        self.shape[0]
    }

    /// Semantic alias for `outer_dim()`.
    #[must_use]
    pub fn batches(&self) -> (r: usize)
        requires
            self.wf(),
        ensures
            r == self@.shape[0],
    {
        self.outer_dim()
    }

    /// Semantic alias for `outer_dim()`.
    #[must_use]
    pub fn filters(&self) -> (r: usize)
        requires
            self.wf(),
        ensures
            r == self@.shape[0],
    {
        self.outer_dim()
    }

    /// The number of channels.
    #[must_use]
    pub fn channels(&self) -> (r: usize)
        requires
            self.wf(),
        ensures
            r == self@.shape[1],
    {
        self.shape[1]
    }

    /// The height of an image.
    #[must_use]
    pub fn height(&self) -> (r: usize)
        requires
            self.wf(),
        ensures
            r == self@.shape[2],
    {
        self.shape[2]
    }

    /// The width of an image.
    #[must_use]
    pub fn width(&self) -> (r: usize)
        requires
            self.wf(),
        ensures
            r == self@.shape[3],
    {
        self.shape[3]
    }

    /// The images that this tensor holds, given the numbers that were fetched from its buffer.
    #[must_use]
    pub fn downloaded(&self, data: Vec<T>) -> (r: ImageBatch<T>)
        requires
            self.wf(),
            data@.len() == element_count(self@.shape),
        ensures
            r.wf(),
            r.n == self@.shape[0],
            r.c == self@.shape[1],
            r.h == self@.shape[2],
            r.w == self@.shape[3],
            r.v == data,
    {
        proof {
            lemma_volume_count(self@.shape);
        }
        ImageBatch {
            n: self.batches(),
            c: self.channels(),
            h: self.height(),
            w: self.width(),
            v: data,
        }
    }
}

/// Marks the containers on the host that a tensor is the counterpart of; no other type can join them.
pub trait TensorSealed {

}

impl<T: PrecisionType> TensorSealed for Vec<T> {

}

impl<T: PrecisionType> TensorSealed for Matrix<T> {

}

impl<T: PrecisionType> TensorSealed for ImageBatch<T> {

}

/// A container on the host that a tensor is the counterpart of.
pub trait TensorContainerType: TensorSealed {
    /// The shape of the tensor.
    type ShapeArray;

    /// The number of axes of the tensor.
    spec fn axes() -> nat;

    /// The sizes of a shape.
    spec fn sizes(shape: Self::ShapeArray) -> Seq<usize>;

    /// Takes the shape of the tensor from the front of a list of sizes.
    fn shape_from_slice(slice: &[usize]) -> (r: Self::ShapeArray)
        requires
            slice@.len() >= Self::axes(),
        ensures
            Self::sizes(r) == slice@.take(Self::axes() as int),
    ;
}

impl<T: PrecisionType> TensorContainerType for Vec<T> {
    type ShapeArray = [usize; 1];

    open spec fn axes() -> nat {
        1
    }

    open spec fn sizes(shape: [usize; 1]) -> Seq<usize> {
        shape@
    }

    fn shape_from_slice(slice: &[usize]) -> (r: [usize; 1]) {
        let shape: [usize; 1] = [slice[0]];
        assert(shape@ =~= slice@.take(1));
        shape
    }
}

impl<T: PrecisionType> TensorContainerType for Matrix<T> {
    type ShapeArray = [usize; 2];

    open spec fn axes() -> nat {
        2
    }

    open spec fn sizes(shape: [usize; 2]) -> Seq<usize> {
        shape@
    }

    fn shape_from_slice(slice: &[usize]) -> (r: [usize; 2]) {
        let shape: [usize; 2] = [slice[0], slice[1]];
        assert(shape@ =~= slice@.take(2));
        shape
    }
}

impl<T: PrecisionType> TensorContainerType for ImageBatch<T> {
    type ShapeArray = [usize; 4];

    open spec fn axes() -> nat {
        4
    }

    open spec fn sizes(shape: [usize; 4]) -> Seq<usize> {
        shape@
    }

    fn shape_from_slice(slice: &[usize]) -> (r: [usize; 4]) {
        let shape: [usize; 4] = [slice[0], slice[1], slice[2], slice[3]];
        assert(shape@ =~= slice@.take(4));
        shape
    }
}

} // verus!
