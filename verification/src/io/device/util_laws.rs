//! What the work on single buffers amounts to, and what a change of precision leaves of a layer.

use vstd::prelude::*;

use crate::conv::{cast_conv, conv_tensors, ConvView};
use crate::io::device::launch_laws::is_plane;
use crate::io::device::meaning::{
    after, law_work_goes_on_from_work, lemma_one, lemma_single, lemma_waited, part, work, Contents,
    Work,
};
use crate::io::device::signature::{is_well_typed, Param};
use crate::io::device::util_device::{
    broadcast_ops, broadcast_refusal, cast_ops, cast_refusal, matrix_add_ops, matrix_mul_ops,
};
use crate::io::device::{
    law_plane_launch_covers, law_tiles_cover, tile_area, DeviceSlice, DeviceView, Kernel, OpView,
};
use crate::util::precision::Precision;
use crate::util::tensor::{
    cast_all, cast_outcome, cast_tensor, copied, element_count, made, made_all, made_tensor,
    next_slice, with_zeros, Fill, Recipe, TensorView,
};

verus! {

/// The numbers of a buffer, turned from one format into another one.
pub open spec fn cast_of(of: Contents, from: Precision, to: Precision, len: int) -> Contents {
    part(Param::Destination, from, Work::Cast { of, from, to, len })
}

/// A cast turns every number of the source into the format of the destination, and changes nothing
/// else.
pub proof fn law_cast_fills_the_destination(
    c: Map<usize, Contents>,
    tile_dim: u32,
    from: Precision,
    src: DeviceSlice,
    to: Precision,
    dst: DeviceSlice,
)
    requires
        cast_refusal(from, src, to, dst) is None,
    ensures
        ({
            let r = after(c, cast_ops(tile_dim, from, src, dst));
            &&& r[dst.tensor] == cast_of(c[src.tensor], from, to, src.len as int)
            &&& src.len == dst.len && from != to
            &&& forall|id: usize| id != dst.tensor ==> (#[trigger] r[id]) == c[id]
        }),
{
    let ops = cast_ops(tile_dim, from, src, dst);
    let k = ops[0]->kernel;
    let args = ops[0]->args;
    lemma_single(c, ops[0]);
    assert(ops == seq![ops[0]]);
    lemma_one(c, k, from, args, work(c, k, args), Param::Destination);
}

/// A fill leaves one number throughout a buffer, and changes nothing else.
pub proof fn law_fill_leaves_one_number(
    c: Map<usize, Contents>,
    tile_dim: u32,
    precision: Precision,
    dst: DeviceSlice,
    pattern: u32,
)
    requires
        broadcast_refusal(dst.len) is None,
    ensures
        ({
            let r = after(c, broadcast_ops(tile_dim, precision, dst, pattern));
            &&& r[dst.tensor] == (Contents::Filled { precision, pattern, len: dst.len as int })
            &&& forall|id: usize| id != dst.tensor ==> (#[trigger] r[id]) == c[id]
        }),
{
    let ops = broadcast_ops(tile_dim, precision, dst, pattern);
    lemma_single(c, ops[0]);
    assert(ops == seq![ops[0]]);
}

/// The threads of a cast and of a fill reach every number of the buffer, and their arguments are
/// made of what the kernels take.
pub proof fn law_lines_are_reached(
    tile_dim: u32,
    precision: Precision,
    src: DeviceSlice,
    dst: DeviceSlice,
    pattern: u32,
)
    requires
        1 <= tile_dim,
        tile_area(tile_dim) <= u32::MAX,
        src.len <= u32::MAX,
        dst.len <= u32::MAX,
    ensures
        ({
            let op = cast_ops(tile_dim, precision, src, dst)[0];
            let config = op->config;
            &&& is_well_typed(op)
            &&& src.len <= config.grid_dim.0 * config.block_dim.0 < src.len + config.block_dim.0
        }),
        ({
            let op = broadcast_ops(tile_dim, precision, dst, pattern)[0];
            let config = op->config;
            &&& is_well_typed(op)
            &&& dst.len <= config.grid_dim.0 * config.block_dim.0 < dst.len + config.block_dim.0
        }),
{
    assert(1 <= tile_dim * tile_dim) by (nonlinear_arith)
        requires
            1 <= tile_dim,
    ;
    law_tiles_cover(src.len as int, tile_area(tile_dim));
    law_tiles_cover(dst.len as int, tile_area(tile_dim));
}

/// A product of matrices is that of the first one, of `m` rows and `n` columns, by the second one,
/// of `n` rows and `p` columns; it goes into the third one, a thread works out each of its numbers,
/// and nothing else changes.
pub proof fn law_product_of_matrices(
    c: Map<usize, Contents>,
    tile_dim: u32,
    precision: Precision,
    left: DeviceSlice,
    m: usize,
    n: usize,
    right: DeviceSlice,
    p: usize,
    to: DeviceSlice,
)
    requires
        1 <= tile_dim,
        m <= u32::MAX,
        p <= u32::MAX,
        2 * tile_area(tile_dim) * precision.width() <= u32::MAX,
    ensures
        ({
            let ops = matrix_mul_ops(tile_dim, precision, left, m, n, right, p, to);
            let r = after(c, ops);
            &&& r[to.tensor] == part(
                Param::Output,
                precision,
                Work::Product {
                    left: c[left.tensor],
                    right: c[right.tensor],
                    rows: m as int,
                    inner: n as int,
                    columns: p as int,
                    tile: tile_dim as int,
                },
            )
            &&& forall|id: usize| id != to.tensor ==> (#[trigger] r[id]) == c[id]
            &&& is_well_typed(ops[0]) && is_plane(ops[0]->config, p as int, m as int)
            &&& ops[0]->config.shared_mem_bytes == 2 * (tile_dim * tile_dim) * precision.width()
            &&& ops.last() == OpView::Synchronize
        }),
{
    let ops = matrix_mul_ops(tile_dim, precision, left, m, n, right, p, to);
    let k = Kernel::Gemm;
    let args = ops[0]->args;
    lemma_waited(c, ops[0]);
    assert(ops == seq![ops[0], OpView::Synchronize]);
    lemma_one(c, k, precision, args, work(c, k, args), Param::Output);
    assert(0 <= 2 * (tile_dim * tile_dim) * precision.width()) by (nonlinear_arith)
        requires
            precision.width() >= 0,
    ;
    law_plane_launch_covers(tile_dim, p as int, m as int, ops[0]->config.shared_mem_bytes);
}

/// A sum of matrices of `m` rows and `n` columns goes into the third one, a thread works out each of
/// its numbers, and nothing else changes.
pub proof fn law_sum_of_matrices(
    c: Map<usize, Contents>,
    tile_dim: u32,
    precision: Precision,
    left: DeviceSlice,
    m: usize,
    n: usize,
    right: DeviceSlice,
    to: DeviceSlice,
)
    requires
        1 <= tile_dim,
        m <= u32::MAX,
        n <= u32::MAX,
    ensures
        ({
            let ops = matrix_add_ops(tile_dim, precision, left, m, n, right, to);
            let r = after(c, ops);
            &&& r[to.tensor] == part(
                Param::Output,
                precision,
                Work::Sum {
                    left: c[left.tensor],
                    right: c[right.tensor],
                    rows: m as int,
                    columns: n as int,
                },
            )
            &&& forall|id: usize| id != to.tensor ==> (#[trigger] r[id]) == c[id]
            &&& is_well_typed(ops[0]) && is_plane(ops[0]->config, n as int, m as int)
            &&& ops.last() == OpView::Synchronize
        }),
{
    let ops = matrix_add_ops(tile_dim, precision, left, m, n, right, to);
    let k = Kernel::Geam;
    let args = ops[0]->args;
    lemma_waited(c, ops[0]);
    assert(ops == seq![ops[0], OpView::Synchronize]);
    lemma_one(c, k, precision, args, work(c, k, args), Param::Output);
    law_plane_launch_covers(tile_dim, n as int, m as int, 0);
}

/// The buffers once the work is carried out that a device has queued since an earlier time.
pub open spec fn left(c: Map<usize, Contents>, earlier: DeviceView, now: DeviceView) -> Map<
    usize,
    Contents,
> {
    after(c, now.queue.skip(earlier.queue.len() as int))
}

/// More work starts from what is left so far.
pub proof fn lemma_left(
    c: Map<usize, Contents>,
    earlier: DeviceView,
    now: DeviceView,
    ops: Seq<OpView>,
)
    requires
        earlier.queue.len() <= now.queue.len(),
    ensures
        left(c, earlier, now.then_run(ops)) == after(left(c, earlier, now), ops),
        left(c, earlier, now.then_run(ops).id_taken()) == after(left(c, earlier, now), ops),
        now.queue.len() <= now.then_run(ops).queue.len(),
{
    let n = earlier.queue.len() as int;
    assert((now.queue + ops).skip(n) == now.queue.skip(n) + ops);
    law_work_goes_on_from_work(c, now.queue.skip(n), ops);
}

/// Nothing is done yet.
pub proof fn lemma_left_nothing(c: Map<usize, Contents>, d: DeviceView)
    ensures
        left(c, d, d) == c,
{
    assert(d.queue.skip(d.queue.len() as int) == Seq::<OpView>::empty());
}

/// A new tensor holds zeros.
pub proof fn lemma_zeros(
    c: Map<usize, Contents>,
    earlier: DeviceView,
    now: DeviceView,
    precision: Precision,
    shape: Seq<usize>,
)
    requires
        earlier.queue.len() <= now.queue.len(),
    ensures
        ({
            let next = with_zeros(now, precision, shape);
            &&& left(c, earlier, next) == left(c, earlier, now).insert(
                now.next_id,
                Contents::Filled {
                    precision,
                    pattern: 0,
                    len: element_count(shape) as usize as int,
                },
            )
            &&& earlier.queue.len() <= next.queue.len()
            &&& next.next_id == now.next_id.wrapping_add(1)
        }),
{
    let op = OpView::Allocate { tensor: now.next_id, precision, len: element_count(shape) as usize };
    lemma_left(c, earlier, now, seq![op, OpView::Synchronize]);
    lemma_waited(left(c, earlier, now), op);
}

/// What a recipe fills a tensor with: zeros, one number throughout, or numbers of the host.
pub open spec fn fill_of(recipe: Recipe) -> Contents {
    let len = element_count(recipe.shape) as usize as int;
    match recipe.fill {
        Fill::Zeros => Contents::Filled { precision: recipe.precision, pattern: 0, len },
        Fill::Constant(pattern) => Contents::Filled { precision: recipe.precision, pattern, len },
        Fill::Host { held, numbers } => Contents::Host {
            precision: recipe.precision,
            held,
            numbers,
        },
    }
}

/// A new tensor, behind other work.
pub proof fn lemma_made(
    c: Map<usize, Contents>,
    earlier: DeviceView,
    d: DeviceView,
    recipe: Recipe,
)
    requires
        earlier.queue.len() <= d.queue.len(),
        made(d, recipe).1 is None,
    ensures
        ({
            let before = left(c, earlier, d);
            let e = made(d, recipe).0;
            let r = left(c, earlier, e);
            &&& r[d.next_id] == fill_of(recipe)
            &&& forall|id: usize| id != d.next_id ==> (#[trigger] r[id]) == before[id]
            &&& earlier.queue.len() <= e.queue.len()
            &&& e.next_id == d.next_id.wrapping_add(1)
        }),
{
    match recipe.fill {
        Fill::Zeros => {
            lemma_zeros(c, earlier, d, recipe.precision, recipe.shape);
        },
        Fill::Constant(pattern) => {
            let zeroed = with_zeros(d, recipe.precision, recipe.shape);
            lemma_zeros(c, earlier, d, recipe.precision, recipe.shape);
            let slice = next_slice(d, recipe.shape);
            lemma_left(
                c,
                earlier,
                zeroed,
                broadcast_ops(d.tile_dim, recipe.precision, slice, pattern),
            );
            law_fill_leaves_one_number(
                left(c, earlier, zeroed),
                d.tile_dim,
                recipe.precision,
                slice,
                pattern,
            );
        },
        Fill::Host { held, numbers } => {
            let op = OpView::Upload {
                tensor: d.next_id,
                precision: recipe.precision,
                held,
                numbers,
            };
            lemma_left(c, earlier, d, seq![op, OpView::Synchronize]);
            lemma_waited(left(c, earlier, d), op);
        },
    }
}

/// A new tensor holds what its recipe says: zeros, one number throughout, or numbers of the host.
/// No other tensor changes.
pub proof fn law_new_tensor_holds_its_fill(c: Map<usize, Contents>, d: DeviceView, recipe: Recipe)
    requires
        made(d, recipe).1 is None,
    ensures
        ({
            let r = left(c, d, made(d, recipe).0);
            let len = element_count(recipe.shape) as usize as int;
            &&& r[d.next_id] == match recipe.fill {
                Fill::Zeros => Contents::Filled { precision: recipe.precision, pattern: 0, len },
                Fill::Constant(pattern) => Contents::Filled {
                    precision: recipe.precision,
                    pattern,
                    len,
                },
                Fill::Host { held, numbers } => Contents::Host {
                    precision: recipe.precision,
                    held,
                    numbers,
                },
            }
            &&& recipe.fill matches Fill::Host { held, numbers } ==> numbers.len() == len
            &&& forall|id: usize| id != d.next_id ==> (#[trigger] r[id]) == c[id]
        }),
{
    lemma_left_nothing(c, d);
    lemma_made(c, d, d, recipe);
}

/// Tensors that are made one after the other leave older ones alone, and take the next ids.
pub proof fn lemma_made_keeps(
    c: Map<usize, Contents>,
    earlier: DeviceView,
    d: DeviceView,
    recipes: Seq<Recipe>,
    id: usize,
)
    requires
        earlier.queue.len() <= d.queue.len(),
        made_all(d, recipes).1 is None,
        d.next_id + recipes.len() <= usize::MAX,
    ensures
        ({
            let e = made_all(d, recipes).0;
            &&& earlier.queue.len() <= e.queue.len()
            &&& e.next_id == d.next_id + recipes.len()
            &&& id < d.next_id ==> left(c, earlier, e)[id] == left(c, earlier, d)[id]
        }),
    decreases recipes.len(),
{
    if recipes.len() > 0 {
        let rest = recipes.drop_last();
        lemma_made_keeps(c, earlier, d, rest, id);
        lemma_made(c, earlier, made_all(d, rest).0, recipes.last());
    }
}

/// Each of the tensors that are made one after the other holds what its recipe says.
pub proof fn lemma_made_holds(
    c: Map<usize, Contents>,
    earlier: DeviceView,
    d: DeviceView,
    recipes: Seq<Recipe>,
    k: int,
)
    requires
        earlier.queue.len() <= d.queue.len(),
        made_all(d, recipes).1 is None,
        d.next_id + recipes.len() <= usize::MAX,
        0 <= k < recipes.len(),
    ensures
        made_tensor(d, recipes, k).id == d.next_id + k,
        left(c, earlier, made_all(d, recipes).0)[(d.next_id + k) as usize] == fill_of(recipes[k]),
    decreases recipes.len(),
{
    let rest = recipes.drop_last();
    let m = made_all(d, rest).0;
    lemma_made_keeps(c, earlier, d, rest, 0);
    lemma_made(c, earlier, m, recipes.last());
    if k < recipes.len() - 1 {
        lemma_made_holds(c, earlier, d, rest, k);
        assert(rest.take(k) == recipes.take(k));
        assert(rest[k] == recipes[k]);
    } else {
        assert(recipes.take(k) == rest);
    }
}

/// A copy of a tensor holds what the tensor holds.
pub proof fn lemma_copied(
    c: Map<usize, Contents>,
    earlier: DeviceView,
    now: DeviceView,
    t: TensorView,
)
    requires
        earlier.queue.len() <= now.queue.len(),
    ensures
        left(c, earlier, copied(now, t)) == left(c, earlier, now).insert(
            now.next_id,
            left(c, earlier, now)[t.id],
        ),
        earlier.queue.len() <= copied(now, t).queue.len(),
{
    let op = OpView::Duplicate { tensor: now.next_id, source: t.id };
    lemma_left(c, earlier, now, seq![op]);
    lemma_single(left(c, earlier, now), op);
}

/// Buffers that are given back leave the others alone.
pub proof fn lemma_freed(c: Map<usize, Contents>, ops: Seq<OpView>, id: usize)
    requires
        forall|i: int|
            0 <= i < ops.len() ==> ((#[trigger] ops[i]) is Synchronize || (ops[i] is Free
                && ops[i]->Free_tensor != id)),
    ensures
        after(c, ops)[id] == c[id],
    decreases ops.len(),
{
    if ops.len() > 0 {
        assert(ops[ops.len() - 1] == ops.last());
        assert forall|i: int| 0 <= i < ops.drop_last().len() implies ((
        #[trigger] ops.drop_last()[i]) is Synchronize || (ops.drop_last()[i] is Free
            && ops.drop_last()[i]->Free_tensor != id)) by {
            assert(ops.drop_last()[i] == ops[i]);
        }
        lemma_freed(c, ops.drop_last(), id);
    }
}

/// A tensor that is cast is given back, and the numbers that it held stand in the next tensor, in the
/// other format. No other tensor changes.
pub proof fn lemma_cast(
    c: Map<usize, Contents>,
    earlier: DeviceView,
    now: DeviceView,
    from: Precision,
    to: Precision,
    t: TensorView,
)
    requires
        earlier.queue.len() <= now.queue.len(),
        from != to,
        element_count(t.shape) <= u32::MAX,
        t.id != now.next_id,
    ensures
        ({
            let before = left(c, earlier, now);
            let next = cast_outcome(now, from, to, t).0;
            let r = left(c, earlier, next);
            &&& r[now.next_id] == cast_of(before[t.id], from, to, element_count(t.shape) as int)
            &&& forall|id: usize|
                id != now.next_id && id != t.id ==> (#[trigger] r[id]) == before[id]
            &&& earlier.queue.len() <= next.queue.len()
            &&& next.next_id == now.next_id.wrapping_add(1)
        }),
{
    let before = left(c, earlier, now);
    let zeroed = with_zeros(now, to, t.shape);
    let target = next_slice(now, t.shape);
    lemma_zeros(c, earlier, now, to, t.shape);
    let ops = cast_ops(now.tile_dim, from, t.slice(), target);
    lemma_left(c, earlier, zeroed, ops);
    law_cast_fills_the_destination(
        left(c, earlier, zeroed),
        now.tile_dim,
        from,
        t.slice(),
        to,
        target,
    );
    let cast = zeroed.then_run(ops);
    let frees = seq![OpView::Free { tensor: t.id }, OpView::Synchronize];
    lemma_left(c, earlier, cast, frees);
    let m = left(c, earlier, cast);
    let next = cast_outcome(now, from, to, t).0;
    let r = left(c, earlier, next);
    assert(r == after(m, frees));
    lemma_freed(m, frees, now.next_id);
    assert forall|id: usize| id != now.next_id && id != t.id implies (#[trigger] r[id])
        == before[id] by {
        lemma_freed(m, frees, id);
    }
}

/// Tensors that are to be cast one after the other: each one has a buffer of its own, older than any
/// that the casts make, and the casts can count its numbers.
pub open spec fn are_castable(d: DeviceView, ts: Seq<TensorView>) -> bool {
    &&& d.next_id + ts.len() <= usize::MAX
    &&& forall|i: int|
        0 <= i < ts.len() ==> (#[trigger] ts[i]).id < d.next_id && element_count(ts[i].shape)
            <= u32::MAX
    &&& forall|i: int, j: int|
        0 <= i < j < ts.len() ==> (#[trigger] ts[i]).id != (#[trigger] ts[j]).id
}

/// Tensors that are cast one after the other: the numbers of each of them stand in the tensor that
/// takes its place, in the other format, and tensors beside them do not change.
#[verifier::rlimit(40)]
pub proof fn lemma_cast_all(
    c: Map<usize, Contents>,
    earlier: DeviceView,
    d: DeviceView,
    from: Precision,
    to: Precision,
    ts: Seq<TensorView>,
)
    requires
        earlier.queue.len() <= d.queue.len(),
        from != to,
        are_castable(d, ts),
    ensures
        ({
            let before = left(c, earlier, d);
            let e = cast_all(d, from, to, ts);
            let r = left(c, earlier, e);
            &&& earlier.queue.len() <= e.queue.len()
            &&& e.next_id == d.next_id + ts.len()
            &&& forall|k: int|
                #![trigger ts[k]]
                0 <= k < ts.len() ==> {
                    &&& r[(d.next_id + k) as usize] == cast_of(
                        before[ts[k].id],
                        from,
                        to,
                        element_count(ts[k].shape) as int,
                    )
                    &&& cast_tensor(d, from, to, ts, k).id == d.next_id + k
                }
            &&& forall|id: usize|
                id < d.next_id && (forall|k: int| 0 <= k < ts.len() ==> (#[trigger] ts[k]).id != id)
                    ==> (#[trigger] r[id]) == before[id]
        }),
    decreases ts.len(),
{
    let before = left(c, earlier, d);
    if ts.len() > 0 {
        let rest = ts.drop_last();
        let t = ts.last();
        let n = rest.len() as int;
        assert(ts[n] == t);
        assert forall|i: int| 0 <= i < rest.len() implies (#[trigger] rest[i]) == ts[i] by {}
        lemma_cast_all(c, earlier, d, from, to, rest);
        let m = cast_all(d, from, to, rest);
        lemma_cast(c, earlier, m, from, to, t);
        let middle = left(c, earlier, m);
        assert(middle[t.id] == before[t.id]);
        let e = cast_all(d, from, to, ts);
        let r = left(c, earlier, e);
        assert forall|k: int| #![trigger ts[k]] 0 <= k < ts.len() implies {
            &&& r[(d.next_id + k) as usize] == cast_of(
                before[ts[k].id],
                from,
                to,
                element_count(ts[k].shape) as int,
            )
            &&& cast_tensor(d, from, to, ts, k).id == d.next_id + k
        } by {
            if k < n {
                assert(rest[k] == ts[k]);
                assert(cast_tensor(d, from, to, rest, k).id == d.next_id + k);
                assert(rest.take(k) == ts.take(k));
            } else {
                assert(ts.take(n) == rest);
            }
        }
        assert forall|id: usize|
            id < d.next_id && (forall|k: int|
                0 <= k < ts.len() ==> (#[trigger] ts[k]).id != id) implies (#[trigger] r[id])
            == before[id] by {
            assert forall|k: int| 0 <= k < rest.len() implies (#[trigger] rest[k]).id != id by {
                assert(rest[k] == ts[k]);
            }
            assert(middle[id] == before[id]);
            assert(ts[n].id != id);
        }
    }
}

/// One tensor holds what another one held, in the other format.
pub open spec fn is_cast(
    before: Map<usize, Contents>,
    now: Map<usize, Contents>,
    from: Precision,
    to: Precision,
    old_one: TensorView,
    new_one: TensorView,
) -> bool {
    now[new_one.id] == cast_of(
        before[old_one.id],
        from,
        to,
        element_count(old_one.shape) as int,
    )
}

/// One of several tensors that are cast one after the other.
proof fn lemma_cast_one(
    c: Map<usize, Contents>,
    d: DeviceView,
    from: Precision,
    to: Precision,
    ts: Seq<TensorView>,
    k: int,
)
    requires
        from != to,
        are_castable(d, ts),
        0 <= k < ts.len(),
    ensures
        is_cast(
            c,
            left(c, d, cast_all(d, from, to, ts)),
            from,
            to,
            ts[k],
            cast_tensor(d, from, to, ts, k),
        ),
{
    lemma_left_nothing(c, d);
    lemma_cast_all(c, d, d, from, to, ts);
    assert(ts[k] == ts[k]);
}

/// A convolutional layer that changes its precision keeps its numbers: each of its tensors holds
/// what the tensor in its place held, in the other format.
pub proof fn law_conv_layer_is_cast(
    c: Map<usize, Contents>,
    d: DeviceView,
    from: Precision,
    to: Precision,
    b: ConvView,
)
    requires
        from != to,
        are_castable(d, conv_tensors(b)),
    ensures
        ({
            let (e, h) = cast_conv(d, from, to, b);
            let r = left(c, d, e);
            &&& is_cast(c, r, from, to, b.weights, h.weights)
            &&& is_cast(c, r, from, to, b.biases, h.biases)
            &&& is_cast(c, r, from, to, b.cache.features, h.cache.features)
            &&& is_cast(c, r, from, to, b.cache.predrop_features, h.cache.predrop_features)
            &&& is_cast(c, r, from, to, b.cache.prepooling_features, h.cache.prepooling_features)
            &&& is_cast(c, r, from, to, b.cache.preact_features, h.cache.preact_features)
            &&& is_cast(c, r, from, to, b.mask, h.mask)
            &&& b.norm matches Some(n) ==> h.norm matches Some(m) && {
                &&& is_cast(c, r, from, to, n.norm_weights, m.norm_weights)
                &&& is_cast(c, r, from, to, n.norm_biases, m.norm_biases)
                &&& is_cast(c, r, from, to, n.centered_features, m.centered_features)
                &&& is_cast(c, r, from, to, n.prenorm_features, m.prenorm_features)
                &&& is_cast(c, r, from, to, n.norm_rstd, m.norm_rstd)
            }
        }),
{
    let ts = conv_tensors(b);
    lemma_cast_one(c, d, from, to, ts, 0);
    lemma_cast_one(c, d, from, to, ts, 1);
    lemma_cast_one(c, d, from, to, ts, 2);
    lemma_cast_one(c, d, from, to, ts, 3);
    lemma_cast_one(c, d, from, to, ts, 4);
    lemma_cast_one(c, d, from, to, ts, 5);
    lemma_cast_one(c, d, from, to, ts, 6);
    assert(ts[0] == b.weights && ts[1] == b.biases && ts[2] == b.cache.features && ts[3]
        == b.cache.predrop_features && ts[4] == b.cache.prepooling_features && ts[5]
        == b.cache.preact_features);
    if b.norm is Some {
        let n = b.norm->0;
        lemma_cast_one(c, d, from, to, ts, 7);
        lemma_cast_one(c, d, from, to, ts, 8);
        lemma_cast_one(c, d, from, to, ts, 9);
        lemma_cast_one(c, d, from, to, ts, 10);
        lemma_cast_one(c, d, from, to, ts, 11);
        assert(ts[6] == n.norm_weights && ts[7] == n.norm_biases && ts[8] == n.centered_features
            && ts[9] == n.prenorm_features && ts[10] == n.norm_rstd && ts[11] == b.mask);
    } else {
        assert(ts[6] == b.mask);
    }
}

} // verus!
