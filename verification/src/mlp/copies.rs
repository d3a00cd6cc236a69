//! What becomes of the weights and biases of a layer that changes its precision: they are copied on
//! the device, number by number, and never pass through half precision on their way back.

use vstd::prelude::*;

use crate::io::device::util_device::cast_ops;
use crate::io::device::{DeviceView, KernelArg, OpView};
use crate::mlp::state::{doubled, halved, optional_free, ParamView};
use crate::mlp::{doubled_block, halved_block, DenseView};
use crate::util::precision::Precision;
use crate::util::tensor::{
    cast_all, cast_outcome, cast_tensor, copied, free_ops, next_like, next_slice, TensorView,
};

verus! {

/// A piece of work changes the buffer of a tensor, or does away with it. A kernel may change every
/// buffer that it is handed.
pub open spec fn changes(op: OpView, id: usize) -> bool {
    match op {
        OpView::Allocate { tensor, precision, len } => tensor == id,
        OpView::Upload { tensor, precision, held, numbers } => tensor == id,
        OpView::Duplicate { tensor, source } => tensor == id,
        OpView::Adopt { tensor, source } => tensor == id || source == id,
        OpView::Inset { tensor, source, planes, inner, outer } => tensor == id,
        OpView::Launch { kernel, precision, args, config } => args.contains(KernelArg::Tensor(id)),
        OpView::Synchronize => false,
        OpView::Free { tensor } => tensor == id,
    }
}

/// The work of a device goes on from that of another one, and changes nothing about the buffer of a
/// tensor.
pub open spec fn untouched(d: DeviceView, e: DeviceView, id: usize) -> bool {
    &&& d.queue.len() <= e.queue.len()
    &&& forall|i: int| 0 <= i < d.queue.len() ==> #[trigger] e.queue[i] == d.queue[i]
    &&& forall|i: int| d.queue.len() <= i < e.queue.len() ==> !changes(#[trigger] e.queue[i], id)
}

/// The work of a device goes on from that of another one, and leaves one buffer with the numbers that
/// another one held at first: up to the copy nothing changes the one, and after it nothing changes
/// the other.
pub open spec fn is_copied(d: DeviceView, e: DeviceView, from: usize, to: usize) -> bool {
    &&& d.queue.len() <= e.queue.len()
    &&& forall|i: int| 0 <= i < d.queue.len() ==> #[trigger] e.queue[i] == d.queue[i]
    &&& exists|i: int|
        {
            &&& d.queue.len() <= i < e.queue.len()
            &&& #[trigger] e.queue[i] == (OpView::Duplicate { tensor: to, source: from })
            &&& forall|j: int|
                d.queue.len() <= j < i ==> !changes(#[trigger] e.queue[j], from)
            &&& forall|j: int| i < j < e.queue.len() ==> !changes(#[trigger] e.queue[j], to)
        }
}

/// What is left alone twice is left alone.
proof fn lemma_untouched_twice(d: DeviceView, m: DeviceView, e: DeviceView, id: usize)
    requires
        untouched(d, m, id),
        untouched(m, e, id),
    ensures
        untouched(d, e, id),
{
    assert forall|i: int| 0 <= i < d.queue.len() implies #[trigger] e.queue[i] == d.queue[i] by {
        assert(m.queue[i] == d.queue[i]);
    }
    assert forall|i: int| d.queue.len() <= i < e.queue.len() implies !changes(
        #[trigger] e.queue[i],
        id,
    ) by {
        if i < m.queue.len() {
            assert(e.queue[i] == m.queue[i]);
        }
    }
}

/// What is copied after it was left alone is copied.
proof fn lemma_copied_later(d: DeviceView, m: DeviceView, e: DeviceView, from: usize, to: usize)
    requires
        untouched(d, m, from),
        is_copied(m, e, from, to),
    ensures
        is_copied(d, e, from, to),
{
    let i = choose|i: int|
        {
            &&& m.queue.len() <= i < e.queue.len()
            &&& #[trigger] e.queue[i] == (OpView::Duplicate { tensor: to, source: from })
            &&& forall|j: int|
                m.queue.len() <= j < i ==> !changes(#[trigger] e.queue[j], from)
            &&& forall|j: int| i < j < e.queue.len() ==> !changes(#[trigger] e.queue[j], to)
        };
    assert forall|j: int| 0 <= j < d.queue.len() implies #[trigger] e.queue[j] == d.queue[j] by {
        assert(m.queue[j] == d.queue[j]);
    }
    assert forall|j: int| d.queue.len() <= j < i implies !changes(#[trigger] e.queue[j], from) by {
        if j < m.queue.len() {
            assert(e.queue[j] == m.queue[j]);
        }
    }
    assert(e.queue[i] == (OpView::Duplicate { tensor: to, source: from }));
}

/// A copy that is left alone stays one.
proof fn lemma_copied_before(d: DeviceView, m: DeviceView, e: DeviceView, from: usize, to: usize)
    requires
        is_copied(d, m, from, to),
        untouched(m, e, to),
    ensures
        is_copied(d, e, from, to),
{
    let i = choose|i: int|
        {
            &&& d.queue.len() <= i < m.queue.len()
            &&& #[trigger] m.queue[i] == (OpView::Duplicate { tensor: to, source: from })
            &&& forall|j: int|
                d.queue.len() <= j < i ==> !changes(#[trigger] m.queue[j], from)
            &&& forall|j: int| i < j < m.queue.len() ==> !changes(#[trigger] m.queue[j], to)
        };
    assert(e.queue[i] == m.queue[i]);
    assert forall|j: int| 0 <= j < d.queue.len() implies #[trigger] e.queue[j] == d.queue[j] by {
        assert(m.queue[j] == d.queue[j]);
    }
    assert forall|j: int| d.queue.len() <= j < i implies !changes(#[trigger] e.queue[j], from) by {
        assert(e.queue[j] == m.queue[j]);
    }
    assert forall|j: int| i < j < e.queue.len() implies !changes(#[trigger] e.queue[j], to) by {
        if j < m.queue.len() {
            assert(e.queue[j] == m.queue[j]);
        }
    }
}

/// A tensor is copied to the next id, and nothing else happens.
proof fn lemma_copy(d: DeviceView, t: TensorView, id: usize)
    requires
        d.next_id < usize::MAX,
    ensures
        copied(d, t).next_id == d.next_id + 1,
        is_copied(d, copied(d, t), t.id, d.next_id),
        id != d.next_id ==> untouched(d, copied(d, t), id),
{
    let e = copied(d, t);
    let at = d.queue.len() as int;
    assert(e.queue[at] == (OpView::Duplicate { tensor: d.next_id, source: t.id }));
}

/// The buffer of another tensor is given back.
proof fn lemma_free(d: DeviceView, t: TensorView, id: usize)
    requires
        id != t.id,
    ensures
        untouched(d, d.then_run(free_ops(t)), id),
{
    let e = d.then_run(free_ops(t));
    assert(e.queue[d.queue.len() as int] == (OpView::Free { tensor: t.id }));
}

/// Another tensor is cast.
proof fn lemma_cast(d: DeviceView, from: Precision, to: Precision, t: TensorView, id: usize)
    requires
        d.next_id < usize::MAX,
    ensures
        cast_outcome(d, from, to, t).0.next_id == d.next_id + 1,
        id != d.next_id && id != t.id ==> untouched(d, cast_outcome(d, from, to, t).0, id),
{
    let e = cast_outcome(d, from, to, t).0;
    let n = d.queue.len() as int;
    if id != d.next_id && id != t.id {
        let args = seq![
            KernelArg::Tensor(t.id),
            KernelArg::Tensor(d.next_id),
            KernelArg::U32(t.slice().len as u32),
        ];
        assert(cast_ops(d.tile_dim, from, t.slice(), next_slice(d, t.shape))[0]->args == args);
        assert(!args.contains(KernelArg::Tensor(id)));
    }
}

/// Other tensors are cast one after the other.
proof fn lemma_cast_all(
    d: DeviceView,
    from: Precision,
    to: Precision,
    ts: Seq<TensorView>,
    id: usize,
)
    requires
        d.next_id + ts.len() <= usize::MAX,
    ensures
        cast_all(d, from, to, ts).next_id == d.next_id + ts.len(),
        (id < d.next_id || d.next_id + ts.len() <= id) && (forall|i: int|
            0 <= i < ts.len() ==> (#[trigger] ts[i]).id != id) ==> untouched(
            d,
            cast_all(d, from, to, ts),
            id,
        ),
    decreases ts.len(),
{
    if ts.len() > 0 {
        let before = ts.drop_last();
        lemma_cast_all(d, from, to, before, id);
        let m = cast_all(d, from, to, before);
        lemma_cast(m, from, to, ts.last(), id);
        if (id < d.next_id || d.next_id + ts.len() <= id) && (forall|i: int|
            0 <= i < ts.len() ==> (#[trigger] ts[i]).id != id) {
            assert forall|i: int| 0 <= i < before.len() implies (#[trigger] before[i]).id != id by {
                assert(before[i] == ts[i]);
            }
            assert(ts[ts.len() - 1].id != id);
            lemma_untouched_twice(d, m, cast_all(d, from, to, ts), id);
        }
    }
}

/// A tensor that may be missing is another one.
pub open spec fn is_other(t: Option<TensorView>, id: usize) -> bool {
    t matches Some(x) ==> x.id != id
}

/// The weights and biases of a state, and the copies of them, are other tensors.
pub open spec fn is_elsewhere(p: ParamView, id: usize) -> bool {
    p.w.id != id && p.b.id != id && is_other(p.master_w, id) && is_other(p.master_b, id)
}

/// The buffer of another tensor, which may be missing, is given back.
proof fn lemma_optional_free(d: DeviceView, t: Option<TensorView>, id: usize)
    requires
        is_other(t, id),
    ensures
        untouched(d, d.then_run(optional_free(t)), id),
{
    match t {
        Some(x) => {
            lemma_free(d, x, id);
        },
        None => {},
    }
}

/// The old buffers of a state are given back.
proof fn lemma_state_free(d: DeviceView, p: ParamView, id: usize)
    requires
        is_elsewhere(p, id),
    ensures
        untouched(
            d,
            d.then_run(
                free_ops(p.w) + free_ops(p.b) + optional_free(p.master_w) + optional_free(
                    p.master_b,
                ),
            ),
            id,
        ),
{
    let ops = free_ops(p.w) + free_ops(p.b) + optional_free(p.master_w) + optional_free(p.master_b);
    assert forall|i: int| 0 <= i < ops.len() implies !changes(#[trigger] ops[i], id) by {}
    let e = d.then_run(ops);
    assert forall|i: int| d.queue.len() <= i < e.queue.len() implies !changes(
        #[trigger] e.queue[i],
        id,
    ) by {
        assert(e.queue[i] == ops[i - d.queue.len()]);
    }
}

/// A state that goes to half precision takes six ids and leaves other tensors alone.
proof fn lemma_halved_elsewhere(d: DeviceView, p: ParamView, id: usize)
    requires
        d.next_id + 6 <= usize::MAX,
    ensures
        halved(d, p).0.next_id == d.next_id + 6,
        halved(d, p).1.w.id == d.next_id + 2,
        halved(d, p).1.b.id == d.next_id + 3,
        (halved(d, p).1.master_w->0).id == d.next_id + 4,
        (halved(d, p).1.master_b->0).id == d.next_id + 5,
        is_elsewhere(p, id) && (id < d.next_id || d.next_id + 6 <= id) ==> untouched(
            d,
            halved(d, p).0,
            id,
        ),
{
    let (full, half) = (Precision::FP32, Precision::FP16);
    let d1 = copied(d, p.w);
    let d2 = copied(d1, p.b);
    let d3 = cast_outcome(d2, full, half, next_like(d, p.w)).0;
    let d4 = cast_outcome(d3, full, half, next_like(d1, p.b)).0;
    let d5 = copied(d4, p.w);
    let d6 = copied(d5, p.b);
    lemma_copy(d, p.w, id);
    lemma_copy(d1, p.b, id);
    lemma_cast(d2, full, half, next_like(d, p.w), id);
    lemma_cast(d3, full, half, next_like(d1, p.b), id);
    lemma_copy(d4, p.w, id);
    lemma_copy(d5, p.b, id);
    if is_elsewhere(p, id) && (id < d.next_id || d.next_id + 6 <= id) {
        lemma_untouched_twice(d, d1, d2, id);
        lemma_untouched_twice(d, d2, d3, id);
        lemma_untouched_twice(d, d3, d4, id);
        lemma_untouched_twice(d, d4, d5, id);
        lemma_untouched_twice(d, d5, d6, id);
        lemma_state_free(d6, p, id);
        lemma_untouched_twice(d, d6, halved(d, p).0, id);
    }
}

/// A state that goes to half precision gets copies of its weights and biases.
proof fn lemma_halved_copies(d: DeviceView, p: ParamView)
    requires
        d.next_id + 6 <= usize::MAX,
        p.w.id < d.next_id,
        p.b.id < d.next_id,
        p.master_w matches Some(t) ==> t.id < d.next_id,
        p.master_b matches Some(t) ==> t.id < d.next_id,
    ensures
        is_copied(d, halved(d, p).0, p.w.id, (halved(d, p).1.master_w->0).id),
        is_copied(d, halved(d, p).0, p.b.id, (halved(d, p).1.master_b->0).id),
{
    let (full, half) = (Precision::FP32, Precision::FP16);
    let d1 = copied(d, p.w);
    let d2 = copied(d1, p.b);
    let d3 = cast_outcome(d2, full, half, next_like(d, p.w)).0;
    let d4 = cast_outcome(d3, full, half, next_like(d1, p.b)).0;
    let d5 = copied(d4, p.w);
    let d6 = copied(d5, p.b);
    let e = halved(d, p).0;
    let (w, b) = (p.w.id, p.b.id);
    lemma_halved_before(d, p, w);
    lemma_halved_before(d, p, b);
    let (to_w, to_b) = (d4.next_id, d5.next_id);
    lemma_copy(d4, p.w, b);
    lemma_copied_later(d, d4, d5, w, to_w);
    lemma_copy(d5, p.b, to_w);
    lemma_copied_before(d, d5, d6, w, to_w);
    lemma_state_free(d6, p, to_w);
    lemma_copied_before(d, d6, e, w, to_w);
    lemma_untouched_twice(d, d4, d5, b);
    lemma_copied_later(d, d5, d6, b, to_b);
    lemma_state_free(d6, p, to_b);
    lemma_copied_before(d, d6, e, b, to_b);
}

/// Up to the copies that stay in full precision, older tensors are left alone.
proof fn lemma_halved_before(d: DeviceView, p: ParamView, id: usize)
    requires
        d.next_id + 6 <= usize::MAX,
        id < d.next_id,
    ensures
        ({
            let (full, half) = (Precision::FP32, Precision::FP16);
            let d1 = copied(d, p.w);
            let d2 = copied(d1, p.b);
            let d3 = cast_outcome(d2, full, half, next_like(d, p.w)).0;
            let d4 = cast_outcome(d3, full, half, next_like(d1, p.b)).0;
            &&& d4.next_id == d.next_id + 4
            &&& untouched(d, d4, id)
        }),
{
    let (full, half) = (Precision::FP32, Precision::FP16);
    let d1 = copied(d, p.w);
    let d2 = copied(d1, p.b);
    let d3 = cast_outcome(d2, full, half, next_like(d, p.w)).0;
    let d4 = cast_outcome(d3, full, half, next_like(d1, p.b)).0;
    lemma_copy(d, p.w, id);
    lemma_copy(d1, p.b, id);
    lemma_cast(d2, full, half, next_like(d, p.w), id);
    lemma_cast(d3, full, half, next_like(d1, p.b), id);
    lemma_untouched_twice(d, d1, d2, id);
    lemma_untouched_twice(d, d2, d3, id);
    lemma_untouched_twice(d, d3, d4, id);
}

/// A state that goes to full precision takes two ids and leaves other tensors alone.
proof fn lemma_doubled_elsewhere(d: DeviceView, p: ParamView, id: usize)
    requires
        d.next_id + 2 <= usize::MAX,
        p.master_w is Some,
        p.master_b is Some,
    ensures
        doubled(d, p).0.next_id == d.next_id + 2,
        doubled(d, p).1.w.id == d.next_id,
        doubled(d, p).1.b.id == d.next_id + 1,
        is_elsewhere(p, id) && (id < d.next_id || d.next_id + 2 <= id) ==> untouched(
            d,
            doubled(d, p).0,
            id,
        ),
{
    let c1 = copied(d, p.master_w->0);
    let d1 = c1.then_run(optional_free(p.master_w));
    let c2 = copied(d1, p.master_b->0);
    let d2 = c2.then_run(optional_free(p.master_b));
    lemma_copy(d, p.master_w->0, id);
    lemma_copy(d1, p.master_b->0, id);
    if is_elsewhere(p, id) && (id < d.next_id || d.next_id + 2 <= id) {
        lemma_optional_free(c1, p.master_w, id);
        lemma_untouched_twice(d, c1, d1, id);
        lemma_untouched_twice(d, d1, c2, id);
        lemma_optional_free(c2, p.master_b, id);
        lemma_untouched_twice(d, c2, d2, id);
        lemma_pair_free(d2, p, id);
        lemma_untouched_twice(d, d2, doubled(d, p).0, id);
    }
}

/// The buffers of the weights and biases of a state are given back.
proof fn lemma_pair_free(d: DeviceView, p: ParamView, id: usize)
    requires
        p.w.id != id,
        p.b.id != id,
    ensures
        untouched(d, d.then_run(free_ops(p.w) + free_ops(p.b)), id),
{
    let ops = free_ops(p.w) + free_ops(p.b);
    let e = d.then_run(ops);
    assert forall|i: int| d.queue.len() <= i < e.queue.len() implies !changes(
        #[trigger] e.queue[i],
        id,
    ) by {
        assert(e.queue[i] == ops[i - d.queue.len()]);
    }
}

/// A state that goes to full precision gets copies of what it kept in full precision.
proof fn lemma_doubled_copies(d: DeviceView, p: ParamView)
    requires
        d.next_id + 2 <= usize::MAX,
        p.w.id < d.next_id,
        p.b.id < d.next_id,
        p.master_w matches Some(t) && t.id < d.next_id,
        p.master_b matches Some(t) && t.id < d.next_id,
        (p.master_w->0).id != (p.master_b->0).id,
    ensures
        is_copied(d, doubled(d, p).0, (p.master_w->0).id, doubled(d, p).1.w.id),
        is_copied(d, doubled(d, p).0, (p.master_b->0).id, doubled(d, p).1.b.id),
{
    let c1 = copied(d, p.master_w->0);
    let d1 = c1.then_run(optional_free(p.master_w));
    let c2 = copied(d1, p.master_b->0);
    let d2 = c2.then_run(optional_free(p.master_b));
    let e = doubled(d, p).0;
    let (w, b) = ((p.master_w->0).id, (p.master_b->0).id);
    let (to_w, to_b) = (d.next_id, d1.next_id);
    lemma_copy(d, p.master_w->0, b);
    lemma_copy(d1, p.master_b->0, to_w);
    lemma_optional_free(c1, p.master_w, to_w);
    lemma_optional_free(c1, p.master_w, b);
    lemma_optional_free(c2, p.master_b, to_w);
    lemma_optional_free(c2, p.master_b, to_b);
    lemma_pair_free(d2, p, to_w);
    lemma_pair_free(d2, p, to_b);
    lemma_copied_before(d, c1, d1, w, to_w);
    lemma_copied_before(d, d1, c2, w, to_w);
    lemma_copied_before(d, c2, d2, w, to_w);
    lemma_copied_before(d, d2, e, w, to_w);
    lemma_untouched_twice(d, c1, d1, b);
    lemma_copied_later(d, d1, c2, b, to_b);
    lemma_copied_before(d, c2, d2, b, to_b);
    lemma_copied_before(d, d2, e, b, to_b);
}

/// The tensors of a layer that a change of precision has to do with.
pub open spec fn converted_tensors(b: DenseView) -> Seq<Option<TensorView>> {
    seq![
        Some(b.linear.w),
        Some(b.linear.b),
        b.linear.master_w,
        b.linear.master_b,
        Some(b.norm.w),
        Some(b.norm.b),
        b.norm.master_w,
        b.norm.master_b,
        Some(b.cache.out),
        Some(b.cache.predrop_out),
        Some(b.cache.preact_out),
        Some(b.cache.centered_out),
        Some(b.cache.prenorm_out),
        Some(b.cache.norm_rstd),
        Some(b.mask),
    ]
}

/// Each tensor of a layer has an id of its own, which was given out already.
pub open spec fn owns_tensors(d: DeviceView, b: DenseView) -> bool {
    let ts = converted_tensors(b);
    &&& forall|i: int|
        0 <= i < ts.len() ==> ((#[trigger] ts[i]) matches Some(t) ==> t.id < d.next_id)
    &&& forall|i: int, j: int|
        0 <= i < j < ts.len() && (#[trigger] ts[i]) is Some && (#[trigger] ts[j]) is Some ==> (
        ts[i]->0).id != (ts[j]->0).id
}

/// What it means for a layer to own its tensors, one by one.
proof fn lemma_owns(d: DeviceView, b: DenseView)
    requires
        owns_tensors(d, b),
    ensures
        b.linear.w.id < d.next_id && b.linear.b.id < d.next_id,
        b.norm.w.id < d.next_id && b.norm.b.id < d.next_id && b.mask.id < d.next_id,
        b.linear.master_w matches Some(t) ==> t.id < d.next_id,
        b.linear.master_b matches Some(t) ==> t.id < d.next_id,
        b.norm.master_w matches Some(t) ==> t.id < d.next_id,
        b.norm.master_b matches Some(t) ==> t.id < d.next_id,
        is_elsewhere(b.linear, b.norm.w.id) && is_elsewhere(b.linear, b.norm.b.id),
        b.norm.master_w matches Some(t) ==> is_elsewhere(b.linear, t.id),
        b.norm.master_b matches Some(t) ==> is_elsewhere(b.linear, t.id),
        b.linear.master_w is Some && b.linear.master_b is Some ==> (b.linear.master_w->0).id != (
        b.linear.master_b->0).id,
        b.norm.master_w is Some && b.norm.master_b is Some ==> (b.norm.master_w->0).id != (
        b.norm.master_b->0).id,
        forall|i: int| 0 <= i < 6 ==> (#[trigger] b.cache.tensors()[i]).id < d.next_id,
{
    let ts = converted_tensors(b);
    assert(ts[0] == Some(b.linear.w) && ts[1] == Some(b.linear.b));
    assert(ts[2] == b.linear.master_w && ts[3] == b.linear.master_b);
    assert(ts[4] == Some(b.norm.w) && ts[5] == Some(b.norm.b));
    assert(ts[6] == b.norm.master_w && ts[7] == b.norm.master_b);
    assert(ts[14] == Some(b.mask));
    assert forall|i: int| 0 <= i < 6 implies (#[trigger] b.cache.tensors()[i]).id < d.next_id by {
        assert(ts[i + 8] == Some(b.cache.tensors()[i]));
    }
}

/// The cache and the mask of a layer are cast, which leaves tensors that are younger than them and
/// older than the casts alone.
proof fn lemma_rest_is_cast(
    d: DeviceView,
    from: Precision,
    to: Precision,
    b: DenseView,
    oldest: usize,
    id: usize,
)
    requires
        d.next_id + 7 <= usize::MAX,
        forall|i: int| 0 <= i < 6 ==> (#[trigger] b.cache.tensors()[i]).id < oldest,
        b.mask.id < oldest,
        oldest <= id < d.next_id,
    ensures
        ({
            let d1 = cast_all(d, from, to, b.cache.tensors());
            let e = cast_outcome(d1, from, to, b.mask).0;
            &&& d1.next_id == d.next_id + 6
            &&& e.next_id == d.next_id + 7
            &&& untouched(d, e, id)
        }),
{
    let d1 = cast_all(d, from, to, b.cache.tensors());
    lemma_cast_all(d, from, to, b.cache.tensors(), id);
    lemma_cast(d1, from, to, b.mask, id);
    lemma_untouched_twice(d, d1, cast_outcome(d1, from, to, b.mask).0, id);
}

/// A layer that is turned into half precision keeps copies of its weights and biases in full
/// precision, number by number.
pub proof fn law_halving_copies_the_weights(d: DeviceView, b: DenseView)
    requires
        owns_tensors(d, b),
        d.next_id + 19 <= usize::MAX,
    ensures
        ({
            let (e, h) = halved_block(d, b);
            &&& is_copied(d, e, b.linear.w.id, (h.linear.master_w->0).id)
            &&& is_copied(d, e, b.linear.b.id, (h.linear.master_b->0).id)
            &&& is_copied(d, e, b.norm.w.id, (h.norm.master_w->0).id)
            &&& is_copied(d, e, b.norm.b.id, (h.norm.master_b->0).id)
        }),
{
    let (full, half) = (Precision::FP32, Precision::FP16);
    let (e, h) = halved_block(d, b);
    let d1 = halved(d, b.linear).0;
    let d2 = halved(d1, b.norm).0;
    lemma_owns(d, b);
    let (lw, lb) = ((h.linear.master_w->0).id, (h.linear.master_b->0).id);
    let (nw, nb) = ((h.norm.master_w->0).id, (h.norm.master_b->0).id);
    lemma_halved_copies(d, b.linear);
    lemma_halved_elsewhere(d, b.linear, b.norm.w.id);
    lemma_halved_elsewhere(d, b.linear, b.norm.b.id);
    lemma_halved_elsewhere(d1, b.norm, lw);
    lemma_halved_elsewhere(d1, b.norm, lb);
    lemma_halved_copies(d1, b.norm);
    lemma_rest_is_cast(d2, full, half, b, d.next_id, lw);
    lemma_rest_is_cast(d2, full, half, b, d.next_id, lb);
    lemma_rest_is_cast(d2, full, half, b, d.next_id, nw);
    lemma_rest_is_cast(d2, full, half, b, d.next_id, nb);
    lemma_copied_before(d, d1, d2, b.linear.w.id, lw);
    lemma_copied_before(d, d2, e, b.linear.w.id, lw);
    lemma_copied_before(d, d1, d2, b.linear.b.id, lb);
    lemma_copied_before(d, d2, e, b.linear.b.id, lb);
    lemma_copied_later(d, d1, d2, b.norm.w.id, nw);
    lemma_copied_before(d, d2, e, b.norm.w.id, nw);
    lemma_copied_later(d, d1, d2, b.norm.b.id, nb);
    lemma_copied_before(d, d2, e, b.norm.b.id, nb);
}

/// A layer that is turned into full precision gets the weights and biases that it has kept in full
/// precision, number by number.
pub proof fn law_doubling_copies_the_weights(d: DeviceView, h: DenseView)
    requires
        owns_tensors(d, h),
        h.linear.master_w is Some,
        h.linear.master_b is Some,
        h.norm.master_w is Some,
        h.norm.master_b is Some,
        d.next_id + 11 <= usize::MAX,
    ensures
        ({
            let (e, b) = doubled_block(d, h);
            &&& is_copied(d, e, (h.linear.master_w->0).id, b.linear.w.id)
            &&& is_copied(d, e, (h.linear.master_b->0).id, b.linear.b.id)
            &&& is_copied(d, e, (h.norm.master_w->0).id, b.norm.w.id)
            &&& is_copied(d, e, (h.norm.master_b->0).id, b.norm.b.id)
        }),
{
    let (full, half) = (Precision::FP32, Precision::FP16);
    let (e, b) = doubled_block(d, h);
    let d1 = doubled(d, h.linear).0;
    let d2 = doubled(d1, h.norm).0;
    lemma_owns(d, h);
    let (lw, lb) = ((h.linear.master_w->0).id, (h.linear.master_b->0).id);
    let (nw, nb) = ((h.norm.master_w->0).id, (h.norm.master_b->0).id);
    lemma_doubled_copies(d, h.linear);
    lemma_doubled_elsewhere(d, h.linear, nw);
    lemma_doubled_elsewhere(d, h.linear, nb);
    lemma_doubled_elsewhere(d1, h.norm, b.linear.w.id);
    lemma_doubled_elsewhere(d1, h.norm, b.linear.b.id);
    lemma_doubled_copies(d1, h.norm);
    lemma_rest_is_cast(d2, half, full, h, d.next_id, b.linear.w.id);
    lemma_rest_is_cast(d2, half, full, h, d.next_id, b.linear.b.id);
    lemma_rest_is_cast(d2, half, full, h, d.next_id, b.norm.w.id);
    lemma_rest_is_cast(d2, half, full, h, d.next_id, b.norm.b.id);
    lemma_copied_before(d, d1, d2, lw, b.linear.w.id);
    lemma_copied_before(d, d2, e, lw, b.linear.w.id);
    lemma_copied_before(d, d1, d2, lb, b.linear.b.id);
    lemma_copied_before(d, d2, e, lb, b.linear.b.id);
    lemma_copied_later(d, d1, d2, nw, b.norm.w.id);
    lemma_copied_before(d, d2, e, nw, b.norm.w.id);
    lemma_copied_later(d, d1, d2, nb, b.norm.b.id);
    lemma_copied_before(d, d2, e, nb, b.norm.b.id);
}

/// A layer that is turned into half precision owns its tensors.
proof fn lemma_halved_owns(d: DeviceView, b: DenseView)
    requires
        owns_tensors(d, b),
        d.next_id + 19 <= usize::MAX,
    ensures
        halved_block(d, b).0.next_id == d.next_id + 19,
        owns_tensors(halved_block(d, b).0, halved_block(d, b).1),
{
    let (full, half) = (Precision::FP32, Precision::FP16);
    let (e, h) = halved_block(d, b);
    let d1 = halved(d, b.linear).0;
    let d2 = halved(d1, b.norm).0;
    let n = d.next_id;
    let ts = b.cache.tensors();
    lemma_owns(d, b);
    lemma_halved_elsewhere(d, b.linear, n);
    lemma_halved_elsewhere(d1, b.norm, n);
    lemma_rest_is_cast(d2, full, half, b, n, n);
    assert forall|k: int| 0 <= k < 6 implies (#[trigger] cast_tensor(d2, full, half, ts, k)).id == n
        + 12 + k by {
        lemma_cast_all(d2, full, half, ts.take(k), n);
    }
    let got = converted_tensors(h);
    let ids = seq![2, 3, 4, 5, 8, 9, 10, 11, 12, 13, 14, 15, 16, 17, 18int];
    assert(got[8] == Some(cast_tensor(d2, full, half, ts, 0)));
    assert(got[9] == Some(cast_tensor(d2, full, half, ts, 1)));
    assert(got[10] == Some(cast_tensor(d2, full, half, ts, 2)));
    assert(got[11] == Some(cast_tensor(d2, full, half, ts, 3)));
    assert(got[12] == Some(cast_tensor(d2, full, half, ts, 4)));
    assert(got[13] == Some(cast_tensor(d2, full, half, ts, 5)));
    assert forall|i: int| 0 <= i < 15 implies ((#[trigger] got[i]) matches Some(t) && t.id == n
        + ids[i]) by {}
}

/// The weights and biases of a layer that is turned into half precision and back again are those that
/// it had, number by number: what comes back is a copy of a copy, and was never cast.
pub proof fn law_weights_come_back(d: DeviceView, b: DenseView)
    requires
        owns_tensors(d, b),
        d.next_id + 30 <= usize::MAX,
    ensures
        ({
            let (m, h) = halved_block(d, b);
            let (e, back) = doubled_block(m, h);
            &&& is_copied(d, m, b.linear.w.id, (h.linear.master_w->0).id)
            &&& is_copied(m, e, (h.linear.master_w->0).id, back.linear.w.id)
            &&& is_copied(d, m, b.linear.b.id, (h.linear.master_b->0).id)
            &&& is_copied(m, e, (h.linear.master_b->0).id, back.linear.b.id)
            &&& is_copied(d, m, b.norm.w.id, (h.norm.master_w->0).id)
            &&& is_copied(m, e, (h.norm.master_w->0).id, back.norm.w.id)
            &&& is_copied(d, m, b.norm.b.id, (h.norm.master_b->0).id)
            &&& is_copied(m, e, (h.norm.master_b->0).id, back.norm.b.id)
        }),
{
    let (m, h) = halved_block(d, b);
    law_halving_copies_the_weights(d, b);
    lemma_halved_owns(d, b);
    law_doubling_copies_the_weights(m, h);
}

} // verus!
