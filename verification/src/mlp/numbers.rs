//! What a change of precision leaves in the tensors of a dense layer.

use vstd::prelude::*;

use crate::io::device::meaning::{after, Contents};
use crate::io::device::util_laws::{
    are_castable, is_cast, left, lemma_cast, lemma_cast_all, lemma_copied, lemma_freed, lemma_left,
    lemma_left_nothing,
};
use crate::io::device::DeviceView;
use crate::mlp::copies::{converted_tensors, owns_tensors};
use crate::mlp::state::{cast_cache, doubled, halved, optional_free, CacheView, ParamView};
use crate::mlp::{
    doubled_block, doubled_tensors, doubling_refusal, halved_block, halved_tensors, halving_refusal,
    DenseView,
};
use crate::util::precision::Precision;
use crate::util::tensor::{cast_all, cast_outcome, copied, element_count, free_ops, next_like};

verus! {

/// A tensor of a state other than its weights and biases and their copies.
pub open spec fn is_beside(p: ParamView, id: usize) -> bool {
    &&& id != p.w.id
    &&& id != p.b.id
    &&& p.master_w matches Some(t) ==> t.id != id
    &&& p.master_b matches Some(t) ==> t.id != id
}

/// A state that is turned into half precision: its weights and biases are cast, and their copies in
/// full precision hold what they held.
#[verifier::rlimit(40)]
proof fn lemma_halved(c: Map<usize, Contents>, earlier: DeviceView, d: DeviceView, p: ParamView)
    requires
        earlier.queue.len() <= d.queue.len(),
        d.next_id + 6 <= usize::MAX,
        p.w.id < d.next_id,
        p.b.id < d.next_id,
        p.w.id != p.b.id,
        p.master_w matches Some(t) ==> t.id < d.next_id,
        p.master_b matches Some(t) ==> t.id < d.next_id,
        element_count(p.w.shape) <= u32::MAX,
        element_count(p.b.shape) <= u32::MAX,
    ensures
        ({
            let (e, h) = halved(d, p);
            let before = left(c, earlier, d);
            let r = left(c, earlier, e);
            let (full, half) = (Precision::FP32, Precision::FP16);
            &&& is_cast(before, r, full, half, p.w, h.w)
            &&& is_cast(before, r, full, half, p.b, h.b)
            &&& r[(h.master_w->0).id] == before[p.w.id]
            &&& r[(h.master_b->0).id] == before[p.b.id]
            &&& h.w.id == d.next_id + 2 && h.b.id == d.next_id + 3
            &&& h.master_w is Some && (h.master_w->0).id == d.next_id + 4
            &&& h.master_b is Some && (h.master_b->0).id == d.next_id + 5
            &&& e.next_id == d.next_id + 6
            &&& earlier.queue.len() <= e.queue.len()
            &&& forall|id: usize|
                id < d.next_id && is_beside(p, id) ==> (#[trigger] r[id]) == before[id]
        }),
{
    let (full, half) = (Precision::FP32, Precision::FP16);
    let before = left(c, earlier, d);
    let n = d.next_id;
    let d1 = copied(d, p.w);
    let d2 = copied(d1, p.b);
    let d3 = cast_outcome(d2, full, half, next_like(d, p.w)).0;
    let d4 = cast_outcome(d3, full, half, next_like(d1, p.b)).0;
    let d5 = copied(d4, p.w);
    let d6 = copied(d5, p.b);
    lemma_copied(c, earlier, d, p.w);
    lemma_copied(c, earlier, d1, p.b);
    lemma_cast(c, earlier, d2, full, half, next_like(d, p.w));
    lemma_cast(c, earlier, d3, full, half, next_like(d1, p.b));
    lemma_copied(c, earlier, d4, p.w);
    lemma_copied(c, earlier, d5, p.b);
    assert(d6.next_id == n + 6);
    let frees = free_ops(p.w) + free_ops(p.b) + optional_free(p.master_w) + optional_free(
        p.master_b,
    );
    lemma_left(c, earlier, d6, frees);
    let m = left(c, earlier, d6);
    let r = left(c, earlier, halved(d, p).0);
    assert(r == after(m, frees));
    assert forall|id: usize| is_beside(p, id) implies (#[trigger] r[id]) == m[id] by {
        assert forall|i: int| 0 <= i < frees.len() implies ((#[trigger] frees[i]) is Synchronize || (
        frees[i] is Free && frees[i]->Free_tensor != id)) by {
        }
        lemma_freed(m, frees, id);
    }
    let c4 = left(c, earlier, d4);
    assert(c4[p.w.id] == before[p.w.id] && c4[p.b.id] == before[p.b.id]);
    assert(is_beside(p, (n + 2) as usize) && is_beside(p, (n + 3) as usize) && is_beside(
        p,
        (n + 4) as usize,
    ) && is_beside(p, (n + 5) as usize));
    assert(r[(n + 2) as usize] == m[(n + 2) as usize]);
    assert(r[(n + 3) as usize] == m[(n + 3) as usize]);
    assert(r[(n + 4) as usize] == m[(n + 4) as usize]);
    assert(r[(n + 5) as usize] == m[(n + 5) as usize]);
}

/// A state that is turned into full precision: its weights and biases hold what their copies in full
/// precision held.
proof fn lemma_doubled(c: Map<usize, Contents>, earlier: DeviceView, d: DeviceView, p: ParamView)
    requires
        earlier.queue.len() <= d.queue.len(),
        d.next_id + 2 <= usize::MAX,
        p.w.id < d.next_id,
        p.b.id < d.next_id,
        p.master_w is Some,
        p.master_b is Some,
        (p.master_w->0).id < d.next_id,
        (p.master_b->0).id < d.next_id,
        (p.master_w->0).id != (p.master_b->0).id,
    ensures
        ({
            let (e, b) = doubled(d, p);
            let before = left(c, earlier, d);
            let r = left(c, earlier, e);
            &&& r[b.w.id] == before[(p.master_w->0).id]
            &&& r[b.b.id] == before[(p.master_b->0).id]
            &&& b.w.id == d.next_id && b.b.id == d.next_id + 1
            &&& e.next_id == d.next_id + 2
            &&& earlier.queue.len() <= e.queue.len()
            &&& forall|id: usize|
                id < d.next_id && is_beside(p, id) ==> (#[trigger] r[id]) == before[id]
        }),
{
    let before = left(c, earlier, d);
    let n = d.next_id;
    let (w, b) = (p.master_w->0, p.master_b->0);
    let d0 = copied(d, w);
    let d1 = d0.then_run(optional_free(p.master_w));
    let d2 = copied(d1, b);
    let d3 = d2.then_run(optional_free(p.master_b));
    let frees = free_ops(p.w) + free_ops(p.b);
    lemma_copied(c, earlier, d, w);
    lemma_left(c, earlier, d0, optional_free(p.master_w));
    lemma_copied(c, earlier, d1, b);
    lemma_left(c, earlier, d2, optional_free(p.master_b));
    lemma_left(c, earlier, d3, frees);
    let (c0, c1, c2, c3) = (
        left(c, earlier, d0),
        left(c, earlier, d1),
        left(c, earlier, d2),
        left(c, earlier, d3),
    );
    let r = left(c, earlier, doubled(d, p).0);
    assert(r == after(c3, frees));
    lemma_freed(c0, optional_free(p.master_w), b.id);
    lemma_freed(c0, optional_free(p.master_w), n);
    let next = (n + 1) as usize;
    lemma_freed(c2, optional_free(p.master_b), n);
    lemma_freed(c2, optional_free(p.master_b), next);
    lemma_freed(c3, frees, n);
    lemma_freed(c3, frees, next);
    assert forall|id: usize| id < n && is_beside(p, id) implies (#[trigger] r[id]) == before[id] by {
        lemma_freed(c0, optional_free(p.master_w), id);
        lemma_freed(c2, optional_free(p.master_b), id);
        lemma_freed(c3, frees, id);
    }
}

/// A cache holds what another one held, in the other format.
pub open spec fn is_cast_cache(
    before: Map<usize, Contents>,
    now: Map<usize, Contents>,
    from: Precision,
    to: Precision,
    a: CacheView,
    b: CacheView,
) -> bool {
    &&& is_cast(before, now, from, to, a.out, b.out)
    &&& is_cast(before, now, from, to, a.predrop_out, b.predrop_out)
    &&& is_cast(before, now, from, to, a.preact_out, b.preact_out)
    &&& is_cast(before, now, from, to, a.centered_out, b.centered_out)
    &&& is_cast(before, now, from, to, a.prenorm_out, b.prenorm_out)
    &&& is_cast(before, now, from, to, a.norm_rstd, b.norm_rstd)
}

/// A tensor is none of those that a change of precision has to do with.
pub open spec fn is_not_converted(b: DenseView, id: usize) -> bool {
    &&& is_beside(b.linear, id) && is_beside(b.norm, id)
    &&& forall|i: int| 0 <= i < 6 ==> (#[trigger] b.cache.tensors()[i]).id != id
    &&& b.mask.id != id
}

/// The cache and the mask of a layer are cast, and everything else that is older than the casts
/// stays.
#[verifier::rlimit(40)]
proof fn lemma_rest(
    c: Map<usize, Contents>,
    earlier: DeviceView,
    d: DeviceView,
    from: Precision,
    to: Precision,
    b: DenseView,
)
    requires
        earlier.queue.len() <= d.queue.len(),
        from != to,
        are_castable(d, b.cache.tensors() + seq![b.mask]),
    ensures
        ({
            let m = cast_all(d, from, to, b.cache.tensors());
            let e = cast_outcome(m, from, to, b.mask).0;
            let before = left(c, earlier, d);
            let r = left(c, earlier, e);
            &&& is_cast_cache(
                before,
                r,
                from,
                to,
                b.cache,
                cast_cache(d, from, to, b.cache),
            )
            &&& is_cast(before, r, from, to, b.mask, next_like(m, b.mask))
            &&& forall|id: usize|
                id < d.next_id && b.mask.id != id && (forall|i: int|
                    0 <= i < 6 ==> (#[trigger] b.cache.tensors()[i]).id != id) ==> (
                #[trigger] r[id]) == before[id]
        }),
{
    let ts = b.cache.tensors();
    let all = ts + seq![b.mask];
    assert(all[6] == b.mask);
    assert(all.drop_last() == ts);
    lemma_cast_all(c, earlier, d, from, to, all);
    let e = cast_all(d, from, to, all);
    assert(e == cast_outcome(cast_all(d, from, to, ts), from, to, b.mask).0);
    let r = left(c, earlier, e);
    let before = left(c, earlier, d);
    assert forall|k: int| 0 <= k < 6 implies all[k] == (#[trigger] ts[k]) && all.take(k)
        == ts.take(k) by {}
    assert(all.take(6) == ts);
    assert(ts[0] == b.cache.out && ts[1] == b.cache.predrop_out && ts[2] == b.cache.preact_out
        && ts[3] == b.cache.centered_out && ts[4] == b.cache.prenorm_out && ts[5]
        == b.cache.norm_rstd);
    assert(all[0] == ts[0] && all[1] == ts[1] && all[2] == ts[2] && all[3] == ts[3] && all[4]
        == ts[4] && all[5] == ts[5]);
    assert forall|id: usize|
        id < d.next_id && b.mask.id != id && (forall|i: int|
            0 <= i < 6 ==> (#[trigger] b.cache.tensors()[i]).id != id) implies (#[trigger] r[id])
        == before[id] by {
        assert forall|k: int| 0 <= k < all.len() implies (#[trigger] all[k]).id != id by {
            if k < 6 {
                assert(all[k] == ts[k]);
            }
        }
    }
}

/// What it means for a layer to own its tensors, for a change of precision.
proof fn lemma_owned(d: DeviceView, b: DenseView)
    requires
        owns_tensors(d, b),
    ensures
        b.linear.w.id < d.next_id && b.linear.b.id < d.next_id,
        b.norm.w.id < d.next_id && b.norm.b.id < d.next_id && b.mask.id < d.next_id,
        b.linear.w.id != b.linear.b.id && b.norm.w.id != b.norm.b.id,
        b.linear.master_w matches Some(t) ==> t.id < d.next_id && is_beside(b.norm, t.id),
        b.linear.master_b matches Some(t) ==> t.id < d.next_id && is_beside(b.norm, t.id),
        b.norm.master_w matches Some(t) ==> t.id < d.next_id && is_beside(b.linear, t.id),
        b.norm.master_b matches Some(t) ==> t.id < d.next_id && is_beside(b.linear, t.id),
        b.linear.master_w is Some && b.linear.master_b is Some ==> (b.linear.master_w->0).id != (
        b.linear.master_b->0).id,
        b.norm.master_w is Some && b.norm.master_b is Some ==> (b.norm.master_w->0).id != (
        b.norm.master_b->0).id,
        is_beside(b.linear, b.norm.w.id) && is_beside(b.linear, b.norm.b.id),
        is_beside(b.norm, b.linear.w.id) && is_beside(b.norm, b.linear.b.id),
        is_beside(b.linear, b.mask.id) && is_beside(b.norm, b.mask.id),
        forall|i: int|
            0 <= i < 6 ==> {
                let t = #[trigger] b.cache.tensors()[i];
                &&& t.id < d.next_id && t.id != b.mask.id
                &&& is_beside(b.linear, t.id) && is_beside(b.norm, t.id)
            },
        forall|i: int, j: int|
            0 <= i < j < 6 ==> (#[trigger] b.cache.tensors()[i]).id != (
            #[trigger] b.cache.tensors()[j]).id,
{
    let ts = converted_tensors(b);
    let cache = b.cache.tensors();
    assert(ts[0] == Some(b.linear.w) && ts[1] == Some(b.linear.b));
    assert(ts[2] == b.linear.master_w && ts[3] == b.linear.master_b);
    assert(ts[4] == Some(b.norm.w) && ts[5] == Some(b.norm.b));
    assert(ts[6] == b.norm.master_w && ts[7] == b.norm.master_b);
    assert(ts[14] == Some(b.mask));
    assert forall|i: int| 0 <= i < 6 implies {
        let t = #[trigger] cache[i];
        &&& t.id < d.next_id && t.id != b.mask.id
        &&& is_beside(b.linear, t.id) && is_beside(b.norm, t.id)
    } by {
        assert(ts[i + 8] == Some(cache[i]));
    }
    assert forall|i: int, j: int| 0 <= i < j < 6 implies (#[trigger] cache[i]).id != (
    #[trigger] cache[j]).id by {
        assert(ts[i + 8] == Some(cache[i]) && ts[j + 8] == Some(cache[j]));
    }
}

/// A layer that is turned into half precision keeps its numbers: its weights, its biases, its cache
/// and its mask hold what they held, in half precision, the copies of its weights and biases hold
/// what those held, and what an optimiser remembers stays as it is.
#[verifier::rlimit(40)]
pub proof fn law_halving_keeps_the_numbers(c: Map<usize, Contents>, d: DeviceView, b: DenseView)
    requires
        owns_tensors(d, b),
        d.next_id + 19 <= usize::MAX,
        halving_refusal(b) is None,
    ensures
        ({
            let (e, h) = halved_block(d, b);
            let r = left(c, d, e);
            let (full, half) = (Precision::FP32, Precision::FP16);
            &&& is_cast(c, r, full, half, b.linear.w, h.linear.w)
            &&& is_cast(c, r, full, half, b.linear.b, h.linear.b)
            &&& is_cast(c, r, full, half, b.norm.w, h.norm.w)
            &&& is_cast(c, r, full, half, b.norm.b, h.norm.b)
            &&& is_cast_cache(c, r, full, half, b.cache, h.cache)
            &&& is_cast(c, r, full, half, b.mask, h.mask)
            &&& r[(h.linear.master_w->0).id] == c[b.linear.w.id]
            &&& r[(h.linear.master_b->0).id] == c[b.linear.b.id]
            &&& r[(h.norm.master_w->0).id] == c[b.norm.w.id]
            &&& r[(h.norm.master_b->0).id] == c[b.norm.b.id]
            &&& forall|id: usize|
                id < d.next_id && is_not_converted(b, id) ==> (#[trigger] r[id]) == c[id]
        }),
{
    let (full, half) = (Precision::FP32, Precision::FP16);
    let (e, h) = halved_block(d, b);
    let d1 = halved(d, b.linear).0;
    let d2 = halved(d1, b.norm).0;
    let ts = halved_tensors(b);
    assert(ts[0] == b.linear.w && ts[1] == b.linear.b && ts[2] == b.norm.w && ts[3] == b.norm.b
        && ts[10] == b.mask);
    assert forall|i: int| 0 <= i < ts.len() implies element_count((#[trigger] ts[i]).shape)
        <= u32::MAX by {
    }
    lemma_owned(d, b);
    lemma_left_nothing(c, d);
    lemma_halved(c, d, d, b.linear);
    lemma_halved(c, d, d1, b.norm);
    let cache = b.cache.tensors();
    let all = cache + seq![b.mask];
    assert forall|i: int| 0 <= i < 6 implies all[i] == (#[trigger] cache[i]) && ts[i + 4]
        == cache[i] by {}
    assert forall|i: int| 0 <= i < 7 implies (#[trigger] all[i]) == (if i < 6 {
        cache[i]
    } else {
        b.mask
    }) by {}
    assert(are_castable(d2, all)) by {
        assert forall|i: int| 0 <= i < all.len() implies (#[trigger] all[i]).id < d2.next_id
            && element_count(all[i].shape) <= u32::MAX by {
            if i < 6 {
                assert(all[i] == cache[i]);
                assert(ts[i + 4] == cache[i]);
            }
        }
        assert forall|i: int, j: int| 0 <= i < j < all.len() implies (#[trigger] all[i]).id != (
        #[trigger] all[j]).id by {
            assert(all[i] == cache[i]);
        }
    }
    lemma_rest(c, d, d2, full, half, b);
    let c1 = left(c, d, d1);
    let c2 = left(c, d, d2);
    let r = left(c, d, e);
    assert(c2[h.linear.w.id] == c1[h.linear.w.id]);
    assert(c2[h.linear.b.id] == c1[h.linear.b.id]);
    assert(c2[(h.linear.master_w->0).id] == c1[(h.linear.master_w->0).id]);
    assert(c2[(h.linear.master_b->0).id] == c1[(h.linear.master_b->0).id]);
    assert forall|i: int| 0 <= i < 6 implies c2[(#[trigger] cache[i]).id] == c[cache[i].id] by {
        assert(c1[cache[i].id] == c[cache[i].id]);
    }
    assert(c1[b.mask.id] == c[b.mask.id]);
    assert(cache[0] == b.cache.out && cache[1] == b.cache.predrop_out && cache[2]
        == b.cache.preact_out && cache[3] == b.cache.centered_out && cache[4]
        == b.cache.prenorm_out && cache[5] == b.cache.norm_rstd);
    assert forall|id: usize| id < d.next_id && is_not_converted(b, id) implies (#[trigger] r[id])
        == c[id] by {
        assert(c1[id] == c[id]);
        assert(c2[id] == c1[id]);
    }
}

/// A layer that is turned into full precision keeps its numbers: its weights and biases hold what
/// their copies held, its cache and its mask hold what they held, in full precision, and what an
/// optimiser remembers stays as it is.
#[verifier::rlimit(40)]
pub proof fn law_doubling_keeps_the_numbers(c: Map<usize, Contents>, d: DeviceView, h: DenseView)
    requires
        owns_tensors(d, h),
        h.linear.master_w is Some,
        h.linear.master_b is Some,
        h.norm.master_w is Some,
        h.norm.master_b is Some,
        d.next_id + 11 <= usize::MAX,
        doubling_refusal(h) is None,
    ensures
        ({
            let (e, b) = doubled_block(d, h);
            let r = left(c, d, e);
            let (full, half) = (Precision::FP32, Precision::FP16);
            &&& r[b.linear.w.id] == c[(h.linear.master_w->0).id]
            &&& r[b.linear.b.id] == c[(h.linear.master_b->0).id]
            &&& r[b.norm.w.id] == c[(h.norm.master_w->0).id]
            &&& r[b.norm.b.id] == c[(h.norm.master_b->0).id]
            &&& is_cast_cache(c, r, half, full, h.cache, b.cache)
            &&& is_cast(c, r, half, full, h.mask, b.mask)
            &&& forall|id: usize|
                id < d.next_id && is_not_converted(h, id) ==> (#[trigger] r[id]) == c[id]
        }),
{
    let (full, half) = (Precision::FP32, Precision::FP16);
    let (e, b) = doubled_block(d, h);
    let d1 = doubled(d, h.linear).0;
    let d2 = doubled(d1, h.norm).0;
    let ts = doubled_tensors(h);
    let cache = h.cache.tensors();
    assert forall|i: int| 0 <= i < ts.len() implies element_count((#[trigger] ts[i]).shape)
        <= u32::MAX by {
    }
    lemma_owned(d, h);
    lemma_left_nothing(c, d);
    lemma_doubled(c, d, d, h.linear);
    lemma_doubled(c, d, d1, h.norm);
    assert forall|i: int| 0 <= i < 7 implies (#[trigger] ts[i]) == (if i < 6 {
        cache[i]
    } else {
        h.mask
    }) by {}
    assert(are_castable(d2, ts)) by {
        assert forall|i: int| 0 <= i < ts.len() implies (#[trigger] ts[i]).id < d2.next_id
            && element_count(ts[i].shape) <= u32::MAX by {
            if i < 6 {
                assert(ts[i] == cache[i]);
            }
        }
        assert forall|i: int, j: int| 0 <= i < j < ts.len() implies (#[trigger] ts[i]).id != (
        #[trigger] ts[j]).id by {
            assert(ts[i] == cache[i]);
        }
    }
    lemma_rest(c, d, d2, half, full, h);
    let c1 = left(c, d, d1);
    let c2 = left(c, d, d2);
    let r = left(c, d, e);
    assert(c1[(h.norm.master_w->0).id] == c[(h.norm.master_w->0).id]);
    assert(c1[(h.norm.master_b->0).id] == c[(h.norm.master_b->0).id]);
    assert(c2[b.linear.w.id] == c1[b.linear.w.id]);
    assert(c2[b.linear.b.id] == c1[b.linear.b.id]);
    assert forall|i: int| 0 <= i < 6 implies c2[(#[trigger] cache[i]).id] == c[cache[i].id] by {
        assert(c1[cache[i].id] == c[cache[i].id]);
    }
    assert(c1[h.mask.id] == c[h.mask.id]);
    assert(cache[0] == h.cache.out && cache[1] == h.cache.predrop_out && cache[2]
        == h.cache.preact_out && cache[3] == h.cache.centered_out && cache[4]
        == h.cache.prenorm_out && cache[5] == h.cache.norm_rstd);
    assert forall|id: usize| id < d.next_id && is_not_converted(h, id) implies (#[trigger] r[id])
        == c[id] by {
        assert(c1[id] == c[id]);
        assert(c2[id] == c1[id]);
    }
}

} // verus!
