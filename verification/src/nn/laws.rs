//! What is saved and loaded of the layers of a network in training.

use vstd::prelude::*;

use crate::io::device::meaning::Contents;
use crate::io::device::util_laws::{fill_of, left, lemma_made_holds, lemma_made_keeps};
use crate::io::device::{DeviceView, HostView};
use crate::io::load::{layer_slots, lemma_places, param_slot, place_of, SlotView};
use crate::io::param_name::ParamType;
use crate::io::safetensor::DescriptorView;
use crate::mlp::start::{ones, zeros};
use crate::nn::{
    block_params, param_recipe, param_recipes, put_together, rest_recipes, training_options,
    with_block, with_params, BlockLoading, BlockView, StateView,
};
use crate::util::context::LayerInitConfig;
use crate::util::precision::Precision;
use crate::util::tensor::{made_all, made_tensor, Fill, Recipe, TensorView};

verus! {

/// The tensor that is something to a layer. A layer of full numbers has no copies of itself: it
/// stands for them itself.
pub open spec fn tensor_of(b: BlockView, kind: ParamType) -> TensorView {
    match kind {
        ParamType::W | ParamType::MasterW => b.linear.w,
        ParamType::B | ParamType::MasterB => b.linear.b,
        ParamType::DvW => b.linear.dv_w,
        ParamType::DvB => b.linear.dv_b,
        ParamType::DmW => b.linear.dm_w,
        ParamType::DmB => b.linear.dm_b,
        ParamType::NormW | ParamType::MasterNormW => b.norm.w,
        ParamType::NormB | ParamType::MasterNormB => b.norm.b,
        ParamType::DvNormW => b.norm.dv_w,
        ParamType::DvNormB => b.norm.dv_b,
        ParamType::DmNormW => b.norm.dm_w,
        ParamType::DmNormB => b.norm.dm_b,
    }
}

/// A tensor is a copy of another one in full precision.
pub open spec fn is_copy(kind: ParamType) -> bool {
    kind is MasterW || kind is MasterB || kind is MasterNormW || kind is MasterNormB
}

/// Where a tensor stands among those of a layer that are saved or made.
spec fn list_place(kind: ParamType) -> int {
    match kind {
        ParamType::W | ParamType::MasterW => 0,
        ParamType::B | ParamType::MasterB => 1,
        ParamType::NormW | ParamType::MasterNormW => 2,
        ParamType::NormB | ParamType::MasterNormB => 3,
        ParamType::DvW => 4,
        ParamType::DvB => 5,
        ParamType::DmW => 6,
        ParamType::DmB => 7,
        ParamType::DvNormW => 8,
        ParamType::DvNormB => 9,
        ParamType::DmNormW => 10,
        ParamType::DmNormB => 11,
    }
}

/// Every tensor of a layer is saved, once, under the name of what it is to the layer, in full
/// precision, and with its shape or its columns alone.
pub proof fn law_every_tensor_is_saved_as_what_it_is(b: BlockView, kind: ParamType)
    requires
        b.linear.consistent(),
        b.norm.consistent(),
        b.linear.wf(),
        b.norm.wf(),
        !is_copy(kind),
    ensures
        exists|i: int|
            {
                &&& 0 <= i < block_params(b).len()
                &&& (#[trigger] block_params(b)[i]).kind == kind
                &&& block_params(b)[i].tensor == tensor_of(b, kind).slice()
                &&& block_params(b)[i].precision == Precision::FP32
                &&& block_params(b)[i].shape == if kind is W || kind is DvW || kind is DmW {
                    tensor_of(b, kind).shape
                } else {
                    seq![tensor_of(b, kind).shape[1]]
                }
            },
        forall|i: int, j: int|
            0 <= i < j < block_params(b).len() ==> (#[trigger] block_params(b)[i]).kind != (
            #[trigger] block_params(b)[j]).kind,
{
    let params = block_params(b);
    let at = list_place(kind);
    assert(params.len() == 12);
    assert(params[0].kind == ParamType::W && params[1].kind == ParamType::B && params[2].kind
        == ParamType::NormW && params[3].kind == ParamType::NormB && params[4].kind
        == ParamType::DvW && params[5].kind == ParamType::DvB && params[6].kind == ParamType::DmW
        && params[7].kind == ParamType::DmB && params[8].kind == ParamType::DvNormW
        && params[9].kind == ParamType::DvNormB && params[10].kind == ParamType::DmNormW
        && params[11].kind == ParamType::DmNormB);
    assert(params[at].kind == kind);
    assert forall|i: int| 0 <= i < 12 implies list_place((#[trigger] params[i]).kind) == i by {
        assert(i == 0 || i == 1 || i == 2 || i == 3 || i == 4 || i == 5 || i == 6 || i == 7 || i
            == 8 || i == 9 || i == 10 || i == 11);
    }
}

/// What a parameter that was found in a file fills its tensor with; one that was not is zero.
pub open spec fn found_numbers(slot: Option<SlotView>, shape: Seq<usize>) -> Contents {
    match slot {
        Some(s) => Contents::Host {
            precision: Precision::FP32,
            held: Precision::FP32,
            numbers: HostView::Patterns(s.numbers),
        },
        None => fill_of(Recipe { shape, precision: Precision::FP32, fill: Fill::Zeros }),
    }
}

/// The tensors that are made for the parameters of a layer, by what they are to it.
proof fn lemma_param_recipe(slots: Seq<Option<SlotView>>, kind: ParamType)
    requires
        !is_copy(kind),
    ensures
        ({
            let list = param_recipes(slots);
            &&& list.len() == 12
            &&& list[list_place(kind)] == param_recipe(
                slots[place_of(kind)],
                list[list_place(kind)].shape,
            )
        }),
{
}

/// A layer that is loaded has in each of its tensors the numbers that the file has for what the
/// tensor is to the layer, and zeros where the file has none.
pub proof fn law_loaded_layer_has_the_numbers_of_the_file(
    c: Map<usize, Contents>,
    l: BlockLoading,
    ds: Seq<DescriptorView>,
    index: usize,
    max_batch_size: usize,
    kind: ParamType,
)
    requires
        !l.failed,
        !with_block(l, ds, index, max_batch_size).failed,
        l.device.next_id + 20 <= usize::MAX,
        !is_copy(kind),
    ensures
        ({
            let n = with_block(l, ds, index, max_batch_size);
            let b = n.layers.last();
            let r = left(c, l.device, n.device);
            let slot = param_slot(ds, index, kind, training_options(max_batch_size));
            &&& n.layers.len() == l.layers.len() + 1
            &&& forall|i: int|
                0 <= i < l.layers.len() ==> (#[trigger] n.layers[i]) == l.layers[i]
            &&& r[tensor_of(b, kind).id] == found_numbers(slot, tensor_of(b, kind).shape)
            &&& b.max_batch_size == max_batch_size
        }),
{
    reveal(with_params);
    let options = training_options(max_batch_size);
    let slots = layer_slots(ds, index, options);
    let n = with_block(l, ds, index, max_batch_size);
    lemma_places(kind, 0);
    assert(slots[place_of(kind)] == param_slot(ds, index, kind, options));
    lemma_loaded_params(c, l, slots, max_batch_size, kind);
    let b = n.layers.last();
    assert(n.layers.drop_last() =~= l.layers);
}

/// The parameters of a layer that is loaded.
proof fn lemma_loaded_params(
    c: Map<usize, Contents>,
    l: BlockLoading,
    slots: Seq<Option<SlotView>>,
    max_batch_size: usize,
    kind: ParamType,
)
    requires
        !with_params(l, slots, max_batch_size).failed,
        l.device.next_id + 20 <= usize::MAX,
        !is_copy(kind),
    ensures
        ({
            let n = with_params(l, slots, max_batch_size);
            let b = n.layers.last();
            let r = left(c, l.device, n.device);
            r[tensor_of(b, kind).id] == found_numbers(
                slots[place_of(kind)],
                tensor_of(b, kind).shape,
            )
        }),
{
    reveal(with_params);
    let list = param_recipes(slots);
    let d = l.device;
    let outputs = (slots[0]->0).cols;
    let m = made_all(d, list).0;
    let rest = rest_recipes(max_batch_size, outputs);
    let n = with_params(l, slots, max_batch_size);
    let b = n.layers.last();
    let k = list_place(kind);
    lemma_param_recipe(slots, kind);
    lemma_made_holds(c, d, d, list, k);
    lemma_made_keeps(c, d, d, list, 0);
    let id = (d.next_id + k) as usize;
    assert(tensor_of(b, kind) == made_tensor(d, list, k));
    lemma_made_keeps(c, d, m, rest, id);
    assert(n.device == made_all(m, rest).0);
}

/// A layer that is put together has room for a batch of outputs in everything that it keeps, a mask
/// that is one throughout, and gradients that are zero. Each of these tensors has an id of its own.
pub proof fn law_layer_is_put_together_with_an_open_mask(
    c: Map<usize, Contents>,
    d: DeviceView,
    linear: StateView,
    norm: StateView,
    max_batch_size: usize,
    config: LayerInitConfig,
)
    requires
        d.next_id + 8 <= usize::MAX,
        made_all(d, rest_recipes(max_batch_size, linear.w.shape[1])).1 is None,
    ensures
        ({
            let shape = seq![max_batch_size, linear.w.shape[1]];
            let b = put_together(d, linear, norm, max_batch_size, config);
            let r = left(c, d, made_all(d, rest_recipes(max_batch_size, shape[1])).0);
            let n = d.next_id as int;
            &&& b.linear == linear && b.norm == norm && b.config == config
            &&& r[b.mask.id] == fill_of(ones(Precision::FP32, shape))
            &&& r[b.grad.id] == fill_of(zeros(Precision::FP32, shape))
            &&& b.mask.shape == shape && b.grad.shape == shape
            &&& b.cache.out.shape == shape && b.cache.predrop_out.shape == shape
            &&& b.cache.preact_out.shape == shape && b.cache.centered_out.shape == shape
            &&& b.cache.prenorm_out.shape == shape
            &&& b.cache.out.id == n && b.cache.predrop_out.id == n + 1
            &&& b.cache.preact_out.id == n + 2 && b.cache.centered_out.id == n + 3
            &&& b.cache.prenorm_out.id == n + 4 && b.cache.norm_rstd.id == n + 5
            &&& b.grad.id == n + 6 && b.mask.id == n + 7
        }),
{
    let shape = seq![max_batch_size, linear.w.shape[1]];
    assert(shape[1] == linear.w.shape[1]);
    let list = rest_recipes(max_batch_size, linear.w.shape[1]);
    lemma_made_holds(c, d, d, list, 0);
    lemma_made_holds(c, d, d, list, 1);
    lemma_made_holds(c, d, d, list, 2);
    lemma_made_holds(c, d, d, list, 3);
    lemma_made_holds(c, d, d, list, 4);
    lemma_made_holds(c, d, d, list, 5);
    lemma_made_holds(c, d, d, list, 6);
    lemma_made_holds(c, d, d, list, 7);
    assert(list[6] == zeros(Precision::FP32, shape));
    assert(list[7] == ones(Precision::FP32, shape));
}

} // verus!
