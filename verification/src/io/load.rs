//! How layers are put together again from the tensors of a file.

use std::collections::HashMap;

use vstd::prelude::*;
use vstd::std_specs::hash::*;

use crate::ffn::layer_views;
use crate::io::bytes::{bytes_numbers, from_bytes};
use crate::io::device::{
    given_back, tile_area, tileable, DeviceView, GpuContext, HostNumbers, HostView,
};
use crate::io::param_name::{parse_name, parsed_name, NameView, ParamName, ParamType};
use crate::io::safetensor::{descriptor_views, DescriptorView, SafetensorDescriptor};
use crate::io::save::SafetensorFile;
use crate::mlp::state::{optional_view, ParamState, ParamView};
use crate::mlp::{assembled, block_recipes, made_block, DenseBlock, DenseView};
use crate::util::context::{plain_layer, LayerInitConfig};
use crate::util::log::{refusal, Error, ErrorView};
use crate::util::precision::{Precision, PrecisionType, F32};
use crate::util::tensor::{
    countable, lemma_plane_count, made, Fill, Recipe, Tensor2D, TensorView,
};

verus! {

/// Why the layers of a file are not loaded.
pub enum Trouble {
    /// The file is refused.
    Refused(ErrorView),
    /// A size of the file is too large to work with, or one is missing.
    Unfit,
}

/// The rows and columns of a tensor of a file. Where only the columns are saved there is one row.
pub open spec fn dims_of(d: DescriptorView, kind: ParamType) -> (usize, usize) {
    if kind.flat() {
        (1, d.shape[0])
    } else {
        (d.shape[0], d.shape[1])
    }
}

/// The rows and columns of a tensor of a file are there, and its elements can be counted.
pub open spec fn dims_fit(d: DescriptorView, kind: ParamType) -> bool {
    &&& d.shape.len() >= if kind.flat() {
        1int
    } else {
        2
    }
    &&& dims_of(d, kind).0 * dims_of(d, kind).1 <= usize::MAX
}

/// Why a tensor of a file cannot be loaded.
pub open spec fn descriptor_trouble(d: DescriptorView) -> Option<Trouble> {
    match parsed_name(d.name) {
        NameView::Foreign => None,
        NameView::Invalid { reason } => Some(
            Trouble::Refused(ErrorView::InvalidTensorName { name: d.name, reason }),
        ),
        NameView::Param { layer, index, kind } => if kind.full_precision() && d.precision
            == Precision::FP16 {
            Some(Trouble::Refused(ErrorView::PrecisionMatch { layer, param: kind.suffix() }))
        } else if !dims_fit(d, kind) {
            Some(Trouble::Unfit)
        } else {
            None
        },
    }
}

/// Why the tensors of a file cannot be loaded: the first one that cannot decides.
pub open spec fn first_trouble(ds: Seq<DescriptorView>) -> Option<Trouble>
    decreases ds.len(),
{
    if ds.len() == 0 {
        None
    } else if first_trouble(ds.drop_last()) is Some {
        first_trouble(ds.drop_last())
    } else {
        descriptor_trouble(ds.last())
    }
}

/// A tensor of a file belongs to a layer.
pub open spec fn belongs_to(d: DescriptorView, index: usize) -> bool {
    parsed_name(d.name) is Param && parsed_name(d.name)->index == index
}

/// A file has a tensor that belongs to a layer.
pub open spec fn has_layer(ds: Seq<DescriptorView>, index: usize) -> bool {
    exists|i: int| 0 <= i < ds.len() && belongs_to(#[trigger] ds[i], index)
}

/// The largest number of a layer that a tensor of a file belongs to, zero where there is none.
pub open spec fn max_layer(ds: Seq<DescriptorView>) -> usize
    decreases ds.len(),
{
    if ds.len() == 0 {
        0
    } else {
        let before = max_layer(ds.drop_last());
        if parsed_name(ds.last().name) is Param && parsed_name(ds.last().name)->index > before {
            parsed_name(ds.last().name)->index
        } else {
            before
        }
    }
}

/// A tensor of a file is a parameter of a layer.
pub open spec fn is_param(d: DescriptorView, index: usize, kind: ParamType) -> bool {
    belongs_to(d, index) && parsed_name(d.name)->kind == kind
}

/// The last tensor of a file that is a parameter of a layer.
pub open spec fn last_param(ds: Seq<DescriptorView>, index: usize, kind: ParamType) -> Option<
    DescriptorView,
>
    decreases ds.len(),
{
    if ds.len() == 0 {
        None
    } else if is_param(ds.last(), index, kind) {
        Some(ds.last())
    } else {
        last_param(ds.drop_last(), index, kind)
    }
}

/// A parameter of a layer: its rows and columns, and its numbers by their bit patterns.
#[derive(Debug)]
pub struct Slot {
    pub rows: usize,
    pub cols: usize,
    pub numbers: Vec<u32>,
}

/// What a [`Slot`] stands for.
#[verifier::ext_equal]
pub struct SlotView {
    pub rows: usize,
    pub cols: usize,
    pub numbers: Seq<u32>,
}

impl View for Slot {
    type V = SlotView;

    open spec fn view(&self) -> SlotView {
        SlotView { rows: self.rows, cols: self.cols, numbers: self.numbers@ }
    }
}

/// The format that the numbers of a parameter are loaded in.
pub open spec fn param_format(kind: ParamType, precision: Precision) -> Precision {
    if kind.full_precision() {
        Precision::FP32
    } else {
        precision
    }
}

/// The parameter that a tensor of a file holds.
pub open spec fn slot_of(d: DescriptorView, kind: ParamType, precision: Precision) -> SlotView {
    SlotView {
        rows: dims_of(d, kind).0,
        cols: dims_of(d, kind).1,
        numbers: bytes_numbers(d.data, param_format(kind, precision)),
    }
}

/// The place of a parameter among those of its layer, in the order in which their tensors are made.
pub open spec fn place_of(kind: ParamType) -> int {
    match kind {
        ParamType::W => 0,
        ParamType::B => 1,
        ParamType::MasterW => 2,
        ParamType::MasterB => 3,
        ParamType::DvW => 4,
        ParamType::DvB => 5,
        ParamType::DmW => 6,
        ParamType::DmB => 7,
        ParamType::NormW => 8,
        ParamType::NormB => 9,
        ParamType::MasterNormW => 10,
        ParamType::MasterNormB => 11,
        ParamType::DvNormW => 12,
        ParamType::DvNormB => 13,
        ParamType::DmNormW => 14,
        ParamType::DmNormB => 15,
    }
}

/// The parameter at a place.
pub open spec fn param_at(place: int) -> ParamType {
    if place == 0 {
        ParamType::W
    } else if place == 1 {
        ParamType::B
    } else if place == 2 {
        ParamType::MasterW
    } else if place == 3 {
        ParamType::MasterB
    } else if place == 4 {
        ParamType::DvW
    } else if place == 5 {
        ParamType::DvB
    } else if place == 6 {
        ParamType::DmW
    } else if place == 7 {
        ParamType::DmB
    } else if place == 8 {
        ParamType::NormW
    } else if place == 9 {
        ParamType::NormB
    } else if place == 10 {
        ParamType::MasterNormW
    } else if place == 11 {
        ParamType::MasterNormB
    } else if place == 12 {
        ParamType::DvNormW
    } else if place == 13 {
        ParamType::DvNormB
    } else if place == 14 {
        ParamType::DmNormW
    } else {
        ParamType::DmNormB
    }
}

/// The parameter is one that only an optimiser needs.
pub open spec fn is_moment(kind: ParamType) -> bool {
    4 <= place_of(kind) < 8 || 12 <= place_of(kind) < 16
}

/// How layers are loaded.
pub struct LoadOptions {
    pub precision: Precision,
    pub is_training: bool,
    pub max_batch_size: usize,
}

/// A parameter of a layer of a file: the last tensor that is one counts, and what only an optimiser
/// needs is left out unless the layer is for training.
pub open spec fn param_slot(
    ds: Seq<DescriptorView>,
    index: usize,
    kind: ParamType,
    options: LoadOptions,
) -> Option<SlotView> {
    if is_moment(kind) && !options.is_training {
        None
    } else {
        match last_param(ds, index, kind) {
            Some(d) => Some(slot_of(d, kind, options.precision)),
            None => None,
        }
    }
}

/// The parameters of a layer of a file, by their places.
pub open spec fn layer_slots(ds: Seq<DescriptorView>, index: usize, options: LoadOptions) -> Seq<
    Option<SlotView>,
> {
    Seq::new(16, |place: int| param_slot(ds, index, param_at(place), options))
}

/// What a parameter that may be missing stands for.
pub open spec fn slot_view(slot: Option<Slot>) -> Option<SlotView> {
    match slot {
        Some(s) => Some(s@),
        None => None,
    }
}

/// What the parameters of a layer stand for.
pub open spec fn slot_views(slots: Seq<Option<Slot>>) -> Seq<Option<SlotView>> {
    slots.map_values(|s: Option<Slot>| slot_view(s))
}

/// The shape of the tensor of a parameter, given the weights and the biases of its layer.
pub open spec fn slot_shape(w: SlotView, b: SlotView, place: int) -> Seq<usize> {
    if place % 2 == 1 {
        seq![b.rows, b.cols]
    } else if place < 8 {
        seq![w.rows, w.cols]
    } else {
        seq![b.rows, w.cols]
    }
}

/// The tensor that is made for a parameter. Without numbers the weights and the biases of the
/// normalisation are zero, and the others are left out.
pub open spec fn slot_recipe(slots: Seq<Option<SlotView>>, place: int, precision: Precision)
    -> Option<Recipe> {
    let shape = slot_shape(slots[0]->0, slots[1]->0, place);
    let format = param_format(param_at(place), precision);
    match slots[place] {
        Some(s) => Some(
            Recipe {
                shape,
                precision: format,
                fill: Fill::Host { held: format, numbers: HostView::Patterns(s.numbers) },
            },
        ),
        None => if place == 8 || place == 9 {
            Some(Recipe { shape, precision: format, fill: Fill::Zeros })
        } else {
            None
        },
    }
}

/// The tensors that are made for the parameters of a layer.
pub open spec fn slot_recipes(slots: Seq<Option<SlotView>>, precision: Precision) -> Seq<
    Option<Recipe>,
> {
    Seq::new(16, |place: int| slot_recipe(slots, place, precision))
}

/// The device once the tensors that are not left out are made one after the other, and why making
/// one of them is refused; nothing is made after a refusal.
pub open spec fn made_present(d: DeviceView, recipes: Seq<Option<Recipe>>) -> (
    DeviceView,
    Option<ErrorView>,
)
    decreases recipes.len(),
{
    if recipes.len() == 0 {
        (d, None)
    } else {
        let before = made_present(d, recipes.drop_last());
        if before.1 is Some {
            before
        } else {
            match recipes.last() {
                Some(recipe) => made(before.0, recipe),
                None => before,
            }
        }
    }
}

/// The tensor at a place of a list, `None` where it is left out.
pub open spec fn present_tensor(d: DeviceView, recipes: Seq<Option<Recipe>>, k: int) -> Option<
    TensorView,
> {
    match recipes[k] {
        Some(recipe) => Some(
            TensorView { id: made_present(d, recipes.take(k)).0.next_id, shape: recipe.shape },
        ),
        None => None,
    }
}

/// The state whose tensors a list has from a place on.
pub open spec fn present_state(d: DeviceView, recipes: Seq<Option<Recipe>>, from: int)
    -> ParamView {
    ParamView {
        w: present_tensor(d, recipes, from)->0,
        b: present_tensor(d, recipes, from + 1)->0,
        master_w: present_tensor(d, recipes, from + 2),
        master_b: present_tensor(d, recipes, from + 3),
        dv_w: present_tensor(d, recipes, from + 4),
        dv_b: present_tensor(d, recipes, from + 5),
        dm_w: present_tensor(d, recipes, from + 6),
        dm_b: present_tensor(d, recipes, from + 7),
    }
}

/// The first `k` tensors are made, and nothing else happened.
pub open spec fn present_under_way(
    d: DeviceView,
    recipes: Seq<Option<Recipe>>,
    k: int,
    now: DeviceView,
) -> bool {
    0 <= k <= recipes.len() && made_present(d, recipes.take(k)) == (now, None::<ErrorView>)
}

/// The elements of a batch can be counted, and the blocks that fill it can be worked out in 32 bits.
pub open spec fn batch_fits(tile_dim: u32, max_batch_size: usize, outputs: usize) -> bool {
    &&& max_batch_size * outputs <= usize::MAX
    &&& tileable(max_batch_size * outputs, tile_area(tile_dim))
}

/// How far the layers of a file are loaded: the device, the layers, and why no more are.
#[verifier::ext_equal]
pub struct Loading {
    pub device: DeviceView,
    pub layers: Seq<DenseView>,
    pub trouble: Option<Trouble>,
}

/// A layer whose weights and biases are there is put together from its parameters.
#[verifier::opaque]
pub open spec fn with_slots(
    l: Loading,
    slots: Seq<Option<SlotView>>,
    options: LoadOptions,
) -> Loading {
    let recipes = slot_recipes(slots, options.precision);
    let made = made_present(l.device, recipes);
    let linear = present_state(l.device, recipes, 0);
    let norm = present_state(l.device, recipes, 8);
    let outputs = (slots[0]->0).cols;
    if made.1 is Some {
        Loading { device: made.0, trouble: Some(Trouble::Refused(made.1->0)), ..l }
    } else if !batch_fits(made.0.tile_dim, options.max_batch_size, outputs) {
        Loading { device: made.0, trouble: Some(Trouble::Unfit), ..l }
    } else {
        let whole = assembled(
            made.0,
            options.precision,
            linear,
            norm,
            options.max_batch_size,
            options.is_training,
        );
        if whole.1 is Some {
            Loading { device: whole.0, trouble: Some(Trouble::Refused(whole.1->0)), ..l }
        } else {
            Loading {
                device: whole.0,
                layers: l.layers.push(
                    made_block(
                        made.0,
                        block_recipes(
                            options.precision,
                            options.max_batch_size,
                            outputs,
                            options.is_training,
                        ),
                        linear,
                        norm,
                        options.max_batch_size,
                        plain_layer(),
                        options.is_training,
                    ),
                ),
                trouble: None,
            }
        }
    }
}

/// One more layer is loaded, unless an earlier one could not be.
pub open spec fn with_layer(
    l: Loading,
    ds: Seq<DescriptorView>,
    index: usize,
    options: LoadOptions,
) -> Loading {
    let slots = layer_slots(ds, index, options);
    if l.trouble is Some {
        l
    } else if !has_layer(ds, index) {
        Loading { trouble: Some(Trouble::Refused(ErrorView::MissingLayer { layer: index })), ..l }
    } else if slots[0] is None {
        Loading { trouble: Some(Trouble::Refused(ErrorView::MissingWeights { layer: index })), ..l }
    } else if slots[1] is None {
        Loading { trouble: Some(Trouble::Refused(ErrorView::MissingBiases { layer: index })), ..l }
    } else {
        with_slots(l, slots, options)
    }
}

/// The first `k` layers of a file are loaded.
pub open spec fn loaded_layers(
    d: DeviceView,
    ds: Seq<DescriptorView>,
    options: LoadOptions,
    k: int,
) -> Loading
    decreases k,
{
    if k <= 0 {
        Loading { device: d, layers: seq![], trouble: None }
    } else {
        with_layer(loaded_layers(d, ds, options, k - 1), ds, k as usize, options)
    }
}

/// The layers of a file are loaded.
pub open spec fn loaded(d: DeviceView, ds: Seq<DescriptorView>, options: LoadOptions) -> Loading {
    if first_trouble(ds) is Some {
        Loading { device: d, layers: seq![], trouble: first_trouble(ds) }
    } else if max_layer(ds) == 0 {
        Loading {
            device: d,
            layers: seq![],
            trouble: Some(Trouble::Refused(ErrorView::NoLayersFound)),
        }
    } else {
        loaded_layers(d, ds, options, max_layer(ds) as int)
    }
}

/// The device once the layers of a file are loaded. Where one could not be, those that were loaded
/// are given back.
pub open spec fn loaded_device(d: DeviceView, l: Loading) -> DeviceView {
    if l.trouble is Some {
        given_back(d, l.device)
    } else {
        l.device
    }
}

/// The outcome of a call is that of a loading that did not run into sizes it cannot work with.
pub open spec fn is_outcome<T: PrecisionType>(
    r: Result<Vec<DenseBlock<T>>, Error>,
    l: Loading,
) -> bool {
    match l.trouble {
        None => (r matches Ok(blocks) && layer_views(blocks@) == l.layers),
        Some(Trouble::Refused(e)) => refusal(r) == Some(e),
        Some(Trouble::Unfit) => false,
    }
}

/// Places and parameters belong together.
pub proof fn lemma_places(kind: ParamType, place: int)
    ensures
        0 <= place_of(kind) < 16,
        param_at(place_of(kind)) == kind,
        0 <= place < 16 ==> place_of(param_at(place)) == place,
{
}

/// The place of a parameter.
fn find_place(kind: ParamType) -> (r: usize)
    ensures
        r == place_of(kind),
        r < 16,
{
    match kind {
        ParamType::W => 0,
        ParamType::B => 1,
        ParamType::MasterW => 2,
        ParamType::MasterB => 3,
        ParamType::DvW => 4,
        ParamType::DvB => 5,
        ParamType::DmW => 6,
        ParamType::DmB => 7,
        ParamType::NormW => 8,
        ParamType::NormB => 9,
        ParamType::MasterNormW => 10,
        ParamType::MasterNormB => 11,
        ParamType::DvNormW => 12,
        ParamType::DvNormB => 13,
        ParamType::DmNormW => 14,
        ParamType::DmNormB => 15,
    }
}

/// A layer none of whose parameters is known.
fn empty_slots() -> (r: Vec<Option<Slot>>)
    ensures
        slot_views(r@) == Seq::new(16, |place: int| None::<SlotView>),
{
    let mut slots: Vec<Option<Slot>> = Vec::new();
    let mut i: usize = 0;
    while i < 16
        invariant
            i <= 16,
            slots@.len() == i,
            forall|k: int| 0 <= k < i ==> slot_view(#[trigger] slots@[k]) is None,
        decreases 16 - i,
    {
        slots.push(None);
        i += 1;
    }
    assert(slot_views(slots@) =~= Seq::new(16, |place: int| None::<SlotView>));
    slots
}

/// No tensor is looked at after one that cannot be loaded.
proof fn lemma_trouble_stops(ds: Seq<DescriptorView>, k: int)
    requires
        0 <= k <= ds.len(),
        first_trouble(ds.take(k)) is Some,
    ensures
        first_trouble(ds) == first_trouble(ds.take(k)),
    decreases ds.len() - k,
{
    if k == ds.len() {
        assert(ds.take(k) == ds);
    } else {
        assert(ds.take(k + 1).drop_last() == ds.take(k));
        lemma_trouble_stops(ds, k + 1);
    }
}

/// What one more tensor means for the layers of a file.
proof fn lemma_one_more(ds: Seq<DescriptorView>, k: int, index: usize, options: LoadOptions)
    requires
        0 <= k < ds.len(),
    ensures
        has_layer(ds.take(k + 1), index) <==> has_layer(ds.take(k), index) || belongs_to(
            ds[k],
            index,
        ),
        !belongs_to(ds[k], index) ==> layer_slots(ds.take(k + 1), index, options) == layer_slots(
            ds.take(k),
            index,
            options,
        ),
        belongs_to(ds[k], index) ==> {
            let kind = parsed_name(ds[k].name)->kind;
            let before = layer_slots(ds.take(k), index, options);
            layer_slots(ds.take(k + 1), index, options) == if is_moment(kind)
                && !options.is_training {
                before
            } else {
                before.update(place_of(kind), Some(slot_of(ds[k], kind, options.precision)))
            }
        },
{
    let now = ds.take(k + 1);
    let before = ds.take(k);
    assert(now.drop_last() == before);
    assert(now.last() == ds[k]);
    if has_layer(now, index) {
        let i = choose|i: int| 0 <= i < now.len() && belongs_to(#[trigger] now[i], index);
        if i < k {
            assert(before[i] == now[i]);
        }
    }
    if has_layer(before, index) {
        let i = choose|i: int| 0 <= i < before.len() && belongs_to(#[trigger] before[i], index);
        assert(now[i] == before[i]);
    }
    if belongs_to(ds[k], index) {
        assert(belongs_to(now[k], index));
        let kind = parsed_name(ds[k].name)->kind;
        lemma_places(kind, 0);
        let expected = if is_moment(kind) && !options.is_training {
            layer_slots(before, index, options)
        } else {
            layer_slots(before, index, options).update(
                place_of(kind),
                Some(slot_of(ds[k], kind, options.precision)),
            )
        };
        assert forall|place: int| 0 <= place < 16 implies layer_slots(now, index, options)[place]
            == #[trigger] expected[place] by {
            lemma_places(kind, place);
        }
        assert(layer_slots(now, index, options) =~= expected);
    } else {
        assert(layer_slots(now, index, options) =~= layer_slots(before, index, options));
    }
}

/// No parameter of a file without tensors is known.
proof fn lemma_no_slots(index: usize, options: LoadOptions)
    ensures
        layer_slots(seq![], index, options) == Seq::new(16, |place: int| None::<SlotView>),
{
    assert(layer_slots(seq![], index, options) =~= Seq::new(16, |place: int| None::<SlotView>));
}

/// A file has no parameters of a layer that no tensor belongs to.
proof fn lemma_absent_layer(ds: Seq<DescriptorView>, index: usize, options: LoadOptions)
    requires
        !has_layer(ds, index),
    ensures
        layer_slots(ds, index, options) == Seq::new(16, |place: int| None::<SlotView>),
    decreases ds.len(),
{
    if ds.len() == 0 {
        assert(ds =~= seq![]);
        lemma_no_slots(index, options);
    } else {
        let k = ds.len() - 1;
        assert(ds.take(k + 1) == ds);
        assert(ds.take(k) == ds.drop_last());
        lemma_one_more(ds, k, index, options);
        assert(!belongs_to(ds[k], index));
        lemma_absent_layer(ds.take(k), index, options);
    }
}

/// The parameters of the layers of a file, by the numbers of the layers.
pub(crate) type Table = HashMap<usize, Vec<Option<Slot>>>;

/// A table holds what the tensors of a file say of its layers.
pub open spec fn is_table(
    table: Map<usize, Vec<Option<Slot>>>,
    ds: Seq<DescriptorView>,
    options: LoadOptions,
) -> bool {
    forall|index: usize|
        {
            &&& #[trigger] table.contains_key(index) <==> has_layer(ds, index)
            &&& table.contains_key(index) ==> slot_views(table[index]@) == layer_slots(
                ds,
                index,
                options,
            )
        }
}

/// The parameter that a tensor of a file holds.
fn take_slot(tensor: &SafetensorDescriptor, kind: ParamType, precision: Precision) -> (r: Option<
    Slot,
>)
    ensures
        r is Some <==> dims_fit(tensor@, kind),
        r matches Some(slot) ==> slot@ == slot_of(tensor@, kind, precision),
{
    let mut rows: usize = 1;
    let cols: usize;
    if kind.is_vector() {
        if tensor.shape.len() < 1 {
            return None;
        }
        cols = tensor.shape[0];
    } else {
        if tensor.shape.len() < 2 {
            return None;
        }
        rows = tensor.shape[0];
        cols = tensor.shape[1];
    }
    if rows.checked_mul(cols).is_none() {
        return None;
    }
    let format = if kind.is_f32_only() {
        Precision::FP32
    } else {
        precision
    };
    Some(Slot { rows, cols, numbers: from_bytes(tensor.data.as_slice(), format) })
}

/// Sorts the tensors of a file by their layers. Gives `None` where a size of one of them is missing
/// or too large.
pub(crate) fn gather(
    descriptors: &Vec<SafetensorDescriptor>,
    precision: Precision,
    is_training: bool,
    Ghost(options): Ghost<LoadOptions>,
) -> (r: Option<Result<(Table, usize), Error>>)
    requires
        options.precision == precision,
        options.is_training == is_training,
    ensures
        match first_trouble(descriptor_views(descriptors@)) {
            Some(Trouble::Unfit) => r is None,
            Some(Trouble::Refused(e)) => r is Some && refusal(r->0) == Some(e),
            None => {
                &&& r is Some
                &&& r->0 matches Ok((table, max)) && {
                    &&& is_table(table@, descriptor_views(descriptors@), options)
                    &&& max == max_layer(descriptor_views(descriptors@))
                }
            },
        },
{
    broadcast use group_hash_axioms;

    let ghost ds = descriptor_views(descriptors@);
    let mut table: Table = HashMap::new();
    let mut max: usize = 0;
    let mut i: usize = 0;
    while i < descriptors.len()
        invariant
            i <= descriptors@.len(),
            ds == descriptor_views(descriptors@),
            options.precision == precision,
            options.is_training == is_training,
            first_trouble(ds.take(i as int)) is None,
            max == max_layer(ds.take(i as int)),
            is_table(table@, ds.take(i as int), options),
        decreases descriptors@.len() - i,
    {
        let tensor = &descriptors[i];
        proof {
            assert(ds[i as int] == tensor@);
            assert(ds.take(i + 1).drop_last() == ds.take(i as int));
            assert(ds.take(i + 1).last() == tensor@);
            if descriptor_trouble(tensor@) is Some {
                lemma_trouble_stops(ds, i + 1);
            }
        }
        let ghost old_table = table@;
        match parse_name(tensor.name.as_str()) {
            ParamName::Foreign => {
                assert forall|index: usize|
                    {
                        &&& #[trigger] table@.contains_key(index) <==> has_layer(
                            ds.take(i + 1),
                            index,
                        )
                        &&& table@.contains_key(index) ==> slot_views(table@[index]@)
                            == layer_slots(ds.take(i + 1), index, options)
                    } by {
                    lemma_one_more(ds, i as int, index, options);
                }
            },
            ParamName::Invalid { reason } => {
                return Some(Err(Error::InvalidTensorName { name: tensor.name.clone(), reason }));
            },
            ParamName::Param { layer, index, kind } => {
                // F32-only params must not be stored as F16
                if kind.is_f32_only() && tensor.precision == Precision::FP16 {
                    return Some(
                        Err(Error::PrecisionMatch { layer, param: kind.to_suffix().to_owned() }),
                    );
                }
                let slot = match take_slot(tensor, kind, precision) {
                    Some(slot) => slot,
                    None => {
                        return None;
                    },
                };
                proof {
                    lemma_one_more(ds, i as int, index, options);
                    if !has_layer(ds.take(i as int), index) {
                        lemma_absent_layer(ds.take(i as int), index, options);
                    }
                }
                let mut slots: Vec<Option<Slot>> = match table.remove(&index) {
                    Some(slots) => slots,
                    None => empty_slots(),
                };
                let ghost before = slots@;
                assert(slot_views(before) == layer_slots(ds.take(i as int), index, options));
                assert(before.len() == slot_views(before).len());
                let place: usize = find_place(kind);
                let is_kept = is_training || !is_moment_place(place);
                if is_kept {
                    let ghost kept = slot@;
                    slots.set(place, Some(slot));
                    assert(slot_views(slots@) =~= slot_views(before).update(
                        place as int,
                        Some(kept),
                    ));
                }
                table.insert(index, slots);
                if index > max {
                    max = index;
                }
                assert forall|other: usize|
                    {
                        &&& #[trigger] table@.contains_key(other) <==> has_layer(
                            ds.take(i + 1),
                            other,
                        )
                        &&& table@.contains_key(other) ==> slot_views(table@[other]@)
                            == layer_slots(ds.take(i + 1), other, options)
                    } by {
                    lemma_one_more(ds, i as int, other, options);
                    assert(old_table.contains_key(other) <==> has_layer(
                        ds.take(i as int),
                        other,
                    ));
                }
            },
        }
        i += 1;
    }
    assert(ds.take(i as int) == ds);
    Some(Ok((table, max)))
}

/// A place is one of a parameter that only an optimiser needs.
fn is_moment_place(place: usize) -> (r: bool)
    requires
        place < 16,
    ensures
        r == (4 <= place < 8 || 12 <= place < 16),
{
    (4 <= place && place < 8) || 12 <= place
}

/// One more tensor of a list is made, or left out.
proof fn lemma_present_next(d: DeviceView, recipes: Seq<Option<Recipe>>, k: int, now: DeviceView)
    requires
        present_under_way(d, recipes, k, now),
        k < recipes.len(),
    ensures
        recipes[k] matches Some(recipe) ==> {
            &&& made_present(d, recipes.take(k + 1)) == made(now, recipe)
            &&& made(now, recipe).1 is Some ==> made_present(d, recipes) == made(now, recipe)
        },
        recipes[k] is None ==> made_present(d, recipes.take(k + 1)) == (now, None::<ErrorView>),
{
    assert(recipes.take(k + 1).drop_last() == recipes.take(k));
    if made_present(d, recipes.take(k + 1)).1 is Some {
        lemma_present_stops(d, recipes, k + 1);
    }
}

/// Nothing is made after a refusal.
proof fn lemma_present_stops(d: DeviceView, recipes: Seq<Option<Recipe>>, k: int)
    requires
        0 <= k <= recipes.len(),
        made_present(d, recipes.take(k)).1 is Some,
    ensures
        made_present(d, recipes) == made_present(d, recipes.take(k)),
    decreases recipes.len() - k,
{
    if k == recipes.len() {
        assert(recipes.take(k) == recipes);
    } else {
        assert(recipes.take(k + 1).drop_last() == recipes.take(k));
        lemma_present_stops(d, recipes, k + 1);
    }
}

/// Makes the tensor of a parameter that a list has at place `k`.
fn push_slot<P: PrecisionType>(
    context: &mut GpuContext,
    slot: &Slot,
    shape: &[usize; 2],
    Ghost(d): Ghost<DeviceView>,
    Ghost(recipes): Ghost<Seq<Option<Recipe>>>,
    Ghost(k): Ghost<int>,
) -> (r: Result<Tensor2D<P>, Error>)
    requires
        old(context).wf(),
        present_under_way(d, recipes, k, old(context)@),
        k < recipes.len(),
        countable(shape@),
        recipes[k] == Some(
            Recipe {
                shape: shape@,
                precision: P::format(),
                fill: Fill::Host {
                    held: P::format(),
                    numbers: HostView::Patterns(slot@.numbers),
                },
            },
        ),
    ensures
        final(context).wf(),
        r matches Ok(t) ==> {
            &&& present_under_way(d, recipes, k + 1, final(context)@)
            &&& t.wf()
            &&& Some(t@) == present_tensor(d, recipes, k)
        },
        r is Err ==> made_present(d, recipes) == (final(context)@, refusal(r)),
{
    proof {
        lemma_present_next(d, recipes, k, context@);
    }
    Tensor2D::<P>::from_host(
        context,
        HostNumbers::Patterns(slot.numbers.clone()),
        P::precision(),
        shape,
    )
}

/// Makes the tensor of a parameter that a list has at place `k`, unless it is left out.
fn push_optional(
    context: &mut GpuContext,
    slot: &Option<Slot>,
    shape: &[usize; 2],
    Ghost(d): Ghost<DeviceView>,
    Ghost(recipes): Ghost<Seq<Option<Recipe>>>,
    Ghost(k): Ghost<int>,
) -> (r: Result<Option<Tensor2D<F32>>, Error>)
    requires
        old(context).wf(),
        present_under_way(d, recipes, k, old(context)@),
        k < recipes.len(),
        countable(shape@),
        recipes[k] == match slot_view(*slot) {
            Some(s) => Some(
                Recipe {
                    shape: shape@,
                    precision: Precision::FP32,
                    fill: Fill::Host {
                        held: Precision::FP32,
                        numbers: HostView::Patterns(s.numbers),
                    },
                },
            ),
            None => None,
        },
    ensures
        final(context).wf(),
        r matches Ok(t) ==> {
            &&& present_under_way(d, recipes, k + 1, final(context)@)
            &&& t matches Some(x) ==> x.wf()
            &&& optional_view(t) == present_tensor(d, recipes, k)
        },
        r is Err ==> made_present(d, recipes) == (final(context)@, refusal(r)),
{
    match slot {
        Some(s) => {
            let t = push_slot::<F32>(context, s, shape, Ghost(d), Ghost(recipes), Ghost(k))?;
            Ok(Some(t))
        },
        None => {
            proof {
                lemma_present_next(d, recipes, k, context@);
            }
            Ok(None)
        },
    }
}

/// Makes the tensor of a parameter that a list has at place `k`; without numbers it is zero.
fn push_or_zeros<P: PrecisionType>(
    context: &mut GpuContext,
    slot: &Option<Slot>,
    shape: &[usize; 2],
    Ghost(d): Ghost<DeviceView>,
    Ghost(recipes): Ghost<Seq<Option<Recipe>>>,
    Ghost(k): Ghost<int>,
) -> (r: Result<Tensor2D<P>, Error>)
    requires
        old(context).wf(),
        present_under_way(d, recipes, k, old(context)@),
        k < recipes.len(),
        countable(shape@),
        recipes[k] == Some(
            Recipe {
                shape: shape@,
                precision: P::format(),
                fill: match slot_view(*slot) {
                    Some(s) => Fill::Host {
                        held: P::format(),
                        numbers: HostView::Patterns(s.numbers),
                    },
                    None => Fill::Zeros,
                },
            },
        ),
    ensures
        final(context).wf(),
        r matches Ok(t) ==> {
            &&& present_under_way(d, recipes, k + 1, final(context)@)
            &&& t.wf()
            &&& Some(t@) == present_tensor(d, recipes, k)
        },
        r is Err ==> made_present(d, recipes) == (final(context)@, refusal(r)),
{
    match slot {
        Some(s) => push_slot::<P>(context, s, shape, Ghost(d), Ghost(recipes), Ghost(k)),
        None => {
            proof {
                lemma_present_next(d, recipes, k, context@);
            }
            Tensor2D::<P>::zeros(context, shape)
        },
    }
}

/// Makes the linear weights and biases of a layer, and what belongs to them.
fn load_linear<T: PrecisionType>(
    context: &mut GpuContext,
    slots: &Vec<Option<Slot>>,
    w: &Slot,
    b: &Slot,
) -> (r: Result<ParamState<T>, Error>)
    requires
        old(context).wf(),
        slots@.len() == 16,
        slot_view(slots@[0]) == Some(w@),
        slot_view(slots@[1]) == Some(b@),
        w@.rows * w@.cols <= usize::MAX,
        b@.rows * b@.cols <= usize::MAX,
    ensures
        final(context).wf(),
        ({
            let recipes = slot_recipes(slot_views(slots@), T::format());
            &&& r matches Ok(p) ==> {
                &&& p.wf()
                &&& p@ == present_state(old(context)@, recipes, 0)
                &&& present_under_way(old(context)@, recipes, 8, final(context)@)
            }
            &&& r is Err ==> made_present(old(context)@, recipes) == (
                final(context)@,
                refusal(r),
            )
        }),
{
    let ghost d = context@;
    let ghost views = slot_views(slots@);
    let ghost recipes = slot_recipes(views, T::format());
    let w_shape: [usize; 2] = [w.rows, w.cols];
    let b_shape: [usize; 2] = [b.rows, b.cols];
    proof {
        assert(recipes.take(0).len() == 0);
        assert(w_shape@ =~= seq![w.rows, w.cols]);
        assert(b_shape@ =~= seq![b.rows, b.cols]);
        lemma_plane_count(w_shape@);
        lemma_plane_count(b_shape@);
    }
    let weights: Tensor2D<T> = push_slot(
        context,
        w,
        &w_shape,
        Ghost(d),
        Ghost(recipes),
        Ghost(0),
    )?;
    let biases: Tensor2D<T> = push_slot(context, b, &b_shape, Ghost(d), Ghost(recipes), Ghost(1))?;
    let master_w = push_optional(context, &slots[2], &w_shape, Ghost(d), Ghost(recipes), Ghost(2))?;
    let master_b = push_optional(context, &slots[3], &b_shape, Ghost(d), Ghost(recipes), Ghost(3))?;
    let dv_w = push_optional(context, &slots[4], &w_shape, Ghost(d), Ghost(recipes), Ghost(4))?;
    let dv_b = push_optional(context, &slots[5], &b_shape, Ghost(d), Ghost(recipes), Ghost(5))?;
    let dm_w = push_optional(context, &slots[6], &w_shape, Ghost(d), Ghost(recipes), Ghost(6))?;
    let dm_b = push_optional(context, &slots[7], &b_shape, Ghost(d), Ghost(recipes), Ghost(7))?;
    Ok(
        ParamState {
            w: weights,
            b: biases,
            master_w,
            master_b,
            dv_w,
            dv_b,
            dm_w,
            dm_b,
        },
    )
}

/// Makes the weights and biases of the normalisation of a layer, and what belongs to them.
fn load_norm<T: PrecisionType>(
    context: &mut GpuContext,
    slots: &Vec<Option<Slot>>,
    w: &Slot,
    b: &Slot,
    Ghost(d): Ghost<DeviceView>,
) -> (r: Result<ParamState<T>, Error>)
    requires
        old(context).wf(),
        slots@.len() == 16,
        slot_view(slots@[0]) == Some(w@),
        slot_view(slots@[1]) == Some(b@),
        b@.rows * w@.cols <= usize::MAX,
        b@.rows * b@.cols <= usize::MAX,
        present_under_way(
            d,
            slot_recipes(slot_views(slots@), T::format()),
            8,
            old(context)@,
        ),
    ensures
        final(context).wf(),
        ({
            let recipes = slot_recipes(slot_views(slots@), T::format());
            &&& made_present(d, recipes) == (final(context)@, refusal(r))
            &&& r matches Ok(p) ==> p.wf() && p@ == present_state(d, recipes, 8)
        }),
{
    let ghost views = slot_views(slots@);
    let ghost recipes = slot_recipes(views, T::format());
    let w_shape: [usize; 2] = [b.rows, w.cols];
    let b_shape: [usize; 2] = [b.rows, b.cols];
    proof {
        assert(w_shape@ =~= seq![b.rows, w.cols]);
        assert(b_shape@ =~= seq![b.rows, b.cols]);
        lemma_plane_count(w_shape@);
        lemma_plane_count(b_shape@);
    }
    let weights: Tensor2D<T> = push_or_zeros(
        context,
        &slots[8],
        &w_shape,
        Ghost(d),
        Ghost(recipes),
        Ghost(8),
    )?;
    let biases: Tensor2D<T> = push_or_zeros(
        context,
        &slots[9],
        &b_shape,
        Ghost(d),
        Ghost(recipes),
        Ghost(9),
    )?;
    let master_w = push_optional(
        context,
        &slots[10],
        &w_shape,
        Ghost(d),
        Ghost(recipes),
        Ghost(10),
    )?;
    let master_b = push_optional(
        context,
        &slots[11],
        &b_shape,
        Ghost(d),
        Ghost(recipes),
        Ghost(11),
    )?;
    let dv_w = push_optional(context, &slots[12], &w_shape, Ghost(d), Ghost(recipes), Ghost(12))?;
    let dv_b = push_optional(context, &slots[13], &b_shape, Ghost(d), Ghost(recipes), Ghost(13))?;
    let dm_w = push_optional(context, &slots[14], &w_shape, Ghost(d), Ghost(recipes), Ghost(14))?;
    let dm_b = push_optional(context, &slots[15], &b_shape, Ghost(d), Ghost(recipes), Ghost(15))?;
    assert(recipes.take(16) =~= recipes);
    Ok(
        ParamState {
            w: weights,
            b: biases,
            master_w,
            master_b,
            dv_w,
            dv_b,
            dm_w,
            dm_b,
        },
    )
}

/// The elements of a parameter that is loaded can be counted.
pub(crate) proof fn lemma_param_fits(ds: Seq<DescriptorView>, index: usize, kind: ParamType)
    requires
        first_trouble(ds) is None,
    ensures
        last_param(ds, index, kind) matches Some(d) ==> dims_fit(d, kind),
    decreases ds.len(),
{
    if ds.len() > 0 && !is_param(ds.last(), index, kind) {
        lemma_param_fits(ds.drop_last(), index, kind);
    }
}

/// Making tensors changes neither the device nor its tile.
pub(crate) proof fn lemma_present_keeps_tile(d: DeviceView, recipes: Seq<Option<Recipe>>)
    ensures
        made_present(d, recipes).0.tile_dim == d.tile_dim,
    decreases recipes.len(),
{
    if recipes.len() > 0 {
        lemma_present_keeps_tile(d, recipes.drop_last());
    }
}

/// The optimiser's tensors of a layer have the shapes of what they belong to.
pub(crate) proof fn lemma_loaded_is_consistent(
    d: DeviceView,
    slots: Seq<Option<SlotView>>,
    precision: Precision,
)
    requires
        slots.len() == 16,
        slots[0] is Some,
        slots[1] is Some,
    ensures
        present_state(d, slot_recipes(slots, precision), 0).consistent(),
        present_state(d, slot_recipes(slots, precision), 8).consistent(),
        present_state(d, slot_recipes(slots, precision), 0).w.shape == seq![
            (slots[0]->0).rows,
            (slots[0]->0).cols,
        ],
{
}

/// Whether the elements of a batch can be counted, and the blocks that fill it can be worked out in
/// 32 bits.
pub(crate) fn does_batch_fit(context: &GpuContext, max_batch_size: usize, outputs: usize) -> (r: bool)
    requires
        context.wf(),
    ensures
        r == batch_fits(context@.tile_dim, max_batch_size, outputs),
{
    let count: usize = match max_batch_size.checked_mul(outputs) {
        Some(count) => count,
        None => {
            return false;
        },
    };
    match u32::try_from(count) {
        Ok(n) => n <= u32::MAX - context.get_tile_dim_2_minus_1(),
        Err(_) => true,
    }
}

/// Puts a layer together from its parameters. Gives `None` where the batch is too large.
fn load_layer<T: PrecisionType>(
    context: &mut GpuContext,
    slots: &Vec<Option<Slot>>,
    is_training: bool,
    max_batch_size: usize,
    Ghost(l): Ghost<Loading>,
    Ghost(options): Ghost<LoadOptions>,
) -> (r: Option<Result<DenseBlock<T>, Error>>)
    requires
        old(context).wf(),
        options == (LoadOptions { precision: T::format(), is_training, max_batch_size }),
        l.device == old(context)@,
        l.trouble is None,
        slots@.len() == 16,
        slots@[0] is Some,
        slots@[1] is Some,
        (slots@[0]->0)@.rows * (slots@[0]->0)@.cols <= usize::MAX,
        (slots@[1]->0)@.rows == 1,
    ensures
        final(context).wf(),
        ({
            let next = with_slots(l, slot_views(slots@), options);
            &&& next.device == final(context)@
            &&& match next.trouble {
                None => (r matches Some(Ok(block)) && block.wf() && next.layers == l.layers.push(
                    block@,
                )),
                Some(Trouble::Refused(e)) => r is Some && refusal(r->0) == Some(e),
                Some(Trouble::Unfit) => r is None,
            }
        }),
{
    let ghost d = context@;
    let ghost views = slot_views(slots@);
    let ghost recipes = slot_recipes(views, T::format());
    reveal(with_slots);
    if let (Some(w), Some(b)) = (&slots[0], &slots[1]) {
        assert(views[0] == Some(w@) && views[1] == Some(b@));
        let linear = match load_linear::<T>(context, slots, w, b) {
            Ok(state) => state,
            Err(e) => {
                return Some(Err(e));
            },
        };
        let norm = match load_norm::<T>(context, slots, w, b, Ghost(d)) {
            Ok(state) => state,
            Err(e) => {
                return Some(Err(e));
            },
        };
        if !does_batch_fit(context, max_batch_size, w.cols) {
            return None;
        }
        proof {
            lemma_loaded_is_consistent(d, views, T::format());
        }
        let config = LayerInitConfig::default();
        Some(
            DenseBlock::assemble(context, is_training, linear, norm, max_batch_size, &config),
        )
    } else {
        None
    }
}

/// Puts the layers of a file together. Gives `None` where a size of the file is missing or too
/// large.
fn load_layers<T: PrecisionType>(
    context: &mut GpuContext,
    descriptors: &Vec<SafetensorDescriptor>,
    is_training: bool,
    max_batch_size: usize,
) -> (r: Option<Result<Vec<DenseBlock<T>>, Error>>)
    requires
        old(context).wf(),
    ensures
        final(context).wf(),
        ({
            let options = LoadOptions { precision: T::format(), is_training, max_batch_size };
            let l = loaded(old(context)@, descriptor_views(descriptors@), options);
            &&& final(context)@ == l.device
            &&& r is None <==> l.trouble == Some(Trouble::Unfit)
            &&& r matches Some(outcome) ==> is_outcome(outcome, l)
            &&& r matches Some(Ok(blocks)) ==> forall|i: int|
                0 <= i < blocks@.len() ==> (#[trigger] blocks@[i]).wf()
        }),
{
    broadcast use group_hash_axioms;

    let ghost d = context@;
    let ghost ds = descriptor_views(descriptors@);
    let ghost options = LoadOptions { precision: T::format(), is_training, max_batch_size };
    let (mut table, max): (Table, usize) = match gather(
        descriptors,
        T::precision(),
        is_training,
        Ghost(options),
    ) {
        Some(Ok(gathered)) => gathered,
        Some(Err(e)) => {
            return Some(Err(e));
        },
        None => {
            return None;
        },
    };
    if max == 0 {
        return Some(Err(Error::NoLayersFound));
    }
    let mut blocks: Vec<DenseBlock<T>> = Vec::new();
    let mut done: usize = 0;
    proof {
        assert(layer_views(blocks@) =~= seq![]);
    }
    while done < max
        invariant
            done <= max,
            d == old(context)@,
            max == max_layer(ds),
            max != 0,
            first_trouble(ds) is None,
            ds == descriptor_views(descriptors@),
            options == (LoadOptions { precision: T::format(), is_training, max_batch_size }),
            context.wf(),
            forall|index: usize|
                index > done ==> {
                    &&& #[trigger] table@.contains_key(index) <==> has_layer(ds, index)
                    &&& table@.contains_key(index) ==> slot_views(table@[index]@) == layer_slots(
                        ds,
                        index,
                        options,
                    )
                },
            loaded_layers(d, ds, options, done as int) == (Loading {
                device: context@,
                layers: layer_views(blocks@),
                trouble: None,
            }),
            forall|i: int| 0 <= i < blocks@.len() ==> (#[trigger] blocks@[i]).wf(),
        decreases max - done,
    {
        let index: usize = done + 1;
        let ghost l = loaded_layers(d, ds, options, done as int);
        let ghost next = with_layer(l, ds, index, options);
        assert(loaded_layers(d, ds, options, index as int) == next);
        let slots: Vec<Option<Slot>> = match table.remove(&index) {
            Some(slots) => slots,
            None => {
                proof {
                    lemma_loading_stops(d, ds, options, index as int, max as int);
                }
                return Some(Err(Error::MissingLayer { layer: index }));
            },
        };
        let ghost views = slot_views(slots@);
        proof {
            assert(views == layer_slots(ds, index, options));
            assert(views.len() == slots@.len());
            assert(views[0] == slot_view(slots@[0]) && views[1] == slot_view(slots@[1]));
            assert(views[0] == param_slot(ds, index, ParamType::W, options));
            assert(views[1] == param_slot(ds, index, ParamType::B, options));
            lemma_param_fits(ds, index, ParamType::W);
            lemma_param_fits(ds, index, ParamType::B);
            if next.trouble is Some {
                lemma_loading_stops(d, ds, options, index as int, max as int);
            }
        }
        if slots[0].is_none() {
            return Some(Err(Error::MissingWeights { layer: index }));
        }
        if slots[1].is_none() {
            return Some(Err(Error::MissingBiases { layer: index }));
        }
        let outcome = load_layer::<T>(
            context,
            &slots,
            is_training,
            max_batch_size,
            Ghost(l),
            Ghost(options),
        );
        match outcome {
            Some(Ok(block)) => {
                let ghost before = blocks@;
                blocks.push(block);
                assert(layer_views(blocks@) =~= layer_views(before).push(block@));
            },
            Some(Err(e)) => {
                return Some(Err(e));
            },
            None => {
                return None;
            },
        }
        done = index;
    }
    Some(Ok(blocks))
}

/// No layer is loaded after one that could not be.
proof fn lemma_loading_stops(
    d: DeviceView,
    ds: Seq<DescriptorView>,
    options: LoadOptions,
    k: int,
    n: int,
)
    requires
        0 <= k <= n,
        loaded_layers(d, ds, options, k).trouble is Some,
    ensures
        loaded_layers(d, ds, options, n) == loaded_layers(d, ds, options, k),
    decreases n - k,
{
    if k < n {
        lemma_loading_stops(d, ds, options, k, n - 1);
    }
}

impl SafetensorFile {
    /// Consumes the file and returns a list of [`DenseBlock`] from the data stored in it.
    ///
    /// # Arguments
    /// * `context` - See [`GpuContext`]
    /// * `is_training` - If set to false, tensors related only to the backward pass
    ///   will not be generated to save memory.
    /// * `max_batch_size` - Maximum size of a batch
    ///
    /// # Errors
    /// This function will return an error if:
    /// * [`Error::InvalidTensorName`] - A tensor identifier starts with "layer" but violates
    ///   structural format rules (e.g., missing dot separator, unparseable layer index, or
    ///   unrecognised parameter type suffix).
    /// * [`Error::PrecisionMatch`] - A parameter marked strictly for FP32 processing (such as Adam
    ///   momentum arrays) is found encoded as FP16.
    /// * [`Error::NoLayersFound`] - The file contains no valid layer data entries.
    /// * [`Error::MissingLayer`] - A layer structure index within the calculated sequence range
    ///   is entirely missing from the file.
    /// * [`Error::MissingWeights`] / [`Error::MissingBiases`] - A layer block is found, but its
    ///   foundational weights (`w`) or biases (`b`) matrices are missing.
    /// * [`Error::MismatchedDimensions`] - A tensor does not hold as many numbers as its layer
    ///   needs.
    /// * [`Error::IntConversion`] - A batch holds more numbers than a kernel can count.
    pub fn into_blocks<T: PrecisionType>(
        self,
        context: &mut GpuContext,
        is_training: bool,
        max_batch_size: usize,
    ) -> (r: Result<Vec<DenseBlock<T>>, Error>)
        requires
            old(context).wf(),
            loaded(
                old(context)@,
                self@.descriptors,
                LoadOptions { precision: T::format(), is_training, max_batch_size },
            ).trouble != Some(Trouble::Unfit),
        ensures
            final(context).wf(),
            ({
                let options = LoadOptions { precision: T::format(), is_training, max_batch_size };
                let l = loaded(old(context)@, self@.descriptors, options);
                final(context)@ == loaded_device(old(context)@, l) && is_outcome(r, l)
            }),
            r matches Ok(blocks) ==> forall|i: int|
                0 <= i < blocks@.len() ==> (#[trigger] blocks@[i]).wf(),
    {
        match self.checked_into_blocks(context, is_training, max_batch_size) {
            Some(outcome) => outcome,
            None => Err(Error::NoLayersFound),
        }
    }

    /// Consumes the file and returns a list of [`DenseBlock`] as [`SafetensorFile::into_blocks`]
    /// does. Gives `None` where a size of a tensor is missing, or where a size of a tensor or of a
    /// batch is too large to work with.
    pub fn checked_into_blocks<T: PrecisionType>(
        self,
        context: &mut GpuContext,
        is_training: bool,
        max_batch_size: usize,
    ) -> (r: Option<Result<Vec<DenseBlock<T>>, Error>>)
        requires
            old(context).wf(),
        ensures
            final(context).wf(),
            ({
                let options = LoadOptions { precision: T::format(), is_training, max_batch_size };
                let l = loaded(old(context)@, self@.descriptors, options);
                &&& final(context)@ == loaded_device(old(context)@, l)
                &&& r is None <==> l.trouble == Some(Trouble::Unfit)
                &&& r matches Some(outcome) ==> is_outcome(outcome, l)
            }),
            r matches Some(Ok(blocks)) ==> forall|i: int|
                0 <= i < blocks@.len() ==> (#[trigger] blocks@[i]).wf(),
    {
        let first: usize = context.get_next_id();
        let r = load_layers(context, self.get_descriptors(), is_training, max_batch_size);
        let loaded_all = match &r {
            Some(Ok(_)) => true,
            _ => false,
        };
        if !loaded_all {
            context.give_back(first);
        }
        r
    }
}

/// The tensor of a parameter holds what the file has for that parameter, copies and moments in full
/// precision and the others in that of the layer. A normalisation that the file knows nothing of
/// is zero, and nothing else is made up. Weights and their moments are as large as the weights of
/// the layer, and all biases as large as its biases.
pub proof fn law_parameters_come_from_the_file(
    slots: Seq<Option<SlotView>>,
    kind: ParamType,
    precision: Precision,
)
    ensures
        ({
            let recipe = slot_recipe(slots, place_of(kind), precision);
            let found = slots[place_of(kind)];
            let w = slots[place_of(ParamType::W)]->0;
            let b = slots[place_of(ParamType::B)]->0;
            let is_own = kind is W || kind is B || kind is NormW || kind is NormB;
            &&& recipe is Some <==> (found is Some || kind is NormW || kind is NormB)
            &&& recipe is Some ==> recipe->0.precision == (if is_own {
                precision
            } else {
                Precision::FP32
            })
            &&& recipe is Some && found is None ==> recipe->0.fill is Zeros
            &&& found matches Some(slot) ==> recipe->0.fill == (Fill::Host {
                held: recipe->0.precision,
                numbers: HostView::Patterns(slot.numbers),
            })
            &&& recipe is Some && (kind is W || kind is MasterW || kind is DvW || kind is DmW)
                ==> recipe->0.shape == seq![w.rows, w.cols]
            &&& recipe is Some && (kind is B || kind is MasterB || kind is DvB || kind is DmB
                || kind is NormB || kind is MasterNormB || kind is DvNormB || kind is DmNormB)
                ==> recipe->0.shape == seq![b.rows, b.cols]
            &&& recipe is Some && (kind is NormW || kind is MasterNormW || kind is DvNormW
                || kind is DmNormW) ==> recipe->0.shape == seq![b.rows, w.cols]
        }),
{
    lemma_places(kind, 0);
}

} // verus!
