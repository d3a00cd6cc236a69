//! What is saved is loaded again.

use vstd::prelude::*;

use crate::io::bytes::{law_numbers_from_their_bytes, patterns_fit};
use crate::io::device::{tile_area, DeviceView, HostView, OpView};
use crate::io::json::json_object;
use crate::io::load::{
    belongs_to, descriptor_trouble, dims_fit, dims_of, first_trouble, has_layer, is_moment,
    is_param, last_param, layer_slots, lemma_loaded_is_consistent, lemma_places,
    lemma_present_keeps_tile, loaded, loaded_layers, made_present, max_layer, param_at,
    param_format, param_slot, place_of, present_state, present_tensor, slot_of, slot_recipes,
    slot_recipe, slot_shape, with_layer, with_slots, LoadOptions, Loading, SlotView,
};
use crate::io::param_name::{law_name_is_parsed_back, parsed_name, NameView, ParamType};
use crate::io::safetensor::{
    distinct_names, file_image, header_members, header_text, is_reading_of, law_file_is_read_back,
    metadata_name, DescriptorView, SafetensorWriter, WriterView,
};
use crate::io::save::{
    is_file_of, layer_descriptors, network_descriptors, numbers_complete, param_descriptor, savable,
    saved_basics, saved_master, saved_masters, saved_moments, saved_params, SafetensorFile,
    SavedView,
};
use crate::mlp::state::{linear_recipes, made_state, norm_recipes, state_refusal, ParamView};
use crate::mlp::{block_recipes, doubled_block, halved_block, layer_recipes, new_layer, DenseView};
use crate::util::context::LayerInitConfig;
use crate::util::log::{refusal, Error};
use crate::util::precision::Precision;
use crate::util::tensor::{
    element_count, lemma_countable, lemma_made_keeps_tile, lemma_plane_count, made_all, Fill, Recipe,
    TensorView,
};

verus! {

/// The numbers of the tensors of a layer can be saved in the formats of the tensors.
pub open spec fn numbers_fit(
    layer: DenseView,
    precision: Precision,
    numbers: Seq<Seq<u32>>,
) -> bool {
    let params = saved_params(layer, precision);
    forall|j: int|
        0 <= j < params.len() ==> patterns_fit(#[trigger] numbers[j], params[j].precision)
}

/// The layers of a network, and the numbers of each, can be saved.
pub open spec fn network_savable(
    layers: Seq<DenseView>,
    precision: Precision,
    numbers: Seq<Seq<Seq<u32>>>,
) -> bool {
    &&& layers.len() <= usize::MAX
    &&& numbers.len() == layers.len()
    &&& forall|i: int|
        0 <= i < layers.len() ==> {
            &&& savable(#[trigger] layers[i])
            &&& numbers_complete(layers[i], precision, numbers[i])
            &&& numbers_fit(layers[i], precision, numbers[i])
        }
}

/// A descriptor is one of the first `k` layers of a network.
pub open spec fn is_saved(
    d: DescriptorView,
    layers: Seq<DenseView>,
    precision: Precision,
    numbers: Seq<Seq<Seq<u32>>>,
    k: int,
) -> bool {
    exists|i: int, j: int|
        {
            &&& 0 <= i < k
            &&& 0 <= j < saved_params(layers[i], precision).len()
            &&& d == #[trigger] param_descriptor(
                (i + 1) as usize,
                saved_params(layers[i], precision)[j],
                numbers[i][j],
            )
        }
}

/// The tensors of a saved network, one by one.
proof fn lemma_network_descriptors(
    layers: Seq<DenseView>,
    precision: Precision,
    numbers: Seq<Seq<Seq<u32>>>,
    k: int,
    d: DescriptorView,
)
    requires
        0 <= k <= layers.len(),
        layers.len() <= usize::MAX,
    ensures
        network_descriptors(layers, precision, numbers, k).contains(d) <==> is_saved(
            d,
            layers,
            precision,
            numbers,
            k,
        ),
    decreases k,
{
    if k > 0 {
        lemma_network_descriptors(layers, precision, numbers, k - 1, d);
        let before = network_descriptors(layers, precision, numbers, k - 1);
        let last = layer_descriptors(layers[k - 1], precision, k as usize, numbers[k - 1]);
        let all = network_descriptors(layers, precision, numbers, k);
        if all.contains(d) {
            let x = choose|x: int| 0 <= x < all.len() && all[x] == d;
            if x < before.len() {
                assert(before[x] == d);
                let (i, j) = choose|i: int, j: int|
                    {
                        &&& 0 <= i < k - 1
                        &&& 0 <= j < saved_params(layers[i], precision).len()
                        &&& d == #[trigger] param_descriptor(
                            (i + 1) as usize,
                            saved_params(layers[i], precision)[j],
                            numbers[i][j],
                        )
                    };
                assert(is_saved(d, layers, precision, numbers, k));
            } else {
                let j = x - before.len();
                assert(last[j] == d);
                assert(d == param_descriptor(
                    ((k - 1) + 1) as usize,
                    saved_params(layers[k - 1], precision)[j],
                    numbers[k - 1][j],
                ));
                assert(is_saved(d, layers, precision, numbers, k));
            }
        }
        if is_saved(d, layers, precision, numbers, k) {
            let (i, j) = choose|i: int, j: int|
                {
                    &&& 0 <= i < k
                    &&& 0 <= j < saved_params(layers[i], precision).len()
                    &&& d == #[trigger] param_descriptor(
                        (i + 1) as usize,
                        saved_params(layers[i], precision)[j],
                        numbers[i][j],
                    )
                };
            if i < k - 1 {
                assert(is_saved(d, layers, precision, numbers, k - 1));
                let x = choose|x: int| 0 <= x < before.len() && before[x] == d;
                assert(all[x] == d);
            } else {
                assert(last[j] == d);
                assert(all[before.len() + j] == d);
            }
        }
    }
}

/// The place of a parameter in the list of those that are saved, where none is left out.
spec fn rank(kind: ParamType) -> int {
    match kind {
        ParamType::W => 0,
        ParamType::B => 1,
        ParamType::NormW => 2,
        ParamType::NormB => 3,
        ParamType::DvW => 4,
        ParamType::DvB => 5,
        ParamType::DmW => 6,
        ParamType::DmB => 7,
        ParamType::DvNormW => 8,
        ParamType::DvNormB => 9,
        ParamType::DmNormW => 10,
        ParamType::DmNormB => 11,
        ParamType::MasterW => 12,
        ParamType::MasterB => 13,
        ParamType::MasterNormW => 14,
        ParamType::MasterNormB => 15,
    }
}

/// A master copy that is saved has rows and columns, and its elements can be counted.
spec fn is_master(layer: DenseView, p: SavedView, kind: ParamType) -> bool {
    &&& p.kind == kind
    &&& tensor_of(layer, kind) is Some
    &&& p.tensor == (tensor_of(layer, kind)->0).slice()
    &&& p.precision == Precision::FP32
    &&& p.shape.len() == 2
    &&& p.shape[0] * p.shape[1] <= usize::MAX
}

/// Master copies that may be missing, one behind the other, are in their order.
proof fn lemma_masters_in_order(
    layer: DenseView,
    m0: Seq<SavedView>,
    m1: Seq<SavedView>,
    m2: Seq<SavedView>,
    m3: Seq<SavedView>,
    i: int,
    j: int,
)
    requires
        m0.len() <= 1,
        m1.len() <= 1,
        m2.len() <= 1,
        m3.len() <= 1,
        m0.len() == 1 ==> is_master(layer, m0[0], ParamType::MasterW),
        m1.len() == 1 ==> is_master(layer, m1[0], ParamType::MasterB),
        m2.len() == 1 ==> is_master(layer, m2[0], ParamType::MasterNormW),
        m3.len() == 1 ==> is_master(layer, m3[0], ParamType::MasterNormB),
        0 <= i <= j < (m0 + m1 + m2 + m3).len(),
    ensures
        is_master(layer, (m0 + m1 + m2 + m3)[i], (m0 + m1 + m2 + m3)[i].kind),
        rank((m0 + m1 + m2 + m3)[i].kind) >= 12,
        i < j ==> rank((m0 + m1 + m2 + m3)[i].kind) < rank((m0 + m1 + m2 + m3)[j].kind),
{
}

/// The master copies of a layer are in their order.
proof fn lemma_saved_masters(layer: DenseView, i: int, j: int)
    requires
        savable(layer),
        0 <= i <= j < saved_masters(layer).len(),
    ensures
        is_master(layer, saved_masters(layer)[i], saved_masters(layer)[i].kind),
        rank(saved_masters(layer)[i].kind) >= 12,
        i < j ==> rank(saved_masters(layer)[i].kind) < rank(saved_masters(layer)[j].kind),
{
    if let Some(t) = layer.linear.master_w {
        lemma_plane_count(t.shape);
    }
    if let Some(t) = layer.linear.master_b {
        lemma_plane_count(t.shape);
    }
    if let Some(t) = layer.norm.master_w {
        lemma_plane_count(t.shape);
    }
    if let Some(t) = layer.norm.master_b {
        lemma_plane_count(t.shape);
    }
    lemma_masters_in_order(
        layer,
        saved_master(ParamType::MasterW, layer.linear.master_w),
        saved_master(ParamType::MasterB, layer.linear.master_b),
        saved_master(ParamType::MasterNormW, layer.norm.master_w),
        saved_master(ParamType::MasterNormB, layer.norm.master_b),
        i,
        j,
    );
}

/// A tensor that is saved has the format and the shape that it is loaded with.
spec fn is_loadable(p: SavedView, precision: Precision) -> bool {
    &&& p.precision == param_format(p.kind, precision)
    &&& p.shape.len() >= if p.kind.flat() {
        1int
    } else {
        2
    }
    &&& !p.kind.flat() ==> p.shape[0] * p.shape[1] <= usize::MAX
}

/// What a parameter that is saved looks like.
proof fn lemma_saved_param(layer: DenseView, precision: Precision, j: int)
    requires
        savable(layer),
        0 <= j < saved_params(layer, precision).len(),
    ensures
        is_loadable(saved_params(layer, precision)[j], precision),
        ({
            let p = saved_params(layer, precision)[j];
            tensor_of(layer, p.kind) matches Some(t) && p.tensor == t.slice() && t.ok(2)
        }),
        j < 12 ==> rank(saved_params(layer, precision)[j].kind) == j,
        j >= 12 ==> rank(saved_params(layer, precision)[j].kind) >= 12,
        j >= 12 ==> saved_params(layer, precision)[j] == saved_masters(layer)[j - 12],
{
    let all = saved_params(layer, precision);
    lemma_plane_count(layer.linear.w.shape);
    if j < 4 {
        let basics = saved_basics(layer, precision);
        assert(all[j] == basics[j]);
        assert(j == 0 || j == 1 || j == 2 || j == 3);
    } else if j < 12 {
        let moments = saved_moments(layer);
        assert(all[j] == moments[j - 4]);
        assert(j == 4 || j == 5 || j == 6 || j == 7 || j == 8 || j == 9 || j == 10 || j == 11);
    } else {
        assert(all[j] == saved_masters(layer)[j - 12]);
        lemma_saved_masters(layer, j - 12, j - 12);
    }
}

/// No parameter of a layer is saved twice.
proof fn lemma_saved_once(layer: DenseView, precision: Precision, i: int, j: int)
    requires
        savable(layer),
        0 <= i < saved_params(layer, precision).len(),
        0 <= j < saved_params(layer, precision).len(),
        saved_params(layer, precision)[i].kind == saved_params(layer, precision)[j].kind,
    ensures
        i == j,
{
    lemma_saved_param(layer, precision, i);
    lemma_saved_param(layer, precision, j);
    if 12 <= i < j {
        lemma_saved_masters(layer, i - 12, j - 12);
    }
    if 12 <= j < i {
        lemma_saved_masters(layer, j - 12, i - 12);
    }
}

/// A tensor of a saved network can be loaded, and says what it is.
proof fn lemma_saved_descriptor(
    layer: DenseView,
    precision: Precision,
    index: usize,
    numbers: Seq<u32>,
    j: int,
)
    requires
        savable(layer),
        0 <= j < saved_params(layer, precision).len(),
        patterns_fit(numbers, saved_params(layer, precision)[j].precision),
    ensures
        ({
            let p = saved_params(layer, precision)[j];
            let d = param_descriptor(index, p, numbers);
            &&& parsed_name(d.name) is Param
            &&& parsed_name(d.name)->index == index
            &&& parsed_name(d.name)->kind == p.kind
            &&& descriptor_trouble(d) is None
            &&& slot_of(d, p.kind, precision).numbers == numbers
        }),
{
    let p = saved_params(layer, precision)[j];
    let d = param_descriptor(index, p, numbers);
    lemma_saved_param(layer, precision, j);
    law_name_is_parsed_back(index, p.kind);
    law_numbers_from_their_bytes(numbers, p.precision);
    assert(dims_fit(d, p.kind)) by {
        if p.kind.flat() {
            assert(dims_of(d, p.kind).0 * dims_of(d, p.kind).1 == p.shape[0]) by (nonlinear_arith)
                requires
                    dims_of(d, p.kind).0 == 1,
                    dims_of(d, p.kind).1 == p.shape[0],
            ;
        }
    }
}

/// A file none of whose tensors is in trouble can be loaded.
proof fn lemma_no_trouble(ds: Seq<DescriptorView>)
    requires
        forall|i: int| 0 <= i < ds.len() ==> descriptor_trouble(#[trigger] ds[i]) is None,
    ensures
        first_trouble(ds) is None,
    decreases ds.len(),
{
    if ds.len() > 0 {
        let before = ds.drop_last();
        assert forall|i: int| 0 <= i < before.len() implies descriptor_trouble(
            #[trigger] before[i],
        ) is None by {
            assert(before[i] == ds[i]);
        }
        lemma_no_trouble(before);
        assert(ds.last() == ds[ds.len() - 1]);
    }
}

/// The largest number of a layer is one of a tensor, and no tensor has a larger one.
proof fn lemma_max_layer(ds: Seq<DescriptorView>)
    ensures
        forall|i: int|
            0 <= i < ds.len() && parsed_name((#[trigger] ds[i]).name) is Param ==> parsed_name(
                ds[i].name,
            )->index <= max_layer(ds),
        max_layer(ds) > 0 ==> has_layer(ds, max_layer(ds)),
    decreases ds.len(),
{
    if ds.len() > 0 {
        let before = ds.drop_last();
        lemma_max_layer(before);
        assert forall|i: int|
            0 <= i < ds.len() && parsed_name((#[trigger] ds[i]).name) is Param implies parsed_name(
            ds[i].name,
        )->index <= max_layer(ds) by {
            if i < before.len() {
                assert(before[i] == ds[i]);
            }
        }
        if max_layer(ds) > max_layer(before) {
            assert(belongs_to(ds[ds.len() - 1], max_layer(ds)));
        } else if max_layer(ds) > 0 {
            let i = choose|i: int|
                0 <= i < before.len() && belongs_to(#[trigger] before[i], max_layer(before));
            assert(belongs_to(ds[i], max_layer(ds)));
        }
    }
}

/// The last tensor that is a parameter is one of the tensors, and none is one where there is no
/// last.
proof fn lemma_last_param(ds: Seq<DescriptorView>, index: usize, kind: ParamType)
    ensures
        last_param(ds, index, kind) matches Some(d) ==> ds.contains(d) && is_param(d, index, kind),
        last_param(ds, index, kind) is None ==> forall|i: int|
            0 <= i < ds.len() ==> !is_param(#[trigger] ds[i], index, kind),
    decreases ds.len(),
{
    if ds.len() > 0 {
        let before = ds.drop_last();
        lemma_last_param(before, index, kind);
        if is_param(ds.last(), index, kind) {
            assert(ds[ds.len() - 1] == ds.last());
        } else {
            if let Some(d) = last_param(before, index, kind) {
                let i = choose|i: int| 0 <= i < before.len() && before[i] == d;
                assert(ds[i] == d);
            } else {
                assert forall|i: int| 0 <= i < ds.len() implies !is_param(
                    #[trigger] ds[i],
                    index,
                    kind,
                ) by {
                    if i < before.len() {
                        assert(before[i] == ds[i]);
                    }
                }
            }
        }
    }
}

/// The tensors of a file are those of a saved network, in some order.
pub open spec fn is_saved_network(
    ds: Seq<DescriptorView>,
    layers: Seq<DenseView>,
    precision: Precision,
    numbers: Seq<Seq<Seq<u32>>>,
) -> bool {
    ds.to_multiset() == network_descriptors(
        layers,
        precision,
        numbers,
        layers.len() as int,
    ).to_multiset()
}

/// The tensors of a file, in any order, are those of the network that was saved.
proof fn lemma_file_tensors(
    ds: Seq<DescriptorView>,
    layers: Seq<DenseView>,
    precision: Precision,
    numbers: Seq<Seq<Seq<u32>>>,
    d: DescriptorView,
)
    requires
        layers.len() <= usize::MAX,
        is_saved_network(ds, layers, precision, numbers),
    ensures
        ds.contains(d) <==> is_saved(d, layers, precision, numbers, layers.len() as int),
{
    let net = network_descriptors(layers, precision, numbers, layers.len() as int);
    ds.to_multiset_ensures();
    net.to_multiset_ensures();
    assert(ds.contains(d) <==> ds.to_multiset().count(d) > 0);
    assert(net.contains(d) <==> net.to_multiset().count(d) > 0);
    lemma_network_descriptors(layers, precision, numbers, layers.len() as int, d);
}

/// The names of the tensors of a saved network, in any order, are distinct from each other: a
/// parameter of a layer of a file is the tensor that was saved for it.
proof fn lemma_reloaded_param(
    ds: Seq<DescriptorView>,
    layers: Seq<DenseView>,
    precision: Precision,
    numbers: Seq<Seq<Seq<u32>>>,
    i: int,
    kind: ParamType,
)
    requires
        network_savable(layers, precision, numbers),
        is_saved_network(ds, layers, precision, numbers),
        0 <= i < layers.len(),
    ensures
        ({
            let params = saved_params(layers[i], precision);
            let found = last_param(ds, (i + 1) as usize, kind);
            &&& forall|j: int|
                0 <= j < params.len() && (#[trigger] params[j]).kind == kind ==> found == Some(
                    param_descriptor((i + 1) as usize, params[j], numbers[i][j]),
                )
            &&& (forall|j: int| 0 <= j < params.len() ==> (#[trigger] params[j]).kind != kind)
                ==> found is None
        }),
{
    let params = saved_params(layers[i], precision);
    let index = (i + 1) as usize;
    let found = last_param(ds, index, kind);
    lemma_last_param(ds, index, kind);
    if let Some(d) = found {
        lemma_file_tensors(ds, layers, precision, numbers, d);
        let (x, y) = choose|x: int, y: int|
            {
                &&& 0 <= x < layers.len()
                &&& 0 <= y < saved_params(layers[x], precision).len()
                &&& d == #[trigger] param_descriptor(
                    (x + 1) as usize,
                    saved_params(layers[x], precision)[y],
                    numbers[x][y],
                )
            };
        assert(numbers_fit(layers[x], precision, numbers[x]));
        lemma_saved_descriptor(layers[x], precision, (x + 1) as usize, numbers[x][y], y);
        assert(x == i);
        assert forall|j: int|
            0 <= j < params.len() && (#[trigger] params[j]).kind == kind implies found == Some(
            param_descriptor(index, params[j], numbers[i][j]),
        ) by {
            lemma_saved_once(layers[i], precision, y, j);
        }
        assert(params[y].kind == kind);
    } else {
        assert forall|j: int|
            0 <= j < params.len() && (#[trigger] params[j]).kind == kind implies false by {
            let d = param_descriptor(index, params[j], numbers[i][j]);
            assert(is_saved(d, layers, precision, numbers, layers.len() as int));
            lemma_file_tensors(ds, layers, precision, numbers, d);
            assert(numbers_fit(layers[i], precision, numbers[i]));
            lemma_saved_descriptor(layers[i], precision, index, numbers[i][j], j);
            let k = choose|k: int| 0 <= k < ds.len() && ds[k] == d;
            assert(is_param(ds[k], index, kind));
        }
    }
}

/// A file has a layer, each parameter of the layer that was saved has the numbers that were saved for
/// it, and no other parameter is there.
pub open spec fn layer_is_found(
    ds: Seq<DescriptorView>,
    index: usize,
    layer: DenseView,
    numbers: Seq<Seq<u32>>,
    options: LoadOptions,
) -> bool {
    let params = saved_params(layer, options.precision);
    &&& has_layer(ds, index)
    &&& forall|j: int|
        0 <= j < params.len() && (is_moment((#[trigger] params[j]).kind) ==> options.is_training)
            ==> {
            let d = param_descriptor(index, params[j], numbers[j]);
            param_slot(ds, index, params[j].kind, options) == Some(
                SlotView {
                    rows: dims_of(d, params[j].kind).0,
                    cols: dims_of(d, params[j].kind).1,
                    numbers: numbers[j],
                },
            )
        }
    &&& forall|kind: ParamType|
        (forall|j: int| 0 <= j < params.len() ==> (#[trigger] params[j]).kind != kind)
            ==> #[trigger] param_slot(ds, index, kind, options) is None
}

/// What is saved is found again: a file that holds the tensors of a saved network, in any order, is
/// not in trouble; it has all the layers and no more; and each parameter of a layer has the numbers
/// that were saved for it.
pub proof fn law_saved_network_is_found_again(
    ds: Seq<DescriptorView>,
    layers: Seq<DenseView>,
    numbers: Seq<Seq<Seq<u32>>>,
    options: LoadOptions,
)
    requires
        network_savable(layers, options.precision, numbers),
        is_saved_network(ds, layers, options.precision, numbers),
    ensures
        first_trouble(ds) is None,
        max_layer(ds) == layers.len(),
        forall|i: int|
            0 <= i < layers.len() ==> layer_is_found(
                ds,
                (i + 1) as usize,
                #[trigger] layers[i],
                numbers[i],
                options,
            ),
{
    let n = layers.len() as int;
    let precision = options.precision;
    assert forall|k: int| 0 <= k < ds.len() implies {
        &&& descriptor_trouble(#[trigger] ds[k]) is None
        &&& parsed_name(ds[k].name) is Param
        &&& 1 <= parsed_name(ds[k].name)->index <= n
    } by {
        let d = ds[k];
        assert(ds.contains(d));
        lemma_file_tensors(ds, layers, precision, numbers, d);
        let (x, y) = choose|x: int, y: int|
            {
                &&& 0 <= x < layers.len()
                &&& 0 <= y < saved_params(layers[x], precision).len()
                &&& d == #[trigger] param_descriptor(
                    (x + 1) as usize,
                    saved_params(layers[x], precision)[y],
                    numbers[x][y],
                )
            };
        assert(numbers_fit(layers[x], precision, numbers[x]));
        lemma_saved_descriptor(layers[x], precision, (x + 1) as usize, numbers[x][y], y);
    }
    lemma_no_trouble(ds);
    lemma_max_layer(ds);
    assert forall|i: int| 0 <= i < n implies layer_is_found(
        ds,
        (i + 1) as usize,
        #[trigger] layers[i],
        numbers[i],
        options,
    ) by {
        lemma_layer_is_found(ds, layers, numbers, options, i);
    }
    assert(max_layer(ds) == n) by {
        if n > 0 {
            lemma_layer_is_found(ds, layers, numbers, options, n - 1);
            let k = choose|k: int| 0 <= k < ds.len() && belongs_to(#[trigger] ds[k], n as usize);
            assert(parsed_name(ds[k].name)->index <= max_layer(ds));
        }
        if max_layer(ds) > 0 {
            let k = choose|k: int|
                0 <= k < ds.len() && belongs_to(#[trigger] ds[k], max_layer(ds));
            assert(parsed_name(ds[k].name)->index <= n);
        }
    }
}

/// A layer of a saved network is found again.
proof fn lemma_layer_is_found(
    ds: Seq<DescriptorView>,
    layers: Seq<DenseView>,
    numbers: Seq<Seq<Seq<u32>>>,
    options: LoadOptions,
    i: int,
)
    requires
        network_savable(layers, options.precision, numbers),
        is_saved_network(ds, layers, options.precision, numbers),
        0 <= i < layers.len(),
    ensures
        layer_is_found(ds, (i + 1) as usize, layers[i], numbers[i], options),
{
    let precision = options.precision;
    let params = saved_params(layers[i], precision);
    let index = (i + 1) as usize;
    assert(numbers_fit(layers[i], precision, numbers[i]));
    assert(has_layer(ds, index)) by {
        let d = param_descriptor(index, params[0], numbers[i][0]);
        assert(is_saved(d, layers, precision, numbers, layers.len() as int));
        lemma_file_tensors(ds, layers, precision, numbers, d);
        lemma_saved_descriptor(layers[i], precision, index, numbers[i][0], 0);
        let k = choose|k: int| 0 <= k < ds.len() && ds[k] == d;
        assert(belongs_to(ds[k], index));
    }
    assert forall|j: int|
        0 <= j < params.len() && (is_moment((#[trigger] params[j]).kind)
            ==> options.is_training) implies {
        let d = param_descriptor(index, params[j], numbers[i][j]);
        param_slot(ds, index, params[j].kind, options) == Some(
            SlotView {
                rows: dims_of(d, params[j].kind).0,
                cols: dims_of(d, params[j].kind).1,
                numbers: numbers[i][j],
            },
        )
    } by {
        lemma_reloaded_param(ds, layers, precision, numbers, i, params[j].kind);
        lemma_saved_descriptor(layers[i], precision, index, numbers[i][j], j);
    }
    assert forall|kind: ParamType|
        (forall|j: int|
            0 <= j < params.len() ==> (#[trigger] params[j]).kind != kind) implies #[trigger]
        param_slot(ds, index, kind, options) is None by {
        lemma_reloaded_param(ds, layers, precision, numbers, i, kind);
    }
}

/// The tensor that is something to a layer.
pub open spec fn tensor_of(layer: DenseView, kind: ParamType) -> Option<TensorView> {
    match kind {
        ParamType::W => Some(layer.linear.w),
        ParamType::B => Some(layer.linear.b),
        ParamType::MasterW => layer.linear.master_w,
        ParamType::MasterB => layer.linear.master_b,
        ParamType::DvW => layer.linear.dv_w,
        ParamType::DvB => layer.linear.dv_b,
        ParamType::DmW => layer.linear.dm_w,
        ParamType::DmB => layer.linear.dm_b,
        ParamType::NormW => Some(layer.norm.w),
        ParamType::NormB => Some(layer.norm.b),
        ParamType::MasterNormW => layer.norm.master_w,
        ParamType::MasterNormB => layer.norm.master_b,
        ParamType::DvNormW => layer.norm.dv_w,
        ParamType::DvNormB => layer.norm.dv_b,
        ParamType::DmNormW => layer.norm.dm_w,
        ParamType::DmNormB => layer.norm.dm_b,
    }
}

/// The shape of what is something to a layer, given its weights and biases.
pub open spec fn regular_shape(layer: DenseView, kind: ParamType) -> Seq<usize> {
    if place_of(kind) % 2 == 1 {
        layer.linear.b.shape
    } else if place_of(kind) < 8 {
        layer.linear.w.shape
    } else {
        seq![1, layer.linear.w.shape[1]]
    }
}

/// The biases of a layer are one row, its normalisation has as many columns as it, and everything
/// that belongs to weights or biases has their shape.
pub open spec fn is_regular(layer: DenseView) -> bool {
    &&& layer.linear.b.shape[0] == 1
    &&& forall|kind: ParamType|
        tensor_of(layer, kind) is Some ==> (#[trigger] tensor_of(layer, kind))->0.shape
            == regular_shape(layer, kind)
}

/// There is a number for each element of the tensors of a layer.
pub open spec fn numbers_counted(
    layer: DenseView,
    precision: Precision,
    numbers: Seq<Seq<u32>>,
) -> bool {
    let params = saved_params(layer, precision);
    forall|j: int|
        0 <= j < params.len() ==> (#[trigger] numbers[j]).len() == params[j].tensor.len
}

/// A device was told to fill a tensor with numbers.
pub open spec fn is_filled(
    d: DeviceView,
    tensor: TensorView,
    format: Precision,
    numbers: Seq<u32>,
) -> bool {
    d.queue.contains(
        OpView::Upload {
            tensor: tensor.id,
            precision: format,
            held: format,
            numbers: HostView::Patterns(numbers),
        },
    )
}

/// A layer is the same as one that was saved: every tensor that was saved is there, has its shape,
/// and is filled with the numbers that were saved for it.
pub open spec fn is_reloaded(
    d: DeviceView,
    now: DenseView,
    layer: DenseView,
    numbers: Seq<Seq<u32>>,
    options: LoadOptions,
) -> bool {
    let params = saved_params(layer, options.precision);
    forall|j: int|
        0 <= j < params.len() && (is_moment((#[trigger] params[j]).kind) ==> options.is_training)
            ==> {
            &&& tensor_of(now, params[j].kind) is Some
            &&& (tensor_of(now, params[j].kind)->0).shape == (tensor_of(
                layer,
                params[j].kind,
            )->0).shape
            &&& is_filled(
                d,
                tensor_of(now, params[j].kind)->0,
                params[j].precision,
                numbers[j],
            )
        }
}

/// The work of a device goes on from that of another one.
spec fn goes_on(before: DeviceView, now: DeviceView) -> bool {
    &&& before.queue.len() <= now.queue.len()
    &&& forall|i: int| 0 <= i < before.queue.len() ==> #[trigger] now.queue[i] == before.queue[i]
}

/// What was told stays told.
proof fn lemma_stays_filled(
    before: DeviceView,
    now: DeviceView,
    tensor: TensorView,
    format: Precision,
    numbers: Seq<u32>,
)
    requires
        goes_on(before, now),
        is_filled(before, tensor, format, numbers),
    ensures
        is_filled(now, tensor, format, numbers),
{
    let op = OpView::Upload {
        tensor: tensor.id,
        precision: format,
        held: format,
        numbers: HostView::Patterns(numbers),
    };
    let i = choose|i: int| 0 <= i < before.queue.len() && before.queue[i] == op;
    assert(now.queue[i] == op);
}

/// Making tensors adds to the work of a device.
proof fn lemma_made_all_goes_on(d: DeviceView, recipes: Seq<Recipe>)
    ensures
        goes_on(d, made_all(d, recipes).0),
    decreases recipes.len(),
{
    if recipes.len() > 0 {
        lemma_made_all_goes_on(d, recipes.drop_last());
    }
}

/// Making tensors of which some are left out adds to the work of a device.
proof fn lemma_made_present_goes_on(d: DeviceView, recipes: Seq<Option<Recipe>>)
    ensures
        goes_on(d, made_present(d, recipes).0),
    decreases recipes.len(),
{
    if recipes.len() > 0 {
        lemma_made_present_goes_on(d, recipes.drop_last());
    }
}

/// A recipe is not refused: where the numbers are the host's, there is one for each element, and
/// where they are all the same, a kernel can count them.
spec fn is_sound(recipe: Recipe) -> bool {
    match recipe.fill {
        Fill::Zeros => true,
        Fill::Constant(_) => element_count(recipe.shape) <= u32::MAX,
        Fill::Host { held, numbers } => {
            &&& numbers.len() == element_count(recipe.shape)
            &&& element_count(recipe.shape) <= usize::MAX
        },
    }
}

/// Sound recipes are not refused.
proof fn lemma_sound_recipes(d: DeviceView, recipes: Seq<Recipe>)
    requires
        forall|k: int| 0 <= k < recipes.len() ==> is_sound(#[trigger] recipes[k]),
    ensures
        made_all(d, recipes).1 is None,
    decreases recipes.len(),
{
    if recipes.len() > 0 {
        let before = recipes.drop_last();
        assert forall|k: int| 0 <= k < before.len() implies is_sound(#[trigger] before[k]) by {
            assert(before[k] == recipes[k]);
        }
        lemma_sound_recipes(d, before);
        assert(is_sound(recipes[recipes.len() - 1]));
    }
}

/// Sound recipes of which some are left out are not refused, and tensors with numbers of the host
/// are filled with them.
proof fn lemma_sound_slots(d: DeviceView, recipes: Seq<Option<Recipe>>, k: int)
    requires
        forall|i: int|
            0 <= i < recipes.len() && (#[trigger] recipes[i]) is Some ==> is_sound(recipes[i]->0),
    ensures
        made_present(d, recipes).1 is None,
        0 <= k < recipes.len() ==> (recipes[k] matches Some(recipe) ==> (recipe.fill matches Fill::Host {
            held,
            numbers,
        } ==> made_present(d, recipes).0.queue.contains(
            OpView::Upload {
                tensor: (present_tensor(d, recipes, k)->0).id,
                precision: recipe.precision,
                held,
                numbers,
            },
        ))),
    decreases recipes.len(),
{
    if recipes.len() > 0 {
        let before = recipes.drop_last();
        let now = made_present(d, recipes).0;
        assert forall|i: int| 0 <= i < before.len() && (#[trigger] before[i]) is Some implies is_sound(
            before[i]->0,
        ) by {
            assert(before[i] == recipes[i]);
        }
        lemma_sound_slots(d, before, k);
        if recipes.last() is Some {
            assert(is_sound(recipes[recipes.len() - 1]->0));
        }
        if 0 <= k < before.len() {
            assert(before[k] == recipes[k]);
            assert(before.take(k) =~= recipes.take(k));
            if let Some(recipe) = recipes[k] {
                if let Fill::Host { held, numbers } = recipe.fill {
                    let op = OpView::Upload {
                        tensor: (present_tensor(d, recipes, k)->0).id,
                        precision: recipe.precision,
                        held,
                        numbers,
                    };
                    let earlier = made_present(d, before).0;
                    assert(earlier.queue.contains(op));
                    let i = choose|i: int| 0 <= i < earlier.queue.len() && earlier.queue[i] == op;
                    assert(now.queue[i] == op);
                }
            }
        } else if k == before.len() {
            assert(recipes.take(k) =~= before);
            if let Some(recipe) = recipes[k] {
                if let Fill::Host { held, numbers } = recipe.fill {
                    let earlier = made_present(d, before).0;
                    assert(now.queue[earlier.queue.len() as int] == OpView::Upload {
                        tensor: earlier.next_id,
                        precision: recipe.precision,
                        held,
                        numbers,
                    });
                }
            }
        }
    }
}

/// The work for a batch of a layer can be worked out in 32 bits.
pub open spec fn batch_counted(tile_dim: u32, max_batch_size: usize, outputs: usize) -> bool {
    max_batch_size * outputs + tile_area(tile_dim) <= u32::MAX
}

/// A parameter of a layer that is found again has a number for each of its elements.
proof fn lemma_found_slot(
    ds: Seq<DescriptorView>,
    index: usize,
    layer: DenseView,
    numbers: Seq<Seq<u32>>,
    options: LoadOptions,
    place: int,
)
    requires
        savable(layer),
        is_regular(layer),
        numbers_counted(layer, options.precision, numbers),
        layer_is_found(ds, index, layer, numbers, options),
        0 <= place < 16,
    ensures
        ({
            let slots = layer_slots(ds, index, options);
            let recipes = slot_recipes(slots, options.precision);
            &&& slots[0] is Some && slots[1] is Some
            &&& (slots[0]->0).cols == layer.linear.w.shape[1]
            &&& recipes[place] matches Some(recipe) ==> {
                &&& is_sound(recipe)
                &&& recipe.shape == regular_shape(layer, param_at(place))
            }
        }),
{
    let params = saved_params(layer, options.precision);
    let slots = layer_slots(ds, index, options);
    let kind = param_at(place);
    lemma_places(kind, place);
    lemma_saved_param(layer, options.precision, 0);
    lemma_saved_param(layer, options.precision, 1);
    assert(params[0].kind == ParamType::W && params[1].kind == ParamType::B);
    assert(slots[0] == param_slot(ds, index, params[0].kind, options));
    assert(slots[1] == param_slot(ds, index, params[1].kind, options));
    let w = slots[0]->0;
    let b = slots[1]->0;
    assert(w.rows == layer.linear.w.shape[0] && w.cols == layer.linear.w.shape[1]);
    assert(b.rows == 1 && b.cols == layer.linear.b.shape[1]);
    assert(seq![w.rows, w.cols] =~= layer.linear.w.shape);
    assert(seq![b.rows, b.cols] =~= layer.linear.b.shape);
    assert(slot_shape(w, b, place) == regular_shape(layer, kind));
    if slots[place] is Some {
        assert(slots[place] == param_slot(ds, index, kind, options));
        let j = choose|j: int| 0 <= j < params.len() && (#[trigger] params[j]).kind == kind;
        assert(0 <= j < params.len() && params[j].kind == kind);
        lemma_saved_param(layer, options.precision, j);
        assert(numbers[j].len() == params[j].tensor.len);
        lemma_countable((tensor_of(layer, kind)->0).shape);
        assert((slots[place]->0).numbers == numbers[j]);
    }
}

/// A layer that is found again is loaded as it was.
proof fn lemma_layer_is_reloaded(
    l: Loading,
    ds: Seq<DescriptorView>,
    index: usize,
    layer: DenseView,
    numbers: Seq<Seq<u32>>,
    options: LoadOptions,
)
    requires
        l.trouble is None,
        savable(layer),
        is_regular(layer),
        numbers_counted(layer, options.precision, numbers),
        layer_is_found(ds, index, layer, numbers, options),
        batch_counted(l.device.tile_dim, options.max_batch_size, layer.outputs()),
    ensures
        ({
            let next = with_layer(l, ds, index, options);
            &&& next.trouble is None
            &&& next.layers.len() == l.layers.len() + 1
            &&& next.layers.drop_last() == l.layers
            &&& next.device.tile_dim == l.device.tile_dim
            &&& goes_on(l.device, next.device)
            &&& is_reloaded(next.device, next.layers.last(), layer, numbers, options)
        }),
{
    reveal(with_slots);
    let slots = layer_slots(ds, index, options);
    let recipes = slot_recipes(slots, options.precision);
    let d = l.device;
    let made = made_present(d, recipes);
    let outputs = (slots[0]->0).cols;
    let next = with_layer(l, ds, index, options);
    lemma_found_slot(ds, index, layer, numbers, options, 0);
    assert forall|place: int|
        0 <= place < recipes.len() && (#[trigger] recipes[place]) is Some implies is_sound(
        recipes[place]->0,
    ) by {
        lemma_found_slot(ds, index, layer, numbers, options, place);
    }
    lemma_sound_slots(d, recipes, 0);
    lemma_made_present_goes_on(d, recipes);
    lemma_present_keeps_tile(d, recipes);
    let linear = present_state(d, recipes, 0);
    let norm = present_state(d, recipes, 8);
    lemma_loaded_is_consistent(d, slots, options.precision);
    let blocks = block_recipes(
        options.precision,
        options.max_batch_size,
        outputs,
        options.is_training,
    );
    lemma_block_is_sound(options, outputs);
    lemma_sound_recipes(made.0, blocks);
    lemma_made_all_goes_on(made.0, blocks);
    lemma_made_keeps_tile(made.0, blocks);
    assert(state_refusal(linear) is None && state_refusal(norm) is None);
    assert(next.layers.drop_last() =~= l.layers);
    let now = next.layers.last();
    let params = saved_params(layer, options.precision);
    assert forall|j: int|
        0 <= j < params.len() && (is_moment((#[trigger] params[j]).kind)
            ==> options.is_training) implies {
        &&& tensor_of(now, params[j].kind) is Some
        &&& (tensor_of(now, params[j].kind)->0).shape == (tensor_of(layer, params[j].kind)->0).shape
        &&& is_filled(
            next.device,
            tensor_of(now, params[j].kind)->0,
            params[j].precision,
            numbers[j],
        )
    } by {
        let kind = params[j].kind;
        let place = place_of(kind);
        lemma_places(kind, place);
        lemma_saved_param(layer, options.precision, j);
        lemma_found_slot(ds, index, layer, numbers, options, place);
        lemma_sound_slots(d, recipes, place);
        assert(slots[place] == param_slot(ds, index, kind, options));
        assert(tensor_of(now, kind) == present_tensor(d, recipes, place));
        assert(is_filled(made.0, tensor_of(now, kind)->0, params[j].precision, numbers[j]));
        lemma_stays_filled(
            made.0,
            next.device,
            tensor_of(now, kind)->0,
            params[j].precision,
            numbers[j],
        );
    }
}

/// What a layer needs besides its parameters is not refused.
proof fn lemma_block_is_sound(options: LoadOptions, outputs: usize)
    requires
        options.max_batch_size * outputs <= u32::MAX,
    ensures
        forall|k: int|
            #![auto]
            0 <= k < block_recipes(
                options.precision,
                options.max_batch_size,
                outputs,
                options.is_training,
            ).len() ==> is_sound(
                block_recipes(
                    options.precision,
                    options.max_batch_size,
                    outputs,
                    options.is_training,
                )[k],
            ),
{
    let shape = seq![options.max_batch_size, outputs];
    lemma_plane_count(shape);
}

/// What is saved is loaded again: from a file that holds the tensors of a saved network, in any
/// order, every layer is loaded, and every tensor that was saved has its shape again and is filled
/// with the numbers that were saved for it.
pub proof fn law_saved_network_is_loaded(
    d: DeviceView,
    ds: Seq<DescriptorView>,
    layers: Seq<DenseView>,
    numbers: Seq<Seq<Seq<u32>>>,
    options: LoadOptions,
)
    requires
        layers.len() > 0,
        network_savable(layers, options.precision, numbers),
        is_saved_network(ds, layers, options.precision, numbers),
        forall|i: int|
            0 <= i < layers.len() ==> {
                &&& is_regular(#[trigger] layers[i])
                &&& numbers_counted(layers[i], options.precision, numbers[i])
                &&& batch_counted(d.tile_dim, options.max_batch_size, layers[i].outputs())
            },
    ensures
        ({
            let l = loaded(d, ds, options);
            &&& l.trouble is None
            &&& l.layers.len() == layers.len()
            &&& forall|i: int|
                0 <= i < layers.len() ==> is_reloaded(
                    l.device,
                    l.layers[i],
                    #[trigger] layers[i],
                    numbers[i],
                    options,
                )
        }),
{
    law_saved_network_is_found_again(ds, layers, numbers, options);
    lemma_layers_are_reloaded(d, ds, layers, numbers, options, layers.len() as int);
}

/// The first `k` layers of a saved network are loaded as they were.
proof fn lemma_layers_are_reloaded(
    d: DeviceView,
    ds: Seq<DescriptorView>,
    layers: Seq<DenseView>,
    numbers: Seq<Seq<Seq<u32>>>,
    options: LoadOptions,
    k: int,
)
    requires
        0 <= k <= layers.len(),
        network_savable(layers, options.precision, numbers),
        forall|i: int|
            0 <= i < layers.len() ==> {
                &&& is_regular(#[trigger] layers[i])
                &&& numbers_counted(layers[i], options.precision, numbers[i])
                &&& batch_counted(d.tile_dim, options.max_batch_size, layers[i].outputs())
                &&& layer_is_found(ds, (i + 1) as usize, layers[i], numbers[i], options)
            },
    ensures
        ({
            let l = loaded_layers(d, ds, options, k);
            &&& l.trouble is None
            &&& l.layers.len() == k
            &&& l.device.tile_dim == d.tile_dim
            &&& forall|i: int|
                0 <= i < k ==> is_reloaded(
                    l.device,
                    l.layers[i],
                    #[trigger] layers[i],
                    numbers[i],
                    options,
                )
        }),
    decreases k,
{
    if k > 0 {
        lemma_layers_are_reloaded(d, ds, layers, numbers, options, k - 1);
        let before = loaded_layers(d, ds, options, k - 1);
        let l = loaded_layers(d, ds, options, k);
        let layer = layers[k - 1];
        lemma_layer_is_reloaded(before, ds, k as usize, layer, numbers[k - 1], options);
        assert forall|i: int| 0 <= i < k implies is_reloaded(
            l.device,
            l.layers[i],
            #[trigger] layers[i],
            numbers[i],
            options,
        ) by {
            if i < k - 1 {
                assert(l.layers[i] == l.layers.drop_last()[i]);
                let now = l.layers[i];
                let params = saved_params(layers[i], options.precision);
                assert forall|j: int|
                    0 <= j < params.len() && (is_moment((#[trigger] params[j]).kind)
                        ==> options.is_training) implies is_filled(
                    l.device,
                    tensor_of(now, params[j].kind)->0,
                    params[j].precision,
                    numbers[i][j],
                ) by {
                    lemma_stays_filled(
                        before.device,
                        l.device,
                        tensor_of(now, params[j].kind)->0,
                        params[j].precision,
                        numbers[i][j],
                    );
                }
            }
        }
    }
}

/// The names of the tensors of a saved network are distinct, so that its file can be read back.
pub proof fn law_saved_names_are_distinct(
    layers: Seq<DenseView>,
    precision: Precision,
    numbers: Seq<Seq<Seq<u32>>>,
)
    requires
        network_savable(layers, precision, numbers),
    ensures
        distinct_names(network_descriptors(layers, precision, numbers, layers.len() as int)),
{
    lemma_names(layers, precision, numbers, layers.len() as int);
}

/// The names of the tensors of the first `k` layers are distinct.
proof fn lemma_names(
    layers: Seq<DenseView>,
    precision: Precision,
    numbers: Seq<Seq<Seq<u32>>>,
    k: int,
)
    requires
        0 <= k <= layers.len(),
        network_savable(layers, precision, numbers),
    ensures
        distinct_names(network_descriptors(layers, precision, numbers, k)),
        forall|x: int|
            0 <= x < network_descriptors(layers, precision, numbers, k).len() ==> {
                let name = (#[trigger] network_descriptors(layers, precision, numbers, k)[x]).name;
                parsed_name(name) is Param && parsed_name(name)->index <= k
            },
    decreases k,
{
    if k > 0 {
        lemma_names(layers, precision, numbers, k - 1);
        let before = network_descriptors(layers, precision, numbers, k - 1);
        let params = saved_params(layers[k - 1], precision);
        let last = layer_descriptors(layers[k - 1], precision, k as usize, numbers[k - 1]);
        let all = network_descriptors(layers, precision, numbers, k);
        assert(numbers_fit(layers[k - 1], precision, numbers[k - 1]));
        lemma_metadata_is_foreign();
        assert forall|j: int| 0 <= j < last.len() implies {
            let name = (#[trigger] last[j]).name;
            &&& parsed_name(name) is Param
            &&& parsed_name(name)->index == k
            &&& parsed_name(name)->kind == params[j].kind
        } by {
            lemma_saved_descriptor(
                layers[k - 1],
                precision,
                k as usize,
                numbers[k - 1][j],
                j,
            );
        }
        assert forall|x: int| 0 <= x < all.len() implies {
            let name = (#[trigger] all[x]).name;
            &&& parsed_name(name) is Param
            &&& parsed_name(name)->index <= k
            &&& x >= before.len() ==> parsed_name(name)->index == k
        } by {
            if x < before.len() {
                assert(all[x] == before[x]);
            } else {
                assert(all[x] == last[x - before.len()]);
            }
        }
        assert forall|x: int, y: int| 0 <= x < y < all.len() implies (#[trigger] all[x]).name != (
        #[trigger] all[y]).name by {
            if y < before.len() {
                assert(all[x] == before[x] && all[y] == before[y]);
            } else if x < before.len() {
                assert(all[x] == before[x]);
                assert(parsed_name(before[x].name)->index <= k - 1);
            } else {
                let (i, j) = (x - before.len(), y - before.len());
                assert(all[x] == last[i] && all[y] == last[j]);
                if all[x].name == all[y].name {
                    lemma_saved_once(layers[k - 1], precision, i, j);
                }
            }
        }
    }
}

/// The name of the metadata's entry is not one of a layer's tensor.
pub(crate) proof fn lemma_metadata_is_foreign()
    ensures
        parsed_name(metadata_name()) == NameView::Foreign,
{
    reveal_strlit("layer");
    reveal_strlit("__metadata__");
    assert("layer"@[0] == 'l' && "__metadata__"@[0] == '_');
    if "layer"@.is_prefix_of(metadata_name()) {
        assert("layer"@ =~= metadata_name().subrange(0, "layer"@.len() as int));
        assert("layer"@[0] == metadata_name()[0]);
    }
}

/// A network is loaded from the bytes of its file: every reading of the bytes succeeds, and the file
/// that is read holds the tensors of the network that was saved.
pub proof fn law_saved_bytes_hold_the_network(
    v: WriterView,
    layers: Seq<DenseView>,
    precision: Precision,
    numbers: Seq<Seq<Seq<u32>>>,
    r: Result<SafetensorFile, Error>,
)
    requires
        network_savable(layers, precision, numbers),
        v.descriptors == network_descriptors(layers, precision, numbers, layers.len() as int),
        file_image(v).len() <= usize::MAX,
        json_object(header_text(v)) == Some(header_members(v)),
        is_file_of(r, file_image(v)),
    ensures
        r matches Ok(f) && is_saved_network(f@.descriptors, layers, precision, numbers),
{
    law_saved_names_are_distinct(layers, precision, numbers);
    law_file_is_read_back(v);
    let w = choose|w: Result<SafetensorWriter, Error>|
        {
            &&& #[trigger] is_reading_of(w, file_image(v))
            &&& refusal(r) == refusal(w)
            &&& r matches Ok(f) ==> f@ == w->Ok_0@
        };
    assert(is_reading_of(w, file_image(v)));
}

/// A new layer is regular, and can be saved.
pub proof fn law_new_layers_are_regular(
    d: DeviceView,
    precision: Precision,
    weights: HostView,
    inputs: usize,
    outputs: usize,
    max_batch_size: usize,
    config: LayerInitConfig,
    is_training: bool,
)
    ensures
        ({
            let recipes = layer_recipes(
                precision,
                weights,
                inputs,
                outputs,
                max_batch_size,
                is_training,
            );
            let layer = new_layer(d, recipes, precision, max_batch_size, config, is_training);
            is_regular(layer) && (is_training ==> layer.trainable())
        }),
{
    let recipes = layer_recipes(
        precision,
        weights,
        inputs,
        outputs,
        max_batch_size,
        is_training,
    );
    let layer = new_layer(d, recipes, precision, max_batch_size, config, is_training);
    let (w, b) = (seq![inputs, outputs], seq![1usize, outputs]);
    lemma_linear_shapes(d, precision, weights, w, b, is_training);
    lemma_norm_shapes(made_all(d, recipes.0).0, precision, b, is_training);
    lemma_shapes_are_regular(layer, w, b);
}

/// A layer whose states have the right shapes is regular.
proof fn lemma_shapes_are_regular(layer: DenseView, w: Seq<usize>, b: Seq<usize>)
    requires
        has_shapes(layer.linear, w, b),
        has_shapes(layer.norm, b, b),
        b == seq![1, w[1]],
    ensures
        is_regular(layer),
{
}

/// The tensors of a new linear state have the shapes of its weights and of its biases.
proof fn lemma_linear_shapes(
    d: DeviceView,
    precision: Precision,
    weights: HostView,
    w: Seq<usize>,
    b: Seq<usize>,
    is_training: bool,
)
    ensures
        has_shapes(
            made_state(
                d,
                linear_recipes(precision, weights, w, b, is_training),
                precision,
                is_training,
            ),
            w,
            b,
        ),
{
    lemma_state_shapes(
        d,
        linear_recipes(precision, weights, w, b, is_training),
        precision,
        w,
        b,
        is_training,
    );
}

/// The tensors of the state of a new normalisation all have its shape.
proof fn lemma_norm_shapes(
    d: DeviceView,
    precision: Precision,
    shape: Seq<usize>,
    is_training: bool,
)
    ensures
        has_shapes(
            made_state(d, norm_recipes(precision, shape, is_training), precision, is_training),
            shape,
            shape,
        ),
{
    lemma_state_shapes(
        d,
        norm_recipes(precision, shape, is_training),
        precision,
        shape,
        shape,
        is_training,
    );
}

/// The tensors of a state have the shapes of the weights and of the biases.
spec fn has_shapes(p: ParamView, w: Seq<usize>, b: Seq<usize>) -> bool {
    &&& p.w.shape == w && p.b.shape == b
    &&& p.master_w matches Some(t) ==> t.shape == w
    &&& p.master_b matches Some(t) ==> t.shape == b
    &&& p.dv_w matches Some(t) ==> t.shape == w
    &&& p.dv_b matches Some(t) ==> t.shape == b
    &&& p.dm_w matches Some(t) ==> t.shape == w
    &&& p.dm_b matches Some(t) ==> t.shape == b
}

/// The tensors of a new state have the shapes that the recipes give them.
proof fn lemma_state_shapes(
    d: DeviceView,
    recipes: Seq<Recipe>,
    precision: Precision,
    w: Seq<usize>,
    b: Seq<usize>,
    is_training: bool,
)
    requires
        forall|i: int|
            0 <= i < 8 && i < recipes.len() ==> (#[trigger] recipes[i]).shape == if i % 2 == 0 {
                w
            } else {
                b
            },
        recipes.len() == (if precision == Precision::FP16 {
            4int
        } else {
            2
        }) + if is_training {
            4int
        } else {
            0
        },
    ensures
        has_shapes(made_state(d, recipes, precision, is_training), w, b),
{
}

/// A regular layer that is turned into half precision is regular.
pub proof fn law_halved_layers_are_regular(d: DeviceView, b: DenseView)
    requires
        is_regular(b),
    ensures
        is_regular(halved_block(d, b).1),
        b.trainable() ==> halved_block(d, b).1.trainable(),
{
    let h = halved_block(d, b).1;
    assert forall|kind: ParamType| tensor_of(h, kind) is Some implies (#[trigger] tensor_of(
        h,
        kind,
    ))->0.shape == regular_shape(h, kind) by {
        lemma_regular(b, kind);
    }
}

/// A regular layer that is turned into full precision is regular.
pub proof fn law_doubled_layers_are_regular(d: DeviceView, b: DenseView)
    requires
        is_regular(b),
        b.linear.master_w is Some,
        b.linear.master_b is Some,
        b.norm.master_w is Some,
        b.norm.master_b is Some,
    ensures
        is_regular(doubled_block(d, b).1),
        b.trainable() ==> doubled_block(d, b).1.trainable(),
{
    let f = doubled_block(d, b).1;
    lemma_regular(b, ParamType::B);
    assert forall|kind: ParamType| tensor_of(f, kind) is Some implies (#[trigger] tensor_of(
        f,
        kind,
    ))->0.shape == regular_shape(f, kind) by {
        lemma_regular(b, kind);
    }
}

/// What is something to a regular layer has the shape that it should have.
proof fn lemma_regular(layer: DenseView, kind: ParamType)
    requires
        is_regular(layer),
    ensures
        layer.linear.b.shape[0] == 1,
        tensor_of(layer, kind) matches Some(t) ==> t.shape == regular_shape(layer, kind),
        layer.linear.w == tensor_of(layer, ParamType::W)->0,
        layer.norm.w.shape == regular_shape(layer, ParamType::NormW),
        layer.norm.b.shape == regular_shape(layer, ParamType::NormB),
        layer.linear.master_w matches Some(t) ==> t.shape == layer.linear.w.shape,
        layer.linear.master_b matches Some(t) ==> t.shape == layer.linear.b.shape,
        layer.norm.master_w matches Some(t) ==> t.shape == regular_shape(layer, ParamType::NormW),
        layer.norm.master_b matches Some(t) ==> t.shape == layer.linear.b.shape,
{
    assert(tensor_of(layer, ParamType::NormW) == Some(layer.norm.w));
    assert(tensor_of(layer, ParamType::NormB) == Some(layer.norm.b));
    assert(tensor_of(layer, ParamType::MasterW) == layer.linear.master_w);
    assert(tensor_of(layer, ParamType::MasterB) == layer.linear.master_b);
    assert(tensor_of(layer, ParamType::MasterNormW) == layer.norm.master_w);
    assert(tensor_of(layer, ParamType::MasterNormB) == layer.norm.master_b);
}

/// The first `k` layers that are loaded from a file are regular.
proof fn lemma_loaded_are_regular(
    d: DeviceView,
    ds: Seq<DescriptorView>,
    options: LoadOptions,
    k: int,
)
    ensures
        forall|i: int|
            0 <= i < loaded_layers(d, ds, options, k).layers.len() ==> is_regular(
                #[trigger] loaded_layers(d, ds, options, k).layers[i],
            ),
    decreases k,
{
    if k > 0 {
        lemma_loaded_are_regular(d, ds, options, k - 1);
        let before = loaded_layers(d, ds, options, k - 1);
        let now = loaded_layers(d, ds, options, k);
        let slots = layer_slots(ds, k as usize, options);
        if now.layers != before.layers {
            lemma_slots_make_regular(before, slots, options);
            assert(slots[1] == param_slot(ds, k as usize, ParamType::B, options));
            assert forall|i: int| 0 <= i < now.layers.len() implies is_regular(
                #[trigger] now.layers[i],
            ) by {
                if i < before.layers.len() {
                    assert(now.layers[i] == before.layers[i]);
                }
            }
        }
    }
}

/// A layer that is put together from its parameters is regular.
proof fn lemma_slots_make_regular(
    l: Loading,
    slots: Seq<Option<SlotView>>,
    options: LoadOptions,
)
    requires
        slots.len() == 16,
        slots[0] is Some,
        slots[1] is Some,
        (slots[1]->0).rows == 1,
    ensures
        ({
            let now = with_slots(l, slots, options);
            now.layers == l.layers || (now.layers.len() == l.layers.len() + 1 && now.layers.drop_last()
                == l.layers && is_regular(now.layers.last()))
        }),
{
    reveal(with_slots);
    let now = with_slots(l, slots, options);
    if now.layers != l.layers {
        assert(now.layers.drop_last() =~= l.layers);
        lemma_present_is_regular(l.device, slots, options.precision, now.layers.last());
    }
}

/// A layer whose states are made from its parameters is regular.
#[verifier::rlimit(40)]
proof fn lemma_present_is_regular(
    d: DeviceView,
    slots: Seq<Option<SlotView>>,
    precision: Precision,
    layer: DenseView,
)
    requires
        slots.len() == 16,
        slots[0] is Some,
        slots[1] is Some,
        (slots[1]->0).rows == 1,
        layer.linear == present_state(d, slot_recipes(slots, precision), 0),
        layer.norm == present_state(d, slot_recipes(slots, precision), 8),
    ensures
        is_regular(layer),
{
    let recipes = slot_recipes(slots, precision);
    let (w, b) = (slots[0]->0, slots[1]->0);
    assert forall|place: int| 0 <= place < 16 && (#[trigger] recipes[place]) is Some implies (
    recipes[place]->0).shape == slot_shape(w, b, place) by {
        assert(recipes[place] == slot_recipe(slots, place, precision));
    }
    assert(recipes[0] == slot_recipe(slots, 0, precision));
    assert(recipes[1] == slot_recipe(slots, 1, precision));
    assert(recipes[8] == slot_recipe(slots, 8, precision));
    assert(recipes[9] == slot_recipe(slots, 9, precision));
    assert forall|kind: ParamType| tensor_of(layer, kind) is Some implies (#[trigger] tensor_of(
        layer,
        kind,
    ))->0.shape == regular_shape(layer, kind) by {
        lemma_present_place(d, recipes, layer, kind);
        lemma_places(kind, 0);
    }
}

/// The tensors of a layer whose states are made from a list, by their places there.
proof fn lemma_present_place(
    d: DeviceView,
    recipes: Seq<Option<Recipe>>,
    layer: DenseView,
    kind: ParamType,
)
    requires
        recipes.len() == 16,
        recipes[0] is Some,
        recipes[1] is Some,
        recipes[8] is Some,
        recipes[9] is Some,
        layer.linear == present_state(d, recipes, 0),
        layer.norm == present_state(d, recipes, 8),
    ensures
        tensor_of(layer, kind) == present_tensor(d, recipes, place_of(kind)),
{
}

/// The layers that are loaded from a file are regular.
pub proof fn law_loaded_layers_are_regular(
    d: DeviceView,
    ds: Seq<DescriptorView>,
    options: LoadOptions,
    i: int,
)
    requires
        0 <= i < loaded(d, ds, options).layers.len(),
    ensures
        is_regular(loaded(d, ds, options).layers[i]),
{
    lemma_loaded_are_regular(d, ds, options, max_layer(ds) as int);
}

} // verus!
