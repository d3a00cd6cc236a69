//! What a new dense layer starts out with.

use vstd::prelude::*;

use crate::io::device::ffn_laws::{kept_apart, layer_tensors};
use crate::io::device::launch_laws::is_regular;
use crate::io::device::meaning::Contents;
use crate::io::device::util_laws::{fill_of, left, lemma_made_holds, lemma_made_keeps};
use crate::io::device::{DeviceView, HostView};
use crate::mlp::state::{larger, linear_recipes, made_state, norm_recipes, ParamView};
use crate::mlp::{block_recipes, layer_recipes, made_block, made_layer, new_layer, DenseView};
use crate::util::context::LayerInitConfig;
use crate::util::precision::Precision;
use crate::util::tensor::{made_all, Fill, Recipe};

verus! {

/// One in a format: a half has five bits of exponent and ten of mantissa, a full number eight and
/// twenty-three, and the exponent of one is its bias.
pub open spec fn one_in(precision: Precision) -> u32 {
    match precision {
        Precision::FP32 => 0x3F80_0000,
        Precision::FP16 => 0x3C00,
    }
}

/// How many tensors a state has.
pub open spec fn state_len(precision: Precision, is_training: bool) -> int {
    (if precision == Precision::FP16 {
        4int
    } else {
        2
    }) + (if is_training {
        4int
    } else {
        0
    })
}

/// Where a tensor of a state stands among those that are made.
pub open spec fn state_place(precision: Precision, i: int) -> int {
    if i < 4 || precision == Precision::FP16 {
        i
    } else {
        i - 2
    }
}

/// Where a tensor of a layer stands among those that are made.
pub open spec fn layer_place(precision: Precision, is_training: bool, i: int) -> int {
    let n = state_len(precision, is_training);
    if i < 8 {
        state_place(precision, i)
    } else if i < 16 {
        n + state_place(precision, i - 8)
    } else if i < 22 {
        2 * n + (i - 16)
    } else if i == 22 {
        2 * n + (if is_training {
            10
        } else {
            6int
        })
    } else {
        2 * n + 6 + (i - 23)
    }
}

/// The tensors of a state have the ids from one on.
pub open spec fn has_state_ids(p: ParamView, precision: Precision, first: int) -> bool {
    &&& p.w.id == first && p.b.id == first + 1
    &&& p.master_w matches Some(t) ==> t.id == first + 2
    &&& p.master_b matches Some(t) ==> t.id == first + 3
    &&& p.dv_w matches Some(t) ==> t.id == first + state_place(precision, 4)
    &&& p.dv_b matches Some(t) ==> t.id == first + state_place(precision, 5)
    &&& p.dm_w matches Some(t) ==> t.id == first + state_place(precision, 6)
    &&& p.dm_b matches Some(t) ==> t.id == first + state_place(precision, 7)
}

/// The tensors of a state have the shapes of the weights and of the biases.
pub open spec fn has_state_shapes(p: ParamView, w: Seq<usize>, b: Seq<usize>) -> bool {
    &&& p.w.shape == w && p.b.shape == b
    &&& p.master_w matches Some(t) ==> t.shape == w
    &&& p.master_b matches Some(t) ==> t.shape == b
    &&& p.dv_w matches Some(t) ==> t.shape == w
    &&& p.dv_b matches Some(t) ==> t.shape == b
    &&& p.dm_w matches Some(t) ==> t.shape == w
    &&& p.dm_b matches Some(t) ==> t.shape == b
}

/// Which tensors a state has: copies in full precision only beside halves, and what an optimiser
/// remembers only in training.
pub open spec fn has_state_tensors(p: ParamView, precision: Precision, is_training: bool) -> bool {
    &&& p.master_w is Some <==> precision == Precision::FP16
    &&& p.master_b is Some <==> precision == Precision::FP16
    &&& p.dv_w is Some <==> is_training
    &&& p.dv_b is Some <==> is_training
    &&& p.dm_w is Some <==> is_training
    &&& p.dm_b is Some <==> is_training
}

/// The tensors of a new state: weights and biases take turns among them.
#[verifier::rlimit(40)]
proof fn lemma_new_state(
    d: DeviceView,
    recipes: Seq<Recipe>,
    precision: Precision,
    is_training: bool,
    w: Seq<usize>,
    b: Seq<usize>,
)
    requires
        made_all(d, recipes).1 is None,
        recipes.len() == state_len(precision, is_training),
        d.next_id + recipes.len() <= usize::MAX,
        forall|k: int|
            0 <= k < recipes.len() ==> (#[trigger] recipes[k]).shape == (if k % 2 == 0 {
                w
            } else {
                b
            }),
    ensures
        ({
            let p = made_state(d, recipes, precision, is_training);
            &&& has_state_ids(p, precision, d.next_id as int)
            &&& has_state_shapes(p, w, b)
            &&& has_state_tensors(p, precision, is_training)
        }),
{
    let c = Map::<usize, Contents>::empty();
    lemma_made_holds(c, d, d, recipes, 0);
    lemma_made_holds(c, d, d, recipes, 1);
    if precision == Precision::FP16 {
        lemma_made_holds(c, d, d, recipes, 2);
        lemma_made_holds(c, d, d, recipes, 3);
    }
    if is_training {
        let k: int = if precision == Precision::FP16 {
            4
        } else {
            2
        };
        lemma_made_holds(c, d, d, recipes, k);
        lemma_made_holds(c, d, d, recipes, k + 1);
        lemma_made_holds(c, d, d, recipes, k + 2);
        lemma_made_holds(c, d, d, recipes, k + 3);
    }
}

/// The tensors of a layer besides its weights and biases have the ids from one on.
pub open spec fn has_rest_ids(layer: DenseView, first: int, is_training: bool) -> bool {
    &&& layer.cache.out.id == first && layer.cache.predrop_out.id == first + 1
    &&& layer.cache.preact_out.id == first + 2 && layer.cache.centered_out.id == first + 3
    &&& layer.cache.prenorm_out.id == first + 4 && layer.cache.norm_rstd.id == first + 5
    &&& layer.mask.id == first + (if is_training {
        10int
    } else {
        6
    })
    &&& layer.grad matches Some(t) ==> t.id == first + 6
    &&& layer.d_prenorm_out matches Some(t) ==> t.id == first + 7
    &&& layer.d_norm_w matches Some(t) ==> t.id == first + 8
    &&& layer.d_norm_b matches Some(t) ==> t.id == first + 9
    &&& layer.grad is Some <==> is_training
    &&& layer.d_prenorm_out is Some <==> is_training
    &&& layer.d_norm_w is Some <==> is_training
    &&& layer.d_norm_b is Some <==> is_training
}

/// The tensors of a new layer besides its weights and biases.
proof fn lemma_new_rest(
    d: DeviceView,
    recipes: Seq<Recipe>,
    linear: ParamView,
    norm: ParamView,
    max_batch_size: usize,
    config: LayerInitConfig,
    is_training: bool,
)
    requires
        made_all(d, recipes).1 is None,
        recipes.len() == (if is_training {
            11int
        } else {
            7
        }),
        d.next_id + recipes.len() <= usize::MAX,
    ensures
        has_rest_ids(
            made_block(d, recipes, linear, norm, max_batch_size, config, is_training),
            d.next_id as int,
            is_training,
        ),
{
    let c = Map::<usize, Contents>::empty();
    lemma_made_holds(c, d, d, recipes, 0);
    lemma_made_holds(c, d, d, recipes, 1);
    lemma_made_holds(c, d, d, recipes, 2);
    lemma_made_holds(c, d, d, recipes, 3);
    lemma_made_holds(c, d, d, recipes, 4);
    lemma_made_holds(c, d, d, recipes, 5);
    lemma_made_holds(c, d, d, recipes, 6);
    if is_training {
        lemma_made_holds(c, d, d, recipes, 7);
        lemma_made_holds(c, d, d, recipes, 8);
        lemma_made_holds(c, d, d, recipes, 9);
        lemma_made_holds(c, d, d, recipes, 10);
    }
}

/// The id of each tensor of a layer whose parts have their ids one after the other.
proof fn lemma_ids(
    layer: DenseView,
    precision: Precision,
    is_training: bool,
    first: int,
    i: int,
)
    requires
        has_state_ids(layer.linear, precision, first),
        has_state_ids(layer.norm, precision, first + state_len(precision, is_training)),
        has_rest_ids(layer, first + 2 * state_len(precision, is_training), is_training),
        has_state_tensors(layer.linear, precision, is_training),
        has_state_tensors(layer.norm, precision, is_training),
        0 <= i < 27,
    ensures
        layer_tensors(layer)[i] matches Some(t) ==> {
            &&& t.id == first + layer_place(precision, is_training, i)
            &&& 0 <= layer_place(precision, is_training, i) < 2 * state_len(
                precision,
                is_training,
            ) + 7 + (if is_training {
                4int
            } else {
                0
            })
            &&& precision == Precision::FP32 ==> i != 2 && i != 3 && i != 10 && i != 11
            &&& !is_training ==> i < 4 || 8 <= i < 12 || 16 <= i < 23
        },
{
    let ts = layer_tensors(layer);
    if i < 8 {
        assert(ts[0] == Some(layer.linear.w) && ts[1] == Some(layer.linear.b));
        assert(ts[2] == layer.linear.master_w && ts[3] == layer.linear.master_b);
        assert(ts[4] == layer.linear.dv_w && ts[5] == layer.linear.dv_b);
        assert(ts[6] == layer.linear.dm_w && ts[7] == layer.linear.dm_b);
        assert(i == 0 || i == 1 || i == 2 || i == 3 || i == 4 || i == 5 || i == 6 || i == 7);
    } else if i < 16 {
        assert(ts[8] == Some(layer.norm.w) && ts[9] == Some(layer.norm.b));
        assert(ts[10] == layer.norm.master_w && ts[11] == layer.norm.master_b);
        assert(ts[12] == layer.norm.dv_w && ts[13] == layer.norm.dv_b);
        assert(ts[14] == layer.norm.dm_w && ts[15] == layer.norm.dm_b);
        assert(i == 8 || i == 9 || i == 10 || i == 11 || i == 12 || i == 13 || i == 14 || i == 15);
    } else {
        assert(ts[16] == Some(layer.cache.out) && ts[17] == Some(layer.cache.predrop_out));
        assert(ts[18] == Some(layer.cache.preact_out) && ts[19] == Some(layer.cache.centered_out));
        assert(ts[20] == Some(layer.cache.prenorm_out) && ts[21] == Some(layer.cache.norm_rstd));
        assert(ts[22] == Some(layer.mask) && ts[23] == layer.grad);
        assert(ts[24] == layer.d_prenorm_out && ts[25] == layer.d_norm_w);
        assert(ts[26] == layer.d_norm_b);
        assert(i == 16 || i == 17 || i == 18 || i == 19 || i == 20 || i == 21 || i == 22 || i == 23
            || i == 24 || i == 25 || i == 26);
    }
}

/// Two places of tensors that a layer has are different.
proof fn lemma_places(precision: Precision, is_training: bool, i: int, j: int)
    requires
        0 <= i < j < 27,
        precision == Precision::FP32 ==> i != 2 && i != 3 && i != 10 && i != 11,
        precision == Precision::FP32 ==> j != 2 && j != 3 && j != 10 && j != 11,
        !is_training ==> i < 4 || 8 <= i < 12 || 16 <= i < 23,
        !is_training ==> j < 4 || 8 <= j < 12 || 16 <= j < 23,
    ensures
        layer_place(precision, is_training, i) != layer_place(precision, is_training, j),
{
}

/// Each tensor of a new layer takes an id of its own, behind all that were given out before, and the
/// tensors have the shapes that belong together.
#[verifier::rlimit(40)]
pub proof fn law_new_layer_owns_its_tensors(
    d: DeviceView,
    precision: Precision,
    weights: HostView,
    inputs: usize,
    outputs: usize,
    max_batch_size: usize,
    config: LayerInitConfig,
    is_training: bool,
)
    requires
        d.next_id + 27 <= usize::MAX,
        made_layer(
            d,
            layer_recipes(precision, weights, inputs, outputs, max_batch_size, is_training),
        ).1 is None,
    ensures
        ({
            let recipes = layer_recipes(
                precision,
                weights,
                inputs,
                outputs,
                max_batch_size,
                is_training,
            );
            let layer = new_layer(d, recipes, precision, max_batch_size, config, is_training);
            let e = made_layer(d, recipes).0;
            &&& kept_apart(layer_tensors(layer))
            &&& is_regular(layer)
            &&& layer.inputs() == inputs && layer.outputs() == outputs
            &&& layer.config == config && layer.max_batch_size == max_batch_size
            &&& is_training ==> layer.trainable()
            &&& forall|i: int|
                0 <= i < 27 && (#[trigger] layer_tensors(layer)[i]) is Some ==> d.next_id <= (
                layer_tensors(layer)[i]->0).id < e.next_id
        }),
{
    let recipes = layer_recipes(
        precision,
        weights,
        inputs,
        outputs,
        max_batch_size,
        is_training,
    );
    let layer = new_layer(d, recipes, precision, max_batch_size, config, is_training);
    lemma_new_parts(
        d,
        precision,
        weights,
        inputs,
        outputs,
        max_batch_size,
        config,
        is_training,
    );
    lemma_owned(layer, precision, is_training, d.next_id as int);
    assert(seq![inputs, outputs][0] == inputs && seq![inputs, outputs][1] == outputs);
}

/// A layer whose parts have their ids one after the other owns its tensors.
proof fn lemma_owned(layer: DenseView, precision: Precision, is_training: bool, first: int)
    requires
        has_state_ids(layer.linear, precision, first),
        has_state_ids(layer.norm, precision, first + state_len(precision, is_training)),
        has_rest_ids(layer, first + 2 * state_len(precision, is_training), is_training),
        has_state_tensors(layer.linear, precision, is_training),
        has_state_tensors(layer.norm, precision, is_training),
    ensures
        kept_apart(layer_tensors(layer)),
        is_training ==> layer.trainable(),
        forall|i: int|
            0 <= i < 27 && (#[trigger] layer_tensors(layer)[i]) is Some ==> first <= (
            layer_tensors(layer)[i]->0).id < first + 2 * state_len(precision, is_training) + 7 + (
            if is_training {
                4int
            } else {
                0
            }),
{
    let ts = layer_tensors(layer);
    assert forall|i: int| 0 <= i < 27 && (#[trigger] ts[i]) is Some implies first <= (ts[i]->0).id
        < first + 2 * state_len(precision, is_training) + 7 + (if is_training {
        4int
    } else {
        0
    }) by {
        lemma_ids(layer, precision, is_training, first, i);
    }
    assert forall|i: int, j: int|
        0 <= i < j < ts.len() && (#[trigger] ts[i]) is Some && (#[trigger] ts[j]) is Some implies (
    ts[i]->0).id != (ts[j]->0).id by {
        lemma_ids(layer, precision, is_training, first, i);
        lemma_ids(layer, precision, is_training, first, j);
        lemma_places(precision, is_training, i, j);
    }
}

/// The parts of a new layer.
#[verifier::rlimit(40)]
proof fn lemma_new_parts(
    d: DeviceView,
    precision: Precision,
    weights: HostView,
    inputs: usize,
    outputs: usize,
    max_batch_size: usize,
    config: LayerInitConfig,
    is_training: bool,
)
    requires
        d.next_id + 27 <= usize::MAX,
        made_layer(
            d,
            layer_recipes(precision, weights, inputs, outputs, max_batch_size, is_training),
        ).1 is None,
    ensures
        ({
            let recipes = layer_recipes(
                precision,
                weights,
                inputs,
                outputs,
                max_batch_size,
                is_training,
            );
            let layer = new_layer(d, recipes, precision, max_batch_size, config, is_training);
            let n = state_len(precision, is_training);
            let first = d.next_id as int;
            let (w, b) = (seq![inputs, outputs], seq![1usize, outputs]);
            &&& has_state_ids(layer.linear, precision, first)
            &&& has_state_ids(layer.norm, precision, first + n)
            &&& has_rest_ids(layer, first + 2 * n, is_training)
            &&& has_state_tensors(layer.linear, precision, is_training)
            &&& has_state_tensors(layer.norm, precision, is_training)
            &&& has_state_shapes(layer.linear, w, b)
            &&& has_state_shapes(layer.norm, b, b)
            &&& is_regular(layer)
            &&& made_all(d, recipes.0).0.next_id == first + n
            &&& made_all(made_all(d, recipes.0).0, recipes.1).0.next_id == first + 2 * n
            &&& made_layer(d, recipes).0.next_id == first + 2 * n + 7 + (if is_training {
                4int
            } else {
                0
            })
            &&& recipes.0.len() == n && recipes.1.len() == n
        }),
{
    let recipes = layer_recipes(
        precision,
        weights,
        inputs,
        outputs,
        max_batch_size,
        is_training,
    );
    let layer = new_layer(d, recipes, precision, max_batch_size, config, is_training);
    let (w, b) = (seq![inputs, outputs], seq![1usize, outputs]);
    let c = Map::<usize, Contents>::empty();
    let d1 = made_all(d, recipes.0).0;
    let d2 = made_all(d1, recipes.1).0;
    let n = state_len(precision, is_training);
    lemma_linear_turns(precision, weights, w, b, is_training);
    lemma_norm_turns(precision, b, is_training);
    lemma_rest_shapes(precision, max_batch_size, outputs, is_training);
    lemma_made_keeps(c, d, d, recipes.0, 0);
    lemma_made_keeps(c, d, d1, recipes.1, 0);
    lemma_made_keeps(c, d, d2, recipes.2, 0);
    lemma_new_state(d, recipes.0, precision, is_training, w, b);
    lemma_new_state(d1, recipes.1, precision, is_training, b, b);
    lemma_new_rest(
        d2,
        recipes.2,
        layer.linear,
        layer.norm,
        max_batch_size,
        config,
        is_training,
    );
    assert(w[1] == outputs);
}

/// Weights and biases take turns among the tensors of a linear state.
proof fn lemma_linear_turns(
    precision: Precision,
    weights: HostView,
    w: Seq<usize>,
    b: Seq<usize>,
    is_training: bool,
)
    ensures
        ({
            let recipes = linear_recipes(precision, weights, w, b, is_training);
            &&& recipes.len() == state_len(precision, is_training)
            &&& forall|k: int|
                0 <= k < recipes.len() ==> (#[trigger] recipes[k]).shape == (if k % 2 == 0 {
                    w
                } else {
                    b
                })
        }),
{
}

/// Weights and biases take turns among the tensors of a normalisation.
proof fn lemma_norm_turns(precision: Precision, b: Seq<usize>, is_training: bool)
    ensures
        ({
            let recipes = norm_recipes(precision, b, is_training);
            &&& recipes.len() == state_len(precision, is_training)
            &&& forall|k: int| 0 <= k < recipes.len() ==> (#[trigger] recipes[k]).shape == b
        }),
{
}

/// The shapes of the tensors of a layer besides its weights and biases.
proof fn lemma_rest_shapes(
    precision: Precision,
    max_batch_size: usize,
    outputs: usize,
    is_training: bool,
)
    ensures
        ({
            let recipes = block_recipes(precision, max_batch_size, outputs, is_training);
            &&& recipes.len() == (if is_training {
                11int
            } else {
                7
            })
            &&& forall|k: int|
                0 <= k < recipes.len() && k != 5 ==> (#[trigger] recipes[k]).shape
                    == seq![max_batch_size, outputs]
            &&& recipes[5].shape == seq![larger(max_batch_size, outputs)]
        }),
{
}

/// What a tensor of a new layer holds, by the list that it is made from and its place there.
proof fn lemma_made_part(
    c: Map<usize, Contents>,
    d: DeviceView,
    recipes: (Seq<Recipe>, Seq<Recipe>, Seq<Recipe>),
    list: int,
    k: int,
)
    requires
        made_layer(d, recipes).1 is None,
        d.next_id + recipes.0.len() + recipes.1.len() + recipes.2.len() <= usize::MAX,
        0 <= k,
        list == 0 ==> k < recipes.0.len(),
        list == 1 ==> k < recipes.1.len(),
        list == 2 ==> k < recipes.2.len(),
    ensures
        ({
            let r = left(c, d, made_layer(d, recipes).0);
            let (m, n) = (recipes.0.len() as int, recipes.1.len() as int);
            &&& list == 0 ==> r[(d.next_id + k) as usize] == fill_of(recipes.0[k])
            &&& list == 1 ==> r[(d.next_id + m + k) as usize] == fill_of(recipes.1[k])
            &&& list == 2 ==> r[(d.next_id + m + n + k) as usize] == fill_of(recipes.2[k])
        }),
{
    let d1 = made_all(d, recipes.0).0;
    let d2 = made_all(d1, recipes.1).0;
    lemma_made_keeps(c, d, d, recipes.0, 0);
    lemma_made_keeps(c, d, d1, recipes.1, 0);
    if list == 0 {
        let id = (d.next_id + k) as usize;
        lemma_made_holds(c, d, d, recipes.0, k);
        lemma_made_keeps(c, d, d1, recipes.1, id);
        lemma_made_keeps(c, d, d2, recipes.2, id);
    } else if list == 1 {
        let id = (d1.next_id + k) as usize;
        lemma_made_holds(c, d, d1, recipes.1, k);
        lemma_made_keeps(c, d, d2, recipes.2, id);
    } else if list == 2 {
        lemma_made_holds(c, d, d2, recipes.2, k);
    }
}

/// Zeros of a shape.
pub open spec fn zeros(precision: Precision, shape: Seq<usize>) -> Recipe {
    Recipe { shape, precision, fill: Fill::Zeros }
}

/// Ones of a shape.
pub open spec fn ones(precision: Precision, shape: Seq<usize>) -> Recipe {
    Recipe { shape, precision, fill: Fill::Constant(one_in(precision)) }
}

/// Numbers of the host, of the given format.
pub open spec fn numbers_in(
    precision: Precision,
    held: Precision,
    numbers: HostView,
    shape: Seq<usize>,
) -> Recipe {
    Recipe { shape, precision, fill: Fill::Host { held, numbers } }
}

/// A list makes a state: weights and biases, copies of both in full precision beside halves, and
/// four tensors of zeros for the optimiser in training.
pub open spec fn makes_state(
    list: Seq<Recipe>,
    precision: Precision,
    is_training: bool,
    w: Recipe,
    b: Recipe,
    full_w: Recipe,
    full_b: Recipe,
) -> bool {
    let k: int = if precision == Precision::FP16 {
        4
    } else {
        2
    };
    let full = Precision::FP32;
    &&& list.len() == state_len(precision, is_training)
    &&& list[0] == w && list[1] == b
    &&& precision == Precision::FP16 ==> list[2] == full_w && list[3] == full_b
    &&& is_training ==> {
        &&& list[k] == zeros(full, w.shape) && list[k + 1] == zeros(full, b.shape)
        &&& list[k + 2] == zeros(full, w.shape) && list[k + 3] == zeros(full, b.shape)
    }
}

/// The tensors of a linear state.
proof fn lemma_linear_list(
    precision: Precision,
    weights: HostView,
    w: Seq<usize>,
    b: Seq<usize>,
    is_training: bool,
)
    ensures
        makes_state(
            linear_recipes(precision, weights, w, b, is_training),
            precision,
            is_training,
            numbers_in(precision, precision, weights, w),
            zeros(precision, b),
            numbers_in(Precision::FP32, precision, weights, w),
            zeros(Precision::FP32, b),
        ),
{
}

/// The tensors of a normalisation.
proof fn lemma_norm_list(precision: Precision, b: Seq<usize>, is_training: bool)
    ensures
        makes_state(
            norm_recipes(precision, b, is_training),
            precision,
            is_training,
            ones(precision, b),
            zeros(precision, b),
            ones(Precision::FP32, b),
            zeros(Precision::FP32, b),
        ),
{
}

/// A state holds what the lists say that make it.
pub open spec fn state_holds(
    r: Map<usize, Contents>,
    p: ParamView,
    w: Recipe,
    b: Recipe,
    full_w: Recipe,
    full_b: Recipe,
) -> bool {
    let full = Precision::FP32;
    &&& r[p.w.id] == fill_of(w) && r[p.b.id] == fill_of(b)
    &&& p.master_w matches Some(t) ==> r[t.id] == fill_of(full_w)
    &&& p.master_b matches Some(t) ==> r[t.id] == fill_of(full_b)
    &&& p.dv_w matches Some(t) ==> r[t.id] == fill_of(zeros(full, w.shape))
    &&& p.dv_b matches Some(t) ==> r[t.id] == fill_of(zeros(full, b.shape))
    &&& p.dm_w matches Some(t) ==> r[t.id] == fill_of(zeros(full, w.shape))
    &&& p.dm_b matches Some(t) ==> r[t.id] == fill_of(zeros(full, b.shape))
}

/// What the tensors of a new state hold.
proof fn lemma_state_holds(
    c: Map<usize, Contents>,
    d: DeviceView,
    recipes: (Seq<Recipe>, Seq<Recipe>, Seq<Recipe>),
    list: int,
    p: ParamView,
    precision: Precision,
    is_training: bool,
    w: Recipe,
    b: Recipe,
    full_w: Recipe,
    full_b: Recipe,
)
    requires
        made_layer(d, recipes).1 is None,
        d.next_id + recipes.0.len() + recipes.1.len() + recipes.2.len() <= usize::MAX,
        list == 0 || list == 1,
        list == 0 ==> has_state_ids(p, precision, d.next_id as int),
        list == 1 ==> has_state_ids(p, precision, d.next_id + recipes.0.len()),
        has_state_tensors(p, precision, is_training),
        makes_state(
            if list == 0 {
                recipes.0
            } else {
                recipes.1
            },
            precision,
            is_training,
            w,
            b,
            full_w,
            full_b,
        ),
    ensures
        state_holds(left(c, d, made_layer(d, recipes).0), p, w, b, full_w, full_b),
{
    lemma_made_part(c, d, recipes, list, 0);
    lemma_made_part(c, d, recipes, list, 1);
    let half = precision == Precision::FP16;
    if half {
        lemma_made_part(c, d, recipes, list, 2);
        lemma_made_part(c, d, recipes, list, 3);
    }
    if is_training {
        let k: int = if half {
            4
        } else {
            2
        };
        lemma_made_part(c, d, recipes, list, k);
        lemma_made_part(c, d, recipes, list, k + 1);
        lemma_made_part(c, d, recipes, list, k + 2);
        lemma_made_part(c, d, recipes, list, k + 3);
    }
}

/// The weights and biases of a new layer start from the numbers of the host and from zero, their
/// copies in full precision from the same, and what an optimiser remembers from zero.
#[verifier::rlimit(40)]
pub proof fn law_new_weights_are_those_of_the_host(
    c: Map<usize, Contents>,
    d: DeviceView,
    precision: Precision,
    weights: HostView,
    inputs: usize,
    outputs: usize,
    max_batch_size: usize,
    config: LayerInitConfig,
    is_training: bool,
)
    requires
        d.next_id + 27 <= usize::MAX,
        made_layer(
            d,
            layer_recipes(precision, weights, inputs, outputs, max_batch_size, is_training),
        ).1 is None,
    ensures
        ({
            let recipes = layer_recipes(
                precision,
                weights,
                inputs,
                outputs,
                max_batch_size,
                is_training,
            );
            let layer = new_layer(d, recipes, precision, max_batch_size, config, is_training);
            let r = left(c, d, made_layer(d, recipes).0);
            let (w, b) = (layer.linear.w.shape, layer.linear.b.shape);
            state_holds(
                r,
                layer.linear,
                numbers_in(precision, precision, weights, w),
                zeros(precision, b),
                numbers_in(Precision::FP32, precision, weights, w),
                zeros(Precision::FP32, b),
            )
        }),
{
    let recipes = layer_recipes(
        precision,
        weights,
        inputs,
        outputs,
        max_batch_size,
        is_training,
    );
    let layer = new_layer(d, recipes, precision, max_batch_size, config, is_training);
    lemma_new_parts(
        d,
        precision,
        weights,
        inputs,
        outputs,
        max_batch_size,
        config,
        is_training,
    );
    lemma_rest_shapes(precision, max_batch_size, outputs, is_training);
    let (w, b) = (seq![inputs, outputs], seq![1usize, outputs]);
    lemma_linear_list(precision, weights, w, b, is_training);
    lemma_state_holds(
        c,
        d,
        recipes,
        0,
        layer.linear,
        precision,
        is_training,
        numbers_in(precision, precision, weights, w),
        zeros(precision, b),
        numbers_in(Precision::FP32, precision, weights, w),
        zeros(Precision::FP32, b),
    );
}

/// The normalisation of a new layer starts out changing nothing: its weights are one and its biases
/// zero, as are their copies in full precision, and what an optimiser remembers is zero.
#[verifier::rlimit(40)]
pub proof fn law_new_normalisation_changes_nothing(
    c: Map<usize, Contents>,
    d: DeviceView,
    precision: Precision,
    weights: HostView,
    inputs: usize,
    outputs: usize,
    max_batch_size: usize,
    config: LayerInitConfig,
    is_training: bool,
)
    requires
        d.next_id + 27 <= usize::MAX,
        made_layer(
            d,
            layer_recipes(precision, weights, inputs, outputs, max_batch_size, is_training),
        ).1 is None,
    ensures
        ({
            let recipes = layer_recipes(
                precision,
                weights,
                inputs,
                outputs,
                max_batch_size,
                is_training,
            );
            let layer = new_layer(d, recipes, precision, max_batch_size, config, is_training);
            let r = left(c, d, made_layer(d, recipes).0);
            let (w, b) = (layer.norm.w.shape, layer.norm.b.shape);
            state_holds(
                r,
                layer.norm,
                ones(precision, w),
                zeros(precision, b),
                ones(Precision::FP32, w),
                zeros(Precision::FP32, b),
            )
        }),
{
    let recipes = layer_recipes(
        precision,
        weights,
        inputs,
        outputs,
        max_batch_size,
        is_training,
    );
    let layer = new_layer(d, recipes, precision, max_batch_size, config, is_training);
    lemma_new_parts(
        d,
        precision,
        weights,
        inputs,
        outputs,
        max_batch_size,
        config,
        is_training,
    );
    lemma_rest_shapes(precision, max_batch_size, outputs, is_training);
    let b = seq![1usize, outputs];
    lemma_norm_list(precision, b, is_training);
    lemma_state_holds(
        c,
        d,
        recipes,
        1,
        layer.norm,
        precision,
        is_training,
        ones(precision, b),
        zeros(precision, b),
        ones(Precision::FP32, b),
        zeros(Precision::FP32, b),
    );
}

/// A new layer drops no feature, and its gradients are zero: its mask is one throughout.
#[verifier::rlimit(40)]
pub proof fn law_new_mask_keeps_everything(
    c: Map<usize, Contents>,
    d: DeviceView,
    precision: Precision,
    weights: HostView,
    inputs: usize,
    outputs: usize,
    max_batch_size: usize,
    config: LayerInitConfig,
    is_training: bool,
)
    requires
        d.next_id + 27 <= usize::MAX,
        made_layer(
            d,
            layer_recipes(precision, weights, inputs, outputs, max_batch_size, is_training),
        ).1 is None,
    ensures
        ({
            let recipes = layer_recipes(
                precision,
                weights,
                inputs,
                outputs,
                max_batch_size,
                is_training,
            );
            let layer = new_layer(d, recipes, precision, max_batch_size, config, is_training);
            let r = left(c, d, made_layer(d, recipes).0);
            let shape = layer.mask.shape;
            let zero = fill_of(zeros(Precision::FP32, shape));
            &&& r[layer.mask.id] == fill_of(ones(precision, shape))
            &&& layer.grad matches Some(t) ==> r[t.id] == zero
            &&& layer.d_prenorm_out matches Some(t) ==> r[t.id] == zero
            &&& layer.d_norm_w matches Some(t) ==> r[t.id] == zero
            &&& layer.d_norm_b matches Some(t) ==> r[t.id] == zero
        }),
{
    let recipes = layer_recipes(
        precision,
        weights,
        inputs,
        outputs,
        max_batch_size,
        is_training,
    );
    let layer = new_layer(d, recipes, precision, max_batch_size, config, is_training);
    lemma_new_parts(
        d,
        precision,
        weights,
        inputs,
        outputs,
        max_batch_size,
        config,
        is_training,
    );
    lemma_rest_shapes(precision, max_batch_size, outputs, is_training);
    let shape = seq![max_batch_size, outputs];
    lemma_rest_list(precision, max_batch_size, outputs, is_training);
    lemma_rest_holds(c, d, recipes, layer, precision, is_training, shape);
}

/// The last tensors of a layer: the gradients in training, and the mask.
pub open spec fn makes_rest(
    list: Seq<Recipe>,
    precision: Precision,
    is_training: bool,
    shape: Seq<usize>,
) -> bool {
    let zero = zeros(Precision::FP32, shape);
    if is_training {
        &&& list.len() == 11
        &&& list[6] == zero && list[7] == zero && list[8] == zero && list[9] == zero
        &&& list[10] == ones(precision, shape)
    } else {
        list.len() == 7 && list[6] == ones(precision, shape)
    }
}

/// The last tensors of a new layer.
proof fn lemma_rest_list(
    precision: Precision,
    max_batch_size: usize,
    outputs: usize,
    is_training: bool,
)
    ensures
        makes_rest(
            block_recipes(precision, max_batch_size, outputs, is_training),
            precision,
            is_training,
            seq![max_batch_size, outputs],
        ),
{
}

/// What the gradients and the mask of a new layer hold.
proof fn lemma_rest_holds(
    c: Map<usize, Contents>,
    d: DeviceView,
    recipes: (Seq<Recipe>, Seq<Recipe>, Seq<Recipe>),
    layer: DenseView,
    precision: Precision,
    is_training: bool,
    shape: Seq<usize>,
)
    requires
        made_layer(d, recipes).1 is None,
        d.next_id + recipes.0.len() + recipes.1.len() + recipes.2.len() <= usize::MAX,
        has_rest_ids(layer, d.next_id + recipes.0.len() + recipes.1.len(), is_training),
        makes_rest(recipes.2, precision, is_training, shape),
    ensures
        ({
            let r = left(c, d, made_layer(d, recipes).0);
            let zero = fill_of(zeros(Precision::FP32, shape));
            &&& r[layer.mask.id] == fill_of(ones(precision, shape))
            &&& layer.grad matches Some(t) ==> r[t.id] == zero
            &&& layer.d_prenorm_out matches Some(t) ==> r[t.id] == zero
            &&& layer.d_norm_w matches Some(t) ==> r[t.id] == zero
            &&& layer.d_norm_b matches Some(t) ==> r[t.id] == zero
        }),
{
    lemma_made_part(c, d, recipes, 2, 6);
    if is_training {
        lemma_made_part(c, d, recipes, 2, 7);
        lemma_made_part(c, d, recipes, 2, 8);
        lemma_made_part(c, d, recipes, 2, 9);
        lemma_made_part(c, d, recipes, 2, 10);
    }
}

} // verus!
