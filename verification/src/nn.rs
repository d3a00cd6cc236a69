//! Networks of 32-bit numbers that are always in training mode: how they are put together, saved and
//! loaded.
//!
//! A file is read leniently: a tensor whose name is not understood is passed over, and what an
//! optimiser keeps is zero where it is missing.

pub mod laws;

use vstd::prelude::*;
use vstd::std_specs::cmp::PartialEqSpec;
use vstd::std_specs::hash::*;

use crate::io::bytes::to_bytes;
use crate::io::device::{
    given_back, lemma_then_run, DeviceView, GpuContext, HostNumbers, HostView, OpView,
};
use crate::io::json::{insert_entry, json_object, map_entries, new_map};
use crate::io::load::{
    batch_fits, does_batch_fit, first_trouble, gather, has_layer, layer_slots, lemma_param_fits,
    max_layer, param_slot, slot_view, slot_views, LoadOptions, Slot, SlotView, Table,
};
use crate::io::param_name::{
    law_name_is_parsed_back, name_param, parse_name, parsed_name, NameView, ParamName, ParamType,
};
use crate::io::reload::lemma_metadata_is_foreign;
use crate::io::safetensor::{
    data_start, descriptor_views, distinct_names, file_image, header_members, header_text,
    is_reading_of, pairs_metadata, reads_back, write_file, DescriptorView, SafetensorDescriptor,
    SafetensorWriter, WriterView,
};
use crate::io::save::{
    columns, layer_number_lists, number_lists, param_descriptor, saved_like, saved_views,
    SavedParam, SavedView,
};
use crate::mlp::state::CacheView;
use crate::util::context::{plain_layer, LayerInitConfig};
use crate::util::log::{refusal, Error};
use crate::util::precision::{Precision, PrecisionType, F32, ONE_IN_32_BITS};
use crate::util::tensor::{
    countable, free_ops, lemma_made_all, lemma_made_keeps_tile, lemma_made_none, lemma_plane_count,
    made_all, made_tensor, push_fill, push_host, push_zeros, under_way, Fill, Recipe, Tensor2D,
    TensorView,
};

verus! {

/// Whether all values of a list equal the first one.
pub fn check_all_equal<T: PartialEq>(vec: &Vec<T>) -> (r: bool)
    requires
        vec@.len() > 0,
    ensures
        T::obeys_eq_spec() ==> (r <==> forall|i: int|
            1 <= i < vec@.len() ==> vec@[0].eq_spec(#[trigger] &vec@[i])),
{
    let mut i: usize = 1;
    while i < vec.len()
        invariant
            1 <= i <= vec@.len(),
            T::obeys_eq_spec() ==> forall|k: int| 1 <= k < i ==> vec@[0].eq_spec(#[trigger] &vec@[k]),
        decreases vec@.len() - i,
    {
        if vec[0] != vec[i] {
            return false;
        }
        i += 1;
    }
    true
}

/// The weights and biases of a layer, with what an optimiser keeps about them.
#[derive(Debug)]
pub struct ParamState {
    pub w: Tensor2D<F32>,
    pub b: Tensor2D<F32>,
    pub dv_w: Tensor2D<F32>,
    pub dv_b: Tensor2D<F32>,
    pub dm_w: Tensor2D<F32>,
    pub dm_b: Tensor2D<F32>,
}

/// What a [`ParamState`] stands for.
pub struct StateView {
    pub w: TensorView,
    pub b: TensorView,
    pub dv_w: TensorView,
    pub dv_b: TensorView,
    pub dm_w: TensorView,
    pub dm_b: TensorView,
}

impl View for ParamState {
    type V = StateView;

    open spec fn view(&self) -> StateView {
        StateView {
            w: self.w@,
            b: self.b@,
            dv_w: self.dv_w@,
            dv_b: self.dv_b@,
            dm_w: self.dm_w@,
            dm_b: self.dm_b@,
        }
    }
}

impl StateView {
    /// Every tensor has rows and columns.
    pub open spec fn wf(self) -> bool {
        &&& self.w.ok(2)
        &&& self.b.ok(2)
        &&& self.dv_w.ok(2)
        &&& self.dv_b.ok(2)
        &&& self.dm_w.ok(2)
        &&& self.dm_b.ok(2)
    }

    /// What an optimiser keeps has the shape of what it belongs to.
    pub open spec fn consistent(self) -> bool {
        &&& self.dv_w.shape == self.w.shape
        &&& self.dm_w.shape == self.w.shape
        &&& self.dv_b.shape == self.b.shape
        &&& self.dm_b.shape == self.b.shape
    }

    /// The buffers are given back.
    pub open spec fn frees(self) -> Seq<OpView> {
        free_ops(self.w) + free_ops(self.b) + free_ops(self.dv_w) + free_ops(self.dv_b) + free_ops(
            self.dm_w,
        ) + free_ops(self.dm_b)
    }
}

impl ParamState {
    /// Gives the buffers back.
    fn free(self, context: &mut GpuContext)
        requires
            old(context).wf(),
        ensures
            final(context).wf(),
            final(context)@ == old(context)@.then_run(self@.frees()),
    {
        broadcast use lemma_then_run;

        self.w.free(context);
        self.b.free(context);
        self.dv_w.free(context);
        self.dv_b.free(context);
        self.dm_w.free(context);
        self.dm_b.free(context);
    }

    /// Tells whether what an optimiser keeps has the shape of what it belongs to.
    pub fn is_consistent(&self) -> (r: bool)
        requires
            self@.wf(),
        ensures
            r == self@.consistent(),
    {
        let w_rows: Vec<usize> = vec![self.w.rows(), self.dv_w.rows(), self.dm_w.rows()];
        let w_cols: Vec<usize> = vec![self.w.cols(), self.dv_w.cols(), self.dm_w.cols()];
        let b_rows: Vec<usize> = vec![self.b.rows(), self.dv_b.rows(), self.dm_b.rows()];
        let b_cols: Vec<usize> = vec![self.b.cols(), self.dv_b.cols(), self.dm_b.cols()];
        let r = check_all_equal(&w_rows) && check_all_equal(&w_cols) && check_all_equal(&b_rows)
            && check_all_equal(&b_cols);
        proof {
            let v = self@;
            assert(w_rows@ == seq![v.w.shape[0], v.dv_w.shape[0], v.dm_w.shape[0]]);
            assert(w_cols@ == seq![v.w.shape[1], v.dv_w.shape[1], v.dm_w.shape[1]]);
            assert(b_rows@ == seq![v.b.shape[0], v.dv_b.shape[0], v.dm_b.shape[0]]);
            assert(b_cols@ == seq![v.b.shape[1], v.dv_b.shape[1], v.dm_b.shape[1]]);
            if r {
                assert(w_rows@[1] == w_rows@[0] && w_rows@[2] == w_rows@[0]);
                assert(w_cols@[1] == w_cols@[0] && w_cols@[2] == w_cols@[0]);
                assert(b_rows@[1] == b_rows@[0] && b_rows@[2] == b_rows@[0]);
                assert(b_cols@[1] == b_cols@[0] && b_cols@[2] == b_cols@[0]);
                assert(v.dv_w.shape =~= v.w.shape);
                assert(v.dm_w.shape =~= v.w.shape);
                assert(v.dv_b.shape =~= v.b.shape);
                assert(v.dm_b.shape =~= v.b.shape);
            }
        }
        r
    }
}

/// What a layer keeps of a forward pass.
#[derive(Debug)]
pub struct ForwardCache {
    pub out: Tensor2D<F32>,
    pub predrop_out: Tensor2D<F32>,
    pub preact_out: Tensor2D<F32>,
    pub centered_out: Tensor2D<F32>,
    pub prenorm_out: Tensor2D<F32>,
    pub norm_rstd: Tensor2D<F32>,
}

impl View for ForwardCache {
    type V = CacheView;

    open spec fn view(&self) -> CacheView {
        CacheView {
            out: self.out@,
            predrop_out: self.predrop_out@,
            preact_out: self.preact_out@,
            centered_out: self.centered_out@,
            prenorm_out: self.prenorm_out@,
            norm_rstd: self.norm_rstd@,
        }
    }
}

/// All the tensors and parameters required for calculation between 2 neural network layers.
#[derive(Debug)]
pub struct DenseBlock {
    pub linear_state: ParamState,
    pub norm_state: ParamState,
    pub forward_cache: ForwardCache,
    pub grad: Tensor2D<F32>,
    pub mask: Tensor2D<F32>,
    pub max_batch_size: usize,
    pub config: LayerInitConfig,
}

/// What a [`DenseBlock`] stands for.
pub struct BlockView {
    pub linear: StateView,
    pub norm: StateView,
    pub cache: CacheView,
    pub grad: TensorView,
    pub mask: TensorView,
    pub max_batch_size: usize,
    pub config: LayerInitConfig,
}

impl View for DenseBlock {
    type V = BlockView;

    open spec fn view(&self) -> BlockView {
        BlockView {
            linear: self.linear_state@,
            norm: self.norm_state@,
            cache: self.forward_cache@,
            grad: self.grad@,
            mask: self.mask@,
            max_batch_size: self.max_batch_size,
            config: self.config,
        }
    }
}

impl DenseBlock {
    /// The weights and biases have rows and columns.
    pub open spec fn wf(&self) -> bool {
        self@.linear.wf() && self@.norm.wf()
    }
}

/// What layers stand for.
pub open spec fn block_views(blocks: Seq<DenseBlock>) -> Seq<BlockView> {
    blocks.map_values(|b: DenseBlock| b@)
}

/// The tensors that a layer needs besides its weights and biases.
pub open spec fn rest_recipes(max_batch_size: usize, outputs: usize) -> Seq<Recipe> {
    let shape = seq![max_batch_size, outputs];
    let batch = Recipe { shape, precision: Precision::FP32, fill: Fill::Zeros };
    seq![
        batch,
        batch,
        batch,
        batch,
        batch,
        batch,
        batch,
        Recipe { shape, precision: Precision::FP32, fill: Fill::Constant(ONE_IN_32_BITS) },
    ]
}

/// What a layer keeps of a forward pass, as the first six tensors of a list of recipes.
pub open spec fn rest_cache(d: DeviceView, recipes: Seq<Recipe>) -> CacheView {
    CacheView {
        out: made_tensor(d, recipes, 0),
        predrop_out: made_tensor(d, recipes, 1),
        preact_out: made_tensor(d, recipes, 2),
        centered_out: made_tensor(d, recipes, 3),
        prenorm_out: made_tensor(d, recipes, 4),
        norm_rstd: made_tensor(d, recipes, 5),
    }
}

/// The layer that is put together from its weights and biases.
pub open spec fn put_together(
    d: DeviceView,
    linear: StateView,
    norm: StateView,
    max_batch_size: usize,
    config: LayerInitConfig,
) -> BlockView {
    let recipes = rest_recipes(max_batch_size, linear.w.shape[1]);
    BlockView {
        linear,
        norm,
        cache: rest_cache(d, recipes),
        grad: made_tensor(d, recipes, 6),
        mask: made_tensor(d, recipes, 7),
        max_batch_size,
        config,
    }
}

impl DenseBlock {
    /// Puts a layer together from its weights and biases.
    ///
    /// # Errors
    /// Return an [`Error`] if a batch holds more numbers than a kernel can count. The states are given
    /// back then.
    pub fn from_tensors(
        context: &mut GpuContext,
        linear_state: ParamState,
        norm_state: ParamState,
        max_batch_size: usize,
        config: LayerInitConfig,
    ) -> (r: Result<Self, Error>)
        requires
            old(context).wf(),
            linear_state@.wf(),
            linear_state@.consistent(),
            norm_state@.wf(),
            batch_fits(
                old(context)@.tile_dim,
                max_batch_size,
                linear_state@.w.shape[1],
            ),
        ensures
            final(context).wf(),
            ({
                let recipes = rest_recipes(max_batch_size, linear_state@.w.shape[1]);
                let whole = made_all(old(context)@, recipes);
                &&& refusal(r) == whole.1
                &&& final(context)@ == if whole.1 is Some {
                    given_back(old(context)@, whole.0).then_run(
                        linear_state@.frees() + norm_state@.frees(),
                    )
                } else {
                    whole.0
                }
            }),
            r matches Ok(b) ==> b.wf() && b@ == put_together(
                old(context)@,
                linear_state@,
                norm_state@,
                max_batch_size,
                config,
            ),
    {
        let first: usize = context.get_next_id();
        let rest = match Self::prepare(context, linear_state.w.cols(), max_batch_size) {
            Ok(rest) => rest,
            Err(e) => {
                context.give_back(first);
                proof {
                    lemma_then_run(context@, linear_state@.frees(), norm_state@.frees());
                }
                linear_state.free(context);
                norm_state.free(context);
                return Err(e);
            },
        };
        let (forward_cache, grad, mask) = rest;
        Ok(Self { linear_state, norm_state, forward_cache, grad, mask, max_batch_size, config })
    }

    /// Puts a layer together from its weights and biases. Where that is refused, the states and what
    /// was made are left to the caller.
    fn assemble(
        context: &mut GpuContext,
        linear_state: ParamState,
        norm_state: ParamState,
        max_batch_size: usize,
        config: LayerInitConfig,
    ) -> (r: Result<Self, Error>)
        requires
            old(context).wf(),
            linear_state@.wf(),
            linear_state@.consistent(),
            norm_state@.wf(),
            batch_fits(
                old(context)@.tile_dim,
                max_batch_size,
                linear_state@.w.shape[1],
            ),
        ensures
            final(context).wf(),
            made_all(old(context)@, rest_recipes(max_batch_size, linear_state@.w.shape[1])) == (
                final(context)@,
                refusal(r),
            ),
            r matches Ok(b) ==> b.wf() && b@ == put_together(
                old(context)@,
                linear_state@,
                norm_state@,
                max_batch_size,
                config,
            ),
    {
        let rest = Self::prepare(context, linear_state.w.cols(), max_batch_size)?;
        let (forward_cache, grad, mask) = rest;
        Ok(Self { linear_state, norm_state, forward_cache, grad, mask, max_batch_size, config })
    }

    /// Makes the tensors of a layer besides its weights and biases.
    fn prepare(context: &mut GpuContext, wc: usize, max_batch_size: usize) -> (r: Result<
        (ForwardCache, Tensor2D<F32>, Tensor2D<F32>),
        Error,
    >)
        requires
            old(context).wf(),
            batch_fits(old(context)@.tile_dim, max_batch_size, wc),
        ensures
            final(context).wf(),
            made_all(old(context)@, rest_recipes(max_batch_size, wc)) == (
                final(context)@,
                refusal(r),
            ),
            r matches Ok((cache, grad, mask)) ==> {
                let d = old(context)@;
                let recipes = rest_recipes(max_batch_size, wc);
                &&& cache@ == rest_cache(d, recipes)
                &&& grad@ == made_tensor(d, recipes, 6)
                &&& mask@ == made_tensor(d, recipes, 7)
            },
    {
        broadcast use lemma_made_keeps_tile;

        let shape: [usize; 2] = [max_batch_size, wc];
        let ghost d = context@;
        let ghost recipes = rest_recipes(max_batch_size, wc);
        proof {
            assert(shape@ =~= seq![max_batch_size, wc]);
            lemma_plane_count(shape@);
            lemma_made_none(d, recipes);
        }
        let out = push_zeros(context, &shape, Ghost(d), Ghost(recipes), Ghost(0))?;
        let predrop_out = push_zeros(context, &shape, Ghost(d), Ghost(recipes), Ghost(1))?;
        let preact_out = push_zeros(context, &shape, Ghost(d), Ghost(recipes), Ghost(2))?;
        let centered_out = push_zeros(context, &shape, Ghost(d), Ghost(recipes), Ghost(3))?;
        let prenorm_out = push_zeros(context, &shape, Ghost(d), Ghost(recipes), Ghost(4))?;
        let norm_rstd = push_zeros(context, &shape, Ghost(d), Ghost(recipes), Ghost(5))?;
        let grad = push_zeros(context, &shape, Ghost(d), Ghost(recipes), Ghost(6))?;
        let mask = push_fill(context, &shape, F32::one(), Ghost(d), Ghost(recipes), Ghost(7))?;
        proof {
            lemma_made_all(d, recipes, context@);
        }
        Ok(
            (
                ForwardCache {
                    out,
                    predrop_out,
                    preact_out,
                    centered_out,
                    prenorm_out,
                    norm_rstd,
                },
                grad,
                mask,
            ),
        )
    }
}

/// The file of tensors and metadata.
pub open spec fn tensors_file(pairs: Seq<(String, String)>, ds: Seq<DescriptorView>) -> WriterView {
    WriterView { descriptors: ds, metadata: pairs_metadata(pairs, pairs.len() as int) }
}

/// The bytes of a file of tensors, with metadata. A later value of a key of the metadata takes the
/// place of an earlier one.
///
/// # Errors
/// Returns an [`Error`] if the header cannot be turned into JSON.
pub fn save_safe_tensor(
    metadata: &[(String, String)],
    descriptors: &Vec<SafetensorDescriptor>,
) -> (r: Result<Vec<u8>, Error>)
    requires
        data_start(descriptor_views(descriptors@), descriptors@.len() as int) <= usize::MAX,
    ensures
        ({
            let v = tensors_file(metadata@, descriptor_views(descriptors@));
            &&& r matches Ok(image) && image@ == file_image(v)
            &&& json_object(header_text(v)) == Some(header_members(v))
            &&& distinct_names(v.descriptors) ==> reads_back(file_image(v), v)
        }),
{
    let mut entries = new_map();
    let mut k: usize = 0;
    assert(map_entries(entries) =~= pairs_metadata(metadata@, 0));
    while k < metadata.len()
        invariant
            k <= metadata@.len(),
            map_entries(entries) == pairs_metadata(metadata@, k as int),
        decreases metadata@.len() - k,
    {
        let (key, value) = &metadata[k];
        insert_entry(&mut entries, key.clone(), value.clone());
        k += 1;
    }
    write_file(&entries, descriptors)
}

/// Every tensor is of whole 32-bit numbers.
pub open spec fn full_precision(ds: Seq<DescriptorView>) -> bool {
    forall|i: int|
        0 <= i < ds.len() ==> (#[trigger] ds[i]).precision == Precision::FP32 && ds[i].data.len() % 4
            == 0
}

/// Reads the tensors from the bytes of a file. Gives `None` where the file is malformed, or where a
/// tensor is not of whole 32-bit numbers.
pub fn read_safe_tensor(image: &[u8]) -> (r: Option<Vec<SafetensorDescriptor>>)
    ensures
        exists|w: Result<SafetensorWriter, Error>|
            {
                &&& #[trigger] is_reading_of(w, image@)
                &&& r is Some <==> w is Ok && full_precision(w->Ok_0@.descriptors)
                &&& r matches Some(tensors) ==> descriptor_views(tensors@)
                    == w->Ok_0@.descriptors
            },
{
    let reading = SafetensorWriter::read(image);
    let ghost w = reading;
    proof {
        assert(is_reading_of(w, image@));
    }
    match reading {
        Ok(writer) => {
            let tensors = writer.into_descriptors();
            let ghost ds = descriptor_views(tensors@);
            let mut i: usize = 0;
            while i < tensors.len()
                invariant
                    i <= tensors@.len(),
                    ds == descriptor_views(tensors@),
                    w is Ok,
                    w->Ok_0@.descriptors == ds,
                    is_reading_of(w, image@),
                    forall|k: int|
                        0 <= k < i ==> (#[trigger] ds[k]).precision == Precision::FP32
                            && ds[k].data.len() % 4 == 0,
                decreases tensors@.len() - i,
            {
                assert(ds[i as int] == tensors@[i as int]@);
                if tensors[i].precision != Precision::FP32 || tensors[i].data.len() % 4 != 0 {
                    assert(!full_precision(ds));
                    return None;
                }
                i += 1;
            }
            Some(tensors)
        },
        Err(_) => None,
    }
}

/// The tensors of a layer that a file takes, in their order.
pub open spec fn block_params(b: BlockView) -> Seq<SavedView> {
    let w = b.linear.w.shape;
    let bias = columns(b.linear.b);
    let nw = columns(b.norm.w);
    let nb = columns(b.norm.b);
    seq![
        saved_like(ParamType::W, b.linear.w, Precision::FP32, w),
        saved_like(ParamType::B, b.linear.b, Precision::FP32, bias),
        saved_like(ParamType::NormW, b.norm.w, Precision::FP32, nw),
        saved_like(ParamType::NormB, b.norm.b, Precision::FP32, nb),
        saved_like(ParamType::DvW, b.linear.dv_w, Precision::FP32, w),
        saved_like(ParamType::DvB, b.linear.dv_b, Precision::FP32, bias),
        saved_like(ParamType::DmW, b.linear.dm_w, Precision::FP32, w),
        saved_like(ParamType::DmB, b.linear.dm_b, Precision::FP32, bias),
        saved_like(ParamType::DvNormW, b.norm.dv_w, Precision::FP32, nw),
        saved_like(ParamType::DvNormB, b.norm.dv_b, Precision::FP32, nb),
        saved_like(ParamType::DmNormW, b.norm.dm_w, Precision::FP32, nw),
        saved_like(ParamType::DmNormB, b.norm.dm_b, Precision::FP32, nb),
    ]
}

/// The tensors of a layer in a file, given the numbers of each.
pub open spec fn block_descriptors(b: BlockView, index: usize, numbers: Seq<Seq<u32>>) -> Seq<
    DescriptorView,
> {
    Seq::new(12, |i: int| param_descriptor(index, block_params(b)[i], numbers[i]))
}

/// The tensors of the first `k` layers in a file, given the numbers of each. Layers are numbered
/// from one.
pub open spec fn blocks_descriptors(
    blocks: Seq<BlockView>,
    numbers: Seq<Seq<Seq<u32>>>,
    k: int,
) -> Seq<DescriptorView>
    decreases k,
{
    if k <= 0 {
        seq![]
    } else {
        blocks_descriptors(blocks, numbers, k - 1) + block_descriptors(
            blocks[k - 1],
            k as usize,
            numbers[k - 1],
        )
    }
}

/// There are numbers for every tensor of every layer, and they fit in a file.
pub open spec fn blocks_ready(blocks: Seq<BlockView>, numbers: Seq<Seq<Seq<u32>>>) -> bool {
    let ds = blocks_descriptors(blocks, numbers, blocks.len() as int);
    &&& numbers.len() == blocks.len()
    &&& forall|i: int|
        0 <= i < blocks.len() ==> {
            &&& (#[trigger] blocks[i]).linear.wf()
            &&& blocks[i].norm.wf()
            &&& numbers[i].len() == 12
        }
    &&& data_start(ds, ds.len() as int) <= usize::MAX
}

/// A tensor of a layer that a file takes.
fn plan_tensor(kind: ParamType, t: &Tensor2D<F32>, shape: Vec<usize>) -> (r: SavedParam)
    requires
        t.wf(),
    ensures
        r@ == saved_like(kind, t@, Precision::FP32, shape@),
{
    SavedParam { kind, tensor: t.get_data(), precision: Precision::FP32, shape }
}

/// The tensors of a layer that a file takes, in the order in which the numbers of each are handed to
/// [`save_tensors`].
pub fn plan_block(block: &DenseBlock) -> (r: Vec<SavedParam>)
    requires
        block.wf(),
    ensures
        saved_views(r@) == block_params(block@),
{
    let weights = &block.linear_state.w;
    let w: Vec<usize> = vec![weights.rows(), weights.cols()];
    let b: Vec<usize> = vec![block.linear_state.b.cols()];
    let nw: Vec<usize> = vec![block.norm_state.w.cols()];
    let nb: Vec<usize> = vec![block.norm_state.b.cols()];
    proof {
        assert(w@ =~= block@.linear.w.shape);
        assert(b@ =~= columns(block@.linear.b));
        assert(nw@ =~= columns(block@.norm.w));
        assert(nb@ =~= columns(block@.norm.b));
    }
    let linear = &block.linear_state;
    let norm = &block.norm_state;
    let params: Vec<SavedParam> = vec![
        plan_tensor(ParamType::W, &linear.w, w.clone()),
        plan_tensor(ParamType::B, &linear.b, b.clone()),
        plan_tensor(ParamType::NormW, &norm.w, nw.clone()),
        plan_tensor(ParamType::NormB, &norm.b, nb.clone()),
        plan_tensor(ParamType::DvW, &linear.dv_w, w.clone()),
        plan_tensor(ParamType::DvB, &linear.dv_b, b.clone()),
        plan_tensor(ParamType::DmW, &linear.dm_w, w),
        plan_tensor(ParamType::DmB, &linear.dm_b, b),
        plan_tensor(ParamType::DvNormW, &norm.dv_w, nw.clone()),
        plan_tensor(ParamType::DvNormB, &norm.dv_b, nb.clone()),
        plan_tensor(ParamType::DmNormW, &norm.dm_w, nw),
        plan_tensor(ParamType::DmNormB, &norm.dm_b, nb),
    ];
    assert(saved_views(params@) =~= block_params(block@));
    params
}

/// Adds the tensors of a layer.
fn describe_block(
    descriptors: &mut Vec<SafetensorDescriptor>,
    block: &DenseBlock,
    numbers: &Vec<Vec<u32>>,
    layer_num: usize,
)
    requires
        block.wf(),
        numbers@.len() == 12,
    ensures
        descriptor_views(final(descriptors)@) == descriptor_views(old(descriptors)@)
            + block_descriptors(block@, layer_num, number_lists(numbers@)),
{
    let params = plan_block(block);
    let ghost before = descriptor_views(descriptors@);
    let ghost all = block_descriptors(block@, layer_num, number_lists(numbers@));
    let mut i: usize = 0;
    assert(before + all.take(0) =~= before);
    assert(params@.len() == saved_views(params@).len());
    while i < params.len()
        invariant
            i <= params@.len(),
            params@.len() == 12,
            numbers@.len() == 12,
            saved_views(params@) == block_params(block@),
            all == block_descriptors(block@, layer_num, number_lists(numbers@)),
            descriptor_views(descriptors@) == before + all.take(i as int),
        decreases params@.len() - i,
    {
        let param = &params[i];
        let ghost earlier = descriptors@;
        proof {
            assert(saved_views(params@)[i as int] == param@);
            assert(number_lists(numbers@)[i as int] == numbers@[i as int]@);
        }
        let desc = SafetensorDescriptor {
            name: name_param(layer_num, param.kind),
            shape: param.shape.clone(),
            data: to_bytes(numbers[i].as_slice(), param.precision),
            precision: param.precision,
        };
        descriptors.push(desc);
        proof {
            assert(desc@ == all[i as int]);
            assert(descriptor_views(descriptors@) =~= descriptor_views(earlier).push(desc@));
            assert(before + all.take(i + 1) =~= (before + all.take(i as int)).push(all[i as int]));
        }
        i += 1;
    }
    assert(all.take(i as int) =~= all);
}

/// Saves the network into the bytes of a .safetensors file.
///
/// # Arguments
/// * `blocks` - List of [`DenseBlock`], index of which indicates its position in the network.
/// * `numbers` - For each block the numbers of its tensors, in the order of [`plan_block`].
///
/// # Errors
/// Returns an [`Error`] if the header cannot be turned into JSON.
pub fn save_tensors(blocks: &[DenseBlock], numbers: &[Vec<Vec<u32>>]) -> (r: Result<Vec<u8>, Error>)
    requires
        blocks_ready(block_views(blocks@), layer_number_lists(numbers@)),
    ensures
        ({
            let ds = blocks_descriptors(
                block_views(blocks@),
                layer_number_lists(numbers@),
                blocks@.len() as int,
            );
            let v = tensors_file(seq![], ds);
            r matches Ok(image) && image@ == file_image(v) && reads_back(image@, v)
        }),
{
    save_tensors_internal(blocks, numbers, None)
}

/// Saves the network into the bytes of a .safetensors file.
///
/// # Arguments
/// * `blocks` - List of [`DenseBlock`], index of which indicates its position in the network.
/// * `numbers` - For each block the numbers of its tensors, in the order of [`plan_block`].
/// * `meta` - Metadata to be included inside the save file.
///
/// # Errors
/// Returns an [`Error`] if the header cannot be turned into JSON.
pub fn save_tensors_with_metadata(
    blocks: &[DenseBlock],
    numbers: &[Vec<Vec<u32>>],
    meta: &[(String, String)],
) -> (r: Result<Vec<u8>, Error>)
    requires
        blocks_ready(block_views(blocks@), layer_number_lists(numbers@)),
    ensures
        ({
            let ds = blocks_descriptors(
                block_views(blocks@),
                layer_number_lists(numbers@),
                blocks@.len() as int,
            );
            let v = tensors_file(meta@, ds);
            r matches Ok(image) && image@ == file_image(v) && reads_back(image@, v)
        }),
{
    save_tensors_internal(blocks, numbers, Some(meta))
}

/// Saves the network, with metadata if there is any.
fn save_tensors_internal(
    blocks: &[DenseBlock],
    numbers: &[Vec<Vec<u32>>],
    meta: Option<&[(String, String)]>,
) -> (r: Result<Vec<u8>, Error>)
    requires
        blocks_ready(block_views(blocks@), layer_number_lists(numbers@)),
    ensures
        ({
            let ds = blocks_descriptors(
                block_views(blocks@),
                layer_number_lists(numbers@),
                blocks@.len() as int,
            );
            let pairs = match meta {
                Some(m) => m@,
                None => seq![],
            };
            let v = tensors_file(pairs, ds);
            r matches Ok(image) && image@ == file_image(v) && reads_back(image@, v)
        }),
{
    let ghost views = block_views(blocks@);
    let ghost lists = layer_number_lists(numbers@);
    let mut descriptors: Vec<SafetensorDescriptor> = Vec::new();
    let mut idx: usize = 0;
    assert(descriptor_views(descriptors@) =~= blocks_descriptors(views, lists, 0));
    while idx < blocks.len()
        invariant
            idx <= blocks@.len(),
            views == block_views(blocks@),
            lists == layer_number_lists(numbers@),
            numbers@.len() == blocks@.len(),
            forall|i: int|
                0 <= i < blocks@.len() ==> {
                    &&& (#[trigger] views[i]).linear.wf()
                    &&& views[i].norm.wf()
                    &&& lists[i].len() == 12
                },
            descriptor_views(descriptors@) == blocks_descriptors(views, lists, idx as int),
        decreases blocks@.len() - idx,
    {
        proof {
            assert(views[idx as int] == blocks@[idx as int]@);
            assert(lists[idx as int] == number_lists(numbers@[idx as int]@));
        }
        describe_block(&mut descriptors, &blocks[idx], &numbers[idx], idx + 1);
        idx += 1;
    }
    proof {
        law_block_names_are_distinct(views, lists);
    }
    match meta {
        Some(pairs) => save_safe_tensor(pairs, &descriptors),
        None => {
            let none: Vec<(String, String)> = Vec::new();
            assert(none@ =~= seq![]);
            save_safe_tensor(none.as_slice(), &descriptors)
        },
    }
}

/// The names of the tensors of a saved network are distinct, so that its file can be read back.
pub proof fn law_block_names_are_distinct(blocks: Seq<BlockView>, numbers: Seq<Seq<Seq<u32>>>)
    requires
        blocks.len() <= usize::MAX,
    ensures
        distinct_names(blocks_descriptors(blocks, numbers, blocks.len() as int)),
{
    lemma_block_names(blocks, numbers, blocks.len() as int);
}

/// The names of the tensors of the first `k` layers are distinct.
proof fn lemma_block_names(blocks: Seq<BlockView>, numbers: Seq<Seq<Seq<u32>>>, k: int)
    requires
        0 <= k <= blocks.len() <= usize::MAX,
    ensures
        distinct_names(blocks_descriptors(blocks, numbers, k)),
        forall|x: int|
            0 <= x < blocks_descriptors(blocks, numbers, k).len() ==> {
                let name = (#[trigger] blocks_descriptors(blocks, numbers, k)[x]).name;
                parsed_name(name) is Param && parsed_name(name)->index <= k
            },
    decreases k,
{
    if k > 0 {
        lemma_block_names(blocks, numbers, k - 1);
        let before = blocks_descriptors(blocks, numbers, k - 1);
        let params = block_params(blocks[k - 1]);
        let last = block_descriptors(blocks[k - 1], k as usize, numbers[k - 1]);
        let all = blocks_descriptors(blocks, numbers, k);
        lemma_metadata_is_foreign();
        assert forall|j: int| 0 <= j < last.len() implies {
            let name = (#[trigger] last[j]).name;
            &&& parsed_name(name) is Param
            &&& parsed_name(name)->index == k
            &&& parsed_name(name)->kind == params[j].kind
        } by {
            law_name_is_parsed_back(k as usize, params[j].kind);
        }
        assert forall|x: int| 0 <= x < all.len() implies {
            let name = (#[trigger] all[x]).name;
            &&& parsed_name(name) is Param
            &&& parsed_name(name)->index <= k
            &&& x >= before.len() ==> parsed_name(name)->index == k
        } by {
            if x < before.len() {
                assert(all[x] == before[x]);
            } else {
                assert(all[x] == last[x - before.len()]);
            }
        }
        assert forall|x: int, y: int| 0 <= x < y < all.len() implies (#[trigger] all[x]).name != (
        #[trigger] all[y]).name by {
            if y < before.len() {
                assert(all[x] == before[x] && all[y] == before[y]);
            } else if x < before.len() {
                assert(all[x] == before[x]);
                assert(parsed_name(before[x].name)->index <= k - 1);
            } else {
                let (i, j) = (x - before.len(), y - before.len());
                assert(all[x] == last[i] && all[y] == last[j]);
            }
        }
    }
}

/// The name of a tensor is understood: it is one of a layer's weights or biases, or of what an
/// optimiser keeps about them.
pub open spec fn is_understood(name: Seq<char>) -> bool {
    parsed_name(name) matches NameView::Param { layer, index, kind } && !(kind is MasterW
        || kind is MasterB || kind is MasterNormW || kind is MasterNormB)
}

/// The tensors whose names are understood.
pub open spec fn understood(ds: Seq<DescriptorView>) -> Seq<DescriptorView> {
    ds.filter(|d: DescriptorView| is_understood(d.name))
}

/// How the layers of a file are loaded.
pub open spec fn training_options(max_batch_size: usize) -> LoadOptions {
    LoadOptions { precision: Precision::FP32, is_training: true, max_batch_size }
}

/// The tensor of a parameter; without numbers it is zero.
pub open spec fn param_recipe(slot: Option<SlotView>, shape: Seq<usize>) -> Recipe {
    Recipe {
        shape,
        precision: Precision::FP32,
        fill: match slot {
            Some(s) => Fill::Host {
                held: Precision::FP32,
                numbers: HostView::Patterns(s.numbers),
            },
            None => Fill::Zeros,
        },
    }
}

/// The tensors that are made for the parameters of a layer, in their order.
pub open spec fn param_recipes(slots: Seq<Option<SlotView>>) -> Seq<Recipe> {
    let w = seq![(slots[0]->0).rows, (slots[0]->0).cols];
    let b = seq![(slots[1]->0).rows, (slots[1]->0).cols];
    seq![
        param_recipe(slots[0], w),
        param_recipe(slots[1], b),
        param_recipe(slots[8], w),
        param_recipe(slots[9], b),
        param_recipe(slots[4], w),
        param_recipe(slots[5], b),
        param_recipe(slots[6], w),
        param_recipe(slots[7], b),
        param_recipe(slots[12], b),
        param_recipe(slots[13], b),
        param_recipe(slots[14], b),
        param_recipe(slots[15], b),
    ]
}

/// The linear weights and biases of a layer.
pub open spec fn linear_of(d: DeviceView, recipes: Seq<Recipe>) -> StateView {
    StateView {
        w: made_tensor(d, recipes, 0),
        b: made_tensor(d, recipes, 1),
        dv_w: made_tensor(d, recipes, 4),
        dv_b: made_tensor(d, recipes, 5),
        dm_w: made_tensor(d, recipes, 6),
        dm_b: made_tensor(d, recipes, 7),
    }
}

/// The weights and biases of the normalisation of a layer.
pub open spec fn norm_of(d: DeviceView, recipes: Seq<Recipe>) -> StateView {
    StateView {
        w: made_tensor(d, recipes, 2),
        b: made_tensor(d, recipes, 3),
        dv_w: made_tensor(d, recipes, 8),
        dv_b: made_tensor(d, recipes, 9),
        dm_w: made_tensor(d, recipes, 10),
        dm_b: made_tensor(d, recipes, 11),
    }
}

/// How far the layers of a file are loaded: the device, the layers, and whether one could not be.
#[verifier::ext_equal]
pub struct BlockLoading {
    pub device: DeviceView,
    pub layers: Seq<BlockView>,
    pub failed: bool,
}

/// A layer whose weights and biases are there is put together from its parameters.
#[verifier::opaque]
pub open spec fn with_params(
    l: BlockLoading,
    slots: Seq<Option<SlotView>>,
    max_batch_size: usize,
) -> BlockLoading {
    let recipes = param_recipes(slots);
    let outputs = (slots[0]->0).cols;
    let made = made_all(l.device, recipes);
    let whole = made_all(made.0, rest_recipes(max_batch_size, outputs));
    if !batch_fits(l.device.tile_dim, max_batch_size, outputs) {
        BlockLoading { failed: true, ..l }
    } else if made.1 is Some {
        BlockLoading { device: made.0, failed: true, ..l }
    } else if whole.1 is Some {
        BlockLoading { device: whole.0, failed: true, ..l }
    } else {
        BlockLoading {
            device: whole.0,
            layers: l.layers.push(
                put_together(
                    made.0,
                    linear_of(l.device, recipes),
                    norm_of(l.device, recipes),
                    max_batch_size,
                    plain_layer(),
                ),
            ),
            failed: false,
        }
    }
}

/// One more layer is loaded, unless an earlier one could not be.
pub open spec fn with_block(
    l: BlockLoading,
    ds: Seq<DescriptorView>,
    index: usize,
    max_batch_size: usize,
) -> BlockLoading {
    let slots = layer_slots(ds, index, training_options(max_batch_size));
    if l.failed {
        l
    } else if !has_layer(ds, index) || slots[0] is None || slots[1] is None {
        BlockLoading { failed: true, ..l }
    } else {
        with_params(l, slots, max_batch_size)
    }
}

/// The first `k` layers of a file are loaded.
pub open spec fn loaded_blocks(
    d: DeviceView,
    ds: Seq<DescriptorView>,
    max_batch_size: usize,
    k: int,
) -> BlockLoading
    decreases k,
{
    if k <= 0 {
        BlockLoading { device: d, layers: seq![], failed: false }
    } else {
        with_block(
            loaded_blocks(d, ds, max_batch_size, k - 1),
            ds,
            k as usize,
            max_batch_size,
        )
    }
}

/// The layers of a file are loaded from the tensors whose names are understood.
pub open spec fn loaded_tensors(d: DeviceView, tensors: Seq<DescriptorView>, max_batch_size: usize)
    -> BlockLoading {
    let ds = understood(tensors);
    if first_trouble(ds) is Some || max_layer(ds) == 0 {
        BlockLoading { device: d, layers: seq![], failed: true }
    } else {
        loaded_blocks(d, ds, max_batch_size, max_layer(ds) as int)
    }
}

/// Keeps the tensors whose names are understood.
fn keep_understood(tensors: &Vec<SafetensorDescriptor>) -> (r: Vec<SafetensorDescriptor>)
    ensures
        descriptor_views(r@) == understood(descriptor_views(tensors@)),
{
    let ghost ds = descriptor_views(tensors@);
    let ghost keep = |d: DescriptorView| is_understood(d.name);
    let mut kept: Vec<SafetensorDescriptor> = Vec::new();
    let mut i: usize = 0;
    proof {
        reveal(Seq::filter);
        assert(descriptor_views(kept@) =~= ds.take(0).filter(keep));
    }
    while i < tensors.len()
        invariant
            i <= tensors@.len(),
            ds == descriptor_views(tensors@),
            keep == (|d: DescriptorView| is_understood(d.name)),
            descriptor_views(kept@) == ds.take(i as int).filter(keep),
        decreases tensors@.len() - i,
    {
        let tensor = &tensors[i];
        let ghost before = kept@;
        proof {
            reveal(Seq::filter);
            assert(ds[i as int] == tensor@);
            assert(ds.take(i + 1).drop_last() =~= ds.take(i as int));
            assert(ds.take(i + 1).last() == tensor@);
        }
        if let ParamName::Param { kind, .. } = parse_name(tensor.name.as_str()) {
            let is_master = matches!(
                kind,
                ParamType::MasterW | ParamType::MasterB | ParamType::MasterNormW
                    | ParamType::MasterNormB
            );
            if !is_master {
                let copy = SafetensorDescriptor {
                    name: tensor.name.clone(),
                    shape: tensor.shape.clone(),
                    data: tensor.data.clone(),
                    precision: tensor.precision,
                };
                kept.push(copy);
                assert(descriptor_views(kept@) =~= descriptor_views(before).push(copy@));
            }
        }
        i += 1;
    }
    assert(ds.take(i as int) =~= ds);
    kept
}

/// Makes the tensor of a parameter that a list has at place `k`.
fn push_param(
    context: &mut GpuContext,
    slot: &Option<Slot>,
    shape: &[usize; 2],
    Ghost(d): Ghost<DeviceView>,
    Ghost(recipes): Ghost<Seq<Recipe>>,
    Ghost(k): Ghost<int>,
) -> (r: Result<Tensor2D<F32>, Error>)
    requires
        old(context).wf(),
        under_way(d, recipes, k, old(context)@),
        k < recipes.len(),
        countable(shape@),
        recipes[k] == param_recipe(slot_view(*slot), shape@),
    ensures
        final(context).wf(),
        r matches Ok(t) ==> {
            &&& under_way(d, recipes, k + 1, final(context)@)
            &&& t.wf()
            &&& t@ == made_tensor(d, recipes, k)
        },
        r is Err ==> made_all(d, recipes) == (final(context)@, refusal(r)),
{
    match slot {
        Some(s) => push_host(
            context,
            HostNumbers::Patterns(s.numbers.clone()),
            Precision::FP32,
            shape,
            Ghost(d),
            Ghost(recipes),
            Ghost(k),
        ),
        None => push_zeros(context, shape, Ghost(d), Ghost(recipes), Ghost(k)),
    }
}

/// Makes the tensors of the parameters of a layer.
fn load_params(
    context: &mut GpuContext,
    slots: &Vec<Option<Slot>>,
    w_shape: &[usize; 2],
    b_shape: &[usize; 2],
) -> (r: Result<(ParamState, ParamState), Error>)
    requires
        old(context).wf(),
        slots@.len() == 16,
        slots@[0] is Some,
        slots@[1] is Some,
        w_shape@ == seq![(slots@[0]->0)@.rows, (slots@[0]->0)@.cols],
        b_shape@ == seq![(slots@[1]->0)@.rows, (slots@[1]->0)@.cols],
        countable(w_shape@),
        countable(b_shape@),
    ensures
        final(context).wf(),
        ({
            let recipes = param_recipes(slot_views(slots@));
            &&& made_all(old(context)@, recipes) == (final(context)@, refusal(r))
            &&& r matches Ok((linear, norm)) ==> {
                &&& linear@.wf() && linear@ == linear_of(old(context)@, recipes)
                &&& norm@.wf() && norm@ == norm_of(old(context)@, recipes)
            }
        }),
{
    let ghost d = context@;
    let ghost recipes = param_recipes(slot_views(slots@));
    proof {
        lemma_made_none(d, recipes);
    }
    let w = push_param(context, &slots[0], w_shape, Ghost(d), Ghost(recipes), Ghost(0))?;
    let b = push_param(context, &slots[1], b_shape, Ghost(d), Ghost(recipes), Ghost(1))?;
    let norm_w = push_param(context, &slots[8], w_shape, Ghost(d), Ghost(recipes), Ghost(2))?;
    let norm_b = push_param(context, &slots[9], b_shape, Ghost(d), Ghost(recipes), Ghost(3))?;
    let dv_w = push_param(context, &slots[4], w_shape, Ghost(d), Ghost(recipes), Ghost(4))?;
    let dv_b = push_param(context, &slots[5], b_shape, Ghost(d), Ghost(recipes), Ghost(5))?;
    let dm_w = push_param(context, &slots[6], w_shape, Ghost(d), Ghost(recipes), Ghost(6))?;
    let dm_b = push_param(context, &slots[7], b_shape, Ghost(d), Ghost(recipes), Ghost(7))?;
    let dv_norm_w = push_param(context, &slots[12], b_shape, Ghost(d), Ghost(recipes), Ghost(8))?;
    let dv_norm_b = push_param(context, &slots[13], b_shape, Ghost(d), Ghost(recipes), Ghost(9))?;
    let dm_norm_w = push_param(context, &slots[14], b_shape, Ghost(d), Ghost(recipes), Ghost(10))?;
    let dm_norm_b = push_param(context, &slots[15], b_shape, Ghost(d), Ghost(recipes), Ghost(11))?;
    proof {
        lemma_made_all(d, recipes, context@);
    }
    Ok(
        (
            ParamState { w, b, dv_w, dv_b, dm_w, dm_b },
            ParamState {
                w: norm_w,
                b: norm_b,
                dv_w: dv_norm_w,
                dv_b: dv_norm_b,
                dm_w: dm_norm_w,
                dm_b: dm_norm_b,
            },
        ),
    )
}

/// Puts a layer together from its parameters. Gives `None` where a parameter has another number of
/// elements than its tensor, or where a batch is too large.
fn load_block(
    context: &mut GpuContext,
    slots: &Vec<Option<Slot>>,
    max_batch_size: usize,
    Ghost(l): Ghost<BlockLoading>,
) -> (r: Option<DenseBlock>)
    requires
        old(context).wf(),
        l.device == old(context)@,
        !l.failed,
        slots@.len() == 16,
        slots@[0] is Some,
        slots@[1] is Some,
        (slots@[0]->0)@.rows * (slots@[0]->0)@.cols <= usize::MAX,
        (slots@[1]->0)@.rows * (slots@[1]->0)@.cols <= usize::MAX,
    ensures
        final(context).wf(),
        ({
            let next = with_params(l, slot_views(slots@), max_batch_size);
            &&& next.device == final(context)@
            &&& r is None <==> next.failed
            &&& r matches Some(block) ==> block.wf() && next.layers == l.layers.push(block@)
        }),
{
    broadcast use lemma_made_keeps_tile;

    reveal(with_params);
    let ghost d = context@;
    let ghost views = slot_views(slots@);
    if let (Some(w), Some(b)) = (&slots[0], &slots[1]) {
        assert(views[0] == Some(w@) && views[1] == Some(b@));
        if !does_batch_fit(context, max_batch_size, w.cols) {
            return None;
        }
        let w_shape: [usize; 2] = [w.rows, w.cols];
        let b_shape: [usize; 2] = [b.rows, b.cols];
        proof {
            assert(w_shape@ =~= seq![w.rows, w.cols]);
            assert(b_shape@ =~= seq![b.rows, b.cols]);
            lemma_plane_count(w_shape@);
            lemma_plane_count(b_shape@);
        }
        match load_params(context, slots, &w_shape, &b_shape) {
            Ok((linear, norm)) => {
                let config = LayerInitConfig::default();
                match DenseBlock::assemble(context, linear, norm, max_batch_size, config) {
                    Ok(block) => Some(block),
                    Err(_) => None,
                }
            },
            Err(_) => None,
        }
    } else {
        None
    }
}

/// No layer is loaded after one that could not be.
proof fn lemma_failing_stops(
    d: DeviceView,
    ds: Seq<DescriptorView>,
    max_batch_size: usize,
    k: int,
    n: int,
)
    requires
        0 <= k <= n,
        loaded_blocks(d, ds, max_batch_size, k).failed,
    ensures
        loaded_blocks(d, ds, max_batch_size, n) == loaded_blocks(d, ds, max_batch_size, k),
    decreases n - k,
{
    if k < n {
        lemma_failing_stops(d, ds, max_batch_size, k, n - 1);
    }
}

/// The device once the layers of a file are loaded. Where one could not be, those that were loaded
/// are given back.
pub open spec fn loaded_end(d: DeviceView, l: BlockLoading) -> DeviceView {
    if l.failed {
        given_back(d, l.device)
    } else {
        l.device
    }
}

/// Puts the layers of a file together from its tensors. Tensors whose names are not understood are
/// passed over. Gives `None` where there is no layer, where one is missing or lacks its weights or
/// its biases, or where a size is missing, wrong or too large.
///
/// # Arguments
/// * `context` - See [`GpuContext`]
/// * `tensors` - The tensors of the file.
/// * `max_batch_size` - Maximum size of a batch
pub fn blocks_from_tensors(
    context: &mut GpuContext,
    tensors: &Vec<SafetensorDescriptor>,
    max_batch_size: usize,
) -> (r: Option<Vec<DenseBlock>>)
    requires
        old(context).wf(),
        full_precision(descriptor_views(tensors@)),
    ensures
        final(context).wf(),
        ({
            let l = loaded_tensors(old(context)@, descriptor_views(tensors@), max_batch_size);
            &&& final(context)@ == loaded_end(old(context)@, l)
            &&& r is None <==> l.failed
            &&& r matches Some(blocks) ==> block_views(blocks@) == l.layers
        }),
        r matches Some(blocks) ==> forall|i: int|
            0 <= i < blocks@.len() ==> (#[trigger] blocks@[i]).wf(),
{
    let first: usize = context.get_next_id();
    let r = load_blocks(context, tensors, max_batch_size);
    if r.is_none() {
        context.give_back(first);
    }
    r
}

/// Puts the layers of a file together from its tensors. Where one cannot be, what was made is left to
/// the caller.
fn load_blocks(
    context: &mut GpuContext,
    tensors: &Vec<SafetensorDescriptor>,
    max_batch_size: usize,
) -> (r: Option<Vec<DenseBlock>>)
    requires
        old(context).wf(),
        full_precision(descriptor_views(tensors@)),
    ensures
        final(context).wf(),
        ({
            let l = loaded_tensors(old(context)@, descriptor_views(tensors@), max_batch_size);
            &&& final(context)@ == l.device
            &&& r is None <==> l.failed
            &&& r matches Some(blocks) ==> block_views(blocks@) == l.layers
        }),
        r matches Some(blocks) ==> forall|i: int|
            0 <= i < blocks@.len() ==> (#[trigger] blocks@[i]).wf(),
{
    broadcast use group_hash_axioms;

    let descriptors = keep_understood(tensors);
    let ghost d = context@;
    let ghost ds = descriptor_views(descriptors@);
    let ghost options = training_options(max_batch_size);
    let (mut table, max): (Table, usize) = match gather(
        &descriptors,
        Precision::FP32,
        true,
        Ghost(options),
    ) {
        Some(Ok(gathered)) => gathered,
        Some(Err(_)) => {
            return None;
        },
        None => {
            return None;
        },
    };
    if max == 0 {
        return None;
    }
    let mut blocks: Vec<DenseBlock> = Vec::new();
    let mut done: usize = 0;
    assert(block_views(blocks@) =~= seq![]);
    while done < max
        invariant
            done <= max,
            d == old(context)@,
            max == max_layer(ds),
            max != 0,
            first_trouble(ds) is None,
            ds == understood(descriptor_views(tensors@)),
            options == training_options(max_batch_size),
            context.wf(),
            forall|index: usize|
                index > done ==> {
                    &&& #[trigger] table@.contains_key(index) <==> has_layer(ds, index)
                    &&& table@.contains_key(index) ==> slot_views(table@[index]@) == layer_slots(
                        ds,
                        index,
                        options,
                    )
                },
            loaded_blocks(d, ds, max_batch_size, done as int) == (BlockLoading {
                device: context@,
                layers: block_views(blocks@),
                failed: false,
            }),
            forall|i: int| 0 <= i < blocks@.len() ==> (#[trigger] blocks@[i]).wf(),
        decreases max - done,
    {
        let index: usize = done + 1;
        let ghost l = loaded_blocks(d, ds, max_batch_size, done as int);
        let ghost next = with_block(l, ds, index, max_batch_size);
        proof {
            assert(loaded_blocks(d, ds, max_batch_size, index as int) == next);
            if next.failed {
                lemma_failing_stops(d, ds, max_batch_size, index as int, max as int);
            }
        }
        let slots: Vec<Option<Slot>> = match table.remove(&index) {
            Some(slots) => slots,
            None => {
                return None;
            },
        };
        let ghost views = slot_views(slots@);
        proof {
            assert(views == layer_slots(ds, index, options));
            assert(views.len() == slots@.len());
            assert(views[0] == slot_view(slots@[0]) && views[1] == slot_view(slots@[1]));
            assert(views[0] == param_slot(ds, index, ParamType::W, options));
            assert(views[1] == param_slot(ds, index, ParamType::B, options));
            lemma_param_fits(ds, index, ParamType::W);
            lemma_param_fits(ds, index, ParamType::B);
        }
        if slots[0].is_none() || slots[1].is_none() {
            return None;
        }
        match load_block(context, &slots, max_batch_size, Ghost(l)) {
            Some(block) => {
                let ghost before = blocks@;
                blocks.push(block);
                assert(block_views(blocks@) =~= block_views(before).push(block@));
            },
            None => {
                return None;
            },
        }
        done = index;
    }
    Some(blocks)
}

/// Creates a network from the bytes of a .safetensors file. Gives `None` where
/// [`read_safe_tensor`] or [`blocks_from_tensors`] does.
///
/// # Arguments
/// * `context` - See [`GpuContext`]
/// * `image` - The bytes of the .safetensors file
/// * `max_batch_size` - Maximum size of a batch
pub fn load_tensors(context: &mut GpuContext, image: &[u8], max_batch_size: usize) -> (r: Option<
    Vec<DenseBlock>,
>)
    requires
        old(context).wf(),
    ensures
        final(context).wf(),
        exists|w: Result<SafetensorWriter, Error>|
            {
                let readable = w is Ok && full_precision(w->Ok_0@.descriptors);
                &&& #[trigger] is_reading_of(w, image@)
                &&& !readable ==> r is None && final(context)@ == old(context)@
                &&& readable ==> {
                    let l = loaded_tensors(
                        old(context)@,
                        w->Ok_0@.descriptors,
                        max_batch_size,
                    );
                    &&& final(context)@ == loaded_end(old(context)@, l)
                    &&& r is None <==> l.failed
                    &&& r matches Some(blocks) ==> block_views(blocks@) == l.layers
                }
            },
{
    match read_safe_tensor(image) {
        Some(tensors) => blocks_from_tensors(context, &tensors, max_batch_size),
        None => None,
    }
}

} // verus!
