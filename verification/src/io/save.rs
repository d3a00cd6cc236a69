//! Networks as files.

use indexmap::IndexMap;
use vstd::prelude::*;
use vstd::string::*;

use crate::ffn::{layer_views, FeedForwardNetwork};
use crate::io::bytes::{number_bytes, to_bytes};
use crate::io::device::DeviceSlice;
use crate::io::json::{map_entries, with_entry};
use crate::io::param_name::{name_param, param_name, ParamType};
use crate::io::safetensor::{
    data_start, descriptor_views, distinct_names, file_image, is_reading_of,
    reads_back, DescriptorView, SafetensorDescriptor, SafetensorWriter, WriterView,
};
use crate::mlp::state::borrowed_view;
use crate::mlp::{DenseBlock, DenseView};
use crate::util::log::{refusal, Error};
use crate::util::precision::{Precision, PrecisionType, F32};
use crate::util::tensor::{Tensor2D, TensorView};

verus! {

/// The tensors and the metadata of a network that is saved or loaded.
#[derive(Debug)]
pub struct SafetensorFile {
    writer: SafetensorWriter,
}

impl View for SafetensorFile {
    type V = WriterView;

    closed spec fn view(&self) -> WriterView {
        self.writer@
    }
}

/// A tensor of a layer that a file takes: what it is to the layer, the buffer that its numbers are
/// fetched from, and the format and the shape that they are saved in.
#[derive(Debug)]
pub struct SavedParam {
    pub kind: ParamType,
    pub tensor: DeviceSlice,
    pub precision: Precision,
    pub shape: Vec<usize>,
}

/// What a [`SavedParam`] stands for.
#[verifier::ext_equal]
pub struct SavedView {
    pub kind: ParamType,
    pub tensor: DeviceSlice,
    pub precision: Precision,
    pub shape: Seq<usize>,
}

impl View for SavedParam {
    type V = SavedView;

    open spec fn view(&self) -> SavedView {
        SavedView {
            kind: self.kind,
            tensor: self.tensor,
            precision: self.precision,
            shape: self.shape@,
        }
    }
}

/// What tensors of a layer stand for.
pub open spec fn saved_views(params: Seq<SavedParam>) -> Seq<SavedView> {
    params.map_values(|p: SavedParam| p@)
}

/// A tensor that is saved with its rows and columns.
pub open spec fn saved_plane(kind: ParamType, t: TensorView, precision: Precision) -> SavedView {
    SavedView { kind, tensor: t.slice(), precision, shape: t.shape }
}

/// A tensor that is saved with the shape of another one.
pub open spec fn saved_like(
    kind: ParamType,
    t: TensorView,
    precision: Precision,
    shape: Seq<usize>,
) -> SavedView {
    SavedView { kind, tensor: t.slice(), precision, shape }
}

/// The columns of a tensor.
pub open spec fn columns(t: TensorView) -> Seq<usize> {
    seq![t.shape[1]]
}

/// A master copy that may be missing.
pub open spec fn saved_master(kind: ParamType, t: Option<TensorView>) -> Seq<SavedView> {
    match t {
        Some(x) => seq![saved_plane(kind, x, Precision::FP32)],
        None => seq![],
    }
}

/// The weights and biases of a layer.
pub open spec fn saved_basics(layer: DenseView, precision: Precision) -> Seq<SavedView> {
    seq![
        saved_plane(ParamType::W, layer.linear.w, precision),
        saved_like(ParamType::B, layer.linear.b, precision, columns(layer.linear.b)),
        saved_like(ParamType::NormW, layer.norm.w, precision, columns(layer.norm.w)),
        saved_like(ParamType::NormB, layer.norm.b, precision, columns(layer.norm.b)),
    ]
}

/// What an optimiser keeps about a layer.
pub open spec fn saved_moments(layer: DenseView) -> Seq<SavedView> {
    let w = layer.linear.w.shape;
    let b = columns(layer.linear.b);
    let nw = columns(layer.norm.w);
    let nb = columns(layer.norm.b);
    seq![
        saved_like(ParamType::DvW, layer.linear.dv_w->0, Precision::FP32, w),
        saved_like(ParamType::DvB, layer.linear.dv_b->0, Precision::FP32, b),
        saved_like(ParamType::DmW, layer.linear.dm_w->0, Precision::FP32, w),
        saved_like(ParamType::DmB, layer.linear.dm_b->0, Precision::FP32, b),
        saved_like(ParamType::DvNormW, layer.norm.dv_w->0, Precision::FP32, nw),
        saved_like(ParamType::DvNormB, layer.norm.dv_b->0, Precision::FP32, nb),
        saved_like(ParamType::DmNormW, layer.norm.dm_w->0, Precision::FP32, nw),
        saved_like(ParamType::DmNormB, layer.norm.dm_b->0, Precision::FP32, nb),
    ]
}

/// The master copies of the weights and biases of a layer.
pub open spec fn saved_masters(layer: DenseView) -> Seq<SavedView> {
    saved_master(ParamType::MasterW, layer.linear.master_w) + saved_master(
        ParamType::MasterB,
        layer.linear.master_b,
    ) + saved_master(ParamType::MasterNormW, layer.norm.master_w) + saved_master(
        ParamType::MasterNormB,
        layer.norm.master_b,
    )
}

/// The tensors of a layer that a file takes, in their order: the weights and biases, and for a layer
/// in training mode what an optimiser keeps about them and their master copies.
pub open spec fn saved_params(layer: DenseView, precision: Precision) -> Seq<SavedView> {
    saved_basics(layer, precision) + if layer.is_training {
        saved_moments(layer) + saved_masters(layer)
    } else {
        seq![]
    }
}

/// A tensor of a layer in a file, given its numbers.
pub open spec fn param_descriptor(index: usize, param: SavedView, numbers: Seq<u32>)
    -> DescriptorView {
    DescriptorView {
        name: param_name(index, param.kind),
        shape: param.shape,
        data: number_bytes(numbers, param.precision),
        precision: param.precision,
    }
}

/// The tensors of a layer in a file, given the numbers of each.
pub open spec fn layer_descriptors(
    layer: DenseView,
    precision: Precision,
    index: usize,
    numbers: Seq<Seq<u32>>,
) -> Seq<DescriptorView> {
    let params = saved_params(layer, precision);
    Seq::new(params.len(), |i: int| param_descriptor(index, params[i], numbers[i]))
}

/// The tensors of the first `k` layers in a file, given the numbers of each. Layers are numbered
/// from one.
pub open spec fn network_descriptors(
    layers: Seq<DenseView>,
    precision: Precision,
    numbers: Seq<Seq<Seq<u32>>>,
    k: int,
) -> Seq<DescriptorView>
    decreases k,
{
    if k <= 0 {
        seq![]
    } else {
        network_descriptors(layers, precision, numbers, k - 1) + layer_descriptors(
            layers[k - 1],
            precision,
            k as usize,
            numbers[k - 1],
        )
    }
}

/// Lists of numbers as sequences.
pub open spec fn number_lists(numbers: Seq<Vec<u32>>) -> Seq<Seq<u32>> {
    numbers.map_values(|v: Vec<u32>| v@)
}

/// Lists of lists of numbers as sequences.
pub open spec fn layer_number_lists(numbers: Seq<Vec<Vec<u32>>>) -> Seq<Seq<Seq<u32>>> {
    numbers.map_values(|v: Vec<Vec<u32>>| number_lists(v@))
}

/// A layer can be saved: in training mode it has what an optimiser keeps.
pub open spec fn savable(layer: DenseView) -> bool {
    layer.wf() && (layer.is_training ==> layer.trainable())
}

/// There are numbers for every tensor of a layer that a file takes.
pub open spec fn numbers_complete(
    layer: DenseView,
    precision: Precision,
    numbers: Seq<Seq<u32>>,
) -> bool {
    numbers.len() == saved_params(layer, precision).len()
}

/// A tensor of a layer that a file takes with the shape of another one.
fn plan_param<T: PrecisionType>(kind: ParamType, t: &Tensor2D<T>, shape: Vec<usize>) -> (r:
    SavedParam)
    requires
        t.wf(),
    ensures
        r@ == saved_like(kind, t@, T::format(), shape@),
{
    SavedParam { kind, tensor: t.get_data(), precision: T::precision(), shape }
}

/// The rows and columns of a tensor.
fn plane_shape<T: PrecisionType>(t: &Tensor2D<T>) -> (r: Vec<usize>)
    requires
        t.wf(),
    ensures
        r@ == t@.shape,
{
    let shape: Vec<usize> = vec![t.rows(), t.cols()];
    assert(shape@ =~= t@.shape);
    shape
}

/// The columns of a tensor.
fn column_shape<T: PrecisionType>(t: &Tensor2D<T>) -> (r: Vec<usize>)
    requires
        t.wf(),
    ensures
        r@ == columns(t@),
{
    let shape: Vec<usize> = vec![t.cols()];
    assert(shape@ =~= columns(t@));
    shape
}

/// Adds a master copy that may be missing.
fn plan_master(params: &mut Vec<SavedParam>, kind: ParamType, t: Option<&Tensor2D<F32>>)
    requires
        t matches Some(x) ==> x.wf(),
    ensures
        saved_views(final(params)@) == saved_views(old(params)@) + saved_master(
            kind,
            borrowed_view(t),
        ),
{
    if let Some(x) = t {
        params.push(plan_param(kind, x, plane_shape(x)));
    }
    assert(saved_views(params@) =~= saved_views(old(params)@) + saved_master(
        kind,
        borrowed_view(t),
    ));
}

/// The tensors of a layer that a file takes, in the order in which the numbers of each are handed to
/// [`SafetensorFile::pass_layer`].
pub fn plan_layer<T: PrecisionType>(layer: &DenseBlock<T>) -> (r: Vec<SavedParam>)
    requires
        savable(layer@),
    ensures
        saved_views(r@) == saved_params(layer@, T::format()),
{
    let weights = layer.get_weights();
    let biases = layer.get_biases();
    let norm_w = layer.get_norm_weights();
    let norm_b = layer.get_norm_biases();
    let mut params: Vec<SavedParam> = Vec::new();
    params.push(plan_param(ParamType::W, weights, plane_shape(weights)));
    params.push(plan_param(ParamType::B, biases, column_shape(biases)));
    params.push(plan_param(ParamType::NormW, norm_w, column_shape(norm_w)));
    params.push(plan_param(ParamType::NormB, norm_b, column_shape(norm_b)));
    if layer.is_training_mode() {
        // Moments and master weights
        params.push(plan_param(ParamType::DvW, layer.get_dv_weights(), plane_shape(weights)));
        params.push(plan_param(ParamType::DvB, layer.get_dv_biases(), column_shape(biases)));
        params.push(plan_param(ParamType::DmW, layer.get_dm_weights(), plane_shape(weights)));
        params.push(plan_param(ParamType::DmB, layer.get_dm_biases(), column_shape(biases)));
        params.push(
            plan_param(ParamType::DvNormW, layer.get_dv_norm_weights(), column_shape(norm_w)),
        );
        params.push(
            plan_param(ParamType::DvNormB, layer.get_dv_norm_biases(), column_shape(norm_b)),
        );
        params.push(
            plan_param(ParamType::DmNormW, layer.get_dm_norm_weights(), column_shape(norm_w)),
        );
        params.push(
            plan_param(ParamType::DmNormB, layer.get_dm_norm_biases(), column_shape(norm_b)),
        );
        assert(saved_views(params@) =~= saved_params(layer@, T::format()).take(12));
        // Optional master weight tensors (only present for F16 networks)
        plan_master(&mut params, ParamType::MasterW, layer.get_master_weights());
        plan_master(&mut params, ParamType::MasterB, layer.get_master_biases());
        plan_master(&mut params, ParamType::MasterNormW, layer.get_master_norm_weights());
        plan_master(&mut params, ParamType::MasterNormB, layer.get_master_norm_biases());
    }
    assert(saved_views(params@) =~= saved_params(layer@, T::format()));
    params
}

impl SafetensorFile {
    /// Creates a new empty [`SafetensorFile`].
    pub fn new() -> (r: Self)
        ensures
            r@ == (WriterView { descriptors: Seq::empty(), metadata: Seq::empty() }),
    {
        Self { writer: SafetensorWriter::empty() }
    }

    /// Saves the network into the form of a .safetensors file.
    ///
    /// # Arguments
    /// * `network` - The network.
    /// * `numbers` - For each layer the numbers of its tensors, in the order of [`plan_layer`].
    pub fn from_ffn<T: PrecisionType>(
        network: &FeedForwardNetwork<T>,
        numbers: &[Vec<Vec<u32>>],
    ) -> (r: Result<Self, Error>)
        requires
            numbers@.len() == network@.layers.len(),
            forall|i: int|
                0 <= i < network@.layers.len() ==> savable(#[trigger] network@.layers[i])
                    && numbers_complete(
                    network@.layers[i],
                    T::format(),
                    layer_number_lists(numbers@)[i],
                ),
        ensures
            r matches Ok(f) && f@ == (WriterView {
                descriptors: network_descriptors(
                    network@.layers,
                    T::format(),
                    layer_number_lists(numbers@),
                    network@.layers.len() as int,
                ),
                metadata: Seq::empty(),
            }),
    {
        Self::from_blocks(network.get_layers().as_slice(), numbers)
    }

    /// Creates a new [`SafetensorFile`] which processes all the blocks in the list of
    /// [`DenseBlock`] for saving.
    ///
    /// # Arguments
    /// * `blocks` - The list of blocks to process.
    /// * `numbers` - For each block the numbers of its tensors, in the order of [`plan_layer`].
    pub fn from_blocks<T: PrecisionType>(
        blocks: &[DenseBlock<T>],
        numbers: &[Vec<Vec<u32>>],
    ) -> (r: Result<Self, Error>)
        requires
            numbers@.len() == blocks@.len(),
            forall|i: int|
                0 <= i < blocks@.len() ==> savable(#[trigger] layer_views(blocks@)[i])
                    && numbers_complete(
                    layer_views(blocks@)[i],
                    T::format(),
                    layer_number_lists(numbers@)[i],
                ),
        ensures
            r matches Ok(f) && f@ == (WriterView {
                descriptors: network_descriptors(
                    layer_views(blocks@),
                    T::format(),
                    layer_number_lists(numbers@),
                    blocks@.len() as int,
                ),
                metadata: Seq::empty(),
            }),
    {
        let mut file_writer = Self::new();
        file_writer.pass_blocks(blocks, numbers)?;
        Ok(file_writer)
    }

    /// Pass the list of [`DenseBlock`] which will be processed for saving.
    ///
    /// # Arguments
    /// * `blocks` - The list of blocks to process.
    /// * `numbers` - For each block the numbers of its tensors, in the order of [`plan_layer`].
    pub fn pass_blocks<T: PrecisionType>(
        &mut self,
        blocks: &[DenseBlock<T>],
        numbers: &[Vec<Vec<u32>>],
    ) -> (r: Result<(), Error>)
        requires
            numbers@.len() == blocks@.len(),
            forall|i: int|
                0 <= i < blocks@.len() ==> savable(#[trigger] layer_views(blocks@)[i])
                    && numbers_complete(
                    layer_views(blocks@)[i],
                    T::format(),
                    layer_number_lists(numbers@)[i],
                ),
        ensures
            r is Ok,
            final(self)@ == (WriterView {
                descriptors: old(self)@.descriptors + network_descriptors(
                    layer_views(blocks@),
                    T::format(),
                    layer_number_lists(numbers@),
                    blocks@.len() as int,
                ),
                ..old(self)@
            }),
    {
        let ghost layers = layer_views(blocks@);
        let ghost lists = layer_number_lists(numbers@);
        let mut idx: usize = 0;
        assert(self@.descriptors + network_descriptors(layers, T::format(), lists, 0)
            =~= self@.descriptors);
        while idx < blocks.len()
            invariant
                idx <= blocks@.len(),
                numbers@.len() == blocks@.len(),
                layers == layer_views(blocks@),
                lists == layer_number_lists(numbers@),
                forall|i: int|
                    0 <= i < blocks@.len() ==> savable(#[trigger] layers[i]) && numbers_complete(
                        layers[i],
                        T::format(),
                        lists[i],
                    ),
                self@ == (WriterView {
                    descriptors: old(self)@.descriptors + network_descriptors(
                        layers,
                        T::format(),
                        lists,
                        idx as int,
                    ),
                    ..old(self)@
                }),
            decreases blocks@.len() - idx,
        {
            assert(layers[idx as int] == blocks@[idx as int]@);
            assert(lists[idx as int] == number_lists(numbers@[idx as int]@));
            self.pass_layer(&blocks[idx], numbers[idx].as_slice(), idx + 1)?;
            idx += 1;
            assert(self@.descriptors =~= old(self)@.descriptors + network_descriptors(
                layers,
                T::format(),
                lists,
                idx as int,
            ));
        }
        Ok(())
    }

    /// Adds a single `key-value` pair to the metadata collection.
    ///
    /// # Arguments
    /// * `key` - The metadata key.
    /// * `value` - The metadata value associated with the key.
    pub fn pass_metadata(&mut self, key: &str, value: &str)
        ensures
            final(self)@ == (WriterView {
                metadata: with_entry(old(self)@.metadata, key@, value@),
                ..old(self)@
            }),
    {
        self.writer.pass_metadata(key.to_owned(), value.to_owned());
    }

    /// The metadata.
    pub fn get_metadata(&self) -> (r: &IndexMap<String, String>)
        ensures
            map_entries(*r) == self@.metadata,
    {
        self.writer.get_metadata()
    }

    /// The tensors.
    pub fn get_descriptors(&self) -> (r: &Vec<SafetensorDescriptor>)
        ensures
            descriptor_views(r@) == self@.descriptors,
    {
        self.writer.get_descriptors()
    }

    /// Processes a dense block layer and prepares its weights for saving.
    ///
    /// # Arguments
    /// * `layer` - A reference to the [`DenseBlock`] containing the weights and biases to process.
    /// * `numbers` - The numbers of its tensors, in the order of [`plan_layer`].
    /// * `layer_num` - The 1-indexed identifier of the layer within the model architecture.
    pub fn pass_layer<T: PrecisionType>(
        &mut self,
        layer: &DenseBlock<T>,
        numbers: &[Vec<u32>],
        layer_num: usize,
    ) -> (r: Result<(), Error>)
        requires
            savable(layer@),
            numbers_complete(layer@, T::format(), number_lists(numbers@)),
        ensures
            r is Ok,
            final(self)@ == (WriterView {
                descriptors: old(self)@.descriptors + layer_descriptors(
                    layer@,
                    T::format(),
                    layer_num,
                    number_lists(numbers@),
                ),
                ..old(self)@
            }),
    {
        let params = plan_layer(layer);
        let ghost all = layer_descriptors(
            layer@,
            T::format(),
            layer_num,
            number_lists(numbers@),
        );
        let ghost plan = saved_params(layer@, T::format());
        let mut i: usize = 0;
        assert(self@.descriptors + all.take(0) =~= self@.descriptors);
        while i < params.len()
            invariant
                i <= params@.len(),
                plan == saved_params(layer@, T::format()),
                saved_views(params@) == plan,
                params@.len() == numbers@.len(),
                all == layer_descriptors(
                    layer@,
                    T::format(),
                    layer_num,
                    number_lists(numbers@),
                ),
                self@ == (WriterView {
                    descriptors: old(self)@.descriptors + all.take(i as int),
                    ..old(self)@
                }),
            decreases params@.len() - i,
        {
            let param = &params[i];
            let byte_data = to_bytes(numbers[i].as_slice(), param.precision);
            proof {
                assert(plan[i as int] == saved_views(params@)[i as int]);
                assert(number_lists(numbers@)[i as int] == numbers@[i as int]@);
            }
            self.writer.pass(
                name_param(layer_num, param.kind),
                param.shape.clone(),
                byte_data,
                param.precision,
            );
            assert(self@.descriptors =~= old(self)@.descriptors + all.take(i + 1));
            i += 1;
        }
        assert(all.take(i as int) =~= all);
        Ok(())
    }

    /// The bytes of the file.
    ///
    /// # Errors
    /// Returns an [`Error`] if the metadata cannot be turned into JSON.
    pub fn save(&self) -> (r: Result<Vec<u8>, Error>)
        requires
            data_start(self@.descriptors, self@.descriptors.len() as int) <= usize::MAX,
        ensures
            r matches Ok(image) && image@ == file_image(self@),
            distinct_names(self@.descriptors) ==> reads_back(file_image(self@), self@),
    {
        self.writer.write()
    }
}

/// What reading a file gives.
pub open spec fn is_file_of(r: Result<SafetensorFile, Error>, image: Seq<u8>) -> bool {
    exists|w: Result<SafetensorWriter, Error>|
        {
            &&& #[trigger] is_reading_of(w, image)
            &&& refusal(r) == refusal(w)
            &&& r matches Ok(f) ==> f@ == w->Ok_0@
        }
}

impl SafetensorFile {
    /// Reads and deserializes the bytes of a safetensors file.
    ///
    /// # Arguments
    /// * `image` - The bytes of the safetensors file to load.
    ///
    /// # Errors
    /// * [`Error::IOError`] - The file ends too early.
    /// * [`Error::IntConversion`] - The length of the header is no address.
    /// * [`Error::SerdeJSON`] - The header is malformed, or the offsets of a tensor are out of order.
    /// * [`Error::UnrecognizedTensorKey`] - The tensor specified an unrecognised data type.
    pub fn read(image: &[u8]) -> (r: Result<Self, Error>)
        ensures
            is_file_of(r, image@),
    {
        let reading = SafetensorWriter::read(image);
        let ghost w = reading;
        proof {
            assert(is_reading_of(w, image@));
        }
        match reading {
            Ok(writer) => Ok(Self { writer }),
            Err(e) => Err(e),
        }
    }
}

} // verus!
