//! Dense layers to and from the bytes of a file.

use vstd::prelude::*;

use crate::ffn::layer_views;
use crate::io::device::GpuContext;
use crate::io::load::{is_outcome, loaded, loaded_device, LoadOptions, Trouble};
use crate::io::reload::{law_saved_names_are_distinct, network_savable};
use crate::io::safetensor::{data_start, file_image, pairs_metadata, reads_back, WriterView};
use crate::io::save::{
    is_file_of, layer_number_lists, network_descriptors, numbers_complete, savable, SafetensorFile,
};
use crate::mlp::{DenseBlock, DenseView};
use crate::util::log::{refusal, Error};
use crate::util::precision::{Precision, PrecisionType};

verus! {

/// The file of a list of layers, given the numbers of their tensors.
pub open spec fn network_file(
    layers: Seq<DenseView>,
    precision: Precision,
    numbers: Seq<Seq<Seq<u32>>>,
    pairs: Seq<(String, String)>,
) -> WriterView {
    WriterView {
        descriptors: network_descriptors(layers, precision, numbers, layers.len() as int),
        metadata: pairs_metadata(pairs, pairs.len() as int),
    }
}

/// Layers can be saved: what is saved of each is there, there are numbers for all of it, and they
/// fit in a file.
pub open spec fn blocks_savable(
    layers: Seq<DenseView>,
    precision: Precision,
    numbers: Seq<Seq<Seq<u32>>>,
) -> bool {
    let descriptors = network_descriptors(layers, precision, numbers, layers.len() as int);
    &&& numbers.len() == layers.len()
    &&& forall|i: int|
        0 <= i < layers.len() ==> savable(#[trigger] layers[i]) && numbers_complete(
            layers[i],
            precision,
            numbers[i],
        )
    &&& data_start(descriptors, descriptors.len() as int) <= usize::MAX
}

/// Saves the network into the bytes of a .safetensors file.
///
/// # Arguments
/// * `blocks` - List of [`DenseBlock`], index of which indicates its position in the network.
/// * `numbers` - For each block the numbers of its tensors, in the order of
///   [`crate::io::save::plan_layer`].
///
/// # Errors
/// Returns an [`Error`] if the header cannot be turned into JSON.
pub fn save_dense_blocks<T: PrecisionType>(
    blocks: &[DenseBlock<T>],
    numbers: &[Vec<Vec<u32>>],
) -> (r: Result<Vec<u8>, Error>)
    requires
        blocks_savable(layer_views(blocks@), T::format(), layer_number_lists(numbers@)),
    ensures
        ({
            let layers = layer_views(blocks@);
            let lists = layer_number_lists(numbers@);
            let v = network_file(layers, T::format(), lists, seq![]);
            &&& r matches Ok(image) && image@ == file_image(v)
            &&& network_savable(layers, T::format(), lists) ==> reads_back(file_image(v), v)
        }),
{
    save_dense_blocks_internal(blocks, numbers, None)
}

/// Saves the network into the bytes of a .safetensors file.
///
/// # Arguments
/// * `blocks` - List of [`DenseBlock`], index of which indicates its position in the network.
/// * `numbers` - For each block the numbers of its tensors, in the order of
///   [`crate::io::save::plan_layer`].
/// * `meta` - Metadata to be included inside the save file.
///
/// # Errors
/// Returns an [`Error`] if the header cannot be turned into JSON.
pub fn save_dense_blocks_with_metadata<T: PrecisionType>(
    blocks: &[DenseBlock<T>],
    numbers: &[Vec<Vec<u32>>],
    meta: &[(String, String)],
) -> (r: Result<Vec<u8>, Error>)
    requires
        blocks_savable(layer_views(blocks@), T::format(), layer_number_lists(numbers@)),
    ensures
        ({
            let layers = layer_views(blocks@);
            let lists = layer_number_lists(numbers@);
            let v = network_file(layers, T::format(), lists, meta@);
            &&& r matches Ok(image) && image@ == file_image(v)
            &&& network_savable(layers, T::format(), lists) ==> reads_back(file_image(v), v)
        }),
{
    save_dense_blocks_internal(blocks, numbers, Some(meta))
}

/// Saves the network, with metadata if there is any.
fn save_dense_blocks_internal<T: PrecisionType>(
    blocks: &[DenseBlock<T>],
    numbers: &[Vec<Vec<u32>>],
    meta: Option<&[(String, String)]>,
) -> (r: Result<Vec<u8>, Error>)
    requires
        blocks_savable(layer_views(blocks@), T::format(), layer_number_lists(numbers@)),
    ensures
        ({
            let layers = layer_views(blocks@);
            let lists = layer_number_lists(numbers@);
            let pairs = match meta {
                Some(m) => m@,
                None => seq![],
            };
            let v = network_file(layers, T::format(), lists, pairs);
            &&& r matches Ok(image) && image@ == file_image(v)
            &&& network_savable(layers, T::format(), lists) ==> reads_back(file_image(v), v)
        }),
{
    let mut file = SafetensorFile::from_blocks(blocks, numbers)?;
    let ghost descriptors = file@.descriptors;
    if let Some(pairs) = meta {
        let mut k: usize = 0;
        assert(file@.metadata =~= pairs_metadata(pairs@, 0));
        while k < pairs.len()
            invariant
                k <= pairs@.len(),
                file@.descriptors == descriptors,
                file@.metadata == pairs_metadata(pairs@, k as int),
            decreases pairs@.len() - k,
        {
            let (key, value) = &pairs[k];
            file.pass_metadata(key.as_str(), value.as_str());
            k += 1;
        }
    }
    proof {
        let layers = layer_views(blocks@);
        let lists = layer_number_lists(numbers@);
        if network_savable(layers, T::format(), lists) {
            law_saved_names_are_distinct(layers, T::format(), lists);
        }
    }
    file.save()
}

/// Loads the tensors from the bytes of a .safetensors file and creates a list of [`DenseBlock`] from
/// them. Gives `None` where a size of a tensor or of a batch is missing or too large to work with.
///
/// # Arguments
/// * `context` - See [`GpuContext`]
/// * `image` - The bytes of the .safetensors file
/// * `is_training` - If set to false, tensors related only to the backward pass
///   will not be generated to save memory.
/// * `max_batch_size` - Maximum size of a batch
///
/// # Errors
/// This function will return an error if:
/// * The file is refused by [`SafetensorFile::read`].
/// * The layers are refused by [`SafetensorFile::into_blocks`].
pub fn load_dense_blocks<T: PrecisionType>(
    context: &mut GpuContext,
    image: &[u8],
    is_training: bool,
    max_batch_size: usize,
) -> (r: Option<Result<Vec<DenseBlock<T>>, Error>>)
    requires
        old(context).wf(),
    ensures
        final(context).wf(),
        exists|f: Result<SafetensorFile, Error>|
            {
                let options = LoadOptions { precision: T::format(), is_training, max_batch_size };
                &&& #[trigger] is_file_of(f, image@)
                &&& f is Err ==> {
                    &&& r is Some
                    &&& refusal(r->0) == refusal(f)
                    &&& final(context)@ == old(context)@
                }
                &&& f matches Ok(file) ==> {
                    let l = loaded(old(context)@, file@.descriptors, options);
                    &&& final(context)@ == loaded_device(old(context)@, l)
                    &&& r is None <==> l.trouble == Some(Trouble::Unfit)
                    &&& r matches Some(outcome) ==> is_outcome(outcome, l)
                }
            },
        r matches Some(Ok(blocks)) ==> forall|i: int|
            0 <= i < blocks@.len() ==> (#[trigger] blocks@[i]).wf(),
{
    let reading = SafetensorFile::read(image);
    let ghost f = reading;
    proof {
        assert(is_file_of(f, image@));
    }
    match reading {
        Ok(file) => file.checked_into_blocks(context, is_training, max_batch_size),
        Err(e) => Some(Err(e)),
    }
}

} // verus!
