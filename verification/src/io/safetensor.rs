//! The safetensors file format: a length, a JSON header that describes the tensors, and their data.

use indexmap::IndexMap;
use serde_json::Value;
use vstd::bytes::*;
use vstd::prelude::*;
use vstd::slice::{slice_subrange, slice_to_vec};
use vstd::utf8::*;

use crate::io::json::{
    array_value, compact_json, compact_text, debug_text, entry_map, entry_of, insert_entry,
    insert_member, is_empty_map, is_object, is_sizes, json_members, json_object, json_tree,
    json_trees, lists_members, map_entries, metadata_value, new_map, new_object, null_value,
    number_value, object_member, object_members, object_value, parse_entry, parse_object, precedes,
    pretty_json, pretty_text, quoted, simple, simple_members, sizes_of, spaces, text_object,
    text_value, value_text, with_entry, EntryView, JsonTree,
};
use crate::util::log::{refusal, Error, ErrorView, IoFault};
use crate::util::precision::Precision;

verus! {

/// A tensor of a file.
#[derive(Debug)]
pub struct SafetensorDescriptor {
    pub name: String,
    pub shape: Vec<usize>,
    pub data: Vec<u8>,
    pub precision: Precision,
}

/// What a [`SafetensorDescriptor`] stands for.
#[verifier::ext_equal]
pub struct DescriptorView {
    pub name: Seq<char>,
    pub shape: Seq<usize>,
    pub data: Seq<u8>,
    pub precision: Precision,
}

impl View for SafetensorDescriptor {
    type V = DescriptorView;

    open spec fn view(&self) -> DescriptorView {
        DescriptorView {
            name: self.name@,
            shape: self.shape@,
            data: self.data@,
            precision: self.precision,
        }
    }
}

/// The tensors and the metadata of a file.
#[derive(Debug)]
pub struct SafetensorWriter {
    descriptors: Vec<SafetensorDescriptor>,
    metadata: IndexMap<String, String>,
}

/// What a [`SafetensorWriter`] stands for.
#[verifier::ext_equal]
pub struct WriterView {
    pub descriptors: Seq<DescriptorView>,
    pub metadata: Seq<(Seq<char>, Seq<char>)>,
}

impl View for SafetensorWriter {
    type V = WriterView;

    closed spec fn view(&self) -> WriterView {
        WriterView {
            descriptors: descriptor_views(self.descriptors@),
            metadata: map_entries(self.metadata),
        }
    }
}

/// What tensors of a file stand for.
pub open spec fn descriptor_views(ds: Seq<SafetensorDescriptor>) -> Seq<DescriptorView> {
    ds.map_values(|d: SafetensorDescriptor| d@)
}

/// The name of the header's entry for the metadata.
pub open spec fn metadata_name() -> Seq<char> {
    "__metadata__"@
}

/// The name of a data type.
pub open spec fn dtype_name(precision: Precision) -> Seq<char> {
    match precision {
        Precision::FP32 => "F32"@,
        Precision::FP16 => "F16"@,
    }
}

/// Where the data of the tensor at place `k` of a file starts; the data of the tensors lie one
/// behind the other.
pub open spec fn data_start(ds: Seq<DescriptorView>, k: int) -> nat
    decreases k,
{
    if k <= 0 {
        0
    } else {
        data_start(ds, k - 1) + ds[k - 1].data.len()
    }
}

/// The data of the first `k` tensors of a file.
pub open spec fn payload(ds: Seq<DescriptorView>, k: int) -> Seq<u8>
    decreases k,
{
    if k <= 0 {
        seq![]
    } else {
        payload(ds, k - 1) + ds[k - 1].data
    }
}

/// A list of addresses as JSON.
pub open spec fn size_array(sizes: Seq<usize>) -> JsonTree {
    JsonTree::Arr(sizes.map_values(|n: usize| JsonTree::UInt(n as nat)))
}

/// The header's entry for a tensor.
pub open spec fn tensor_entry(d: DescriptorView, start: nat) -> JsonTree {
    JsonTree::Obj(
        Map::empty().insert("dtype"@, JsonTree::Str(dtype_name(d.precision))).insert(
            "shape"@,
            size_array(d.shape),
        ).insert(
            "data_offsets"@,
            size_array(seq![start as usize, (start + d.data.len()) as usize]),
        ),
    )
}

/// The header's members once the first `k` tensors are described too. An entry takes the place of an
/// earlier one of the same name.
pub open spec fn with_tensors(
    members: Map<Seq<char>, JsonTree>,
    ds: Seq<DescriptorView>,
    k: int,
) -> Map<Seq<char>, JsonTree>
    decreases k,
{
    if k <= 0 {
        members
    } else {
        with_tensors(members, ds, k - 1).insert(
            ds[k - 1].name,
            tensor_entry(ds[k - 1], data_start(ds, k - 1)),
        )
    }
}

/// The header's members for the metadata: one, or none where there is no metadata.
pub open spec fn metadata_members(metadata: Seq<(Seq<char>, Seq<char>)>) -> Map<
    Seq<char>,
    JsonTree,
> {
    if metadata.len() == 0 {
        Map::empty()
    } else {
        Map::empty().insert(metadata_name(), text_object(entry_map(metadata)))
    }
}

/// The metadata of the first `k` pairs of a list. A later value of a key takes the place of an
/// earlier one.
pub open spec fn pairs_metadata(pairs: Seq<(String, String)>, k: int) -> Seq<(Seq<char>, Seq<char>)>
    decreases k,
{
    if k <= 0 {
        seq![]
    } else {
        with_entry(pairs_metadata(pairs, k - 1), pairs[k - 1].0@, pairs[k - 1].1@)
    }
}

/// The members of the header of a file.
pub open spec fn header_members(v: WriterView) -> Map<Seq<char>, JsonTree> {
    with_tensors(metadata_members(v.metadata), v.descriptors, v.descriptors.len() as int)
}

/// How many bytes are missing to a multiple of eight.
pub open spec fn padding(n: nat) -> nat {
    if n % 8 == 0 {
        0
    } else {
        (8 - n % 8) as nat
    }
}

/// A header: pretty JSON, with spaces behind it up to a multiple of eight bytes.
pub open spec fn padded_json(members: Map<Seq<char>, JsonTree>) -> Seq<u8> {
    let text = encode_utf8(pretty_json(members));
    text + spaces(padding(text.len()))
}

/// A file of a header and tensors: the length of the header in eight bytes, the least significant one
/// first; the header; and the data of the tensors.
pub open spec fn framed(header: Seq<u8>, ds: Seq<DescriptorView>) -> Seq<u8> {
    spec_u64_to_le_bytes(header.len() as u64) + header + payload(ds, ds.len() as int)
}

/// The header of a file.
pub open spec fn header_text(v: WriterView) -> Seq<u8> {
    padded_json(header_members(v))
}

/// The bytes of a file.
pub open spec fn file_image(v: WriterView) -> Seq<u8> {
    framed(header_text(v), v.descriptors)
}

/// The data of the tensors starts at a multiple of eight bytes.
pub proof fn law_data_is_aligned(v: WriterView)
    ensures
        header_text(v).len() % 8 == 0,
        file_image(v).len() == 8 + header_text(v).len() + data_start(
            v.descriptors,
            v.descriptors.len() as int,
        ),
{
    lemma_auto_spec_u64_to_from_le_bytes();
    lemma_payload(v.descriptors, v.descriptors.len() as int, 0);
}

/// The data of a tensor lies where its entry says.
proof fn lemma_payload(ds: Seq<DescriptorView>, k: int, i: int)
    requires
        0 <= k <= ds.len(),
    ensures
        payload(ds, k).len() == data_start(ds, k),
        0 <= i < k ==> data_start(ds, i) + ds[i].data.len() <= data_start(ds, k) && payload(
            ds,
            k,
        ).subrange(data_start(ds, i) as int, (data_start(ds, i) + ds[i].data.len()) as int)
            == ds[i].data,
    decreases k,
{
    if k > 0 {
        lemma_payload(ds, k - 1, i);
        if 0 <= i < k - 1 {
            let (a, b) = (
                data_start(ds, i) as int,
                (data_start(ds, i) + ds[i].data.len()) as int,
            );
            assert(payload(ds, k).subrange(a, b) == payload(ds, k - 1).subrange(a, b));
        } else if i == k - 1 {
            assert(payload(ds, k).subrange(
                data_start(ds, i) as int,
                (data_start(ds, i) + ds[i].data.len()) as int,
            ) == ds[i].data);
        }
    }
}

/// The first offset is not behind a later one.
proof fn lemma_data_start_grows(ds: Seq<DescriptorView>, i: int, k: int)
    requires
        0 <= i <= k <= ds.len(),
    ensures
        data_start(ds, i) <= data_start(ds, k),
    decreases k - i,
{
    if i < k {
        lemma_data_start_grows(ds, i, k - 1);
    }
}

/// A header that is made of texts and integers stays so as tensors are described.
proof fn lemma_header_is_simple(members: Map<Seq<char>, JsonTree>, ds: Seq<DescriptorView>, k: int)
    requires
        0 <= k <= ds.len(),
        simple_members(members),
    ensures
        simple_members(with_tensors(members, ds, k)),
    decreases k,
{
    reveal_with_fuel(simple, 3);
    if k > 0 {
        lemma_header_is_simple(members, ds, k - 1);
        let d = ds[k - 1];
        let start = data_start(ds, k - 1);
        assert(simple(size_array(d.shape), 1));
        assert(simple(
            size_array(seq![start as usize, (start + d.data.len()) as usize]),
            1,
        ));
        assert(simple(tensor_entry(d, start), 2));
    }
}

/// The metadata is made of texts.
proof fn lemma_metadata_is_simple(metadata: Seq<(Seq<char>, Seq<char>)>)
    ensures
        simple_members(metadata_members(metadata)),
{
    reveal_with_fuel(simple, 3);
    assert(simple(text_object(entry_map(metadata)), 2));
}

/// The value of a list of addresses.
fn size_array_value(sizes: &Vec<usize>) -> (r: Value)
    ensures
        json_tree(r) == size_array(sizes@),
{
    let mut items: Vec<Value> = Vec::new();
    let mut i: usize = 0;
    while i < sizes.len()
        invariant
            i <= sizes@.len(),
            json_trees(items@) == sizes@.take(i as int).map_values(
                |n: usize| JsonTree::UInt(n as nat),
            ),
        decreases sizes@.len() - i,
    {
        let ghost before = items@;
        let item = number_value(sizes[i]);
        items.push(item);
        i += 1;
        assert(json_trees(items@) == json_trees(before).push(json_tree(item)));
        assert(sizes@.take(i as int).map_values(|n: usize| JsonTree::UInt(n as nat)) == sizes@.take(
            i - 1,
        ).map_values(|n: usize| JsonTree::UInt(n as nat)).push(JsonTree::UInt(sizes@[i - 1] as nat)));
    }
    assert(sizes@.take(i as int) == sizes@);
    array_value(items)
}

/// The value of the header's entry for a tensor.
fn tensor_entry_value(d: &SafetensorDescriptor, start: usize, end: usize) -> (r: Value)
    requires
        end == start + d@.data.len(),
    ensures
        json_tree(r) == tensor_entry(d@, start as nat),
{
    let dtype: String = match d.precision {
        Precision::FP32 => "F32".to_owned(),
        Precision::FP16 => "F16".to_owned(),
    };
    let offsets: Vec<usize> = vec![start, end];
    let mut entry = new_object();
    insert_member(&mut entry, "dtype".to_owned(), text_value(dtype));
    insert_member(&mut entry, "shape".to_owned(), size_array_value(&d.shape));
    insert_member(&mut entry, "data_offsets".to_owned(), size_array_value(&offsets));
    assert(offsets@ == seq![start, end]);
    let value = object_value(entry);
    assert(json_tree(value)->Obj_0 =~= tensor_entry(d@, start as nat)->Obj_0);
    value
}

impl SafetensorWriter {
    /// A file without tensors and metadata.
    pub fn empty() -> (r: Self)
        ensures
            r@ == (WriterView { descriptors: Seq::empty(), metadata: Seq::empty() }),
    {
        Self { descriptors: Vec::new(), metadata: new_map() }
    }

    /// Adds a tensor.
    pub fn pass(&mut self, name: String, shape: Vec<usize>, data: Vec<u8>, precision: Precision)
        ensures
            final(self)@ == (WriterView {
                descriptors: old(self)@.descriptors.push(
                    DescriptorView { name: name@, shape: shape@, data: data@, precision },
                ),
                ..old(self)@
            }),
    {
        self.pass_descriptor(SafetensorDescriptor { name, shape, data, precision });
    }

    /// Adds a tensor.
    pub fn pass_descriptor(&mut self, desc: SafetensorDescriptor)
        ensures
            final(self)@ == (WriterView {
                descriptors: old(self)@.descriptors.push(desc@),
                ..old(self)@
            }),
    {
        self.descriptors.push(desc);
    }

    /// Gives a key of the metadata its value.
    pub fn pass_metadata(&mut self, key: String, value: String)
        ensures
            final(self)@ == (WriterView {
                metadata: with_entry(old(self)@.metadata, key@, value@),
                ..old(self)@
            }),
    {
        insert_entry(&mut self.metadata, key, value);
    }

    /// The tensors.
    pub fn get_descriptors(&self) -> (r: &Vec<SafetensorDescriptor>)
        ensures
            descriptor_views(r@) == self@.descriptors,
    {
        &self.descriptors
    }

    /// Hands the tensors over.
    pub fn into_descriptors(self) -> (r: Vec<SafetensorDescriptor>)
        ensures
            descriptor_views(r@) == self@.descriptors,
    {
        self.descriptors
    }

    /// The metadata.
    pub fn get_metadata(&self) -> (r: &IndexMap<String, String>)
        ensures
            map_entries(*r) == self@.metadata,
    {
        &self.metadata
    }

    /// Serializes the tensors and their raw binary payload data following the Safetensors
    /// specification format.
    ///
    /// The file is structured with an 8-byte little-endian header length prefix, followed by
    /// an 8-byte aligned JSON header (including optional `__metadata__`), followed immediately
    /// by contiguous raw tensor byte buffers.
    ///
    /// # Errors
    /// Returns an [`Error`] if serializing metadata or tensor descriptors to JSON fails.
    pub fn write(&self) -> (r: Result<Vec<u8>, Error>)
        requires
            data_start(self@.descriptors, self@.descriptors.len() as int) <= usize::MAX,
        ensures
            r matches Ok(image) && image@ == file_image(self@),
            file_image(self@).len() <= usize::MAX,
            json_object(header_text(self@)) == Some(header_members(self@)),
            distinct_names(self@.descriptors) ==> reads_back(file_image(self@), self@),
    {
        write_file(&self.metadata, &self.descriptors)
    }
}

/// The bytes of a file of metadata and tensors.
pub(crate) fn write_file(
    metadata: &IndexMap<String, String>,
    descriptors: &Vec<SafetensorDescriptor>,
) -> (r: Result<Vec<u8>, Error>)
    requires
        data_start(descriptor_views(descriptors@), descriptors@.len() as int) <= usize::MAX,
    ensures
        ({
            let v = WriterView {
                descriptors: descriptor_views(descriptors@),
                metadata: map_entries(*metadata),
            };
            &&& r matches Ok(image) && image@ == file_image(v)
            &&& file_image(v).len() <= usize::MAX
            &&& json_object(header_text(v)) == Some(header_members(v))
            &&& distinct_names(v.descriptors) ==> reads_back(file_image(v), v)
        }),
{
    let ghost v = WriterView {
        descriptors: descriptor_views(descriptors@),
        metadata: map_entries(*metadata),
    };
    let mut header_map = new_object();
    if !is_empty_map(metadata) {
        let value = match metadata_value(metadata) {
            Ok(value) => value,
            Err(text) => {
                return Err(Error::SerdeJSON(text));
            },
        };
        insert_member(&mut header_map, "__metadata__".to_owned(), value);
    }
    proof {
        assert(json_members(header_map) =~= metadata_members(v.metadata));
        lemma_metadata_is_simple(v.metadata);
    }
    let image = frame_tensors(header_map, descriptors)?;
    proof {
        if distinct_names(v.descriptors) {
            law_file_is_read_back(v);
        }
    }
    Ok(image)
}

/// The bytes of a file, given what its header says besides the tensors.
fn frame_tensors(
    header: serde_json::Map<String, Value>,
    descriptors: &Vec<SafetensorDescriptor>,
) -> (r: Result<Vec<u8>, Error>)
    requires
        simple_members(json_members(header)),
        data_start(descriptor_views(descriptors@), descriptors@.len() as int) <= usize::MAX,
    ensures
        ({
            let ds = descriptor_views(descriptors@);
            let members = with_tensors(json_members(header), ds, ds.len() as int);
            &&& r matches Ok(image) && image@ == framed(padded_json(members), ds)
            &&& framed(padded_json(members), ds).len() <= usize::MAX
            &&& json_object(padded_json(members)) == Some(members)
        }),
{
    let ghost ds = descriptor_views(descriptors@);
    let ghost base = json_members(header);
    let mut header_map = header;

    // Convert all safetensor descriptors into JSON descriptors
    let mut cur_byte_offset: usize = 0;
    let mut i: usize = 0;
    while i < descriptors.len()
        invariant
            i <= ds.len(),
            ds == descriptor_views(descriptors@),
            data_start(ds, ds.len() as int) <= usize::MAX,
            cur_byte_offset == data_start(ds, i as int),
            json_members(header_map) == with_tensors(base, ds, i as int),
        decreases ds.len() - i,
    {
        let desc = &descriptors[i];
        proof {
            assert(ds[i as int] == desc@);
            lemma_data_start_grows(ds, i + 1, ds.len() as int);
        }
        let end_offset: usize = cur_byte_offset + desc.data.len();
        let value = tensor_entry_value(desc, cur_byte_offset, end_offset);
        insert_member(&mut header_map, desc.name.clone(), value);
        cur_byte_offset = end_offset;
        i += 1;
    }
    let ghost members = with_tensors(base, ds, ds.len() as int);
    let json_str = match pretty_text(&header_map) {
        Ok(text) => text,
        Err(text) => {
            return Err(Error::SerdeJSON(text));
        },
    };
    proof {
        lemma_header_is_simple(base, ds, ds.len() as int);
    }

    // Pad to 8-byte alignment so tensor data is aligned relative to file start
    let mut header: Vec<u8> = json_str.as_str().as_bytes_vec();
    let remainder: usize = header.len() % 8;
    let ghost text = header@;
    if remainder != 0 {
        let mut missing: usize = 8 - remainder;
        while missing > 0
            invariant
                remainder == text.len() % 8,
                0 < remainder < 8,
                missing <= 8 - remainder,
                header@ == text + spaces((8 - remainder - missing) as nat),
            decreases missing,
        {
            header.push(0x20);
            missing -= 1;
            assert(header@ =~= text + spaces((8 - remainder - missing) as nat));
        }
    } else {
        assert(text + spaces(0) =~= text);
    }
    assert(header@ == padded_json(members));

    // [8-byte LE header size] [JSON header] [tensor data...]
    let mut image: Vec<u8> = u64_to_le_bytes(header.len() as u64);
    image.append(&mut header);
    let ghost front = image@;
    let mut k: usize = 0;
    assert(front + payload(ds, 0) =~= front);
    while k < descriptors.len()
        invariant
            k <= ds.len(),
            ds == descriptor_views(descriptors@),
            image@ == front + payload(ds, k as int),
        decreases ds.len() - k,
    {
        assert(ds[k as int] == descriptors[k as int]@);
        image.extend_from_slice(descriptors[k].data.as_slice());
        k += 1;
        assert(image@ =~= front + payload(ds, k as int));
    }
    assert(image.len() == framed(padded_json(members), ds).len());
    Ok(image)
}

/// Why a file is refused before its header is read: it ends too early, or the length of the header
/// is no address.
pub open spec fn frame_refusal(image: Seq<u8>) -> Option<ErrorView> {
    if image.len() < 8 {
        Some(ErrorView::IOError(IoFault::UnexpectedEof))
    } else if spec_u64_from_le_bytes(image.take(8)) > usize::MAX {
        Some(ErrorView::IntConversion)
    } else if 8 + spec_u64_from_le_bytes(image.take(8)) > image.len() {
        Some(ErrorView::IOError(IoFault::UnexpectedEof))
    } else {
        None
    }
}

/// Where the data of the tensors of a file starts.
pub open spec fn payload_base(image: Seq<u8>) -> int {
    8 + spec_u64_from_le_bytes(image.take(8))
}

/// The header of a file.
pub open spec fn header_bytes(image: Seq<u8>) -> Seq<u8> {
    image.subrange(8, payload_base(image))
}

/// The member of an object, `null` where it is missing.
pub open spec fn member_or_null(m: Map<Seq<char>, JsonTree>, name: Seq<char>) -> JsonTree {
    if m.contains_key(name) {
        m[name]
    } else {
        JsonTree::Null
    }
}

/// What the header's entry for a tensor says, `None` where it is malformed. The data type, the shape
/// and the offsets are members of an object, or the three items of an array.
pub open spec fn read_entry(entry: JsonTree) -> Option<EntryView> {
    match entry {
        JsonTree::Obj(m) => entry_of(
            JsonTree::Arr(
                seq![
                    member_or_null(m, "dtype"@),
                    member_or_null(m, "shape"@),
                    member_or_null(m, "data_offsets"@),
                ],
            ),
        ),
        _ => entry_of(entry),
    }
}

/// The data type is one that the network supports.
pub open spec fn known_dtype(dtype: Seq<char>) -> bool {
    dtype == "F32"@ || dtype == "F16"@
}

/// The offsets of a tensor do not run backwards, and its data does not start past the largest
/// address.
pub open spec fn offsets_in_order(e: EntryView, base: int) -> bool {
    e.start <= e.end && base + e.start <= usize::MAX
}

/// Why a tensor of a file is refused: its entry is malformed, its data type is not supported, its
/// offsets are out of order, or the file ends before its data does.
pub open spec fn tensor_refusal(
    name: Seq<char>,
    entry: JsonTree,
    image: Seq<u8>,
    base: int,
) -> Option<ErrorView> {
    match read_entry(entry) {
        None => Some(ErrorView::SerdeJSON),
        Some(e) => if !known_dtype(e.dtype) {
            Some(ErrorView::UnrecognizedTensorKey { key: name, dtype: debug_text(e.dtype) })
        } else if !offsets_in_order(e, base) {
            Some(ErrorView::SerdeJSON)
        } else if e.start < e.end && base + e.end > image.len() {
            Some(ErrorView::IOError(IoFault::UnexpectedEof))
        } else {
            None
        },
    }
}

/// A tensor of a file.
pub open spec fn tensor_read(name: Seq<char>, entry: JsonTree, image: Seq<u8>, base: int)
    -> DescriptorView {
    let e = read_entry(entry)->0;
    DescriptorView {
        name,
        shape: e.shape,
        data: if e.start < e.end {
            image.subrange(base + e.start, base + e.end)
        } else {
            seq![]
        },
        precision: if e.dtype == "F16"@ {
            Precision::FP16
        } else {
            Precision::FP32
        },
    }
}

/// Why a list of the header's members is refused: the first tensor that is.
pub open spec fn list_refusal(list: Seq<(String, Value)>, image: Seq<u8>, base: int) -> Option<
    ErrorView,
>
    decreases list.len(),
{
    if list.len() == 0 {
        None
    } else {
        let before = list_refusal(list.drop_last(), image, base);
        if before is Some || list.last().0@ == metadata_name() {
            before
        } else {
            tensor_refusal(list.last().0@, json_tree(list.last().1), image, base)
        }
    }
}

/// The tensors of a list of the header's members, in its order.
pub open spec fn list_tensors(list: Seq<(String, Value)>, image: Seq<u8>, base: int) -> Seq<
    DescriptorView,
>
    decreases list.len(),
{
    if list.len() == 0 {
        seq![]
    } else {
        let before = list_tensors(list.drop_last(), image, base);
        if list.last().0@ == metadata_name() {
            before
        } else {
            before.push(tensor_read(list.last().0@, json_tree(list.last().1), image, base))
        }
    }
}

/// The text of a value of the metadata: a text as it is, anything else as JSON.
pub open spec fn metadata_text(value: JsonTree) -> Seq<char> {
    match value {
        JsonTree::Str(s) => s,
        _ => compact_json(value),
    }
}

/// Entries hold the texts of the members of an object, in the order of their names.
pub open spec fn holds_texts(
    entries: Seq<(Seq<char>, Seq<char>)>,
    members: Map<Seq<char>, JsonTree>,
) -> bool {
    &&& forall|i: int, j: int|
        0 <= i < j < entries.len() ==> precedes((#[trigger] entries[i]).0, (#[trigger] entries[j]).0)
    &&& forall|i: int|
        0 <= i < entries.len() ==> members.contains_key((#[trigger] entries[i]).0) && entries[i].1
            == metadata_text(members[entries[i].0])
    &&& forall|k: Seq<char>|
        members.contains_key(k) ==> exists|i: int|
            0 <= i < entries.len() && (#[trigger] entries[i]).0 == k
}

/// Entries are the metadata of a header: the texts of its metadata object, and none where it has no
/// such object.
pub open spec fn is_metadata_of(
    entries: Seq<(Seq<char>, Seq<char>)>,
    members: Map<Seq<char>, JsonTree>,
) -> bool {
    if members.contains_key(metadata_name()) && members[metadata_name()] is Obj {
        holds_texts(entries, members[metadata_name()]->Obj_0)
    } else {
        entries.len() == 0
    }
}

/// What reading a file gives. The members of the header are taken in an order that is not stated:
/// the first tensor that is refused is the reason for the refusal of the file, and otherwise the
/// tensors come in that order.
pub open spec fn is_reading_of(r: Result<SafetensorWriter, Error>, image: Seq<u8>) -> bool {
    if frame_refusal(image) is Some {
        refusal(r) == frame_refusal(image)
    } else if json_object(header_bytes(image)) is None {
        refusal(r) == Some(ErrorView::SerdeJSON)
    } else {
        let members = json_object(header_bytes(image))->0;
        let base = payload_base(image);
        exists|list: Seq<(String, Value)>|
            {
                &&& #[trigger] lists_members(list, members)
                &&& refusal(r) == list_refusal(list, image, base)
                &&& r matches Ok(w) ==> {
                    &&& w@.descriptors == list_tensors(list, image, base)
                    &&& is_metadata_of(w@.metadata, members)
                }
            }
    }
}

/// What the header's entry for a tensor says.
fn read_entry_value(value: &Value) -> (r: Result<(String, Vec<usize>, [usize; 2]), String>)
    ensures
        r is Ok <==> read_entry(json_tree(*value)) is Some,
        r matches Ok((dtype, shape, offsets)) ==> read_entry(json_tree(*value)) == Some(
            EntryView {
                dtype: dtype@,
                shape: shape@,
                start: offsets@[0],
                end: offsets@[1],
            },
        ),
{
    if is_object(value) {
        let fields: Vec<Value> = vec![
            member_value(value, "dtype"),
            member_value(value, "shape"),
            member_value(value, "data_offsets"),
        ];
        let array = array_value(fields);
        proof {
            let m = json_tree(*value)->Obj_0;
            assert(json_tree(array)->Arr_0 =~= seq![
                member_or_null(m, "dtype"@),
                member_or_null(m, "shape"@),
                member_or_null(m, "data_offsets"@),
            ]);
        }
        parse_entry(&array)
    } else {
        parse_entry(value)
    }
}

/// The member of an object, `null` where it is missing.
fn member_value(value: &Value, name: &str) -> (r: Value)
    requires
        json_tree(*value) is Obj,
    ensures
        json_tree(r) == member_or_null(json_tree(*value)->Obj_0, name@),
{
    match object_member(value, name) {
        Some(v) => v,
        None => null_value(),
    }
}

/// Reads a tensor of a file.
fn read_tensor(name: String, value: &Value, image: &[u8], base: usize) -> (r: Result<
    SafetensorDescriptor,
    Error,
>)
    ensures
        refusal(r) == tensor_refusal(name@, json_tree(*value), image@, base as int),
        r matches Ok(d) ==> d@ == tensor_read(name@, json_tree(*value), image@, base as int),
{
    let (dtype, shape, offsets) = match read_entry_value(value) {
        Ok(entry) => entry,
        Err(text) => {
            return Err(Error::SerdeJSON(text));
        },
    };
    let is_half = dtype == "F16".to_owned();
    if !is_half && dtype != "F32".to_owned() {
        return Err(
            Error::UnrecognizedTensorKey { key: name, dtype: quoted(dtype.as_str()) },
        );
    }
    if offsets[0] > offsets[1] || base > usize::MAX - offsets[0] {
        return Err(
            Error::SerdeJSON("the data offsets of a tensor are out of order".to_owned()),
        );
    }
    let start: usize = base + offsets[0];
    let byte_len: usize = offsets[1] - offsets[0];
    let mut data: Vec<u8> = Vec::new();
    if byte_len > 0 {
        if start > image.len() || byte_len > image.len() - start {
            return Err(Error::IOError(IoFault::UnexpectedEof));
        }
        data = slice_to_vec(slice_subrange(image, start, start + byte_len));
        assert(data@ =~= image@.subrange(start as int, start + byte_len));
    }
    let precision = if is_half {
        Precision::FP16
    } else {
        proof {
            reveal_strlit("F32");
            reveal_strlit("F16");
            assert("F32"@[1] == '3' && "F16"@[1] == '1');
        }
        Precision::FP32
    };
    Ok(SafetensorDescriptor { name, shape, data, precision })
}

/// Reads the metadata of a file.
fn read_metadata(value: &Value) -> (r: IndexMap<String, String>)
    ensures
        json_tree(*value) is Obj ==> holds_texts(map_entries(r), json_tree(*value)->Obj_0),
        json_tree(*value) !is Obj ==> map_entries(r).len() == 0,
{
    let mut metadata = new_map();
    if let Some(list) = object_members(value) {
        let ghost members = json_tree(*value)->Obj_0;
        let mut i: usize = 0;
        while i < list.len()
            invariant
                i <= list@.len(),
                lists_members(list@, members),
                forall|i: int, j: int|
                    0 <= i < j < list@.len() ==> precedes(
                        (#[trigger] list@[i]).0@,
                        (#[trigger] list@[j]).0@,
                    ),
                map_entries(metadata).len() == i,
                forall|j: int|
                    0 <= j < i ==> (#[trigger] map_entries(metadata)[j]).0 == list@[j].0@
                        && map_entries(metadata)[j].1 == metadata_text(json_tree(list@[j].1)),
            decreases list@.len() - i,
        {
            let ghost before = map_entries(metadata);
            let (key, item) = &list[i];
            let text: String = match value_text(item) {
                Some(s) => s,
                None => compact_text(item),
            };
            insert_entry(&mut metadata, key.clone(), text);
            proof {
                assert forall|j: int| 0 <= j < before.len() implies (#[trigger] before[j]).0
                    != key@ by {
                    assert(list@[j].0@ != list@[i as int].0@);
                }
                assert(map_entries(metadata) == before.push((key@, text@)));
            }
            i += 1;
        }
        proof {
            let entries = map_entries(metadata);
            assert forall|a: int, b: int| 0 <= a < b < entries.len() implies precedes(
                (#[trigger] entries[a]).0,
                (#[trigger] entries[b]).0,
            ) by {
                assert(precedes(list@[a].0@, list@[b].0@));
            }
            assert forall|k: Seq<char>| members.contains_key(k) implies exists|a: int|
                0 <= a < entries.len() && (#[trigger] entries[a]).0 == k by {
                let a = choose|a: int| 0 <= a < list@.len() && (#[trigger] list@[a]).0@ == k;
                assert(entries[a].0 == k);
            }
        }
    }
    metadata
}

impl SafetensorWriter {
    /// Puts a file together from the members of its header.
    ///
    /// # Arguments
    /// * `members` - The members of the header, each name once.
    /// * `image` - The bytes of the file.
    /// * `base` - Where the data of the tensors starts.
    ///
    /// # Errors
    /// Returns an [`Error`] if:
    /// * [`Error::SerdeJSON`] - An entry is malformed, or the offsets of a tensor run backwards or
    ///   past the largest address.
    /// * [`Error::UnrecognizedTensorKey`] - A tensor specifies an unsupported data type (only `"F32"`
    ///   and `"F16"` are supported).
    /// * [`Error::IOError`] - The file ends before the data of a tensor does.
    pub fn from_members(members: Vec<(String, Value)>, image: &[u8], base: usize) -> (r: Result<
        Self,
        Error,
    >)
        requires
            forall|i: int, j: int|
                0 <= i < j < members@.len() ==> (#[trigger] members@[i]).0@ != (
                #[trigger] members@[j]).0@,
        ensures
            refusal(r) == list_refusal(members@, image@, base as int),
            r matches Ok(w) ==> {
                &&& w@.descriptors == list_tensors(members@, image@, base as int)
                &&& forall|i: int|
                    0 <= i < members@.len() && (#[trigger] members@[i]).0@ == metadata_name()
                        && json_tree(members@[i].1) is Obj ==> holds_texts(
                        w@.metadata,
                        json_tree(members@[i].1)->Obj_0,
                    )
                &&& (forall|i: int|
                    0 <= i < members@.len() ==> (#[trigger] members@[i]).0@ != metadata_name()
                        || json_tree(members@[i].1) !is Obj) ==> w@.metadata.len() == 0
            },
    {
        let mut tensors: Vec<SafetensorDescriptor> = Vec::new();
        let mut metadata = new_map();
        let mut i: usize = 0;
        while i < members.len()
            invariant
                i <= members@.len(),
                forall|i: int, j: int|
                    0 <= i < j < members@.len() ==> (#[trigger] members@[i]).0@ != (
                    #[trigger] members@[j]).0@,
                list_refusal(members@.take(i as int), image@, base as int) is None,
                descriptor_views(tensors@) == list_tensors(
                    members@.take(i as int),
                    image@,
                    base as int,
                ),
                forall|j: int|
                    0 <= j < i && (#[trigger] members@[j]).0@ == metadata_name() && json_tree(
                        members@[j].1,
                    ) is Obj ==> holds_texts(
                        map_entries(metadata),
                        json_tree(members@[j].1)->Obj_0,
                    ),
                (forall|j: int|
                    0 <= j < i ==> (#[trigger] members@[j]).0@ != metadata_name() || json_tree(
                        members@[j].1,
                    ) !is Obj) ==> map_entries(metadata).len() == 0,
            decreases members@.len() - i,
        {
            let (key, value) = &members[i];
            proof {
                assert(members@.take(i + 1).drop_last() == members@.take(i as int));
                assert(members@.take(i + 1).last() == members@[i as int]);
            }
            if *key == "__metadata__".to_owned() {
                metadata = read_metadata(value);
                proof {
                    assert(members@[i as int].0@ == metadata_name());
                    assert forall|j: int|
                        0 <= j < i + 1 && (#[trigger] members@[j]).0@
                            == metadata_name() implies j == i by {
                        if j < i {
                            assert(members@[j].0@ != members@[i as int].0@);
                        }
                    }
                }
            } else {
                match read_tensor(key.clone(), value, image, base) {
                    Ok(tensor) => {
                        let ghost before = tensors@;
                        tensors.push(tensor);
                        assert(descriptor_views(tensors@) == descriptor_views(before).push(tensor@));
                    },
                    Err(e) => {
                        proof {
                            lemma_list_stops(members@, image@, base as int, i + 1);
                        }
                        return Err(e);
                    },
                }
            }
            i += 1;
        }
        assert(members@.take(i as int) == members@);
        Ok(Self { descriptors: tensors, metadata })
    }

    /// Reads and parses the bytes of a Safetensors file, extracting tensor descriptors
    /// and metadata.
    ///
    /// This function parses the 8-byte little-endian header length, deserializes the JSON
    /// header, extracts optional `__metadata__` attributes, and reads the raw binary tensor
    /// payload into memory.
    ///
    /// # Arguments
    /// * `image` - The bytes of the file.
    ///
    /// # Errors
    /// Returns an [`Error`] if:
    /// * The file ends before its header or the data of a tensor does.
    /// * The 8-byte header size integer exceeds the address space of the target architecture
    ///   ([`usize`]).
    /// * The JSON header is malformed or cannot be parsed into valid tensor descriptors: an entry
    ///   lacks what describes a tensor, or its offsets run backwards or past the largest address.
    /// * A tensor specifies an unsupported data type (only `"F32"` and `"F16"` are supported).
    pub fn read(image: &[u8]) -> (r: Result<Self, Error>)
        ensures
            is_reading_of(r, image@),
    {
        let base: usize = match read_frame(image) {
            Ok(base) => base,
            Err(e) => {
                return Err(e);
            },
        };
        match parse_object(slice_subrange(image, 8, base)) {
            Ok(members) => {
                let ghost list = members@;
                let r = Self::from_members(members, image, base);
                proof {
                    let object = json_object(header_bytes(image@))->0;
                    assert(lists_members(list, object));
                    if object.contains_key(metadata_name()) {
                        let i = choose|i: int|
                            0 <= i < list.len() && (#[trigger] list[i]).0@ == metadata_name();
                        assert(list[i].0@ == metadata_name());
                    }
                }
                r
            },
            Err(text) => Err(Error::SerdeJSON(text)),
        }
    }
}

/// Where the data of the tensors of a file starts.
fn read_frame(image: &[u8]) -> (r: Result<usize, Error>)
    ensures
        refusal(r) == frame_refusal(image@),
        r matches Ok(base) ==> base == payload_base(image@) && 8 <= base <= image@.len(),
{
    // Read 8-byte little-endian header size prefix
    if image.len() < 8 {
        return Err(Error::IOError(IoFault::UnexpectedEof));
    }
    let prefix = slice_subrange(image, 0, 8);
    assert(prefix@ == image@.take(8));
    let header_size: usize = match usize::try_from(u64_from_le_bytes(prefix)) {
        Ok(n) => n,
        Err(_) => {
            return Err(Error::IntConversion);
        },
    };
    if header_size > image.len() - 8 {
        return Err(Error::IOError(IoFault::UnexpectedEof));
    }
    Ok(8 + header_size)
}

/// No member is looked at after a refusal.
proof fn lemma_list_stops(list: Seq<(String, Value)>, image: Seq<u8>, base: int, k: int)
    requires
        0 <= k <= list.len(),
        list_refusal(list.take(k), image, base) is Some,
    ensures
        list_refusal(list, image, base) == list_refusal(list.take(k), image, base),
    decreases list.len() - k,
{
    if k == list.len() {
        assert(list.take(k) == list);
    } else {
        assert(list.take(k + 1).drop_last() == list.take(k));
        lemma_list_stops(list, image, base, k + 1);
    }
}

/// No two tensors have the same name, and none has the name of the metadata's entry.
pub open spec fn distinct_names(ds: Seq<DescriptorView>) -> bool {
    &&& forall|i: int, j: int|
        0 <= i < j < ds.len() ==> (#[trigger] ds[i]).name != (#[trigger] ds[j]).name
    &&& forall|i: int| 0 <= i < ds.len() ==> (#[trigger] ds[i]).name != metadata_name()
}

/// Every reading of a file succeeds and gives the tensors and the metadata, the tensors in some
/// order.
pub open spec fn reads_back(image: Seq<u8>, v: WriterView) -> bool {
    forall|r: Result<SafetensorWriter, Error>| #[trigger]
        is_reading_of(r, image) ==> {
            &&& r is Ok
            &&& r->Ok_0@.descriptors.to_multiset() == v.descriptors.to_multiset()
            &&& entry_map(r->Ok_0@.metadata) == entry_map(v.metadata)
        }
}

/// What is written is read back: where the names of the tensors are distinct and the header is read
/// as it was written, every reading of a file gives the tensors and the metadata that it was made of.
pub proof fn law_file_is_read_back(v: WriterView)
    requires
        distinct_names(v.descriptors),
        file_image(v).len() <= usize::MAX,
        json_object(header_text(v)) == Some(header_members(v)),
    ensures
        reads_back(file_image(v), v),
{
    let ds = v.descriptors;
    let image = file_image(v);
    let members = header_members(v);
    let base = payload_base(image);
    lemma_frame(v);
    lemma_header_members(v, ds.len() as int);
    assert forall|r: Result<SafetensorWriter, Error>| #[trigger] is_reading_of(r, image) implies {
        &&& r is Ok
        &&& r->Ok_0@.descriptors.to_multiset() == ds.to_multiset()
        &&& entry_map(r->Ok_0@.metadata) == entry_map(v.metadata)
    } by {
        let list = choose|list: Seq<(String, Value)>|
            {
                &&& #[trigger] lists_members(list, members)
                &&& refusal(r) == list_refusal(list, image, base)
                &&& r matches Ok(w) ==> {
                    &&& w@.descriptors == list_tensors(list, image, base)
                    &&& is_metadata_of(w@.metadata, members)
                }
            };
        lemma_list_is_read_back(v, list);
        lemma_metadata_is_read_back(r->Ok_0@.metadata, v, members);
    }
}

/// The header of a file is found again.
proof fn lemma_frame(v: WriterView)
    requires
        file_image(v).len() <= usize::MAX,
    ensures
        frame_refusal(file_image(v)) is None,
        header_bytes(file_image(v)) == header_text(v),
        payload_base(file_image(v)) == 8 + header_text(v).len(),
{
    lemma_auto_spec_u64_to_from_le_bytes();
    law_data_is_aligned(v);
    let image = file_image(v);
    assert(image.take(8) == spec_u64_to_le_bytes(header_text(v).len() as u64));
    assert(header_bytes(image) == header_text(v));
}

/// A tensor of a file is found again by its entry.
proof fn lemma_tensor_is_read_back(v: WriterView, i: int)
    requires
        file_image(v).len() <= usize::MAX,
        0 <= i < v.descriptors.len(),
    ensures
        ({
            let d = v.descriptors[i];
            let entry = tensor_entry(d, data_start(v.descriptors, i));
            let base = payload_base(file_image(v));
            &&& tensor_refusal(d.name, entry, file_image(v), base) is None
            &&& d == tensor_read(d.name, entry, file_image(v), base)
        }),
{
    let ds = v.descriptors;
    let image = file_image(v);
    let base = payload_base(image);
    let a = data_start(ds, i) as int;
    let b = (data_start(ds, i) + ds[i].data.len()) as int;
    lemma_frame(v);
    law_data_is_aligned(v);
    lemma_auto_spec_u64_to_from_le_bytes();
    lemma_payload(ds, ds.len() as int, i);
    lemma_entry_is_read_back(ds[i], data_start(ds, i));
    assert(payload(ds, ds.len() as int).subrange(a, b) == ds[i].data);
    assert(image.subrange(base + a, base + b) =~= payload(ds, ds.len() as int).subrange(a, b));
    if ds[i].data.len() == 0 {
        assert(ds[i].data =~= seq![]);
    }
}

/// The member of a list is the entry of a tensor.
spec fn is_entry_of(member: (String, Value), ds: Seq<DescriptorView>, k: int) -> bool {
    &&& 0 <= k < ds.len()
    &&& ds[k].name == member.0@
    &&& json_tree(member.1) == tensor_entry(ds[k], data_start(ds, k))
}

/// A list holds the entry of a tensor.
spec fn has_entry(list: Seq<(String, Value)>, ds: Seq<DescriptorView>, k: int) -> bool {
    exists|i: int| 0 <= i < list.len() && #[trigger] is_entry_of(list[i], ds, k)
}

/// A list of the header's members holds the entry of each tensor, and of nothing else but the
/// metadata.
proof fn lemma_list_sources(v: WriterView, list: Seq<(String, Value)>)
    requires
        distinct_names(v.descriptors),
        lists_members(list, header_members(v)),
    ensures
        forall|i: int|
            0 <= i < list.len() && (#[trigger] list[i]).0@ != metadata_name() ==> exists|k: int|
                #[trigger] is_entry_of(list[i], v.descriptors, k),
        forall|k: int|
            0 <= k < v.descriptors.len() ==> #[trigger] has_entry(list, v.descriptors, k),
{
    let ds = v.descriptors;
    let n = ds.len() as int;
    let members = header_members(v);
    lemma_header_members(v, n);
    assert forall|i: int|
        0 <= i < list.len() && (#[trigger] list[i]).0@ != metadata_name() implies exists|k: int|
        #[trigger] is_entry_of(list[i], ds, k) by {
        let k = choose|k: int| 0 <= k < n && (#[trigger] ds[k]).name == list[i].0@;
        assert(members[ds[k].name] == tensor_entry(ds[k], data_start(ds, k)));
        assert(is_entry_of(list[i], ds, k));
    }
    assert forall|k: int| 0 <= k < n implies #[trigger] has_entry(list, ds, k) by {
        assert(members.contains_key(ds[k].name));
        let i = choose|i: int| 0 <= i < list.len() && (#[trigger] list[i]).0@ == ds[k].name;
        assert(is_entry_of(list[i], ds, k));
    }
}

/// The tensors of a file are found again in any list of the header's members.
proof fn lemma_list_is_read_back(v: WriterView, list: Seq<(String, Value)>)
    requires
        distinct_names(v.descriptors),
        file_image(v).len() <= usize::MAX,
        lists_members(list, header_members(v)),
    ensures
        ({
            let base = payload_base(file_image(v));
            &&& list_refusal(list, file_image(v), base) is None
            &&& list_tensors(list, file_image(v), base).to_multiset()
                == v.descriptors.to_multiset()
        }),
{
    let ds = v.descriptors;
    let n = ds.len() as int;
    let image = file_image(v);
    let base = payload_base(image);
    lemma_list_sources(v, list);
    assert forall|i: int|
        0 <= i < list.len() && (#[trigger] list[i]).0@ != metadata_name() implies tensor_refusal(
        list[i].0@,
        json_tree(list[i].1),
        image,
        base,
    ) is None by {
        let k = choose|k: int| #[trigger] is_entry_of(list[i], ds, k);
        lemma_tensor_is_read_back(v, k);
    }
    lemma_list_is_accepted(list, image, base);
    lemma_list_tensors(list, image, base);
    let ts = list_tensors(list, image, base);
    assert forall|d: DescriptorView| ts.contains(d) implies ds.contains(d) by {
        let i = choose|i: int|
            0 <= i < list.len() && (#[trigger] list[i]).0@ != metadata_name() && d == tensor_read(
                list[i].0@,
                json_tree(list[i].1),
                image,
                base,
            );
        let k = choose|k: int| #[trigger] is_entry_of(list[i], ds, k);
        lemma_tensor_is_read_back(v, k);
        assert(ds[k] == d);
    }
    assert forall|d: DescriptorView| ds.contains(d) implies ts.contains(d) by {
        let k = choose|k: int| 0 <= k < n && ds[k] == d;
        lemma_tensor_is_read_back(v, k);
        assert(has_entry(list, ds, k));
        let i = choose|i: int| 0 <= i < list.len() && #[trigger] is_entry_of(list[i], ds, k);
        assert(list[i].0@ != metadata_name());
    }
    lemma_same_items(ts, ds);
}

/// The entry that is written for a tensor says what the tensor is.
proof fn lemma_entry_is_read_back(d: DescriptorView, start: nat)
    requires
        start + d.data.len() <= usize::MAX,
    ensures
        read_entry(tensor_entry(d, start)) == Some(
            EntryView {
                dtype: dtype_name(d.precision),
                shape: d.shape,
                start: start as usize,
                end: (start + d.data.len()) as usize,
            },
        ),
        "F16"@ != "F32"@,
{
    reveal_strlit("dtype");
    reveal_strlit("shape");
    reveal_strlit("data_offsets");
    reveal_strlit("F16");
    reveal_strlit("F32");
    assert("F16"@[1] == '1' && "F32"@[1] == '3');
    assert("dtype"@[0] == 'd' && "shape"@[0] == 's');
    assert("dtype"@.len() == 5 && "shape"@.len() == 5 && "data_offsets"@.len() == 12);
    let m = tensor_entry(d, start)->Obj_0;
    let offsets = seq![start as usize, (start + d.data.len()) as usize];
    assert(m["dtype"@] == JsonTree::Str(dtype_name(d.precision)));
    assert(m["shape"@] == size_array(d.shape));
    assert(m["data_offsets"@] == size_array(offsets));
    assert(sizes_of(size_array(d.shape)) =~= d.shape);
    assert(sizes_of(size_array(offsets)) =~= offsets);
    assert(is_sizes(size_array(d.shape)));
    assert(is_sizes(size_array(offsets)));
}

/// The header describes each tensor, and nothing but the tensors and the metadata.
proof fn lemma_header_members(v: WriterView, k: int)
    requires
        0 <= k <= v.descriptors.len(),
        distinct_names(v.descriptors),
    ensures
        ({
            let ds = v.descriptors;
            let members = with_tensors(metadata_members(v.metadata), ds, k);
            &&& forall|i: int|
                0 <= i < k ==> members.contains_key((#[trigger] ds[i]).name)
                    && members[ds[i].name] == tensor_entry(ds[i], data_start(ds, i))
            &&& forall|name: Seq<char>|
                #![trigger members.contains_key(name)]
                members.contains_key(name) && name != metadata_name() ==> exists|i: int|
                    0 <= i < k && (#[trigger] ds[i]).name == name
            &&& members.contains_key(metadata_name()) <==> v.metadata.len() > 0
            &&& v.metadata.len() > 0 ==> members[metadata_name()] == text_object(
                entry_map(v.metadata),
            )
        }),
    decreases k,
{
    if k > 0 {
        lemma_header_members(v, k - 1);
        let ds = v.descriptors;
        let before = with_tensors(metadata_members(v.metadata), ds, k - 1);
        let members = with_tensors(metadata_members(v.metadata), ds, k);
        assert(ds[k - 1].name != metadata_name());
        assert forall|name: Seq<char>|
            members.contains_key(name) && name != metadata_name() implies exists|i: int|
            0 <= i < k && (#[trigger] ds[i]).name == name by {
            if name == ds[k - 1].name {
            } else {
                assert(before.contains_key(name));
                let i = choose|i: int| 0 <= i < k - 1 && (#[trigger] ds[i]).name == name;
                assert(ds[i].name == name);
            }
        }
    }
}

/// A list of members of which none is refused is accepted.
proof fn lemma_list_is_accepted(list: Seq<(String, Value)>, image: Seq<u8>, base: int)
    requires
        forall|i: int|
            0 <= i < list.len() && (#[trigger] list[i]).0@ != metadata_name() ==> tensor_refusal(
                list[i].0@,
                json_tree(list[i].1),
                image,
                base,
            ) is None,
    ensures
        list_refusal(list, image, base) is None,
    decreases list.len(),
{
    if list.len() > 0 {
        let before = list.drop_last();
        assert forall|i: int|
            0 <= i < before.len() && (#[trigger] before[i]).0@
                != metadata_name() implies tensor_refusal(
            before[i].0@,
            json_tree(before[i].1),
            image,
            base,
        ) is None by {
            assert(before[i] == list[i]);
        }
        lemma_list_is_accepted(before, image, base);
        assert(list.last() == list[list.len() - 1]);
    }
}

/// The tensors of a list are what its members describe, each once.
proof fn lemma_list_tensors(list: Seq<(String, Value)>, image: Seq<u8>, base: int)
    requires
        forall|i: int, j: int|
            0 <= i < j < list.len() ==> (#[trigger] list[i]).0@ != (#[trigger] list[j]).0@,
    ensures
        forall|i: int|
            0 <= i < list.len() && (#[trigger] list[i]).0@ != metadata_name() ==> list_tensors(
                list,
                image,
                base,
            ).contains(tensor_read(list[i].0@, json_tree(list[i].1), image, base)),
        forall|d: DescriptorView|
            list_tensors(list, image, base).contains(d) ==> exists|i: int|
                0 <= i < list.len() && (#[trigger] list[i]).0@ != metadata_name() && d
                    == tensor_read(list[i].0@, json_tree(list[i].1), image, base),
        list_tensors(list, image, base).no_duplicates(),
    decreases list.len(),
{
    if list.len() > 0 {
        let before = list.drop_last();
        let last = list.last();
        let ts = list_tensors(list, image, base);
        let ts_before = list_tensors(before, image, base);
        assert forall|i: int, j: int| 0 <= i < j < before.len() implies (#[trigger] before[i]).0@
            != (#[trigger] before[j]).0@ by {
            assert(list[i].0@ != list[j].0@);
        }
        lemma_list_tensors(before, image, base);
        assert forall|i: int|
            0 <= i < list.len() && (#[trigger] list[i]).0@ != metadata_name() implies ts.contains(
            tensor_read(list[i].0@, json_tree(list[i].1), image, base),
        ) by {
            let d = tensor_read(list[i].0@, json_tree(list[i].1), image, base);
            if i < before.len() {
                assert(before[i] == list[i]);
                let k = choose|k: int| 0 <= k < ts_before.len() && ts_before[k] == d;
                assert(ts[k] == d);
            } else {
                assert(ts[ts.len() - 1] == d);
            }
        }
        assert forall|d: DescriptorView| ts.contains(d) implies exists|i: int|
            0 <= i < list.len() && (#[trigger] list[i]).0@ != metadata_name() && d == tensor_read(
                list[i].0@,
                json_tree(list[i].1),
                image,
                base,
            ) by {
            let k = choose|k: int| 0 <= k < ts.len() && ts[k] == d;
            if k < ts_before.len() {
                assert(ts_before[k] == d);
                assert(ts_before.contains(d));
                let i = choose|i: int|
                    0 <= i < before.len() && (#[trigger] before[i]).0@ != metadata_name() && d
                        == tensor_read(before[i].0@, json_tree(before[i].1), image, base);
                assert(list[i] == before[i]);
            } else {
                assert(list[list.len() - 1] == last);
            }
        }
        if last.0@ != metadata_name() {
            let d = tensor_read(last.0@, json_tree(last.1), image, base);
            assert forall|k: int| 0 <= k < ts_before.len() implies ts_before[k] != d by {
                assert(ts_before.contains(ts_before[k]));
                let i = choose|i: int|
                    0 <= i < before.len() && (#[trigger] before[i]).0@ != metadata_name()
                        && ts_before[k] == tensor_read(
                        before[i].0@,
                        json_tree(before[i].1),
                        image,
                        base,
                    );
                assert(list[i].0@ != list[list.len() - 1].0@);
            }
        }
    }
}

/// Two lists without duplicates that hold the same items are permutations of each other.
proof fn lemma_same_items(a: Seq<DescriptorView>, b: Seq<DescriptorView>)
    requires
        a.no_duplicates(),
        b.no_duplicates(),
        forall|d: DescriptorView| a.contains(d) <==> b.contains(d),
    ensures
        a.to_multiset() == b.to_multiset(),
{
    a.lemma_multiset_has_no_duplicates();
    b.lemma_multiset_has_no_duplicates();
    a.to_multiset_ensures();
    b.to_multiset_ensures();
    assert forall|d: DescriptorView| a.to_multiset().count(d) == b.to_multiset().count(d) by {
        assert(a.contains(d) <==> b.contains(d));
    }
    assert(a.to_multiset() =~= b.to_multiset());
}

/// Entries whose values follow from their keys, as a map.
proof fn lemma_entry_map(
    entries: Seq<(Seq<char>, Seq<char>)>,
    members: Map<Seq<char>, JsonTree>,
    key: Seq<char>,
)
    requires
        forall|i: int|
            0 <= i < entries.len() ==> (#[trigger] entries[i]).1 == metadata_text(
                members[entries[i].0],
            ),
    ensures
        entry_map(entries).contains_key(key) <==> exists|i: int|
            0 <= i < entries.len() && (#[trigger] entries[i]).0 == key,
        entry_map(entries).contains_key(key) ==> entry_map(entries)[key] == metadata_text(
            members[key],
        ),
    decreases entries.len(),
{
    if entries.len() > 0 {
        let before = entries.drop_last();
        assert forall|i: int| 0 <= i < before.len() implies (#[trigger] before[i]).1
            == metadata_text(members[before[i].0]) by {
            assert(before[i] == entries[i]);
        }
        lemma_entry_map(before, members, key);
        assert(entries.last() == entries[entries.len() - 1]);
        if exists|i: int| 0 <= i < before.len() && (#[trigger] before[i]).0 == key {
            let i = choose|i: int| 0 <= i < before.len() && (#[trigger] before[i]).0 == key;
            assert(entries[i].0 == key);
        }
        if exists|i: int| 0 <= i < entries.len() && (#[trigger] entries[i]).0 == key {
            let i = choose|i: int| 0 <= i < entries.len() && (#[trigger] entries[i]).0 == key;
            if i < before.len() {
                assert(before[i].0 == key);
            }
        }
    }
}

/// The metadata of a header is what was written.
proof fn lemma_metadata_is_read_back(
    entries: Seq<(Seq<char>, Seq<char>)>,
    v: WriterView,
    members: Map<Seq<char>, JsonTree>,
)
    requires
        is_metadata_of(entries, members),
        members.contains_key(metadata_name()) <==> v.metadata.len() > 0,
        v.metadata.len() > 0 ==> members[metadata_name()] == text_object(entry_map(v.metadata)),
    ensures
        entry_map(entries) == entry_map(v.metadata),
{
    if v.metadata.len() > 0 {
        let texts = members[metadata_name()]->Obj_0;
        let written = entry_map(v.metadata);
        assert forall|k: Seq<char>|
            entry_map(entries).dom().contains(k) <==> written.dom().contains(k) by {
            lemma_entry_map(entries, texts, k);
            if written.contains_key(k) {
                assert(texts.contains_key(k));
            }
            if entry_map(entries).contains_key(k) {
                let i = choose|i: int| 0 <= i < entries.len() && (#[trigger] entries[i]).0 == k;
                assert(texts.contains_key(entries[i].0));
            }
        }
        assert forall|k: Seq<char>| written.dom().contains(k) implies #[trigger] entry_map(
            entries,
        )[k] == written[k] by {
            lemma_entry_map(entries, texts, k);
            assert(texts.contains_key(k));
        }
        assert(entry_map(entries).dom() =~= written.dom());
        assert(entry_map(entries) =~= written);
    } else {
        assert(entries =~= v.metadata);
    }
}

} // verus!
