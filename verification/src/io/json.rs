//! JSON values, by way of `serde_json`, and ordered maps of text, by way of `indexmap`.
//!
//! A [`JsonTree`] says what a JSON value is. The functions below are the few steps that the library
//! takes on values of the two crates; each of them states what its step does to the trees.

use std::collections::HashMap;

use indexmap::IndexMap;
use serde_json::Value;
use vstd::prelude::*;
use vstd::utf8::*;

verus! {

/// `serde_json`'s JSON value.
#[verifier::external_type_specification]
#[verifier::external_body]
pub struct ExValue(serde_json::Value);

/// `serde_json`'s map of the members of a JSON object.
#[verifier::external_type_specification]
#[verifier::external_body]
#[verifier::reject_recursive_types(K)]
#[verifier::reject_recursive_types(V)]
pub struct ExJsonMap<K, V>(serde_json::Map<K, V>);

/// `indexmap`'s map, which keeps its entries in the order in which their keys came.
#[verifier::external_type_specification]
#[verifier::external_body]
#[verifier::reject_recursive_types(K)]
#[verifier::reject_recursive_types(V)]
#[verifier::reject_recursive_types(S)]
pub struct ExIndexMap<K, V, S>(indexmap::IndexMap<K, V, S>);

/// What a JSON value is.
pub enum JsonTree {
    /// `null`
    Null,
    /// A text.
    Str(Seq<char>),
    /// An integer that is not negative and was written without a fraction or an exponent.
    UInt(nat),
    /// An array.
    Arr(Seq<JsonTree>),
    /// An object.
    Obj(Map<Seq<char>, JsonTree>),
    /// `true`, `false` or any other number, by its text.
    Other(Seq<char>),
}

/// What a `serde_json::Value` holds.
pub uninterp spec fn json_tree(v: serde_json::Value) -> JsonTree;

/// What a `serde_json::Map` holds.
pub uninterp spec fn json_members(m: serde_json::Map<String, serde_json::Value>) -> Map<
    Seq<char>,
    JsonTree,
>;

/// The entries of an `indexmap::IndexMap`, in its order.
pub uninterp spec fn map_entries(m: indexmap::IndexMap<String, String>) -> Seq<
    (Seq<char>, Seq<char>),
>;

/// What `serde_json::from_slice` makes of bytes where an object is asked for, `None` where it
/// refuses them.
pub uninterp spec fn json_object(bytes: Seq<u8>) -> Option<Map<Seq<char>, JsonTree>>;

/// The text that `serde_json::to_string_pretty` gives an object.
pub uninterp spec fn pretty_json(members: Map<Seq<char>, JsonTree>) -> Seq<char>;

/// The text that the `Display` of `serde_json::Value` gives a value.
pub uninterp spec fn compact_json(tree: JsonTree) -> Seq<char>;

/// The text that the `Debug` of `str` gives a text: in quotes, with escapes.
pub uninterp spec fn debug_text(s: Seq<char>) -> Seq<char>;

/// The trees of values.
pub open spec fn json_trees(vs: Seq<serde_json::Value>) -> Seq<JsonTree> {
    vs.map_values(|v: serde_json::Value| json_tree(v))
}

/// A tree of texts and integers, at most `depth` arrays and objects deep.
pub open spec fn simple(t: JsonTree, depth: nat) -> bool
    decreases depth,
{
    match t {
        JsonTree::Str(_) => true,
        JsonTree::UInt(n) => n <= u64::MAX,
        JsonTree::Arr(items) => depth > 0 && forall|i: int|
            0 <= i < items.len() ==> simple(#[trigger] items[i], (depth - 1) as nat),
        JsonTree::Obj(m) => depth > 0 && forall|k: Seq<char>|
            m.contains_key(k) ==> simple(#[trigger] m[k], (depth - 1) as nat),
        _ => false,
    }
}

/// Every member of an object is a tree of texts and integers, at most two arrays and objects deep.
pub open spec fn simple_members(m: Map<Seq<char>, JsonTree>) -> bool {
    forall|k: Seq<char>| m.contains_key(k) ==> simple(#[trigger] m[k], 2)
}

/// A run of spaces.
pub open spec fn spaces(n: nat) -> Seq<u8> {
    Seq::new(n, |i: int| 0x20u8)
}

/// The entries of an ordered map once a key has a value: where the key was there, its entry keeps
/// its place; otherwise the entry comes last.
pub open spec fn with_entry(
    entries: Seq<(Seq<char>, Seq<char>)>,
    key: Seq<char>,
    value: Seq<char>,
) -> Seq<(Seq<char>, Seq<char>)> {
    if exists|i: int| 0 <= i < entries.len() && (#[trigger] entries[i]).0 == key {
        entries.map_values(
            |e: (Seq<char>, Seq<char>)|
                if e.0 == key {
                    (key, value)
                } else {
                    e
                },
        )
    } else {
        entries.push((key, value))
    }
}

/// The entries as a map.
pub open spec fn entry_map(entries: Seq<(Seq<char>, Seq<char>)>) -> Map<Seq<char>, Seq<char>>
    decreases entries.len(),
{
    if entries.len() == 0 {
        Map::empty()
    } else {
        entry_map(entries.drop_last()).insert(entries.last().0, entries.last().1)
    }
}

/// The JSON object of texts that a map stands for.
pub open spec fn text_object(m: Map<Seq<char>, Seq<char>>) -> JsonTree {
    JsonTree::Obj(m.map_values(|v: Seq<char>| JsonTree::Str(v)))
}

/// A text comes before another one in the order of their characters.
pub open spec fn precedes(a: Seq<char>, b: Seq<char>) -> bool {
    exists|n: int|
        0 <= n <= a.len() && n < b.len() && a.take(n) == b.take(n) && (n == a.len() || (a[n] as u32)
            < (b[n] as u32))
}

/// A list holds each member of an object once, and nothing else.
pub open spec fn lists_members(
    list: Seq<(String, serde_json::Value)>,
    members: Map<Seq<char>, JsonTree>,
) -> bool {
    &&& forall|i: int, j: int| 0 <= i < j < list.len() ==> (#[trigger] list[i]).0@ != (
    #[trigger] list[j]).0@
    &&& forall|i: int|
        0 <= i < list.len() ==> members.contains_key((#[trigger] list[i]).0@) && members[list[i].0@]
            == json_tree(list[i].1)
    &&& forall|k: Seq<char>|
        members.contains_key(k) ==> exists|i: int|
            0 <= i < list.len() && (#[trigger] list[i]).0@ == k
}

/// What a tensor's entry says of it: the data type, the shape, and where its data starts and ends.
pub struct EntryView {
    pub dtype: Seq<char>,
    pub shape: Seq<usize>,
    pub start: usize,
    pub end: usize,
}

/// An array of integers that are addresses.
pub open spec fn is_sizes(t: JsonTree) -> bool {
    t matches JsonTree::Arr(items) && forall|i: int|
        0 <= i < items.len() ==> ((#[trigger] items[i]) matches JsonTree::UInt(n) && n
            <= usize::MAX)
}

/// The integers of an array of addresses.
pub open spec fn sizes_of(t: JsonTree) -> Seq<usize> {
    t->Arr_0.map_values(|x: JsonTree| x->UInt_0 as usize)
}

/// What an array of a data type, a shape and two offsets says.
pub open spec fn entry_of(t: JsonTree) -> Option<EntryView> {
    match t {
        JsonTree::Arr(items) => if items.len() == 3 && items[0] is Str && is_sizes(items[1])
            && is_sizes(items[2]) && sizes_of(items[2]).len() == 2 {
            Some(
                EntryView {
                    dtype: items[0]->Str_0,
                    shape: sizes_of(items[1]),
                    start: sizes_of(items[2])[0],
                    end: sizes_of(items[2])[1],
                },
            )
        } else {
            None
        },
        _ => None,
    }
}

/// `serde_json::Map::new` gives an object without members.
#[verifier::external_body]
pub(crate) fn new_object() -> (r: serde_json::Map<String, Value>)
    ensures
        json_members(r).dom() == Set::<Seq<char>>::empty(),
{
    serde_json::Map::new()
}

/// `serde_json::Map::insert` gives a member its value, in place of an earlier one of the same name.
#[verifier::external_body]
pub(crate) fn insert_member(map: &mut serde_json::Map<String, Value>, key: String, value: Value)
    ensures
        json_members(*final(map)) == json_members(*old(map)).insert(key@, json_tree(value)),
{
    map.insert(key, value);
}

/// `serde_json::Value::Null` is `null`.
#[verifier::external_body]
pub(crate) fn null_value() -> (r: Value)
    ensures
        json_tree(r) == JsonTree::Null,
{
    Value::Null
}

/// `serde_json::Value::String` is a text.
#[verifier::external_body]
pub(crate) fn text_value(s: String) -> (r: Value)
    ensures
        json_tree(r) == JsonTree::Str(s@),
{
    Value::String(s)
}

/// The `From<usize>` of `serde_json::Value` gives an integer.
#[verifier::external_body]
pub(crate) fn number_value(n: usize) -> (r: Value)
    ensures
        json_tree(r) == JsonTree::UInt(n as nat),
{
    Value::from(n)
}

/// `serde_json::Value::Array` is an array of its items.
#[verifier::external_body]
pub(crate) fn array_value(items: Vec<Value>) -> (r: Value)
    ensures
        json_tree(r) == JsonTree::Arr(json_trees(items@)),
{
    Value::Array(items)
}

/// `serde_json::Value::Object` is an object of its members.
#[verifier::external_body]
pub(crate) fn object_value(map: serde_json::Map<String, Value>) -> (r: Value)
    ensures
        json_tree(r) == JsonTree::Obj(json_members(map)),
{
    Value::Object(map)
}

/// `serde_json::to_value` turns an ordered map of texts into an object of texts. It does not fail on
/// such a map.
#[verifier::external_body]
pub(crate) fn metadata_value(metadata: &IndexMap<String, String>) -> (r: Result<Value, String>)
    ensures
        r is Ok,
        json_tree(r->Ok_0) == text_object(entry_map(map_entries(*metadata))),
{
    serde_json::to_value(metadata).map_err(|e| e.to_string())
}

/// `serde_json::to_string_pretty` prints an object. It does not fail on members that are already
/// JSON values, and the text depends on the members alone. Where the members are texts and integers,
/// few arrays and objects deep, `serde_json::from_slice` reads them back from the bytes of the text,
/// with any number of spaces behind it. What the text looks like is not stated.
#[verifier::external_body]
pub(crate) fn pretty_text(map: &serde_json::Map<String, Value>) -> (r: Result<String, String>)
    ensures
        r is Ok,
        r->Ok_0@ == pretty_json(json_members(*map)),
        simple_members(json_members(*map)) ==> forall|n: nat| #[trigger]
            json_object(encode_utf8(r->Ok_0@) + spaces(n)) == Some(json_members(*map)),
{
    serde_json::to_string_pretty(map).map_err(|e| e.to_string())
}

/// `serde_json::from_slice` reads an object, which std's `HashMap` then hands out in an order that
/// is not stated. Whether it can be read, and its members, depend on the bytes alone.
#[verifier::external_body]
pub(crate) fn parse_object(bytes: &[u8]) -> (r: Result<Vec<(String, Value)>, String>)
    ensures
        r is Ok <==> json_object(bytes@) is Some,
        r matches Ok(list) ==> lists_members(list@, json_object(bytes@)->0),
{
    let parsed: Result<HashMap<String, Value>, serde_json::Error> = serde_json::from_slice(bytes);
    parsed.map(|m| m.into_iter().collect()).map_err(|e| e.to_string())
}

/// `serde_json::Value::as_object` hands out the members of an object, in the order of their names;
/// any other value has none.
#[verifier::external_body]
pub(crate) fn object_members(value: &Value) -> (r: Option<Vec<(String, Value)>>)
    ensures
        r is Some <==> json_tree(*value) is Obj,
        r matches Some(list) ==> {
            &&& lists_members(list@, json_tree(*value)->Obj_0)
            &&& forall|i: int, j: int| 0 <= i < j < list@.len() ==> precedes(
                (#[trigger] list@[i]).0@,
                (#[trigger] list@[j]).0@,
            )
        },
{
    value.as_object().map(|m| m.iter().map(|(k, v)| (k.clone(), v.clone())).collect())
}

/// `serde_json::Value::get` hands out the member of an object that has a name; any other value has
/// none.
#[verifier::external_body]
pub(crate) fn object_member(value: &Value, name: &str) -> (r: Option<Value>)
    ensures
        r is Some <==> (json_tree(*value) is Obj && json_tree(*value)->Obj_0.contains_key(name@)),
        r matches Some(v) ==> json_tree(v) == json_tree(*value)->Obj_0[name@],
{
    value.get(name).cloned()
}

/// `serde_json::Value::is_object` tells whether a value is an object.
#[verifier::external_body]
pub(crate) fn is_object(value: &Value) -> (r: bool)
    ensures
        r == (json_tree(*value) is Obj),
{
    value.is_object()
}

/// `serde_json::Value::as_str` hands out the text of a value that is one.
#[verifier::external_body]
pub(crate) fn value_text(value: &Value) -> (r: Option<String>)
    ensures
        r is Some <==> json_tree(*value) is Str,
        r matches Some(s) ==> s@ == json_tree(*value)->Str_0,
{
    value.as_str().map(|s| s.to_string())
}

/// The `Display` of `serde_json::Value` prints a value; the text depends on the value alone. What the
/// text looks like is not stated.
#[verifier::external_body]
pub(crate) fn compact_text(value: &Value) -> (r: String)
    ensures
        r@ == compact_json(json_tree(*value)),
{
    value.to_string()
}

/// `serde_json::from_value` reads a text, a list of addresses and two addresses from an array of
/// these three, and refuses anything else.
#[verifier::external_body]
pub(crate) fn parse_entry(value: &Value) -> (r: Result<(String, Vec<usize>, [usize; 2]), String>)
    ensures
        r is Ok <==> entry_of(json_tree(*value)) is Some,
        r matches Ok((dtype, shape, offsets)) ==> entry_of(json_tree(*value)) == Some(
            EntryView {
                dtype: dtype@,
                shape: shape@,
                start: offsets@[0],
                end: offsets@[1],
            },
        ),
{
    serde_json::from_value(value.clone()).map_err(|e| e.to_string())
}

/// The `Debug` of std's `str` puts a text in quotes and escapes it; the outcome depends on the text
/// alone. What it looks like is not stated.
#[verifier::external_body]
pub(crate) fn quoted(s: &str) -> (r: String)
    ensures
        r@ == debug_text(s@),
{
    format!("{s:?}")
}

/// `indexmap::IndexMap::new` gives a map without entries.
#[verifier::external_body]
pub(crate) fn new_map() -> (r: IndexMap<String, String>)
    ensures
        map_entries(r).len() == 0,
{
    IndexMap::new()
}

/// `indexmap::IndexMap::insert` gives a key its value: where the key was there, its entry keeps its
/// place; otherwise the entry comes last.
#[verifier::external_body]
pub(crate) fn insert_entry(map: &mut IndexMap<String, String>, key: String, value: String)
    ensures
        map_entries(*final(map)) == with_entry(map_entries(*old(map)), key@, value@),
{
    map.insert(key, value);
}

/// `indexmap::IndexMap::is_empty` tells whether a map has no entries.
#[verifier::external_body]
pub(crate) fn is_empty_map(map: &IndexMap<String, String>) -> (r: bool)
    ensures
        r == (map_entries(*map).len() == 0),
{
    map.is_empty()
}

} // verus!
