//! The JSON form of a chunk list update.
//!
//! Every object carries its kind under `"type"`. The payload of a partial
//! update leaves out `"chunks"` where no chunk changed and `"merged"` where no
//! merger group did.

use crate::update::{ChunkListUpdate, ChunkListUpdateView, ChunkUpdate, ListUpdate, ListUpdateView, Update};
use serde_json::Map as JsonMap;
use serde_json::Value;
use vstd::prelude::*;

verus! {

/// `serde_json::Map`, the members of a JSON object by key. Nothing inside it is
/// visible to proofs.
#[verifier::external_type_specification]
#[verifier::external_body]
#[verifier::reject_recursive_types(K)]
#[verifier::reject_recursive_types(V)]
pub struct ExJsonMap<K, V>(JsonMap<K, V>);

/// The JSON string with the text `s`.
pub uninterp spec fn json_text(s: Seq<char>) -> Value;

/// The JSON array of `items`.
pub uninterp spec fn json_list(items: Seq<Value>) -> Value;

/// The JSON object with the members `fields`.
pub uninterp spec fn json_record(fields: Map<Seq<char>, Value>) -> Value;

/// The members that a `serde_json::Map` holds, by key.
pub uninterp spec fn record_fields(m: JsonMap<String, Value>) -> Map<Seq<char>, Value>;

/// `Value::from(String)`: the JSON string with that text.
#[verifier::external_body]
fn text_value(s: String) -> (r: Value)
    ensures
        r == json_text(s@),
{
    Value::from(s)
}

/// `Value::from(Vec<Value>)`: the JSON array of those items, in their order.
#[verifier::external_body]
fn list_value(items: Vec<Value>) -> (r: Value)
    ensures
        r == json_list(items@),
{
    Value::from(items)
}

/// `Value::from(Map<String, Value>)`: the JSON object with the map's members.
#[verifier::external_body]
fn record_value(m: JsonMap<String, Value>) -> (r: Value)
    ensures
        r == json_record(record_fields(m)),
{
    Value::from(m)
}

/// `serde_json::Map::new`: the new map has no member.
#[verifier::external_body]
fn record_new() -> (m: JsonMap<String, Value>)
    ensures
        record_fields(m) == (Map::<Seq<char>, Value>::empty()),
{
    JsonMap::new()
}

/// `serde_json::Map::insert`: the map then holds `value` under `key`, in place
/// of what it held under that key before, and its other members as before.
#[verifier::external_body]
fn record_insert(m: &mut JsonMap<String, Value>, key: String, value: Value)
    ensures
        record_fields(*final(m)) == record_fields(*old(m)).insert(key@, value),
{
    m.insert(key, value);
}

/// The members of an object of kind `tag` that has nothing else to say.
pub open spec fn tagged(tag: Seq<char>) -> Map<Seq<char>, Value> {
    Map::<Seq<char>, Value>::empty().insert("type"@, json_text(tag))
}

/// The JSON form of a chunk's update.
pub open spec fn chunk_update_json(u: ChunkUpdate) -> Value {
    match u {
        ChunkUpdate::Total => json_record(tagged("total"@)),
        ChunkUpdate::Partial { instruction } => json_record(
            tagged("partial"@).insert("instruction"@, instruction),
        ),
        ChunkUpdate::Added => json_record(tagged("added"@)),
        ChunkUpdate::Deleted => json_record(tagged("deleted"@)),
    }
}

/// The first `n` entries of a payload as the members of an object: each path
/// with the JSON form of its update.
pub open spec fn chunk_fields(chunks: Seq<(Seq<char>, ChunkUpdate)>, n: nat) -> Map<
    Seq<char>,
    Value,
>
    decreases n,
{
    if n == 0 {
        Map::empty()
    } else {
        chunk_fields(chunks, (n - 1) as nat).insert(
            chunks[n - 1].0,
            chunk_update_json(chunks[n - 1].1),
        )
    }
}

/// The members of a payload's JSON form: `"chunks"` and `"merged"` are members
/// only where they are not empty.
pub open spec fn payload_fields(p: ChunkListUpdateView) -> Map<Seq<char>, Value> {
    let base = tagged("chunkListUpdate"@);
    let with_chunks = if p.chunks.len() > 0 {
        base.insert("chunks"@, json_record(chunk_fields(p.chunks, p.chunks.len())))
    } else {
        base
    };
    if p.merged.len() > 0 {
        with_chunks.insert("merged"@, json_list(p.merged))
    } else {
        with_chunks
    }
}

/// The JSON form of a payload.
pub open spec fn payload_json(p: ChunkListUpdateView) -> Value {
    json_record(payload_fields(p))
}

/// The JSON form of a payload names its kind, has its chunks under `"chunks"`
/// and its merged instructions under `"merged"`, and leaves out each of the
/// two that is empty.
pub proof fn law_empty_parts_are_left_out(p: ChunkListUpdateView)
    ensures
        payload_fields(p).contains_key("type"@),
        payload_fields(p)["type"@] == json_text("chunkListUpdate"@),
        payload_fields(p).contains_key("chunks"@) <==> p.chunks.len() > 0,
        payload_fields(p).contains_key("merged"@) <==> p.merged.len() > 0,
        p.chunks.len() > 0 ==> payload_fields(p)["chunks"@] == json_record(
            chunk_fields(p.chunks, p.chunks.len()),
        ),
        p.merged.len() > 0 ==> payload_fields(p)["merged"@] == json_list(p.merged),
{
    reveal_strlit("type");
    reveal_strlit("chunks");
    reveal_strlit("merged");
    assert("type"@.len() == 4 && "chunks"@.len() == 6 && "merged"@.len() == 6);
    assert("chunks"@[0] != "merged"@[0]);
}

/// A chunk list update with its payload in JSON form.
pub open spec fn wire_form(u: ListUpdateView) -> Update {
    match u {
        ListUpdateView::Unchanged => Update::Unchanged,
        ListUpdateView::Partial { to, instruction } => Update::Partial {
            to,
            instruction: payload_json(instruction),
        },
        ListUpdateView::Total { to } => Update::Total { to },
    }
}

/// An object of kind `tag` with no other member yet.
fn tagged_record(tag: &str) -> (m: JsonMap<String, Value>)
    ensures
        record_fields(m) == tagged(tag@),
{
    let mut m = record_new();
    record_insert(&mut m, "type".to_owned(), text_value(tag.to_owned()));
    m
}

/// Writes a chunk's update as JSON.
pub fn chunk_update_value(u: &ChunkUpdate) -> (r: Value)
    ensures
        r == chunk_update_json(*u),
{
    match u {
        ChunkUpdate::Total => record_value(tagged_record("total")),
        ChunkUpdate::Partial { instruction } => {
            let mut m = tagged_record("partial");
            record_insert(&mut m, "instruction".to_owned(), instruction.clone());
            record_value(m)
        },
        ChunkUpdate::Added => record_value(tagged_record("added")),
        ChunkUpdate::Deleted => record_value(tagged_record("deleted")),
    }
}

/// Writes a payload as JSON.
pub fn payload_value(p: &ChunkListUpdate) -> (r: Value)
    ensures
        r == payload_json(p@),
{
    let mut all = tagged_record("chunkListUpdate");
    if p.chunks.len() > 0 {
        let mut by_path = record_new();
        let mut i: usize = 0;
        while i < p.chunks.len()
            invariant
                i <= p.chunks@.len(),
                record_fields(by_path) == chunk_fields(p@.chunks, i as nat),
            decreases p.chunks@.len() - i,
        {
            let entry = &p.chunks[i];
            record_insert(&mut by_path, entry.0.clone(), chunk_update_value(&entry.1));
            i += 1;
        }
        record_insert(&mut all, "chunks".to_owned(), record_value(by_path));
    }
    if p.merged.len() > 0 {
        let mut items: Vec<Value> = Vec::new();
        let mut k: usize = 0;
        while k < p.merged.len()
            invariant
                k <= p.merged@.len(),
                items@ == p.merged@.take(k as int),
            decreases p.merged@.len() - k,
        {
            items.push(p.merged[k].clone());
            proof {
                assert(items@ =~= p.merged@.take((k + 1) as int));
            }
            k += 1;
        }
        proof {
            assert(p.merged@.take(k as int) =~= p.merged@);
        }
        record_insert(&mut all, "merged".to_owned(), list_value(items));
    }
    record_value(all)
}

/// Turns a chunk list update into the update that goes out, its payload
/// written as JSON.
pub fn wire_update(u: &ListUpdate) -> (r: Update)
    ensures
        r == wire_form(u@),
{
    match u {
        ListUpdate::Unchanged => Update::Unchanged,
        ListUpdate::Partial { to, instruction } => Update::Partial {
            to: *to,
            instruction: payload_value(instruction),
        },
        ListUpdate::Total { to } => Update::Total { to: *to },
    }
}

} // verus!
