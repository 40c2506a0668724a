//! The updates that a diff yields, and the payload of a chunk list update.

use serde_json::Value;
use vstd::prelude::*;

verus! {

/// `serde_json::Value`, a JSON value. An instruction is carried as one and never
/// looked into.
#[verifier::external_type_specification]
#[verifier::external_body]
pub struct ExValue(Value);

/// `<serde_json::Value as Clone>::clone`: the copy equals the value it was made
/// from.
pub assume_specification[ <Value as Clone>::clone ](v: &Value) -> (r: Value)
    ensures
        r == *v,
;

/// What it takes to bring one piece of content from an earlier version to its
/// current one.
#[derive(Debug, Clone, PartialEq)]
pub enum Update {
    /// Nothing changed.
    Unchanged,
    /// The instruction, applied to the earlier version, gives version `to`.
    Partial { to: u64, instruction: Value },
    /// The content has to be replaced as a whole by version `to`.
    Total { to: u64 },
}

/// What happened to one chunk of a chunk list.
#[derive(Debug, Clone, PartialEq)]
pub enum ChunkUpdate {
    /// The chunk changed and must be reloaded.
    Total,
    /// The chunk changed and can be patched.
    Partial { instruction: Value },
    /// The chunk is new.
    Added,
    /// The chunk is gone.
    Deleted,
}

/// The payload of a partial update of a chunk list.
#[derive(Debug, Clone, PartialEq)]
pub struct ChunkListUpdate {
    /// The chunks that changed, by path, in the order of emission.
    pub chunks: Vec<(String, ChunkUpdate)>,
    /// The instructions of the merger groups that changed.
    pub merged: Vec<Value>,
}

/// The mathematical value of a [`ChunkListUpdate`].
pub struct ChunkListUpdateView {
    pub chunks: Seq<(Seq<char>, ChunkUpdate)>,
    pub merged: Seq<Value>,
}

/// The entries of a payload as plain values.
pub open spec fn chunks_view(chunks: Seq<(String, ChunkUpdate)>) -> Seq<(Seq<char>, ChunkUpdate)> {
    Seq::new(chunks.len(), |i: int| (chunks[i].0@, chunks[i].1))
}

impl View for ChunkListUpdate {
    type V = ChunkListUpdateView;

    open spec fn view(&self) -> ChunkListUpdateView {
        ChunkListUpdateView { chunks: chunks_view(self.chunks@), merged: self.merged@ }
    }
}

impl ChunkListUpdate {
    /// Whether the payload says nothing: no chunk changed and no group did.
    pub fn is_empty(&self) -> (r: bool)
        ensures
            r == (self@.chunks.len() == 0 && self@.merged.len() == 0),
    {
        self.chunks.len() == 0 && self.merged.len() == 0
    }
}

/// What it takes to bring a chunk list from an earlier version to its current
/// one.
#[derive(Debug, Clone, PartialEq)]
pub enum ListUpdate {
    /// Nothing changed.
    Unchanged,
    /// The payload, applied to the earlier version, gives version `to`.
    Partial { to: u64, instruction: ChunkListUpdate },
    /// The whole list has to be reloaded at version `to`.
    Total { to: u64 },
}

/// The mathematical value of a [`ListUpdate`].
pub enum ListUpdateView {
    Unchanged,
    Partial { to: u64, instruction: ChunkListUpdateView },
    Total { to: u64 },
}

impl View for ListUpdate {
    type V = ListUpdateView;

    open spec fn view(&self) -> ListUpdateView {
        match *self {
            ListUpdate::Unchanged => ListUpdateView::Unchanged,
            ListUpdate::Partial { to, instruction } => ListUpdateView::Partial {
                to,
                instruction: instruction@,
            },
            ListUpdate::Total { to } => ListUpdateView::Total { to },
        }
    }
}

} // verus!
