//! The current chunk list, the snapshot of an earlier one, and the partition of
//! the current chunks into plain chunks and merger groups.

use crate::ordered::{entries, has_key, map_get, map_insert, map_new, put};
use indexmap::IndexMap;
use vstd::prelude::*;

verus! {

/// One chunk of the current chunk list.
#[derive(Debug, Clone, PartialEq)]
pub struct Chunk {
    /// Where the chunk is written: the key by which chunks are matched across
    /// versions.
    pub path: String,
    /// The handle of the chunk's content.
    pub content: u64,
    /// The merger that the content opts into, if it is mergeable.
    pub merger: Option<String>,
}

/// The current chunk list.
#[derive(Debug, Clone, PartialEq)]
pub struct ChunkListContent {
    /// The handle of the list's current version.
    pub version: u64,
    /// The chunks, in listing order. Where a path is listed twice among the plain
    /// chunks, the later content takes the place of the earlier.
    pub chunks: Vec<Chunk>,
}

/// A chunk list as it was at one build.
#[derive(Debug)]
pub struct ChunkListVersion {
    /// The handle of this version.
    pub id: u64,
    /// The version of each plain chunk, by path.
    pub by_path: IndexMap<String, u64>,
    /// The version of each merger group's merged content, by merger.
    pub by_merger: IndexMap<String, u64>,
}

/// The chunks of one merger.
#[derive(Debug, Clone, PartialEq)]
pub struct Group {
    pub merger: String,
    /// The contents of the merger's chunks, in listing order.
    pub members: Vec<u64>,
}

/// The current chunks, parted.
#[derive(Debug)]
pub struct Partition {
    /// The content of each plain chunk, by path.
    pub plain: IndexMap<String, u64>,
    /// The merger groups, in the order in which their mergers first appear.
    pub groups: Vec<Group>,
}

/// The merger of a chunk as a plain value.
pub open spec fn merger_of(c: Chunk) -> Option<Seq<char>> {
    match c.merger {
        Some(m) => Some(m@),
        None => None,
    }
}

/// The plain chunks among the first `n`, by path.
pub open spec fn plain_chunks(chunks: Seq<Chunk>, n: nat) -> Seq<(Seq<char>, u64)>
    decreases n,
{
    if n == 0 {
        Seq::empty()
    } else {
        let prev = plain_chunks(chunks, (n - 1) as nat);
        let c = chunks[n - 1];
        if merger_of(c) is None {
            put(prev, c.path@, c.content)
        } else {
            prev
        }
    }
}

/// The mergers of the first `n` chunks, each once, in order of first appearance.
pub open spec fn merger_keys(chunks: Seq<Chunk>, n: nat) -> Seq<Seq<char>>
    decreases n,
{
    if n == 0 {
        Seq::empty()
    } else {
        let prev = merger_keys(chunks, (n - 1) as nat);
        match merger_of(chunks[n - 1]) {
            Some(m) => if prev.contains(m) {
                prev
            } else {
                prev.push(m)
            },
            None => prev,
        }
    }
}

/// The contents of those of the first `n` chunks that opt into merger `m`, in
/// listing order.
pub open spec fn members_of(chunks: Seq<Chunk>, m: Seq<char>, n: nat) -> Seq<u64>
    decreases n,
{
    if n == 0 {
        Seq::empty()
    } else {
        let prev = members_of(chunks, m, (n - 1) as nat);
        if merger_of(chunks[n - 1]) == Some(m) {
            prev.push(chunks[n - 1].content)
        } else {
            prev
        }
    }
}

/// The merger groups of a chunk list: its mergers, each with its members.
pub open spec fn merger_groups(chunks: Seq<Chunk>) -> Seq<(Seq<char>, Seq<u64>)> {
    let keys = merger_keys(chunks, chunks.len());
    Seq::new(keys.len(), |g: int| (keys[g], members_of(chunks, keys[g], chunks.len())))
}

/// The groups of a partition as plain values.
pub open spec fn groups_view(groups: Seq<Group>) -> Seq<(Seq<char>, Seq<u64>)> {
    Seq::new(groups.len(), |g: int| (groups[g].merger@, groups[g].members@))
}

/// No merger is listed twice.
pub proof fn lemma_merger_keys_distinct(chunks: Seq<Chunk>, n: nat)
    ensures
        merger_keys(chunks, n).no_duplicates(),
        merger_keys(chunks, n).len() <= n,
    decreases n,
{
    if n > 0 {
        lemma_merger_keys_distinct(chunks, (n - 1) as nat);
    }
}

/// A merger that is not listed has no members.
pub proof fn lemma_unlisted_merger_has_no_members(chunks: Seq<Chunk>, m: Seq<char>, n: nat)
    requires
        !merger_keys(chunks, n).contains(m),
    ensures
        members_of(chunks, m, n) == Seq::<u64>::empty(),
    decreases n,
{
    if n > 0 {
        let prev = merger_keys(chunks, (n - 1) as nat);
        if prev.contains(m) {
            let j = choose|j: int| 0 <= j < prev.len() && prev[j] == m;
            assert(merger_keys(chunks, n)[j] == m);
        }
        if merger_of(chunks[n - 1]) == Some(m) {
            let now = merger_keys(chunks, n);
            if prev.contains(m) {
            } else {
                assert(now[now.len() - 1] == m);
            }
        }
        lemma_unlisted_merger_has_no_members(chunks, m, (n - 1) as nat);
    }
}

/// Parts the current chunks in one pass: a mergeable chunk joins the group of
/// its merger, any other is filed under its path.
pub fn partition(content: &ChunkListContent) -> (p: Partition)
    ensures
        entries(p.plain) == plain_chunks(content.chunks@, content.chunks@.len()),
        groups_view(p.groups@) == merger_groups(content.chunks@),
{
    let mut plain = map_new();
    let mut index = map_new();
    let mut groups: Vec<Group> = Vec::new();
    let n: usize = content.chunks.len();
    let mut i: usize = 0;
    while i < n
        invariant
            i <= n,
            n == content.chunks@.len(),
            entries(plain) == plain_chunks(content.chunks@, i as nat),
            groups@.len() == entries(index).len(),
            groups@.len() == merger_keys(content.chunks@, i as nat).len(),
            forall|g: int|
                0 <= g < groups@.len() ==> (#[trigger] entries(index)[g]) == (
                    merger_keys(content.chunks@, i as nat)[g],
                    g as u64,
                ),
            forall|g: int|
                0 <= g < groups@.len() ==> (#[trigger] groups@[g]).merger@ == merger_keys(
                    content.chunks@,
                    i as nat,
                )[g] && groups@[g].members@ == members_of(
                    content.chunks@,
                    merger_keys(content.chunks@, i as nat)[g],
                    i as nat,
                ),
        decreases n - i,
    {
        let ghost keys = merger_keys(content.chunks@, i as nat);
        let ghost before = groups@;
        proof {
            lemma_merger_keys_distinct(content.chunks@, i as nat);
        }
        let chunk = &content.chunks[i];
        match &chunk.merger {
            None => {
                map_insert(&mut plain, chunk.path.clone(), chunk.content);
            },
            Some(m) => {
                match map_get(&index, m) {
                    Some(g) => {
                        proof {
                            let j = crate::ordered::key_index(entries(index), m@);
                            assert(entries(index)[j].0 == m@);
                            assert(keys[j] == m@);
                            assert(g == j);
                        }
                        groups[g as usize].members.push(chunk.content);
                        proof {
                            assert(keys.contains(m@));
                            assert forall|h: int| 0 <= h < groups@.len() implies (
                            #[trigger] groups@[h]).merger@ == keys[h] && groups@[h].members@
                                == members_of(content.chunks@, keys[h], (i + 1) as nat) by {
                                if h != g {
                                    assert(groups@[h] == before[h]);
                                    assert(keys[h] != keys[g as int]);
                                }
                            }
                        }
                    },
                    None => {
                        proof {
                            if keys.contains(m@) {
                                let j = choose|j: int| 0 <= j < keys.len() && keys[j] == m@;
                                assert(entries(index)[j].0 == m@);
                            }
                            lemma_unlisted_merger_has_no_members(content.chunks@, m@, i as nat);
                            assert(!has_key(entries(index), m@));
                        }
                        let at: u64 = groups.len() as u64;
                        map_insert(&mut index, m.clone(), at);
                        let mut members: Vec<u64> = Vec::new();
                        members.push(chunk.content);
                        groups.push(Group { merger: m.clone(), members });
                        proof {
                            assert(members_of(content.chunks@, m@, (i + 1) as nat) =~= seq![
                                chunk.content,
                            ]);
                        }
                    },
                }
            },
        }
        i += 1;
    }
    proof {
        assert(groups_view(groups@) =~= merger_groups(content.chunks@));
    }
    Partition { plain, groups }
}

} // verus!
