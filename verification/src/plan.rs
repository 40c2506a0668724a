//! What has to be asked before a chunk list update can be stated: which chunks
//! to diff against which version, which paths came and went, and which merger
//! groups to merge and diff.

use crate::content::{
    groups_view, merger_groups, partition, plain_chunks, ChunkListContent, ChunkListVersion, Group,
};
use crate::ordered::{entries, has_key, lookup, map_entry, map_get, map_len};
use indexmap::IndexMap;
use vstd::prelude::*;

verus! {

/// What becomes of one path of the earlier snapshot.
#[derive(Debug, Clone, PartialEq)]
pub enum PathStep {
    /// The path is still listed: diff `content` against version `from`.
    Diff { path: String, content: u64, from: u64 },
    /// The path is no longer listed.
    Gone { path: String },
}

/// The mathematical value of a [`PathStep`].
pub enum PathStepView {
    Diff { path: Seq<char>, content: u64, from: u64 },
    Gone { path: Seq<char> },
}

impl View for PathStep {
    type V = PathStepView;

    open spec fn view(&self) -> PathStepView {
        match *self {
            PathStep::Diff { path, content, from } => PathStepView::Diff {
                path: path@,
                content,
                from,
            },
            PathStep::Gone { path } => PathStepView::Gone { path: path@ },
        }
    }
}

/// A merger group to merge and to diff against version `from`.
#[derive(Debug, Clone, PartialEq)]
pub struct GroupQuery {
    pub merger: String,
    pub members: Vec<u64>,
    pub from: u64,
}

/// The mathematical value of a [`GroupQuery`].
pub struct GroupQueryView {
    pub merger: Seq<char>,
    pub members: Seq<u64>,
    pub from: u64,
}

impl View for GroupQuery {
    type V = GroupQueryView;

    open spec fn view(&self) -> GroupQueryView {
        GroupQueryView { merger: self.merger@, members: self.members@, from: self.from }
    }
}

/// The diffs that an update of a chunk list takes.
#[derive(Debug, Clone, PartialEq)]
pub struct UpdatePlan {
    /// The handle of the current version.
    pub to: u64,
    /// One step for each path of the earlier snapshot, in the snapshot's order.
    pub paths: Vec<PathStep>,
    /// The paths that the earlier snapshot did not have, in listing order.
    pub added: Vec<String>,
    /// The merger groups that the earlier snapshot knew, in order of first
    /// appearance.
    pub groups: Vec<GroupQuery>,
}

/// The mathematical value of an [`UpdatePlan`].
pub struct UpdatePlanView {
    pub to: u64,
    pub paths: Seq<PathStepView>,
    pub added: Seq<Seq<char>>,
    pub groups: Seq<GroupQueryView>,
}

/// The steps of a plan as plain values.
pub open spec fn steps_view(steps: Seq<PathStep>) -> Seq<PathStepView> {
    Seq::new(steps.len(), |i: int| steps[i]@)
}

/// Strings as plain values.
pub open spec fn strings_view(strings: Seq<String>) -> Seq<Seq<char>> {
    Seq::new(strings.len(), |i: int| strings[i]@)
}

/// The queries of a plan as plain values.
pub open spec fn queries_view(queries: Seq<GroupQuery>) -> Seq<GroupQueryView> {
    Seq::new(queries.len(), |i: int| queries[i]@)
}

impl View for UpdatePlan {
    type V = UpdatePlanView;

    open spec fn view(&self) -> UpdatePlanView {
        UpdatePlanView {
            to: self.to,
            paths: steps_view(self.paths@),
            added: strings_view(self.added@),
            groups: queries_view(self.groups@),
        }
    }
}

/// The step for one path of the earlier snapshot, given the current plain
/// chunks.
pub open spec fn path_step(plain: Seq<(Seq<char>, u64)>, prior: (Seq<char>, u64)) -> PathStepView {
    match lookup(plain, prior.0) {
        Some(content) => PathStepView::Diff { path: prior.0, content, from: prior.1 },
        None => PathStepView::Gone { path: prior.0 },
    }
}

/// The steps for all paths of the earlier snapshot.
pub open spec fn path_steps(
    prior: Seq<(Seq<char>, u64)>,
    plain: Seq<(Seq<char>, u64)>,
) -> Seq<PathStepView> {
    Seq::new(prior.len(), |i: int| path_step(plain, prior[i]))
}

/// Those of the first `n` current plain paths that the earlier snapshot lacks.
pub open spec fn added_paths(
    plain: Seq<(Seq<char>, u64)>,
    prior: Seq<(Seq<char>, u64)>,
    n: nat,
) -> Seq<Seq<char>>
    decreases n,
{
    if n == 0 {
        Seq::empty()
    } else {
        let prev = added_paths(plain, prior, (n - 1) as nat);
        if has_key(prior, plain[n - 1].0) {
            prev
        } else {
            prev.push(plain[n - 1].0)
        }
    }
}

/// The queries for those of the first `n` groups whose merger the earlier
/// snapshot knew. A group whose merger it did not know is passed over.
pub open spec fn group_queries(
    groups: Seq<(Seq<char>, Seq<u64>)>,
    prior: Seq<(Seq<char>, u64)>,
    n: nat,
) -> Seq<GroupQueryView>
    decreases n,
{
    if n == 0 {
        Seq::empty()
    } else {
        let prev = group_queries(groups, prior, (n - 1) as nat);
        match lookup(prior, groups[n - 1].0) {
            Some(from) => prev.push(
                GroupQueryView { merger: groups[n - 1].0, members: groups[n - 1].1, from },
            ),
            None => prev,
        }
    }
}

/// The plan for bringing a client from the snapshot `from` to `content`.
pub open spec fn planned(content: ChunkListContent, from: ChunkListVersion) -> UpdatePlanView {
    let plain = plain_chunks(content.chunks@, content.chunks@.len());
    let groups = merger_groups(content.chunks@);
    UpdatePlanView {
        to: content.version,
        paths: path_steps(entries(from.by_path), plain),
        added: added_paths(plain, entries(from.by_path), plain.len()),
        groups: group_queries(groups, entries(from.by_merger), groups.len()),
    }
}

/// Matches the paths of the earlier snapshot against the current plain chunks:
/// a path that both have is to be diffed, one that only the snapshot has is
/// gone, one that only the current list has is added.
pub fn diff_paths(plain: &IndexMap<String, u64>, prior: &IndexMap<String, u64>) -> (r: (
    Vec<PathStep>,
    Vec<String>,
))
    ensures
        steps_view(r.0@) == path_steps(entries(*prior), entries(*plain)),
        strings_view(r.1@) == added_paths(entries(*plain), entries(*prior), entries(*plain).len()),
{
    let mut steps: Vec<PathStep> = Vec::new();
    let known: usize = map_len(prior);
    let mut i: usize = 0;
    while i < known
        invariant
            i <= known,
            known == entries(*prior).len(),
            steps@.len() == i,
            forall|j: int| 0 <= j < i ==> (#[trigger] steps@[j])@ == path_step(
                entries(*plain),
                entries(*prior)[j],
            ),
        decreases known - i,
    {
        match map_entry(prior, i) {
            Some((path, from)) => {
                match map_get(plain, &path) {
                    Some(content) => steps.push(PathStep::Diff { path, content, from }),
                    None => steps.push(PathStep::Gone { path }),
                }
            },
            None => {},
        }
        i += 1;
    }
    let mut added: Vec<String> = Vec::new();
    let listed: usize = map_len(plain);
    let mut k: usize = 0;
    while k < listed
        invariant
            k <= listed,
            listed == entries(*plain).len(),
            strings_view(added@) == added_paths(entries(*plain), entries(*prior), k as nat),
        decreases listed - k,
    {
        match map_entry(plain, k) {
            Some((path, _)) => {
                if map_get(prior, &path).is_none() {
                    added.push(path);
                }
            },
            None => {},
        }
        proof {
            assert(strings_view(added@) =~= added_paths(
                entries(*plain),
                entries(*prior),
                (k + 1) as nat,
            ));
        }
        k += 1;
    }
    proof {
        assert(steps_view(steps@) =~= path_steps(entries(*prior), entries(*plain)));
    }
    (steps, added)
}

/// Picks the merger groups that can be diffed: those whose merger the earlier
/// snapshot recorded a version for.
pub fn query_groups(groups: &Vec<Group>, prior: &IndexMap<String, u64>) -> (r: Vec<GroupQuery>)
    ensures
        queries_view(r@) == group_queries(groups_view(groups@), entries(*prior), groups@.len()),
{
    let mut queries: Vec<GroupQuery> = Vec::new();
    let n: usize = groups.len();
    let mut i: usize = 0;
    while i < n
        invariant
            i <= n,
            n == groups@.len(),
            queries_view(queries@) == group_queries(
                groups_view(groups@),
                entries(*prior),
                i as nat,
            ),
        decreases n - i,
    {
        let group = &groups[i];
        match map_get(prior, &group.merger) {
            Some(from) => {
                let members = group.members.clone();
                assert(members@ =~= group.members@);
                queries.push(GroupQuery { merger: group.merger.clone(), members, from });
            },
            None => {},
        }
        proof {
            assert(queries_view(queries@) =~= group_queries(
                groups_view(groups@),
                entries(*prior),
                (i + 1) as nat,
            ));
        }
        i += 1;
    }
    queries
}

/// Plans the update from the snapshot `from` to the current list.
pub fn plan_updates(content: &ChunkListContent, from: &ChunkListVersion) -> (plan: UpdatePlan)
    ensures
        plan@ == planned(*content, *from),
{
    let parts = partition(content);
    let (paths, added) = diff_paths(&parts.plain, &from.by_path);
    let groups = query_groups(&parts.groups, &from.by_merger);
    UpdatePlan { to: content.version, paths, added, groups }
}

} // verus!
