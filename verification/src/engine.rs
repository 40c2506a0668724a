//! The update of a chunk list: resolving the version that a client reports,
//! and folding the outcomes of the planned diffs into one update.

use crate::content::{ChunkListContent, ChunkListVersion};
use crate::plan::{
    plan_updates, planned, steps_view, PathStep, PathStepView, UpdatePlan, UpdatePlanView,
};
use crate::update::{
    chunks_view, ChunkListUpdate, ChunkListUpdateView, ChunkUpdate, ListUpdate, ListUpdateView,
    Update,
};
use serde_json::Value;
use vstd::prelude::*;

verus! {

/// Where an update stands once the client's version has been looked at.
#[derive(Debug, Clone, PartialEq)]
pub enum Resolution {
    /// The update is known without any diff.
    Settled(ListUpdate),
    /// The diffs of the plan have to be computed first.
    Pending(UpdatePlan),
}

/// The answers were not those that the plan asks for.
#[derive(Debug, Clone, Copy, PartialEq, Eq)]
pub enum AnswerError {
    /// The number of chunk updates is not the number of paths to diff.
    ChunkCount,
    /// The number of merged updates is not the number of groups to diff.
    GroupCount,
}

/// The number of diffs among the first `n` steps.
pub open spec fn answered(steps: Seq<PathStepView>, n: nat) -> nat
    decreases n,
{
    if n == 0 {
        0
    } else {
        let prev = answered(steps, (n - 1) as nat);
        if steps[n - 1] is Diff {
            prev + 1
        } else {
            prev
        }
    }
}

/// The path that a step is about.
pub open spec fn step_path(step: PathStepView) -> Seq<char> {
    match step {
        PathStepView::Gone { path } => path,
        PathStepView::Diff { path, .. } => path,
    }
}

/// What step `i` reports of its path: `Deleted` for a path that is gone; for a
/// diffed path what its answer says, and nothing where the answer is
/// `Unchanged`. The answers are taken in the order of the diffs.
pub open spec fn emitted(steps: Seq<PathStepView>, answers: Seq<Update>, i: int) -> Option<
    ChunkUpdate,
> {
    match steps[i] {
        PathStepView::Gone { .. } => Some(ChunkUpdate::Deleted),
        PathStepView::Diff { .. } => match answers[answered(steps, i as nat) as int] {
            Update::Total { .. } => Some(ChunkUpdate::Total),
            Update::Partial { instruction, .. } => Some(ChunkUpdate::Partial { instruction }),
            Update::Unchanged => None,
        },
    }
}

/// The entries that the first `n` steps emit, in the order of the steps.
pub open spec fn changed_chunks(steps: Seq<PathStepView>, answers: Seq<Update>, n: nat) -> Seq<
    (Seq<char>, ChunkUpdate),
>
    decreases n,
{
    if n == 0 {
        Seq::empty()
    } else {
        let prev = changed_chunks(steps, answers, (n - 1) as nat);
        match emitted(steps, answers, n - 1) {
            Some(u) => prev.push((step_path(steps[n - 1]), u)),
            None => prev,
        }
    }
}

/// One `Added` entry for each added path.
pub open spec fn added_chunks(added: Seq<Seq<char>>) -> Seq<(Seq<char>, ChunkUpdate)> {
    Seq::new(added.len(), |i: int| (added[i], ChunkUpdate::Added))
}

/// The instructions of the partial ones among the first `n` answers.
pub open spec fn merged_instructions(answers: Seq<Update>, n: nat) -> Seq<Value>
    decreases n,
{
    if n == 0 {
        Seq::empty()
    } else {
        let prev = merged_instructions(answers, (n - 1) as nat);
        match answers[n - 1] {
            Update::Partial { instruction, .. } => prev.push(instruction),
            _ => prev,
        }
    }
}

/// Whether one of the first `n` answers asks for a total update.
pub open spec fn escalates(answers: Seq<Update>, n: nat) -> bool {
    exists|i: int| 0 <= i < n && i < answers.len() && (#[trigger] answers[i]) is Total
}

/// The payload that the answers give.
pub open spec fn payload(
    plan: UpdatePlanView,
    chunk_answers: Seq<Update>,
    merged_answers: Seq<Update>,
) -> ChunkListUpdateView {
    ChunkListUpdateView {
        chunks: changed_chunks(plan.paths, chunk_answers, plan.paths.len()) + added_chunks(
            plan.added,
        ),
        merged: merged_instructions(merged_answers, merged_answers.len()),
    }
}

/// The update that the answers to a plan give: total where a merger group asks
/// for it, none where the payload is empty, else partial.
pub open spec fn outcome(
    plan: UpdatePlanView,
    chunk_answers: Seq<Update>,
    merged_answers: Seq<Update>,
) -> ListUpdateView {
    let p = payload(plan, chunk_answers, merged_answers);
    if escalates(merged_answers, merged_answers.len()) {
        ListUpdateView::Total { to: plan.to }
    } else if p.chunks.len() == 0 && p.merged.len() == 0 {
        ListUpdateView::Unchanged
    } else {
        ListUpdateView::Partial { to: plan.to, instruction: p }
    }
}

/// The number of diffs never goes down as steps are added.
pub proof fn lemma_answered_grows(steps: Seq<PathStepView>, a: nat, b: nat)
    requires
        a <= b,
    ensures
        answered(steps, a) <= answered(steps, b),
        answered(steps, b) <= b,
    decreases b,
{
    if b > 0 {
        if a < b {
            lemma_answered_grows(steps, a, (b - 1) as nat);
        } else {
            lemma_answered_grows(steps, (a - 1) as nat, (b - 1) as nat);
        }
    }
}

/// What can be said from the version handles alone: a client whose version
/// could not be resolved (`from` is `None`) gets a total update, one that holds
/// the current version gets none. For any other the chunks have to be looked
/// at, and the result is `None`.
pub fn settle_early(to: u64, from: Option<u64>) -> (r: Option<ListUpdate>)
    ensures
        match from {
            None => r == Some(ListUpdate::Total { to }),
            Some(f) => if f == to {
                r == Some(ListUpdate::Unchanged)
            } else {
                r is None
            },
        },
{
    match from {
        None => Some(ListUpdate::Total { to }),
        Some(f) => if f == to {
            Some(ListUpdate::Unchanged)
        } else {
            None
        },
    }
}

/// Looks at the version that the client reports. A client whose version could
/// not be resolved gets a total update, whatever the chunks are; one that holds
/// the current version gets none; for any other the diffs are planned.
pub fn begin_update(content: &ChunkListContent, from: Option<&ChunkListVersion>) -> (r: Resolution)
    ensures
        match from {
            None => r matches Resolution::Settled(u) && u@ == (ListUpdateView::Total {
                to: content.version,
            }),
            Some(f) => if f.id == content.version {
                r matches Resolution::Settled(u) && u@ == ListUpdateView::Unchanged
            } else {
                r matches Resolution::Pending(plan) && plan@ == planned(*content, *f)
            },
        },
{
    let known = match from {
        None => None,
        Some(f) => Some(f.id),
    };
    match settle_early(content.version, known) {
        Some(update) => Resolution::Settled(update),
        None => match from {
            Some(f) => Resolution::Pending(plan_updates(content, f)),
            None => Resolution::Settled(ListUpdate::Total { to: content.version }),
        },
    }
}

/// The number of paths that a plan asks to diff.
pub fn count_diffs(steps: &Vec<PathStep>) -> (n: usize)
    ensures
        n == answered(steps_view(steps@), steps@.len()),
{
    let mut n: usize = 0;
    let mut i: usize = 0;
    while i < steps.len()
        invariant
            i <= steps@.len(),
            n == answered(steps_view(steps@), i as nat),
            n <= i,
        decreases steps@.len() - i,
    {
        match &steps[i] {
            PathStep::Diff { .. } => {
                n += 1;
            },
            PathStep::Gone { .. } => {},
        }
        i += 1;
    }
    n
}

/// Whether one of the answers asks for a total update.
pub fn asks_total(answers: &Vec<Update>) -> (r: bool)
    ensures
        r == escalates(answers@, answers@.len()),
{
    let mut i: usize = 0;
    while i < answers.len()
        invariant
            i <= answers@.len(),
            !escalates(answers@, i as nat),
        decreases answers@.len() - i,
    {
        match &answers[i] {
            Update::Total { .. } => {
                return true;
            },
            _ => {},
        }
        i += 1;
    }
    false
}

/// Whether the merged answers are those that `groups` merger groups ask for:
/// one for each group, or fewer where one of them asks for a total update,
/// after which no further group has to be diffed.
pub open spec fn groups_answered(groups: nat, merged_answers: Seq<Update>) -> bool {
    merged_answers.len() == groups || (merged_answers.len() < groups && escalates(
        merged_answers,
        merged_answers.len(),
    ))
}

/// Folds the answers to a plan into the update of the chunk list.
///
/// `chunk_updates` holds the update of each path to diff, in the order of the
/// plan's steps, and `merged_updates` that of each merger group, in the
/// plan's order. A total update from a merger group makes the whole update
/// total; with nothing to report the update is `Unchanged`, never a partial
/// update with an empty payload.
pub fn update_chunk_list(
    plan: &UpdatePlan,
    chunk_updates: &Vec<Update>,
    merged_updates: &Vec<Update>,
) -> (r: Result<ListUpdate, AnswerError>)
    ensures
        chunk_updates@.len() != answered(plan@.paths, plan@.paths.len()) ==> r == Err::<
            ListUpdate,
            AnswerError,
        >(AnswerError::ChunkCount),
        chunk_updates@.len() == answered(plan@.paths, plan@.paths.len()) && !groups_answered(
            plan@.groups.len(),
            merged_updates@,
        ) ==> r == Err::<ListUpdate, AnswerError>(AnswerError::GroupCount),
        chunk_updates@.len() == answered(plan@.paths, plan@.paths.len()) && groups_answered(
            plan@.groups.len(),
            merged_updates@,
        ) ==> (r matches Ok(u) && u@ == outcome(plan@, chunk_updates@, merged_updates@)),
        r matches Ok(ListUpdate::Partial { instruction, .. }) ==> instruction@.chunks.len()
            + instruction@.merged.len() > 0,
{
    if chunk_updates.len() != count_diffs(&plan.paths) {
        return Err(AnswerError::ChunkCount);
    }
    let total = asks_total(merged_updates);
    if merged_updates.len() > plan.groups.len() || (merged_updates.len() < plan.groups.len()
        && !total) {
        return Err(AnswerError::GroupCount);
    }
    if total {
        return Ok(ListUpdate::Total { to: plan.to });
    }
    let ghost steps = plan@.paths;
    let mut chunks: Vec<(String, ChunkUpdate)> = Vec::new();
    let mut next: usize = 0;
    let mut i: usize = 0;
    while i < plan.paths.len()
        invariant
            i <= plan.paths@.len(),
            steps == plan@.paths,
            next == answered(steps, i as nat),
            chunk_updates@.len() == answered(steps, steps.len()),
            chunks_view(chunks@) == changed_chunks(steps, chunk_updates@, i as nat),
        decreases plan.paths@.len() - i,
    {
        proof {
            lemma_answered_grows(steps, (i + 1) as nat, steps.len());
        }
        match &plan.paths[i] {
            PathStep::Gone { path } => {
                chunks.push((path.clone(), ChunkUpdate::Deleted));
            },
            PathStep::Diff { path, .. } => {
                match &chunk_updates[next] {
                    Update::Total { .. } => {
                        chunks.push((path.clone(), ChunkUpdate::Total));
                    },
                    Update::Partial { instruction, .. } => {
                        chunks.push(
                            (path.clone(), ChunkUpdate::Partial { instruction: instruction.clone() }),
                        );
                    },
                    Update::Unchanged => {},
                }
                next += 1;
            },
        }
        proof {
            assert(chunks_view(chunks@) =~= changed_chunks(
                steps,
                chunk_updates@,
                (i + 1) as nat,
            ));
        }
        i += 1;
    }
    let ghost changed = chunks_view(chunks@);
    let mut a: usize = 0;
    while a < plan.added.len()
        invariant
            a <= plan.added@.len(),
            chunks_view(chunks@) == changed + added_chunks(plan@.added).take(a as int),
        decreases plan.added@.len() - a,
    {
        let ghost before = chunks@;
        chunks.push((plan.added[a].clone(), ChunkUpdate::Added));
        proof {
            let all = added_chunks(plan@.added);
            assert(all[a as int] == (plan.added@[a as int]@, ChunkUpdate::Added));
            assert(all.take((a + 1) as int) =~= all.take(a as int).push(all[a as int]));
            assert(chunks_view(chunks@) =~= chunks_view(before).push(
                all[a as int],
            ));
            assert(chunks_view(chunks@) =~= changed + added_chunks(plan@.added).take(
                (a + 1) as int,
            ));
        }
        a += 1;
    }
    proof {
        assert(added_chunks(plan@.added).take(a as int) =~= added_chunks(plan@.added));
    }
    let mut merged: Vec<Value> = Vec::new();
    let mut g: usize = 0;
    while g < merged_updates.len()
        invariant
            g <= merged_updates@.len(),
            merged@ == merged_instructions(merged_updates@, g as nat),
        decreases merged_updates@.len() - g,
    {
        match &merged_updates[g] {
            Update::Partial { instruction, .. } => {
                merged.push(instruction.clone());
            },
            _ => {},
        }
        g += 1;
    }
    let update = ChunkListUpdate { chunks, merged };
    if update.is_empty() {
        Ok(ListUpdate::Unchanged)
    } else {
        Ok(ListUpdate::Partial { to: plan.to, instruction: update })
    }
}

} // verus!
