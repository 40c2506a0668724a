//! What holds of every update of a chunk list.

use crate::content::{merger_of, plain_chunks, Chunk, ChunkListContent, ChunkListVersion};
use crate::engine::{
    added_chunks, answered, changed_chunks, emitted, escalates, lemma_answered_grows,
    merged_instructions, outcome, payload, step_path,
};
use crate::ordered::{distinct_keys, entries, has_key, key_index, put};
use crate::plan::{added_paths, path_steps, planned, PathStepView};
use crate::update::{ChunkUpdate, ListUpdateView, Update};
use vstd::prelude::*;

verus! {

/// Whether one of the first `n` pairs of `s` has the key `p`.
pub open spec fn key_among(s: Seq<(Seq<char>, u64)>, n: nat, p: Seq<char>) -> bool {
    exists|i: int| 0 <= i < n && i < s.len() && (#[trigger] s[i]).0 == p
}

/// Whether one of the first `n` chunks is a plain chunk at path `p`.
pub open spec fn plain_among(chunks: Seq<Chunk>, n: nat, p: Seq<char>) -> bool {
    exists|c: int|
        0 <= c < n && c < chunks.len() && merger_of(#[trigger] chunks[c]) is None && chunks[c].path@
            == p
}

/// Whether one of the first `n` steps is about path `e.0` and emits `e.1`.
pub open spec fn emitted_among(
    steps: Seq<PathStepView>,
    answers: Seq<Update>,
    n: nat,
    e: (Seq<char>, ChunkUpdate),
) -> bool {
    exists|i: int|
        0 <= i < n && i < steps.len() && step_path(#[trigger] steps[i]) == e.0 && emitted(
            steps,
            answers,
            i,
        ) == Some(e.1)
}

/// No two steps are about one path.
pub open spec fn distinct_steps(steps: Seq<PathStepView>) -> bool {
    forall|i: int, j: int|
        0 <= i < steps.len() && 0 <= j < steps.len() && i != j ==> step_path(#[trigger] steps[i])
            != step_path(#[trigger] steps[j])
}

/// Whether an entry of `chunks` is about path `p`.
pub open spec fn reports(chunks: Seq<(Seq<char>, ChunkUpdate)>, p: Seq<char>) -> bool {
    exists|j: int| 0 <= j < chunks.len() && (#[trigger] chunks[j]).0 == p
}

/// No path has two entries in `chunks`.
pub open spec fn one_entry_each(chunks: Seq<(Seq<char>, ChunkUpdate)>) -> bool {
    forall|j: int, k: int|
        0 <= j < chunks.len() && 0 <= k < chunks.len() && j != k ==> (#[trigger] chunks[j]).0 != (
        #[trigger] chunks[k]).0
}

/// Setting a key keeps the keys apart, and adds that key and no other.
pub proof fn lemma_put(s: Seq<(Seq<char>, u64)>, k: Seq<char>, v: u64)
    requires
        distinct_keys(s),
    ensures
        distinct_keys(put(s, k, v)),
        forall|q: Seq<char>| #[trigger] has_key(put(s, k, v), q) <==> (q == k || has_key(s, q)),
{
    let t = put(s, k, v);
    if has_key(s, k) {
        let at = key_index(s, k);
        assert forall|a: int| 0 <= a < t.len() implies (#[trigger] t[a]).0 == s[a].0 by {}
        assert forall|q: Seq<char>| #[trigger] has_key(t, q) <==> (q == k || has_key(s, q)) by {
            if has_key(t, q) {
                let a = key_index(t, q);
                assert(s[a].0 == q);
            }
            if has_key(s, q) {
                let a = key_index(s, q);
                assert(t[a].0 == q);
            }
            if q == k {
                assert(t[at].0 == k);
            }
        }
        assert forall|a: int, b: int| 0 <= a < t.len() && 0 <= b < t.len() && a != b implies (
        #[trigger] t[a]).0 != (#[trigger] t[b]).0 by {
            assert(t[a].0 == s[a].0);
            assert(t[b].0 == s[b].0);
        }
    } else {
        assert forall|q: Seq<char>| #[trigger] has_key(t, q) <==> (q == k || has_key(s, q)) by {
            if has_key(t, q) {
                let a = key_index(t, q);
                if a < s.len() {
                    assert(s[a].0 == q);
                }
            }
            if has_key(s, q) {
                let a = key_index(s, q);
                assert(t[a].0 == q);
            }
            if q == k {
                assert(t[s.len() as int].0 == k);
            }
        }
        assert forall|a: int, b: int| 0 <= a < t.len() && 0 <= b < t.len() && a != b implies (
        #[trigger] t[a]).0 != (#[trigger] t[b]).0 by {
            if a < s.len() {
                assert(s[a].0 == t[a].0);
            }
            if b < s.len() {
                assert(s[b].0 == t[b].0);
            }
        }
    }
}

/// The plain chunks are filed under paths that differ from each other, and a
/// path is filed exactly if a plain chunk is listed at it.
pub proof fn law_plain_chunks_by_path(chunks: Seq<Chunk>, n: nat)
    requires
        n <= chunks.len(),
    ensures
        distinct_keys(plain_chunks(chunks, n)),
        forall|p: Seq<char>| #[trigger]
            has_key(plain_chunks(chunks, n), p) <==> plain_among(chunks, n, p),
    decreases n,
{
    if n > 0 {
        let prev = plain_chunks(chunks, (n - 1) as nat);
        let c = chunks[n - 1];
        law_plain_chunks_by_path(chunks, (n - 1) as nat);
        lemma_put(prev, c.path@, c.content);
        assert forall|p: Seq<char>| #[trigger]
            has_key(plain_chunks(chunks, n), p) <==> plain_among(chunks, n, p) by {
            if plain_among(chunks, n, p) {
                let w = choose|w: int|
                    0 <= w < n && w < chunks.len() && merger_of(#[trigger] chunks[w]) is None
                        && chunks[w].path@ == p;
                if w < n - 1 {
                    assert(plain_among(chunks, (n - 1) as nat, p));
                }
            }
            if plain_among(chunks, (n - 1) as nat, p) {
                let w = choose|w: int|
                    0 <= w < n - 1 && w < chunks.len() && merger_of(#[trigger] chunks[w]) is None
                        && chunks[w].path@ == p;
                assert(plain_among(chunks, n, p));
            }
            if merger_of(c) is None && p == c.path@ {
                assert(merger_of(chunks[n - 1]) is None);
                assert(plain_among(chunks, n, p));
            }
        }
    } else {
        assert forall|p: Seq<char>| #[trigger]
            has_key(plain_chunks(chunks, n), p) <==> plain_among(chunks, n, p) by {}
    }
}

/// The added paths are those current paths that the earlier snapshot lacks,
/// each once.
pub proof fn lemma_added_paths(plain: Seq<(Seq<char>, u64)>, prior: Seq<(Seq<char>, u64)>, n: nat)
    requires
        n <= plain.len(),
        distinct_keys(plain),
    ensures
        forall|i: int|
            0 <= i < n && !has_key(prior, (#[trigger] plain[i]).0) ==> added_paths(
                plain,
                prior,
                n,
            ).contains(plain[i].0),
        forall|j: int|
            0 <= j < added_paths(plain, prior, n).len() ==> !has_key(
                prior,
                #[trigger] added_paths(plain, prior, n)[j],
            ) && key_among(plain, n, added_paths(plain, prior, n)[j]),
        added_paths(plain, prior, n).no_duplicates(),
    decreases n,
{
    let now = added_paths(plain, prior, n);
    if n > 0 {
        let prev = added_paths(plain, prior, (n - 1) as nat);
        let last = plain[n - 1].0;
        lemma_added_paths(plain, prior, (n - 1) as nat);
        assert forall|i: int| 0 <= i < n && !has_key(prior, (#[trigger] plain[i]).0) implies now.contains(
            plain[i].0,
        ) by {
            if i < n - 1 {
                let j = choose|j: int| 0 <= j < prev.len() && prev[j] == plain[i].0;
                assert(now[j] == plain[i].0);
            } else {
                assert(now[now.len() - 1] == last);
            }
        }
        assert forall|j: int| 0 <= j < now.len() implies !has_key(prior, #[trigger] now[j])
            && key_among(plain, n, now[j]) by {
            if j < prev.len() {
                assert(now[j] == prev[j]);
                assert(key_among(plain, (n - 1) as nat, prev[j]));
                let w = choose|w: int|
                    0 <= w < n - 1 && w < plain.len() && (#[trigger] plain[w]).0 == prev[j];
                assert(plain[w].0 == now[j]);
            } else {
                assert(plain[n - 1].0 == now[j]);
            }
        }
        assert forall|j: int, k: int| 0 <= j < now.len() && 0 <= k < now.len() && j != k implies now[j]
            != now[k] by {
            if j < prev.len() && k < prev.len() {
                assert(now[j] == prev[j] && now[k] == prev[k]);
            } else {
                let old_one = if j < prev.len() {
                    j
                } else {
                    k
                };
                assert(key_among(plain, (n - 1) as nat, prev[old_one]));
                let w = choose|w: int|
                    0 <= w < n - 1 && w < plain.len() && (#[trigger] plain[w]).0 == prev[old_one];
                assert(plain[w].0 != plain[n - 1].0);
            }
        }
    }
}

/// The entries that the steps emit: each step that emits something has its
/// entry, each entry comes from a step, and no path has two.
pub proof fn lemma_changed_chunks(steps: Seq<PathStepView>, answers: Seq<Update>, n: nat)
    requires
        n <= steps.len(),
        distinct_steps(steps),
    ensures
        forall|i: int|
            0 <= i < n && emitted(steps, answers, i) is Some ==> changed_chunks(
                steps,
                answers,
                n,
            ).contains((step_path(#[trigger] steps[i]), emitted(steps, answers, i).unwrap())),
        forall|j: int|
            0 <= j < changed_chunks(steps, answers, n).len() ==> emitted_among(
                steps,
                answers,
                n,
                #[trigger] changed_chunks(steps, answers, n)[j],
            ),
        one_entry_each(changed_chunks(steps, answers, n)),
    decreases n,
{
    let now = changed_chunks(steps, answers, n);
    if n > 0 {
        let prev = changed_chunks(steps, answers, (n - 1) as nat);
        lemma_changed_chunks(steps, answers, (n - 1) as nat);
        assert forall|i: int| 0 <= i < n && emitted(steps, answers, i) is Some implies now.contains(
            (step_path(#[trigger] steps[i]), emitted(steps, answers, i).unwrap()),
        ) by {
            let e = (step_path(steps[i]), emitted(steps, answers, i).unwrap());
            if i < n - 1 {
                let j = choose|j: int| 0 <= j < prev.len() && prev[j] == e;
                assert(now[j] == e);
            } else {
                assert(now[now.len() - 1] == e);
            }
        }
        assert forall|j: int| 0 <= j < now.len() implies emitted_among(
            steps,
            answers,
            n,
            #[trigger] now[j],
        ) by {
            if j < prev.len() {
                assert(now[j] == prev[j]);
                assert(emitted_among(steps, answers, (n - 1) as nat, prev[j]));
                let w = choose|w: int|
                    0 <= w < n - 1 && w < steps.len() && step_path(#[trigger] steps[w]) == prev[j].0
                        && emitted(steps, answers, w) == Some(prev[j].1);
                assert(step_path(steps[w]) == now[j].0);
            } else {
                assert(step_path(steps[n - 1]) == now[j].0);
            }
        }
        assert forall|j: int, k: int| 0 <= j < now.len() && 0 <= k < now.len() && j != k implies (
        #[trigger] now[j]).0 != (#[trigger] now[k]).0 by {
            if j < prev.len() && k < prev.len() {
                assert(now[j] == prev[j] && now[k] == prev[k]);
            } else {
                let old_one = if j < prev.len() {
                    j
                } else {
                    k
                };
                assert(emitted_among(steps, answers, (n - 1) as nat, prev[old_one]));
                let w = choose|w: int|
                    0 <= w < n - 1 && w < steps.len() && step_path(#[trigger] steps[w])
                        == prev[old_one].0 && emitted(steps, answers, w) == Some(prev[old_one].1);
                assert(step_path(steps[w]) != step_path(steps[n - 1]));
            }
        }
    }
}

/// Steps that are all diffs, with answers that all say `Unchanged`, emit
/// nothing.
pub proof fn lemma_nothing_changed(steps: Seq<PathStepView>, answers: Seq<Update>, n: nat)
    requires
        n <= steps.len(),
        answers.len() == answered(steps, steps.len()),
        forall|i: int| 0 <= i < steps.len() ==> (#[trigger] steps[i]) is Diff,
        forall|i: int| 0 <= i < answers.len() ==> (#[trigger] answers[i]) is Unchanged,
    ensures
        changed_chunks(steps, answers, n).len() == 0,
    decreases n,
{
    if n > 0 {
        lemma_nothing_changed(steps, answers, (n - 1) as nat);
        lemma_answered_grows(steps, n, steps.len());
        assert(steps[n - 1] is Diff);
        assert(answers[answered(steps, (n - 1) as nat) as int] is Unchanged);
    }
}

/// Where the earlier snapshot has every current path, none is added.
pub proof fn lemma_nothing_added(plain: Seq<(Seq<char>, u64)>, prior: Seq<(Seq<char>, u64)>, n: nat)
    requires
        n <= plain.len(),
        forall|i: int| 0 <= i < plain.len() ==> has_key(prior, (#[trigger] plain[i]).0),
    ensures
        added_paths(plain, prior, n).len() == 0,
    decreases n,
{
    if n > 0 {
        lemma_nothing_added(plain, prior, (n - 1) as nat);
        assert(has_key(prior, plain[n - 1].0));
    }
}

/// Answers that all say `Unchanged` carry no instruction.
pub proof fn lemma_nothing_merged(answers: Seq<Update>, n: nat)
    requires
        n <= answers.len(),
        forall|i: int| 0 <= i < answers.len() ==> (#[trigger] answers[i]) is Unchanged,
    ensures
        merged_instructions(answers, n).len() == 0,
    decreases n,
{
    if n > 0 {
        lemma_nothing_merged(answers, (n - 1) as nat);
        assert(answers[n - 1] is Unchanged);
    }
}

/// No spurious changes: where every diff of a chunk and of a merger group
/// answers `Unchanged`, and the earlier snapshot and the current list have the
/// same plain paths, the update is `Unchanged`.
pub proof fn law_no_spurious_changes(
    content: ChunkListContent,
    from: ChunkListVersion,
    chunk_answers: Seq<Update>,
    merged_answers: Seq<Update>,
)
    requires
        chunk_answers.len() == answered(
            planned(content, from).paths,
            planned(content, from).paths.len(),
        ),
        forall|i: int| 0 <= i < chunk_answers.len() ==> (#[trigger] chunk_answers[i]) is Unchanged,
        forall|i: int|
            0 <= i < merged_answers.len() ==> (#[trigger] merged_answers[i]) is Unchanged,
        forall|i: int|
            0 <= i < entries(from.by_path).len() ==> has_key(
                plain_chunks(content.chunks@, content.chunks@.len()),
                (#[trigger] entries(from.by_path)[i]).0,
            ),
        forall|i: int|
            0 <= i < plain_chunks(content.chunks@, content.chunks@.len()).len() ==> has_key(
                entries(from.by_path),
                (#[trigger] plain_chunks(content.chunks@, content.chunks@.len())[i]).0,
            ),
    ensures
        outcome(planned(content, from), chunk_answers, merged_answers) == ListUpdateView::Unchanged,
{
    let plan = planned(content, from);
    let prior = entries(from.by_path);
    let plain = plain_chunks(content.chunks@, content.chunks@.len());
    assert forall|i: int| 0 <= i < plan.paths.len() implies (#[trigger] plan.paths[i]) is Diff by {
        assert(has_key(plain, prior[i].0));
    }
    lemma_nothing_changed(plan.paths, chunk_answers, plan.paths.len());
    lemma_nothing_added(plain, prior, plain.len());
    lemma_nothing_merged(merged_answers, merged_answers.len());
}

/// Merger escalation: where the diff of one merger group answers `Total`, the
/// update of the list is total and names the current version, whatever the
/// chunks' own diffs say.
pub proof fn law_merger_escalation(
    content: ChunkListContent,
    from: ChunkListVersion,
    chunk_answers: Seq<Update>,
    merged_answers: Seq<Update>,
    group: int,
)
    requires
        0 <= group < merged_answers.len(),
        merged_answers[group] is Total,
    ensures
        outcome(planned(content, from), chunk_answers, merged_answers) == (ListUpdateView::Total {
            to: content.version,
        }),
{
}

/// A partial update names the version of the plan and never has an empty
/// payload: with nothing to report the update is `Unchanged`.
pub proof fn law_partial_is_never_empty(
    content: ChunkListContent,
    from: ChunkListVersion,
    chunk_answers: Seq<Update>,
    merged_answers: Seq<Update>,
)
    ensures
        outcome(planned(content, from), chunk_answers, merged_answers) matches ListUpdateView::Partial {
            to,
            instruction,
        } ==> to == content.version && instruction.chunks.len() + instruction.merged.len() > 0,
        payload(planned(content, from), chunk_answers, merged_answers).chunks.len() == 0 && payload(
            planned(content, from),
            chunk_answers,
            merged_answers,
        ).merged.len() == 0 ==> !(outcome(planned(content, from), chunk_answers, merged_answers)
            is Partial),
{
}

/// Path accounting: a path that only the earlier snapshot has is reported
/// `Deleted`; a plain path that only the current list has is reported `Added`;
/// a path that both have is reported as its own diff says, and not at all where
/// that says `Unchanged`; and no path is reported twice.
pub proof fn law_path_accounting(
    content: ChunkListContent,
    from: ChunkListVersion,
    chunk_answers: Seq<Update>,
    merged_answers: Seq<Update>,
)
    requires
        distinct_keys(entries(from.by_path)),
    ensures
        ({
            let prior = entries(from.by_path);
            let plain = plain_chunks(content.chunks@, content.chunks@.len());
            let plan = planned(content, from);
            let chunks = payload(plan, chunk_answers, merged_answers).chunks;
            &&& forall|i: int|
                0 <= i < prior.len() && !has_key(plain, (#[trigger] prior[i]).0) ==> chunks.contains(
                    (prior[i].0, ChunkUpdate::Deleted),
                )
            &&& forall|i: int|
                0 <= i < plain.len() && !has_key(prior, (#[trigger] plain[i]).0) ==> chunks.contains(
                    (plain[i].0, ChunkUpdate::Added),
                )
            &&& forall|i: int|
                0 <= i < prior.len() && has_key(plain, (#[trigger] prior[i]).0) ==> match emitted(
                    plan.paths,
                    chunk_answers,
                    i,
                ) {
                    Some(u) => chunks.contains((prior[i].0, u)),
                    None => !reports(chunks, prior[i].0),
                }
            &&& one_entry_each(chunks)
        }),
{
    let prior = entries(from.by_path);
    let plain = plain_chunks(content.chunks@, content.chunks@.len());
    let plan = planned(content, from);
    let steps = plan.paths;
    let changed = changed_chunks(steps, chunk_answers, steps.len());
    let added = plan.added;
    let chunks = payload(plan, chunk_answers, merged_answers).chunks;
    assert(chunks == changed + added_chunks(added));
    assert forall|i: int| 0 <= i < steps.len() implies step_path(#[trigger] steps[i])
        == prior[i].0 by {}
    assert(distinct_steps(steps)) by {
        assert forall|i: int, j: int|
            0 <= i < steps.len() && 0 <= j < steps.len() && i != j implies step_path(
            #[trigger] steps[i],
        ) != step_path(#[trigger] steps[j]) by {
            assert(prior[i].0 != prior[j].0);
        }
    }
    lemma_changed_chunks(steps, chunk_answers, steps.len());
    law_plain_chunks_by_path(content.chunks@, content.chunks@.len());
    lemma_added_paths(plain, prior, plain.len());

    // An entry of `changed` is about a path of the earlier snapshot.
    assert forall|j: int| 0 <= j < changed.len() implies has_key(prior, (#[trigger] changed[j]).0) by {
        assert(emitted_among(steps, chunk_answers, steps.len(), changed[j]));
        let w = choose|w: int|
            0 <= w < steps.len() && step_path(#[trigger] steps[w]) == changed[j].0 && emitted(
                steps,
                chunk_answers,
                w,
            ) == Some(changed[j].1);
        assert(prior[w].0 == changed[j].0);
    }
    assert forall|i: int| 0 <= i < prior.len() implies match emitted(steps, chunk_answers, i) {
        Some(u) => chunks.contains(((#[trigger] prior[i]).0, u)),
        None => !reports(chunks, prior[i].0),
    } by {
        match emitted(steps, chunk_answers, i) {
            Some(u) => {
                assert(changed.contains((step_path(steps[i]), u)));
                let j = choose|j: int| 0 <= j < changed.len() && changed[j] == (prior[i].0, u);
                assert(chunks[j] == (prior[i].0, u));
            },
            None => {
                if reports(chunks, prior[i].0) {
                    let j = choose|j: int|
                        0 <= j < chunks.len() && (#[trigger] chunks[j]).0 == prior[i].0;
                    if j < changed.len() {
                        assert(chunks[j] == changed[j]);
                        assert(emitted_among(steps, chunk_answers, steps.len(), changed[j]));
                        let w = choose|w: int|
                            0 <= w < steps.len() && step_path(#[trigger] steps[w]) == changed[j].0
                                && emitted(steps, chunk_answers, w) == Some(changed[j].1);
                        assert(step_path(steps[i]) == step_path(steps[w]));
                        assert(w == i);
                    } else {
                        assert(chunks[j].0 == added[j - changed.len()]);
                        assert(!has_key(prior, added[j - changed.len()]));
                    }
                }
            },
        }
    }
    assert forall|i: int|
        0 <= i < prior.len() && !has_key(plain, (#[trigger] prior[i]).0) implies chunks.contains(
        (prior[i].0, ChunkUpdate::Deleted),
    ) by {
        assert(steps[i] is Gone);
        assert(emitted(steps, chunk_answers, i) == Some(ChunkUpdate::Deleted));
    }
    assert forall|i: int|
        0 <= i < plain.len() && !has_key(prior, (#[trigger] plain[i]).0) implies chunks.contains(
        (plain[i].0, ChunkUpdate::Added),
    ) by {
        assert(added.contains(plain[i].0));
        let j = choose|j: int| 0 <= j < added.len() && added[j] == plain[i].0;
        assert(chunks[changed.len() + j] == (plain[i].0, ChunkUpdate::Added));
    }
    assert forall|j: int, k: int|
        0 <= j < chunks.len() && 0 <= k < chunks.len() && j != k implies (#[trigger] chunks[j]).0 != (
    #[trigger] chunks[k]).0 by {
        if j < changed.len() && k < changed.len() {
            assert(chunks[j] == changed[j] && chunks[k] == changed[k]);
        } else if j >= changed.len() && k >= changed.len() {
            assert(chunks[j].0 == added[j - changed.len()]);
            assert(chunks[k].0 == added[k - changed.len()]);
        } else {
            let c = if j < changed.len() {
                j
            } else {
                k
            };
            let a = if j < changed.len() {
                k
            } else {
                j
            };
            assert(chunks[c] == changed[c]);
            assert(has_key(prior, changed[c].0));
            assert(chunks[a].0 == added[a - changed.len()]);
            assert(!has_key(prior, added[a - changed.len()]));
        }
    }
}

/// Paths come and go: a path that the earlier snapshot has and at which the
/// current list has no plain chunk is reported `Deleted`; a path at which the
/// current list has a plain chunk and that the earlier snapshot lacks is
/// reported `Added`; a path that neither has is not reported.
pub proof fn law_paths_come_and_go(
    content: ChunkListContent,
    from: ChunkListVersion,
    chunk_answers: Seq<Update>,
    merged_answers: Seq<Update>,
    p: Seq<char>,
)
    requires
        distinct_keys(entries(from.by_path)),
    ensures
        ({
            let prior = entries(from.by_path);
            let listed = plain_among(content.chunks@, content.chunks@.len(), p);
            let chunks = payload(planned(content, from), chunk_answers, merged_answers).chunks;
            &&& has_key(prior, p) && !listed ==> chunks.contains((p, ChunkUpdate::Deleted))
            &&& !has_key(prior, p) && listed ==> chunks.contains((p, ChunkUpdate::Added))
            &&& !has_key(prior, p) && !listed ==> !reports(chunks, p)
        }),
{
    let prior = entries(from.by_path);
    let plain = plain_chunks(content.chunks@, content.chunks@.len());
    let plan = planned(content, from);
    let steps = plan.paths;
    let changed = changed_chunks(steps, chunk_answers, steps.len());
    let added = plan.added;
    let chunks = payload(plan, chunk_answers, merged_answers).chunks;
    law_path_accounting(content, from, chunk_answers, merged_answers);
    law_plain_chunks_by_path(content.chunks@, content.chunks@.len());
    assert(has_key(plain, p) <==> plain_among(content.chunks@, content.chunks@.len(), p));
    if has_key(prior, p) {
        let i = key_index(prior, p);
        assert(prior[i].0 == p);
    }
    if has_key(plain, p) {
        let i = key_index(plain, p);
        assert(plain[i].0 == p);
    }
    if reports(chunks, p) && !has_key(prior, p) {
        let j = choose|j: int| 0 <= j < chunks.len() && (#[trigger] chunks[j]).0 == p;
        assert(distinct_steps(steps)) by {
            assert forall|a: int, b: int|
                0 <= a < steps.len() && 0 <= b < steps.len() && a != b implies step_path(
                #[trigger] steps[a],
            ) != step_path(#[trigger] steps[b]) by {
                assert(prior[a].0 != prior[b].0);
            }
        }
        lemma_changed_chunks(steps, chunk_answers, steps.len());
        lemma_added_paths(plain, prior, plain.len());
        if j < changed.len() {
            assert(chunks[j] == changed[j]);
            assert(emitted_among(steps, chunk_answers, steps.len(), changed[j]));
            let w = choose|w: int|
                0 <= w < steps.len() && step_path(#[trigger] steps[w]) == changed[j].0 && emitted(
                    steps,
                    chunk_answers,
                    w,
                ) == Some(changed[j].1);
            assert(prior[w].0 == p);
        } else {
            let a = j - changed.len();
            assert(chunks[j].0 == added[a]);
            assert(key_among(plain, plain.len(), added[a]));
            let w = choose|w: int|
                0 <= w < plain.len() && w < plain.len() && (#[trigger] plain[w]).0 == added[a];
            assert(plain[w].0 == p);
            assert(has_key(plain, p));
        }
    }
}

} // verus!
