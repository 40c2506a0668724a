use chunk_list::content::{partition, Chunk, ChunkListContent, ChunkListVersion};
use chunk_list::engine::{
    asks_total, begin_update, count_diffs, settle_early, update_chunk_list, AnswerError, Resolution,
};
use chunk_list::plan::{diff_paths, plan_updates, query_groups, GroupQuery, PathStep, UpdatePlan};
use chunk_list::update::{ChunkListUpdate, ChunkUpdate, ListUpdate, Update};
use indexmap::IndexMap;
use serde_json::Value;

fn plain(path: &str, content: u64) -> Chunk {
    Chunk { path: path.to_string(), content, merger: None }
}

fn merged(path: &str, content: u64, merger: &str) -> Chunk {
    Chunk { path: path.to_string(), content, merger: Some(merger.to_string()) }
}

fn pairs(items: &[(&str, u64)]) -> IndexMap<String, u64> {
    let mut map = IndexMap::new();
    for (key, value) in items {
        map.insert(key.to_string(), *value);
    }
    map
}

fn snapshot(id: u64, by_path: &[(&str, u64)], by_merger: &[(&str, u64)]) -> ChunkListVersion {
    ChunkListVersion { id, by_path: pairs(by_path), by_merger: pairs(by_merger) }
}

fn text(s: &str) -> Value {
    Value::String(s.to_string())
}

fn partial(to: u64, instruction: &str) -> Update {
    Update::Partial { to, instruction: text(instruction) }
}

fn pending(content: &ChunkListContent, from: &ChunkListVersion) -> UpdatePlan {
    match begin_update(content, Some(from)) {
        Resolution::Pending(plan) => plan,
        Resolution::Settled(update) => panic!("settled early: {:?}", update),
    }
}

#[test]
fn same_version_is_unchanged() {
    let content = ChunkListContent { version: 7, chunks: vec![plain("a.js", 1), plain("b.js", 2)] };
    let from = snapshot(7, &[("zzz.js", 1)], &[("M", 3)]);
    assert_eq!(begin_update(&content, Some(&from)), Resolution::Settled(ListUpdate::Unchanged));
}

#[test]
fn unresolved_version_is_total() {
    let content = ChunkListContent { version: 9, chunks: vec![plain("a.js", 1)] };
    assert_eq!(begin_update(&content, None), Resolution::Settled(ListUpdate::Total { to: 9 }));
    let empty = ChunkListContent { version: 3, chunks: vec![] };
    assert_eq!(begin_update(&empty, None), Resolution::Settled(ListUpdate::Total { to: 3 }));
}

#[test]
fn end_to_end_partial() {
    let content = ChunkListContent { version: 200, chunks: vec![plain("a.js", 10), plain("c.js", 12)] };
    let from = snapshot(100, &[("a.js", 1), ("b.js", 1)], &[]);
    let plan = pending(&content, &from);
    assert_eq!(plan.to, 200);
    assert_eq!(
        plan.paths,
        vec![
            PathStep::Diff { path: "a.js".to_string(), content: 10, from: 1 },
            PathStep::Gone { path: "b.js".to_string() },
        ]
    );
    assert_eq!(plan.added, vec!["c.js".to_string()]);
    assert!(plan.groups.is_empty());
    let update = update_chunk_list(&plan, &vec![partial(2, "A")], &vec![]);
    assert_eq!(
        update,
        Ok(ListUpdate::Partial {
            to: 200,
            instruction: ChunkListUpdate {
                chunks: vec![
                    ("a.js".to_string(), ChunkUpdate::Partial { instruction: text("A") }),
                    ("b.js".to_string(), ChunkUpdate::Deleted),
                    ("c.js".to_string(), ChunkUpdate::Added),
                ],
                merged: vec![],
            },
        })
    );
}

#[test]
fn end_to_end_merger_escalation() {
    let content = ChunkListContent {
        version: 200,
        chunks: vec![plain("a.js", 10), merged("m1.css", 20, "M"), merged("m2.css", 21, "M")],
    };
    let from = snapshot(100, &[("a.js", 1)], &[("M", 7)]);
    let plan = pending(&content, &from);
    assert_eq!(
        plan.groups,
        vec![GroupQuery { merger: "M".to_string(), members: vec![20, 21], from: 7 }]
    );
    assert!(plan.added.is_empty());
    let update = update_chunk_list(&plan, &vec![partial(2, "A")], &vec![Update::Total { to: 8 }]);
    assert_eq!(update, Ok(ListUpdate::Total { to: 200 }));
}

#[test]
fn escalation_discards_earlier_group_instructions() {
    let content = ChunkListContent {
        version: 5,
        chunks: vec![merged("x.css", 1, "M"), merged("y.css", 2, "N")],
    };
    let from = snapshot(4, &[], &[("M", 7), ("N", 8)]);
    let plan = pending(&content, &from);
    assert_eq!(plan.groups.len(), 2);
    let update =
        update_chunk_list(&plan, &vec![], &vec![partial(9, "first"), Update::Total { to: 9 }]);
    assert_eq!(update, Ok(ListUpdate::Total { to: 5 }));
}

#[test]
fn nothing_changed_is_unchanged() {
    let content = ChunkListContent {
        version: 2,
        chunks: vec![plain("a.js", 10), plain("b.js", 11), merged("m.css", 12, "M")],
    };
    let from = snapshot(1, &[("a.js", 1), ("b.js", 1)], &[("M", 3)]);
    let plan = pending(&content, &from);
    let update = update_chunk_list(
        &plan,
        &vec![Update::Unchanged, Update::Unchanged],
        &vec![Update::Unchanged],
    );
    assert_eq!(update, Ok(ListUpdate::Unchanged));
}

#[test]
fn empty_list_against_empty_snapshot_is_unchanged() {
    let content = ChunkListContent { version: 2, chunks: vec![] };
    let from = snapshot(1, &[], &[]);
    let plan = pending(&content, &from);
    assert_eq!(update_chunk_list(&plan, &vec![], &vec![]), Ok(ListUpdate::Unchanged));
}

#[test]
fn chunk_total_stays_at_chunk_level() {
    let content = ChunkListContent { version: 2, chunks: vec![plain("a.js", 10), plain("b.js", 11)] };
    let from = snapshot(1, &[("b.js", 5), ("a.js", 6)], &[]);
    let plan = pending(&content, &from);
    assert_eq!(
        plan.paths,
        vec![
            PathStep::Diff { path: "b.js".to_string(), content: 11, from: 5 },
            PathStep::Diff { path: "a.js".to_string(), content: 10, from: 6 },
        ]
    );
    let update = update_chunk_list(&plan, &vec![Update::Total { to: 3 }, Update::Unchanged], &vec![]);
    assert_eq!(
        update,
        Ok(ListUpdate::Partial {
            to: 2,
            instruction: ChunkListUpdate {
                chunks: vec![("b.js".to_string(), ChunkUpdate::Total)],
                merged: vec![],
            },
        })
    );
}

#[test]
fn answers_are_taken_in_the_order_of_the_diffs() {
    let content = ChunkListContent { version: 2, chunks: vec![plain("a.js", 10), plain("c.js", 12)] };
    let from = snapshot(1, &[("a.js", 1), ("b.js", 2), ("c.js", 3)], &[]);
    let plan = pending(&content, &from);
    assert_eq!(count_diffs(&plan.paths), 2);
    let update = update_chunk_list(&plan, &vec![partial(5, "for a"), partial(6, "for c")], &vec![]);
    assert_eq!(
        update,
        Ok(ListUpdate::Partial {
            to: 2,
            instruction: ChunkListUpdate {
                chunks: vec![
                    ("a.js".to_string(), ChunkUpdate::Partial { instruction: text("for a") }),
                    ("b.js".to_string(), ChunkUpdate::Deleted),
                    ("c.js".to_string(), ChunkUpdate::Partial { instruction: text("for c") }),
                ],
                merged: vec![],
            },
        })
    );
}

#[test]
fn added_paths_keep_listing_order() {
    let content = ChunkListContent {
        version: 2,
        chunks: vec![plain("a.js", 1), plain("b.js", 2), plain("c.js", 3), plain("d.js", 4)],
    };
    let from = snapshot(1, &[("a.js", 9)], &[]);
    let plan = plan_updates(&content, &from);
    assert_eq!(plan.added, vec!["b.js".to_string(), "c.js".to_string(), "d.js".to_string()]);
    let update = update_chunk_list(&plan, &vec![Update::Unchanged], &vec![]);
    assert_eq!(
        update,
        Ok(ListUpdate::Partial {
            to: 2,
            instruction: ChunkListUpdate {
                chunks: vec![
                    ("b.js".to_string(), ChunkUpdate::Added),
                    ("c.js".to_string(), ChunkUpdate::Added),
                    ("d.js".to_string(), ChunkUpdate::Added),
                ],
                merged: vec![],
            },
        })
    );
}

#[test]
fn merged_instructions_follow_group_order() {
    let content = ChunkListContent {
        version: 2,
        chunks: vec![
            merged("n1.css", 1, "N"),
            merged("m1.css", 2, "M"),
            merged("n2.css", 3, "N"),
            merged("k1.css", 4, "K"),
        ],
    };
    let from = snapshot(1, &[], &[("M", 70), ("N", 71), ("K", 72)]);
    let plan = pending(&content, &from);
    assert_eq!(
        plan.groups,
        vec![
            GroupQuery { merger: "N".to_string(), members: vec![1, 3], from: 71 },
            GroupQuery { merger: "M".to_string(), members: vec![2], from: 70 },
            GroupQuery { merger: "K".to_string(), members: vec![4], from: 72 },
        ]
    );
    let update = update_chunk_list(
        &plan,
        &vec![],
        &vec![partial(5, "n"), Update::Unchanged, partial(5, "k")],
    );
    assert_eq!(
        update,
        Ok(ListUpdate::Partial {
            to: 2,
            instruction: ChunkListUpdate { chunks: vec![], merged: vec![text("n"), text("k")] },
        })
    );
}

#[test]
fn new_merger_is_passed_over() {
    let content = ChunkListContent {
        version: 2,
        chunks: vec![merged("m1.css", 1, "M"), merged("n1.css", 2, "N")],
    };
    let from = snapshot(1, &[], &[("N", 71)]);
    let plan = pending(&content, &from);
    assert_eq!(plan.groups, vec![GroupQuery { merger: "N".to_string(), members: vec![2], from: 71 }]);
    assert!(plan.paths.is_empty());
    assert!(plan.added.is_empty());
    assert_eq!(update_chunk_list(&plan, &vec![], &vec![Update::Unchanged]), Ok(ListUpdate::Unchanged));
}

#[test]
fn path_that_became_mergeable_is_deleted() {
    let content = ChunkListContent { version: 2, chunks: vec![merged("a.css", 1, "M")] };
    let from = snapshot(1, &[("a.css", 4)], &[]);
    let plan = pending(&content, &from);
    assert_eq!(plan.paths, vec![PathStep::Gone { path: "a.css".to_string() }]);
    assert_eq!(
        update_chunk_list(&plan, &vec![], &vec![]),
        Ok(ListUpdate::Partial {
            to: 2,
            instruction: ChunkListUpdate {
                chunks: vec![("a.css".to_string(), ChunkUpdate::Deleted)],
                merged: vec![],
            },
        })
    );
}

#[test]
fn wrong_number_of_chunk_answers() {
    let content = ChunkListContent { version: 2, chunks: vec![plain("a.js", 1)] };
    let from = snapshot(1, &[("a.js", 9)], &[]);
    let plan = pending(&content, &from);
    assert_eq!(update_chunk_list(&plan, &vec![], &vec![]), Err(AnswerError::ChunkCount));
    assert_eq!(
        update_chunk_list(&plan, &vec![Update::Unchanged, Update::Unchanged], &vec![]),
        Err(AnswerError::ChunkCount)
    );
}

#[test]
fn wrong_number_of_group_answers() {
    let content = ChunkListContent { version: 2, chunks: vec![merged("a.css", 1, "M")] };
    let from = snapshot(1, &[], &[("M", 9)]);
    let plan = pending(&content, &from);
    assert_eq!(update_chunk_list(&plan, &vec![], &vec![]), Err(AnswerError::GroupCount));
    assert_eq!(
        update_chunk_list(&plan, &vec![Update::Unchanged], &vec![Update::Unchanged]),
        Err(AnswerError::ChunkCount)
    );
}

#[test]
fn partition_files_each_chunk_once() {
    let content = ChunkListContent {
        version: 2,
        chunks: vec![
            plain("a.js", 1),
            merged("m1.css", 2, "M"),
            plain("b.js", 3),
            merged("m2.css", 4, "M"),
            merged("n1.css", 5, "N"),
        ],
    };
    let parts = partition(&content);
    assert_eq!(parts.plain, pairs(&[("a.js", 1), ("b.js", 3)]));
    let plain_order: Vec<(String, u64)> =
        parts.plain.iter().map(|(k, v)| (k.clone(), *v)).collect();
    assert_eq!(plain_order, vec![("a.js".to_string(), 1), ("b.js".to_string(), 3)]);
    assert_eq!(parts.groups.len(), 2);
    assert_eq!(parts.groups[0].merger, "M");
    assert_eq!(parts.groups[0].members, vec![2, 4]);
    assert_eq!(parts.groups[1].merger, "N");
    assert_eq!(parts.groups[1].members, vec![5]);
}

#[test]
fn path_listed_twice_keeps_its_place_and_takes_the_later_content() {
    let content = ChunkListContent {
        version: 2,
        chunks: vec![plain("a.js", 1), plain("b.js", 2), plain("a.js", 3)],
    };
    let parts = partition(&content);
    let plain_order: Vec<(String, u64)> =
        parts.plain.iter().map(|(k, v)| (k.clone(), *v)).collect();
    assert_eq!(plain_order, vec![("a.js".to_string(), 3), ("b.js".to_string(), 2)]);
}

#[test]
fn diff_paths_matches_by_path_only() {
    let current = pairs(&[("a.js", 10), ("b.js", 11), ("c.js", 12)]);
    let prior = pairs(&[("c.js", 1), ("x.js", 2), ("a.js", 3)]);
    let (steps, added) = diff_paths(&current, &prior);
    assert_eq!(
        steps,
        vec![
            PathStep::Diff { path: "c.js".to_string(), content: 12, from: 1 },
            PathStep::Gone { path: "x.js".to_string() },
            PathStep::Diff { path: "a.js".to_string(), content: 10, from: 3 },
        ]
    );
    assert_eq!(added, vec!["b.js".to_string()]);
}

#[test]
fn query_groups_copies_members_and_version() {
    let content = ChunkListContent {
        version: 2,
        chunks: vec![merged("m1.css", 2, "M"), merged("m2.css", 4, "M")],
    };
    let parts = partition(&content);
    let queries = query_groups(&parts.groups, &pairs(&[("M", 33)]));
    assert_eq!(queries, vec![GroupQuery { merger: "M".to_string(), members: vec![2, 4], from: 33 }]);
    assert!(query_groups(&parts.groups, &pairs(&[("other", 33)])).is_empty());
}

#[test]
fn payload_emptiness() {
    let empty = ChunkListUpdate { chunks: vec![], merged: vec![] };
    assert!(empty.is_empty());
    let chunks_only =
        ChunkListUpdate { chunks: vec![("a.js".to_string(), ChunkUpdate::Added)], merged: vec![] };
    assert!(!chunks_only.is_empty());
    let merged_only = ChunkListUpdate { chunks: vec![], merged: vec![Value::Null] };
    assert!(!merged_only.is_empty());
}

#[test]
fn merged_answers_may_stop_at_a_total_one() {
    let content = ChunkListContent {
        version: 5,
        chunks: vec![merged("x.css", 1, "M"), merged("y.css", 2, "N"), merged("z.css", 3, "K")],
    };
    let from = snapshot(4, &[], &[("M", 7), ("N", 8), ("K", 9)]);
    let plan = pending(&content, &from);
    assert_eq!(plan.groups.len(), 3);
    let stopped = vec![partial(9, "first"), Update::Total { to: 9 }];
    assert_eq!(update_chunk_list(&plan, &vec![], &stopped), Ok(ListUpdate::Total { to: 5 }));
    let short = vec![partial(9, "first"), Update::Unchanged];
    assert_eq!(update_chunk_list(&plan, &vec![], &short), Err(AnswerError::GroupCount));
    let long = vec![Update::Unchanged, Update::Unchanged, Update::Unchanged, Update::Total { to: 1 }];
    assert_eq!(update_chunk_list(&plan, &vec![], &long), Err(AnswerError::GroupCount));
}

#[test]
fn asks_total_finds_a_total_answer() {
    assert!(!asks_total(&vec![]));
    assert!(!asks_total(&vec![Update::Unchanged, partial(1, "p")]));
    assert!(asks_total(&vec![Update::Unchanged, Update::Total { to: 1 }, partial(1, "p")]));
}

#[test]
fn settle_early_by_handles() {
    assert_eq!(settle_early(4, None), Some(ListUpdate::Total { to: 4 }));
    assert_eq!(settle_early(4, Some(4)), Some(ListUpdate::Unchanged));
    assert_eq!(settle_early(4, Some(3)), None);
}

#[test]
fn partial_names_the_current_version() {
    let content = ChunkListContent { version: 77, chunks: vec![plain("a.js", 1)] };
    let from = snapshot(1, &[], &[]);
    let plan = pending(&content, &from);
    match update_chunk_list(&plan, &vec![], &vec![]) {
        Ok(ListUpdate::Partial { to, instruction }) => {
            assert_eq!(to, 77);
            assert!(!instruction.is_empty());
        }
        other => panic!("not partial: {:?}", other),
    }
}
