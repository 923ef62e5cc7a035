use context_ledger::capture::{
    active_block_operations_shadowed, active_summary_texts, capture_notices,
    capture_tool_results, check_shadowing, filter_effective_reasoning, find_unique_tool_call,
    reasoning_suppression,
    reject_active_summary_overlap, ActiveBlockTarget, ActiveSummarySpan,
    ContextToolResultSelection, ReasoningCandidate, ReasoningFilterStats,
};
use context_ledger::model::{ContentBlock, JsonValue, Role, StoredContextBlockKind, StoredMessage};
use context_ledger::session::{
    ContextServiceError, StoredContextAuthorization, StoredContextEmergencyPolicy,
    StoredContextOperation, StoredContextStatusEvent, StoredContextTransaction,
    StoredContextTransactionStatusKind, StoredContextViewState, StoredMessageRange,
    StoredRangeSummary,
};

fn message(id: &str, role: Role, content: Vec<ContentBlock>) -> StoredMessage {
    StoredMessage { id: id.to_string(), role, content, display_role: None, timestamp: None }
}

fn call(id: &str, name: &str) -> ContentBlock {
    ContentBlock::ToolUse {
        id: id.to_string(),
        name: name.to_string(),
        input: JsonValue::Str(format!("input-{id}")),
        thought_signature: None,
    }
}

fn result(id: &str, is_error: Option<bool>) -> ContentBlock {
    ContentBlock::ToolResult { tool_use_id: id.to_string(), content: "out".to_string(), is_error }
}

fn transcript() -> Vec<StoredMessage> {
    vec![
        message("m0", Role::User, vec![ContentBlock::Text { text: "go".to_string() }]),
        message("m1", Role::Assistant, vec![call("c1", "read"), call("c2", "bash")]),
        message("m2", Role::User, vec![result("c1", Some(false)), result("c2", Some(true))]),
        message("m3", Role::User, vec![result("c9", None)]),
    ]
}

fn selection(id: &str, ordinal: usize) -> ContextToolResultSelection {
    ContextToolResultSelection { message_id: id.to_string(), block_ordinal: ordinal }
}

fn invalid(r: ContextServiceError) -> String {
    match r {
        ContextServiceError::InvalidSelection(m) => m,
        other => panic!("unexpected error {other:?}"),
    }
}

#[test]
fn unique_tool_call_is_found_once_or_refused() {
    let messages = transcript();
    let (name, input) = find_unique_tool_call(&messages, "c2").expect("found");
    assert_eq!(name, "bash");
    assert!(matches!(input, JsonValue::Str(s) if s == "input-c2"));
    assert_eq!(
        invalid(find_unique_tool_call(&messages, "c9").unwrap_err()),
        "matching ToolUse not found for result c9"
    );
    let mut doubled = transcript();
    doubled[0].content.push(call("c1", "read"));
    assert_eq!(
        invalid(find_unique_tool_call(&doubled, "c1").unwrap_err()),
        "matching ToolUse is ambiguous for result c1"
    );
}

#[test]
fn tool_results_are_captured_in_selection_order() {
    let messages = transcript();
    let estimate = |block: &ContentBlock| match block {
        ContentBlock::ToolResult { is_error: Some(true), .. } => 5,
        _ => 11,
    };
    let (works, notices) = capture_tool_results(
        &messages,
        &[],
        &[selection("m2", 1), selection("m2", 0)],
        &estimate,
    )
    .expect("captured");
    assert!(notices.is_empty());
    assert_eq!(works.len(), 2);
    assert_eq!(works[0].request_id, "tool-1");
    assert_eq!(works[0].tool_call_id, "c2");
    assert_eq!(works[0].tool_name, "bash");
    assert_eq!(works[0].is_error, Some(true));
    assert_eq!(works[0].original_token_estimate, 5);
    assert_eq!((works[0].message_index, works[0].block_index), (2, 1));
    assert_eq!(works[1].request_id, "tool-2");
    assert_eq!(works[1].tool_name, "read");
    assert_eq!(works[1].original_token_estimate, 11);
}

#[test]
fn tool_results_inside_summaries_are_omitted_with_a_notice() {
    let messages = transcript();
    let (works, notices) = capture_tool_results(
        &messages,
        &[(2, 3)],
        &[selection("m2", 0), selection("m2", 1)],
        &|_: &ContentBlock| 1,
    )
    .expect("captured");
    assert!(works.is_empty());
    assert_eq!(
        notices,
        vec![
            "Tool result m2 block 0 is inside a selected summary range and was omitted.".to_string(),
            "Tool result m2 block 1 is inside a selected summary range and was omitted.".to_string(),
        ]
    );
}

#[test]
fn bad_tool_result_selections_are_refused() {
    let messages = transcript();
    let est = |_: &ContentBlock| 1;
    let err = |sels: Vec<ContextToolResultSelection>| {
        invalid(capture_tool_results(&messages, &[], &sels, &est).unwrap_err())
    };
    assert_eq!(err(vec![selection("nope", 0)]), "tool-result message not found: nope");
    assert_eq!(err(vec![selection("m2", 5)]), "tool-result block is out of bounds: m2 block 5");
    assert_eq!(
        err(vec![selection("m2", 0), selection("m2", 0)]),
        "tool-result target was selected more than once: m2 block 0"
    );
    assert_eq!(err(vec![selection("m1", 0)]), "selected block is not a ToolResult: m1 block 0");
    assert_eq!(err(vec![selection("m3", 0)]), "matching ToolUse not found for result c9");
}

fn transaction(id: &str, kind: StoredContextTransactionStatusKind, summaries: &[&str]) -> StoredContextTransaction {
    StoredContextTransaction {
        id: id.to_string(),
        created_at: 0,
        base_revision: 0,
        authorization: StoredContextAuthorization::Manual { initiated_by: None },
        operations: summaries
            .iter()
            .map(|text| {
                StoredContextOperation::RangeSummary(StoredRangeSummary {
                    source_range: StoredMessageRange {
                        start_message_id: "m0".to_string(),
                        end_message_id: "m1".to_string(),
                        start_index_hint: 0,
                        end_index_hint: 1,
                        message_count: 2,
                    },
                    summary: text.to_string(),
                    source_token_estimate: 0,
                    replacement_token_estimate: 0,
                    file_change_digest: "no files changed".to_string(),
                    changed_files: Vec::new(),
                    change_evidence_complete: false,
                    file_evidence: None,
                    generator: None,
                    warnings: Vec::new(),
                    created_at: 0,
                })
            })
            .collect(),
        status_events: vec![StoredContextStatusEvent { revision: 1, timestamp: 0, kind, reason: None }],
        application: None,
        economics: None,
        emergency_audit: None,
    }
}

#[test]
fn active_summary_texts_come_from_active_transactions_only() {
    let state = StoredContextViewState {
        revision: 3,
        transactions: vec![
            transaction("a", StoredContextTransactionStatusKind::Applied, &["first", "second"]),
            transaction("b", StoredContextTransactionStatusKind::Reverted, &["hidden"]),
            transaction("c", StoredContextTransactionStatusKind::Reapplied, &["third"]),
        ],
        emergency_policy: StoredContextEmergencyPolicy::Block,
    };
    assert_eq!(active_summary_texts(&state), vec!["first", "second", "third"]);
}

fn candidate(message_index: usize, block_index: usize, kind: StoredContextBlockKind, tokens: usize) -> ReasoningCandidate {
    ReasoningCandidate { message_index, block_index, kind, estimated_tokens: tokens }
}

#[test]
fn reasoning_targets_already_handled_are_dropped_and_counted() {
    let candidates = vec![
        candidate(1, 0, StoredContextBlockKind::OpenAiReasoning, 10),
        candidate(2, 0, StoredContextBlockKind::Reasoning, 20),
        candidate(4, 0, StoredContextBlockKind::AnthropicThinking, 30),
        candidate(5, 1, StoredContextBlockKind::Reasoning, 40),
        candidate(6, 0, StoredContextBlockKind::Reasoning, usize::MAX),
        candidate(6, 2, StoredContextBlockKind::AnthropicThinking, 1),
        candidate(7, 0, StoredContextBlockKind::Reasoning, 2),
    ];
    let filtered = filter_effective_reasoning(&candidates, &[(1, 1)], &[(2, 3)], &[(4, 0), (9, 9)]);
    let kept: Vec<(usize, usize)> =
        filtered.retained.iter().map(|c| (c.message_index, c.block_index)).collect();
    assert_eq!(kept, vec![(5, 1), (6, 0), (6, 2), (7, 0)]);
    assert_eq!(filtered.stats.selected_summary_targets, 1);
    assert_eq!(filtered.stats.active_summary_targets, 1);
    assert_eq!(filtered.stats.already_suppressed_targets, 1);
    assert_eq!(filtered.assistant_turns_affected, 3);
    assert_eq!(
        filtered.replay_block_kinds,
        vec![StoredContextBlockKind::Reasoning, StoredContextBlockKind::AnthropicThinking]
    );
    assert_eq!(filtered.original_token_estimate, usize::MAX);

    let messages: Vec<StoredMessage> = (0..8)
        .map(|i| StoredMessage {
            id: format!("m{i}"),
            role: Role::Assistant,
            content: Vec::new(),
            display_role: None,
            timestamp: None,
        })
        .collect();
    let stored = reasoning_suppression(&filtered, &messages);
    let targets: Vec<(&str, usize, StoredContextBlockKind)> =
        stored.targets.iter().map(|t| (t.message_id.as_str(), t.block_index, t.kind)).collect();
    assert_eq!(
        targets,
        vec![
            ("m5", 1, StoredContextBlockKind::Reasoning),
            ("m6", 0, StoredContextBlockKind::Reasoning),
            ("m6", 2, StoredContextBlockKind::AnthropicThinking),
            ("m7", 0, StoredContextBlockKind::Reasoning),
        ]
    );
    assert_eq!(stored.assistant_turns_affected, 3);
    assert_eq!(stored.original_token_estimate, usize::MAX);
    assert_eq!(stored.replay_block_kinds, filtered.replay_block_kinds);
    assert!(stored.validation.is_empty());
}

#[test]
fn overlapping_active_summaries_are_refused_by_name() {
    let spans = vec![
        ActiveSummarySpan { transaction_id: "t1".to_string(), operation_index: 0, start: 0, end: 1 },
        ActiveSummarySpan { transaction_id: "t2".to_string(), operation_index: 3, start: 5, end: 8 },
    ];
    assert!(reject_active_summary_overlap(&spans, &[(2, 4)]).is_ok());
    match reject_active_summary_overlap(&spans, &[(2, 4), (8, 9)]).unwrap_err() {
        ContextServiceError::Conflict(m) => assert_eq!(m, "selected range overlaps active summary t2 operation 3"),
        other => panic!("unexpected {other:?}"),
    }
}

#[test]
fn shadowed_operations_are_named_sorted_and_refused_unless_allowed() {
    let target = |tx: &str, op: usize, mi: usize| ActiveBlockTarget {
        transaction_id: tx.to_string(),
        operation_index: op,
        message_index: mi,
    };
    let shadowed = active_block_operations_shadowed(
        &[target("tb", 1, 3), target("ta", 2, 4), target("tb", 1, 4), target("tc", 0, 9)],
        &[(3, 5)],
    );
    assert_eq!(shadowed, vec!["ta:2".to_string(), "tb:1".to_string()]);
    assert!(check_shadowing(&shadowed, true).is_ok());
    assert!(check_shadowing(&Vec::new(), false).is_ok());
    match check_shadowing(&shadowed, false).unwrap_err() {
        ContextServiceError::Conflict(m) => {
            assert_eq!(m, "selected summaries would shadow active operations: ta:2, tb:1")
        }
        other => panic!("unexpected {other:?}"),
    }
    let notices = capture_notices(
        &shadowed,
        ReasoningFilterStats { selected_summary_targets: 2, active_summary_targets: 0, already_suppressed_targets: 1 },
    );
    assert_eq!(
        notices,
        vec![
            "Selected summaries shadow active operation ta:2.".to_string(),
            "Selected summaries shadow active operation tb:1.".to_string(),
            "Selected summaries already replace 2 staged replayed-reasoning block target(s); those targets were omitted.".to_string(),
            "Active context transactions already suppressed 1 requested replayed-reasoning block target(s); only newly eligible exact targets remain staged.".to_string(),
        ]
    );
}
