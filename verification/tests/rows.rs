use context_ledger::model::{ContentBlock, JsonValue, Role, StoredContextBlockKind, StoredMessage};
use context_ledger::rows::{
    block_badges, editor_rows, message_badges, summary_coverage, tool_group_ids,
    ResolvedOperation, ResolvedTargets,
};
use context_ledger::snapshot::ContextOperationBadgeKind;

fn stored(id: &str, role: Role, content: Vec<ContentBlock>) -> StoredMessage {
    StoredMessage { id: id.to_string(), role, content, display_role: None, timestamp: Some(7) }
}

fn text(value: &str) -> ContentBlock {
    ContentBlock::Text { text: value.to_string() }
}

fn op(tx: &str, index: usize, kind: ContextOperationBadgeKind, targets: ResolvedTargets) -> ResolvedOperation {
    ResolvedOperation { transaction_id: tx.to_string(), operation_index: index, kind, targets }
}

fn estimates(messages: &[StoredMessage]) -> Vec<Vec<usize>> {
    messages.iter().map(|m| vec![3; m.content.len()]).collect()
}

#[test]
fn snapshot_is_bounded_image_safe_and_provider_aware() {
    let messages = vec![stored(
        "m1",
        Role::Assistant,
        vec![
            ContentBlock::Reasoning { text: "replayed".to_string() },
            ContentBlock::ReasoningTrace { text: "history only".to_string() },
            ContentBlock::Image { media_type: "image/png".to_string(), data: "A".repeat(20_000) },
        ],
    )];
    let rows = editor_rows(
        &messages,
        &[],
        &estimates(&messages),
        &vec![10],
        &vec![10],
        &vec![StoredContextBlockKind::Reasoning],
    );
    assert_eq!(rows.len(), 1);
    assert!(rows[0].preview.len() < 2_000);
    assert!(!rows[0].preview.contains(&"A".repeat(100)));
    assert!(rows[0].removable_reasoning_kinds.contains(&StoredContextBlockKind::Reasoning));
    assert!(!rows[0].removable_reasoning_kinds.contains(&StoredContextBlockKind::ReasoningTrace));
    assert!(rows[0].blocks[2].has_image_payload);
    assert!(rows[0].blocks[0].provider_removable_reasoning);
    assert!(!rows[0].blocks[1].provider_removable_reasoning);
    assert_eq!(rows[0].timestamp, Some(7));
}

#[test]
fn snapshot_reports_active_block_operation_badges() {
    let messages = vec![
        stored(
            "call",
            Role::Assistant,
            vec![ContentBlock::ToolUse {
                id: "tool-1".to_string(),
                name: "read".to_string(),
                input: JsonValue::Null,
                thought_signature: Some("sig".to_string()),
            }],
        ),
        stored(
            "result",
            Role::User,
            vec![ContentBlock::ToolResult {
                tool_use_id: "tool-1".to_string(),
                content: "long output".repeat(100),
                is_error: Some(true),
            }],
        ),
    ];
    let ops = vec![op(
        "tx",
        0,
        ContextOperationBadgeKind::ToolResultDistillation,
        ResolvedTargets::Blocks(vec![(1, 0)]),
    )];
    let rows = editor_rows(&messages, &ops, &estimates(&messages), &vec![5, 9], &vec![5, 2], &Vec::new());
    assert_eq!(rows[1].blocks[0].active_operations.len(), 1);
    assert_eq!(rows[1].active_operations.len(), 1);
    assert!(rows[0].active_operations.is_empty());
    assert_eq!(rows[0].blocks[0].tool_name.as_deref(), Some("read"));
    assert!(rows[0].blocks[0].has_tool_thought_signature);
    assert_eq!(rows[1].blocks[0].tool_use_id.as_deref(), Some("tool-1"));
    assert!(rows[1].blocks[0].tool_result_is_error);
    assert_eq!(rows[1].tool_group_ids, vec!["tool-1".to_string()]);
    assert_eq!(rows[1].projected_provider_tokens, 2);
    assert_eq!(rows[1].blocks[0].semantic_id.as_deref(), Some("tool-1"));
}

#[test]
fn summarized_rows_keep_stable_identity_coverage_and_zero_projected_raw_tokens() {
    let messages = vec![
        stored("first", Role::User, vec![text("first source")]),
        stored("second", Role::Assistant, vec![text("second source")]),
        stored("suffix", Role::User, vec![text("suffix remains")]),
    ];
    let ops = vec![op(
        "summary-tx",
        0,
        ContextOperationBadgeKind::RangeSummary,
        ResolvedTargets::Range { start: 0, end: 1 },
    )];
    let rows = editor_rows(&messages, &ops, &estimates(&messages), &vec![4, 4, 4], &vec![0, 0, 4], &Vec::new());
    let ids: Vec<&str> = rows.iter().map(|r| r.message_id.as_str()).collect();
    assert_eq!(ids, vec!["first", "second", "suffix"]);
    for row in &rows[..2] {
        let coverage = row.summary_coverage.as_ref().expect("covered");
        assert_eq!(coverage.transaction_id, "summary-tx");
        assert_eq!(row.projected_provider_tokens, 0);
        assert!(row.raw_provider_tokens > 0);
        assert_eq!(row.active_operations.len(), 1);
    }
    assert!(rows[2].summary_coverage.is_none());
    assert!(rows[2].projected_provider_tokens > 0);
}

#[test]
fn multiple_active_block_operations_produce_distinct_message_and_block_badges() {
    let messages = vec![stored(
        "reasoning",
        Role::Assistant,
        vec![
            ContentBlock::Reasoning { text: "first reasoning".repeat(20) },
            ContentBlock::Reasoning { text: "second reasoning".repeat(20) },
            text("visible"),
        ],
    )];
    let ops = vec![
        op("first-suppression", 0, ContextOperationBadgeKind::ReasoningSuppression, ResolvedTargets::Blocks(vec![(0, 0)])),
        op("second-suppression", 0, ContextOperationBadgeKind::ReasoningSuppression, ResolvedTargets::Blocks(vec![(0, 1)])),
    ];
    let rows = editor_rows(&messages, &ops, &estimates(&messages), &vec![1], &vec![1], &Vec::new());
    assert_eq!(rows[0].active_operations.len(), 2);
    assert_eq!(rows[0].blocks[0].active_operations.len(), 1);
    assert_eq!(rows[0].blocks[1].active_operations.len(), 1);
    assert_ne!(
        rows[0].blocks[0].active_operations[0].transaction_id,
        rows[0].blocks[1].active_operations[0].transaction_id
    );
    assert!(rows[0].blocks[2].active_operations.is_empty());
}

#[test]
fn badges_follow_operation_order_and_repeat_per_target() {
    let ops = vec![
        op("a", 0, ContextOperationBadgeKind::RangeSummary, ResolvedTargets::Range { start: 2, end: 4 }),
        op("b", 1, ContextOperationBadgeKind::ReasoningSuppression, ResolvedTargets::Blocks(vec![(3, 1), (3, 1), (5, 0)])),
        op("c", 2, ContextOperationBadgeKind::RangeSummary, ResolvedTargets::Range { start: 3, end: 3 }),
    ];
    let names = |v: Vec<context_ledger::snapshot::ContextOperationBadge>| -> Vec<String> {
        v.into_iter().map(|b| format!("{}:{}", b.transaction_id, b.operation_index)).collect()
    };
    assert_eq!(names(message_badges(&ops, 3)), vec!["a:0", "b:1", "c:2"]);
    assert_eq!(names(message_badges(&ops, 5)), vec!["b:1"]);
    assert_eq!(names(block_badges(&ops, 3, 1)), vec!["b:1", "b:1"]);
    assert!(block_badges(&ops, 3, 0).is_empty());
    assert_eq!(summary_coverage(&ops, 3).map(|c| c.transaction_id), Some("c".to_string()));
    assert_eq!(summary_coverage(&ops, 4).map(|c| c.transaction_id), Some("a".to_string()));
    assert!(summary_coverage(&ops, 5).is_none());
}

#[test]
fn tool_groups_are_sorted_and_distinct() {
    let message = stored(
        "m",
        Role::Assistant,
        vec![
            ContentBlock::ToolUse { id: "b".to_string(), name: "x".to_string(), input: JsonValue::Null, thought_signature: None },
            ContentBlock::ToolResult { tool_use_id: "a".to_string(), content: String::new(), is_error: None },
            ContentBlock::ToolResult { tool_use_id: "b".to_string(), content: String::new(), is_error: None },
            text("t"),
        ],
    );
    assert_eq!(tool_group_ids(&message), vec!["a".to_string(), "b".to_string()]);
}
