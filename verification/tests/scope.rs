use context_ledger::curator::ContextCuratorError;
use context_ledger::evidence::category::PathEvidence;
use context_ledger::evidence::extract::FileEvidence;
use context_ledger::model::{ContentBlock, JsonValue, Role, StoredMessage};
use context_ledger::scope::{
    public_scope, range_scope, task_target_label, tool_scope, tool_source_exclusions,
    ContextCuratorRangeWork, ContextCuratorSourcePurpose, ContextCuratorTaskKind,
    ContextCuratorToolWork, ScopedMessage,
};
use context_ledger::session::StoredMessageRange;
use ContextCuratorSourcePurpose::{PrimaryToolCall, PrimaryToolResult, SupportingConversation};

fn message(id: &str, role: Role, content: Vec<ContentBlock>) -> StoredMessage {
    StoredMessage { id: id.to_string(), role, content, display_role: None, timestamp: None }
}

fn text(value: &str) -> ContentBlock {
    ContentBlock::Text { text: value.to_string() }
}

fn call(id: &str) -> ContentBlock {
    ContentBlock::ToolUse {
        id: id.to_string(),
        name: "read".to_string(),
        input: JsonValue::Null,
        thought_signature: None,
    }
}

fn result(id: &str) -> ContentBlock {
    ContentBlock::ToolResult { tool_use_id: id.to_string(), content: "out".to_string(), is_error: None }
}

fn transcript() -> Vec<StoredMessage> {
    vec![
        message("m0", Role::User, vec![text("please read")]),
        message("m1", Role::Assistant, vec![text("reading"), call("c1")]),
        message("m2", Role::User, vec![result("c1")]),
        message("m3", Role::Assistant, vec![text("after"), call("c2")]),
        message("m4", Role::User, vec![result("c2")]),
    ]
}

fn work(request_id: &str, call_id: &str, message_index: usize) -> ContextCuratorToolWork {
    ContextCuratorToolWork {
        request_id: request_id.to_string(),
        message_index,
        block_index: 0,
        tool_name: "read".to_string(),
        tool_call_id: call_id.to_string(),
        tool_input: JsonValue::Null,
        is_error: None,
        original_token_estimate: 100,
    }
}

fn entries(scope: &[ScopedMessage]) -> Vec<(ContextCuratorSourcePurpose, usize, Vec<usize>, bool)> {
    scope
        .iter()
        .map(|s| (s.purpose, s.message_index, s.block_ordinals.clone(), s.includes_all_blocks))
        .collect()
}

#[test]
fn exclusions_list_each_result_then_its_calls() {
    let messages = transcript();
    let tools = vec![work("t1", "c1", 2), work("t2", "c2", 4)];
    assert_eq!(tool_source_exclusions(&messages, &tools), vec![(2, 0), (1, 1), (4, 0), (3, 1)]);
}

#[test]
fn tool_scope_shows_own_source_and_isolated_support() {
    let messages = transcript();
    let tools = vec![work("t1", "c1", 2), work("t2", "c2", 4)];
    let exclusions = tool_source_exclusions(&messages, &tools);
    let scope = tool_scope(&messages, &tools[0], &[], &exclusions).expect("scope");
    assert_eq!(
        entries(&scope),
        vec![
            (PrimaryToolCall, 1, vec![1], false),
            (PrimaryToolResult, 2, vec![0], false),
            (SupportingConversation, 0, vec![], true),
            (SupportingConversation, 1, vec![0], false),
            (SupportingConversation, 3, vec![0], false),
        ]
    );
}

#[test]
fn tool_scope_skips_messages_selected_for_summary() {
    let messages = transcript();
    let tools = vec![work("t1", "c1", 2), work("t2", "c2", 4)];
    let exclusions = tool_source_exclusions(&messages, &tools);
    let scope = tool_scope(&messages, &tools[0], &[(3, 4), (0, 0)], &exclusions).expect("scope");
    assert_eq!(
        entries(&scope),
        vec![
            (PrimaryToolCall, 1, vec![1], false),
            (PrimaryToolResult, 2, vec![0], false),
            (SupportingConversation, 1, vec![0], false),
        ]
    );
}

#[test]
fn tool_scope_needs_exactly_one_matching_call() {
    let messages = transcript();
    let missing = tool_scope(&messages, &work("t9", "none", 2), &[], &[]).unwrap_err();
    assert!(matches!(missing, ContextCuratorError::InvalidResponse(m)
        if m == "tool task \"t9\" requires exactly one matching ToolUse, found 0"));
    let mut doubled = transcript();
    doubled[3].content.push(call("c1"));
    let twice = tool_scope(&doubled, &work("t1", "c1", 2), &[], &[]).unwrap_err();
    assert!(matches!(twice, ContextCuratorError::InvalidResponse(m)
        if m == "tool task \"t1\" requires exactly one matching ToolUse, found 2"));
}

#[test]
fn range_scope_covers_the_closed_interval_whole() {
    let scope = range_scope(2, 4);
    assert_eq!(
        entries(&scope),
        vec![
            (ContextCuratorSourcePurpose::PrimaryRange, 2, vec![], true),
            (ContextCuratorSourcePurpose::PrimaryRange, 3, vec![], true),
            (ContextCuratorSourcePurpose::PrimaryRange, 4, vec![], true),
        ]
    );
    assert!(range_scope(5, 4).is_empty());
}

#[test]
fn public_scope_names_messages_and_summaries() {
    let messages = transcript();
    let scope = range_scope(1, 2);
    let mut scope = scope;
    scope.push(ScopedMessage {
        purpose: ContextCuratorSourcePurpose::SupportingConversation,
        message_index: 9,
        block_ordinals: vec![0],
        includes_all_blocks: false,
    });
    let public = public_scope(&messages, &scope, &["summary".to_string()]);
    assert_eq!(public.len(), 4);
    assert_eq!(public[0].message_id.as_deref(), Some("m1"));
    assert_eq!(public[0].stored_index, Some(1));
    assert_eq!(public[1].message_id.as_deref(), Some("m2"));
    assert_eq!(public[2].message_id, None);
    assert_eq!(public[2].stored_index, Some(9));
    assert_eq!(public[2].block_ordinals, vec![0]);
    assert_eq!(public[3].purpose, ContextCuratorSourcePurpose::ActiveSummary);
    assert_eq!(public[3].stored_index, None);
    assert!(public[3].includes_all_blocks);
}

fn complete() -> PathEvidence {
    PathEvidence { paths: Vec::new(), complete: true, warnings: Vec::new() }
}

#[test]
fn task_labels_name_the_range_or_the_tool_call() {
    let range = ContextCuratorTaskKind::Range(ContextCuratorRangeWork {
        request_id: "r1".to_string(),
        source_range: StoredMessageRange {
            start_message_id: "m1".to_string(),
            end_message_id: "m3".to_string(),
            start_index_hint: 1,
            end_index_hint: 3,
            message_count: 3,
        },
        file_evidence: FileEvidence {
            changed: complete(),
            read_or_inspected: complete(),
            searched_or_browsed: complete(),
        },
        additional_instructions: String::new(),
    });
    assert_eq!(task_target_label(&range), "range 1..3 (3 messages)");
    let tool = ContextCuratorTaskKind::Tool(work("t1", "c1", 2));
    assert_eq!(task_target_label(&tool), "read result for call c1");
}

#[test]
fn replacement_block_preserves_original_tool_result_error_metadata() {
    let mut failing = work("tool-1", "call-1", 2);
    failing.is_error = Some(true);
    match context_ledger::scope::replacement_tool_result_block(&failing, "short".to_string()) {
        ContentBlock::ToolResult { tool_use_id, content, is_error } => {
            assert_eq!(tool_use_id, "call-1");
            assert_eq!(content, "short");
            assert_eq!(is_error, Some(true));
        }
        other => panic!("unexpected block {other:?}"),
    }
}
