use context_ledger::curator::{ContextCuratorError, StoredContextCuratorRole};
use context_ledger::evidence::category::PathEvidence;
use context_ledger::evidence::extract::FileEvidence;
use context_ledger::model::{ContentBlock, JsonValue, Role, StoredMessage};
use context_ledger::payload::{
    build_task_request, curator_block_payload, range_response_schema, replacement_must_be_below_tokens,
    task_request_document, task_request_message, tool_response_schema, CuratorTaskRequestPayload,
};
use context_ledger::plan::ContextCuratorTask;
use context_ledger::scope::{
    ContextCuratorRangeWork, ContextCuratorSourcePurpose, ContextCuratorTaskKind, ContextCuratorToolWork,
    ScopedMessage,
};
use context_ledger::session::StoredMessageRange;

fn message(id: &str, role: Role, content: Vec<ContentBlock>) -> StoredMessage {
    StoredMessage { id: id.to_string(), role, content, display_role: None, timestamp: None }
}

fn scoped(purpose: ContextCuratorSourcePurpose, message_index: usize, ordinals: Vec<usize>) -> ScopedMessage {
    let includes_all_blocks = ordinals.is_empty();
    ScopedMessage { purpose, message_index, block_ordinals: ordinals, includes_all_blocks }
}

fn tool_work(original: usize) -> ContextCuratorToolWork {
    ContextCuratorToolWork {
        request_id: "tool-1".to_string(),
        message_index: 1,
        block_index: 0,
        tool_name: "read".to_string(),
        tool_call_id: "call-1".to_string(),
        tool_input: JsonValue::Object(vec![("path".to_string(), JsonValue::Str("src/lib.rs".to_string()))]),
        is_error: None,
        original_token_estimate: original,
    }
}

fn task(kind: ContextCuratorTaskKind, scope: Vec<ScopedMessage>) -> ContextCuratorTask {
    ContextCuratorTask {
        task_id: "task-1".to_string(),
        role: StoredContextCuratorRole::ToolResultDistiller,
        kind,
        system_prompt: "prompt".to_string(),
        response_contract: "contract".to_string(),
        scope,
        active_summary_texts: vec!["earlier summary".to_string()],
    }
}

fn str_member<'a>(value: &'a JsonValue, key: &str) -> &'a str {
    value.get_str(key).map(|s| s.as_str()).unwrap_or("")
}

fn transcript() -> Vec<StoredMessage> {
    vec![
        message(
            "call",
            Role::Assistant,
            vec![
                ContentBlock::Text { text: "reading".to_string() },
                ContentBlock::ToolUse {
                    id: "call-1".to_string(),
                    name: "read".to_string(),
                    input: JsonValue::Null,
                    thought_signature: Some("opaque".to_string()),
                },
            ],
        ),
        message(
            "result",
            Role::User,
            vec![
                ContentBlock::ToolResult {
                    tool_use_id: "call-1".to_string(),
                    content: "file contents".to_string(),
                    is_error: Some(false),
                },
                ContentBlock::Image { media_type: "image/png".to_string(), data: "AAAA".to_string() },
            ],
        ),
        message(
            "support",
            Role::User,
            vec![ContentBlock::Image { media_type: "image/jpeg".to_string(), data: "BBBB".to_string() }],
        ),
    ]
}

#[test]
fn tool_task_request_names_images_in_order_and_hides_opaque_state() {
    let messages = transcript();
    let scope = vec![
        scoped(ContextCuratorSourcePurpose::PrimaryToolCall, 0, vec![1]),
        scoped(ContextCuratorSourcePurpose::PrimaryToolResult, 1, Vec::new()),
        scoped(ContextCuratorSourcePurpose::SupportingConversation, 2, Vec::new()),
    ];
    let built = build_task_request(&messages, &task(ContextCuratorTaskKind::Tool(tool_work(1000)), scope)).unwrap();
    assert_eq!(built.images.len(), 2);
    assert_eq!(built.images[0].image_ref, "image-1");
    assert_eq!(built.images[0].media_type, "image/png");
    assert_eq!(built.images[0].data, "AAAA");
    assert_eq!(built.images[1].image_ref, "image-2");
    assert_eq!(built.images[1].data, "BBBB");
    match built.payload {
        CuratorTaskRequestPayload::ToolResultDistillation {
            tool,
            matching_tool_call,
            complete_tool_result,
            supporting_conversation,
            active_context_summaries,
        } => {
            assert_eq!(tool.name, "read");
            assert_eq!(tool.original_token_estimate, 1000);
            assert_eq!(tool.replacement_must_be_below_tokens, 199);
            assert_eq!(matching_tool_call.len(), 1);
            assert_eq!(matching_tool_call[0].sequence, 0);
            assert_eq!(matching_tool_call[0].blocks.len(), 1);
            let call = &matching_tool_call[0].blocks[0];
            assert_eq!(str_member(call, "kind"), "tool_use");
            assert_eq!(str_member(call, "id"), "call-1");
            assert!(matches!(call.get("thought_signature_present"), Some(JsonValue::Bool(true))));
            assert!(call.get("thought_signature").is_none());
            assert_eq!(complete_tool_result.len(), 1);
            assert_eq!(complete_tool_result[0].role, Role::User);
            let result = &complete_tool_result[0].blocks;
            assert_eq!(str_member(&result[0], "type"), "tool_result");
            assert_eq!(str_member(&result[0], "content"), "file contents");
            assert_eq!(str_member(&result[1], "kind"), "image");
            assert_eq!(str_member(&result[1], "image_ref"), "image-1");
            assert!(result[1].get("data").is_none());
            assert_eq!(supporting_conversation.len(), 1);
            assert_eq!(str_member(&supporting_conversation[0].blocks[0], "image_ref"), "image-2");
            assert_eq!(active_context_summaries, vec!["earlier summary".to_string()]);
        }
        CuratorTaskRequestPayload::RangeSummary { .. } => panic!("expected a tool request"),
    }
}

#[test]
fn range_task_request_carries_the_primary_range_and_file_evidence() {
    let messages = transcript();
    let evidence = || PathEvidence { paths: vec!["src/lib.rs".to_string()], complete: true, warnings: Vec::new() };
    let work = ContextCuratorRangeWork {
        request_id: "range-1".to_string(),
        source_range: StoredMessageRange {
            start_message_id: "call".to_string(),
            end_message_id: "result".to_string(),
            start_index_hint: 0,
            end_index_hint: 1,
            message_count: 2,
        },
        file_evidence: FileEvidence { changed: evidence(), read_or_inspected: evidence(), searched_or_browsed: evidence() },
        additional_instructions: String::new(),
    };
    let scope = vec![
        scoped(ContextCuratorSourcePurpose::PrimaryRange, 0, Vec::new()),
        scoped(ContextCuratorSourcePurpose::ActiveSummary, 2, Vec::new()),
        scoped(ContextCuratorSourcePurpose::PrimaryRange, 1, Vec::new()),
    ];
    let built = build_task_request(&messages, &task(ContextCuratorTaskKind::Range(work), scope)).unwrap();
    assert_eq!(built.images.len(), 1);
    match built.payload {
        CuratorTaskRequestPayload::RangeSummary { harness_file_evidence, conversation_slice } => {
            assert_eq!(harness_file_evidence.changed.paths, vec!["src/lib.rs".to_string()]);
            assert_eq!(conversation_slice.len(), 2);
            assert_eq!(conversation_slice[1].sequence, 1);
            assert_eq!(conversation_slice[0].blocks.len(), 2);
            assert_eq!(str_member(&conversation_slice[0].blocks[0], "text"), "reading");
        }
        CuratorTaskRequestPayload::ToolResultDistillation { .. } => panic!("expected a range request"),
    }
}

#[test]
fn scope_naming_a_missing_message_or_block_is_refused() {
    let messages = transcript();
    let missing_message = vec![scoped(ContextCuratorSourcePurpose::PrimaryToolCall, 9, vec![0])];
    match build_task_request(&messages, &task(ContextCuratorTaskKind::Tool(tool_work(10)), missing_message)) {
        Err(ContextCuratorError::InvalidResponse(reason)) => {
            assert_eq!(reason, "curator scope references missing stored message index 9")
        }
        _ => panic!("expected a refusal"),
    }
    let missing_block = vec![scoped(ContextCuratorSourcePurpose::PrimaryToolResult, 2, vec![3])];
    match build_task_request(&messages, &task(ContextCuratorTaskKind::Tool(tool_work(10)), missing_block)) {
        Err(ContextCuratorError::InvalidResponse(reason)) => {
            assert_eq!(reason, "curator scope references missing block 3 in stored message index 2")
        }
        _ => panic!("expected a refusal"),
    }
}

#[test]
fn block_payloads_report_encrypted_state_only_by_presence() {
    let mut images = Vec::new();
    let reasoning = ContentBlock::OpenAIReasoning {
        id: "rs_1".to_string(),
        summary: vec!["step".to_string()],
        encrypted_content: Some("secret".to_string()),
        status: None,
    };
    let value = curator_block_payload(&reasoning, &mut images);
    assert_eq!(str_member(&value, "kind"), "openai_reasoning");
    assert!(matches!(value.get("encrypted_content_present"), Some(JsonValue::Bool(true))));
    assert!(matches!(value.get("status"), Some(JsonValue::Null)));
    assert!(value.get("encrypted_content").is_none());
    let compaction = ContentBlock::OpenAICompaction { compaction_content: String::new() };
    let value = curator_block_payload(&compaction, &mut images);
    assert_eq!(str_member(&value, "kind"), "legacy_openai_compaction");
    assert!(matches!(value.get("encrypted_content_present"), Some(JsonValue::Bool(false))));
    assert!(images.is_empty());
}

#[test]
fn replacement_bound_is_strictly_below_twenty_percent() {
    assert_eq!(replacement_must_be_below_tokens(0), 0);
    assert_eq!(replacement_must_be_below_tokens(5), 0);
    assert_eq!(replacement_must_be_below_tokens(100), 19);
    assert_eq!(replacement_must_be_below_tokens(usize::MAX), (usize::MAX - 1) / 100);
}

#[test]
fn task_request_document_names_the_task_and_its_response_contract() {
    let messages = transcript();
    let scope = vec![
        scoped(ContextCuratorSourcePurpose::PrimaryToolCall, 0, vec![1]),
        scoped(ContextCuratorSourcePurpose::PrimaryToolResult, 1, Vec::new()),
        scoped(ContextCuratorSourcePurpose::SupportingConversation, 2, Vec::new()),
    ];
    let built = build_task_request(&messages, &task(ContextCuratorTaskKind::Tool(tool_work(1000)), scope)).unwrap();
    let document = task_request_document(&built.payload);
    assert_eq!(str_member(&document, "task"), "tool_result_distillation");
    let schema = document.get("response_schema").unwrap();
    assert_eq!(
        str_member(schema, "replacement"),
        str_member(&tool_response_schema(), "replacement")
    );
    assert_eq!(str_member(schema, "replacement"), "required and non-empty only when eligible");
    let tool = document.get("tool").unwrap();
    assert_eq!(str_member(tool, "name"), "read");
    match tool.get("replacement_must_be_below_tokens") {
        Some(JsonValue::Number(n)) => assert_eq!(n.as_u64(), Some(199)),
        _ => panic!("expected a number"),
    }
    match document.get("complete_tool_result") {
        Some(JsonValue::Array(items)) => {
            assert_eq!(items.len(), 1);
            assert_eq!(str_member(&items[0], "role"), "user");
            match items[0].get("sequence") {
                Some(JsonValue::Number(n)) => assert_eq!(n.as_u64(), Some(0)),
                _ => panic!("expected a sequence number"),
            }
        }
        _ => panic!("expected an array"),
    }
    assert_eq!(str_member(&range_response_schema(), "summary"), "non-empty lossless summary");
}

#[test]
fn task_request_message_sends_compact_json_then_each_named_image() {
    let messages = transcript();
    let scope = vec![
        scoped(ContextCuratorSourcePurpose::PrimaryToolCall, 0, vec![1]),
        scoped(ContextCuratorSourcePurpose::PrimaryToolResult, 1, Vec::new()),
        scoped(ContextCuratorSourcePurpose::SupportingConversation, 2, Vec::new()),
    ];
    let built = build_task_request(&messages, &task(ContextCuratorTaskKind::Tool(tool_work(1000)), scope)).unwrap();
    let sent = task_request_message(&built);
    assert_eq!(sent.role, Role::User);
    assert_eq!(sent.content.len(), 5);
    let text = match &sent.content[0] {
        ContentBlock::Text { text } => text.clone(),
        _ => panic!("expected the request text"),
    };
    assert!(!text.contains('\n'));
    assert!(!text.contains("opaque"));
    let parsed: serde_json::Value = serde_json::from_str(&text).unwrap();
    assert_eq!(parsed["task"], "tool_result_distillation");
    assert_eq!(parsed["tool"]["replacement_must_be_below_tokens"], 199);
    assert_eq!(parsed["response_schema"]["eligible"], true);
    assert!(matches!(&sent.content[1], ContentBlock::Text { text } if text == "Image attachment image-1:"));
    assert!(matches!(&sent.content[2], ContentBlock::Image { media_type, data } if media_type == "image/png" && data == "AAAA"));
    assert!(matches!(&sent.content[3], ContentBlock::Text { text } if text == "Image attachment image-2:"));
    assert!(matches!(&sent.content[4], ContentBlock::Image { media_type, data } if media_type == "image/jpeg" && data == "BBBB"));
}
