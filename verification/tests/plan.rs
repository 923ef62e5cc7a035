use context_ledger::curator::{ContextCuratorError, StoredContextCuratorRole, RANGE_SUMMARIZER_BASE_PROMPT, TOOL_DISTILLER_BASE_PROMPT};
use context_ledger::evidence::category::PathEvidence;
use context_ledger::evidence::extract::FileEvidence;
use context_ledger::model::{ContentBlock, JsonValue, Role, StoredMessage};
use context_ledger::plan::build_curator_tasks;
use context_ledger::scope::{
    ContextCuratorRangeWork, ContextCuratorSourcePurpose, ContextCuratorTaskKind, ContextCuratorToolWork,
};
use context_ledger::session::StoredMessageRange;

fn message(id: String, role: Role, content: Vec<ContentBlock>) -> StoredMessage {
    StoredMessage { id, role, content, display_role: None, timestamp: None }
}

fn evidence() -> FileEvidence {
    let complete = || PathEvidence { paths: Vec::new(), complete: true, warnings: Vec::new() };
    FileEvidence { changed: complete(), read_or_inspected: complete(), searched_or_browsed: complete() }
}

fn fixture() -> (Vec<StoredMessage>, Vec<ContextCuratorRangeWork>, Vec<(usize, usize)>, Vec<ContextCuratorToolWork>) {
    let mut messages = Vec::new();
    let mut ranges = Vec::new();
    let mut intervals = Vec::new();
    for index in 0..3 {
        messages.push(message(
            format!("range-message-{index}"),
            Role::User,
            vec![ContentBlock::Text { text: format!("RANGE_SOURCE_SENTINEL_{index}") }],
        ));
        let i = messages.len() - 1;
        ranges.push(ContextCuratorRangeWork {
            request_id: format!("range-{}", index + 1),
            source_range: StoredMessageRange {
                start_message_id: format!("range-message-{index}"),
                end_message_id: format!("range-message-{index}"),
                start_index_hint: i,
                end_index_hint: i,
                message_count: 1,
            },
            file_evidence: evidence(),
            additional_instructions: format!("RANGE_ONLY_INSTRUCTION_{index}"),
        });
        intervals.push((i, i));
    }
    let mut tools = Vec::new();
    for index in 0..5 {
        let call_id = format!("call-{index}");
        messages.push(message(
            format!("tool-call-message-{index}"),
            Role::Assistant,
            vec![ContentBlock::ToolUse {
                id: call_id.clone(),
                name: "read".to_string(),
                input: JsonValue::Null,
                thought_signature: None,
            }],
        ));
        messages.push(message(
            format!("tool-result-message-{index}"),
            Role::User,
            vec![ContentBlock::ToolResult {
                tool_use_id: call_id.clone(),
                content: format!("TOOL_RESULT_SENTINEL_{index}"),
                is_error: Some(false),
            }],
        ));
        tools.push(ContextCuratorToolWork {
            request_id: format!("tool-{}", index + 1),
            message_index: messages.len() - 1,
            block_index: 0,
            tool_name: "read".to_string(),
            tool_call_id: call_id,
            tool_input: JsonValue::Null,
            is_error: Some(false),
            original_token_estimate: 1_000,
        });
    }
    (messages, ranges, intervals, tools)
}

#[test]
fn three_ranges_and_five_tools_make_eight_isolated_role_specific_tasks() {
    let (messages, ranges, intervals, tools) = fixture();
    let tasks = build_curator_tasks(
        &messages,
        ranges,
        &intervals,
        tools,
        &vec!["ACTIVE_SUMMARY".to_string()],
        "TRANSACTION_WIDE_INSTRUCTION",
        "RANGE_CONTRACT",
        "TOOL_CONTRACT",
    )
    .expect("plan tasks");
    assert_eq!(tasks.len(), 8);
    for (index, task) in tasks.iter().take(3).enumerate() {
        assert_eq!(task.role, StoredContextCuratorRole::RangeSummarizer);
        assert_eq!(task.task_id, format!("range-{}", index + 1));
        assert!(task.system_prompt.starts_with(RANGE_SUMMARIZER_BASE_PROMPT));
        assert!(task.system_prompt.contains("TRANSACTION_WIDE_INSTRUCTION"));
        assert!(task.system_prompt.contains(&format!("RANGE_ONLY_INSTRUCTION_{index}")));
        for other in 0..3 {
            if other != index {
                assert!(!task.system_prompt.contains(&format!("RANGE_ONLY_INSTRUCTION_{other}")));
            }
        }
        assert_eq!(task.response_contract, "RANGE_CONTRACT");
        assert_eq!(task.scope.len(), 1);
        assert_eq!(task.scope[0].message_index, index);
        assert!(task.scope[0].includes_all_blocks);
        assert!(task.active_summary_texts.is_empty());
        assert!(matches!(&task.kind, ContextCuratorTaskKind::Range(work) if work.request_id == task.task_id));
    }
    for (index, task) in tasks.iter().skip(3).enumerate() {
        assert_eq!(task.role, StoredContextCuratorRole::ToolResultDistiller);
        assert!(task.system_prompt.starts_with(TOOL_DISTILLER_BASE_PROMPT));
        assert!(task.system_prompt.contains("TRANSACTION_WIDE_INSTRUCTION"));
        assert!(!task.system_prompt.contains("RANGE_ONLY_INSTRUCTION_"));
        assert_eq!(task.active_summary_texts, vec!["ACTIVE_SUMMARY".to_string()]);
        let result_message = 3 + 2 * index + 1;
        assert_eq!(task.scope[0].purpose, ContextCuratorSourcePurpose::PrimaryToolCall);
        assert_eq!(task.scope[0].message_index, result_message - 1);
        assert_eq!(task.scope[1].purpose, ContextCuratorSourcePurpose::PrimaryToolResult);
        assert_eq!(task.scope[1].message_index, result_message);
        for entry in task.scope.iter().skip(2) {
            assert_eq!(entry.purpose, ContextCuratorSourcePurpose::SupportingConversation);
            assert!(entry.message_index >= 3, "range messages never support a tool task");
            assert!(
                !(entry.message_index >= 3 && entry.message_index != result_message - 1 && entry.message_index != result_message),
                "other tool calls and results never support a tool task"
            );
        }
    }
}

#[test]
fn a_tool_task_without_its_call_refuses_the_plan() {
    let (mut messages, ranges, intervals, tools) = fixture();
    messages[5].content.clear();
    messages[5].content.push(ContentBlock::Text { text: "call removed".to_string() });
    let error = match build_curator_tasks(&messages, ranges, &intervals, tools, &Vec::new(), "", "R", "T") {
        Err(e) => e,
        Ok(_) => panic!("plan must be refused"),
    };
    assert!(matches!(error, ContextCuratorError::InvalidResponse(m)
        if m == "tool task \"tool-2\" requires exactly one matching ToolUse, found 0"));
}
