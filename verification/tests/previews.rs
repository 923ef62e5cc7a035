use context_ledger::model::StoredContextBlockKind;
use context_ledger::previews::{operation_previews, ContextOperationPreview};
use context_ledger::proposals::CapturedRange;
use context_ledger::protocol::ContextDistillationProposal;
use context_ledger::session::{
    StoredContextOperation, StoredMessageRange, StoredRangeSummary, StoredReasoningSuppression,
    StoredToolResultDistillation,
};

fn range(start: &str, end: &str) -> StoredMessageRange {
    StoredMessageRange {
        start_message_id: start.to_string(),
        end_message_id: end.to_string(),
        start_index_hint: 0,
        end_index_hint: 1,
        message_count: 2,
    }
}

fn distillation(call: &str) -> StoredToolResultDistillation {
    StoredToolResultDistillation {
        tool_use_id: call.to_string(),
        tool_name: "read".to_string(),
        replacement: "short".to_string(),
        original_token_estimate: 1000,
        replacement_token_estimate: 100,
        replacement_ratio_millionths: 100_000,
        preservation_rationale: "keeps the facts".to_string(),
    }
}

fn proposal(id: &str, call: &str, selected: bool) -> ContextDistillationProposal {
    ContextDistillationProposal { proposal_id: id.to_string(), selected_by_default: selected, operation: distillation(call) }
}

#[test]
fn previews_follow_operations_in_order_and_name_their_sources() {
    let ops = vec![
        StoredContextOperation::RangeSummary(StoredRangeSummary {
            source_range: range("m1", "m2"),
            summary: "summary".to_string(),
            source_token_estimate: 900,
            replacement_token_estimate: 90,
            file_change_digest: "no files changed".to_string(),
            changed_files: vec!["src/a.rs".to_string()],
            change_evidence_complete: true,
            file_evidence: Some(evidence()),
            generator: None,
            warnings: Vec::new(),
            created_at: 0,
        }),
        StoredContextOperation::ReasoningSuppression(StoredReasoningSuppression {
            targets: vec![reasoning_target("a1"), reasoning_target("a2")],
        assistant_turns_affected: 2,
        original_token_estimate: 64,
            replay_block_kinds: vec![StoredContextBlockKind::Reasoning],
            validation: Vec::new(),
        }),
        StoredContextOperation::ToolResultDistillation(distillation("call-2")),
        StoredContextOperation::ToolResultDistillation(distillation("call-9")),
    ];
    let ranges = vec![
        CapturedRange { request_id: "range-old".to_string(), source_range: range("m1", "m2"), file_evidence: evidence(), source_token_estimate: 900 },
        CapturedRange { request_id: "range-other".to_string(), source_range: range("m5", "m6"), file_evidence: evidence(), source_token_estimate: 10 },
        CapturedRange { request_id: "range-new".to_string(), source_range: range("m1", "m2"), file_evidence: evidence(), source_token_estimate: 900 },
    ];
    let proposals = vec![proposal("p-1", "call-1", false), proposal("p-2", "call-2", true)];
    let previews = operation_previews(&ops, &ranges, &proposals);
    assert_eq!(previews.len(), 4);
    match &previews[0] {
        ContextOperationPreview::RangeSummary {
            request_id,
            source_range,
            source_tokens,
            replacement_tokens,
            changed_files,
            change_evidence_complete,
            file_evidence,
        } => {
            assert_eq!(changed_files, &vec!["src/a.rs".to_string()]);
            assert!(*change_evidence_complete);
            assert_eq!(file_evidence.as_ref().unwrap().changed.paths, vec!["src/a.rs".to_string()]);
            assert_eq!(request_id, "range-new");
            assert_eq!(source_range.start_message_id, "m1");
            assert_eq!(*source_tokens, 900);
            assert_eq!(*replacement_tokens, 90);
        }
        other => panic!("unexpected preview {other:?}"),
    }
    match &previews[1] {
        ContextOperationPreview::ReasoningSuppression {
            target_count,
            assistant_turns_affected,
            replay_block_kinds,
            removed_tokens,
        } => {
            assert_eq!(*assistant_turns_affected, 2);
            assert_eq!(*removed_tokens, 64);
            assert_eq!(*target_count, 2);
            assert_eq!(replay_block_kinds, &vec![StoredContextBlockKind::Reasoning]);
        }
        other => panic!("unexpected preview {other:?}"),
    }
    match &previews[2] {
        ContextOperationPreview::ToolResultDistillation {
            proposal_id,
            tool_name,
            tool_call_id,
            original_tokens,
            replacement_tokens,
            selected_by_default,
        } => {
            assert_eq!(proposal_id, "p-2");
            assert_eq!(tool_name, "read");
            assert_eq!(tool_call_id, "call-2");
            assert_eq!(*original_tokens, 1000);
            assert_eq!(*replacement_tokens, 100);
            assert!(*selected_by_default);
        }
        other => panic!("unexpected preview {other:?}"),
    }
    match &previews[3] {
        ContextOperationPreview::ToolResultDistillation { proposal_id, selected_by_default, .. } => {
            assert_eq!(proposal_id, "");
            assert!(!*selected_by_default);
        }
        other => panic!("unexpected preview {other:?}"),
    }
}

#[test]
fn a_range_without_captured_metadata_has_an_empty_request_id() {
    let ops = vec![StoredContextOperation::RangeSummary(StoredRangeSummary {
        source_range: range("x", "y"),
        summary: "s".to_string(),
        source_token_estimate: 5,
        replacement_token_estimate: 1,
        file_change_digest: "no files changed".to_string(),
        changed_files: Vec::new(),
        change_evidence_complete: false,
        file_evidence: None,
        generator: None,
        warnings: Vec::new(),
        created_at: 0,
    })];
    let previews = operation_previews(&ops, &[], &[]);
    match &previews[0] {
        ContextOperationPreview::RangeSummary { request_id, .. } => assert_eq!(request_id, ""),
        other => panic!("unexpected preview {other:?}"),
    }
}

fn reasoning_target(message_id: &str) -> context_ledger::session::StoredReasoningTarget {
    context_ledger::session::StoredReasoningTarget {
        message_id: message_id.to_string(),
        block_index: 0,
        kind: context_ledger::model::StoredContextBlockKind::Reasoning,
    }
}

fn evidence() -> context_ledger::evidence::extract::FileEvidence {
    let category = |paths: Vec<&str>| context_ledger::evidence::category::PathEvidence {
        paths: paths.into_iter().map(String::from).collect(),
        complete: true,
        warnings: Vec::new(),
    };
    context_ledger::evidence::extract::FileEvidence {
        changed: category(vec!["src/a.rs"]),
        read_or_inspected: category(Vec::new()),
        searched_or_browsed: category(Vec::new()),
    }
}
