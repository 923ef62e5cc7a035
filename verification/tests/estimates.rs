use context_ledger::estimates::{copy_filled_range_estimates, fill_range_replacement_estimates, ProjectedSummaryEstimate};
use context_ledger::session::{
    StoredContextOperation, StoredMessageRange, StoredRangeSummary, StoredToolResultDistillation,
};

fn summary(replacement: usize) -> StoredContextOperation {
    StoredContextOperation::RangeSummary(StoredRangeSummary {
        source_range: StoredMessageRange {
            start_message_id: "m0".to_string(),
            end_message_id: "m1".to_string(),
            start_index_hint: 0,
            end_index_hint: 1,
            message_count: 2,
        },
        summary: "summary".to_string(),
        source_token_estimate: 400,
        replacement_token_estimate: replacement,
        file_change_digest: "no files changed".to_string(),
        changed_files: Vec::new(),
        change_evidence_complete: false,
        file_evidence: None,
        generator: None,
        warnings: Vec::new(),
        created_at: 0,
    })
}

fn distillation() -> StoredContextOperation {
    StoredContextOperation::ToolResultDistillation(StoredToolResultDistillation {
        tool_use_id: "call-1".to_string(),
        tool_name: "read".to_string(),
        replacement: "short".to_string(),
        original_token_estimate: 100,
        replacement_token_estimate: 5,
        replacement_ratio_millionths: 50_000,
        preservation_rationale: "kept".to_string(),
    })
}

fn replacement_of(op: &StoredContextOperation) -> Option<usize> {
    match op {
        StoredContextOperation::RangeSummary(s) => Some(s.replacement_token_estimate),
        _ => None,
    }
}

fn estimate(transaction_id: &str, operation_index: usize, tokens: usize) -> ProjectedSummaryEstimate {
    ProjectedSummaryEstimate { transaction_id: transaction_id.to_string(), operation_index, tokens }
}

#[test]
fn projected_summaries_fill_only_their_own_transaction_operations() {
    let mut operations = vec![summary(0), distillation(), summary(0)];
    let estimates = vec![
        estimate("draft-1", 0, 42),
        estimate("other", 2, 99),
        estimate("draft-1", 1, 7),
        estimate("draft-1", 9, 11),
    ];
    fill_range_replacement_estimates(&estimates, "draft-1", &mut operations);
    assert_eq!(replacement_of(&operations[0]), Some(42));
    assert!(matches!(&operations[1], StoredContextOperation::ToolResultDistillation(d) if d.replacement_token_estimate == 5));
    assert_eq!(replacement_of(&operations[2]), Some(0));
}

#[test]
fn a_later_projected_estimate_replaces_an_earlier_one() {
    let mut operations = vec![summary(0)];
    fill_range_replacement_estimates(&[estimate("t", 0, 10), estimate("t", 0, 12)], "t", &mut operations);
    assert_eq!(replacement_of(&operations[0]), Some(12));
}

#[test]
fn filled_estimates_carry_over_position_by_position() {
    let all = vec![summary(31), summary(32), distillation()];
    let mut required = vec![summary(0), distillation()];
    copy_filled_range_estimates(&all, &mut required);
    assert_eq!(replacement_of(&required[0]), Some(31));
    assert!(matches!(&required[1], StoredContextOperation::ToolResultDistillation(_)));
    assert_eq!(required.len(), 2);
}
