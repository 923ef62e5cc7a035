use context_ledger::proposals::{ready_draft_notices, required_operations};
use context_ledger::session::{StoredContextOperation, StoredReasoningSuppression};
use context_ledger::curator::ContextCuratorToolArtifact;
use context_ledger::model::JsonValue;
use context_ledger::proposals::{distillation_proposals, replacement_ratio_millionths};
use context_ledger::scope::ContextCuratorToolWork;
use context_ledger::session::ContextServiceError;

fn work(request_id: &str, call_id: &str, original: usize) -> ContextCuratorToolWork {
    ContextCuratorToolWork {
        request_id: request_id.to_string(),
        message_index: 1,
        block_index: 0,
        tool_name: "read".to_string(),
        tool_call_id: call_id.to_string(),
        tool_input: JsonValue::Null,
        is_error: None,
        original_token_estimate: original,
    }
}

fn eligible(estimate: usize) -> ContextCuratorToolArtifact {
    ContextCuratorToolArtifact::Eligible {
        replacement: "short".to_string(),
        replacement_token_estimate: estimate,
        preservation_rationale: "keeps the error line".to_string(),
        uncertainties: Vec::new(),
    }
}

#[test]
fn replacement_ratio_is_in_millionths_and_saturates() {
    assert_eq!(replacement_ratio_millionths(19, 100), 190_000);
    assert_eq!(replacement_ratio_millionths(5, 0), 5_000_000);
    assert_eq!(replacement_ratio_millionths(usize::MAX, 1), u32::MAX);
}

#[test]
fn eligible_and_ineligible_judgements_become_proposals_and_listings_in_order() {
    let tools = vec![work("tool-1", "call-1", 1000), work("tool-2", "call-2", 400)];
    let judgements = vec![
        ("tool-1".to_string(), eligible(100)),
        (
            "tool-2".to_string(),
            ContextCuratorToolArtifact::Ineligible {
                reason: "result is already short".to_string(),
                uncertainties: vec!["none".to_string()],
            },
        ),
    ];
    let (proposals, ineligible) = distillation_proposals(&tools, judgements).unwrap();
    assert_eq!(proposals.len(), 1);
    let proposal = &proposals[0];
    assert_eq!(proposal.proposal_id, "tool-1");
    assert!(proposal.selected_by_default);
    assert_eq!(proposal.operation.tool_use_id, "call-1");
    assert_eq!(proposal.operation.tool_name, "read");
    assert_eq!(proposal.operation.replacement, "short");
    assert_eq!(proposal.operation.original_token_estimate, 1000);
    assert_eq!(proposal.operation.replacement_token_estimate, 100);
    assert_eq!(proposal.operation.replacement_ratio_millionths, 100_000);
    assert_eq!(ineligible.len(), 1);
    assert_eq!(ineligible[0].request_id, "tool-2");
    assert_eq!(ineligible[0].tool_call_id, "call-2");
    assert_eq!(ineligible[0].reason, "result is already short");
    assert_eq!(ineligible[0].uncertainties, vec!["none".to_string()]);
}

#[test]
fn unknown_tool_artifact_is_refused() {
    let tools = vec![work("tool-1", "call-1", 1000)];
    let judgements = vec![("tool-9".to_string(), eligible(10))];
    match distillation_proposals(&tools, judgements) {
        Err(ContextServiceError::Curator(message)) => assert_eq!(message, "unknown tool artifact tool-9"),
        other => panic!("unexpected {other:?}"),
    }
}

#[test]
fn replacement_at_twenty_percent_fails_the_strict_gate() {
    let tools = vec![work("tool-1", "call-1", 100)];
    let judgements = vec![("tool-1".to_string(), eligible(20))];
    match distillation_proposals(&tools, judgements) {
        Err(ContextServiceError::Curator(message)) => {
            assert_eq!(message, "tool artifact tool-1 failed the strict below-20-percent gate")
        }
        other => panic!("unexpected {other:?}"),
    }
}

#[test]
fn no_judgements_give_no_proposals() {
    let tools = vec![work("tool-1", "call-1", 100)];
    let (proposals, ineligible) = distillation_proposals(&tools, Vec::new()).unwrap();
    assert!(proposals.is_empty());
    assert!(ineligible.is_empty());
}

fn captured(id: &str, start: &str) -> context_ledger::proposals::CapturedRange {
    context_ledger::proposals::CapturedRange {
        request_id: id.to_string(),
        source_range: context_ledger::session::StoredMessageRange {
            start_message_id: start.to_string(),
            end_message_id: start.to_string(),
            start_index_hint: 0,
            end_index_hint: 0,
            message_count: 1,
        },
        file_evidence: evidence(vec!["src/lib.rs"]),
        source_token_estimate: 300,
    }
}

fn evidence(changed: Vec<&str>) -> context_ledger::evidence::extract::FileEvidence {
    let category = |paths: Vec<&str>| context_ledger::evidence::category::PathEvidence {
        paths: paths.into_iter().map(String::from).collect(),
        complete: true,
        warnings: Vec::new(),
    };
    context_ledger::evidence::extract::FileEvidence {
        changed: category(changed),
        read_or_inspected: category(Vec::new()),
        searched_or_browsed: category(Vec::new()),
    }
}

fn route() -> Option<context_ledger::curator::ContextCuratorRoute> {
    Some(context_ledger::curator::ContextCuratorRoute {
        provider_name: "curator".to_string(),
        provider_display_name: "Curator".to_string(),
        model: "curator-model".to_string(),
        route: "curator-route".to_string(),
        effort: None,
    })
}

fn build(
    metadata: &[context_ledger::proposals::CapturedRange],
    ranges: &[context_ledger::scope::ContextCuratorRangeWork],
    summaries: &[(String, context_ledger::curator::ContextCuratorRangeArtifact)],
    reasoning: &Option<StoredReasoningSuppression>,
    route: &Option<context_ledger::curator::ContextCuratorRoute>,
) -> Result<Vec<StoredContextOperation>, ContextServiceError> {
    required_operations(
        metadata,
        ranges,
        summaries,
        reasoning,
        route,
        false,
        context_ledger::curator::StoredContextCuratorSelectionSource::PerRunOverride,
        "keep decisions",
        1_700_000_000_000,
    )
}

fn range_work(id: &str) -> context_ledger::scope::ContextCuratorRangeWork {
    let complete = || context_ledger::evidence::category::PathEvidence { paths: Vec::new(), complete: true, warnings: Vec::new() };
    context_ledger::scope::ContextCuratorRangeWork {
        request_id: id.to_string(),
        source_range: captured(id, "m0").source_range,
        file_evidence: context_ledger::evidence::extract::FileEvidence {
            changed: complete(),
            read_or_inspected: complete(),
            searched_or_browsed: complete(),
        },
        additional_instructions: "  ".to_string(),
    }
}

fn range_artifact(summary: &str) -> context_ledger::curator::ContextCuratorRangeArtifact {
    context_ledger::curator::ContextCuratorRangeArtifact {
        summary: summary.to_string(),
        file_change_digest: format!("{summary}: edited src/lib.rs"),
        warnings: vec![format!("{summary} may omit a detail")],
    }
}

#[test]
fn required_operations_summarize_each_captured_range_then_suppress_reasoning() {
    let reasoning = Some(StoredReasoningSuppression {
        targets: vec![reasoning_target("m9")],
        assistant_turns_affected: 1,
        original_token_estimate: 0,
        replay_block_kinds: Vec::new(),
        validation: Vec::new(),
    });
    let ops = build(
        &[captured("range-1", "m0"), captured("range-2", "m5")],
        &[range_work("range-1"), range_work("range-2")],
        &[
            ("range-2".to_string(), range_artifact("second")),
            ("range-1".to_string(), range_artifact("stale")),
            ("range-1".to_string(), range_artifact("first")),
        ],
        &reasoning,
        &route(),
    )
    .unwrap();
    assert_eq!(ops.len(), 3);
    match &ops[0] {
        StoredContextOperation::RangeSummary(s) => {
            assert_eq!(s.summary, "first");
            assert_eq!(s.source_range.start_message_id, "m0");
            assert_eq!(s.source_token_estimate, 300);
            assert_eq!(s.replacement_token_estimate, 0);
            assert_eq!(s.file_change_digest, "first: edited src/lib.rs");
            assert_eq!(s.warnings, vec!["first may omit a detail".to_string()]);
            assert!(s.changed_files.is_empty() && !s.change_evidence_complete);
            assert_eq!(s.file_evidence.as_ref().unwrap().changed.paths, vec!["src/lib.rs".to_string()]);
            assert_eq!(s.created_at, 1_700_000_000_000);
            let generator = s.generator.as_ref().unwrap();
            assert_eq!(generator.provider, "curator");
            assert_eq!(generator.model, "curator-model");
            assert_eq!(generator.route, "curator-route");
            assert_eq!(generator.prompt_version, "context-range-summarizer-v3");
            assert_eq!(generator.role, Some(context_ledger::curator::StoredContextCuratorRole::RangeSummarizer));
            assert_eq!(generator.transaction_instructions.as_deref(), Some("keep decisions"));
            assert_eq!(generator.task_instructions, None);
        }
        _ => panic!("expected a range summary"),
    }
    assert!(matches!(&ops[1], StoredContextOperation::RangeSummary(s) if s.summary == "second"));
    assert!(matches!(&ops[2], StoredContextOperation::ReasoningSuppression(s) if s.targets.len() == 1 && s.targets[0].message_id == "m9"));
}

#[test]
fn required_operations_refuse_missing_routes_work_and_artifacts() {
    match build(&[captured("range-1", "m0")], &[range_work("range-1")], &[], &None, &None) {
        Err(ContextServiceError::Curator(m)) => {
            assert_eq!(m, "generated context artifacts have no independent curator route identity")
        }
        _ => panic!("expected a refusal"),
    }
    match build(&[captured("range-1", "m0")], &[], &[], &None, &route()) {
        Err(ContextServiceError::Curator(m)) => assert_eq!(m, "missing captured range work range-1"),
        _ => panic!("expected a refusal"),
    }
    match build(&[captured("range-1", "m0")], &[range_work("range-1")], &[], &None, &route()) {
        Err(ContextServiceError::Curator(m)) => assert_eq!(m, "missing generated range artifact range-1"),
        _ => panic!("expected a refusal"),
    }
    let empty = build(&[], &[], &[], &None, &None).unwrap();
    assert!(empty.is_empty());
}

#[test]
fn a_review_with_nothing_left_to_apply_says_it_is_a_no_op() {
    let kept = ready_draft_notices(vec!["earlier".to_string()], &[]);
    assert_eq!(kept.len(), 2);
    assert_eq!(kept[0], "earlier");
    assert!(kept[1].contains("no-op and cannot be applied"));
    let ops = vec![StoredContextOperation::ReasoningSuppression(StoredReasoningSuppression {
        targets: vec![reasoning_target("a")],
        assistant_turns_affected: 1,
        original_token_estimate: 0,
        replay_block_kinds: Vec::new(),
        validation: Vec::new(),
    })];
    assert_eq!(ready_draft_notices(vec!["earlier".to_string()], &ops), vec!["earlier".to_string()]);
}

fn reasoning_target(message_id: &str) -> context_ledger::session::StoredReasoningTarget {
    context_ledger::session::StoredReasoningTarget {
        message_id: message_id.to_string(),
        block_index: 0,
        kind: context_ledger::model::StoredContextBlockKind::Reasoning,
    }
}
