use context_ledger::commit::{record_provider_validation_evidence, record_validation_evidence_at};
use context_ledger::draft::{proposed_state_for_operations, state_with_transaction, state_with_transaction_at};
use context_ledger::provider::{
    ContextProjectionValidationReport, ContextProjectionValidationStatus, ContextProviderFamily,
};
use context_ledger::session::{
    ContextServiceError, StoredContextAuthorization, StoredContextEmergencyPolicy,
    StoredContextOperation, StoredContextStatusEvent, StoredContextTransaction,
    StoredContextTransactionStatusKind, StoredContextViewState, StoredProviderValidationEvidence,
    StoredReasoningSuppression, StoredToolResultDistillation,
};

fn evidence(provider: &str, model: &str, builder: &str, at: i64) -> StoredProviderValidationEvidence {
    StoredProviderValidationEvidence {
        provider: provider.to_string(),
        model: model.to_string(),
        request_builder: builder.to_string(),
        checked_at: at,
        warnings: vec!["old".to_string()],
    }
}

fn suppression(validation: Vec<StoredProviderValidationEvidence>) -> StoredContextOperation {
    StoredContextOperation::ReasoningSuppression(StoredReasoningSuppression {
        targets: vec![reasoning_target("m1")],
        assistant_turns_affected: 1,
        original_token_estimate: 0,
        replay_block_kinds: Vec::new(),
        validation,
    })
}

fn transaction(id: &str, kind: StoredContextTransactionStatusKind, operations: Vec<StoredContextOperation>) -> StoredContextTransaction {
    StoredContextTransaction {
        id: id.to_string(),
        created_at: 1,
        base_revision: 0,
        authorization: StoredContextAuthorization::Manual { initiated_by: None },
        operations,
        status_events: vec![StoredContextStatusEvent { revision: 1, timestamp: 1, kind, reason: None }],
        application: None,
        economics: None,
        emergency_audit: None,
    }
}

fn report(notes: Vec<&str>, placeholders: usize) -> ContextProjectionValidationReport {
    ContextProjectionValidationReport {
        provider_family: ContextProviderFamily::AnthropicMessages,
        provider_name: "anthropic".to_string(),
        provider_display_name: "Anthropic".to_string(),
        model: "model-a".to_string(),
        evidence_tag: "builder_v1".to_string(),
        builder_status: ContextProjectionValidationStatus::Supported,
        normalized_item_count: 3,
        formatter_placeholder_count: placeholders,
        normalization_notes: notes.into_iter().map(|n| n.to_string()).collect(),
        findings: Vec::new(),
    }
}

fn suppression_validation(op: &StoredContextOperation) -> &Vec<StoredProviderValidationEvidence> {
    match op {
        StoredContextOperation::ReasoningSuppression(s) => &s.validation,
        _ => panic!("not a suppression"),
    }
}

fn base_state() -> StoredContextViewState {
    StoredContextViewState {
        revision: 4,
        transactions: vec![
            transaction(
                "active",
                StoredContextTransactionStatusKind::Applied,
                vec![
                    suppression(vec![
                        evidence("anthropic", "model-a", "builder_v1", 5),
                        evidence("openai", "model-b", "builder_v2", 6),
                    ]),
                    StoredContextOperation::ToolResultDistillation(StoredToolResultDistillation {
                        tool_use_id: "t1".to_string(),
                        replacement: "short".to_string(),
                        tool_name: "read".to_string(),
                        original_token_estimate: 100,
                        replacement_token_estimate: 10,
                        replacement_ratio_millionths: 100_000,
                        preservation_rationale: "kept".to_string(),
                    }),
                ],
            ),
            transaction(
                "reverted",
                StoredContextTransactionStatusKind::Reverted,
                vec![suppression(vec![evidence("anthropic", "model-a", "builder_v1", 5)])],
            ),
        ],
        emergency_policy: StoredContextEmergencyPolicy::Block,
    }
}

#[test]
fn validation_evidence_replaces_same_builder_and_keeps_others() {
    let mut state = base_state();
    let r = report(vec!["zeta note", "alpha note", "zeta note"], 2);
    record_validation_evidence_at(&mut state, &r, 99);
    assert_eq!(state.revision, 4);
    let active = suppression_validation(&state.transactions[0].operations[0]);
    assert_eq!(active.len(), 2);
    assert_eq!(active[0].provider, "openai");
    assert_eq!(active[0].checked_at, 6);
    assert_eq!(active[1].provider, "anthropic");
    assert_eq!(active[1].request_builder, "builder_v1");
    assert_eq!(active[1].checked_at, 99);
    assert_eq!(
        active[1].warnings,
        vec![
            "The production request builder inserted 2 formatter placeholder(s).".to_string(),
            "alpha note".to_string(),
            "zeta note".to_string(),
        ]
    );
    assert!(matches!(
        &state.transactions[0].operations[1],
        StoredContextOperation::ToolResultDistillation(d) if d.tool_use_id == "t1"
    ));
    let reverted = suppression_validation(&state.transactions[1].operations[0]);
    assert_eq!(reverted.len(), 1);
    assert_eq!(reverted[0].checked_at, 5);
    assert_eq!(reverted[0].warnings, vec!["old".to_string()]);
}

#[test]
fn validation_evidence_without_placeholders_carries_only_notes() {
    let mut state = base_state();
    record_validation_evidence_at(&mut state, &report(Vec::new(), 0), 7);
    let active = suppression_validation(&state.transactions[0].operations[0]);
    assert_eq!(active[1].warnings, Vec::<String>::new());
}

#[test]
fn validation_evidence_checked_now_is_recent() {
    let mut state = base_state();
    record_provider_validation_evidence(&mut state, &report(vec!["n"], 0)).expect("clock");
    let active = suppression_validation(&state.transactions[0].operations[0]);
    assert!(active[1].checked_at > 1_600_000_000_000);
}

#[test]
fn state_with_transaction_appends_an_applied_transaction() {
    let base = base_state();
    let next = state_with_transaction_at(
        base,
        "new",
        5,
        42,
        StoredContextAuthorization::Manual { initiated_by: Some("user".to_string()) },
        vec![suppression(Vec::new())],
        None,
    );
    assert_eq!(next.revision, 5);
    assert_eq!(next.transactions.len(), 3);
    let t = &next.transactions[2];
    assert_eq!(t.id, "new");
    assert_eq!(t.base_revision, 4);
    assert_eq!(t.created_at, 42);
    assert_eq!(t.status_events.len(), 1);
    assert_eq!(t.status_events[0].revision, 5);
    assert_eq!(t.status_events[0].timestamp, 42);
    assert_eq!(t.status_events[0].kind, StoredContextTransactionStatusKind::Applied);
    assert!(t.status_events[0].reason.is_none());

    let now = state_with_transaction(
        base_state(),
        "now",
        6,
        StoredContextAuthorization::Manual { initiated_by: None },
        Vec::new(),
        None,
    )
    .expect("clock");
    assert!(now.transactions[2].created_at > 1_600_000_000_000);
}

#[test]
fn proposed_state_requires_matching_or_advancing_revision() {
    let unchanged = proposed_state_for_operations(
        base_state(),
        "d",
        4,
        StoredContextAuthorization::Manual { initiated_by: None },
        Vec::new(),
    )
    .expect("no-change preview");
    assert_eq!(unchanged.transactions.len(), 2);
    let stale = proposed_state_for_operations(
        base_state(),
        "d",
        3,
        StoredContextAuthorization::Manual { initiated_by: None },
        Vec::new(),
    )
    .unwrap_err();
    assert!(matches!(stale, ContextServiceError::Runtime(m)
        if m == "no-change preview proposed revision 3 instead of current revision 4"));
    let backwards = proposed_state_for_operations(
        base_state(),
        "d",
        4,
        StoredContextAuthorization::Manual { initiated_by: None },
        vec![suppression(Vec::new())],
    )
    .unwrap_err();
    assert!(matches!(backwards, ContextServiceError::Runtime(m)
        if m == "context-changing preview proposed non-advancing revision 4 from 4"));
    let advanced = proposed_state_for_operations(
        base_state(),
        "d",
        5,
        StoredContextAuthorization::Manual { initiated_by: None },
        vec![suppression(Vec::new())],
    )
    .expect("advancing preview");
    assert_eq!(advanced.revision, 5);
    assert_eq!(advanced.transactions[2].id, "d");
}

fn reasoning_target(message_id: &str) -> context_ledger::session::StoredReasoningTarget {
    context_ledger::session::StoredReasoningTarget {
        message_id: message_id.to_string(),
        block_index: 0,
        kind: context_ledger::model::StoredContextBlockKind::Reasoning,
    }
}
