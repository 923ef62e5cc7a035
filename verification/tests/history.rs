use context_ledger::snapshot::context_editor_snapshot;
use context_ledger::history::{
    list_context_transactions, propose_status_transition, propose_status_transition_at, summarize_context_transaction,
    transaction_index,
};
use context_ledger::session::{
    ContextServiceError, StoredContextAuthorization, StoredContextEmergencyPolicy,
    StoredContextOperation, StoredContextStatusEvent, StoredContextTransaction,
    StoredContextTransactionStatusKind, StoredContextViewState, StoredToolResultDistillation,
};

fn transaction(id: &str, revision: u64, kind: StoredContextTransactionStatusKind) -> StoredContextTransaction {
    StoredContextTransaction {
        id: id.to_string(),
        created_at: 0,
        base_revision: revision.saturating_sub(1),
        authorization: StoredContextAuthorization::Manual { initiated_by: None },
        operations: Vec::new(),
        status_events: vec![StoredContextStatusEvent { revision, timestamp: 0, kind, reason: None }],
        application: None,
        economics: None,
        emergency_audit: None,
    }
}

fn state(transactions: Vec<StoredContextTransaction>, revision: u64) -> StoredContextViewState {
    StoredContextViewState {
        revision,
        transactions,
        emergency_policy: StoredContextEmergencyPolicy::Block,
    }
}

#[test]
fn history_is_newest_first_and_never_discards_reverted_provenance() {
    let state = state(
        vec![
            transaction("first", 1, StoredContextTransactionStatusKind::Reverted),
            transaction("second", 2, StoredContextTransactionStatusKind::Applied),
        ],
        2,
    );

    let history = list_context_transactions(&state);
    assert_eq!(history.len(), 2);
    assert_eq!(history[0].id, "second");
    assert_eq!(history[1].id, "first");
    assert!(!history[1].active);
}

#[test]
fn summaries_count_operations_by_kind() {
    let mut tx = transaction("t", 3, StoredContextTransactionStatusKind::Reapplied);
    tx.operations.push(StoredContextOperation::ToolResultDistillation(StoredToolResultDistillation {
        tool_use_id: "call".to_string(),
        replacement: "short".to_string(),
        tool_name: "read".to_string(),
        original_token_estimate: 100,
        replacement_token_estimate: 10,
        replacement_ratio_millionths: 100_000,
        preservation_rationale: "kept".to_string(),
    }));
    let summary = summarize_context_transaction(&tx);
    assert!(summary.active);
    assert_eq!(summary.latest_status, Some(StoredContextTransactionStatusKind::Reapplied));
    assert_eq!(summary.latest_status_revision, Some(3));
    assert_eq!(summary.operation_counts.tool_result_distillations, 1);
    assert_eq!(summary.operation_counts.range_summaries, 0);
}

#[test]
fn revert_then_reapply_appends_history_and_bumps_revisions() {
    let s0 = state(
        vec![
            transaction("a", 1, StoredContextTransactionStatusKind::Applied),
            transaction("b", 2, StoredContextTransactionStatusKind::Applied),
        ],
        2,
    );
    let (index, s1) = propose_status_transition_at(s0, "a", false, 10).expect("revert");
    assert_eq!(index, 0);
    assert_eq!(s1.revision, 3);
    assert!(!s1.transactions[0].is_active());
    assert_eq!(s1.transactions[0].status_events.len(), 2);
    assert_eq!(
        s1.transactions[0].status_events[1].reason.as_deref(),
        Some("Reverted through the context transaction service.")
    );
    assert!(s1.transactions[1].is_active());

    let again = propose_status_transition_at(s1.clone(), "a", false, 11).unwrap_err();
    assert!(matches!(again, ContextServiceError::TransactionNotActive(id) if id == "a"));

    let (_, s2) = propose_status_transition_at(s1, "a", true, 12).expect("reapply");
    assert_eq!(s2.revision, 4);
    assert!(s2.transactions[0].is_active());
    assert_eq!(s2.transactions[0].status_events.len(), 3);
    assert_eq!(s2.transactions[0].status_events[2].kind, StoredContextTransactionStatusKind::Reapplied);

    let active = propose_status_transition_at(s2.clone(), "a", true, 13).unwrap_err();
    assert!(matches!(active, ContextServiceError::TransactionAlreadyActive(_)));
    let missing = propose_status_transition_at(s2, "zzz", false, 13).unwrap_err();
    assert!(matches!(missing, ContextServiceError::TransactionNotFound(id) if id == "zzz"));
}

#[test]
fn revision_overflow_is_refused() {
    let s = state(vec![transaction("a", 1, StoredContextTransactionStatusKind::Applied)], u64::MAX);
    assert!(matches!(
        propose_status_transition_at(s, "a", false, 0),
        Err(ContextServiceError::RevisionOverflow)
    ));
}

#[test]
fn transaction_index_finds_the_first_match() {
    let s = state(
        vec![
            transaction("a", 1, StoredContextTransactionStatusKind::Applied),
            transaction("b", 2, StoredContextTransactionStatusKind::Applied),
        ],
        2,
    );
    assert_eq!(transaction_index(&s, "b").ok(), Some(1));
    assert!(transaction_index(&s, "c").is_err());
}

#[test]
fn revert_at_the_current_time_stamps_a_recent_event() {
    let s = state(vec![transaction("a", 1, StoredContextTransactionStatusKind::Applied)], 1);
    let (index, next) = propose_status_transition(s, "a", false).expect("revert");
    assert_eq!(index, 0);
    assert_eq!(next.revision, 2);
    let event = next.transactions[0].status_events.last().expect("event");
    assert_eq!(event.kind, StoredContextTransactionStatusKind::Reverted);
    assert!(event.timestamp > 1_600_000_000);
}

#[test]
fn apply_revert_and_reapply_each_advance_the_revision_by_one() {
    let s0 = state(vec![transaction("earlier", 1, StoredContextTransactionStatusKind::Applied)], 1);
    let s1 = context_ledger::draft::state_with_transaction_at(
        s0,
        "t",
        2,
        10,
        StoredContextAuthorization::Manual { initiated_by: None },
        Vec::new(),
        None,
    );
    assert_eq!(s1.revision, 2);
    assert!(s1.transactions[1].is_active());
    let (index, s2) = propose_status_transition_at(s1, "t", false, 20).expect("revert");
    assert_eq!(index, 1);
    assert_eq!(s2.revision, 3);
    assert!(!s2.transactions[1].is_active());
    let (_, s3) = propose_status_transition_at(s2, "t", true, 30).expect("reapply");
    assert_eq!(s3.revision, 4);
    assert!(s3.transactions[1].is_active());
    assert_eq!(s3.transactions[0].id, "earlier");
    assert!(s3.transactions[0].is_active());
}

#[test]
fn editor_snapshot_lists_only_active_transactions_in_order() {
    let view = state(
        vec![
            transaction("first", 1, StoredContextTransactionStatusKind::Applied),
            transaction("second", 2, StoredContextTransactionStatusKind::Reverted),
            transaction("third", 3, StoredContextTransactionStatusKind::Reapplied),
        ],
        3,
    );
    let snapshot = context_editor_snapshot(
        "session-1",
        &[],
        &view,
        &[],
        &Vec::new(),
        &Vec::new(),
        &Vec::new(),
        &Vec::new(),
        0xabc,
        true,
        "fixture",
        "Fixture",
        "fixture-model",
        "api",
        100_000,
        12,
    );
    assert_eq!(snapshot.session_id, "session-1");
    assert_eq!(snapshot.context_revision, 3);
    assert_eq!(snapshot.raw_message_count, 0);
    assert_eq!(snapshot.transcript_digest, 0xabc);
    assert!(snapshot.processing);
    assert_eq!(snapshot.provider_display_name, "Fixture");
    assert_eq!(snapshot.route, "api");
    assert_eq!(snapshot.projected_request_tokens, 12);
    assert_eq!(snapshot.message_page_end, 0);
    assert_eq!(snapshot.next_message_page_start, None);
    let ids: Vec<&str> = snapshot.active_transactions.iter().map(|t| t.id.as_str()).collect();
    assert_eq!(ids, vec!["first", "third"]);
    assert!(matches!(snapshot.emergency_policy, StoredContextEmergencyPolicy::Block));
    assert!(snapshot.curator_route.is_none() && snapshot.curator_unavailable_reason.is_none());
}
