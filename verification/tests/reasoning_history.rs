use std::cell::Cell;

use context_ledger::capture::{
    active_suppression_targets, capture_notices, filter_effective_reasoning, reasoning_suppression,
    ReasoningCandidate,
};
use context_ledger::commit::{
    set_emergency_policy_for_session, transition_transaction_in_session, DirectContextSessionPersistence,
};
use context_ledger::history::{summarize_context_transaction, ContextTransactionResult};
use context_ledger::draft::{ordered_interval, state_with_transaction_at};
use context_ledger::model::{ContentBlock, Role, StoredContextBlockKind, StoredMessage};
use context_ledger::proposals::ready_draft_notices;
use context_ledger::session::{
    ContextServiceError, ContextSession, StoredContextAuthorization, StoredContextEmergencyPolicy,
    StoredContextOperation, StoredContextStatusEvent, StoredContextTransactionStatusKind,
    StoredContextViewState, StoredReasoningSuppression,
};
use context_ledger::snapshot::{context_editor_snapshot, MESSAGE_PREVIEW_MAX_CHARS};

fn stored(id: &str, role: Role, content: Vec<ContentBlock>) -> StoredMessage {
    StoredMessage { id: id.to_string(), role, content, display_role: None, timestamp: None }
}

fn empty_view() -> StoredContextViewState {
    StoredContextViewState { revision: 0, transactions: Vec::new(), emergency_policy: StoredContextEmergencyPolicy::Block }
}

/// Every reasoning block of every assistant message, as a staged candidate.
fn reasoning_candidates(messages: &[StoredMessage], from: usize, to: usize) -> Vec<ReasoningCandidate> {
    let mut out = Vec::new();
    for (message_index, message) in messages.iter().enumerate().skip(from).take(to + 1 - from) {
        if message.role != Role::Assistant {
            continue;
        }
        for (block_index, block) in message.content.iter().enumerate() {
            let kind = match block {
                ContentBlock::Reasoning { .. } => StoredContextBlockKind::Reasoning,
                ContentBlock::OpenAIReasoning { .. } => StoredContextBlockKind::OpenAiReasoning,
                ContentBlock::AnthropicThinking { .. } => StoredContextBlockKind::AnthropicThinking,
                _ => continue,
            };
            out.push(ReasoningCandidate { message_index, block_index, kind, estimated_tokens: 30 });
        }
    }
    out
}

/// The staged suppression and the capture notices for `candidates` against `view`.
fn capture_reasoning(
    messages: &[StoredMessage],
    view: &StoredContextViewState,
    candidates: &[ReasoningCandidate],
    summary_intervals: &[(usize, usize)],
) -> (StoredReasoningSuppression, Vec<String>) {
    let active = active_suppression_targets(view, messages).expect("active targets resolve");
    let filtered = filter_effective_reasoning(&candidates.to_vec(), summary_intervals, &[], &active);
    let notices = capture_notices(&Vec::new(), filtered.stats);
    (reasoning_suppression(&filtered, messages), notices)
}

fn view_with(messages: &[StoredMessage], id: &str, suppression: StoredReasoningSuppression) -> StoredContextViewState {
    let _ = messages;
    state_with_transaction_at(
        empty_view(),
        id,
        1,
        0,
        StoredContextAuthorization::Manual { initiated_by: None },
        vec![StoredContextOperation::ReasoningSuppression(suppression)],
        None,
    )
}

#[test]
fn staged_reasoning_inside_a_selected_summary_is_omitted_with_an_explicit_notice() {
    let messages = vec![stored(
        "reasoning-message",
        Role::Assistant,
        vec![
            ContentBlock::Reasoning { text: "replayed reasoning inside the selected summary".to_string() },
            ContentBlock::Text { text: "visible answer".to_string() },
        ],
    )];
    let (start, end) = ordered_interval(0, 0);
    let (reasoning, notices) =
        capture_reasoning(&messages, &empty_view(), &reasoning_candidates(&messages, start, end), &[(start, end)]);
    assert!(reasoning.targets.is_empty());
    assert!(notices.iter().any(|notice| {
        notice.contains("1 staged replayed-reasoning block target") && notice.contains("those targets were omitted")
    }));
}

#[test]
fn repeated_reasoning_suppression_treats_active_exact_targets_as_satisfied() {
    let messages = vec![stored(
        "reasoning-message",
        Role::Assistant,
        vec![ContentBlock::Reasoning { text: "historical replayed reasoning".repeat(40) }],
    )];
    let candidates = reasoning_candidates(&messages, 0, 0);
    let (existing, _) = capture_reasoning(&messages, &empty_view(), &candidates, &[]);
    let view = view_with(&messages, "existing-suppression", existing);

    let (reasoning, notices) = capture_reasoning(&messages, &view, &candidates, &[]);
    assert!(reasoning.targets.is_empty());
    assert_eq!(reasoning.assistant_turns_affected, 0);
    assert_eq!(reasoning.original_token_estimate, 0);
    assert!(notices.iter().any(|notice| notice.contains("already suppressed")));
}

#[test]
fn partial_reasoning_overlap_retains_only_new_exact_targets() {
    let messages = vec![
        stored(
            "reasoning-one",
            Role::Assistant,
            vec![ContentBlock::Reasoning { text: "first historical reasoning".repeat(20) }],
        ),
        stored(
            "reasoning-two",
            Role::Assistant,
            vec![ContentBlock::OpenAIReasoning {
                id: "reasoning-item-two".to_string(),
                summary: vec!["second historical reasoning".repeat(20)],
                encrypted_content: None,
                status: None,
            }],
        ),
    ];
    let (existing, _) = capture_reasoning(&messages, &empty_view(), &reasoning_candidates(&messages, 0, 0), &[]);
    let view = view_with(&messages, "existing-suppression", existing);

    let (reasoning, notices) = capture_reasoning(&messages, &view, &reasoning_candidates(&messages, 0, 1), &[]);
    assert_eq!(reasoning.targets.len(), 1);
    assert_eq!(reasoning.targets[0].message_id, "reasoning-two");
    assert_eq!(reasoning.assistant_turns_affected, 1);
    assert!(notices.iter().any(|notice| notice.contains("already suppressed 1")));
}

#[test]
fn reverted_reapplied_and_invalidated_reasoning_history_controls_future_eligibility() {
    let messages = vec![stored(
        "reasoning-message",
        Role::Assistant,
        vec![ContentBlock::AnthropicThinking {
            thinking: "signed historical thinking".repeat(20),
            signature: "signature".to_string(),
        }],
    )];
    let candidates = reasoning_candidates(&messages, 0, 0);
    let (suppression, _) = capture_reasoning(&messages, &empty_view(), &candidates, &[]);
    let mut state = view_with(&messages, "history-suppression", suppression);
    let capture_targets =
        |state: &StoredContextViewState| capture_reasoning(&messages, state, &candidates, &[]).0.targets.len();
    assert_eq!(capture_targets(&state), 0);

    let transitions = [
        (2, StoredContextTransactionStatusKind::Reverted, "test revert", 1),
        (3, StoredContextTransactionStatusKind::Reapplied, "test reapply", 0),
        (4, StoredContextTransactionStatusKind::InvalidatedByTranscriptEdit, "test invalidation", 1),
    ];
    for (revision, kind, reason, expected) in transitions {
        state.revision = revision;
        state.transactions[0].status_events.push(StoredContextStatusEvent {
            revision,
            timestamp: 0,
            kind,
            reason: Some(reason.to_string()),
        });
        assert_eq!(capture_targets(&state), expected);
    }
}

#[test]
fn backward_manual_reasoning_ranges_equal_forward_ranges() {
    let messages = vec![
        stored("reasoning-one", Role::Assistant, vec![ContentBlock::Reasoning { text: "first".repeat(20) }]),
        stored("reasoning-two", Role::Assistant, vec![ContentBlock::Reasoning { text: "second".repeat(20) }]),
    ];
    let capture = |start: usize, end: usize| {
        let (from, to) = ordered_interval(start, end);
        let (s, _) = capture_reasoning(&messages, &empty_view(), &reasoning_candidates(&messages, from, to), &[]);
        let targets: Vec<(String, usize, StoredContextBlockKind)> =
            s.targets.iter().map(|t| (t.message_id.clone(), t.block_index, t.kind)).collect();
        (targets, s.assistant_turns_affected, s.replay_block_kinds, s.original_token_estimate)
    };
    assert_eq!(capture(0, 1), capture(1, 0));
}

#[test]
fn redundant_reasoning_builds_a_visible_non_mutating_review() {
    let messages = vec![stored(
        "reasoning-message",
        Role::Assistant,
        vec![ContentBlock::Reasoning { text: "historical replayed reasoning".repeat(40) }],
    )];
    let candidates = reasoning_candidates(&messages, 0, 0);
    let (existing, _) = capture_reasoning(&messages, &empty_view(), &candidates, &[]);
    let view = view_with(&messages, "existing-suppression", existing);

    let (reasoning, notices) = capture_reasoning(&messages, &view, &candidates, &[]);
    assert!(reasoning.targets.is_empty());
    let operations: Vec<StoredContextOperation> = Vec::new();
    let notices = ready_draft_notices(notices, &operations);
    assert!(operations.is_empty());
    assert!(notices.iter().any(|notice| notice.contains("no-op and cannot be applied")));
    assert_eq!(view.revision, 1);
    assert_eq!(view.transactions.len(), 1);
}

struct FlakySaver {
    fail: Cell<bool>,
    calls: Cell<usize>,
}

impl DirectContextSessionPersistence for FlakySaver {
    fn persist(&self, _session: &ContextSession) -> Result<(), String> {
        self.calls.set(self.calls.get() + 1);
        if self.fail.get() {
            Err("persistence unavailable".to_string())
        } else {
            Ok(())
        }
    }
}

fn authorized_policy() -> StoredContextEmergencyPolicy {
    StoredContextEmergencyPolicy::Authorized {
        protected_recent_assistant_turns: 5,
        target_headroom_percent: 20,
        allow_reasoning_suppression: true,
        allow_tool_distillation: true,
        allow_oldest_range_summary: true,
        authorization_source: "explicit phase 8 test authorization".to_string(),
    }
}

fn source_of(policy: &StoredContextEmergencyPolicy) -> Option<&str> {
    match policy {
        StoredContextEmergencyPolicy::Authorized { authorization_source, .. } => Some(authorization_source.as_str()),
        StoredContextEmergencyPolicy::Block => None,
    }
}

#[test]
fn emergency_policy_persists_idempotently_and_rolls_back_without_context_reset() {
    let mut session = ContextSession {
        id: "idle agent".to_string(),
        messages: vec![stored("m1", Role::User, vec![ContentBlock::Text { text: "hello".to_string() }])],
        context_view: empty_view(),
        provider_session_id: None,
    };
    let persistence = FlakySaver { fail: Cell::new(false), calls: Cell::new(0) };

    let (returned_session_id, returned_policy) =
        set_emergency_policy_for_session(&persistence, &mut session, authorized_policy(), false)
            .expect("authorized policy persists");
    assert_eq!(returned_session_id, "idle agent");
    assert_eq!(source_of(&returned_policy), Some("explicit phase 8 test authorization"));
    assert_eq!(persistence.calls.get(), 1);
    assert_eq!(session.context_view.revision, 0);
    assert_eq!(source_of(&session.context_view.emergency_policy), Some("explicit phase 8 test authorization"));

    let (same_session_id, same_policy) =
        set_emergency_policy_for_session(&persistence, &mut session, authorized_policy(), false)
            .expect("same policy is an idempotent no-op");
    assert_eq!(same_session_id, "idle agent");
    assert_eq!(source_of(&same_policy), Some("explicit phase 8 test authorization"));
    assert_eq!(persistence.calls.get(), 1);

    persistence.fail.set(true);
    let error = set_emergency_policy_for_session(&persistence, &mut session, StoredContextEmergencyPolicy::Block, false)
        .expect_err("persistence failure must reject policy mutation");
    assert!(matches!(error, ContextServiceError::Persistence(_)));
    assert_eq!(persistence.calls.get(), 2);
    assert_eq!(session.context_view.revision, 0);
    assert_eq!(source_of(&session.context_view.emergency_policy), Some("explicit phase 8 test authorization"));

    let invalid = StoredContextEmergencyPolicy::Authorized {
        protected_recent_assistant_turns: 5,
        target_headroom_percent: 0,
        allow_reasoning_suppression: true,
        allow_tool_distillation: false,
        allow_oldest_range_summary: false,
        authorization_source: "invalid headroom".to_string(),
    };
    let error = set_emergency_policy_for_session(&persistence, &mut session, invalid, false)
        .expect_err("invalid policy must fail before persistence");
    assert!(matches!(error, ContextServiceError::InvalidSelection(_)));
    assert_eq!(persistence.calls.get(), 2);
    assert_eq!(source_of(&session.context_view.emergency_policy), Some("explicit phase 8 test authorization"));
}

fn snapshot_of(session_id: &str, messages: &[StoredMessage]) -> context_ledger::snapshot::ContextEditorSnapshot {
    let block_estimates: Vec<Vec<usize>> = messages.iter().map(|m| vec![1; m.content.len()]).collect();
    let tokens = vec![1usize; messages.len()];
    context_editor_snapshot(
        session_id,
        messages,
        &empty_view(),
        &[],
        &block_estimates,
        &tokens,
        &tokens,
        &Vec::new(),
        0,
        false,
        "snapshot-provider",
        "Snapshot",
        "snapshot-model",
        "test-route",
        200_000,
        0,
    )
}

#[test]
fn empty_unicode_large_output_and_image_snapshots_remain_bounded_and_serializable() {
    let empty = snapshot_of("empty", &[]);
    assert!(empty.messages.is_empty());
    assert_eq!(empty.raw_message_count, 0);

    let image_data = "BASE64_SECRET_IMAGE".repeat(2_000);
    let messages = vec![
        stored(
            "unicode",
            Role::User,
            vec![ContentBlock::Text { text: format!("{} tail", "🧪é漢字".repeat(200)) }],
        ),
        stored(
            "large-result",
            Role::User,
            vec![ContentBlock::ToolResult {
                tool_use_id: "large-call".to_string(),
                content: "large output ".repeat(50_000),
                is_error: Some(false),
            }],
        ),
        stored(
            "image",
            Role::User,
            vec![ContentBlock::Image { media_type: "image/png".to_string(), data: image_data.clone() }],
        ),
    ];
    let snapshot = snapshot_of("bounded", &messages);
    assert!(snapshot.messages[0].preview.chars().count() <= MESSAGE_PREVIEW_MAX_CHARS + 1);
    assert!(snapshot.messages[0].preview.ends_with('…'));
    assert!(snapshot.messages[1].preview.chars().count() <= MESSAGE_PREVIEW_MAX_CHARS + 1);
    assert!(snapshot.messages[2].preview.contains("encoded bytes"));
    let encoded = format!("{snapshot:?}");
    assert!(!encoded.contains(&image_data));
    assert!(encoded.len() < 20_000);
}

fn applied_transaction_view() -> StoredContextViewState {
    state_with_transaction_at(
        empty_view(),
        "tx-1",
        1,
        10,
        StoredContextAuthorization::Manual { initiated_by: None },
        Vec::new(),
        None,
    )
}

fn prepare_as_proposed(
    session: &ContextSession,
    proposed: StoredContextViewState,
    index: usize,
    reapply: bool,
) -> Result<(StoredContextViewState, ContextTransactionResult, String), ContextServiceError> {
    let _ = session;
    let transaction = summarize_context_transaction(&proposed.transactions[index]);
    let result = ContextTransactionResult {
        transaction,
        revision: proposed.revision,
        status: if reapply {
            StoredContextTransactionStatusKind::Reapplied
        } else {
            StoredContextTransactionStatusKind::Reverted
        },
        warnings: Vec::new(),
    };
    Ok((proposed, result, "projection changed".to_string()))
}

#[test]
fn revert_then_reapply_in_a_session_advances_history_and_a_failed_save_restores_it() {
    let mut session = ContextSession {
        id: "session-history".to_string(),
        messages: Vec::new(),
        context_view: applied_transaction_view(),
        provider_session_id: Some("continuation".to_string()),
    };
    let saver = FlakySaver { fail: Cell::new(false), calls: Cell::new(0) };

    let busy = transition_transaction_in_session(&saver, &prepare_as_proposed, &mut session, "tx-1", true, false, 20)
        .unwrap_err();
    assert!(matches!(busy, ContextServiceError::SessionBusy));

    let reverted = transition_transaction_in_session(&saver, &prepare_as_proposed, &mut session, "tx-1", false, false, 20)
        .expect("revert");
    assert_eq!(reverted.result.revision, 2);
    assert_eq!(reverted.result.status, StoredContextTransactionStatusKind::Reverted);
    assert_eq!(session.context_view.revision, 2);
    assert_eq!(session.provider_session_id, None);
    let last = session.context_view.transactions[0].status_events.last().unwrap();
    assert_eq!(last.kind, StoredContextTransactionStatusKind::Reverted);
    assert_eq!(last.timestamp, 20);

    let again = transition_transaction_in_session(&saver, &prepare_as_proposed, &mut session, "tx-1", false, false, 30)
        .unwrap_err();
    assert!(matches!(again, ContextServiceError::TransactionNotActive(m) if m == "tx-1"));

    saver.fail.set(true);
    let failed = transition_transaction_in_session(&saver, &prepare_as_proposed, &mut session, "tx-1", false, true, 40)
        .unwrap_err();
    assert!(matches!(failed, ContextServiceError::Persistence(_)));
    assert_eq!(session.context_view.revision, 2);
    assert_eq!(session.context_view.transactions[0].status_events.len(), 2);

    saver.fail.set(false);
    let reapplied = transition_transaction_in_session(&saver, &prepare_as_proposed, &mut session, "tx-1", false, true, 50)
        .expect("reapply");
    assert_eq!(reapplied.result.revision, 3);
    assert_eq!(session.context_view.transactions[0].status_events.len(), 3);
    let missing = transition_transaction_in_session(&saver, &prepare_as_proposed, &mut session, "tx-9", false, true, 60)
        .unwrap_err();
    assert!(matches!(missing, ContextServiceError::TransactionNotFound(m) if m == "tx-9"));
}
