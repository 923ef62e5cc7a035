use std::cell::Cell;

use context_ledger::commit::{apply_draft_to_session, DirectContextSessionPersistence};
use context_ledger::history::{summarize_context_transaction, ContextTransactionResult};
use context_ledger::model::{ContentBlock, Role, StoredMessage};
use context_ledger::protocol::{ContextDraft, ContextDraftIdentity};
use context_ledger::provider::{ModelRoute, Provider};
use context_ledger::session::{
    ContextServiceError, ContextSession, StoredContextAuthorization, StoredContextEmergencyPolicy,
    StoredContextOperation, StoredContextTransactionStatusKind, StoredContextViewState,
    StoredReasoningSuppression, StoredReasoningTarget,
};
use context_ledger::model::StoredContextBlockKind;
use context_ledger::store::{
    ContextDraftEntry, ContextDraftPhase, ContextDraftProgress, ContextDraftStore, DraftEntryState,
};

struct Saver {
    fail: Cell<bool>,
    calls: Cell<usize>,
}

impl DirectContextSessionPersistence for Saver {
    fn persist(&self, _session: &ContextSession) -> Result<(), String> {
        self.calls.set(self.calls.get() + 1);
        if self.fail.get() {
            Err("disk full".to_string())
        } else {
            Ok(())
        }
    }
}

struct Fixed;

impl Provider for Fixed {
    fn name(&self) -> String {
        "provider".to_string()
    }
    fn display_name(&self) -> String {
        "Provider".to_string()
    }
    fn model(&self) -> String {
        "model".to_string()
    }
    fn context_window(&self) -> usize {
        100_000
    }
    fn reasoning_effort(&self) -> Option<String> {
        None
    }
    fn supports_image_input(&self) -> bool {
        false
    }
    fn set_model(&self, _model: &str) -> Result<(), String> {
        Err("fixed".to_string())
    }
    fn set_route_selection(&self, _route: &ModelRoute) -> Result<(), String> {
        Err("fixed".to_string())
    }
    fn set_reasoning_effort(&self, _effort: &str) -> Result<(), String> {
        Err("fixed".to_string())
    }
}

fn session() -> ContextSession {
    ContextSession {
        id: "session".to_string(),
        messages: vec![StoredMessage {
            id: "m1".to_string(),
            role: Role::Assistant,
            content: vec![ContentBlock::Reasoning { text: "thinking".to_string() }],
            display_role: None,
            timestamp: None,
        }],
        context_view: StoredContextViewState {
            revision: 3,
            transactions: Vec::new(),
            emergency_policy: StoredContextEmergencyPolicy::Block,
        },
        provider_session_id: Some("continuation".to_string()),
    }
}

fn draft(id: &str, operations: Vec<StoredContextOperation>) -> ContextDraft {
    ContextDraft {
        identity: ContextDraftIdentity {
            draft_id: id.to_string(),
            session_id: "session".to_string(),
            base_context_revision: 3,
            raw_message_count: 1,
            transcript_digest: 7,
            provider_name: "provider".to_string(),
            model: "model".to_string(),
            route: "route".to_string(),
            created_at: 0,
            expires_at: 1_000_000,
        },
        authorization: StoredContextAuthorization::Manual { initiated_by: None },
        active_agent_profile_message_id: None,
        required_operations: operations,
        distillation_proposals: Vec::new(),
    }
}

fn suppression() -> StoredContextOperation {
    StoredContextOperation::ReasoningSuppression(StoredReasoningSuppression {
        targets: vec![StoredReasoningTarget {
            message_id: "m1".to_string(),
            block_index: 0,
            kind: StoredContextBlockKind::Reasoning,
        }],
        assistant_turns_affected: 1,
        replay_block_kinds: vec![StoredContextBlockKind::Reasoning],
        original_token_estimate: 10,
        validation: Vec::new(),
    })
}

fn ready(d: ContextDraft) -> ContextDraftEntry {
    ContextDraftEntry {
        identity: d.identity.clone(),
        state: DraftEntryState::Ready(d),
        progress: ContextDraftProgress { phase: ContextDraftPhase::Ready, completed_items: 0, total_items: 0 },
        reserved_bytes: 1_000,
        generation_in_flight: false,
        cancel_requested: false,
    }
}

fn prepare(
    _session: &ContextSession,
    proposed: StoredContextViewState,
    index: usize,
) -> Result<(StoredContextViewState, ContextTransactionResult, String), ContextServiceError> {
    let result = ContextTransactionResult {
        transaction: summarize_context_transaction(&proposed.transactions[index]),
        revision: proposed.revision,
        status: StoredContextTransactionStatusKind::Applied,
        warnings: Vec::new(),
    };
    Ok((proposed, result, "reasoning suppressed".to_string()))
}

fn sizer(_entry: &ContextDraftEntry) -> Option<usize> {
    Some(600)
}

fn state_of<'a>(store: &'a ContextDraftStore, id: &str) -> &'a DraftEntryState {
    &store.entries.iter().find(|e| e.identity.draft_id == id).expect("entry").state
}

#[test]
fn applying_a_draft_commits_once_and_a_failed_save_makes_it_ready_again() {
    let mut store = ContextDraftStore { entries: vec![ready(draft("draft", vec![suppression()]))] };
    let mut session = session();
    let saver = Saver { fail: Cell::new(true), calls: Cell::new(0) };
    let apply = |store: &mut ContextDraftStore, session: &mut ContextSession, processing: bool| {
        apply_draft_to_session(
            &saver, &Fixed, &prepare, &sizer, store, session, "route", 7, None, "draft", None, processing, 50, 1 << 20,
        )
    };

    let busy = apply(&mut store, &mut session, true).unwrap_err();
    assert!(matches!(busy, ContextServiceError::SessionBusy));
    assert!(matches!(state_of(&store, "draft"), DraftEntryState::Ready(_)));

    let failed = apply(&mut store, &mut session, false).unwrap_err();
    assert!(matches!(failed, ContextServiceError::Persistence(m) if m == "disk full"));
    assert!(matches!(state_of(&store, "draft"), DraftEntryState::Ready(_)));
    assert_eq!(session.context_view.revision, 3);
    assert!(session.context_view.transactions.is_empty());
    assert_eq!(session.provider_session_id.as_deref(), Some("continuation"));

    saver.fail.set(false);
    let applied = apply(&mut store, &mut session, false).expect("apply");
    assert_eq!(applied.result.revision, 4);
    assert_eq!(applied.invalidation_detail, "reasoning suppressed");
    assert_eq!(session.context_view.revision, 4);
    assert_eq!(session.context_view.transactions.len(), 1);
    assert_eq!(session.context_view.transactions[0].id, "draft");
    assert_eq!(session.context_view.transactions[0].created_at, 50);
    assert_eq!(session.provider_session_id, None);
    match state_of(&store, "draft") {
        DraftEntryState::Applied { transaction_id, revision } => {
            assert_eq!(transaction_id, "draft");
            assert_eq!(*revision, 4);
        }
        other => panic!("unexpected {other:?}"),
    }
    let again = apply(&mut store, &mut session, false).unwrap_err();
    assert!(matches!(again, ContextServiceError::DraftAlreadyApplied(_)));
    assert_eq!(saver.calls.get(), 2);
}

#[test]
fn a_stale_draft_fails_and_an_empty_one_is_refused_but_kept_ready() {
    let mut store = ContextDraftStore {
        entries: vec![ready(draft("empty", Vec::new())), ready(draft("stale", vec![suppression()]))],
    };
    let mut session = session();
    let saver = Saver { fail: Cell::new(false), calls: Cell::new(0) };

    let stale = apply_draft_to_session(
        &saver, &Fixed, &prepare, &sizer, &mut store, &mut session, "route", 8, None, "stale", None, false, 50, 1 << 20,
    )
    .unwrap_err();
    assert!(matches!(&stale, ContextServiceError::Stale(m) if m == "authoritative transcript digest changed"));
    assert!(matches!(state_of(&store, "stale"), DraftEntryState::Failed(ContextServiceError::Stale(_))));

    let empty = apply_draft_to_session(
        &saver, &Fixed, &prepare, &sizer, &mut store, &mut session, "route", 7, None, "empty", None, false, 50, 1 << 20,
    )
    .unwrap_err();
    assert!(matches!(empty, ContextServiceError::EmptyRequest));
    assert!(matches!(state_of(&store, "empty"), DraftEntryState::Ready(_)));
    assert_eq!(saver.calls.get(), 0);
    assert_eq!(session.context_view.revision, 3);
}
