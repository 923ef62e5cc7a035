use context_ledger::draft::ContextServiceLimits;
use context_ledger::protocol::{ContextDraft, ContextDraftIdentity};
use context_ledger::session::{ContextServiceError, StoredContextAuthorization};
use context_ledger::store::{
    ContextDraftEntry, ContextDraftPhase, ContextDraftProgress, ContextDraftStore, DraftEntryState,
    TERMINAL_DRAFT_RESERVATION_FLOOR_BYTES,
};

const NOW: i64 = 1_000_000;
const MINUTE: i64 = 60_000;


fn debug_sizer(entry: &ContextDraftEntry) -> Option<usize> {
    Some(format!("{:?}", entry.state).len())
}

fn identity(id: &str, expires_at: i64) -> ContextDraftIdentity {
    ContextDraftIdentity {
        draft_id: id.to_string(),
        session_id: "session".to_string(),
        base_context_revision: 0,
        raw_message_count: 0,
        transcript_digest: 0,
        provider_name: "provider".to_string(),
        model: "model".to_string(),
        route: "route".to_string(),
        created_at: NOW,
        expires_at,
    }
}

fn draft(id: &str, expires_at: i64) -> ContextDraft {
    ContextDraft {
        identity: identity(id, expires_at),
        authorization: StoredContextAuthorization::Manual { initiated_by: None },
        active_agent_profile_message_id: None,
        required_operations: Vec::new(),
        distillation_proposals: Vec::new(),
    }
}

fn entry(id: &str, state: DraftEntryState, expires_at: i64, reserved_bytes: usize, generation_in_flight: bool) -> ContextDraftEntry {
    ContextDraftEntry {
        identity: identity(id, expires_at),
        state,
        progress: ContextDraftProgress { phase: ContextDraftPhase::Capturing, completed_items: 0, total_items: 0 },
        reserved_bytes,
        generation_in_flight,
        cancel_requested: false,
    }
}

fn store(mut entries: Vec<ContextDraftEntry>) -> ContextDraftStore {
    entries.sort_by(|a, b| a.identity.draft_id.cmp(&b.identity.draft_id));
    ContextDraftStore { entries }
}

fn find<'a>(store: &'a ContextDraftStore, id: &str) -> Option<&'a ContextDraftEntry> {
    store.entries.iter().find(|e| e.identity.draft_id == id)
}

fn limits(max_drafts: usize, max_total_bytes: usize) -> ContextServiceLimits {
    ContextServiceLimits { max_drafts, max_total_bytes, ..ContextServiceLimits::default() }
}

#[test]
fn terminal_reservation_accounts_for_the_complete_retained_status() {
    let mut failed = entry(
        "large-error",
        DraftEntryState::Failed(ContextServiceError::Runtime("x".repeat(8 * 1024))),
        NOW + MINUTE,
        0,
        false,
    );
    let serialized = format!("{:?}", failed.state).len();
    failed.refresh_terminal_reservation(Some(serialized));
    assert!(serialized > TERMINAL_DRAFT_RESERVATION_FLOOR_BYTES);
    assert_eq!(failed.reserved_bytes, serialized);
    failed.refresh_terminal_reservation(Some(3));
    assert_eq!(failed.reserved_bytes, TERMINAL_DRAFT_RESERVATION_FLOOR_BYTES);
    failed.refresh_terminal_reservation(None);
    assert_eq!(failed.reserved_bytes, usize::MAX);
}

#[test]
fn lifecycle_invalidation_is_session_scoped_terminal_and_never_mutates_applying_drafts() {
    let expires_at = NOW + MINUTE;
    let mut preparing = entry("preparing", DraftEntryState::Preparing, expires_at, 4_096, true);
    preparing.identity.session_id = "discarded-session".to_string();
    let mut ready = entry("ready", DraftEntryState::Ready(draft("ready", expires_at)), expires_at, 2_048, false);
    ready.identity.session_id = "discarded-session".to_string();
    let mut applying = entry("applying", DraftEntryState::Applying(draft("applying", expires_at)), expires_at, 2_048, false);
    applying.identity.session_id = "discarded-session".to_string();
    let mut other = entry("other", DraftEntryState::Preparing, expires_at, 1_024, true);
    other.identity.session_id = "other-session".to_string();
    let mut store = store(vec![preparing, ready, applying, other]);

    assert_eq!(store.invalidate_session("discarded-session", "session lifecycle changed", &debug_sizer), 2);

    assert!(find(&store, "preparing").unwrap().cancel_requested);
    for id in ["preparing", "ready"] {
        assert!(matches!(
            find(&store, id).unwrap().state,
            DraftEntryState::Failed(ContextServiceError::Stale(_))
        ));
    }
    assert!(find(&store, "ready").unwrap().reserved_bytes >= TERMINAL_DRAFT_RESERVATION_FLOOR_BYTES);
    assert!(matches!(find(&store, "applying").unwrap().state, DraftEntryState::Applying(_)));
    assert!(matches!(find(&store, "other").unwrap().state, DraftEntryState::Preparing));
}

#[test]
fn store_bounds_never_evict_inflight_entries() {
    let mut store = ContextDraftStore::new();
    let limits = limits(1, 1_024);
    store
        .insert_preparing(entry("first", DraftEntryState::Preparing, NOW + MINUTE, 600, true), limits, NOW, &debug_sizer)
        .expect("first preparing draft");
    let error = store
        .insert_preparing(entry("second", DraftEntryState::Preparing, NOW + MINUTE, 200, true), limits, NOW, &debug_sizer)
        .expect_err("in-flight entry cannot be evicted");
    assert!(matches!(error, ContextServiceError::Capacity(_)));
    assert!(find(&store, "first").is_some());
}

#[test]
fn expired_preparing_draft_keeps_its_reservation_while_generation_runs() {
    let mut store = store(vec![entry("expired", DraftEntryState::Preparing, NOW - 1, 4_096, true)]);
    store.expire_entries(NOW, &debug_sizer);
    let expired = find(&store, "expired").expect("expired entry");
    assert!(matches!(expired.state, DraftEntryState::Expired));
    assert!(expired.cancel_requested);
    assert_eq!(expired.reserved_bytes, 4_096);
    assert!(expired.generation_in_flight);
    assert!(!expired.is_evictable());
}

#[test]
fn applying_draft_does_not_expire_mid_commit() {
    let mut store = store(vec![entry("applying", DraftEntryState::Applying(draft("applying", NOW)), NOW - 1, 1_024, false)]);
    store.expire_entries(NOW, &debug_sizer);
    assert!(matches!(find(&store, "applying").unwrap().state, DraftEntryState::Applying(_)));
}

#[test]
fn byte_bound_and_zero_item_bound_reject_without_insertion() {
    let mut store = ContextDraftStore::new();
    assert!(matches!(
        store.insert_preparing(entry("oversized", DraftEntryState::Preparing, NOW + MINUTE, 101, true), limits(1, 100), NOW, &debug_sizer),
        Err(ContextServiceError::Capacity(m)) if m == "captured draft requires 101 bytes, exceeding the 100-byte store bound"
    ));
    assert!(store.entries.is_empty());
    assert!(matches!(
        store.insert_preparing(entry("zero", DraftEntryState::Preparing, NOW + MINUTE, 1, true), limits(0, 1_024), NOW, &debug_sizer),
        Err(ContextServiceError::Capacity(m)) if m == "0 drafts are already retained"
    ));
    assert!(store.entries.is_empty());
}

#[test]
fn terminal_eviction_is_oldest_first_and_inflight_terminal_entries_are_protected() {
    let mut oldest = entry("oldest", DraftEntryState::Failed(ContextServiceError::Runtime("old".to_string())), NOW + MINUTE, 512, false);
    oldest.identity.created_at = NOW - 2 * MINUTE;
    let mut newest = entry("newest", DraftEntryState::Failed(ContextServiceError::Runtime("new".to_string())), NOW + MINUTE, 512, false);
    newest.identity.created_at = NOW - MINUTE;
    let mut store = store(vec![oldest, newest]);
    store
        .insert_preparing(entry("incoming", DraftEntryState::Preparing, NOW + MINUTE, 128, true), limits(2, 2_048), NOW, &debug_sizer)
        .expect("oldest terminal eviction");
    assert!(find(&store, "oldest").is_none());
    assert!(find(&store, "newest").is_some());
    assert!(find(&store, "incoming").is_some());
    let ids: Vec<_> = store.entries.iter().map(|e| e.identity.draft_id.clone()).collect();
    assert_eq!(ids, ["incoming", "newest"]);

    let mut protected = self::store(vec![entry("canceled-inflight", DraftEntryState::Canceled, NOW + MINUTE, 900, true)]);
    let error = protected
        .insert_preparing(entry("blocked", DraftEntryState::Preparing, NOW + MINUTE, 100, true), limits(1, 1_024), NOW, &debug_sizer)
        .unwrap_err();
    assert!(matches!(error, ContextServiceError::Capacity(_)));
    assert!(find(&protected, "canceled-inflight").is_some());
}

#[test]
fn byte_pressure_evicts_terminal_drafts_but_reports_when_nothing_can_go() {
    let mut store = store(vec![
        entry("done", DraftEntryState::Canceled, NOW + MINUTE, 700, false),
        entry("running", DraftEntryState::Preparing, NOW + MINUTE, 200, true),
    ]);
    store
        .insert_preparing(entry("new", DraftEntryState::Preparing, NOW + MINUTE, 300, true), limits(5, 1_000), NOW, &debug_sizer)
        .expect("evicts the canceled draft");
    assert!(find(&store, "done").is_none());
    assert_eq!(store.total_bytes(), 500);
    let error = store
        .insert_preparing(entry("huge", DraftEntryState::Preparing, NOW + MINUTE, 600, true), limits(5, 1_000), NOW, &debug_sizer)
        .unwrap_err();
    assert!(matches!(error, ContextServiceError::Capacity(m) if m == "captured drafts require 1100 bytes and no terminal draft can be evicted"));
}

#[test]
fn ready_expiry_reserves_the_terminal_status() {
    let mut store = store(vec![entry("ready", DraftEntryState::Ready(draft("ready", NOW)), NOW, 4_096, false)]);
    store.expire_entries(NOW, &debug_sizer);
    let expired = find(&store, "ready").unwrap();
    assert!(matches!(expired.state, DraftEntryState::Expired));
    assert_eq!(expired.reserved_bytes, TERMINAL_DRAFT_RESERVATION_FLOOR_BYTES);
    assert!(expired.is_evictable());
    store.enforce_total_bytes(0);
    assert!(store.entries.is_empty());
}

#[test]
fn expired_inflight_reservation_survives_until_late_result_is_suppressed() {
    let mut store = store(vec![entry("expired", DraftEntryState::Preparing, NOW - 1_000, 4_096, true)]);
    store.expire_entries(NOW, &debug_sizer);
    {
        let entry = find(&store, "expired").expect("expired entry");
        assert!(matches!(entry.state, DraftEntryState::Expired));
        assert_eq!(entry.reserved_bytes, 4_096);
        assert!(entry.generation_in_flight);
        assert!(!entry.is_evictable());
    }

    store.finish_ready(draft("expired", NOW), Some(4_096), 64 * 1024 * 1024, &debug_sizer);

    let entry = find(&store, "expired").expect("late result entry");
    assert!(matches!(entry.state, DraftEntryState::Expired));
    assert_eq!(entry.reserved_bytes, 512);
    assert!(!entry.generation_in_flight);
    assert!(entry.is_evictable());
}

#[test]
fn oversized_ready_result_fails_boundedly_and_saturating_reservations_never_overflow() {
    let bounded = limits(2, 700);
    let mut service_store = store(vec![entry("large-ready", DraftEntryState::Preparing, NOW + MINUTE, 100, true)]);
    // the serialized ready status of the prepared draft exceeds the whole byte bound
    service_store.finish_ready(draft("large-ready", NOW + MINUTE), Some(4_096), bounded.max_total_bytes, &debug_sizer);
    assert!(matches!(
        find(&service_store, "large-ready").expect("entry").state,
        DraftEntryState::Failed(ContextServiceError::Capacity(_))
    ));
    assert!(service_store.total_bytes() <= bounded.max_total_bytes);

    let mut store = store(vec![entry("saturated", DraftEntryState::Preparing, NOW + MINUTE, usize::MAX - 10, true)]);
    assert!(matches!(
        store.insert_preparing(
            entry("overflow", DraftEntryState::Preparing, NOW + MINUTE, 20, true),
            limits(2, usize::MAX - 1),
            NOW,
            &debug_sizer,
        ),
        Err(ContextServiceError::Capacity(_))
    ));
    assert_eq!(store.entries.len(), 1);
}
