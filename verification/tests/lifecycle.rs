use context_ledger::lifecycle::ContextDraftStatus;
use context_ledger::protocol::{ContextDraft, ContextDraftIdentity};
use context_ledger::session::{ContextServiceError, StoredContextAuthorization};
use context_ledger::store::{
    ContextDraftEntry, ContextDraftPhase, ContextDraftProgress, ContextDraftStore, DraftEntryState,
};

const NOW: i64 = 1_000_000;
const MINUTE: i64 = 60_000;


fn fixed_sizer(_entry: &ContextDraftEntry) -> Option<usize> {
    Some(100)
}

fn identity(id: &str, session: &str) -> ContextDraftIdentity {
    ContextDraftIdentity {
        draft_id: id.to_string(),
        session_id: session.to_string(),
        base_context_revision: 0,
        raw_message_count: 0,
        transcript_digest: 0,
        provider_name: "provider".to_string(),
        model: "model".to_string(),
        route: "route".to_string(),
        created_at: NOW,
        expires_at: NOW + MINUTE,
    }
}

fn draft(id: &str) -> ContextDraft {
    ContextDraft {
        identity: identity(id, "session"),
        authorization: StoredContextAuthorization::Manual { initiated_by: None },
        active_agent_profile_message_id: None,
        required_operations: Vec::new(),
        distillation_proposals: Vec::new(),
    }
}

fn entry(id: &str, state: DraftEntryState, reserved_bytes: usize, generation_in_flight: bool) -> ContextDraftEntry {
    ContextDraftEntry {
        identity: identity(id, "session"),
        state,
        progress: ContextDraftProgress { phase: ContextDraftPhase::Capturing, completed_items: 0, total_items: 0 },
        reserved_bytes,
        generation_in_flight,
        cancel_requested: false,
    }
}

fn store(mut entries: Vec<ContextDraftEntry>) -> ContextDraftStore {
    entries.sort_by(|a, b| a.identity.draft_id.cmp(&b.identity.draft_id));
    ContextDraftStore { entries }
}

fn get<'a>(store: &'a ContextDraftStore, id: &str) -> &'a ContextDraftEntry {
    store.entries.iter().find(|e| e.identity.draft_id == id).expect("entry")
}

#[test]
fn ready_cancel_and_expiry_release_bytes_while_applying_is_immutable() {
    let mut s = store(vec![
        entry("ready", DraftEntryState::Ready(draft("ready")), 4_096, false),
        entry("applying", DraftEntryState::Applying(draft("applying")), 2_048, false),
    ]);
    s.cancel_draft("ready", &fixed_sizer).expect("cancel ready draft");
    assert!(matches!(get(&s, "ready").state, DraftEntryState::Canceled));
    assert_eq!(get(&s, "ready").reserved_bytes, 512);
    assert!(matches!(s.cancel_draft("applying", &fixed_sizer), Err(ContextServiceError::DraftNotReady(_))));
    assert!(matches!(get(&s, "applying").state, DraftEntryState::Applying(_)));
    assert_eq!(get(&s, "applying").reserved_bytes, 2_048);
}

#[test]
fn canceling_preparing_asks_generation_to_stop_and_other_states_answer_by_kind() {
    let mut s = store(vec![
        entry("preparing", DraftEntryState::Preparing, 300, true),
        entry("done", DraftEntryState::Applied { transaction_id: "tx".to_string(), revision: 2 }, 600, false),
        entry("gone", DraftEntryState::Expired, 600, false),
        entry("canceled", DraftEntryState::Canceled, 600, false),
    ]);
    s.cancel_draft("preparing", &fixed_sizer).expect("cancel preparing");
    let preparing = get(&s, "preparing");
    assert!(matches!(preparing.state, DraftEntryState::Canceled));
    assert!(preparing.cancel_requested);
    assert!(preparing.generation_in_flight);
    assert_eq!(preparing.reserved_bytes, 300);
    assert!(s.cancel_draft("canceled", &fixed_sizer).is_ok());
    assert!(matches!(s.cancel_draft("done", &fixed_sizer), Err(ContextServiceError::DraftAlreadyApplied(_))));
    assert!(matches!(s.cancel_draft("gone", &fixed_sizer), Err(ContextServiceError::DraftExpired(_))));
    assert!(matches!(s.cancel_draft("missing", &fixed_sizer), Err(ContextServiceError::DraftNotFound(_))));
}

#[test]
fn late_terminal_results_preserve_status_and_release_generation_reservations() {
    let mut s = store(vec![
        entry("expired", DraftEntryState::Expired, 4_096, true),
        entry("failed", DraftEntryState::Failed(ContextServiceError::Runtime("first".to_string())), 8_192, true),
    ]);
    s.finish_failed("expired", ContextServiceError::Runtime("late failure".to_string()), 1_000_000, &fixed_sizer);
    let expired = get(&s, "expired");
    assert!(matches!(expired.state, DraftEntryState::Expired));
    assert_eq!(expired.reserved_bytes, 512);
    assert!(!expired.generation_in_flight);
    s.finish_canceled("failed", &fixed_sizer);
    let failed = get(&s, "failed");
    assert!(matches!(&failed.state, DraftEntryState::Failed(ContextServiceError::Runtime(reason)) if reason == "first"));
    assert_eq!(failed.reserved_bytes, 512);
    assert!(!failed.generation_in_flight);
    s.finish_ready(draft("expired"), Some(10), 1_000_000, &fixed_sizer);
    assert!(matches!(get(&s, "expired").state, DraftEntryState::Expired));
}

#[test]
fn oversized_ready_result_fails_boundedly() {
    let mut s = store(vec![entry("large-ready", DraftEntryState::Preparing, 100, true)]);
    s.finish_ready(draft("large-ready"), Some(800), 700, &fixed_sizer);
    let large = get(&s, "large-ready");
    match &large.state {
        DraftEntryState::Failed(ContextServiceError::Capacity(m)) => {
            assert_eq!(m, "prepared draft would retain 800 bytes against the 700-byte bound")
        }
        other => panic!("unexpected state {other:?}"),
    }
    assert!(!large.generation_in_flight);
    assert!(s.total_bytes() <= 700);
}

#[test]
fn ready_result_reserves_its_serialized_size() {
    let mut s = store(vec![
        entry("a", DraftEntryState::Preparing, 100, true),
        entry("b", DraftEntryState::Canceled, 512, false),
    ]);
    s.finish_ready(draft("a"), Some(300), 1_000, &fixed_sizer);
    let a = get(&s, "a");
    assert!(matches!(a.state, DraftEntryState::Ready(_)));
    assert_eq!(a.reserved_bytes, 300);
    assert!(!a.generation_in_flight);
    assert_eq!(s.total_bytes(), 812);
    let mut unserializable = store(vec![entry("c", DraftEntryState::Preparing, 100, true)]);
    unserializable.finish_ready(draft("c"), None, 1_000, &fixed_sizer);
    assert!(matches!(get(&unserializable, "c").state, DraftEntryState::Ready(_)));
    assert_eq!(get(&unserializable, "c").reserved_bytes, 1_000);
    let mut crowded = store(vec![
        entry("c", DraftEntryState::Preparing, 100, true),
        entry("d", DraftEntryState::Preparing, 100, true),
    ]);
    crowded.finish_ready(draft("c"), None, 1_000, &fixed_sizer);
    match &get(&crowded, "c").state {
        DraftEntryState::Failed(ContextServiceError::Capacity(m)) => {
            assert_eq!(m, "prepared draft would retain 1100 bytes against the 1000-byte bound")
        }
        other => panic!("unexpected state {other:?}"),
    }
}

#[test]
fn generation_failure_fails_a_preparing_draft() {
    let mut s = store(vec![entry("p", DraftEntryState::Preparing, 100, true)]);
    s.finish_failed("p", ContextServiceError::Curator("curator down".to_string()), 10_000, &fixed_sizer);
    let p = get(&s, "p");
    assert!(matches!(&p.state, DraftEntryState::Failed(ContextServiceError::Curator(m)) if m == "curator down"));
    assert_eq!(p.reserved_bytes, 512);
    let mut c = store(vec![entry("q", DraftEntryState::Preparing, 100, true)]);
    c.finish_canceled("q", &fixed_sizer);
    assert!(matches!(get(&c, "q").state, DraftEntryState::Canceled));
    assert!(!get(&c, "q").generation_in_flight);
}

#[test]
fn apply_reservation_round_trips_and_records_the_outcome() {
    let mut s = store(vec![
        entry("d", DraftEntryState::Ready(draft("d")), 700, false),
        entry("other", DraftEntryState::Ready(draft("other")), 700, false),
    ]);
    assert!(matches!(s.reserve_ready_draft("d", "another-session"), Err(ContextServiceError::DraftNotFound(_))));
    s.reserve_ready_draft("d", "session").expect("reserve");
    assert_eq!(s.applying_draft("d").map(|d| d.identity.draft_id.clone()), Some("d".to_string()));
    assert!(matches!(s.reserve_ready_draft("d", "session"), Err(ContextServiceError::DraftNotReady(_))));
    assert!(matches!(s.ready_draft_for_session("d", "session"), Err(ContextServiceError::DraftNotReady(_))));
    s.restore_applying_draft("d");
    assert!(matches!(get(&s, "d").state, DraftEntryState::Ready(_)));
    assert_eq!(s.ready_draft_for_session("d", "session").expect("ready").identity.draft_id, "d");
    s.reserve_ready_draft("d", "session").expect("reserve again");
    s.mark_draft_applied("d", "tx-9", 4, 1_000_000, &fixed_sizer);
    match &get(&s, "d").state {
        DraftEntryState::Applied { transaction_id, revision } => {
            assert_eq!(transaction_id, "tx-9");
            assert_eq!(*revision, 4);
        }
        other => panic!("unexpected state {other:?}"),
    }
    assert_eq!(get(&s, "d").reserved_bytes, 512);
    assert!(matches!(s.ready_draft_for_session("d", "session"), Err(ContextServiceError::DraftAlreadyApplied(_))));
    s.reserve_ready_draft("other", "session").expect("reserve other");
    s.fail_applying_draft("other", ContextServiceError::Persistence("disk full".to_string()), 1_000_000, &fixed_sizer);
    assert!(matches!(&get(&s, "other").state, DraftEntryState::Failed(ContextServiceError::Persistence(m)) if m == "disk full"));
}

#[test]
fn expiry_at_the_current_time_keeps_future_drafts() {
    let mut s = store(vec![entry("future", DraftEntryState::Preparing, 100, true)]);
    s.entries[0].identity.expires_at = i64::MAX;
    s.expire_now(&fixed_sizer).expect("clock");
    assert!(matches!(get(&s, "future").state, DraftEntryState::Preparing));
    let mut old = store(vec![entry("past", DraftEntryState::Ready(draft("past")), 100, false)]);
    old.entries[0].identity.expires_at = 0;
    old.expire_now(&fixed_sizer).expect("clock");
    assert!(matches!(get(&old, "past").state, DraftEntryState::Expired));
}

#[test]
fn progress_and_status_follow_the_lifecycle() {
    let mut s = store(vec![
        entry("p", DraftEntryState::Preparing, 100, true),
        entry("f", DraftEntryState::Failed(ContextServiceError::Runtime("boom".to_string())), 600, false),
    ]);
    s.update_progress("p", ContextDraftPhase::PreparingArtifacts, 2, 5);
    s.update_progress("f", ContextDraftPhase::PreparingArtifacts, 9, 9);
    match s.draft_status("p").expect("status") {
        ContextDraftStatus::Preparing { identity, progress } => {
            assert_eq!(identity.draft_id, "p");
            assert_eq!(progress, ContextDraftProgress { phase: ContextDraftPhase::PreparingArtifacts, completed_items: 2, total_items: 5 });
        }
        other => panic!("unexpected status {other:?}"),
    }
    assert_eq!(get(&s, "f").progress.completed_items, 0);
    assert!(matches!(s.draft_status("f"), Ok(ContextDraftStatus::Failed { error: ContextServiceError::Runtime(m), .. }) if m == "boom"));
    assert!(matches!(s.draft_status("nope"), Err(ContextServiceError::DraftNotFound(m)) if m == "nope"));
    s.finish_ready(draft("p"), Some(50), 10_000, &fixed_sizer);
    assert_eq!(get(&s, "p").progress.phase, ContextDraftPhase::Ready);
    assert_eq!(get(&s, "p").progress.completed_items, 2);
    match s.draft_status("p").expect("ready") {
        ContextDraftStatus::Ready { draft } => assert_eq!(draft.identity.draft_id, "p"),
        other => panic!("unexpected status {other:?}"),
    }
}

#[test]
fn a_finished_draft_reserves_what_its_status_measures_and_at_least_the_floor() {
    let mut s = store(vec![
        entry("large", DraftEntryState::Ready(draft("large")), 4_096, false),
        entry("unmeasured", DraftEntryState::Ready(draft("unmeasured")), 4_096, false),
        entry("small", DraftEntryState::Ready(draft("small")), 4_096, false),
    ]);
    let sizer = |e: &ContextDraftEntry| match e.identity.draft_id.as_str() {
        "large" if matches!(e.state, DraftEntryState::Canceled) => Some(1_500),
        "unmeasured" => None,
        _ => Some(10),
    };
    s.cancel_draft("large", &sizer).expect("cancel large");
    s.cancel_draft("unmeasured", &sizer).expect("cancel unmeasured");
    s.cancel_draft("small", &sizer).expect("cancel small");
    assert_eq!(get(&s, "large").reserved_bytes, 1_500);
    assert_eq!(get(&s, "unmeasured").reserved_bytes, usize::MAX);
    assert_eq!(get(&s, "small").reserved_bytes, 512);
}

#[test]
fn invalidating_a_session_bounds_its_reason_and_leaves_applying_drafts_alone() {
    let mut s = store(vec![
        entry("applying", DraftEntryState::Applying(draft("applying")), 2_048, false),
        entry("preparing", DraftEntryState::Preparing, 300, true),
        entry("ready", DraftEntryState::Ready(draft("ready")), 4_096, false),
    ]);
    let reason = "x".repeat(300);
    let count = s.invalidate_session_drafts("session", &reason, 1 << 20, &fixed_sizer);
    assert_eq!(count, 2);
    match &get(&s, "ready").state {
        DraftEntryState::Failed(ContextServiceError::Stale(m)) => {
            assert_eq!(m.chars().count(), 256);
            assert!(m.ends_with('…'));
        }
        other => panic!("unexpected {other:?}"),
    }
    assert_eq!(get(&s, "ready").reserved_bytes, 512);
    assert!(get(&s, "preparing").cancel_requested);
    assert!(matches!(get(&s, "applying").state, DraftEntryState::Applying(_)));
}
