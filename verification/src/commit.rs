//! Committing context transitions: persistence boundaries with exact rollback, emergency
//! policy validation, and the checks a draft passes before it is applied.

use vstd::prelude::*;

use crate::clock::{clock_error_text, now_unix_millis};
use crate::history::{ContextTransactionResult, ContextTransactionSummary};
use crate::session::{
    ContextServiceError, ContextSession, ServiceErrorModel, StoredContextAuthorization,
    StoredContextEmergencyAudit, StoredContextEmergencyOperationKind,
    StoredContextEmergencyPolicy, StoredContextEmergencyRetryOutcome,
    StoredContextEmergencyTriggerKind, StoredContextOperation, StoredContextViewState,
};
use crate::model::{message_position, position_of_message, StoredMessage};
use crate::protocol::{ContextDistillationProposal, ContextDraft};
use crate::provider::ContextProjectionValidationReport;
use crate::session::{
    copy_validation_evidence, spec_is_active, StoredContextTransaction, StoredProviderValidationEvidence,
    StoredReasoningSuppression, StoredToolResultDistillation,
};
use crate::text::{insert_sorted, strictly_sorted, views};
use crate::text::{
    chars_of, concat2, concat3, decimal, decimal_string, seq_lt, str_eq, str_lt, trim_chars,
    trim_seq,
};

verus! {

/// Persistence boundary for a session owned through an agent. Production saves the session;
/// tests inject failures so that rollback is exercised.
pub trait ContextPersistence {
    /// Saves the session; the error explains a failure.
    fn persist(&self, session: &ContextSession) -> Result<(), String>;
}

/// Persistence boundary for a session owned directly, without an agent lock.
pub trait DirectContextSessionPersistence {
    /// Saves the session; the error explains a failure.
    fn persist(&self, session: &ContextSession) -> Result<(), String>;
}

/// The outcome of a revert or reapply on a directly owned session.
#[derive(Clone, Debug)]
pub struct ContextSessionTransition {
    pub result: ContextTransactionResult,
    pub invalidation_detail: String,
}

/// Equal policies, by their fields' values.
pub open spec fn same_policy(a: StoredContextEmergencyPolicy, b: StoredContextEmergencyPolicy) -> bool {
    match (a, b) {
        (StoredContextEmergencyPolicy::Block, StoredContextEmergencyPolicy::Block) => true,
        (
            StoredContextEmergencyPolicy::Authorized {
                protected_recent_assistant_turns: t1,
                target_headroom_percent: h1,
                allow_reasoning_suppression: r1,
                allow_tool_distillation: d1,
                allow_oldest_range_summary: o1,
                authorization_source: s1,
            },
            StoredContextEmergencyPolicy::Authorized {
                protected_recent_assistant_turns: t2,
                target_headroom_percent: h2,
                allow_reasoning_suppression: r2,
                allow_tool_distillation: d2,
                allow_oldest_range_summary: o2,
                authorization_source: s2,
            },
        ) => t1 == t2 && h1 == h2 && r1 == r2 && d1 == d2 && o1 == o2 && s1@ == s2@,
        _ => false,
    }
}

fn policies_equal(a: &StoredContextEmergencyPolicy, b: &StoredContextEmergencyPolicy) -> (r: bool)
    ensures
        r == same_policy(*a, *b),
{
    match (a, b) {
        (StoredContextEmergencyPolicy::Block, StoredContextEmergencyPolicy::Block) => true,
        (
            StoredContextEmergencyPolicy::Authorized {
                protected_recent_assistant_turns: t1,
                target_headroom_percent: h1,
                allow_reasoning_suppression: r1,
                allow_tool_distillation: d1,
                allow_oldest_range_summary: o1,
                authorization_source: s1,
            },
            StoredContextEmergencyPolicy::Authorized {
                protected_recent_assistant_turns: t2,
                target_headroom_percent: h2,
                allow_reasoning_suppression: r2,
                allow_tool_distillation: d2,
                allow_oldest_range_summary: o2,
                authorization_source: s2,
            },
        ) => *t1 == *t2 && *h1 == *h2 && *r1 == *r2 && *d1 == *d2 && *o1 == *o2 && str_eq(
            s1.as_str(),
            s2.as_str(),
        ),
        _ => false,
    }
}

/// Why an emergency policy is invalid, if it is.
pub open spec fn emergency_policy_error(policy: StoredContextEmergencyPolicy) -> Option<Seq<char>> {
    match policy {
        StoredContextEmergencyPolicy::Block => None,
        StoredContextEmergencyPolicy::Authorized {
            protected_recent_assistant_turns,
            target_headroom_percent,
            allow_reasoning_suppression,
            allow_tool_distillation,
            allow_oldest_range_summary,
            authorization_source,
        } => {
            let source = trim_seq(authorization_source@);
            if protected_recent_assistant_turns > 1000 {
                Some("protected recent assistant turns cannot exceed 1000"@)
            } else if !(1 <= target_headroom_percent <= 99) {
                Some("target headroom percent must be between 1 and 99"@)
            } else if !(allow_reasoning_suppression || allow_tool_distillation
                || allow_oldest_range_summary) {
                Some("an authorized emergency policy must allow at least one operation"@)
            } else if source.len() == 0 || source.len() > 512 {
                Some("authorization source must contain between 1 and 512 characters"@)
            } else {
                None
            }
        },
    }
}

/// Checks an emergency policy: a blocking policy is always valid; an authorized one protects at
/// most 1000 recent turns, targets 1 to 99 percent headroom, allows at least one operation, and
/// names its authorization source in 1 to 512 characters.
pub fn validate_emergency_policy(policy: &StoredContextEmergencyPolicy) -> (r: Result<
    (),
    ContextServiceError,
>)
    ensures
        match r {
            Ok(()) => emergency_policy_error(*policy) is None,
            Err(e) => emergency_policy_error(*policy) matches Some(m) && e@
                == ServiceErrorModel::InvalidSelection(m),
        },
{
    match policy {
        StoredContextEmergencyPolicy::Block => Ok(()),
        StoredContextEmergencyPolicy::Authorized {
            protected_recent_assistant_turns,
            target_headroom_percent,
            allow_reasoning_suppression,
            allow_tool_distillation,
            allow_oldest_range_summary,
            authorization_source,
        } => {
            if *protected_recent_assistant_turns > 1000 {
                return Err(
                    ContextServiceError::InvalidSelection(
                        String::from_str("protected recent assistant turns cannot exceed 1000"),
                    ),
                );
            }
            if !(1 <= *target_headroom_percent && *target_headroom_percent <= 99) {
                return Err(
                    ContextServiceError::InvalidSelection(
                        String::from_str("target headroom percent must be between 1 and 99"),
                    ),
                );
            }
            if !(*allow_reasoning_suppression || *allow_tool_distillation
                || *allow_oldest_range_summary) {
                return Err(
                    ContextServiceError::InvalidSelection(
                        String::from_str(
                            "an authorized emergency policy must allow at least one operation",
                        ),
                    ),
                );
            }
            let source = trim_chars(&chars_of(authorization_source.as_str()));
            if source.len() == 0 || source.len() > 512 {
                return Err(
                    ContextServiceError::InvalidSelection(
                        String::from_str(
                            "authorization source must contain between 1 and 512 characters",
                        ),
                    ),
                );
            }
            Ok(())
        },
    }
}

/// Sets a session's emergency policy and persists it. A busy session, an invalid policy, or a
/// failed save leaves the session exactly as it was; the same policy again is a no-op. The
/// context revision never changes.
pub fn set_emergency_policy_for_session<P: DirectContextSessionPersistence>(
    persistence: &P,
    session: &mut ContextSession,
    policy: StoredContextEmergencyPolicy,
    processing: bool,
) -> (r: Result<(String, StoredContextEmergencyPolicy), ContextServiceError>)
    ensures
        match r {
            Ok((id, p)) => {
                &&& !processing
                &&& emergency_policy_error(policy) is None
                &&& id@ == old(session).id@
                &&& p == policy
                &&& if same_policy(old(session).context_view.emergency_policy, policy) {
                    *final(session) == *old(session)
                } else {
                    *final(session) == (ContextSession {
                        context_view: StoredContextViewState {
                            emergency_policy: policy,
                            ..old(session).context_view
                        },
                        ..*old(session)
                    })
                }
            },
            Err(e) => {
                &&& *final(session) == *old(session)
                &&& if processing {
                    e is SessionBusy
                } else if emergency_policy_error(policy) is Some {
                    e@ == ServiceErrorModel::InvalidSelection(emergency_policy_error(policy)->0)
                } else {
                    !same_policy(old(session).context_view.emergency_policy, policy)
                        && e is Persistence
                }
            },
        },
{
    if processing {
        return Err(ContextServiceError::SessionBusy);
    }
    match validate_emergency_policy(&policy) {
        Ok(()) => {},
        Err(e) => {
            return Err(e);
        },
    }
    let session_id = session.id.clone();
    if policies_equal(&session.context_view.emergency_policy, &policy) {
        return Ok((session_id, policy));
    }
    let mut previous = policy.clone();
    std::mem::swap(&mut previous, &mut session.context_view.emergency_policy);
    match persistence.persist(session) {
        Ok(()) => Ok((session_id, policy)),
        Err(message) => {
            session.context_view.emergency_policy = previous;
            Err(ContextServiceError::Persistence(message))
        },
    }
}

/// Installs a prepared context view on a directly owned session, clears the provider's
/// continuation, and persists the session. A failed save restores the session exactly.
pub fn commit_session_transition<P: DirectContextSessionPersistence>(
    persistence: &P,
    session: &mut ContextSession,
    prepared: StoredContextViewState,
    result: ContextTransactionResult,
    invalidation_detail: String,
) -> (r: Result<ContextSessionTransition, ContextServiceError>)
    ensures
        match r {
            Ok(t) => {
                &&& *final(session) == (ContextSession {
                    context_view: prepared,
                    provider_session_id: None,
                    ..*old(session)
                })
                &&& t.result == result
                &&& t.invalidation_detail == invalidation_detail
            },
            Err(e) => *final(session) == *old(session) && e is Persistence,
        },
{
    let mut previous_view = prepared;
    std::mem::swap(&mut previous_view, &mut session.context_view);
    let mut previous_provider: Option<String> = None;
    std::mem::swap(&mut previous_provider, &mut session.provider_session_id);
    match persistence.persist(session) {
        Ok(()) => Ok(ContextSessionTransition { result, invalidation_detail }),
        Err(message) => {
            session.context_view = previous_view;
            session.provider_session_id = previous_provider;
            Err(ContextServiceError::Persistence(message))
        },
    }
}

/// What a revert or reapply answers once its proposal is known: a refused proposal is the
/// answer, and so is a failed preparation; otherwise the prepared view is committed (see
/// [`commit_session_transition`]). A refusal leaves the session exactly as it was.
pub open spec fn transition_answer<
    F: Fn(&ContextSession, StoredContextViewState, usize, bool) -> Result<
        (StoredContextViewState, ContextTransactionResult, String),
        ContextServiceError,
    >,
>(
    prepare: F,
    before: ContextSession,
    after: ContextSession,
    proposal: Result<(usize, StoredContextViewState), ContextServiceError>,
    reapply: bool,
    r: Result<ContextSessionTransition, ContextServiceError>,
) -> bool {
    match proposal {
        Err(e) => r == Err::<ContextSessionTransition, ContextServiceError>(e) && after == before,
        Ok((index, proposed)) => exists|
            prepared: Result<
                (StoredContextViewState, ContextTransactionResult, String),
                ContextServiceError,
            >,
        |
            #[trigger] prepare.ensures((&before, proposed, index, reapply), prepared) && match prepared {
                Err(e) => r == Err::<ContextSessionTransition, ContextServiceError>(e) && after
                    == before,
                Ok((view, result, detail)) => match r {
                    Ok(t) => {
                        &&& after == (ContextSession {
                            context_view: view,
                            provider_session_id: None,
                            ..before
                        })
                        &&& t.result == result
                        &&& t.invalidation_detail == detail
                    },
                    Err(e) => after == before && e is Persistence,
                },
            },
    }
}

/// Reverts (`reapply == false`) or reapplies transaction `transaction_id` of a directly owned
/// session, its status event stamped `timestamp`: refused while the session is processing;
/// otherwise the transition is proposed on a copy of the view (see
/// [`crate::history::propose_status_transition_at`]), `prepare` projects and validates it
/// against the transcript, and the prepared view is installed and persisted, a failed save
/// restoring the session exactly.
pub fn transition_transaction_in_session<
    P: DirectContextSessionPersistence,
    F: Fn(&ContextSession, StoredContextViewState, usize, bool) -> Result<
        (StoredContextViewState, ContextTransactionResult, String),
        ContextServiceError,
    >,
>(
    persistence: &P,
    prepare: &F,
    session: &mut ContextSession,
    transaction_id: &str,
    processing: bool,
    reapply: bool,
    timestamp: i64,
) -> (r: Result<ContextSessionTransition, ContextServiceError>)
    requires
        forall|s: &ContextSession, v: StoredContextViewState, i: usize, b: bool|
            prepare.requires((s, v, i, b)),
    ensures
        processing ==> (r matches Err(e) && e is SessionBusy) && *final(session) == *old(session),
        !processing ==> exists|
            copy: StoredContextViewState,
            proposal: Result<(usize, StoredContextViewState), ContextServiceError>,
        |
            #![trigger crate::history::status_transition_outcome(copy, transaction_id@, reapply, timestamp, proposal)]
            crate::session::same_view(copy, old(session).context_view)
                && crate::history::status_transition_outcome(
                copy,
                transaction_id@,
                reapply,
                timestamp,
                proposal,
            ) && transition_answer(*prepare, *old(session), *final(session), proposal, reapply, r),
{
    if processing {
        return Err(ContextServiceError::SessionBusy);
    }
    let copy = crate::session::copy_view(&session.context_view);
    let ghost copied = copy;
    let proposal = crate::history::propose_status_transition_at(copy, transaction_id, reapply, timestamp);
    let ghost proposed = proposal;
    match proposal {
        Err(e) => {
            proof {
                assert(transition_answer(*prepare, *old(session), *session, proposed, reapply, Err(e)));
            }
            Err(e)
        },
        Ok((index, next)) => {
            let ghost next_view = next;
            let prepared = prepare(&*session, next, index, reapply);
            let ghost prepared_ghost = prepared;
            match prepared {
                Err(e) => {
                    proof {
                        assert(prepare.ensures((&*old(session), next_view, index, reapply), prepared_ghost));
                    }
                    Err(e)
                },
                Ok((view, result, detail)) => {
                    let r = commit_session_transition(persistence, session, view, result, detail);
                    proof {
                        assert(prepare.ensures((&*old(session), next_view, index, reapply), prepared_ghost));
                    }
                    r
                },
            }
        },
    }
}

/// A copy of a service error.
pub fn copy_error(e: &ContextServiceError) -> (r: ContextServiceError)
    ensures
        r == *e,
{
    match e {
        ContextServiceError::SessionBusy => ContextServiceError::SessionBusy,
        ContextServiceError::EmptyRequest => ContextServiceError::EmptyRequest,
        ContextServiceError::RevisionOverflow => ContextServiceError::RevisionOverflow,
        ContextServiceError::InvalidSelection(m) => ContextServiceError::InvalidSelection(m.clone()),
        ContextServiceError::Stale(m) => ContextServiceError::Stale(m.clone()),
        ContextServiceError::Conflict(m) => ContextServiceError::Conflict(m.clone()),
        ContextServiceError::Capacity(m) => ContextServiceError::Capacity(m.clone()),
        ContextServiceError::Curator(m) => ContextServiceError::Curator(m.clone()),
        ContextServiceError::Projection(m) => ContextServiceError::Projection(m.clone()),
        ContextServiceError::ProviderValidation(m) => ContextServiceError::ProviderValidation(m.clone()),
        ContextServiceError::Persistence(m) => ContextServiceError::Persistence(m.clone()),
        ContextServiceError::Runtime(m) => ContextServiceError::Runtime(m.clone()),
        ContextServiceError::DraftNotFound(m) => ContextServiceError::DraftNotFound(m.clone()),
        ContextServiceError::DraftNotReady(m) => ContextServiceError::DraftNotReady(m.clone()),
        ContextServiceError::DraftAlreadyApplied(m) => ContextServiceError::DraftAlreadyApplied(m.clone()),
        ContextServiceError::DraftCanceled(m) => ContextServiceError::DraftCanceled(m.clone()),
        ContextServiceError::DraftExpired(m) => ContextServiceError::DraftExpired(m.clone()),
        ContextServiceError::TransactionNotFound(m) => ContextServiceError::TransactionNotFound(m.clone()),
        ContextServiceError::TransactionNotActive(m) => ContextServiceError::TransactionNotActive(m.clone()),
        ContextServiceError::TransactionAlreadyActive(m) => ContextServiceError::TransactionAlreadyActive(
            m.clone(),
        ),
    }
}

/// Whether `new` is `old` with draft `id` reserved for an apply.
pub open spec fn reserved_into(
    old: Seq<crate::store::ContextDraftEntry>,
    new: Seq<crate::store::ContextDraftEntry>,
    id: Seq<char>,
) -> bool {
    crate::lifecycle::changes_draft(old, new, id, |e, n| crate::lifecycle::reserve_step(e, n))
}

/// Whether `new` is `old` with draft `id` reserved for an apply and then made ready again.
pub open spec fn reserved_then_restored(
    old: Seq<crate::store::ContextDraftEntry>,
    new: Seq<crate::store::ContextDraftEntry>,
    id: Seq<char>,
) -> bool {
    exists|mid: Seq<crate::store::ContextDraftEntry>|
        #[trigger] reserved_into(old, mid, id)
            && crate::lifecycle::changes_draft(mid, new, id, |e, n| crate::lifecycle::restore_step(e, n))
}

/// Whether `new` is `old` with draft `id` reserved for an apply, then failed with `error`, then
/// evicted to the byte bound.
pub open spec fn reserved_then_failed(
    old: Seq<crate::store::ContextDraftEntry>,
    new: Seq<crate::store::ContextDraftEntry>,
    id: Seq<char>,
    error: ContextServiceError,
    max: usize,
) -> bool {
    exists|mid: Seq<crate::store::ContextDraftEntry>, failed: Seq<crate::store::ContextDraftEntry>|
        #[trigger] reserved_into(old, mid, id)
            && crate::lifecycle::changes_draft(
            mid,
            failed,
            id,
            |e, n| crate::lifecycle::fail_apply_step(e, n, error),
        ) && #[trigger] crate::lifecycle::then_evicted(failed, new, max)
}

/// Whether `new` is `old` with draft `id` reserved for an apply, then recorded as applied at
/// `revision`, then evicted to the byte bound.
pub open spec fn reserved_then_applied(
    old: Seq<crate::store::ContextDraftEntry>,
    new: Seq<crate::store::ContextDraftEntry>,
    id: Seq<char>,
    revision: u64,
    max: usize,
) -> bool {
    exists|mid: Seq<crate::store::ContextDraftEntry>, applied: Seq<crate::store::ContextDraftEntry>|
        #[trigger] reserved_into(old, mid, id)
            && crate::lifecycle::changes_draft(
            mid,
            applied,
            id,
            |e, n| crate::lifecycle::applied_step(e, n, id, revision),
        ) && #[trigger] crate::lifecycle::then_evicted(applied, new, max)
}

/// Applies ready draft `draft_id` to a directly owned session, stamped `timestamp`: refused
/// while the session is processing, or when the draft is not a ready draft of this session
/// (see [`crate::lifecycle::unusable`]), with nothing changed. Otherwise the draft is reserved
/// for the apply; a bad distillation selection, an empty request or a failed save makes it
/// ready again, while a changed capture identity or active profile, a revision overflow or a
/// failed preparation fails it with the returned error. The proposed view appends the
/// transaction (required operations, then the selected distillations) to a copy of the
/// session's view; `prepare` projects and validates it; the prepared view is installed and
/// persisted (see [`commit_session_transition`]) and the draft is recorded as applied. The
/// session changes only when the apply succeeds.
pub fn apply_draft_to_session<
    P: DirectContextSessionPersistence,
    V: crate::provider::Provider,
    F: Fn(&ContextSession, StoredContextViewState, usize) -> Result<
        (StoredContextViewState, ContextTransactionResult, String),
        ContextServiceError,
    >,
    S: Fn(&crate::store::ContextDraftEntry) -> Option<usize>,
>(
    persistence: &P,
    provider: &V,
    prepare: &F,
    sizer: &S,
    store: &mut crate::store::ContextDraftStore,
    session: &mut ContextSession,
    route: &str,
    transcript_digest: u64,
    active_profile_message_id: Option<&str>,
    draft_id: &str,
    selected_ids: Option<&Vec<String>>,
    processing: bool,
    timestamp: i64,
    max_total_bytes: usize,
) -> (r: Result<ContextSessionTransition, ContextServiceError>)
    requires
        old(store).wf(),
        forall|s: &ContextSession, v: StoredContextViewState, i: usize| prepare.requires((s, v, i)),
        forall|e: &crate::store::ContextDraftEntry| sizer.requires((e,)),
    ensures
        final(store).wf(),
        processing ==> (r matches Err(e) && e is SessionBusy) && *final(session) == *old(session)
            && final(store).entries@ == old(store).entries@,
        !processing && crate::lifecycle::unusable(
            old(store).entries@,
            draft_id@,
            old(session).id@,
        ) is Some ==> (r matches Err(e) && Some(e@) == crate::lifecycle::unusable(
            old(store).entries@,
            draft_id@,
            old(session).id@,
        )) && *final(session) == *old(session) && final(store).entries@ == old(store).entries@,
        !processing && crate::lifecycle::unusable(old(store).entries@, draft_id@, old(session).id@)
            is None ==> match r {
            Ok(t) => {
                &&& old(session).context_view.revision < u64::MAX
                &&& *final(session) == (ContextSession {
                    context_view: final(session).context_view,
                    provider_session_id: None,
                    ..*old(session)
                })
                &&& reserved_then_applied(
                    old(store).entries@,
                    final(store).entries@,
                    draft_id@,
                    (old(session).context_view.revision + 1) as u64,
                    max_total_bytes,
                )
            },
            Err(e) => {
                &&& *final(session) == *old(session)
                &&& reserved_then_restored(old(store).entries@, final(store).entries@, draft_id@)
                    || reserved_then_failed(
                    old(store).entries@,
                    final(store).entries@,
                    draft_id@,
                    e,
                    max_total_bytes,
                )
            },
        },
{
    if processing {
        return Err(ContextServiceError::SessionBusy);
    }
    let ghost start = store.entries@;
    match store.reserve_ready_draft(draft_id, session.id.as_str()) {
        Ok(()) => {},
        Err(e) => {
            return Err(e);
        },
    }
    let ghost reserved = store.entries@;
    assert(reserved_into(start, reserved, draft_id@));
    let draft = match store.applying_draft(draft_id) {
        Some(d) => d,
        None => {
            store.restore_applying_draft(draft_id);
            return Err(ContextServiceError::DraftNotReady(String::from_str(draft_id)));
        },
    };
    let mut selected = match selected_distillation_operations(draft, selected_ids) {
        Ok(ops) => ops,
        Err(e) => {
            store.restore_applying_draft(draft_id);
            return Err(e);
        },
    };
    match crate::draft::validate_capture_identity_parts(
        session.id.as_str(),
        session.messages.as_slice(),
        session.context_view.revision,
        transcript_digest,
        provider,
        route,
        &draft.identity,
    ) {
        Ok(()) => {},
        Err(e) => {
            store.fail_applying_draft(draft_id, copy_error(&e), max_total_bytes, sizer);
            return Err(e);
        },
    }
    match validate_active_profile_draft(
        session.messages.as_slice(),
        active_profile_message_id,
        draft,
        selected.as_slice(),
    ) {
        Ok(()) => {},
        Err(e) => {
            store.fail_applying_draft(draft_id, copy_error(&e), max_total_bytes, sizer);
            return Err(e);
        },
    }
    let revision = match session.context_view.revision.checked_add(1) {
        Some(v) => v,
        None => {
            store.fail_applying_draft(
                draft_id,
                ContextServiceError::RevisionOverflow,
                max_total_bytes,
                sizer,
            );
            return Err(ContextServiceError::RevisionOverflow);
        },
    };
    let mut operations = crate::session::copy_operations(&draft.required_operations);
    let authorization = draft.authorization.clone();
    operations.append(&mut selected);
    if operations.len() == 0 {
        store.restore_applying_draft(draft_id);
        return Err(ContextServiceError::EmptyRequest);
    }
    let copy = crate::session::copy_view(&session.context_view);
    let proposed = crate::draft::state_with_transaction_at(
        copy,
        draft_id,
        revision,
        timestamp,
        authorization,
        operations,
        None,
    );
    let index = proposed.transactions.len() - 1;
    match prepare(&*session, proposed, index) {
        Err(e) => {
            store.fail_applying_draft(draft_id, copy_error(&e), max_total_bytes, sizer);
            Err(e)
        },
        Ok((view, result, detail)) => match commit_session_transition(
            persistence,
            session,
            view,
            result,
            detail,
        ) {
            Err(e) => {
                store.restore_applying_draft(draft_id);
                Err(e)
            },
            Ok(t) => {
                store.mark_draft_applied(draft_id, draft_id, revision, max_total_bytes, sizer);
                Ok(t)
            },
        },
    }
}

/// The reduction an emergency transaction achieved: its economics' deleted input tokens, or
/// zero without economics.
pub open spec fn achieved_reduction(t: StoredContextTransaction) -> usize {
    match t.economics {
        Some(e) => e.deleted_input_tokens,
        None => 0,
    }
}

/// Whether `next` is the prepared view `view` with the emergency audit of transaction `index`
/// recording the reduction it achieved (a transaction without an audit is left as it is).
pub open spec fn records_achieved(view: StoredContextViewState, next: StoredContextViewState, index: int) -> bool {
    &&& next.revision == view.revision
    &&& next.emergency_policy == view.emergency_policy
    &&& if 0 <= index < view.transactions@.len() {
        let t = view.transactions@[index];
        next.transactions@ == view.transactions@.update(
            index,
            StoredContextTransaction {
                emergency_audit: match t.emergency_audit {
                    Some(a) => Some(
                        StoredContextEmergencyAudit { achieved_reduction_tokens: achieved_reduction(t), ..a },
                    ),
                    None => None,
                },
                ..t
            },
        )
    } else {
        next.transactions@ == view.transactions@
    }
}

fn record_achieved_reduction(view: &mut StoredContextViewState, index: usize)
    ensures
        records_achieved(*old(view), *final(view), index as int),
{
    if index >= view.transactions.len() {
        return;
    }
    let mut t = view.transactions.remove(index);
    let achieved = match t.economics {
        Some(e) => e.deleted_input_tokens,
        None => 0,
    };
    let mut audit = None;
    std::mem::swap(&mut audit, &mut t.emergency_audit);
    t.emergency_audit = match audit {
        Some(mut a) => {
            a.achieved_reduction_tokens = achieved;
            Some(a)
        },
        None => None,
    };
    view.transactions.insert(index, t);
    proof {
        assert(view.transactions@ =~= old(view).transactions@.update(index as int, t));
    }
}

/// Applies an unattended emergency transaction to a directly owned session, stamped
/// `timestamp`: refused when it has no operations, when its authorization, operations and
/// audit do not agree (see [`validate_unattended_emergency_transaction`]), or when the
/// revision would overflow, with nothing changed. Otherwise the transaction, carrying its
/// audit, is appended to a copy of the view; `prepare` projects and validates it; the audit
/// then records the reduction the prepared transaction achieved, and the view is installed and
/// persisted (see [`commit_session_transition`]). The session changes only on success.
pub fn apply_unattended_emergency_in_session<
    P: DirectContextSessionPersistence,
    F: Fn(&ContextSession, StoredContextViewState, usize) -> Result<
        (StoredContextViewState, ContextTransactionResult, String),
        ContextServiceError,
    >,
>(
    persistence: &P,
    prepare: &F,
    session: &mut ContextSession,
    transaction_id: &str,
    authorization: StoredContextAuthorization,
    operations: Vec<StoredContextOperation>,
    audit: StoredContextEmergencyAudit,
    timestamp: i64,
) -> (r: Result<ContextSessionTransition, ContextServiceError>)
    requires
        forall|s: &ContextSession, v: StoredContextViewState, i: usize| prepare.requires((s, v, i)),
    ensures
        r is Err ==> *final(session) == *old(session),
        operations@.len() == 0 ==> (r matches Err(e) && e is EmptyRequest),
        operations@.len() > 0 && unattended_emergency_error(authorization, operations@, audit) is Some
            ==> (r matches Err(e) && e@ == ServiceErrorModel::InvalidSelection(
            unattended_emergency_error(authorization, operations@, audit)->0,
        )),
        operations@.len() > 0 && unattended_emergency_error(authorization, operations@, audit) is None
            && old(session).context_view.revision == u64::MAX ==> (r matches Err(e)
            && e is RevisionOverflow),
        r matches Ok(t) ==> {
            &&& operations@.len() > 0
            &&& unattended_emergency_error(authorization, operations@, audit) is None
            &&& old(session).context_view.revision < u64::MAX
            &&& exists|
                copy: StoredContextViewState,
                proposed: StoredContextViewState,
                prepared: Result<
                    (StoredContextViewState, ContextTransactionResult, String),
                    ContextServiceError,
                >,
            |
                #![trigger crate::session::same_view(copy, old(session).context_view), prepare.ensures((&*old(session), proposed, (proposed.transactions@.len() - 1) as usize), prepared)]
                {
                    &&& crate::session::same_view(copy, old(session).context_view)
                    &&& crate::draft::with_new_transaction(
                        copy,
                        proposed,
                        transaction_id@,
                        (old(session).context_view.revision + 1) as u64,
                        timestamp,
                    )
                    &&& proposed.transactions@.last().operations == operations
                    &&& proposed.transactions@.last().authorization == authorization
                    &&& proposed.transactions@.last().economics is None
                    &&& proposed.transactions@.last().emergency_audit == Some(audit)
                    &&& prepare.ensures(
                        (&*old(session), proposed, (proposed.transactions@.len() - 1) as usize),
                        prepared,
                    )
                    &&& prepared matches Ok((view, result, detail)) && records_achieved(
                        view,
                        final(session).context_view,
                        proposed.transactions@.len() - 1,
                    ) && t.result == result && t.invalidation_detail == detail
                }
            &&& *final(session) == (ContextSession {
                context_view: final(session).context_view,
                provider_session_id: None,
                ..*old(session)
            })
        },
{
    if operations.len() == 0 {
        return Err(ContextServiceError::EmptyRequest);
    }
    match validate_unattended_emergency_transaction(&authorization, &operations, &audit) {
        Ok(()) => {},
        Err(e) => {
            return Err(e);
        },
    }
    let revision = match session.context_view.revision.checked_add(1) {
        Some(v) => v,
        None => {
            return Err(ContextServiceError::RevisionOverflow);
        },
    };
    let copy = crate::session::copy_view(&session.context_view);
    let ghost copied = copy;
    let proposed = crate::draft::state_with_transaction_and_audit_at(
        copy,
        transaction_id,
        revision,
        timestamp,
        authorization,
        operations,
        None,
        Some(audit),
    );
    let ghost proposed_view = proposed;
    let index = proposed.transactions.len() - 1;
    let prepared = prepare(&*session, proposed, index);
    let ghost prepared_ghost = prepared;
    match prepared {
        Err(e) => Err(e),
        Ok((view, result, detail)) => {
            let mut view = view;
            let ghost unrecorded = view;
            record_achieved_reduction(&mut view, index);
            let r = commit_session_transition(persistence, session, view, result, detail);
            proof {
                assert(prepare.ensures((&*old(session), proposed_view, index), prepared_ghost));
                assert(index == (proposed_view.transactions@.len() - 1) as usize);
            }
            r
        },
    }
}

pub open spec fn opt_view(o: Option<String>) -> Option<Seq<char>> {
    match o {
        Some(s) => Some(s@),
        None => None,
    }
}

/// Whether some operation has the kind an emergency operation kind names.
pub open spec fn has_emergency_kind(
    ops: Seq<StoredContextOperation>,
    kind: StoredContextEmergencyOperationKind,
) -> bool {
    exists|i: int|
        0 <= i < ops.len() && #[trigger] operation_has_kind(ops[i], kind)
}

pub open spec fn operation_has_kind(
    op: StoredContextOperation,
    kind: StoredContextEmergencyOperationKind,
) -> bool {
    match kind {
        StoredContextEmergencyOperationKind::ReasoningSuppression => op is ReasoningSuppression,
        StoredContextEmergencyOperationKind::ToolResultDistillation => op is ToolResultDistillation,
        StoredContextEmergencyOperationKind::OldestRangeSummary => op is RangeSummary,
    }
}

/// The kinds an audit must list: those present, in the fixed emergency order.
pub open spec fn expected_operation_order(ops: Seq<StoredContextOperation>) -> Seq<
    StoredContextEmergencyOperationKind,
> {
    let a = if has_emergency_kind(ops, StoredContextEmergencyOperationKind::ReasoningSuppression) {
        seq![StoredContextEmergencyOperationKind::ReasoningSuppression]
    } else {
        Seq::empty()
    };
    let b = if has_emergency_kind(ops, StoredContextEmergencyOperationKind::ToolResultDistillation) {
        seq![StoredContextEmergencyOperationKind::ToolResultDistillation]
    } else {
        Seq::empty()
    };
    let c = if has_emergency_kind(ops, StoredContextEmergencyOperationKind::OldestRangeSummary) {
        seq![StoredContextEmergencyOperationKind::OldestRangeSummary]
    } else {
        Seq::empty()
    };
    a + b + c
}

pub open spec fn trigger_name(kind: StoredContextEmergencyTriggerKind) -> Seq<char> {
    match kind {
        StoredContextEmergencyTriggerKind::PreflightLimit => "preflight_limit"@,
        StoredContextEmergencyTriggerKind::ProviderContextLimit => "provider_context_limit"@,
    }
}

/// Whether the provider error recorded in an audit fits its trigger.
pub open spec fn provider_error_fits(
    kind: StoredContextEmergencyTriggerKind,
    error: Option<String>,
) -> bool {
    match (kind, error) {
        (StoredContextEmergencyTriggerKind::PreflightLimit, None) => true,
        (StoredContextEmergencyTriggerKind::ProviderContextLimit, Some(e)) => trim_seq(e@).len()
            > 0 && e@.len() <= 512,
        _ => false,
    }
}

/// Why an unattended emergency transaction is refused, if it is.
pub open spec fn unattended_emergency_error(
    authorization: StoredContextAuthorization,
    ops: Seq<StoredContextOperation>,
    audit: StoredContextEmergencyAudit,
) -> Option<Seq<char>> {
    if emergency_policy_error(audit.policy) is Some {
        emergency_policy_error(audit.policy)
    } else {
        match authorization {
            StoredContextAuthorization::UnattendedEmergency {
                authorization_source,
                trigger,
                scheduled_item_id,
            } => {
                let source = trim_seq(authorization_source@);
                if authorization_source@ != audit.authorization_source@ || opt_view(
                    scheduled_item_id,
                ) != opt_view(audit.scheduled_item_id) {
                    Some("emergency authorization and audit provenance do not match"@)
                } else if source.len() == 0 || source.len() > 512 {
                    Some("emergency authorization source must contain 1 through 512 characters"@)
                } else if scheduled_item_id is Some && ({
                    let item = trim_seq(scheduled_item_id->0@);
                    item.len() == 0 || item.len() > 128 || source != "scheduled_item:"@ + item
                }) {
                    Some("scheduled emergency provenance is malformed"@)
                } else if opt_view(trigger) != Some(trigger_name(audit.trigger_kind)) {
                    Some("emergency authorization and audit trigger do not match"@)
                } else if !provider_error_fits(audit.trigger_kind, audit.provider_error) {
                    Some("emergency provider-error provenance does not match its trigger"@)
                } else if audit.retry_outcome != StoredContextEmergencyRetryOutcome::Pending
                    || audit.achieved_reduction_tokens != 0 {
                    Some("new emergency audit must begin pending with zero achieved reduction"@)
                } else if audit.operation_order@ != expected_operation_order(ops) {
                    Some("emergency audit operation order does not match the transaction"@)
                } else {
                    None
                }
            },
            _ => Some("emergency audit requires unattended-emergency authorization"@),
        }
    }
}

fn invalid(message: &str) -> (e: ContextServiceError)
    ensures
        e@ == ServiceErrorModel::InvalidSelection(message@),
{
    ContextServiceError::InvalidSelection(String::from_str(message))
}

fn opt_str_eq(a: &Option<String>, b: &Option<String>) -> (r: bool)
    ensures
        r == (opt_view(*a) == opt_view(*b)),
{
    match (a, b) {
        (Some(x), Some(y)) => str_eq(x.as_str(), y.as_str()),
        (None, None) => true,
        _ => false,
    }
}

fn has_kind(ops: &Vec<StoredContextOperation>, kind: StoredContextEmergencyOperationKind) -> (r: bool)
    ensures
        r == has_emergency_kind(ops@, kind),
{
    let mut i: usize = 0;
    while i < ops.len()
        invariant
            i <= ops@.len(),
            forall|k: int| 0 <= k < i ==> !#[trigger] operation_has_kind(ops@[k], kind),
        decreases ops.len() - i,
    {
        let found = match kind {
            StoredContextEmergencyOperationKind::ReasoningSuppression => match &ops[i] {
                StoredContextOperation::ReasoningSuppression(_) => true,
                _ => false,
            },
            StoredContextEmergencyOperationKind::ToolResultDistillation => match &ops[i] {
                StoredContextOperation::ToolResultDistillation(_) => true,
                _ => false,
            },
            StoredContextEmergencyOperationKind::OldestRangeSummary => match &ops[i] {
                StoredContextOperation::RangeSummary(_) => true,
                _ => false,
            },
        };
        if found {
            assert(operation_has_kind(ops@[i as int], kind));
            return true;
        }
        i += 1;
    }
    false
}

fn kinds_equal(
    a: &Vec<StoredContextEmergencyOperationKind>,
    b: &Vec<StoredContextEmergencyOperationKind>,
) -> (r: bool)
    ensures
        r == (a@ == b@),
{
    if a.len() != b.len() {
        return false;
    }
    let mut i: usize = 0;
    while i < a.len()
        invariant
            a@.len() == b@.len(),
            i <= a@.len(),
            forall|k: int| 0 <= k < i ==> a@[k] == b@[k],
        decreases a.len() - i,
    {
        if a[i] != b[i] {
            return false;
        }
        i += 1;
    }
    assert(a@ =~= b@);
    true
}

/// Checks an unattended emergency transaction against its audit: valid policy; unattended
/// authorization whose source and scheduled item match the audit; a source of 1 to 512
/// characters; a scheduled item of 1 to 128 characters named by the source; matching trigger
/// and provider error; a pending audit with no reduction yet; and the operation order of the
/// transaction's kinds.
pub fn validate_unattended_emergency_transaction(
    authorization: &StoredContextAuthorization,
    operations: &Vec<StoredContextOperation>,
    audit: &StoredContextEmergencyAudit,
) -> (r: Result<(), ContextServiceError>)
    ensures
        match r {
            Ok(()) => unattended_emergency_error(*authorization, operations@, *audit) is None,
            Err(e) => unattended_emergency_error(*authorization, operations@, *audit) matches Some(
                m,
            ) && e@ == ServiceErrorModel::InvalidSelection(m),
        },
{
    match validate_emergency_policy(&audit.policy) {
        Ok(()) => {},
        Err(e) => {
            return Err(e);
        },
    }
    let (authorization_source, trigger, scheduled_item_id) = match authorization {
        StoredContextAuthorization::UnattendedEmergency {
            authorization_source,
            trigger,
            scheduled_item_id,
        } => (authorization_source, trigger, scheduled_item_id),
        _ => {
            return Err(invalid("emergency audit requires unattended-emergency authorization"));
        },
    };
    if !str_eq(authorization_source.as_str(), audit.authorization_source.as_str()) || !opt_str_eq(
        scheduled_item_id,
        &audit.scheduled_item_id,
    ) {
        return Err(invalid("emergency authorization and audit provenance do not match"));
    }
    let source = trim_chars(&chars_of(authorization_source.as_str()));
    if source.len() == 0 || source.len() > 512 {
        return Err(invalid("emergency authorization source must contain 1 through 512 characters"));
    }
    match scheduled_item_id {
        Some(item_id) => {
            let item = trim_chars(&chars_of(item_id.as_str()));
            let item_text = crate::text::string_from_chars(&item);
            let expected = concat2("scheduled_item:", item_text.as_str());
            let expected_chars = chars_of(expected.as_str());
            if item.len() == 0 || item.len() > 128 || !crate::text::chars_eq(
                &source,
                &expected_chars,
            ) {
                return Err(invalid("scheduled emergency provenance is malformed"));
            }
        },
        None => {},
    }
    let expected_trigger = match audit.trigger_kind {
        StoredContextEmergencyTriggerKind::PreflightLimit => "preflight_limit",
        StoredContextEmergencyTriggerKind::ProviderContextLimit => "provider_context_limit",
    };
    let trigger_ok = match trigger {
        Some(t) => str_eq(t.as_str(), expected_trigger),
        None => false,
    };
    if !trigger_ok {
        return Err(invalid("emergency authorization and audit trigger do not match"));
    }
    let error_ok = match (audit.trigger_kind, &audit.provider_error) {
        (StoredContextEmergencyTriggerKind::PreflightLimit, None) => true,
        (StoredContextEmergencyTriggerKind::ProviderContextLimit, Some(error)) => {
            let chars = chars_of(error.as_str());
            trim_chars(&chars).len() > 0 && chars.len() <= 512
        },
        _ => false,
    };
    if !error_ok {
        return Err(invalid("emergency provider-error provenance does not match its trigger"));
    }
    if audit.retry_outcome != StoredContextEmergencyRetryOutcome::Pending
        || audit.achieved_reduction_tokens != 0 {
        return Err(invalid("new emergency audit must begin pending with zero achieved reduction"));
    }
    let mut expected_order: Vec<StoredContextEmergencyOperationKind> = Vec::new();
    if has_kind(operations, StoredContextEmergencyOperationKind::ReasoningSuppression) {
        expected_order.push(StoredContextEmergencyOperationKind::ReasoningSuppression);
    }
    if has_kind(operations, StoredContextEmergencyOperationKind::ToolResultDistillation) {
        expected_order.push(StoredContextEmergencyOperationKind::ToolResultDistillation);
    }
    if has_kind(operations, StoredContextEmergencyOperationKind::OldestRangeSummary) {
        expected_order.push(StoredContextEmergencyOperationKind::OldestRangeSummary);
    }
    assert(expected_order@ =~= expected_operation_order(operations@));
    if !kinds_equal(&audit.operation_order, &expected_order) {
        return Err(invalid("emergency audit operation order does not match the transaction"));
    }
    Ok(())
}

/// Why one operation of a draft cannot be applied next to the active agent profile message at
/// `active`, if it cannot.
pub open spec fn profile_operation_error(
    msgs: Seq<StoredMessage>,
    active: nat,
    active_id: Seq<char>,
    op: StoredContextOperation,
) -> Option<ServiceErrorModel> {
    match op {
        StoredContextOperation::RangeSummary(summary) => {
            let start = message_position(msgs, summary.source_range.start_message_id@);
            let end = message_position(msgs, summary.source_range.end_message_id@);
            if start is None {
                Some(ServiceErrorModel::Stale("context draft range start disappeared before apply"@))
            } else if end is None {
                Some(ServiceErrorModel::Stale("context draft range end disappeared before apply"@))
            } else {
                let (a, b) = (start->0, end->0);
                let (lo, hi) = if a <= b {
                    (a, b)
                } else {
                    (b, a)
                };
                if lo <= active && active <= hi {
                    Some(
                        ServiceErrorModel::Conflict(
                            "context draft range includes active agent profile message "@
                                + active_id,
                        ),
                    )
                } else {
                    None
                }
            }
        },
        _ => None,
    }
}

/// The first error among operations, in order.
pub open spec fn profile_operations_error(
    msgs: Seq<StoredMessage>,
    active: nat,
    active_id: Seq<char>,
    ops: Seq<StoredContextOperation>,
) -> Option<ServiceErrorModel>
    decreases ops.len(),
{
    if ops.len() == 0 {
        None
    } else {
        match profile_operation_error(msgs, active, active_id, ops[0]) {
            Some(e) => Some(e),
            None => profile_operations_error(msgs, active, active_id, ops.drop_first()),
        }
    }
}

/// Why a draft cannot be applied with the current active agent profile, if it cannot: the
/// profile must be the one the draft captured, and no summarized range may cover its message.
pub open spec fn active_profile_draft_error(
    msgs: Seq<StoredMessage>,
    current: Option<Seq<char>>,
    draft: ContextDraft,
    selected: Seq<StoredContextOperation>,
) -> Option<ServiceErrorModel> {
    if opt_view(draft.active_agent_profile_message_id) != current {
        Some(ServiceErrorModel::Stale("active agent profile changed after context draft capture"@))
    } else {
        match current {
            None => None,
            Some(id) => match message_position(msgs, id) {
                None => Some(
                    ServiceErrorModel::Stale(
                        "active agent profile message "@ + id
                            + " is missing from authoritative history"@,
                    ),
                ),
                Some(active) => profile_operations_error(
                    msgs,
                    active,
                    id,
                    draft.required_operations@ + selected,
                ),
            },
        }
    }
}

fn profile_operation_check(
    messages: &[StoredMessage],
    active: usize,
    active_id: &str,
    op: &StoredContextOperation,
) -> (r: Result<(), ContextServiceError>)
    ensures
        match r {
            Ok(()) => profile_operation_error(messages@, active as nat, active_id@, *op) is None,
            Err(e) => profile_operation_error(messages@, active as nat, active_id@, *op) == Some(
                e@,
            ),
        },
{
    match op {
        StoredContextOperation::RangeSummary(summary) => {
            let start = match position_of_message(
                messages,
                summary.source_range.start_message_id.as_str(),
            ) {
                Some(i) => i,
                None => {
                    return Err(
                        ContextServiceError::Stale(
                            String::from_str("context draft range start disappeared before apply"),
                        ),
                    );
                },
            };
            let end = match position_of_message(
                messages,
                summary.source_range.end_message_id.as_str(),
            ) {
                Some(i) => i,
                None => {
                    return Err(
                        ContextServiceError::Stale(
                            String::from_str("context draft range end disappeared before apply"),
                        ),
                    );
                },
            };
            let (lo, hi) = if start <= end {
                (start, end)
            } else {
                (end, start)
            };
            if lo <= active && active <= hi {
                return Err(
                    ContextServiceError::Conflict(
                        concat2(
                            "context draft range includes active agent profile message ",
                            active_id,
                        ),
                    ),
                );
            }
            Ok(())
        },
        _ => Ok(()),
    }
}

proof fn lemma_profile_operations_append(
    msgs: Seq<StoredMessage>,
    active: nat,
    id: Seq<char>,
    ops: Seq<StoredContextOperation>,
    op: StoredContextOperation,
)
    requires
        profile_operations_error(msgs, active, id, ops) is None,
    ensures
        profile_operations_error(msgs, active, id, ops.push(op)) == profile_operation_error(
            msgs,
            active,
            id,
            op,
        ),
    decreases ops.len(),
{
    if ops.len() == 0 {
        assert(ops.push(op).drop_first() =~= Seq::<StoredContextOperation>::empty());
        assert(profile_operations_error(msgs, active, id, Seq::empty()) is None);
    } else {
        assert(ops.push(op)[0] == ops[0]);
        assert(profile_operation_error(msgs, active, id, ops[0]) is None);
        assert(ops.push(op).drop_first() =~= ops.drop_first().push(op));
        lemma_profile_operations_append(msgs, active, id, ops.drop_first(), op);
    }
}

proof fn lemma_profile_operations_concat(
    msgs: Seq<StoredMessage>,
    active: nat,
    id: Seq<char>,
    a: Seq<StoredContextOperation>,
    b: Seq<StoredContextOperation>,
)
    ensures
        profile_operations_error(msgs, active, id, a + b) == match profile_operations_error(
            msgs,
            active,
            id,
            a,
        ) {
            Some(e) => Some(e),
            None => profile_operations_error(msgs, active, id, b),
        },
    decreases a.len(),
{
    if a.len() == 0 {
        assert(a + b =~= b);
    } else {
        assert((a + b)[0] == a[0]);
        assert((a + b).drop_first() =~= a.drop_first() + b);
        lemma_profile_operations_concat(msgs, active, id, a.drop_first(), b);
    }
}

fn profile_operations_check(
    messages: &[StoredMessage],
    active: usize,
    active_id: &str,
    ops: &[StoredContextOperation],
) -> (r: Result<(), ContextServiceError>)
    ensures
        match r {
            Ok(()) => profile_operations_error(messages@, active as nat, active_id@, ops@) is None,
            Err(e) => profile_operations_error(messages@, active as nat, active_id@, ops@) == Some(
                e@,
            ),
        },
{
    let mut i: usize = 0;
    assert(ops@.take(0) =~= Seq::<StoredContextOperation>::empty());
    while i < ops.len()
        invariant
            i <= ops@.len(),
            profile_operations_error(messages@, active as nat, active_id@, ops@.take(i as int))
                is None,
        decreases ops.len() - i,
    {
        proof {
            lemma_profile_operations_append(
                messages@,
                active as nat,
                active_id@,
                ops@.take(i as int),
                ops@[i as int],
            );
            assert(ops@.take(i as int).push(ops@[i as int]) =~= ops@.take(i + 1));
            lemma_profile_operations_concat(
                messages@,
                active as nat,
                active_id@,
                ops@.take(i + 1),
                ops@.skip(i + 1),
            );
            assert(ops@.take(i + 1) + ops@.skip(i + 1) =~= ops@);
        }
        match profile_operation_check(messages, active, active_id, &ops[i]) {
            Ok(()) => {},
            Err(e) => {
                return Err(e);
            },
        }
        i += 1;
    }
    proof {
        assert(ops@.take(ops@.len() as int) =~= ops@);
    }
    Ok(())
}

/// Checks that a draft may be applied with the current active agent profile (see
/// [`active_profile_draft_error`]).
pub fn validate_active_profile_draft(
    messages: &[StoredMessage],
    current_active_message_id: Option<&str>,
    draft: &ContextDraft,
    selected_distillations: &[StoredContextOperation],
) -> (r: Result<(), ContextServiceError>)
    ensures
        match r {
            Ok(()) => active_profile_draft_error(
                messages@,
                match current_active_message_id {
                    Some(s) => Some(s@),
                    None => None,
                },
                *draft,
                selected_distillations@,
            ) is None,
            Err(e) => active_profile_draft_error(
                messages@,
                match current_active_message_id {
                    Some(s) => Some(s@),
                    None => None,
                },
                *draft,
                selected_distillations@,
            ) == Some(e@),
        },
{
    let same = match (&draft.active_agent_profile_message_id, current_active_message_id) {
        (Some(a), Some(b)) => str_eq(a.as_str(), b),
        (None, None) => true,
        _ => false,
    };
    if !same {
        return Err(
            ContextServiceError::Stale(
                String::from_str("active agent profile changed after context draft capture"),
            ),
        );
    }
    let active_id = match current_active_message_id {
        Some(id) => id,
        None => {
            return Ok(());
        },
    };
    let active = match position_of_message(messages, active_id) {
        Some(i) => i,
        None => {
            return Err(
                ContextServiceError::Stale(
                    concat3(
                        "active agent profile message ",
                        active_id,
                        " is missing from authoritative history",
                    ),
                ),
            );
        },
    };
    proof {
        lemma_profile_operations_concat(
            messages@,
            active as nat,
            active_id@,
            draft.required_operations@,
            selected_distillations@,
        );
    }
    match profile_operations_check(messages, active, active_id, draft.required_operations.as_slice()) {
        Ok(()) => {},
        Err(e) => {
            return Err(e);
        },
    }
    profile_operations_check(messages, active, active_id, selected_distillations)
}


/// The IDs of proposals, in order.
pub open spec fn proposal_ids(ps: Seq<ContextDistillationProposal>) -> Seq<Seq<char>> {
    ps.map_values(|p: ContextDistillationProposal| p.proposal_id@)
}

/// The first ID that repeats an earlier one.
pub open spec fn first_repeated(ids: Seq<Seq<char>>) -> Option<Seq<char>>
    decreases ids.len(),
{
    if ids.len() == 0 {
        None
    } else {
        match first_repeated(ids.drop_last()) {
            Some(x) => Some(x),
            None => if ids.drop_last().contains(ids.last()) {
                Some(ids.last())
            } else {
                None
            },
        }
    }
}

/// The proposals a selection names: the given IDs, or those selected by default.
pub open spec fn selection_contains(
    ps: Seq<ContextDistillationProposal>,
    selected: Option<Seq<Seq<char>>>,
    id: Seq<char>,
) -> bool {
    match selected {
        Some(ids) => ids.contains(id),
        None => exists|k: int|
            0 <= k < ps.len() && #[trigger] ps[k].proposal_id@ == id && ps[k].selected_by_default,
    }
}

/// The operations of the selected proposals, in proposal order.
pub open spec fn selected_operations(
    ps: Seq<ContextDistillationProposal>,
    selected: Option<Seq<Seq<char>>>,
    all: Seq<ContextDistillationProposal>,
) -> Seq<StoredContextOperation>
    decreases ps.len(),
{
    if ps.len() == 0 {
        Seq::empty()
    } else {
        let prev = selected_operations(ps.drop_last(), selected, all);
        if selection_contains(all, selected, ps.last().proposal_id@) {
            prev.push(StoredContextOperation::ToolResultDistillation(ps.last().operation))
        } else {
            prev
        }
    }
}

/// `x` is the least selected ID that names no proposal.
pub open spec fn least_unknown(ids: Seq<Seq<char>>, known: Seq<Seq<char>>, x: Seq<char>) -> bool {
    &&& ids.contains(x)
    &&& !known.contains(x)
    &&& forall|k: int|
        0 <= k < ids.len() && !known.contains(#[trigger] ids[k]) ==> !seq_lt(ids[k], x)
}

/// The IDs a selection gives, if it gives any.
pub open spec fn selection_of(selected_ids: Option<&Vec<String>>) -> Option<Seq<Seq<char>>> {
    match selected_ids {
        Some(ids) => Some(crate::text::views(ids@)),
        None => None,
    }
}

/// Whether `e` is the refusal of a selection: its first repeated ID, else its least unknown ID.
pub open spec fn selection_error(
    ps: Seq<ContextDistillationProposal>,
    sel: Option<Seq<Seq<char>>>,
    e: ServiceErrorModel,
) -> bool {
    match sel {
        Some(ids) => match first_repeated(ids) {
            Some(x) => e == ServiceErrorModel::InvalidSelection(
                "distillation proposal was selected more than once: "@ + x,
            ),
            None => exists|x: Seq<char>|
                #[trigger] least_unknown(ids, proposal_ids(ps), x) && e
                    == ServiceErrorModel::InvalidSelection("unknown distillation proposal: "@ + x),
        },
        None => false,
    }
}

fn contains_str(v: &Vec<String>, upto: usize, x: &str) -> (r: bool)
    requires
        upto <= v@.len(),
    ensures
        r == crate::text::views(v@).take(upto as int).contains(x@),
{
    let mut i: usize = 0;
    while i < upto
        invariant
            upto <= v@.len(),
            i <= upto,
            forall|k: int| 0 <= k < i ==> #[trigger] v@[k]@ != x@,
        decreases upto - i,
    {
        if str_eq(v[i].as_str(), x) {
            assert(crate::text::views(v@).take(upto as int)[i as int] == x@);
            return true;
        }
        i += 1;
    }
    proof {
        if crate::text::views(v@).take(upto as int).contains(x@) {
            let k = choose|k: int|
                0 <= k < upto && crate::text::views(v@).take(upto as int)[k] == x@;
            assert(v@[k]@ == x@);
        }
    }
    false
}

fn is_known(ps: &Vec<ContextDistillationProposal>, x: &str) -> (r: bool)
    ensures
        r == proposal_ids(ps@).contains(x@),
{
    let mut i: usize = 0;
    while i < ps.len()
        invariant
            i <= ps@.len(),
            forall|k: int| 0 <= k < i ==> #[trigger] ps@[k].proposal_id@ != x@,
        decreases ps.len() - i,
    {
        if str_eq(ps[i].proposal_id.as_str(), x) {
            assert(proposal_ids(ps@)[i as int] == x@);
            return true;
        }
        i += 1;
    }
    proof {
        if proposal_ids(ps@).contains(x@) {
            let k = choose|k: int| 0 <= k < ps@.len() && proposal_ids(ps@)[k] == x@;
            assert(ps@[k].proposal_id@ == x@);
        }
    }
    false
}

fn selected_by_default_id(ps: &Vec<ContextDistillationProposal>, x: &str) -> (r: bool)
    ensures
        r == selection_contains(ps@, None, x@),
{
    let mut i: usize = 0;
    while i < ps.len()
        invariant
            i <= ps@.len(),
            forall|k: int|
                0 <= k < i ==> !(#[trigger] ps@[k].proposal_id@ == x@ && ps@[k].selected_by_default),
        decreases ps.len() - i,
    {
        if ps[i].selected_by_default && str_eq(ps[i].proposal_id.as_str(), x) {
            return true;
        }
        i += 1;
    }
    false
}

/// The distillation operations a selection applies: the proposals selected by default when no
/// IDs are given, else exactly the given ones, in proposal order. A repeated ID, or an ID that
/// names no proposal (the least such ID is reported), is refused.
pub fn selected_distillation_operations(draft: &ContextDraft, selected_ids: Option<&Vec<String>>) -> (r:
    Result<Vec<StoredContextOperation>, ContextServiceError>)
    ensures
        match r {
            Ok(ops) => {
                &&& selection_of(selected_ids) matches Some(ids) ==> first_repeated(ids) is None
                    && forall|k: int|
                    0 <= k < ids.len() ==> proposal_ids(draft.distillation_proposals@).contains(
                        #[trigger] ids[k],
                    )
                &&& ops@ == selected_operations(
                    draft.distillation_proposals@,
                    selection_of(selected_ids),
                    draft.distillation_proposals@,
                )
            },
            Err(e) => selection_error(
                draft.distillation_proposals@,
                selection_of(selected_ids),
                e@,
            ),
        },
{
    let ps = &draft.distillation_proposals;
    match selected_ids {
        Some(ids) => {
            let ghost idv = crate::text::views(ids@);
            let mut j: usize = 0;
            while j < ids.len()
                invariant
                    j <= ids@.len(),
                    selected_ids == Some(ids),
                    idv == crate::text::views(ids@),
                    first_repeated(idv.take(j as int)) is None,
                decreases ids.len() - j,
            {
                proof {
                    assert(idv.take(j + 1).drop_last() =~= idv.take(j as int));
                    assert(idv.take(j + 1).last() == ids@[j as int]@);
                    assert(idv[j as int] == ids@[j as int]@);
                }
                if contains_str(ids, j, ids[j].as_str()) {
                    proof {
                        assert(first_repeated(idv.take(j + 1)) == Some(idv[j as int]));
                        lemma_first_repeated_prefix(idv, j + 1);
                        assert(first_repeated(idv) == Some(ids@[j as int]@));
                    }
                    let e = ContextServiceError::InvalidSelection(
                        concat2(
                            "distillation proposal was selected more than once: ",
                            ids[j].as_str(),
                        ),
                    );
                    assert(e@ == ServiceErrorModel::InvalidSelection(
                        "distillation proposal was selected more than once: "@ + ids@[j as int]@,
                    ));
                    return Err(e);
                }
                j += 1;
            }
            proof {
                assert(idv.take(ids@.len() as int) =~= idv);
            }
            let mut least: Option<usize> = None;
            let mut k: usize = 0;
            while k < ids.len()
                invariant
                    k <= ids@.len(),
                    idv == crate::text::views(ids@),
                    match least {
                        Some(m) => m < k && !proposal_ids(ps@).contains(idv[m as int])
                            && forall|q: int|
                            0 <= q < k && !proposal_ids(ps@).contains(#[trigger] idv[q])
                                ==> !seq_lt(idv[q], idv[m as int]),
                        None => forall|q: int|
                            0 <= q < k ==> proposal_ids(ps@).contains(#[trigger] idv[q]),
                    },
                decreases ids.len() - k,
            {
                if !is_known(ps, ids[k].as_str()) {
                    let replace = match least {
                        Some(m) => str_lt(ids[k].as_str(), ids[m].as_str()),
                        None => true,
                    };
                    if replace {
                        proof {
                            if least is Some {
                                let m = least->0;
                                assert forall|q: int|
                                    0 <= q < k + 1 && !proposal_ids(ps@).contains(
                                        #[trigger] idv[q],
                                    ) implies !seq_lt(idv[q], idv[k as int]) by {
                                    if q < k {
                                        if seq_lt(idv[q], idv[k as int]) {
                                            crate::text::lemma_lt_transitive(
                                                idv[q],
                                                idv[k as int],
                                                idv[m as int],
                                            );
                                        }
                                    } else {
                                        crate::text::lemma_lt_irreflexive(idv[k as int]);
                                    }
                                }
                            } else {
                                crate::text::lemma_lt_irreflexive(idv[k as int]);
                            }
                        }
                        least = Some(k);
                    } else {
                        proof {
                            let m = least->0;
                            if idv[k as int] != idv[m as int] {
                                crate::text::lemma_lt_total(idv[k as int], idv[m as int]);
                            }
                            crate::text::lemma_lt_irreflexive(idv[m as int]);
                        }
                    }
                }
                k += 1;
            }
            match least {
                Some(m) => {
                    proof {
                        assert(idv[m as int] == ids@[m as int]@);
                        assert(idv.contains(idv[m as int]));
                        assert(least_unknown(idv, proposal_ids(ps@), idv[m as int]));
                    }
                    let e = ContextServiceError::InvalidSelection(
                        concat2("unknown distillation proposal: ", ids[m].as_str()),
                    );
                    assert(first_repeated(idv) is None);
                    assert(least_unknown(idv, proposal_ids(ps@), idv[m as int]) && e@
                        == ServiceErrorModel::InvalidSelection(
                        "unknown distillation proposal: "@ + idv[m as int],
                    ));
                    return Err(e);
                },
                None => {},
            }
        },
        None => {},
    }
    let ghost sel = selection_of(selected_ids);
    let mut out: Vec<StoredContextOperation> = Vec::new();
    let mut i: usize = 0;
    while i < ps.len()
        invariant
            i <= ps@.len(),
            ps == &draft.distillation_proposals,
            sel == selection_of(selected_ids),
            out@ == selected_operations(ps@.take(i as int), sel, ps@),
        decreases ps.len() - i,
    {
        let p = &ps[i];
        let chosen = match selected_ids {
            Some(ids) => contains_str(ids, ids.len(), p.proposal_id.as_str()),
            None => selected_by_default_id(ps, p.proposal_id.as_str()),
        };
        proof {
            assert(ps@.take(i + 1).drop_last() =~= ps@.take(i as int));
            match selected_ids {
                Some(ids) => {
                    assert(crate::text::views(ids@).take(ids@.len() as int) =~= crate::text::views(
                        ids@,
                    ));
                },
                None => {},
            }
        }
        if chosen {
            out.push(StoredContextOperation::ToolResultDistillation(p.operation.clone()));
        }
        i += 1;
    }
    proof {
        assert(ps@.take(ps@.len() as int) =~= ps@);
    }
    Ok(out)
}

proof fn lemma_first_repeated_prefix(ids: Seq<Seq<char>>, j: int)
    requires
        0 < j <= ids.len(),
        first_repeated(ids.take(j)) is Some,
    ensures
        first_repeated(ids) == first_repeated(ids.take(j)),
    decreases ids.len() - j,
{
    if j < ids.len() {
        assert(ids.take(j + 1).drop_last() =~= ids.take(j));
        lemma_first_repeated_prefix(ids, j + 1);
    } else {
        assert(ids.take(j) =~= ids);
    }
}

/// The `Debug` name of a status kind.
pub open spec fn status_kind_name(kind: crate::session::StoredContextTransactionStatusKind) -> Seq<char> {
    match kind {
        crate::session::StoredContextTransactionStatusKind::Applied => "Applied"@,
        crate::session::StoredContextTransactionStatusKind::Reverted => "Reverted"@,
        crate::session::StoredContextTransactionStatusKind::Reapplied => "Reapplied"@,
        crate::session::StoredContextTransactionStatusKind::InvalidatedByTranscriptEdit => "InvalidatedByTranscriptEdit"@,
    }
}

/// The explanation sent with the invalidation that follows a committed transition.
pub open spec fn invalidation_detail(
    t: ContextTransactionSummary,
    status: crate::session::StoredContextTransactionStatusKind,
) -> Seq<char> {
    let item = match t.economics {
        Some(e) => match e.earliest_changed_provider_item {
            Some(i) => decimal(i as nat),
            None => "none"@,
        },
        None => "none"@,
    };
    "context transaction "@ + t.id@ + " "@ + status_kind_name(status) + " at revision "@
        + decimal(t.latest_status_revision.unwrap_or(0) as nat) + " (range_summaries="@
        + decimal(t.operation_counts.range_summaries as nat) + ", reasoning_suppressions="@
        + decimal(t.operation_counts.reasoning_suppressions as nat)
        + ", tool_result_distillations="@ + decimal(
        t.operation_counts.tool_result_distillations as nat,
    ) + ", earliest_changed_provider_item="@ + item + ")"@
}

/// Renders [`invalidation_detail`].
pub fn context_invalidation_detail(
    transaction: &ContextTransactionSummary,
    status: crate::session::StoredContextTransactionStatusKind,
) -> (r: String)
    ensures
        r@ == invalidation_detail(*transaction, status),
{
    let name = match status {
        crate::session::StoredContextTransactionStatusKind::Applied => "Applied",
        crate::session::StoredContextTransactionStatusKind::Reverted => "Reverted",
        crate::session::StoredContextTransactionStatusKind::Reapplied => "Reapplied",
        crate::session::StoredContextTransactionStatusKind::InvalidatedByTranscriptEdit => "InvalidatedByTranscriptEdit",
    };
    let revision = match transaction.latest_status_revision {
        Some(r) => r,
        None => 0,
    };
    let item = match transaction.economics {
        Some(e) => match e.earliest_changed_provider_item {
            Some(i) => decimal_string(i as u64),
            None => String::from_str("none"),
        },
        None => String::from_str("none"),
    };
    let counts = transaction.operation_counts;
    let mut out = concat3("context transaction ", transaction.id.as_str(), " ");
    out.append(name);
    out.append(" at revision ");
    out.append(decimal_string(revision).as_str());
    out.append(" (range_summaries=");
    out.append(decimal_string(counts.range_summaries as u64).as_str());
    out.append(", reasoning_suppressions=");
    out.append(decimal_string(counts.reasoning_suppressions as u64).as_str());
    out.append(", tool_result_distillations=");
    out.append(decimal_string(counts.tool_result_distillations as u64).as_str());
    out.append(", earliest_changed_provider_item=");
    out.append(item.as_str());
    out.append(")");
    out
}

/// The warning recorded when the request builder inserted formatter placeholders.
pub open spec fn placeholder_warning(n: nat) -> Seq<char> {
    "The production request builder inserted "@ + decimal(n) + " formatter placeholder(s)."@
}

/// The warnings recorded with provider validation evidence: the report's normalization notes,
/// and the placeholder warning when there were placeholders.
pub open spec fn evidence_warnings(report: ContextProjectionValidationReport) -> Set<Seq<char>> {
    let notes = views(report.normalization_notes@).to_set();
    if report.formatter_placeholder_count > 0 {
        notes.insert(placeholder_warning(report.formatter_placeholder_count as nat))
    } else {
        notes
    }
}

/// Whether `e` is the evidence recorded for a report at `checked_at`.
pub open spec fn is_report_evidence(
    e: StoredProviderValidationEvidence,
    report: ContextProjectionValidationReport,
    checked_at: i64,
) -> bool {
    &&& e.provider@ == report.provider_name@
    &&& e.model@ == report.model@
    &&& e.request_builder@ == report.evidence_tag@
    &&& e.checked_at == checked_at
    &&& strictly_sorted(views(e.warnings@))
    &&& views(e.warnings@).to_set() == evidence_warnings(report)
}

/// Whether evidence is for the report's provider, model and request builder.
pub open spec fn same_builder(e: StoredProviderValidationEvidence, report: ContextProjectionValidationReport) -> bool {
    e.provider@ == report.provider_name@ && e.model@ == report.model@ && e.request_builder@
        == report.evidence_tag@
}

/// The evidence kept beside new evidence for the same builder: that of other builders.
pub open spec fn kept_evidence(
    v: Seq<StoredProviderValidationEvidence>,
    report: ContextProjectionValidationReport,
) -> Seq<StoredProviderValidationEvidence>
    decreases v.len(),
{
    if v.len() == 0 {
        Seq::empty()
    } else {
        let prev = kept_evidence(v.drop_last(), report);
        if same_builder(v.last(), report) {
            prev
        } else {
            prev.push(v.last())
        }
    }
}

/// Whether `new` is `old` with its evidence for the report's builder replaced by new evidence.
pub open spec fn recorded_operation(
    old: StoredContextOperation,
    new: StoredContextOperation,
    report: ContextProjectionValidationReport,
    checked_at: i64,
) -> bool {
    match old {
        StoredContextOperation::ReasoningSuppression(s) => match new {
            StoredContextOperation::ReasoningSuppression(n) => {
                &&& n.targets == s.targets
                &&& n.assistant_turns_affected == s.assistant_turns_affected
                &&& n.replay_block_kinds == s.replay_block_kinds
                &&& n.original_token_estimate == s.original_token_estimate
                &&& n.validation@.len() > 0
                &&& n.validation@.drop_last() == kept_evidence(s.validation@, report)
                &&& is_report_evidence(n.validation@.last(), report, checked_at)
            },
            _ => false,
        },
        _ => new == old,
    }
}

/// Whether `new` is `old` after recording evidence: an active transaction's reasoning
/// suppressions are updated, everything else is untouched.
pub open spec fn recorded_transaction(
    old: StoredContextTransaction,
    new: StoredContextTransaction,
    report: ContextProjectionValidationReport,
    checked_at: i64,
) -> bool {
    if spec_is_active(old) {
        &&& new.id == old.id
        &&& new.created_at == old.created_at
        &&& new.base_revision == old.base_revision
        &&& new.authorization == old.authorization
        &&& new.status_events == old.status_events
        &&& new.application == old.application
        &&& new.economics == old.economics
        &&& new.operations@.len() == old.operations@.len()
        &&& forall|i: int|
            0 <= i < old.operations@.len() ==> recorded_operation(
                #[trigger] old.operations@[i],
                new.operations@[i],
                report,
                checked_at,
            )
    } else {
        new == old
    }
}


fn record_on_suppression(
    suppression: StoredReasoningSuppression,
    report: &ContextProjectionValidationReport,
    evidence: &StoredProviderValidationEvidence,
    checked_at: i64,
) -> (r: StoredReasoningSuppression)
    requires
        is_report_evidence(*evidence, *report, checked_at),
    ensures
        recorded_operation(
            StoredContextOperation::ReasoningSuppression(suppression),
            StoredContextOperation::ReasoningSuppression(r),
            *report,
            checked_at,
        ),
{
    let mut s = suppression;
    let mut old_v: Vec<StoredProviderValidationEvidence> = Vec::new();
    std::mem::swap(&mut old_v, &mut s.validation);
    let ghost all = old_v@;
    let old_len: usize = old_v.len();
    let mut kept: Vec<StoredProviderValidationEvidence> = Vec::new();
    let mut i: usize = 0;
    while old_v.len() > 0
        invariant
            i <= all.len(),
            all.len() <= usize::MAX,
            old_v@ == all.skip(i as int),
            kept@ == kept_evidence(all.take(i as int), *report),
        decreases old_v.len(),
    {
        let x = old_v.remove(0);
        proof {
            assert(all.take(i + 1).drop_last() =~= all.take(i as int));
            assert(x == all[i as int]);
            assert(old_v@ =~= all.skip(i + 1));
        }
        let same = str_eq(x.provider.as_str(), report.provider_name.as_str()) && str_eq(
            x.model.as_str(),
            report.model.as_str(),
        ) && str_eq(x.request_builder.as_str(), report.evidence_tag.as_str());
        if !same {
            kept.push(x);
        }
        i += 1;
    }
    proof {
        assert(all.take(i as int) =~= all);
    }
    let e = copy_validation_evidence(evidence);
    kept.push(e);
    proof {
        assert(kept@.drop_last() =~= kept_evidence(all, *report));
    }
    s.validation = kept;
    s
}

/// Whether `new` is `old` with validation evidence checked at `checked_at` recorded.
pub open spec fn evidence_recorded(
    old: StoredContextViewState,
    new: StoredContextViewState,
    report: ContextProjectionValidationReport,
    checked_at: i64,
) -> bool {
    &&& new.revision == old.revision
    &&& new.emergency_policy == old.emergency_policy
    &&& new.transactions@.len() == old.transactions@.len()
    &&& forall|i: int|
        0 <= i < old.transactions@.len() ==> recorded_transaction(
            #[trigger] old.transactions@[i],
            new.transactions@[i],
            report,
            checked_at,
        )
}

/// Records passed provider validation, checked now, on every reasoning suppression of every
/// active transaction; when the clock cannot be read nothing changes and the error is returned.
pub fn record_provider_validation_evidence(
    state: &mut StoredContextViewState,
    report: &ContextProjectionValidationReport,
) -> (r: Result<(), ContextServiceError>)
    ensures
        match r {
            Ok(()) => exists|checked_at: i64|
                evidence_recorded(*old(state), *final(state), *report, checked_at),
            Err(e) => *final(state) == *old(state) && e@ == ServiceErrorModel::Runtime(
                clock_error_text(),
            ),
        },
{
    let checked_at = now_unix_millis()?;
    record_validation_evidence_at(state, report, checked_at);
    assert(evidence_recorded(*old(state), *state, *report, checked_at));
    Ok(())
}

/// Records passed provider validation on every reasoning suppression of every active
/// transaction: earlier evidence for the same provider, model and request builder is replaced by
/// evidence carrying the report's notes (and a placeholder warning), sorted and distinct.
pub fn record_validation_evidence_at(
    state: &mut StoredContextViewState,
    report: &ContextProjectionValidationReport,
    checked_at: i64,
)
    ensures
        final(state).revision == old(state).revision,
        final(state).emergency_policy == old(state).emergency_policy,
        final(state).transactions@.len() == old(state).transactions@.len(),
        forall|i: int|
            0 <= i < old(state).transactions@.len() ==> recorded_transaction(
                #[trigger] old(state).transactions@[i],
                final(state).transactions@[i],
                *report,
                checked_at,
            ),
{
    let mut warnings: Vec<String> = Vec::new();
    let mut k: usize = 0;
    proof {
        assert(views(warnings@) =~= Seq::<Seq<char>>::empty());
        assert(views(report.normalization_notes@).take(0) =~= Seq::<Seq<char>>::empty());
    }
    while k < report.normalization_notes.len()
        invariant
            k <= report.normalization_notes@.len(),
            strictly_sorted(views(warnings@)),
            views(warnings@).to_set() == views(report.normalization_notes@).take(k as int).to_set(),
        decreases report.normalization_notes.len() - k,
    {
        insert_sorted(&mut warnings, report.normalization_notes[k].clone());
        proof {
            let notes = views(report.normalization_notes@);
            assert(notes.take(k + 1) =~= notes.take(k as int).push(notes[k as int]));
            notes.take(k as int).lemma_push_to_set_commute(notes[k as int]);
        }
        k += 1;
    }
    proof {
        assert(views(report.normalization_notes@).take(k as int) =~= views(report.normalization_notes@));
    }
    if report.formatter_placeholder_count > 0 {
        let mut m = String::from_str("The production request builder inserted ");
        m.append(decimal_string(report.formatter_placeholder_count as u64).as_str());
        m.append(" formatter placeholder(s).");
        insert_sorted(&mut warnings, m);
    }
    let evidence = StoredProviderValidationEvidence {
        provider: report.provider_name.clone(),
        model: report.model.clone(),
        request_builder: report.evidence_tag.clone(),
        checked_at,
        warnings,
    };
    let ghost start = state.transactions@;
    let mut t: usize = 0;
    while t < state.transactions.len()
        invariant
            t <= state.transactions@.len(),
            state.transactions@.len() == start.len(),
            state.revision == old(state).revision,
            state.emergency_policy == old(state).emergency_policy,
            start == old(state).transactions@,
            is_report_evidence(evidence, *report, checked_at),
            forall|j: int| 0 <= j < t ==> recorded_transaction(#[trigger] start[j], state.transactions@[j], *report, checked_at),
            forall|j: int| t <= j < start.len() ==> #[trigger] state.transactions@[j] == start[j],
        decreases state.transactions.len() - t,
    {
        if state.transactions[t].is_active() {
            let ghost before = state.transactions@;
            let mut tx = state.transactions.remove(t);
            let ghost old_tx = tx;
            let mut ops: Vec<StoredContextOperation> = Vec::new();
            std::mem::swap(&mut ops, &mut tx.operations);
            let ghost old_ops = ops@;
            let ops_len: usize = ops.len();
            let mut done: Vec<StoredContextOperation> = Vec::new();
            let mut o: usize = 0;
            while ops.len() > 0
                invariant
                    o <= old_ops.len(),
                    old_ops.len() <= usize::MAX,
                    ops@ == old_ops.skip(o as int),
                    done@.len() == o,
                    is_report_evidence(evidence, *report, checked_at),
                    forall|q: int| 0 <= q < o ==> recorded_operation(#[trigger] old_ops[q], done@[q], *report, checked_at),
                decreases ops.len(),
            {
                let op = ops.remove(0);
                proof {
                    assert(op == old_ops[o as int]);
                    assert(ops@ =~= old_ops.skip(o + 1));
                }
                let next = match op {
                    StoredContextOperation::ReasoningSuppression(sup) => StoredContextOperation::ReasoningSuppression(
                        record_on_suppression(sup, report, &evidence, checked_at),
                    ),
                    other => other,
                };
                done.push(next);
                o += 1;
            }
            tx.operations = done;
            state.transactions.insert(t, tx);
            proof {
                assert(state.transactions@ =~= before.update(t as int, state.transactions@[t as int]));
                assert(old_tx == start[t as int]);
            }
        }
        t += 1;
    }
}

} // verus!
