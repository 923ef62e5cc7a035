//! Transaction history: newest-first summaries, and the status transitions that revert or
//! reapply a transaction by appending a status event, its operations left as they were.

use vstd::prelude::*;

use crate::session::{
    count_range_summaries, count_reasoning_suppressions, count_tool_result_distillations,
    latest_event, operation_counts, spec_is_active, ContextServiceError, ServiceErrorModel,
    StoredContextApplication, StoredContextAuthorization, StoredContextEconomics,
    StoredContextStatusEvent, StoredContextTransaction, StoredContextTransactionStatusKind,
    StoredContextViewState,
};
use crate::clock::{clock_error_text, now_unix_millis};
use crate::text::str_eq;

verus! {

/// How many operations of each kind a transaction holds.
#[derive(PartialEq, Eq, Structural, Clone, Copy, Debug)]
pub struct ContextOperationCounts {
    pub range_summaries: usize,
    pub reasoning_suppressions: usize,
    pub tool_result_distillations: usize,
}

/// What the history shows of one transaction.
#[derive(Clone, Debug)]
pub struct ContextTransactionSummary {
    pub id: String,
    pub created_at: i64,
    pub base_revision: u64,
    pub active: bool,
    pub latest_status: Option<StoredContextTransactionStatusKind>,
    pub latest_status_revision: Option<u64>,
    pub authorization: StoredContextAuthorization,
    pub operation_counts: ContextOperationCounts,
    pub application: Option<StoredContextApplication>,
    pub economics: Option<StoredContextEconomics>,
}

/// The outcome of an apply, revert or reapply.
#[derive(Clone, Debug)]
pub struct ContextTransactionResult {
    pub transaction: ContextTransactionSummary,
    pub revision: u64,
    pub status: StoredContextTransactionStatusKind,
    pub warnings: Vec<String>,
}

/// The summary of a transaction.
pub open spec fn summary_of(t: StoredContextTransaction) -> ContextTransactionSummary {
    ContextTransactionSummary {
        id: t.id,
        created_at: t.created_at,
        base_revision: t.base_revision,
        active: spec_is_active(t),
        latest_status: match latest_event(t.status_events@) {
            Some(e) => Some(e.kind),
            None => None,
        },
        latest_status_revision: match latest_event(t.status_events@) {
            Some(e) => Some(e.revision),
            None => None,
        },
        authorization: t.authorization,
        operation_counts: ContextOperationCounts {
            range_summaries: count_range_summaries(t.operations@) as usize,
            reasoning_suppressions: count_reasoning_suppressions(t.operations@) as usize,
            tool_result_distillations: count_tool_result_distillations(t.operations@) as usize,
        },
        application: t.application,
        economics: t.economics,
    }
}

/// Summarizes one transaction.
pub fn summarize_context_transaction(transaction: &StoredContextTransaction) -> (r:
    ContextTransactionSummary)
    ensures
        r == summary_of(*transaction),
        transaction.status_events@.len() > 0 ==> r.latest_status == Some(
            transaction.status_events@[transaction.status_events@.len() - 1].kind,
        ) && r.latest_status_revision == Some(
            transaction.status_events@[transaction.status_events@.len() - 1].revision,
        ),
        transaction.status_events@.len() == 0 ==> r.latest_status is None
            && r.latest_status_revision is None,
{
    let counts = operation_counts(&transaction.operations);
    let latest = transaction.latest_status();
    ContextTransactionSummary {
        id: transaction.id.clone(),
        created_at: transaction.created_at,
        base_revision: transaction.base_revision,
        active: transaction.is_active(),
        latest_status: match latest {
            Some(e) => Some(e.kind),
            None => None,
        },
        latest_status_revision: match latest {
            Some(e) => Some(e.revision),
            None => None,
        },
        authorization: transaction.authorization.clone(),
        operation_counts: ContextOperationCounts {
            range_summaries: counts.range_summaries,
            reasoning_suppressions: counts.reasoning_suppressions,
            tool_result_distillations: counts.tool_result_distillations,
        },
        application: match &transaction.application {
            Some(a) => Some(a.clone()),
            None => None,
        },
        economics: transaction.economics,
    }
}

/// The history of a context view, newest transaction first; every transaction stays listed,
/// reverted ones included.
pub fn list_context_transactions(state: &StoredContextViewState) -> (r: Vec<
    ContextTransactionSummary,
>)
    ensures
        r@.len() == state.transactions@.len(),
        forall|i: int|
            0 <= i < r@.len() ==> r@[i] == summary_of(
                #[trigger] state.transactions@[state.transactions@.len() - 1 - i],
            ),
{
    let txs = &state.transactions;
    let n = txs.len();
    let mut out: Vec<ContextTransactionSummary> = Vec::new();
    let mut k: usize = 0;
    while k < n
        invariant
            n == txs@.len(),
            txs == &state.transactions,
            k <= n,
            out@.len() == k,
            forall|i: int| 0 <= i < k ==> out@[i] == summary_of(#[trigger] txs@[n - 1 - i]),
        decreases n - k,
    {
        out.push(summarize_context_transaction(&txs[n - 1 - k]));
        k += 1;
    }
    out
}

/// The position of the first transaction with the given ID.
pub open spec fn first_index_of(txs: Seq<StoredContextTransaction>, id: Seq<char>) -> Option<nat>
    decreases txs.len(),
{
    if txs.len() == 0 {
        None
    } else {
        match first_index_of(txs.drop_last(), id) {
            Some(i) => Some(i),
            None => if txs.last().id@ == id {
                Some((txs.len() - 1) as nat)
            } else {
                None
            },
        }
    }
}

proof fn lemma_first_index_bounds(txs: Seq<StoredContextTransaction>, id: Seq<char>)
    ensures
        first_index_of(txs, id) matches Some(i) ==> i < txs.len() && txs[i as int].id@ == id,
        first_index_of(txs, id) is None ==> forall|k: int|
            0 <= k < txs.len() ==> #[trigger] txs[k].id@ != id,
    decreases txs.len(),
{
    if txs.len() > 0 {
        lemma_first_index_bounds(txs.drop_last(), id);
        assert forall|k: int| 0 <= k < txs.len() - 1 implies #[trigger] txs[k] == txs.drop_last()[k] by {}
    }
}

/// The position of the transaction with the given ID.
pub fn transaction_index(state: &StoredContextViewState, transaction_id: &str) -> (r: Result<
    usize,
    ContextServiceError,
>)
    ensures
        match r {
            Ok(i) => first_index_of(state.transactions@, transaction_id@) == Some(i as nat),
            Err(e) => first_index_of(state.transactions@, transaction_id@) is None && (
            e matches ContextServiceError::TransactionNotFound(m) && m@ == transaction_id@),
        },
{
    let txs = &state.transactions;
    let mut i: usize = 0;
    while i < txs.len()
        invariant
            i <= txs@.len(),
            txs == &state.transactions,
            first_index_of(txs@.take(i as int), transaction_id@) is None,
        decreases txs.len() - i,
    {
        proof {
            assert(txs@.take(i + 1).drop_last() =~= txs@.take(i as int));
        }
        if str_eq(txs[i].id.as_str(), transaction_id) {
            proof {
                lemma_first_prefix(txs@, transaction_id@, i as int);
            }
            return Ok(i);
        }
        i += 1;
    }
    proof {
        assert(txs@.take(txs@.len() as int) =~= txs@);
    }
    Err(ContextServiceError::TransactionNotFound(String::from_str(transaction_id)))
}

proof fn lemma_first_prefix(txs: Seq<StoredContextTransaction>, id: Seq<char>, i: int)
    requires
        0 <= i < txs.len(),
        first_index_of(txs.take(i), id) is None,
        txs[i].id@ == id,
    ensures
        first_index_of(txs, id) == Some(i as nat),
    decreases txs.len(),
{
    assert(txs.take(i + 1).drop_last() =~= txs.take(i));
    lemma_first_prefix_extends(txs, id, i + 1);
}

proof fn lemma_first_prefix_extends(txs: Seq<StoredContextTransaction>, id: Seq<char>, j: int)
    requires
        0 < j <= txs.len(),
        first_index_of(txs.take(j), id) is Some,
    ensures
        first_index_of(txs, id) == first_index_of(txs.take(j), id),
    decreases txs.len() - j,
{
    if j < txs.len() {
        assert(txs.take(j + 1).drop_last() =~= txs.take(j));
        lemma_first_prefix_extends(txs, id, j + 1);
    } else {
        assert(txs.take(j) =~= txs);
    }
}

/// The reason recorded with a revert or a reapply.
pub open spec fn transition_reason(reapply: bool) -> Seq<char> {
    if reapply {
        "Reapplied through the context transaction service."@
    } else {
        "Reverted through the context transaction service."@
    }
}

/// Whether `e` is the status event a revert or reapply appends at `revision`.
pub open spec fn is_transition_event(
    e: StoredContextStatusEvent,
    revision: u64,
    timestamp: i64,
    reapply: bool,
) -> bool {
    &&& e.revision == revision
    &&& e.timestamp == timestamp
    &&& e.kind == if reapply {
        StoredContextTransactionStatusKind::Reapplied
    } else {
        StoredContextTransactionStatusKind::Reverted
    }
    &&& (e.reason matches Some(r) && r@ == transition_reason(reapply))
}

/// Whether `next` is `state` with one more revision and one status event appended to
/// transaction `index`, everything else unchanged.
pub open spec fn status_transition(
    state: StoredContextViewState,
    next: StoredContextViewState,
    index: int,
    timestamp: i64,
    reapply: bool,
) -> bool {
    let old_tx = state.transactions@[index];
    let new_tx = next.transactions@[index];
    &&& 0 <= index < state.transactions@.len()
    &&& next.revision == state.revision + 1
    &&& next.emergency_policy == state.emergency_policy
    &&& next.transactions@.len() == state.transactions@.len()
    &&& forall|k: int|
        0 <= k < state.transactions@.len() && k != index ==> #[trigger] next.transactions@[k]
            == state.transactions@[k]
    &&& new_tx.id == old_tx.id
    &&& new_tx.created_at == old_tx.created_at
    &&& new_tx.base_revision == old_tx.base_revision
    &&& new_tx.authorization == old_tx.authorization
    &&& new_tx.operations == old_tx.operations
    &&& new_tx.application == old_tx.application
    &&& new_tx.economics == old_tx.economics
    &&& new_tx.status_events@.len() == old_tx.status_events@.len() + 1
    &&& new_tx.status_events@.drop_last() == old_tx.status_events@
    &&& is_transition_event(new_tx.status_events@.last(), next.revision, timestamp, reapply)
}

/// What reverting (`reapply == false`) or reapplying transaction `transaction_id` of `state`
/// at `timestamp` gives: the transaction must exist, must be active to revert and inactive to
/// reapply, and the revision must not overflow; the transition appends one status event and
/// bumps the revision.
pub open spec fn status_transition_outcome(
    state: StoredContextViewState,
    transaction_id: Seq<char>,
    reapply: bool,
    timestamp: i64,
    r: Result<(usize, StoredContextViewState), ContextServiceError>,
) -> bool {
    match r {
        Ok((index, next)) => {
            &&& first_index_of(state.transactions@, transaction_id) == Some(index as nat)
            &&& spec_is_active(state.transactions@[index as int]) == !reapply
            &&& status_transition(state, next, index as int, timestamp, reapply)
        },
        Err(e) => match first_index_of(state.transactions@, transaction_id) {
            None => (e matches ContextServiceError::TransactionNotFound(m) && m@ == transaction_id),
            Some(i) => if reapply && spec_is_active(state.transactions@[i as int]) {
                (e matches ContextServiceError::TransactionAlreadyActive(m) && m@
                    == transaction_id)
            } else if !reapply && !spec_is_active(state.transactions@[i as int]) {
                (e matches ContextServiceError::TransactionNotActive(m) && m@ == transaction_id)
            } else {
                state.revision == u64::MAX && e is RevisionOverflow
            },
        },
    }
}

/// Reverts (`reapply == false`) or reapplies a transaction, stamping the status event with the
/// current time.
pub fn propose_status_transition(
    state: StoredContextViewState,
    transaction_id: &str,
    reapply: bool,
) -> (r: Result<(usize, StoredContextViewState), ContextServiceError>)
    ensures
        (exists|timestamp: i64|
            status_transition_outcome(state, transaction_id@, reapply, timestamp, r)) || (
        r matches Err(e) && e@ == ServiceErrorModel::Runtime(clock_error_text())),
{
    let timestamp = now_unix_millis()?;
    let r = propose_status_transition_at(state, transaction_id, reapply, timestamp);
    assert(status_transition_outcome(state, transaction_id@, reapply, timestamp, r));
    r
}

/// The proposed state that reverts (`reapply == false`) or reapplies a transaction, with its
/// status event stamped `timestamp`.
pub fn propose_status_transition_at(
    state: StoredContextViewState,
    transaction_id: &str,
    reapply: bool,
    timestamp: i64,
) -> (r: Result<(usize, StoredContextViewState), ContextServiceError>)
    ensures
        status_transition_outcome(state, transaction_id@, reapply, timestamp, r),
{
    let index = match transaction_index(&state, transaction_id) {
        Ok(i) => i,
        Err(e) => {
            return Err(e);
        },
    };
    proof {
        lemma_first_index_bounds(state.transactions@, transaction_id@);
    }
    let active = state.transactions[index].is_active();
    if reapply && active {
        return Err(
            ContextServiceError::TransactionAlreadyActive(String::from_str(transaction_id)),
        );
    }
    if !reapply && !active {
        return Err(ContextServiceError::TransactionNotActive(String::from_str(transaction_id)));
    }
    let revision = match state.revision.checked_add(1) {
        Some(r) => r,
        None => {
            return Err(ContextServiceError::RevisionOverflow);
        },
    };
    let ghost old_state = state;
    let mut next = state;
    next.revision = revision;
    let reason = if reapply {
        String::from_str("Reapplied through the context transaction service.")
    } else {
        String::from_str("Reverted through the context transaction service.")
    };
    let event = StoredContextStatusEvent {
        revision,
        timestamp,
        kind: if reapply {
            StoredContextTransactionStatusKind::Reapplied
        } else {
            StoredContextTransactionStatusKind::Reverted
        },
        reason: Some(reason),
    };
    let mut tx = next.transactions.remove(index);
    let ghost before_events = tx.status_events@;
    tx.status_events.push(event);
    assert(tx.status_events@.drop_last() =~= before_events);
    next.transactions.insert(index, tx);
    proof {
        assert(next.transactions@ =~= old_state.transactions@.update(
            index as int,
            next.transactions@[index as int],
        ));
    }
    Ok((index, next))
}

/// A revert leaves its transaction inactive and a reapply leaves it active; either way the
/// earlier status history is kept whole and no other transaction changes.
pub proof fn law_transition_sets_activity_and_keeps_history(
    state: StoredContextViewState,
    next: StoredContextViewState,
    index: int,
    timestamp: i64,
    reapply: bool,
)
    requires
        status_transition(state, next, index, timestamp, reapply),
    ensures
        spec_is_active(next.transactions@[index]) == reapply,
        next.transactions@[index].status_events@.take(
            state.transactions@[index].status_events@.len() as int,
        ) == state.transactions@[index].status_events@,
        summary_of(next.transactions@[index]).operation_counts == summary_of(
            state.transactions@[index],
        ).operation_counts,
{
    let events = next.transactions@[index].status_events@;
    assert(events.take(events.len() - 1) =~= events.drop_last());
}

/// Reverting and then reapplying a transaction makes it active again two revisions later,
/// with both status events appended to its untouched earlier history.
pub proof fn law_revert_then_reapply_restores_activity(
    s0: StoredContextViewState,
    s1: StoredContextViewState,
    s2: StoredContextViewState,
    index: int,
    t1: i64,
    t2: i64,
)
    requires
        status_transition(s0, s1, index, t1, false),
        status_transition(s1, s2, index, t2, true),
    ensures
        spec_is_active(s2.transactions@[index]),
        !spec_is_active(s1.transactions@[index]),
        s2.revision == s0.revision + 2,
        s2.transactions@[index].status_events@.len() == s0.transactions@[index].status_events@.len()
            + 2,
        s2.transactions@[index].status_events@.take(
            s0.transactions@[index].status_events@.len() as int,
        ) == s0.transactions@[index].status_events@,
        forall|k: int|
            0 <= k < s0.transactions@.len() && k != index ==> #[trigger] s2.transactions@[k]
                == s0.transactions@[k],
{
    let e0 = s0.transactions@[index].status_events@;
    let e1 = s1.transactions@[index].status_events@;
    let e2 = s2.transactions@[index].status_events@;
    assert(e2.take(e0.len() as int) =~= e1.drop_last().take(e0.len() as int));
    assert(e1.drop_last().take(e0.len() as int) =~= e0);
    assert forall|k: int| 0 <= k < s0.transactions@.len() && k != index implies #[trigger]
        s2.transactions@[k] == s0.transactions@[k] by {
        assert(s1.transactions@[k] == s0.transactions@[k]);
    }
}

/// Applying a transaction, reverting it and reapplying it each advance the context revision by
/// exactly one; the transaction is active after the apply and the reapply and inactive after
/// the revert, and every earlier transaction is untouched throughout.
pub proof fn law_apply_revert_reapply_advance_one_revision_each(
    s0: StoredContextViewState,
    s1: StoredContextViewState,
    s2: StoredContextViewState,
    s3: StoredContextViewState,
    transaction_id: Seq<char>,
    t0: i64,
    t1: i64,
    t2: i64,
)
    requires
        s0.revision < u64::MAX,
        crate::draft::with_new_transaction(s0, s1, transaction_id, (s0.revision + 1) as u64, t0),
        status_transition(s1, s2, s0.transactions@.len() as int, t1, false),
        status_transition(s2, s3, s0.transactions@.len() as int, t2, true),
    ensures
        s1.revision == s0.revision + 1,
        s2.revision == s0.revision + 2,
        s3.revision == s0.revision + 3,
        spec_is_active(s1.transactions@[s0.transactions@.len() as int]),
        !spec_is_active(s2.transactions@[s0.transactions@.len() as int]),
        spec_is_active(s3.transactions@[s0.transactions@.len() as int]),
        s3.transactions@.len() == s0.transactions@.len() + 1,
        forall|k: int|
            0 <= k < s0.transactions@.len() ==> #[trigger] s3.transactions@[k] == s0.transactions@[k],
{
    let n = s0.transactions@.len() as int;
    let t = s1.transactions@[n];
    assert(s1.transactions@.last() == t);
    assert(latest_event(t.status_events@) == Some(t.status_events@[0]));
    law_transition_sets_activity_and_keeps_history(s1, s2, n, t1, false);
    law_transition_sets_activity_and_keeps_history(s2, s3, n, t2, true);
    assert forall|k: int| 0 <= k < n implies #[trigger] s3.transactions@[k] == s0.transactions@[k] by {
        assert(s1.transactions@.drop_last()[k] == s0.transactions@[k]);
        assert(s2.transactions@[k] == s1.transactions@[k]);
    }
}

/// A transaction's summary reports the kind and revision of the last event of its status
/// history, and nothing when the history is empty; its `active` flag agrees with that kind.
pub proof fn law_summary_reports_the_last_status_event(t: StoredContextTransaction)
    ensures
        t.status_events@.len() > 0 ==> summary_of(t).latest_status == Some(
            t.status_events@[t.status_events@.len() - 1].kind,
        ) && summary_of(t).latest_status_revision == Some(
            t.status_events@[t.status_events@.len() - 1].revision,
        ) && summary_of(t).active == (t.status_events@[t.status_events@.len() - 1].kind
            == StoredContextTransactionStatusKind::Applied || t.status_events@[t.status_events@.len()
            - 1].kind == StoredContextTransactionStatusKind::Reapplied),
        t.status_events@.len() == 0 ==> summary_of(t).latest_status is None
            && summary_of(t).latest_status_revision is None && !summary_of(t).active,
{
}

/// After a revert (or reapply), the transaction's summary reports the new status at the new
/// revision: a reverted transaction shows `Reverted` at the revert's revision and is no longer
/// active; a reapplied one shows `Reapplied` and is active again.
pub proof fn law_transition_shows_in_the_summary(
    state: StoredContextViewState,
    next: StoredContextViewState,
    index: int,
    timestamp: i64,
    reapply: bool,
)
    requires
        status_transition(state, next, index, timestamp, reapply),
    ensures
        summary_of(next.transactions@[index]).latest_status == Some(
            if reapply {
                StoredContextTransactionStatusKind::Reapplied
            } else {
                StoredContextTransactionStatusKind::Reverted
            },
        ),
        summary_of(next.transactions@[index]).latest_status_revision == Some(next.revision),
        summary_of(next.transactions@[index]).active == reapply,
        summary_of(next.transactions@[index]).id == state.transactions@[index].id,
{
    law_summary_reports_the_last_status_event(next.transactions@[index]);
}

} // verus!
