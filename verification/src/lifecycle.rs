//! The transitions of a retained draft: generation finishing (ready, failed or canceled),
//! cancellation, reservation for an apply and its outcome (applied, failed or restored).
//! Each transition touches only the draft it names; a late generation result never revives a
//! draft that already ended.

use vstd::prelude::*;

use crate::clock::{clock_error_text, now_unix_millis};
use crate::protocol::{copy_proposals, ContextDraft, ContextDraftIdentity};
use crate::session::{copy_operations, same_operations, ContextServiceError, ServiceErrorModel};
use crate::store::{
    cap, entry_ids, expired_entry, sized_reservation, has_evictable, removes_only_evictable, reserve_terminal,
    total_reserved, ContextDraftEntry, ContextDraftPhase, ContextDraftProgress, ContextDraftStore,
    DraftEntryState, TERMINAL_DRAFT_RESERVATION_FLOOR_BYTES,
};
use crate::text::{concat2, concat3, decimal, decimal_string, sat_add, seq_lt, str_eq};

verus! {

/// Whether `new` is `old` with the draft `id` changed as `step` says and every other draft
/// untouched.
pub open spec fn changes_draft(
    old: Seq<ContextDraftEntry>,
    new: Seq<ContextDraftEntry>,
    id: Seq<char>,
    step: spec_fn(ContextDraftEntry, ContextDraftEntry) -> bool,
) -> bool {
    &&& new.len() == old.len()
    &&& forall|i: int|
        0 <= i < old.len() ==> if old[i].identity.draft_id@ == id {
            step(old[i], new[i])
        } else {
            new[i] == old[i]
        }
}

/// Whether `n` is `e` in state `state`, its generation flag `in_flight`, reserving a terminal
/// status; identity and cancellation unchanged.
pub open spec fn terminal_as(
    e: ContextDraftEntry,
    n: ContextDraftEntry,
    state: DraftEntryState,
    in_flight: bool,
) -> bool {
    &&& n.identity == e.identity
    &&& n.progress == e.progress
    &&& n.state == state
    &&& n.generation_in_flight == in_flight
    &&& n.cancel_requested == e.cancel_requested
    &&& n.reserved_bytes >= TERMINAL_DRAFT_RESERVATION_FLOOR_BYTES
}

/// Whether `n` is `e` in state `state`, everything else unchanged.
pub open spec fn moved_to(e: ContextDraftEntry, n: ContextDraftEntry, state: DraftEntryState) -> bool {
    n == ContextDraftEntry { state, ..e }
}

/// Whether `new` is `old` after expiry at `now`, draft by draft.
pub open spec fn expired_at(old: Seq<ContextDraftEntry>, new: Seq<ContextDraftEntry>, now: i64) -> bool {
    &&& new.len() == old.len()
    &&& forall|i: int| 0 <= i < old.len() ==> expired_entry(#[trigger] old[i], new[i], now)
}

/// Whether a state has ended without being applied.
pub open spec fn ended_unapplied(s: DraftEntryState) -> bool {
    s is Failed || s is Canceled || s is Expired
}

/// The draft with ID `id`, when the store holds one.
pub open spec fn has_draft(s: Seq<ContextDraftEntry>, id: Seq<char>) -> bool {
    exists|i: int| 0 <= i < s.len() && (#[trigger] s[i]).identity.draft_id@ == id
}

/// The index of the draft with ID `id`, when the store holds one.
pub open spec fn draft_index(s: Seq<ContextDraftEntry>, id: Seq<char>) -> int {
    choose|i: int| 0 <= i < s.len() && (#[trigger] s[i]).identity.draft_id@ == id
}

/// Why a draft cannot be used, or `None` when it is ready: absent, of another session, or in a
/// state other than ready.
pub open spec fn unusable(s: Seq<ContextDraftEntry>, id: Seq<char>, session: Seq<char>) -> Option<
    ServiceErrorModel,
> {
    if !has_draft(s, id) || s[draft_index(s, id)].identity.session_id@ != session {
        Some(ServiceErrorModel::DraftNotFound(id))
    } else {
        match s[draft_index(s, id)].state {
            DraftEntryState::Ready(_) => None,
            DraftEntryState::Applied { .. } => Some(ServiceErrorModel::DraftAlreadyApplied(id)),
            DraftEntryState::Canceled => Some(ServiceErrorModel::DraftCanceled(id)),
            DraftEntryState::Expired => Some(ServiceErrorModel::DraftExpired(id)),
            _ => Some(ServiceErrorModel::DraftNotReady(id)),
        }
    }
}

proof fn lemma_ids_distinct(s: Seq<ContextDraftEntry>)
    requires
        crate::text::strictly_sorted(entry_ids(s)),
    ensures
        forall|i: int, j: int|
            0 <= i < s.len() && 0 <= j < s.len() && i != j ==> (#[trigger] s[i]).identity.draft_id@
                != (#[trigger] s[j]).identity.draft_id@,
{
    assert forall|i: int, j: int|
        0 <= i < s.len() && 0 <= j < s.len() && i != j implies (#[trigger] s[i]).identity.draft_id@
        != (#[trigger] s[j]).identity.draft_id@ by {
        let ids = entry_ids(s);
        assert(ids[i] == s[i].identity.draft_id@ && ids[j] == s[j].identity.draft_id@);
        if i < j {
            assert(seq_lt(ids[i], ids[j]));
        } else {
            assert(seq_lt(ids[j], ids[i]));
        }
        if ids[i] == ids[j] {
            crate::text::lemma_lt_irreflexive(ids[i]);
        }
    }
}

impl ContextDraftStore {
    /// The position of the draft with ID `draft_id`.
    pub fn position_of_draft(&self, draft_id: &str) -> (r: Option<usize>)
        requires
            self.wf(),
        ensures
            match r {
                Some(i) => i < self.entries@.len() && self.entries@[i as int].identity.draft_id@
                    == draft_id@ && draft_index(self.entries@, draft_id@) == i,
                None => !has_draft(self.entries@, draft_id@),
            },
    {
        let mut i: usize = 0;
        while i < self.entries.len()
            invariant
                i <= self.entries@.len(),
                self.wf(),
                forall|k: int| 0 <= k < i ==> (#[trigger] self.entries@[k]).identity.draft_id@ != draft_id@,
            decreases self.entries.len() - i,
        {
            if str_eq(self.entries[i].identity.draft_id.as_str(), draft_id) {
                proof {
                    lemma_ids_distinct(self.entries@);
                    assert(has_draft(self.entries@, draft_id@));
                    let c = draft_index(self.entries@, draft_id@);
                    assert(self.entries@[c].identity.draft_id@ == draft_id@);
                }
                return Some(i);
            }
            i += 1;
        }
        None
    }

    /// Expires the drafts whose expiry has passed, reading the clock; when the clock cannot be
    /// read nothing changes and the error is returned.
    pub fn expire_now<S: Fn(&ContextDraftEntry) -> Option<usize>>(&mut self, sizer: &S) -> (r: Result<(), ContextServiceError>)
        requires
            forall|e: &ContextDraftEntry| sizer.requires((e,)),
            old(self).wf(),
        ensures
            final(self).wf(),
            final(self).entries@.len() == old(self).entries@.len(),
            match r {
                Ok(()) => exists|now: i64| expired_at(old(self).entries@, final(self).entries@, now),
                Err(e) => *final(self) == *old(self) && e@ == ServiceErrorModel::Runtime(
                    clock_error_text(),
                ),
            },
    {
        let now = now_unix_millis()?;
        self.expire_entries(now, sizer);
        assert(expired_at(old(self).entries@, self.entries@, now));
        Ok(())
    }

    /// The ready draft `draft_id` of session `session_id` (see [`unusable`] for the refusals).
    /// A draft of another session is reported absent.
    pub fn ready_draft_for_session(&self, draft_id: &str, session_id: &str) -> (r: Result<
        &ContextDraft,
        ContextServiceError,
    >)
        requires
            self.wf(),
        ensures
            match r {
                Ok(d) => unusable(self.entries@, draft_id@, session_id@) is None
                    && self.entries@[draft_index(self.entries@, draft_id@)].state
                    == DraftEntryState::Ready(*d),
                Err(e) => unusable(self.entries@, draft_id@, session_id@) == Some(e@),
            },
    {
        let i = match self.position_of_draft(draft_id) {
            Some(i) => i,
            None => {
                return Err(ContextServiceError::DraftNotFound(String::from_str(draft_id)));
            },
        };
        let entry = &self.entries[i];
        if !str_eq(entry.identity.session_id.as_str(), session_id) {
            return Err(ContextServiceError::DraftNotFound(String::from_str(draft_id)));
        }
        match &entry.state {
            DraftEntryState::Ready(d) => Ok(d),
            DraftEntryState::Applied { .. } => Err(
                ContextServiceError::DraftAlreadyApplied(String::from_str(draft_id)),
            ),
            DraftEntryState::Canceled => Err(
                ContextServiceError::DraftCanceled(String::from_str(draft_id)),
            ),
            DraftEntryState::Expired => Err(
                ContextServiceError::DraftExpired(String::from_str(draft_id)),
            ),
            _ => Err(ContextServiceError::DraftNotReady(String::from_str(draft_id))),
        }
    }

    /// The draft being applied under `draft_id`, if it is being applied.
    pub fn applying_draft(&self, draft_id: &str) -> (r: Option<&ContextDraft>)
        requires
            self.wf(),
        ensures
            match r {
                Some(d) => has_draft(self.entries@, draft_id@) && self.entries@[draft_index(
                    self.entries@,
                    draft_id@,
                )].state == DraftEntryState::Applying(*d),
                None => !has_draft(self.entries@, draft_id@) || !(self.entries@[draft_index(
                    self.entries@,
                    draft_id@,
                )].state is Applying),
            },
    {
        match self.position_of_draft(draft_id) {
            Some(i) => match &self.entries[i].state {
                DraftEntryState::Applying(d) => Some(d),
                _ => None,
            },
            None => None,
        }
    }
}

proof fn lemma_update_one(
    before: Seq<ContextDraftEntry>,
    i: int,
    e: ContextDraftEntry,
    id: Seq<char>,
    step: spec_fn(ContextDraftEntry, ContextDraftEntry) -> bool,
)
    requires
        crate::text::strictly_sorted(entry_ids(before)),
        0 <= i < before.len(),
        before[i].identity.draft_id@ == id,
        e.identity == before[i].identity,
        step(before[i], e),
    ensures
        changes_draft(before, before.update(i, e), id, step),
        crate::text::strictly_sorted(entry_ids(before.update(i, e))),
{
    lemma_ids_distinct(before);
    assert(entry_ids(before.update(i, e)) =~= entry_ids(before));
}

proof fn lemma_absent_unchanged(
    s: Seq<ContextDraftEntry>,
    id: Seq<char>,
    step: spec_fn(ContextDraftEntry, ContextDraftEntry) -> bool,
)
    requires
        !has_draft(s, id),
    ensures
        changes_draft(s, s, id, step),
{
    assert forall|i: int| 0 <= i < s.len() implies s[i].identity.draft_id@ != id by {
        if s[i].identity.draft_id@ == id {
            assert(has_draft(s, id));
        }
    }
}

/// Cancellation: a preparing draft is canceled and its generation asked to stop; a ready one
/// is canceled and reserves its terminal status; any other state is untouched.
pub open spec fn cancel_step(e: ContextDraftEntry, n: ContextDraftEntry) -> bool {
    match e.state {
        DraftEntryState::Preparing => n == ContextDraftEntry {
            state: DraftEntryState::Canceled,
            cancel_requested: true,
            ..e
        },
        DraftEntryState::Ready(_) => terminal_as(
            e,
            n,
            DraftEntryState::Canceled,
            e.generation_in_flight,
        ),
        _ => n == e,
    }
}

/// What canceling draft `id` answers: nothing to cancel when it is absent; done when it was
/// preparing, ready or already canceled; refused when it expired, was applied, is being
/// applied, or failed.
pub open spec fn cancel_answer(s: Seq<ContextDraftEntry>, id: Seq<char>) -> Option<ServiceErrorModel> {
    if !has_draft(s, id) {
        Some(ServiceErrorModel::DraftNotFound(id))
    } else {
        match s[draft_index(s, id)].state {
            DraftEntryState::Preparing | DraftEntryState::Ready(_) | DraftEntryState::Canceled => None,
            DraftEntryState::Expired => Some(ServiceErrorModel::DraftExpired(id)),
            DraftEntryState::Applied { .. } => Some(ServiceErrorModel::DraftAlreadyApplied(id)),
            _ => Some(ServiceErrorModel::DraftNotReady(id)),
        }
    }
}

/// Reservation for an apply: a ready draft becomes the draft being applied.
pub open spec fn reserve_step(e: ContextDraftEntry, n: ContextDraftEntry) -> bool {
    match e.state {
        DraftEntryState::Ready(d) => moved_to(e, n, DraftEntryState::Applying(d)),
        _ => n == e,
    }
}

/// Restoration after an apply that did not commit: the draft being applied is ready again.
pub open spec fn restore_step(e: ContextDraftEntry, n: ContextDraftEntry) -> bool {
    match e.state {
        DraftEntryState::Applying(d) => moved_to(e, n, DraftEntryState::Ready(d)),
        _ => n == e,
    }
}

impl ContextDraftStore {
    /// Cancels draft `draft_id` (see [`cancel_step`] and [`cancel_answer`]).
    pub fn cancel_draft<S: Fn(&ContextDraftEntry) -> Option<usize>>(&mut self, draft_id: &str, sizer: &S) -> (r: Result<
        (),
        ContextServiceError,
    >)
        requires
            forall|e: &ContextDraftEntry| sizer.requires((e,)),
            old(self).wf(),
        ensures
            final(self).wf(),
            changes_draft(old(self).entries@, final(self).entries@, draft_id@, |e, n| cancel_step(e, n)),
            match r {
                Ok(()) => cancel_answer(old(self).entries@, draft_id@) is None,
                Err(e) => cancel_answer(old(self).entries@, draft_id@) == Some(e@),
            },
            forall|i: int|
                0 <= i < old(self).entries@.len() && old(self).entries@[i].identity.draft_id@
                    == draft_id@ && old(self).entries@[i].state is Ready ==> sized_reservation(
                    *sizer,
                    ContextDraftEntry { state: DraftEntryState::Canceled, ..old(self).entries@[i] },
                    #[trigger] final(self).entries@[i].reserved_bytes,
                ),
    {
        let ghost step = |e, n| cancel_step(e, n);
        let ghost before = self.entries@;
        let i = match self.position_of_draft(draft_id) {
            Some(i) => i,
            None => {
                proof {
                    lemma_absent_unchanged(before, draft_id@, step);
                }
                return Err(ContextServiceError::DraftNotFound(String::from_str(draft_id)));
            },
        };
        let (answer, change): (Result<(), ContextServiceError>, bool) = match &self.entries[i].state {
            DraftEntryState::Preparing => (Ok(()), true),
            DraftEntryState::Ready(_) => (Ok(()), true),
            DraftEntryState::Canceled => (Ok(()), false),
            DraftEntryState::Expired => (
                Err(ContextServiceError::DraftExpired(String::from_str(draft_id))),
                false,
            ),
            DraftEntryState::Applied { .. } => (
                Err(ContextServiceError::DraftAlreadyApplied(String::from_str(draft_id))),
                false,
            ),
            _ => (Err(ContextServiceError::DraftNotReady(String::from_str(draft_id))), false),
        };
        if change {
            let mut e = self.entries.remove(i);
            let ghost old_e = e;
            let was_ready = match e.state {
                DraftEntryState::Ready(_) => true,
                _ => false,
            };
            e.state = DraftEntryState::Canceled;
            if was_ready {
                reserve_terminal(&mut e, sizer);
            } else {
                e.cancel_requested = true;
            }
            self.entries.insert(i, e);
            proof {
                assert(self.entries@ =~= before.update(i as int, e));
                lemma_update_one(before, i as int, e, draft_id@, step);
            }
        } else {
            proof {
                lemma_update_one(before, i as int, before[i as int], draft_id@, step);
                assert(before.update(i as int, before[i as int]) =~= before);
            }
        }
        answer
    }

    /// Reserves ready draft `draft_id` of session `session_id` for an apply (see
    /// [`unusable`] for the refusals); the draft is then read with
    /// [`ContextDraftStore::applying_draft`].
    pub fn reserve_ready_draft(&mut self, draft_id: &str, session_id: &str) -> (r: Result<
        (),
        ContextServiceError,
    >)
        requires
            old(self).wf(),
        ensures
            final(self).wf(),
            match r {
                Ok(()) => unusable(old(self).entries@, draft_id@, session_id@) is None
                    && changes_draft(
                    old(self).entries@,
                    final(self).entries@,
                    draft_id@,
                    |e, n| reserve_step(e, n),
                ),
                Err(e) => unusable(old(self).entries@, draft_id@, session_id@) == Some(e@)
                    && final(self).entries@ == old(self).entries@,
            },
    {
        match self.ready_draft_for_session(draft_id, session_id) {
            Ok(_) => {},
            Err(e) => {
                return Err(e);
            },
        }
        let ghost step = |e, n| reserve_step(e, n);
        let ghost before = self.entries@;
        let i = match self.position_of_draft(draft_id) {
            Some(i) => i,
            None => {
                return Err(ContextServiceError::DraftNotFound(String::from_str(draft_id)));
            },
        };
        let mut e = self.entries.remove(i);
        let mut state = DraftEntryState::Canceled;
        std::mem::swap(&mut state, &mut e.state);
        e.state = match state {
            DraftEntryState::Ready(d) => DraftEntryState::Applying(d),
            other => other,
        };
        self.entries.insert(i, e);
        proof {
            assert(self.entries@ =~= before.update(i as int, e));
            lemma_update_one(before, i as int, e, draft_id@, step);
        }
        Ok(())
    }

    /// Makes draft `draft_id` ready again when its apply did not commit (see
    /// [`restore_step`]).
    pub fn restore_applying_draft(&mut self, draft_id: &str)
        requires
            old(self).wf(),
        ensures
            final(self).wf(),
            changes_draft(old(self).entries@, final(self).entries@, draft_id@, |e, n| restore_step(e, n)),
    {
        let ghost step = |e, n| restore_step(e, n);
        let ghost before = self.entries@;
        let i = match self.position_of_draft(draft_id) {
            Some(i) => i,
            None => {
                proof {
                    lemma_absent_unchanged(before, draft_id@, step);
                }
                return;
            },
        };
        let mut e = self.entries.remove(i);
        let mut state = DraftEntryState::Canceled;
        std::mem::swap(&mut state, &mut e.state);
        e.state = match state {
            DraftEntryState::Applying(d) => DraftEntryState::Ready(d),
            other => other,
        };
        self.entries.insert(i, e);
        proof {
            assert(self.entries@ =~= before.update(i as int, e));
            lemma_update_one(before, i as int, e, draft_id@, step);
        }
    }
}

/// Whether `new` is `mid` after oldest evictable drafts were evicted down to `max` bytes, or
/// until none could be.
pub open spec fn then_evicted(mid: Seq<ContextDraftEntry>, new: Seq<ContextDraftEntry>, max: usize) -> bool {
    &&& removes_only_evictable(mid, new)
    &&& cap(total_reserved(new)) <= max || !has_evictable(new)
}

/// Failure of an apply: the draft being applied fails with `error`, no longer counts as
/// generating, and reserves its terminal status.
pub open spec fn fail_apply_step(e: ContextDraftEntry, n: ContextDraftEntry, error: ContextServiceError) -> bool {
    if e.state is Applying {
        terminal_as(e, n, DraftEntryState::Failed(error), false)
    } else {
        n == e
    }
}

/// A committed apply: the draft being applied records its transaction and revision, no
/// longer counts as generating, and reserves its terminal status.
pub open spec fn applied_step(
    e: ContextDraftEntry,
    n: ContextDraftEntry,
    transaction_id: Seq<char>,
    revision: u64,
) -> bool {
    if e.state is Applying {
        &&& n.state matches DraftEntryState::Applied { transaction_id: t, revision: r } && t@
            == transaction_id && r == revision
        &&& n.identity == e.identity
        &&& n.progress == e.progress
        &&& !n.generation_in_flight
        &&& n.cancel_requested == e.cancel_requested
        &&& n.reserved_bytes >= TERMINAL_DRAFT_RESERVATION_FLOOR_BYTES
    } else {
        n == e
    }
}

/// `a - b`, or zero.
pub open spec fn sub_or_zero(a: nat, b: nat) -> nat {
    if a >= b {
        (a - b) as nat
    } else {
        0
    }
}

/// The refusal of a prepared draft that the byte bound cannot hold.
pub open spec fn oversized_draft_message(retained: nat, max: nat) -> Seq<char> {
    "prepared draft would retain "@ + decimal(retained) + " bytes against the "@ + decimal(max)
        + "-byte bound"@
}

/// Generation finished with `draft` of `bytes` serialized bytes, the store reserving `total`:
/// a draft that already ended keeps its state and stops counting as generating; a preparing
/// one becomes ready reserving `bytes`, unless it or the store's resulting total would exceed
/// `max`, when it fails with a capacity error; any other draft is untouched.
pub open spec fn ready_step(
    e: ContextDraftEntry,
    n: ContextDraftEntry,
    draft: ContextDraft,
    bytes: nat,
    total: nat,
    max: nat,
) -> bool {
    if ended_unapplied(e.state) {
        terminal_as(e, n, e.state, false)
    } else if e.state is Preparing {
        let retained = sat_add(sub_or_zero(total, e.reserved_bytes as nat), bytes);
        if bytes > max || retained > max {
            &&& n.state matches DraftEntryState::Failed(err) && err@ == ServiceErrorModel::Capacity(
                oversized_draft_message(retained, max),
            )
            &&& n.identity == e.identity
            &&& n.progress == e.progress
            &&& !n.generation_in_flight
            &&& n.cancel_requested == e.cancel_requested
            &&& n.reserved_bytes >= TERMINAL_DRAFT_RESERVATION_FLOOR_BYTES
        } else {
            n == ContextDraftEntry {
                state: DraftEntryState::Ready(draft),
                progress: ContextDraftProgress { phase: ContextDraftPhase::Ready, ..e.progress },
                reserved_bytes: bytes as usize,
                generation_in_flight: false,
                ..e
            }
        }
    } else {
        n == e
    }
}

/// Generation failed with `error`: a preparing draft fails; one that already ended keeps its
/// state; either way it stops counting as generating and reserves its terminal status. Any
/// other draft only stops counting as generating.
pub open spec fn failed_step(e: ContextDraftEntry, n: ContextDraftEntry, error: ContextServiceError) -> bool {
    if ended_unapplied(e.state) {
        terminal_as(e, n, e.state, false)
    } else if e.state is Preparing {
        terminal_as(e, n, DraftEntryState::Failed(error), false)
    } else {
        n == ContextDraftEntry { generation_in_flight: false, ..e }
    }
}

/// Generation stopped after cancellation: a preparing draft is canceled; it, or one that
/// already ended, stops counting as generating and reserves its terminal status. Any other
/// draft only stops counting as generating.
pub open spec fn canceled_step(e: ContextDraftEntry, n: ContextDraftEntry) -> bool {
    if e.state is Preparing {
        terminal_as(e, n, DraftEntryState::Canceled, false)
    } else if ended_unapplied(e.state) {
        terminal_as(e, n, e.state, false)
    } else {
        n == ContextDraftEntry { generation_in_flight: false, ..e }
    }
}

/// A draft whose generation was canceled, as its terminal status is measured: a preparing
/// draft becomes canceled, and it no longer counts as generating.
pub open spec fn canceled_terminal(e: ContextDraftEntry) -> ContextDraftEntry {
    ContextDraftEntry {
        state: if e.state is Preparing {
            DraftEntryState::Canceled
        } else {
            e.state
        },
        generation_in_flight: false,
        ..e
    }
}

impl ContextDraftStore {
    /// Fails draft `draft_id` whose apply failed (see [`fail_apply_step`]), then evicts to the
    /// byte bound.
    pub fn fail_applying_draft<S: Fn(&ContextDraftEntry) -> Option<usize>>(
        &mut self,
        draft_id: &str,
        error: ContextServiceError,
        max_total_bytes: usize,
        sizer: &S,
    )
        requires
            forall|e: &ContextDraftEntry| sizer.requires((e,)),
            old(self).wf(),
        ensures
            final(self).wf(),
            exists|mid: Seq<ContextDraftEntry>|
                changes_draft(old(self).entries@, mid, draft_id@, |e, n| fail_apply_step(e, n, error))
                    && then_evicted(mid, final(self).entries@, max_total_bytes),
    {
        let ghost step = |e, n| fail_apply_step(e, n, error);
        let ghost before = self.entries@;
        match self.position_of_draft(draft_id) {
            Some(i) => {
                let applying = match self.entries[i].state {
                    DraftEntryState::Applying(_) => true,
                    _ => false,
                };
                if applying {
                    let mut e = self.entries.remove(i);
                    e.state = DraftEntryState::Failed(error);
                    e.generation_in_flight = false;
                    reserve_terminal(&mut e, sizer);
                    self.entries.insert(i, e);
                    proof {
                        assert(self.entries@ =~= before.update(i as int, e));
                        lemma_update_one(before, i as int, e, draft_id@, step);
                    }
                } else {
                    proof {
                        lemma_update_one(before, i as int, before[i as int], draft_id@, step);
                        assert(before.update(i as int, before[i as int]) =~= before);
                    }
                }
            },
            None => {
                proof {
                    lemma_absent_unchanged(before, draft_id@, step);
                }
            },
        }
        let ghost mid = self.entries@;
        self.enforce_total_bytes(max_total_bytes);
        assert(changes_draft(before, mid, draft_id@, step) && then_evicted(mid, self.entries@, max_total_bytes));
    }

    /// Records the committed apply of draft `draft_id` (see [`applied_step`]), then evicts to
    /// the byte bound.
    pub fn mark_draft_applied<S: Fn(&ContextDraftEntry) -> Option<usize>>(
        &mut self,
        draft_id: &str,
        transaction_id: &str,
        revision: u64,
        max_total_bytes: usize,
        sizer: &S,
    )
        requires
            forall|e: &ContextDraftEntry| sizer.requires((e,)),
            old(self).wf(),
        ensures
            final(self).wf(),
            exists|mid: Seq<ContextDraftEntry>|
                changes_draft(
                    old(self).entries@,
                    mid,
                    draft_id@,
                    |e, n| applied_step(e, n, transaction_id@, revision),
                ) && then_evicted(mid, final(self).entries@, max_total_bytes),
    {
        let ghost step = |e, n| applied_step(e, n, transaction_id@, revision);
        let ghost before = self.entries@;
        match self.position_of_draft(draft_id) {
            Some(i) => {
                let applying = match self.entries[i].state {
                    DraftEntryState::Applying(_) => true,
                    _ => false,
                };
                if applying {
                    let mut e = self.entries.remove(i);
                    e.state = DraftEntryState::Applied {
                        transaction_id: String::from_str(transaction_id),
                        revision,
                    };
                    e.generation_in_flight = false;
                    reserve_terminal(&mut e, sizer);
                    self.entries.insert(i, e);
                    proof {
                        assert(self.entries@ =~= before.update(i as int, e));
                        lemma_update_one(before, i as int, e, draft_id@, step);
                    }
                } else {
                    proof {
                        lemma_update_one(before, i as int, before[i as int], draft_id@, step);
                        assert(before.update(i as int, before[i as int]) =~= before);
                    }
                }
            },
            None => {
                proof {
                    lemma_absent_unchanged(before, draft_id@, step);
                }
            },
        }
        let ghost mid = self.entries@;
        self.enforce_total_bytes(max_total_bytes);
        assert(changes_draft(before, mid, draft_id@, step) && then_evicted(mid, self.entries@, max_total_bytes));
    }

    /// Records generation failing with `error` for draft `draft_id` (see [`failed_step`]),
    /// then evicts to the byte bound.
    pub fn finish_failed<S: Fn(&ContextDraftEntry) -> Option<usize>>(
        &mut self,
        draft_id: &str,
        error: ContextServiceError,
        max_total_bytes: usize,
        sizer: &S,
    )
        requires
            forall|e: &ContextDraftEntry| sizer.requires((e,)),
            old(self).wf(),
        ensures
            final(self).wf(),
            exists|mid: Seq<ContextDraftEntry>|
                changes_draft(old(self).entries@, mid, draft_id@, |e, n| failed_step(e, n, error))
                    && then_evicted(mid, final(self).entries@, max_total_bytes),
    {
        let ghost step = |e, n| failed_step(e, n, error);
        let ghost before = self.entries@;
        match self.position_of_draft(draft_id) {
            Some(i) => {
                let mut e = self.entries.remove(i);
                e.generation_in_flight = false;
                let (ended, preparing) = match e.state {
                    DraftEntryState::Failed(_) => (true, false),
                    DraftEntryState::Canceled => (true, false),
                    DraftEntryState::Expired => (true, false),
                    DraftEntryState::Preparing => (false, true),
                    _ => (false, false),
                };
                if preparing {
                    e.state = DraftEntryState::Failed(error);
                }
                if ended || preparing {
                    reserve_terminal(&mut e, sizer);
                }
                self.entries.insert(i, e);
                proof {
                    assert(self.entries@ =~= before.update(i as int, e));
                    lemma_update_one(before, i as int, e, draft_id@, step);
                }
            },
            None => {
                proof {
                    lemma_absent_unchanged(before, draft_id@, step);
                }
            },
        }
        let ghost mid = self.entries@;
        self.enforce_total_bytes(max_total_bytes);
        assert(changes_draft(before, mid, draft_id@, step) && then_evicted(mid, self.entries@, max_total_bytes));
    }

    /// Records generation stopping after cancellation of draft `draft_id` (see
    /// [`canceled_step`]).
    pub fn finish_canceled<S: Fn(&ContextDraftEntry) -> Option<usize>>(&mut self, draft_id: &str, sizer: &S)
        requires
            forall|e: &ContextDraftEntry| sizer.requires((e,)),
            old(self).wf(),
        ensures
            final(self).wf(),
            changes_draft(old(self).entries@, final(self).entries@, draft_id@, |e, n| canceled_step(e, n)),
            forall|i: int|
                0 <= i < old(self).entries@.len() && old(self).entries@[i].identity.draft_id@
                    == draft_id@ && (old(self).entries@[i].state is Preparing || ended_unapplied(
                    old(self).entries@[i].state,
                )) ==> sized_reservation(
                    *sizer,
                    canceled_terminal(old(self).entries@[i]),
                    #[trigger] final(self).entries@[i].reserved_bytes,
                ),
    {
        let ghost step = |e, n| canceled_step(e, n);
        let ghost before = self.entries@;
        match self.position_of_draft(draft_id) {
            Some(i) => {
                let mut e = self.entries.remove(i);
                e.generation_in_flight = false;
                let preparing = match e.state {
                    DraftEntryState::Preparing => true,
                    _ => false,
                };
                if preparing {
                    e.state = DraftEntryState::Canceled;
                }
                let ended = match e.state {
                    DraftEntryState::Failed(_) => true,
                    DraftEntryState::Canceled => true,
                    DraftEntryState::Expired => true,
                    _ => false,
                };
                let ghost measured = e;
                if ended {
                    reserve_terminal(&mut e, sizer);
                }
                self.entries.insert(i, e);
                proof {
                    assert(self.entries@ =~= before.update(i as int, e));
                    lemma_update_one(before, i as int, e, draft_id@, step);
                    if before[i as int].state is Preparing || ended_unapplied(before[i as int].state) {
                        assert(measured == canceled_terminal(before[i as int]));
                        assert(ended);
                    }
                    lemma_ids_distinct(before);
                    assert forall|j: int|
                        0 <= j < before.len() && before[j].identity.draft_id@ == draft_id@ implies j
                        == i by {
                        if j != i {
                            assert(before[j].identity.draft_id@ != before[i as int].identity.draft_id@);
                        }
                    }
                }
            },
            None => {
                proof {
                    lemma_absent_unchanged(before, draft_id@, step);
                    assert forall|j: int| 0 <= j < before.len() implies before[j].identity.draft_id@
                        != draft_id@ by {
                        if before[j].identity.draft_id@ == draft_id@ {
                            assert(has_draft(before, draft_id@));
                        }
                    }
                }
            },
        }
    }

    /// Records generation finishing with `draft` (see [`ready_step`]), then evicts to the byte
    /// bound. `serialized_bytes` is the size of the serialized draft; a draft that cannot be
    /// serialized counts as the whole bound.
    pub fn finish_ready<S: Fn(&ContextDraftEntry) -> Option<usize>>(
        &mut self,
        draft: ContextDraft,
        serialized_bytes: Option<usize>,
        max_total_bytes: usize,
        sizer: &S,
    )
        requires
            forall|e: &ContextDraftEntry| sizer.requires((e,)),
            old(self).wf(),
        ensures
            final(self).wf(),
            ({
                let bytes = match serialized_bytes {
                    Some(b) => b as nat,
                    None => max_total_bytes as nat,
                };
                let total = cap(total_reserved(old(self).entries@));
                exists|mid: Seq<ContextDraftEntry>|
                    changes_draft(
                        old(self).entries@,
                        mid,
                        draft.identity.draft_id@,
                        |e, n| ready_step(e, n, draft, bytes, total, max_total_bytes as nat),
                    ) && then_evicted(mid, final(self).entries@, max_total_bytes)
            }),
    {
        let bytes = match serialized_bytes {
            Some(b) => b,
            None => max_total_bytes,
        };
        let total = self.total_bytes();
        let ghost draft_copy = draft;
        let ghost id = draft.identity.draft_id@;
        let ghost step = |e, n| ready_step(e, n, draft_copy, bytes as nat, total as nat, max_total_bytes as nat);
        let ghost before = self.entries@;
        match self.position_of_draft(draft.identity.draft_id.as_str()) {
            Some(i) => {
                let mut e = self.entries.remove(i);
                let (ended, preparing) = match e.state {
                    DraftEntryState::Failed(_) => (true, false),
                    DraftEntryState::Canceled => (true, false),
                    DraftEntryState::Expired => (true, false),
                    DraftEntryState::Preparing => (false, true),
                    _ => (false, false),
                };
                if ended {
                    e.generation_in_flight = false;
                    reserve_terminal(&mut e, sizer);
                } else if preparing {
                    let retained = total.saturating_sub(e.reserved_bytes).saturating_add(bytes);
                    e.generation_in_flight = false;
                    if bytes > max_total_bytes || retained > max_total_bytes {
                        let mut m = concat3(
                            "prepared draft would retain ",
                            decimal_string(retained as u64).as_str(),
                            " bytes against the ",
                        );
                        m.append(decimal_string(max_total_bytes as u64).as_str());
                        m.append("-byte bound");
                        e.state = DraftEntryState::Failed(ContextServiceError::Capacity(m));
                        reserve_terminal(&mut e, sizer);
                    } else {
                        e.progress.phase = ContextDraftPhase::Ready;
                        e.state = DraftEntryState::Ready(draft);
                        e.reserved_bytes = bytes;
                    }
                }
                self.entries.insert(i, e);
                proof {
                    assert(self.entries@ =~= before.update(i as int, e));
                    lemma_update_one(before, i as int, e, id, step);
                }
            },
            None => {
                proof {
                    lemma_absent_unchanged(before, id, step);
                }
            },
        }
        let ghost mid = self.entries@;
        self.enforce_total_bytes(max_total_bytes);
        assert(changes_draft(before, mid, id, step) && then_evicted(mid, self.entries@, max_total_bytes));
    }
}

/// A late generation result never revives a draft that already failed, was canceled, or
/// expired: whether generation finished, failed or stopped, the draft keeps its state and no
/// longer counts as generating, so it can be evicted.
pub proof fn law_late_results_never_revive_ended_drafts(
    e: ContextDraftEntry,
    ready: ContextDraftEntry,
    failed: ContextDraftEntry,
    canceled: ContextDraftEntry,
    draft: ContextDraft,
    bytes: nat,
    total: nat,
    max: nat,
    error: ContextServiceError,
)
    requires
        ended_unapplied(e.state),
        ready_step(e, ready, draft, bytes, total, max),
        failed_step(e, failed, error),
        canceled_step(e, canceled),
    ensures
        ready.state == e.state && !ready.generation_in_flight,
        failed.state == e.state && !failed.generation_in_flight,
        canceled.state == e.state && !canceled.generation_in_flight,
        crate::store::evictable(ready) && crate::store::evictable(failed) && crate::store::evictable(
            canceled,
        ),
{
}

/// Reserving a ready draft for an apply and then restoring it gives the ready draft back
/// exactly.
pub proof fn law_reserve_then_restore_is_identity(
    e: ContextDraftEntry,
    reserved: ContextDraftEntry,
    restored: ContextDraftEntry,
)
    requires
        e.state is Ready,
        reserve_step(e, reserved),
        restore_step(reserved, restored),
    ensures
        reserved.state is Applying,
        restored == e,
{
}

/// A draft being applied is untouched by cancellation and by every generation result; only
/// the apply's own outcome moves it: applied, failed, or ready again.
pub proof fn law_applying_draft_moves_only_by_its_apply(
    e: ContextDraftEntry,
    canceled: ContextDraftEntry,
    ready: ContextDraftEntry,
    draft: ContextDraft,
    bytes: nat,
    total: nat,
    max: nat,
    failed: ContextDraftEntry,
    error: ContextServiceError,
    stopped: ContextDraftEntry,
)
    requires
        e.state is Applying,
        cancel_step(e, canceled),
        ready_step(e, ready, draft, bytes, total, max),
        failed_step(e, failed, error),
        canceled_step(e, stopped),
    ensures
        canceled == e,
        ready == e,
        failed.state == e.state,
        stopped.state == e.state,
{
}

/// Only a draft being applied becomes applied.
pub proof fn law_only_applying_drafts_become_applied(
    e: ContextDraftEntry,
    n: ContextDraftEntry,
    transaction_id: Seq<char>,
    revision: u64,
)
    requires
        applied_step(e, n, transaction_id, revision),
        n.state is Applied,
        !(e.state is Applied),
    ensures
        e.state is Applying,
{
}

/// Progress of a preparing draft: the reported phase and item counts replace the previous
/// ones; a draft in any other state is untouched.
pub open spec fn progress_step(
    e: ContextDraftEntry,
    n: ContextDraftEntry,
    progress: ContextDraftProgress,
) -> bool {
    if e.state is Preparing {
        n == ContextDraftEntry { progress, ..e }
    } else {
        n == e
    }
}

/// What a draft shows its clients.
#[derive(Clone, Debug)]
pub enum ContextDraftStatus {
    Preparing { identity: ContextDraftIdentity, progress: ContextDraftProgress },
    Ready { draft: Box<ContextDraft> },
    Applying { identity: ContextDraftIdentity },
    Applied { identity: ContextDraftIdentity, transaction_id: String, revision: u64 },
    Failed { identity: ContextDraftIdentity, error: ContextServiceError },
    Canceled { identity: ContextDraftIdentity },
    Expired { identity: ContextDraftIdentity },
}

/// Whether `s` is the status of entry `e`: its state, with its identity (and, while
/// preparing, its progress); a ready status carries the draft's identity, authorization and
/// active agent profile.
pub open spec fn status_of(e: ContextDraftEntry, s: ContextDraftStatus) -> bool {
    match e.state {
        DraftEntryState::Preparing => s == ContextDraftStatus::Preparing {
            identity: e.identity,
            progress: e.progress,
        },
        DraftEntryState::Ready(d) => s matches ContextDraftStatus::Ready { draft } && draft.identity
            == d.identity && draft.authorization == d.authorization
            && crate::rows::opt_chars(draft.active_agent_profile_message_id) == crate::rows::opt_chars(
            d.active_agent_profile_message_id,
        ) && same_operations(draft.required_operations@, d.required_operations@)
            && draft.distillation_proposals@ == d.distillation_proposals@,
        DraftEntryState::Applying(_) => s == ContextDraftStatus::Applying { identity: e.identity },
        DraftEntryState::Applied { transaction_id, revision } => s matches ContextDraftStatus::Applied {
            identity,
            transaction_id: t,
            revision: r,
        } && identity == e.identity && t@ == transaction_id@ && r == revision,
        DraftEntryState::Failed(err) => s matches ContextDraftStatus::Failed { identity, error }
            && identity == e.identity && error@ == err@,
        DraftEntryState::Canceled => s == ContextDraftStatus::Canceled { identity: e.identity },
        DraftEntryState::Expired => s == ContextDraftStatus::Expired { identity: e.identity },
    }
}

/// A copy of an error.
pub fn clone_error(e: &ContextServiceError) -> (r: ContextServiceError)
    ensures
        r@ == e@,
{
    match e {
        ContextServiceError::SessionBusy => ContextServiceError::SessionBusy,
        ContextServiceError::EmptyRequest => ContextServiceError::EmptyRequest,
        ContextServiceError::RevisionOverflow => ContextServiceError::RevisionOverflow,
        ContextServiceError::InvalidSelection(m) => ContextServiceError::InvalidSelection(m.clone()),
        ContextServiceError::Stale(m) => ContextServiceError::Stale(m.clone()),
        ContextServiceError::Conflict(m) => ContextServiceError::Conflict(m.clone()),
        ContextServiceError::Capacity(m) => ContextServiceError::Capacity(m.clone()),
        ContextServiceError::Curator(m) => ContextServiceError::Curator(m.clone()),
        ContextServiceError::Projection(m) => ContextServiceError::Projection(m.clone()),
        ContextServiceError::ProviderValidation(m) => ContextServiceError::ProviderValidation(m.clone()),
        ContextServiceError::Persistence(m) => ContextServiceError::Persistence(m.clone()),
        ContextServiceError::Runtime(m) => ContextServiceError::Runtime(m.clone()),
        ContextServiceError::DraftNotFound(m) => ContextServiceError::DraftNotFound(m.clone()),
        ContextServiceError::DraftNotReady(m) => ContextServiceError::DraftNotReady(m.clone()),
        ContextServiceError::DraftAlreadyApplied(m) => ContextServiceError::DraftAlreadyApplied(m.clone()),
        ContextServiceError::DraftCanceled(m) => ContextServiceError::DraftCanceled(m.clone()),
        ContextServiceError::DraftExpired(m) => ContextServiceError::DraftExpired(m.clone()),
        ContextServiceError::TransactionNotFound(m) => ContextServiceError::TransactionNotFound(m.clone()),
        ContextServiceError::TransactionNotActive(m) => ContextServiceError::TransactionNotActive(m.clone()),
        ContextServiceError::TransactionAlreadyActive(m) => ContextServiceError::TransactionAlreadyActive(
            m.clone(),
        ),
    }
}

impl ContextDraftEntry {
    /// The status the draft shows its clients (see [`status_of`]).
    pub fn public_status(&self) -> (r: ContextDraftStatus)
        ensures
            status_of(*self, r),
    {
        match &self.state {
            DraftEntryState::Preparing => ContextDraftStatus::Preparing {
                identity: self.identity.clone(),
                progress: self.progress,
            },
            DraftEntryState::Ready(d) => ContextDraftStatus::Ready {
                draft: Box::new(
                    ContextDraft {
                        identity: d.identity.clone(),
                        authorization: d.authorization.clone(),
                        active_agent_profile_message_id: d.active_agent_profile_message_id.clone(),
                        required_operations: copy_operations(&d.required_operations),
                        distillation_proposals: copy_proposals(&d.distillation_proposals),
                    },
                ),
            },
            DraftEntryState::Applying(_) => ContextDraftStatus::Applying {
                identity: self.identity.clone(),
            },
            DraftEntryState::Applied { transaction_id, revision } => ContextDraftStatus::Applied {
                identity: self.identity.clone(),
                transaction_id: transaction_id.clone(),
                revision: *revision,
            },
            DraftEntryState::Failed(error) => ContextDraftStatus::Failed {
                identity: self.identity.clone(),
                error: clone_error(error),
            },
            DraftEntryState::Canceled => ContextDraftStatus::Canceled {
                identity: self.identity.clone(),
            },
            DraftEntryState::Expired => ContextDraftStatus::Expired {
                identity: self.identity.clone(),
            },
        }
    }
}

impl ContextDraftStore {
    /// The status of draft `draft_id` (see [`status_of`]).
    pub fn draft_status(&self, draft_id: &str) -> (r: Result<ContextDraftStatus, ContextServiceError>)
        requires
            self.wf(),
        ensures
            match r {
                Ok(s) => has_draft(self.entries@, draft_id@) && status_of(
                    self.entries@[draft_index(self.entries@, draft_id@)],
                    s,
                ),
                Err(e) => !has_draft(self.entries@, draft_id@) && e@
                    == ServiceErrorModel::DraftNotFound(draft_id@),
            },
    {
        match self.position_of_draft(draft_id) {
            Some(i) => Ok(self.entries[i].public_status()),
            None => Err(ContextServiceError::DraftNotFound(String::from_str(draft_id))),
        }
    }

    /// Records the progress of preparing draft `draft_id` (see [`progress_step`]).
    pub fn update_progress(
        &mut self,
        draft_id: &str,
        phase: ContextDraftPhase,
        completed_items: usize,
        total_items: usize,
    )
        requires
            old(self).wf(),
        ensures
            final(self).wf(),
            changes_draft(
                old(self).entries@,
                final(self).entries@,
                draft_id@,
                |e, n| progress_step(e, n, ContextDraftProgress { phase, completed_items, total_items }),
            ),
    {
        let progress = ContextDraftProgress { phase, completed_items, total_items };
        let ghost step = |e, n| progress_step(e, n, progress);
        let ghost before = self.entries@;
        match self.position_of_draft(draft_id) {
            Some(i) => {
                let preparing = match self.entries[i].state {
                    DraftEntryState::Preparing => true,
                    _ => false,
                };
                if preparing {
                    let mut e = self.entries.remove(i);
                    e.progress = progress;
                    self.entries.insert(i, e);
                    proof {
                        assert(self.entries@ =~= before.update(i as int, e));
                        lemma_update_one(before, i as int, e, draft_id@, step);
                    }
                } else {
                    proof {
                        lemma_update_one(before, i as int, before[i as int], draft_id@, step);
                        assert(before.update(i as int, before[i as int]) =~= before);
                    }
                }
            },
            None => {
                proof {
                    lemma_absent_unchanged(before, draft_id@, step);
                }
            },
        }
    }
}

/// The longest reason an invalidation records, in characters.
pub const DRAFT_INVALIDATION_REASON_MAX_CHARS: usize = 256;

impl ContextDraftStore {
    /// Fails every preparing or ready draft of a session whose lifecycle identity changed, as
    /// stale with the reason bounded to [`DRAFT_INVALIDATION_REASON_MAX_CHARS`] characters
    /// (see [`crate::store::invalidated_entry`]), then evicts oldest-first to the byte bound.
    /// Drafts being applied stay untouched. Returns how many drafts it failed.
    pub fn invalidate_session_drafts<S: Fn(&ContextDraftEntry) -> Option<usize>>(
        &mut self,
        session_id: &str,
        reason: &str,
        max_total_bytes: usize,
        sizer: &S,
    ) -> (count: usize)
        requires
            forall|e: &ContextDraftEntry| sizer.requires((e,)),
            old(self).wf(),
        ensures
            final(self).wf(),
            count == crate::store::live_in_session(old(self).entries@, session_id@),
            exists|invalidated: Seq<ContextDraftEntry>|
                {
                    &&& invalidated.len() == old(self).entries@.len()
                    &&& forall|i: int|
                        0 <= i < invalidated.len() ==> crate::store::invalidated_entry(
                            #[trigger] old(self).entries@[i],
                            invalidated[i],
                            session_id@,
                            crate::draft::bounded_metadata(
                                reason@,
                                DRAFT_INVALIDATION_REASON_MAX_CHARS as nat,
                            ),
                        )
                    &&& final(self).entries@ == crate::store::evicted_until(
                        invalidated,
                        invalidated.len(),
                        max_total_bytes as nat,
                        0,
                    )
                },
    {
        let bounded = crate::draft::bounded_context_metadata(reason, DRAFT_INVALIDATION_REASON_MAX_CHARS);
        let count = self.invalidate_session(session_id, bounded.as_str(), sizer);
        let ghost invalidated = self.entries@;
        self.enforce_total_bytes(max_total_bytes);
        count
    }
}

} // verus!
