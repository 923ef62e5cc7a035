//! The bounded store of context drafts: a lifecycle state machine whose byte and item bounds
//! never evict a draft that is still being generated or applied.

use vstd::prelude::*;

use crate::draft::ContextServiceLimits;
use crate::protocol::{ContextDraft, ContextDraftIdentity};
use crate::session::ContextServiceError;
use crate::text::{concat2, concat3, decimal, decimal_string, seq_lt, str_eq, str_lt};

verus! {

/// Least bytes reserved for a retained terminal draft status.
pub const TERMINAL_DRAFT_RESERVATION_FLOOR_BYTES: usize = 512;

/// Where a draft is in its lifecycle.
#[derive(Clone, Debug)]
pub enum DraftEntryState {
    Preparing,
    Ready(ContextDraft),
    Applying(ContextDraft),
    Applied { transaction_id: String, revision: u64 },
    Failed(ContextServiceError),
    Canceled,
    Expired,
}

/// The phase a draft's preparation is in.
#[derive(PartialEq, Eq, Structural, Clone, Copy, Debug)]
pub enum ContextDraftPhase {
    Capturing,
    PreparingArtifacts,
    ValidatingProjection,
    Ready,
}

/// How far a draft's preparation has come.
#[derive(PartialEq, Eq, Structural, Clone, Copy, Debug)]
pub struct ContextDraftProgress {
    pub phase: ContextDraftPhase,
    pub completed_items: usize,
    pub total_items: usize,
}

/// One retained draft.
#[derive(Clone, Debug)]
pub struct ContextDraftEntry {
    pub identity: ContextDraftIdentity,
    pub state: DraftEntryState,
    pub progress: ContextDraftProgress,
    /// Bytes the draft holds against the store's bound.
    pub reserved_bytes: usize,
    /// Whether curator generation for the draft is still running.
    pub generation_in_flight: bool,
    /// Whether the draft's generation has been asked to stop.
    pub cancel_requested: bool,
}

/// The retained drafts, ordered by draft ID, each ID at most once.
pub struct ContextDraftStore {
    pub entries: Vec<ContextDraftEntry>,
}

pub open spec fn is_terminal(s: DraftEntryState) -> bool {
    ||| s is Applied
    ||| s is Failed
    ||| s is Canceled
    ||| s is Expired
}

/// A draft may be evicted once it is terminal and no generation for it is running.
pub open spec fn evictable(e: ContextDraftEntry) -> bool {
    !e.generation_in_flight && is_terminal(e.state)
}

/// The IDs of entries, in order.
pub open spec fn entry_ids(s: Seq<ContextDraftEntry>) -> Seq<Seq<char>> {
    s.map_values(|e: ContextDraftEntry| e.identity.draft_id@)
}

/// The bytes all entries reserve.
pub open spec fn total_reserved(s: Seq<ContextDraftEntry>) -> nat
    decreases s.len(),
{
    if s.len() == 0 {
        0
    } else {
        total_reserved(s.drop_last()) + s.last().reserved_bytes as nat
    }
}

/// `n`, capped at `usize::MAX`.
pub open spec fn cap(n: nat) -> nat {
    if n <= usize::MAX {
        n
    } else {
        usize::MAX as nat
    }
}

/// Whether `new` keeps every entry of `old` that is not evictable, and holds only entries of
/// `old`, in their order.
pub open spec fn removes_only_evictable(old: Seq<ContextDraftEntry>, new: Seq<ContextDraftEntry>) -> bool {
    &&& forall|i: int| 0 <= i < old.len() && !evictable(#[trigger] old[i]) ==> new.contains(old[i])
    &&& forall|j: int| 0 <= j < new.len() ==> old.contains(#[trigger] new[j])
    &&& new.len() <= old.len()
}

/// Whether `k` is the evictable entry created first (the earliest in ID order among ties).
pub open spec fn oldest_evictable(s: Seq<ContextDraftEntry>, k: int) -> bool {
    &&& 0 <= k < s.len()
    &&& evictable(s[k])
    &&& forall|j: int|
        0 <= j < s.len() && evictable(#[trigger] s[j]) ==> s[k].identity.created_at
            <= s[j].identity.created_at
    &&& forall|j: int|
        0 <= j < k && evictable(#[trigger] s[j]) ==> s[k].identity.created_at
            < s[j].identity.created_at
}

/// The oldest evictable entry among the first `n` (the earliest in ID order among ties).
pub open spec fn oldest_in(s: Seq<ContextDraftEntry>, n: int) -> Option<int>
    decreases n,
{
    if n <= 0 {
        None
    } else {
        match oldest_in(s, n - 1) {
            None => if evictable(s[n - 1]) {
                Some(n - 1)
            } else {
                None
            },
            Some(k) => if evictable(s[n - 1]) && s[n - 1].identity.created_at
                < s[k].identity.created_at {
                Some(n - 1)
            } else {
                Some(k)
            },
        }
    }
}

pub proof fn lemma_oldest_in_bounds(s: Seq<ContextDraftEntry>, n: int)
    ensures
        oldest_in(s, n) matches Some(k) ==> 0 <= k < n,
    decreases n,
{
    if n > 0 {
        lemma_oldest_in_bounds(s, n - 1);
    }
}

/// Whether entries `s`, with `extra` more bytes, fit within `max_items` items and
/// `max_bytes` bytes (the byte sum saturating at `usize::MAX`).
pub open spec fn within_bounds(s: Seq<ContextDraftEntry>, max_items: nat, max_bytes: nat, extra: nat) -> bool {
    s.len() <= max_items && cap(cap(total_reserved(s)) + extra) <= max_bytes
}

/// `s` after evicting its oldest evictable entry, one at a time, until it fits the bounds or
/// nothing evictable is left.
pub open spec fn evicted_until(s: Seq<ContextDraftEntry>, max_items: nat, max_bytes: nat, extra: nat) -> Seq<
    ContextDraftEntry,
>
    decreases s.len(),
{
    if within_bounds(s, max_items, max_bytes, extra) {
        s
    } else {
        match oldest_in(s, s.len() as int) {
            Some(k) => {
                proof {
                    lemma_oldest_in_bounds(s, s.len() as int);
                }
                evicted_until(s.remove(k), max_items, max_bytes, extra)
            },
            None => s,
        }
    }
}

pub open spec fn has_evictable(s: Seq<ContextDraftEntry>) -> bool {
    exists|j: int| 0 <= j < s.len() && evictable(#[trigger] s[j])
}

/// The reservation of a terminal status of the given serialized size.
pub open spec fn terminal_reservation(serialized: Option<usize>) -> usize {
    let n = match serialized {
        Some(n) => n,
        None => usize::MAX,
    };
    if n < TERMINAL_DRAFT_RESERVATION_FLOOR_BYTES {
        TERMINAL_DRAFT_RESERVATION_FLOOR_BYTES
    } else {
        n
    }
}

proof fn lemma_total_skip(s: Seq<ContextDraftEntry>, k: int)
    requires
        0 <= k < s.len(),
    ensures
        total_reserved(s) == total_reserved(s.remove(k)) + s[k].reserved_bytes,
    decreases s.len(),
{
    if k == s.len() - 1 {
        assert(s.remove(k) =~= s.drop_last());
    } else {
        lemma_total_skip(s.drop_last(), k);
        assert(s.remove(k).drop_last() =~= s.drop_last().remove(k));
        assert(s.remove(k).last() == s.last());
    }
}

proof fn lemma_total_prefix(s: Seq<ContextDraftEntry>, i: int)
    requires
        0 <= i < s.len(),
    ensures
        total_reserved(s.take(i + 1)) == total_reserved(s.take(i)) + s[i].reserved_bytes,
{
    assert(s.take(i + 1).drop_last() =~= s.take(i));
}

impl ContextDraftStore {
    /// Entries ordered by strictly increasing draft ID.
    pub open spec fn wf(&self) -> bool {
        crate::text::strictly_sorted(entry_ids(self.entries@))
    }

    /// An empty store.
    pub fn new() -> (r: Self)
        ensures
            r.wf(),
            r.entries@.len() == 0,
    {
        ContextDraftStore { entries: Vec::new() }
    }

    /// The bytes all drafts reserve, saturating at `usize::MAX`.
    pub fn total_bytes(&self) -> (r: usize)
        ensures
            r == cap(total_reserved(self.entries@)),
    {
        let mut total: usize = 0;
        let mut i: usize = 0;
        while i < self.entries.len()
            invariant
                i <= self.entries@.len(),
                total == cap(total_reserved(self.entries@.take(i as int))),
            decreases self.entries.len() - i,
        {
            proof {
                lemma_total_prefix(self.entries@, i as int);
            }
            total = total.saturating_add(self.entries[i].reserved_bytes);
            i += 1;
        }
        proof {
            assert(self.entries@.take(self.entries@.len() as int) =~= self.entries@);
        }
        total
    }

    /// Evicts the oldest evictable draft, if there is one.
    pub fn evict_oldest_terminal(&mut self) -> (evicted: bool)
        requires
            old(self).wf(),
        ensures
            final(self).wf(),
            evicted == has_evictable(old(self).entries@),
            evicted ==> exists|k: int|
                oldest_evictable(old(self).entries@, k) && final(self).entries@ == old(
                    self,
                ).entries@.remove(k),
            !evicted ==> final(self).entries@ == old(self).entries@,
            match oldest_in(old(self).entries@, old(self).entries@.len() as int) {
                Some(k) => evicted && final(self).entries@ == old(self).entries@.remove(k),
                None => !evicted,
            },
    {
        let mut best: Option<usize> = None;
        let mut i: usize = 0;
        while i < self.entries.len()
            invariant
                i <= self.entries@.len(),
                match best {
                    Some(k) => k < i && evictable(self.entries@[k as int]) && (forall|j: int|
                        0 <= j < i && evictable(#[trigger] self.entries@[j])
                            ==> self.entries@[k as int].identity.created_at
                            <= self.entries@[j].identity.created_at) && (forall|j: int|
                        0 <= j < k && evictable(#[trigger] self.entries@[j])
                            ==> self.entries@[k as int].identity.created_at
                            < self.entries@[j].identity.created_at),
                    None => forall|j: int| 0 <= j < i ==> !evictable(#[trigger] self.entries@[j]),
                },
                match best {
                    Some(k) => oldest_in(self.entries@, i as int) == Some(k as int),
                    None => oldest_in(self.entries@, i as int) is None,
                },
            decreases self.entries.len() - i,
        {
            let e = &self.entries[i];
            let is_evictable = !e.generation_in_flight && match e.state {
                DraftEntryState::Applied { .. } => true,
                DraftEntryState::Failed(_) => true,
                DraftEntryState::Canceled => true,
                DraftEntryState::Expired => true,
                _ => false,
            };
            if is_evictable {
                match best {
                    Some(k) => {
                        if e.identity.created_at < self.entries[k].identity.created_at {
                            best = Some(i);
                        }
                    },
                    None => {
                        best = Some(i);
                    },
                }
            }
            i += 1;
        }
        match best {
            Some(k) => {
                let ghost before = self.entries@;
                self.entries.remove(k);
                proof {
                    assert(oldest_evictable(before, k as int));
                    lemma_remove_keeps_sorted(entry_ids(before), k as int);
                    assert(entry_ids(self.entries@) =~= entry_ids(before).remove(k as int));
                }
                true
            },
            None => false,
        }
    }

    /// Evicts oldest evictable drafts, one at a time, until at most `max_items` drafts and
    /// `max_total_bytes` bytes remain, or nothing more can be evicted (see [`evicted_until`]).
    pub fn evict_terminal_until(&mut self, max_items: usize, max_total_bytes: usize)
        requires
            old(self).wf(),
        ensures
            final(self).wf(),
            removes_only_evictable(old(self).entries@, final(self).entries@),
            (final(self).entries@.len() <= max_items && cap(total_reserved(final(self).entries@))
                <= max_total_bytes) || !has_evictable(final(self).entries@),
            final(self).entries@ == evicted_until(
                old(self).entries@,
                max_items as nat,
                max_total_bytes as nat,
                0,
            ),
    {
        let ghost start = self.entries@;
        proof {
            assert forall|j: int| 0 <= j < start.len() implies start.contains(#[trigger] start[j]) by {}
        }
        loop
            invariant
                self.wf(),
                start == old(self).entries@,
                removes_only_evictable(start, self.entries@),
                evicted_until(self.entries@, max_items as nat, max_total_bytes as nat, 0)
                    == evicted_until(start, max_items as nat, max_total_bytes as nat, 0),
            decreases self.entries@.len(),
        {
            let total = self.total_bytes();
            if !(self.entries.len() > max_items || total > max_total_bytes) {
                return;
            }
            let ghost before = self.entries@;
            if !self.evict_oldest_terminal() {
                return;
            }
            proof {
                lemma_remove_evictable_step(start, before, self.entries@);
            }
        }
    }

    /// Evicts oldest evictable drafts, one at a time, until at most `max_total_bytes` bytes
    /// remain, or nothing more can be evicted (see [`evicted_until`]).
    pub fn enforce_total_bytes(&mut self, max_total_bytes: usize)
        requires
            old(self).wf(),
        ensures
            final(self).wf(),
            removes_only_evictable(old(self).entries@, final(self).entries@),
            cap(total_reserved(final(self).entries@)) <= max_total_bytes || !has_evictable(
                final(self).entries@,
            ),
            final(self).entries@ == evicted_until(
                old(self).entries@,
                old(self).entries@.len(),
                max_total_bytes as nat,
                0,
            ),
    {
        let ghost start = self.entries@;
        proof {
            assert forall|j: int| 0 <= j < start.len() implies start.contains(#[trigger] start[j]) by {}
        }
        loop
            invariant
                self.wf(),
                start == old(self).entries@,
                removes_only_evictable(start, self.entries@),
                evicted_until(self.entries@, start.len(), max_total_bytes as nat, 0)
                    == evicted_until(start, start.len(), max_total_bytes as nat, 0),
            decreases self.entries@.len(),
        {
            if self.total_bytes() <= max_total_bytes {
                return;
            }
            let ghost before = self.entries@;
            if !self.evict_oldest_terminal() {
                return;
            }
            proof {
                lemma_remove_evictable_step(start, before, self.entries@);
            }
        }
    }
}

proof fn lemma_remove_keeps_sorted(s: Seq<Seq<char>>, k: int)
    requires
        crate::text::strictly_sorted(s),
        0 <= k < s.len(),
    ensures
        crate::text::strictly_sorted(s.remove(k)),
{
    let r = s.remove(k);
    assert forall|i: int, j: int| 0 <= i < j < r.len() implies seq_lt(#[trigger] r[i], #[trigger] r[j]) by {
        let oi = if i < k { i } else { i + 1 };
        let oj = if j < k { j } else { j + 1 };
        assert(r[i] == s[oi]);
        assert(r[j] == s[oj]);
    }
}

proof fn lemma_remove_evictable_step(
    start: Seq<ContextDraftEntry>,
    before: Seq<ContextDraftEntry>,
    after: Seq<ContextDraftEntry>,
)
    requires
        removes_only_evictable(start, before),
        exists|k: int| oldest_evictable(before, k) && after == before.remove(k),
    ensures
        removes_only_evictable(start, after),
        after.len() < before.len(),
{
    let k = choose|k: int| oldest_evictable(before, k) && after == before.remove(k);
    assert forall|i: int| 0 <= i < start.len() && !evictable(#[trigger] start[i]) implies after.contains(
        start[i],
    ) by {
        let w = choose|w: int| 0 <= w < before.len() && before[w] == start[i];
        assert(w != k);
        if w < k {
            assert(after[w] == start[i]);
        } else {
            assert(after[w - 1] == start[i]);
        }
    }
    assert forall|j: int| 0 <= j < after.len() implies start.contains(#[trigger] after[j]) by {
        let oj = if j < k { j } else { j + 1 };
        assert(after[j] == before[oj]);
        assert(before.contains(before[oj]));
    }
}

/// Whether `new` is `old` after expiry at `now`: an expired draft that was preparing becomes
/// expired and is asked to stop; an expired ready draft becomes expired and reserves its
/// terminal status; everything else is untouched.
pub open spec fn expired_entry(old: ContextDraftEntry, new: ContextDraftEntry, now: i64) -> bool {
    &&& new.identity == old.identity
    &&& new.progress == old.progress
    &&& new.generation_in_flight == old.generation_in_flight
    &&& if now >= old.identity.expires_at && old.state is Preparing {
        &&& new.state is Expired
        &&& new.cancel_requested
        &&& new.reserved_bytes == old.reserved_bytes
    } else if now >= old.identity.expires_at && old.state is Ready {
        &&& new.state is Expired
        &&& new.cancel_requested == old.cancel_requested
        &&& new.reserved_bytes >= TERMINAL_DRAFT_RESERVATION_FLOOR_BYTES
    } else {
        new == old
    }
}

/// Whether `new` is `old` after invalidating `session`: a preparing or ready draft of that
/// session fails as stale with the reason (a preparing one is asked to stop, a ready one
/// reserves its terminal status); everything else is untouched.
pub open spec fn invalidated_entry(
    old: ContextDraftEntry,
    new: ContextDraftEntry,
    session: Seq<char>,
    reason: Seq<char>,
) -> bool {
    &&& new.identity == old.identity
    &&& new.progress == old.progress
    &&& new.generation_in_flight == old.generation_in_flight
    &&& if old.identity.session_id@ == session && old.state is Preparing {
        &&& new.state matches DraftEntryState::Failed(e) && e@
            == crate::session::ServiceErrorModel::Stale(reason)
        &&& new.cancel_requested
        &&& new.reserved_bytes == old.reserved_bytes
    } else if old.identity.session_id@ == session && old.state is Ready {
        &&& new.state matches DraftEntryState::Failed(e) && e@
            == crate::session::ServiceErrorModel::Stale(reason)
        &&& new.cancel_requested == old.cancel_requested
        &&& new.reserved_bytes >= TERMINAL_DRAFT_RESERVATION_FLOOR_BYTES
    } else {
        new == old
    }
}

/// How many drafts of a session are still preparing or ready.
pub open spec fn live_in_session(s: Seq<ContextDraftEntry>, session: Seq<char>) -> nat
    decreases s.len(),
{
    if s.len() == 0 {
        0
    } else {
        live_in_session(s.drop_last(), session) + if s.last().identity.session_id@ == session && (
        s.last().state is Preparing || s.last().state is Ready) {
            1nat
        } else {
            0nat
        }
    }
}

/// Whether `reserved` is the terminal reservation of a size `sizer` gives for `measured`.
pub open spec fn sized_reservation<S: Fn(&ContextDraftEntry) -> Option<usize>>(
    sizer: S,
    measured: ContextDraftEntry,
    reserved: usize,
) -> bool {
    exists|size: Option<usize>| sizer.ensures((&measured,), size) && reserved == terminal_reservation(size)
}

/// Reserves the size `sizer` measures for the entry's terminal status, at least the floor
/// (`usize::MAX` when it cannot be measured).
pub(crate) fn reserve_terminal<S: Fn(&ContextDraftEntry) -> Option<usize>>(entry: &mut ContextDraftEntry, sizer: &S)
    requires
        forall|e: &ContextDraftEntry| sizer.requires((e,)),
    ensures
        final(entry).identity == old(entry).identity,
        final(entry).progress == old(entry).progress,
        final(entry).state == old(entry).state,
        final(entry).generation_in_flight == old(entry).generation_in_flight,
        final(entry).cancel_requested == old(entry).cancel_requested,
        final(entry).reserved_bytes >= TERMINAL_DRAFT_RESERVATION_FLOOR_BYTES,
        sized_reservation(*sizer, *old(entry), final(entry).reserved_bytes),
{
    let size = sizer(&*entry);
    entry.refresh_terminal_reservation(size);
}

impl ContextDraftEntry {
    /// Whether the draft may be evicted: terminal, with no generation running.
    pub fn is_evictable(&self) -> (r: bool)
        ensures
            r == evictable(*self),
    {
        !self.generation_in_flight && match self.state {
            DraftEntryState::Applied { .. } => true,
            DraftEntryState::Failed(_) => true,
            DraftEntryState::Canceled => true,
            DraftEntryState::Expired => true,
            _ => false,
        }
    }

    /// Reserves the serialized size of the draft's terminal status, at least the floor.
    pub fn refresh_terminal_reservation(&mut self, serialized_status_bytes: Option<usize>)
        ensures
            final(self).reserved_bytes == terminal_reservation(serialized_status_bytes),
            final(self).identity == old(self).identity,
            final(self).progress == old(self).progress,
            final(self).state == old(self).state,
            final(self).generation_in_flight == old(self).generation_in_flight,
            final(self).cancel_requested == old(self).cancel_requested,
    {
        let n = match serialized_status_bytes {
            Some(n) => n,
            None => usize::MAX,
        };
        self.reserved_bytes = if n < TERMINAL_DRAFT_RESERVATION_FLOOR_BYTES {
            TERMINAL_DRAFT_RESERVATION_FLOOR_BYTES
        } else {
            n
        };
    }
}

impl ContextDraftStore {
    /// Expires every draft whose expiry has passed at `now` (see [`expired_entry`]); drafts
    /// being applied, and terminal ones, never change.
    pub fn expire_entries<S: Fn(&ContextDraftEntry) -> Option<usize>>(&mut self, now: i64, sizer: &S)
        requires
            forall|e: &ContextDraftEntry| sizer.requires((e,)),
            old(self).wf(),
        ensures
            final(self).wf(),
            final(self).entries@.len() == old(self).entries@.len(),
            forall|i: int|
                0 <= i < old(self).entries@.len() ==> expired_entry(
                    #[trigger] old(self).entries@[i],
                    final(self).entries@[i],
                    now,
                ),
            forall|i: int|
                0 <= i < old(self).entries@.len() && now >= old(self).entries@[i].identity.expires_at
                    && old(self).entries@[i].state is Ready ==> sized_reservation(
                    *sizer,
                    ContextDraftEntry { state: DraftEntryState::Expired, ..old(self).entries@[i] },
                    #[trigger] final(self).entries@[i].reserved_bytes,
                ),
    {
        let ghost start = self.entries@;
        let mut i: usize = 0;
        while i < self.entries.len()
            invariant
                i <= self.entries@.len(),
                self.entries@.len() == start.len(),
                start == old(self).entries@,
                forall|e: &ContextDraftEntry| sizer.requires((e,)),
                forall|k: int| 0 <= k < i ==> expired_entry(#[trigger] start[k], self.entries@[k], now),
                forall|k: int|
                    0 <= k < i && now >= start[k].identity.expires_at && start[k].state is Ready
                        ==> sized_reservation(
                        *sizer,
                        ContextDraftEntry { state: DraftEntryState::Expired, ..start[k] },
                        #[trigger] self.entries@[k].reserved_bytes,
                    ),
                forall|k: int| i <= k < start.len() ==> #[trigger] self.entries@[k] == start[k],
            decreases self.entries.len() - i,
        {
            let due = now >= self.entries[i].identity.expires_at;
            let preparing = match self.entries[i].state {
                DraftEntryState::Preparing => true,
                _ => false,
            };
            let ready = match self.entries[i].state {
                DraftEntryState::Ready(_) => true,
                _ => false,
            };
            if due && (preparing || ready) {
                let ghost before = self.entries@;
                let mut e = self.entries.remove(i);
                e.state = DraftEntryState::Expired;
                if preparing {
                    e.cancel_requested = true;
                } else {
                    reserve_terminal(&mut e, sizer);
                }
                self.entries.insert(i, e);
                proof {
                    assert(self.entries@ =~= before.update(i as int, self.entries@[i as int]));
                }
            }
            i += 1;
        }
        proof {
            assert(entry_ids(self.entries@) =~= entry_ids(start));
        }
    }

    /// Fails every preparing or ready draft of a session as stale (see [`invalidated_entry`]),
    /// returning how many; drafts being applied, terminal drafts and other sessions' drafts
    /// never change.
    pub fn invalidate_session<S: Fn(&ContextDraftEntry) -> Option<usize>>(
        &mut self,
        session_id: &str,
        reason: &str,
        sizer: &S,
    ) -> (count: usize)
        requires
            forall|e: &ContextDraftEntry| sizer.requires((e,)),
            old(self).wf(),
        ensures
            final(self).wf(),
            final(self).entries@.len() == old(self).entries@.len(),
            forall|i: int|
                0 <= i < old(self).entries@.len() ==> invalidated_entry(
                    #[trigger] old(self).entries@[i],
                    final(self).entries@[i],
                    session_id@,
                    reason@,
                ),
            count == live_in_session(old(self).entries@, session_id@),
    {
        let ghost start = self.entries@;
        let mut count: usize = 0;
        let mut i: usize = 0;
        while i < self.entries.len()
            invariant
                i <= self.entries@.len(),
                self.entries@.len() == start.len(),
                start == old(self).entries@,
                count == live_in_session(start.take(i as int), session_id@),
                forall|e: &ContextDraftEntry| sizer.requires((e,)),
                forall|k: int|
                    0 <= k < i ==> invalidated_entry(
                        #[trigger] start[k],
                        self.entries@[k],
                        session_id@,
                        reason@,
                    ),
                forall|k: int| i <= k < start.len() ==> #[trigger] self.entries@[k] == start[k],
            decreases self.entries.len() - i,
        {
            proof {
                assert(start.take(i + 1).drop_last() =~= start.take(i as int));
                lemma_live_bounded(start.take(i as int), session_id@);
            }
            let same = str_eq(self.entries[i].identity.session_id.as_str(), session_id);
            let preparing = match self.entries[i].state {
                DraftEntryState::Preparing => true,
                _ => false,
            };
            let ready = match self.entries[i].state {
                DraftEntryState::Ready(_) => true,
                _ => false,
            };
            if same && (preparing || ready) {
                let ghost before = self.entries@;
                let mut e = self.entries.remove(i);
                e.state = DraftEntryState::Failed(
                    ContextServiceError::Stale(String::from_str(reason)),
                );
                if preparing {
                    e.cancel_requested = true;
                } else {
                    reserve_terminal(&mut e, sizer);
                }
                self.entries.insert(i, e);
                count = count + 1;
                proof {
                    assert(self.entries@ =~= before.update(i as int, self.entries@[i as int]));
                }
            }
            i += 1;
        }
        proof {
            assert(start.take(start.len() as int) =~= start);
            assert(entry_ids(self.entries@) =~= entry_ids(start));
        }
        count
    }
}

proof fn lemma_live_bounded(s: Seq<ContextDraftEntry>, session: Seq<char>)
    ensures
        live_in_session(s, session) <= s.len(),
    decreases s.len(),
{
    if s.len() > 0 {
        lemma_live_bounded(s.drop_last(), session);
    }
}

/// Whether an entry is protected from eviction: generation still runs, or it is being applied.
pub open spec fn protected(e: ContextDraftEntry) -> bool {
    e.generation_in_flight || e.state is Applying
}

proof fn lemma_insert_keeps_sorted(s: Seq<Seq<char>>, p: int, x: Seq<char>)
    requires
        crate::text::strictly_sorted(s),
        0 <= p <= s.len(),
        forall|k: int| 0 <= k < p ==> seq_lt(#[trigger] s[k], x),
        forall|k: int| p <= k < s.len() ==> seq_lt(x, #[trigger] s[k]),
    ensures
        crate::text::strictly_sorted(s.insert(p, x)),
{
    let r = s.insert(p, x);
    assert forall|i: int, j: int| 0 <= i < j < r.len() implies seq_lt(#[trigger] r[i], #[trigger] r[j]) by {
        if i < p && j < p {
            assert(r[i] == s[i] && r[j] == s[j]);
        } else if i < p && j == p {
            assert(r[i] == s[i]);
        } else if i < p {
            assert(r[i] == s[i] && r[j] == s[j - 1]);
            crate::text::lemma_lt_transitive(s[i], x, s[j - 1]);
        } else if i == p {
            assert(r[j] == s[j - 1]);
        } else {
            assert(r[i] == s[i - 1] && r[j] == s[j - 1]);
        }
    }
}

proof fn lemma_replace_keeps_sorted(s: Seq<Seq<char>>, p: int, x: Seq<char>)
    requires
        crate::text::strictly_sorted(s),
        0 <= p < s.len(),
        s[p] == x,
    ensures
        s.update(p, x) == s,
{
    assert(s.update(p, x) =~= s);
}

proof fn lemma_protected_survive(
    old: Seq<ContextDraftEntry>,
    mid: Seq<ContextDraftEntry>,
    now: i64,
)
    requires
        old.len() == mid.len(),
        forall|i: int| 0 <= i < old.len() ==> expired_entry(#[trigger] old[i], mid[i], now),
    ensures
        forall|i: int| 0 <= i < old.len() && protected(#[trigger] old[i]) ==> protected(mid[i])
            && mid[i].identity == old[i].identity,
{
    assert forall|i: int| 0 <= i < old.len() && protected(#[trigger] old[i]) implies protected(mid[i])
        && mid[i].identity == old[i].identity by {
        assert(expired_entry(old[i], mid[i], now));
    }
}

proof fn lemma_protected_ids(
    start: Seq<ContextDraftEntry>,
    expired: Seq<ContextDraftEntry>,
    cur: Seq<ContextDraftEntry>,
)
    requires
        start.len() == expired.len(),
        forall|i: int|
            0 <= i < start.len() && protected(#[trigger] start[i]) ==> cur.contains(expired[i])
                && expired[i].identity == start[i].identity,
    ensures
        forall|i: int|
            0 <= i < start.len() && protected(#[trigger] start[i]) ==> entry_ids(cur).contains(
                start[i].identity.draft_id@,
            ),
{
    assert forall|i: int| 0 <= i < start.len() && protected(#[trigger] start[i]) implies entry_ids(
        cur,
    ).contains(start[i].identity.draft_id@) by {
        let w = choose|w: int| 0 <= w < cur.len() && cur[w] == expired[i];
        assert(entry_ids(cur)[w] == start[i].identity.draft_id@);
    }
}

/// Whether `r` is `s` with `e` placed under its draft ID: a retained draft with that ID is
/// replaced, every other draft stays, and nothing else is added.
pub open spec fn placed(s: Seq<ContextDraftEntry>, e: ContextDraftEntry, r: Seq<ContextDraftEntry>) -> bool {
    &&& r.contains(e)
    &&& forall|j: int|
        0 <= j < s.len() && (#[trigger] s[j]).identity.draft_id@ != e.identity.draft_id@
            ==> r.contains(s[j])
    &&& forall|j: int| 0 <= j < r.len() ==> #[trigger] r[j] == e || s.contains(r[j])
    &&& r.len() == s.len() + if entry_ids(s).contains(e.identity.draft_id@) {
        0int
    } else {
        1int
    }
}

/// One less than `n`, but not below zero.
pub open spec fn one_less(n: usize) -> nat {
    if n == 0 {
        0
    } else {
        (n - 1) as nat
    }
}

/// What admitting `e` does to the drafts `expired` (the store after expiry): oldest evictable
/// drafts are evicted to leave room for one more draft within the byte bound; refused when
/// the store is still full or the draft alone exceeds the byte bound (nothing more changes),
/// then oldest evictable drafts are evicted until the draft's bytes fit too; refused when they
/// cannot, else the draft is placed. `ok` says whether it was admitted, `r` what remains.
pub open spec fn admission(
    expired: Seq<ContextDraftEntry>,
    e: ContextDraftEntry,
    limits: ContextServiceLimits,
    ok: bool,
    r: Seq<ContextDraftEntry>,
) -> bool {
    let room = evicted_until(
        expired,
        one_less(limits.max_drafts),
        limits.max_total_bytes as nat,
        0,
    );
    if room.len() >= limits.max_drafts || e.reserved_bytes > limits.max_total_bytes {
        !ok && r == room
    } else {
        let fitted = evicted_until(
            room,
            room.len(),
            limits.max_total_bytes as nat,
            e.reserved_bytes as nat,
        );
        if within_bounds(fitted, room.len(), limits.max_total_bytes as nat, e.reserved_bytes as nat) {
            ok && placed(fitted, e, r)
        } else {
            !ok && r == fitted
        }
    }
}

/// Whether every protected draft of `start` (generating or being applied) is kept, by ID, in
/// `cur`, where `expired` is `start` after expiry.
spec fn protected_kept(
    start: Seq<ContextDraftEntry>,
    expired: Seq<ContextDraftEntry>,
    cur: Seq<ContextDraftEntry>,
) -> bool {
    forall|i: int|
        0 <= i < start.len() && protected(#[trigger] start[i]) ==> cur.contains(expired[i])
            && expired[i].identity == start[i].identity
}

proof fn lemma_protected_kept_step(
    start: Seq<ContextDraftEntry>,
    expired: Seq<ContextDraftEntry>,
    before: Seq<ContextDraftEntry>,
    after: Seq<ContextDraftEntry>,
)
    requires
        start.len() == expired.len(),
        protected_kept(start, expired, before),
        forall|i: int| 0 <= i < start.len() && protected(#[trigger] start[i]) ==> protected(expired[i]),
        removes_only_evictable(before, after),
    ensures
        protected_kept(start, expired, after),
{
    assert forall|i: int| 0 <= i < start.len() && protected(#[trigger] start[i]) implies after.contains(
        expired[i],
    ) && expired[i].identity == start[i].identity by {
        let w = choose|w: int| 0 <= w < before.len() && before[w] == expired[i];
        assert(!evictable(before[w]));
    }
}

impl ContextDraftStore {
    /// Evicts oldest evictable drafts, one at a time, until `extra` more bytes fit within
    /// `max_total_bytes`; returns whether they fit (see [`evicted_until`]).
    fn evict_for_extra(&mut self, extra: usize, max_total_bytes: usize) -> (fits: bool)
        requires
            old(self).wf(),
        ensures
            final(self).wf(),
            removes_only_evictable(old(self).entries@, final(self).entries@),
            final(self).entries@ == evicted_until(
                old(self).entries@,
                old(self).entries@.len(),
                max_total_bytes as nat,
                extra as nat,
            ),
            fits == within_bounds(
                final(self).entries@,
                old(self).entries@.len(),
                max_total_bytes as nat,
                extra as nat,
            ),
    {
        let ghost start = self.entries@;
        proof {
            assert forall|j: int| 0 <= j < start.len() implies start.contains(#[trigger] start[j]) by {}
        }
        loop
            invariant
                self.wf(),
                start == old(self).entries@,
                removes_only_evictable(start, self.entries@),
                evicted_until(self.entries@, start.len(), max_total_bytes as nat, extra as nat)
                    == evicted_until(start, start.len(), max_total_bytes as nat, extra as nat),
            decreases self.entries@.len(),
        {
            let total = self.total_bytes();
            if total.saturating_add(extra) <= max_total_bytes {
                return true;
            }
            let ghost before = self.entries@;
            if !self.evict_oldest_terminal() {
                return false;
            }
            proof {
                lemma_remove_evictable_step(start, before, self.entries@);
            }
        }
    }

    /// Places `entry` under its draft ID, replacing a draft with the same ID.
    fn place_entry(&mut self, entry: ContextDraftEntry)
        requires
            old(self).wf(),
        ensures
            final(self).wf(),
            placed(old(self).entries@, entry, final(self).entries@),
            total_reserved(final(self).entries@) <= total_reserved(old(self).entries@)
                + entry.reserved_bytes,
    {
        let ghost before = self.entries@;
        let mut p: usize = 0;
        while p < self.entries.len() && str_lt(
            self.entries[p].identity.draft_id.as_str(),
            entry.identity.draft_id.as_str(),
        )
            invariant
                p <= self.entries@.len(),
                self.entries@ == before,
                forall|k: int| 0 <= k < p ==> seq_lt(#[trigger] entry_ids(before)[k], entry.identity.draft_id@),
            decreases self.entries.len() - p,
        {
            p += 1;
        }
        let replace = p < self.entries.len() && str_eq(
            self.entries[p].identity.draft_id.as_str(),
            entry.identity.draft_id.as_str(),
        );
        let ghost ids = entry_ids(before);
        let ghost x = entry.identity.draft_id@;
        proof {
            assert forall|k: int| p <= k < ids.len() && !replace implies seq_lt(x, #[trigger] ids[k]) by {
                if k == p {
                    if x != ids[k] {
                        crate::text::lemma_lt_total(x, ids[k]);
                    }
                } else {
                    if x != ids[p as int] {
                        crate::text::lemma_lt_total(x, ids[p as int]);
                    }
                    crate::text::lemma_lt_transitive(x, ids[p as int], ids[k]);
                }
            }
        }
        if replace {
            self.entries.remove(p);
            self.entries.insert(p, entry);
            proof {
                assert(self.entries@ =~= before.update(p as int, entry));
                assert(entry_ids(self.entries@) =~= ids.update(p as int, x));
                lemma_replace_keeps_sorted(ids, p as int, x);
                lemma_total_skip(before, p as int);
                lemma_total_skip(self.entries@, p as int);
                assert(self.entries@.remove(p as int) =~= before.remove(p as int));
                assert(self.entries@[p as int] == entry);
                assert(ids[p as int] == x);
                assert forall|j: int|
                    0 <= j < before.len() && (#[trigger] before[j]).identity.draft_id@ != x implies self.entries@.contains(
                    before[j],
                ) by {
                    assert(j != p);
                    assert(self.entries@[j] == before[j]);
                }
                assert forall|j: int| 0 <= j < self.entries@.len() implies #[trigger] self.entries@[j]
                    == entry || before.contains(self.entries@[j]) by {
                    if j != p {
                        assert(self.entries@[j] == before[j]);
                    }
                }
                assert(ids.contains(x));
            }
        } else {
            self.entries.insert(p, entry);
            proof {
                assert(entry_ids(self.entries@) =~= ids.insert(p as int, x));
                lemma_insert_keeps_sorted(ids, p as int, x);
                assert(self.entries@.remove(p as int) =~= before);
                lemma_total_skip(self.entries@, p as int);
                assert(self.entries@[p as int] == entry);
                assert forall|j: int|
                    0 <= j < before.len() && (#[trigger] before[j]).identity.draft_id@ != x implies self.entries@.contains(
                    before[j],
                ) by {
                    if j < p {
                        assert(self.entries@[j] == before[j]);
                    } else {
                        assert(self.entries@[j + 1] == before[j]);
                    }
                }
                assert forall|j: int| 0 <= j < self.entries@.len() implies #[trigger] self.entries@[j]
                    == entry || before.contains(self.entries@[j]) by {
                    if j < p {
                        assert(self.entries@[j] == before[j]);
                    } else if j > p {
                        assert(self.entries@[j] == before[j - 1]);
                    }
                }
                assert(!ids.contains(x)) by {
                    if ids.contains(x) {
                        let k = choose|k: int| 0 <= k < ids.len() && ids[k] == x;
                        if k < p {
                            crate::text::lemma_lt_irreflexive(x);
                        } else {
                            crate::text::lemma_lt_irreflexive(x);
                        }
                    }
                }
            }
        }
    }

    /// Admits a new preparing draft. Expired drafts are expired first, then oldest evictable
    /// drafts are evicted to make room for one more item and for the draft's bytes. A full
    /// store, a draft larger than the whole byte bound, or bytes that no eviction can free are
    /// refused (see [`admission`]). Drafts whose generation is running, or that are being
    /// applied, are never evicted; a retained draft with the same ID is replaced.
    pub fn insert_preparing<S: Fn(&ContextDraftEntry) -> Option<usize>>(
        &mut self,
        entry: ContextDraftEntry,
        limits: ContextServiceLimits,
        now: i64,
        sizer: &S,
    ) -> (r: Result<(), ContextServiceError>)
        requires
            forall|e: &ContextDraftEntry| sizer.requires((e,)),
            old(self).wf(),
        ensures
            final(self).wf(),
            forall|i: int|
                0 <= i < old(self).entries@.len() && protected(#[trigger] old(self).entries@[i])
                    ==> entry_ids(final(self).entries@).contains(old(self).entries@[i].identity.draft_id@),
            match r {
                Ok(()) => {
                    &&& final(self).entries@.contains(entry)
                    &&& final(self).entries@.len() <= limits.max_drafts
                    &&& cap(total_reserved(final(self).entries@)) <= limits.max_total_bytes
                },
                Err(e) => {
                    &&& e is Capacity
                    &&& final(self).entries@.len() <= old(self).entries@.len()
                },
            },
            exists|expired: Seq<ContextDraftEntry>|
                crate::lifecycle::expired_at(old(self).entries@, expired, now) && #[trigger] admission(
                    expired,
                    entry,
                    limits,
                    r is Ok,
                    final(self).entries@,
                ),
    {
        let ghost start = self.entries@;
        self.expire_entries(now, sizer);
        let ghost expired = self.entries@;
        proof {
            lemma_protected_survive(start, expired, now);
            assert forall|j: int| 0 <= j < expired.len() implies expired.contains(#[trigger] expired[j]) by {}
            assert(protected_kept(start, expired, expired));
            assert(crate::lifecycle::expired_at(start, expired, now));
        }
        self.evict_terminal_until(limits.max_drafts.saturating_sub(1), limits.max_total_bytes);
        let ghost room = self.entries@;
        proof {
            lemma_protected_kept_step(start, expired, expired, room);
            lemma_protected_ids(start, expired, room);
            assert(room == evicted_until(
                expired,
                one_less(limits.max_drafts),
                limits.max_total_bytes as nat,
                0,
            ));
        }
        if self.entries.len() >= limits.max_drafts {
            let m = concat2(
                decimal_string(self.entries.len() as u64).as_str(),
                " drafts are already retained",
            );
            assert(admission(expired, entry, limits, false, self.entries@));
            return Err(ContextServiceError::Capacity(m));
        }
        if entry.reserved_bytes > limits.max_total_bytes {
            let mut m = concat3(
                "captured draft requires ",
                decimal_string(entry.reserved_bytes as u64).as_str(),
                " bytes, exceeding the ",
            );
            m.append(decimal_string(limits.max_total_bytes as u64).as_str());
            m.append("-byte store bound");
            assert(admission(expired, entry, limits, false, self.entries@));
            return Err(ContextServiceError::Capacity(m));
        }
        let fits = self.evict_for_extra(entry.reserved_bytes, limits.max_total_bytes);
        let ghost fitted = self.entries@;
        proof {
            lemma_protected_kept_step(start, expired, room, fitted);
            lemma_protected_ids(start, expired, fitted);
        }
        if !fits {
            let total = self.total_bytes();
            let mut m = concat2(
                "captured drafts require ",
                decimal_string(total.saturating_add(entry.reserved_bytes) as u64).as_str(),
            );
            m.append(" bytes and no terminal draft can be evicted");
            assert(admission(expired, entry, limits, false, self.entries@));
            return Err(ContextServiceError::Capacity(m));
        }
        proof {
            lemma_total_bound_holds(fitted, entry.reserved_bytes as nat, limits.max_total_bytes as nat);
        }
        self.place_entry(entry);
        proof {
            assert(admission(expired, entry, limits, true, self.entries@));
            assert forall|i: int| 0 <= i < start.len() && protected(#[trigger] start[i]) implies entry_ids(
                self.entries@,
            ).contains(start[i].identity.draft_id@) by {
                let w = choose|w: int| 0 <= w < fitted.len() && fitted[w] == expired[i];
                if fitted[w].identity.draft_id@ != entry.identity.draft_id@ {
                    assert(self.entries@.contains(fitted[w]));
                    let v = choose|v: int| 0 <= v < self.entries@.len() && self.entries@[v] == fitted[w];
                    assert(entry_ids(self.entries@)[v] == start[i].identity.draft_id@);
                } else {
                    let v = choose|v: int| 0 <= v < self.entries@.len() && self.entries@[v] == entry;
                    assert(entry_ids(self.entries@)[v] == start[i].identity.draft_id@);
                }
            }
        }
        Ok(())
    }
}

proof fn lemma_total_bound_holds(s: Seq<ContextDraftEntry>, extra: nat, max: nat)
    requires
        max <= usize::MAX,
        cap(cap(total_reserved(s)) + extra) <= max,
    ensures
        cap(total_reserved(s) + extra) <= max,
{
}

} // verus!
