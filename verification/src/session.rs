//! The persisted context-view state of a session: transactions, their operations and status
//! history, the emergency policy, and the errors of the transaction service.

use vstd::prelude::*;

use crate::curator::StoredContextArtifactGenerator;
use crate::evidence::extract::{copy_evidence, same_evidence, FileEvidence};
use crate::model::StoredMessage;

verus! {

/// Why a context-transaction request was refused.
#[derive(Clone, Debug)]
pub enum ContextServiceError {
    SessionBusy,
    EmptyRequest,
    RevisionOverflow,
    InvalidSelection(String),
    Stale(String),
    Conflict(String),
    Capacity(String),
    Curator(String),
    Projection(String),
    ProviderValidation(String),
    Persistence(String),
    Runtime(String),
    DraftNotFound(String),
    DraftNotReady(String),
    DraftAlreadyApplied(String),
    DraftCanceled(String),
    DraftExpired(String),
    TransactionNotFound(String),
    TransactionNotActive(String),
    TransactionAlreadyActive(String),
}

/// The meaning of a [`ContextServiceError`], its explanation as characters.
pub enum ServiceErrorModel {
    SessionBusy,
    EmptyRequest,
    RevisionOverflow,
    InvalidSelection(Seq<char>),
    Stale(Seq<char>),
    Conflict(Seq<char>),
    Capacity(Seq<char>),
    Curator(Seq<char>),
    Projection(Seq<char>),
    ProviderValidation(Seq<char>),
    Persistence(Seq<char>),
    Runtime(Seq<char>),
    DraftNotFound(Seq<char>),
    DraftNotReady(Seq<char>),
    DraftAlreadyApplied(Seq<char>),
    DraftCanceled(Seq<char>),
    DraftExpired(Seq<char>),
    TransactionNotFound(Seq<char>),
    TransactionNotActive(Seq<char>),
    TransactionAlreadyActive(Seq<char>),
}

impl View for ContextServiceError {
    type V = ServiceErrorModel;

    open spec fn view(&self) -> ServiceErrorModel {
        match self {
            ContextServiceError::SessionBusy => ServiceErrorModel::SessionBusy,
            ContextServiceError::EmptyRequest => ServiceErrorModel::EmptyRequest,
            ContextServiceError::RevisionOverflow => ServiceErrorModel::RevisionOverflow,
            ContextServiceError::InvalidSelection(m) => ServiceErrorModel::InvalidSelection(m@),
            ContextServiceError::Stale(m) => ServiceErrorModel::Stale(m@),
            ContextServiceError::Conflict(m) => ServiceErrorModel::Conflict(m@),
            ContextServiceError::Capacity(m) => ServiceErrorModel::Capacity(m@),
            ContextServiceError::Curator(m) => ServiceErrorModel::Curator(m@),
            ContextServiceError::Projection(m) => ServiceErrorModel::Projection(m@),
            ContextServiceError::ProviderValidation(m) => ServiceErrorModel::ProviderValidation(m@),
            ContextServiceError::Persistence(m) => ServiceErrorModel::Persistence(m@),
            ContextServiceError::Runtime(m) => ServiceErrorModel::Runtime(m@),
            ContextServiceError::DraftNotFound(m) => ServiceErrorModel::DraftNotFound(m@),
            ContextServiceError::DraftNotReady(m) => ServiceErrorModel::DraftNotReady(m@),
            ContextServiceError::DraftAlreadyApplied(m) => ServiceErrorModel::DraftAlreadyApplied(m@),
            ContextServiceError::DraftCanceled(m) => ServiceErrorModel::DraftCanceled(m@),
            ContextServiceError::DraftExpired(m) => ServiceErrorModel::DraftExpired(m@),
            ContextServiceError::TransactionNotFound(m) => ServiceErrorModel::TransactionNotFound(m@),
            ContextServiceError::TransactionNotActive(m) => ServiceErrorModel::TransactionNotActive(m@),
            ContextServiceError::TransactionAlreadyActive(m) => ServiceErrorModel::TransactionAlreadyActive(m@),
        }
    }
}

/// The kind of a transaction status event.
#[derive(PartialEq, Eq, Structural, Clone, Copy, Debug)]
pub enum StoredContextTransactionStatusKind {
    Applied,
    Reverted,
    Reapplied,
    InvalidatedByTranscriptEdit,
}

/// One entry of a transaction's status history.
#[derive(Debug)]
pub struct StoredContextStatusEvent {
    pub revision: u64,
    /// Milliseconds since the Unix epoch.
    pub timestamp: i64,
    pub kind: StoredContextTransactionStatusKind,
    pub reason: Option<String>,
}

impl Clone for StoredContextStatusEvent {
    fn clone(&self) -> (r: Self)
        ensures
            r == *self,
    {
        let r = StoredContextStatusEvent {
            revision: self.revision,
            timestamp: self.timestamp,
            kind: self.kind,
            reason: self.reason.clone(),
        };
        r
    }
}


/// Who authorized a transaction.
#[derive(Debug)]
pub enum StoredContextAuthorization {
    Manual { initiated_by: Option<String> },
    UnattendedEmergency {
        authorization_source: String,
        trigger: Option<String>,
        scheduled_item_id: Option<String>,
    },
}

impl Clone for StoredContextAuthorization {
    fn clone(&self) -> (r: Self)
        ensures
            r == *self,
    {
        match self {
            StoredContextAuthorization::Manual { initiated_by } => StoredContextAuthorization::Manual {
                initiated_by: initiated_by.clone(),
            },
            StoredContextAuthorization::UnattendedEmergency {
                authorization_source,
                trigger,
                scheduled_item_id,
            } => StoredContextAuthorization::UnattendedEmergency {
                authorization_source: authorization_source.clone(),
                trigger: trigger.clone(),
                scheduled_item_id: scheduled_item_id.clone(),
            },
        }
    }
}

/// A contiguous range of stored messages, named by the messages at its ends.
#[derive(Debug)]
pub struct StoredMessageRange {
    pub start_message_id: String,
    pub end_message_id: String,
    pub start_index_hint: usize,
    pub end_index_hint: usize,
    pub message_count: usize,
}

impl Clone for StoredMessageRange {
    fn clone(&self) -> (r: Self)
        ensures
            r == *self,
    {
        let r = StoredMessageRange {
            start_message_id: self.start_message_id.clone(),
            end_message_id: self.end_message_id.clone(),
            start_index_hint: self.start_index_hint,
            end_index_hint: self.end_index_hint,
            message_count: self.message_count,
        };
        r
    }
}


/// Evidence that a provider's request builder accepted a projection.
#[derive(Clone, Debug)]
pub struct StoredProviderValidationEvidence {
    pub provider: String,
    pub model: String,
    pub request_builder: String,
    /// Milliseconds since the Unix epoch.
    pub checked_at: i64,
    pub warnings: Vec<String>,
}

/// A summary that replaces a message range, with its provenance: the curator's file-change
/// digest and warnings, the file evidence extracted from the range, and who generated it
/// and when.
#[derive(Debug)]
pub struct StoredRangeSummary {
    pub source_range: StoredMessageRange,
    pub summary: String,
    /// The curator's account of the files the range changed.
    pub file_change_digest: String,
    /// Files the summary asserts were changed.
    pub changed_files: Vec<String>,
    /// Whether `changed_files` is known to be complete.
    pub change_evidence_complete: bool,
    /// The evidence the harness extracted from the range's tool calls.
    pub file_evidence: Option<FileEvidence>,
    /// The curator route, prompt and instructions that produced the summary.
    pub generator: Option<StoredContextArtifactGenerator>,
    /// The estimated provider tokens of the summarized range.
    pub source_token_estimate: usize,
    /// The estimated provider tokens of the summary as projected.
    pub replacement_token_estimate: usize,
    /// The curator's uncertainty and preservation warnings.
    pub warnings: Vec<String>,
    /// Milliseconds since the Unix epoch.
    pub created_at: i64,
}

/// Whether two optional evidence records say the same.
pub open spec fn same_optional_evidence(a: Option<FileEvidence>, b: Option<FileEvidence>) -> bool {
    match (a, b) {
        (Some(x), Some(y)) => same_evidence(x, y),
        (None, None) => true,
        _ => false,
    }
}

/// Whether two range summaries say the same.
pub open spec fn same_range_summary(a: StoredRangeSummary, b: StoredRangeSummary) -> bool {
    &&& a.source_range == b.source_range
    &&& a.summary == b.summary
    &&& a.file_change_digest == b.file_change_digest
    &&& a.changed_files@ == b.changed_files@
    &&& a.change_evidence_complete == b.change_evidence_complete
    &&& same_optional_evidence(a.file_evidence, b.file_evidence)
    &&& a.generator == b.generator
    &&& a.source_token_estimate == b.source_token_estimate
    &&& a.replacement_token_estimate == b.replacement_token_estimate
    &&& a.warnings@ == b.warnings@
    &&& a.created_at == b.created_at
}

/// A copy of a list of strings, element for element.
pub fn copy_string_list(v: &Vec<String>) -> (r: Vec<String>)
    ensures
        r@ == v@,
{
    let mut out: Vec<String> = Vec::new();
    let mut i: usize = 0;
    while i < v.len()
        invariant
            i <= v@.len(),
            out@ == v@.take(i as int),
        decreases v.len() - i,
    {
        out.push(v[i].clone());
        proof {
            assert(v@.take(i + 1) =~= v@.take(i as int).push(v@[i as int]));
        }
        i += 1;
    }
    proof {
        assert(v@.take(v@.len() as int) =~= v@);
    }
    out
}

/// A copy of a generator record.
pub fn copy_generator(g: &StoredContextArtifactGenerator) -> (r: StoredContextArtifactGenerator)
    ensures
        r == *g,
{
    StoredContextArtifactGenerator {
        provider: g.provider.clone(),
        model: g.model.clone(),
        route: g.route.clone(),
        prompt_version: g.prompt_version.clone(),
        effort: match &g.effort {
            Some(e) => Some(e.clone()),
            None => None,
        },
        role: g.role,
        selection_source: g.selection_source,
        transaction_instructions: match &g.transaction_instructions {
            Some(t) => Some(t.clone()),
            None => None,
        },
        task_instructions: match &g.task_instructions {
            Some(t) => Some(t.clone()),
            None => None,
        },
    }
}

impl Clone for StoredRangeSummary {
    fn clone(&self) -> (r: Self)
        ensures
            same_range_summary(r, *self),
    {
        StoredRangeSummary {
            source_range: self.source_range.clone(),
            summary: self.summary.clone(),
            file_change_digest: self.file_change_digest.clone(),
            changed_files: copy_string_list(&self.changed_files),
            change_evidence_complete: self.change_evidence_complete,
            file_evidence: match &self.file_evidence {
                Some(e) => Some(copy_evidence(e)),
                None => None,
            },
            generator: match &self.generator {
                Some(g) => Some(copy_generator(g)),
                None => None,
            },
            source_token_estimate: self.source_token_estimate,
            replacement_token_estimate: self.replacement_token_estimate,
            warnings: copy_string_list(&self.warnings),
            created_at: self.created_at,
        }
    }
}

/// One replayed reasoning block a suppression hides: the message it is in (by ID), its
/// position in that message, and its kind.
#[derive(Debug)]
pub struct StoredReasoningTarget {
    pub message_id: String,
    pub block_index: usize,
    pub kind: crate::model::StoredContextBlockKind,
}

impl Clone for StoredReasoningTarget {
    fn clone(&self) -> (r: Self)
        ensures
            r == *self,
    {
        StoredReasoningTarget {
            message_id: self.message_id.clone(),
            block_index: self.block_index,
            kind: self.kind,
        }
    }
}

/// Replayed reasoning blocks hidden from the provider.
#[derive(Clone, Debug)]
pub struct StoredReasoningSuppression {
    /// The exact blocks hidden.
    pub targets: Vec<StoredReasoningTarget>,
    /// The number of distinct assistant messages the targets are in.
    pub assistant_turns_affected: usize,
    /// The kinds of replayed reasoning block the suppression hides.
    pub replay_block_kinds: Vec<crate::model::StoredContextBlockKind>,
    /// The targets' estimated provider tokens, summed.
    pub original_token_estimate: usize,
    pub validation: Vec<StoredProviderValidationEvidence>,
}

/// A tool result replaced by a smaller equivalent.
#[derive(Debug)]
pub struct StoredToolResultDistillation {
    /// The call whose result is replaced.
    pub tool_use_id: String,
    pub tool_name: String,
    pub replacement: String,
    pub original_token_estimate: usize,
    pub replacement_token_estimate: usize,
    /// The replacement's size relative to the original, in millionths.
    pub replacement_ratio_millionths: u32,
    pub preservation_rationale: String,
}

impl Clone for StoredToolResultDistillation {
    fn clone(&self) -> (r: Self)
        ensures
            r == *self,
    {
        StoredToolResultDistillation {
            tool_use_id: self.tool_use_id.clone(),
            tool_name: self.tool_name.clone(),
            replacement: self.replacement.clone(),
            original_token_estimate: self.original_token_estimate,
            replacement_token_estimate: self.replacement_token_estimate,
            replacement_ratio_millionths: self.replacement_ratio_millionths,
            preservation_rationale: self.preservation_rationale.clone(),
        }
    }
}

/// One operation of a transaction.
#[derive(Clone, Debug)]
pub enum StoredContextOperation {
    RangeSummary(StoredRangeSummary),
    ReasoningSuppression(StoredReasoningSuppression),
    ToolResultDistillation(StoredToolResultDistillation),
}

/// A copy of validation evidence.
pub fn copy_validation_evidence(e: &StoredProviderValidationEvidence) -> (r:
    StoredProviderValidationEvidence)
    ensures
        r.provider == e.provider,
        r.model == e.model,
        r.request_builder == e.request_builder,
        r.checked_at == e.checked_at,
        r.warnings@ == e.warnings@,
{
    let mut warnings: Vec<String> = Vec::new();
    let mut i: usize = 0;
    while i < e.warnings.len()
        invariant
            i <= e.warnings@.len(),
            warnings@ == e.warnings@.take(i as int),
        decreases e.warnings.len() - i,
    {
        warnings.push(e.warnings[i].clone());
        proof {
            assert(e.warnings@.take(i + 1) =~= e.warnings@.take(i as int).push(e.warnings@[i as int]));
        }
        i += 1;
    }
    proof {
        assert(e.warnings@.take(e.warnings@.len() as int) =~= e.warnings@);
    }
    StoredProviderValidationEvidence {
        provider: e.provider.clone(),
        model: e.model.clone(),
        request_builder: e.request_builder.clone(),
        checked_at: e.checked_at,
        warnings,
    }
}

/// Whether two pieces of validation evidence say the same.
pub open spec fn same_validation_evidence(
    a: StoredProviderValidationEvidence,
    b: StoredProviderValidationEvidence,
) -> bool {
    &&& a.provider == b.provider
    &&& a.model == b.model
    &&& a.request_builder == b.request_builder
    &&& a.checked_at == b.checked_at
    &&& a.warnings@ == b.warnings@
}

/// Whether two reasoning suppressions say the same.
pub open spec fn same_suppression(a: StoredReasoningSuppression, b: StoredReasoningSuppression) -> bool {
    &&& a.targets@ == b.targets@
    &&& a.assistant_turns_affected == b.assistant_turns_affected
    &&& a.replay_block_kinds@ == b.replay_block_kinds@
    &&& a.original_token_estimate == b.original_token_estimate
    &&& a.validation@.len() == b.validation@.len()
    &&& forall|k: int|
        0 <= k < a.validation@.len() ==> same_validation_evidence(
            #[trigger] a.validation@[k],
            b.validation@[k],
        )
}

/// Whether two operations say the same.
pub open spec fn same_operation(a: StoredContextOperation, b: StoredContextOperation) -> bool {
    match (a, b) {
        (StoredContextOperation::RangeSummary(x), StoredContextOperation::RangeSummary(y)) =>
            same_range_summary(x, y),
        (
            StoredContextOperation::ReasoningSuppression(x),
            StoredContextOperation::ReasoningSuppression(y),
        ) => same_suppression(x, y),
        (
            StoredContextOperation::ToolResultDistillation(x),
            StoredContextOperation::ToolResultDistillation(y),
        ) => x == y,
        _ => false,
    }
}

/// Whether two operation lists say the same, operation by operation.
pub open spec fn same_operations(a: Seq<StoredContextOperation>, b: Seq<StoredContextOperation>) -> bool {
    &&& a.len() == b.len()
    &&& forall|k: int| 0 <= k < a.len() ==> same_operation(#[trigger] a[k], b[k])
}

/// A copy of a reasoning suppression.
pub fn copy_suppression(s: &StoredReasoningSuppression) -> (r: StoredReasoningSuppression)
    ensures
        same_suppression(r, *s),
{
    let mut targets: Vec<StoredReasoningTarget> = Vec::new();
    let mut i: usize = 0;
    while i < s.targets.len()
        invariant
            i <= s.targets@.len(),
            targets@ == s.targets@.take(i as int),
        decreases s.targets.len() - i,
    {
        targets.push(s.targets[i].clone());
        proof {
            assert(s.targets@.take(i + 1) =~= s.targets@.take(i as int).push(s.targets@[i as int]));
        }
        i += 1;
    }
    let mut kinds: Vec<crate::model::StoredContextBlockKind> = Vec::new();
    let mut i: usize = 0;
    while i < s.replay_block_kinds.len()
        invariant
            i <= s.replay_block_kinds@.len(),
            kinds@ == s.replay_block_kinds@.take(i as int),
        decreases s.replay_block_kinds.len() - i,
    {
        kinds.push(s.replay_block_kinds[i]);
        proof {
            assert(s.replay_block_kinds@.take(i + 1) =~= s.replay_block_kinds@.take(i as int).push(
                s.replay_block_kinds@[i as int],
            ));
        }
        i += 1;
    }
    let mut validation: Vec<StoredProviderValidationEvidence> = Vec::new();
    let mut i: usize = 0;
    while i < s.validation.len()
        invariant
            i <= s.validation@.len(),
            validation@.len() == i,
            forall|k: int|
                0 <= k < i ==> same_validation_evidence(#[trigger] validation@[k], s.validation@[k]),
        decreases s.validation.len() - i,
    {
        validation.push(copy_validation_evidence(&s.validation[i]));
        i += 1;
    }
    proof {
        assert(s.targets@.take(s.targets@.len() as int) =~= s.targets@);
        assert(s.replay_block_kinds@.take(s.replay_block_kinds@.len() as int)
            =~= s.replay_block_kinds@);
    }
    StoredReasoningSuppression {
        targets,
        assistant_turns_affected: s.assistant_turns_affected,
        replay_block_kinds: kinds,
        original_token_estimate: s.original_token_estimate,
        validation,
    }
}

/// A copy of an operation.
pub fn copy_operation(op: &StoredContextOperation) -> (r: StoredContextOperation)
    ensures
        same_operation(r, *op),
{
    match op {
        StoredContextOperation::RangeSummary(x) => StoredContextOperation::RangeSummary(x.clone()),
        StoredContextOperation::ReasoningSuppression(x) => StoredContextOperation::ReasoningSuppression(
            copy_suppression(x),
        ),
        StoredContextOperation::ToolResultDistillation(x) =>
            StoredContextOperation::ToolResultDistillation(x.clone()),
    }
}

/// A copy of an operation list.
pub fn copy_operations(ops: &Vec<StoredContextOperation>) -> (r: Vec<StoredContextOperation>)
    ensures
        same_operations(r@, ops@),
{
    let mut out: Vec<StoredContextOperation> = Vec::new();
    let mut i: usize = 0;
    while i < ops.len()
        invariant
            i <= ops@.len(),
            out@.len() == i,
            forall|k: int| 0 <= k < i ==> same_operation(#[trigger] out@[k], ops@[k]),
        decreases ops.len() - i,
    {
        out.push(copy_operation(&ops[i]));
        i += 1;
    }
    out
}

/// Where a transaction was applied.
#[derive(Debug)]
pub struct StoredContextApplication {
    pub provider: String,
    pub model: String,
    pub route: String,
    pub context_window: Option<usize>,
}

impl Clone for StoredContextApplication {
    fn clone(&self) -> (r: Self)
        ensures
            r == *self,
    {
        StoredContextApplication {
            provider: self.provider.clone(),
            model: self.model.clone(),
            route: self.route.clone(),
            context_window: self.context_window,
        }
    }
}

/// What a transaction did to the provider request.
#[derive(Clone, Copy, Debug)]
pub struct StoredContextEconomics {
    pub deleted_input_tokens: usize,
    pub earliest_changed_provider_item: Option<usize>,
}

/// One context transaction with its full status history.
#[derive(Clone, Debug)]
pub struct StoredContextTransaction {
    pub id: String,
    /// Milliseconds since the Unix epoch.
    pub created_at: i64,
    pub base_revision: u64,
    pub authorization: StoredContextAuthorization,
    pub operations: Vec<StoredContextOperation>,
    pub status_events: Vec<StoredContextStatusEvent>,
    pub application: Option<StoredContextApplication>,
    pub economics: Option<StoredContextEconomics>,
    /// The audit record of an unattended emergency transaction.
    pub emergency_audit: Option<StoredContextEmergencyAudit>,
}

/// Whether the emergency path may transform context unattended, and how.
#[derive(Debug)]
pub enum StoredContextEmergencyPolicy {
    Block,
    Authorized {
        protected_recent_assistant_turns: u32,
        target_headroom_percent: u8,
        allow_reasoning_suppression: bool,
        allow_tool_distillation: bool,
        allow_oldest_range_summary: bool,
        authorization_source: String,
    },
}

impl Clone for StoredContextEmergencyPolicy {
    fn clone(&self) -> (r: Self)
        ensures
            r == *self,
    {
        match self {
            StoredContextEmergencyPolicy::Block => StoredContextEmergencyPolicy::Block,
            StoredContextEmergencyPolicy::Authorized {
                protected_recent_assistant_turns,
                target_headroom_percent,
                allow_reasoning_suppression,
                allow_tool_distillation,
                allow_oldest_range_summary,
                authorization_source,
            } => StoredContextEmergencyPolicy::Authorized {
                protected_recent_assistant_turns: *protected_recent_assistant_turns,
                target_headroom_percent: *target_headroom_percent,
                allow_reasoning_suppression: *allow_reasoning_suppression,
                allow_tool_distillation: *allow_tool_distillation,
                allow_oldest_range_summary: *allow_oldest_range_summary,
                authorization_source: authorization_source.clone(),
            },
        }
    }
}


/// What triggered an unattended emergency transaction.
#[derive(PartialEq, Eq, Structural, Clone, Copy, Debug)]
pub enum StoredContextEmergencyTriggerKind {
    PreflightLimit,
    ProviderContextLimit,
}

/// Whether the request that needed an emergency transaction was retried successfully.
#[derive(PartialEq, Eq, Structural, Clone, Copy, Debug)]
pub enum StoredContextEmergencyRetryOutcome {
    Pending,
    Succeeded,
    Failed,
}

/// The kinds of operation an emergency transaction may hold, in the order they are tried.
#[derive(PartialEq, Eq, Structural, Clone, Copy, Debug)]
pub enum StoredContextEmergencyOperationKind {
    ReasoningSuppression,
    ToolResultDistillation,
    OldestRangeSummary,
}

/// The audit record of an unattended emergency transaction.
#[derive(Clone, Debug)]
pub struct StoredContextEmergencyAudit {
    pub policy: StoredContextEmergencyPolicy,
    pub authorization_source: String,
    pub scheduled_item_id: Option<String>,
    pub trigger_kind: StoredContextEmergencyTriggerKind,
    pub provider_error: Option<String>,
    pub retry_outcome: StoredContextEmergencyRetryOutcome,
    pub achieved_reduction_tokens: usize,
    pub operation_order: Vec<StoredContextEmergencyOperationKind>,
}

/// The context view of a session.
#[derive(Clone, Debug)]
pub struct StoredContextViewState {
    pub revision: u64,
    pub transactions: Vec<StoredContextTransaction>,
    pub emergency_policy: StoredContextEmergencyPolicy,
}

/// A session that owns its transcript and context view directly.
#[derive(Clone, Debug)]
pub struct ContextSession {
    pub id: String,
    pub messages: Vec<StoredMessage>,
    pub context_view: StoredContextViewState,
    pub provider_session_id: Option<String>,
}

/// The latest status event of a history, if any.
pub open spec fn latest_event(events: Seq<StoredContextStatusEvent>) -> Option<StoredContextStatusEvent> {
    if events.len() == 0 {
        None
    } else {
        Some(events.last())
    }
}

/// A transaction is active when its latest status applied or reapplied it.
pub open spec fn spec_is_active(t: StoredContextTransaction) -> bool {
    match latest_event(t.status_events@) {
        Some(e) => e.kind == StoredContextTransactionStatusKind::Applied || e.kind
            == StoredContextTransactionStatusKind::Reapplied,
        None => false,
    }
}

impl StoredContextTransaction {
    /// The latest status event.
    pub fn latest_status(&self) -> (r: Option<&StoredContextStatusEvent>)
        ensures
            match r {
                Some(e) => latest_event(self.status_events@) == Some(*e),
                None => latest_event(self.status_events@) is None,
            },
    {
        if self.status_events.len() == 0 {
            None
        } else {
            Some(&self.status_events[self.status_events.len() - 1])
        }
    }

    /// Whether the latest status applied or reapplied the transaction.
    pub fn is_active(&self) -> (r: bool)
        ensures
            r == spec_is_active(*self),
    {
        match self.latest_status() {
            Some(e) => match e.kind {
                StoredContextTransactionStatusKind::Applied => true,
                StoredContextTransactionStatusKind::Reapplied => true,
                _ => false,
            },
            None => false,
        }
    }
}

/// How many operations of each kind a list holds.
pub struct OperationCounts {
    pub range_summaries: usize,
    pub reasoning_suppressions: usize,
    pub tool_result_distillations: usize,
}

pub open spec fn count_range_summaries(ops: Seq<StoredContextOperation>) -> nat
    decreases ops.len(),
{
    if ops.len() == 0 {
        0
    } else {
        count_range_summaries(ops.drop_last()) + if ops.last() is RangeSummary {
            1nat
        } else {
            0nat
        }
    }
}

pub open spec fn count_reasoning_suppressions(ops: Seq<StoredContextOperation>) -> nat
    decreases ops.len(),
{
    if ops.len() == 0 {
        0
    } else {
        count_reasoning_suppressions(ops.drop_last()) + if ops.last() is ReasoningSuppression {
            1nat
        } else {
            0nat
        }
    }
}

pub open spec fn count_tool_result_distillations(ops: Seq<StoredContextOperation>) -> nat
    decreases ops.len(),
{
    if ops.len() == 0 {
        0
    } else {
        count_tool_result_distillations(ops.drop_last()) + if ops.last() is ToolResultDistillation {
            1nat
        } else {
            0nat
        }
    }
}

proof fn lemma_counts_bounded(ops: Seq<StoredContextOperation>)
    ensures
        count_range_summaries(ops) + count_reasoning_suppressions(ops)
            + count_tool_result_distillations(ops) == ops.len(),
    decreases ops.len(),
{
    if ops.len() > 0 {
        lemma_counts_bounded(ops.drop_last());
    }
}

/// Counts the operations of a list by kind.
pub fn operation_counts(ops: &Vec<StoredContextOperation>) -> (r: OperationCounts)
    ensures
        r.range_summaries == count_range_summaries(ops@),
        r.reasoning_suppressions == count_reasoning_suppressions(ops@),
        r.tool_result_distillations == count_tool_result_distillations(ops@),
{
    let mut counts = OperationCounts {
        range_summaries: 0,
        reasoning_suppressions: 0,
        tool_result_distillations: 0,
    };
    let mut i: usize = 0;
    while i < ops.len()
        invariant
            i <= ops@.len(),
            counts.range_summaries == count_range_summaries(ops@.take(i as int)),
            counts.reasoning_suppressions == count_reasoning_suppressions(ops@.take(i as int)),
            counts.tool_result_distillations == count_tool_result_distillations(
                ops@.take(i as int),
            ),
        decreases ops.len() - i,
    {
        proof {
            assert(ops@.take(i + 1).drop_last() =~= ops@.take(i as int));
            lemma_counts_bounded(ops@.take(i + 1));
        }
        match &ops[i] {
            StoredContextOperation::RangeSummary(_) => {
                counts.range_summaries = counts.range_summaries + 1;
            },
            StoredContextOperation::ReasoningSuppression(_) => {
                counts.reasoning_suppressions = counts.reasoning_suppressions + 1;
            },
            StoredContextOperation::ToolResultDistillation(_) => {
                counts.tool_result_distillations = counts.tool_result_distillations + 1;
            },
        }
        i += 1;
    }
    proof {
        assert(ops@.take(ops@.len() as int) =~= ops@);
    }
    counts
}

/// Whether two emergency audits say the same.
pub open spec fn same_audit(a: StoredContextEmergencyAudit, b: StoredContextEmergencyAudit) -> bool {
    &&& a.policy == b.policy
    &&& a.authorization_source == b.authorization_source
    &&& a.scheduled_item_id == b.scheduled_item_id
    &&& a.trigger_kind == b.trigger_kind
    &&& a.provider_error == b.provider_error
    &&& a.retry_outcome == b.retry_outcome
    &&& a.achieved_reduction_tokens == b.achieved_reduction_tokens
    &&& a.operation_order@ == b.operation_order@
}

/// Whether two transactions say the same: equal fields, their operations and audits saying
/// the same, the same status history.
pub open spec fn same_transaction(a: StoredContextTransaction, b: StoredContextTransaction) -> bool {
    &&& a.id == b.id
    &&& a.created_at == b.created_at
    &&& a.base_revision == b.base_revision
    &&& a.authorization == b.authorization
    &&& same_operations(a.operations@, b.operations@)
    &&& a.status_events@ == b.status_events@
    &&& a.application == b.application
    &&& a.economics == b.economics
    &&& match (a.emergency_audit, b.emergency_audit) {
        (Some(x), Some(y)) => same_audit(x, y),
        (None, None) => true,
        _ => false,
    }
}

/// Whether two context views say the same, transaction by transaction.
pub open spec fn same_view(a: StoredContextViewState, b: StoredContextViewState) -> bool {
    &&& a.revision == b.revision
    &&& a.emergency_policy == b.emergency_policy
    &&& a.transactions@.len() == b.transactions@.len()
    &&& forall|k: int|
        0 <= k < a.transactions@.len() ==> same_transaction(
            #[trigger] a.transactions@[k],
            b.transactions@[k],
        )
}

/// A copy of an emergency audit.
pub fn copy_audit(a: &StoredContextEmergencyAudit) -> (r: StoredContextEmergencyAudit)
    ensures
        same_audit(r, *a),
{
    let mut order: Vec<StoredContextEmergencyOperationKind> = Vec::new();
    let mut i: usize = 0;
    while i < a.operation_order.len()
        invariant
            i <= a.operation_order@.len(),
            order@ == a.operation_order@.take(i as int),
        decreases a.operation_order.len() - i,
    {
        order.push(a.operation_order[i]);
        proof {
            assert(a.operation_order@.take(i + 1) =~= a.operation_order@.take(i as int).push(
                a.operation_order@[i as int],
            ));
        }
        i += 1;
    }
    proof {
        assert(a.operation_order@.take(a.operation_order@.len() as int) =~= a.operation_order@);
    }
    StoredContextEmergencyAudit {
        policy: a.policy.clone(),
        authorization_source: a.authorization_source.clone(),
        scheduled_item_id: a.scheduled_item_id.clone(),
        trigger_kind: a.trigger_kind,
        provider_error: a.provider_error.clone(),
        retry_outcome: a.retry_outcome,
        achieved_reduction_tokens: a.achieved_reduction_tokens,
        operation_order: order,
    }
}

/// A copy of a transaction.
pub fn copy_transaction(t: &StoredContextTransaction) -> (r: StoredContextTransaction)
    ensures
        same_transaction(r, *t),
{
    let mut events: Vec<StoredContextStatusEvent> = Vec::new();
    let mut i: usize = 0;
    while i < t.status_events.len()
        invariant
            i <= t.status_events@.len(),
            events@ == t.status_events@.take(i as int),
        decreases t.status_events.len() - i,
    {
        events.push(t.status_events[i].clone());
        proof {
            assert(t.status_events@.take(i + 1) =~= t.status_events@.take(i as int).push(
                t.status_events@[i as int],
            ));
        }
        i += 1;
    }
    proof {
        assert(t.status_events@.take(t.status_events@.len() as int) =~= t.status_events@);
    }
    StoredContextTransaction {
        id: t.id.clone(),
        created_at: t.created_at,
        base_revision: t.base_revision,
        authorization: t.authorization.clone(),
        operations: copy_operations(&t.operations),
        status_events: events,
        application: match &t.application {
            Some(a) => Some(a.clone()),
            None => None,
        },
        economics: t.economics,
        emergency_audit: match &t.emergency_audit {
            Some(a) => Some(copy_audit(a)),
            None => None,
        },
    }
}

/// A copy of a context view.
pub fn copy_view(v: &StoredContextViewState) -> (r: StoredContextViewState)
    ensures
        same_view(r, *v),
{
    let mut txs: Vec<StoredContextTransaction> = Vec::new();
    let mut i: usize = 0;
    while i < v.transactions.len()
        invariant
            i <= v.transactions@.len(),
            txs@.len() == i,
            forall|k: int| 0 <= k < i ==> same_transaction(#[trigger] txs@[k], v.transactions@[k]),
        decreases v.transactions.len() - i,
    {
        txs.push(copy_transaction(&v.transactions[i]));
        i += 1;
    }
    StoredContextViewState {
        revision: v.revision,
        transactions: txs,
        emergency_policy: v.emergency_policy.clone(),
    }
}

} // verus!
