//! What a client is shown of a curator plan before any curator call: each task with its
//! prompt, response contract, measured request and disclosed source scope, and the plan's
//! session, revision, transcript digest and route.

use vstd::prelude::*;

use crate::curator::{
    ContextCuratorLimits, ContextCuratorRoute, ContextCuratorRoutePreview, StoredContextCuratorRole,
    StoredContextCuratorSelectionSource,
};
use crate::evidence::extract::{copy_evidence, FileEvidence};
use crate::model::StoredMessage;
use crate::plan::ContextCuratorTask;
use crate::scope::{
    discloses_message, discloses_summary, public_scope, target_label, task_target_label,
    ContextCuratorSourceScope, ContextCuratorTaskKind,
};
use crate::session::same_optional_evidence;
use crate::text::chars_of;

verus! {

/// How much user instruction a task carries, in characters.
#[derive(Clone, Copy, Debug)]
pub struct ContextCuratorInstructionDisclosure {
    pub transaction_wide_chars: usize,
    pub task_specific_chars: usize,
}

/// The measured request of one task, as prepared for its curator call.
#[derive(Clone, Copy, Debug)]
pub struct PreparedTaskFigures {
    pub estimated_input_tokens: usize,
    pub safe_input_budget: usize,
    pub request_bytes: usize,
    pub image_count: usize,
}

/// What a client is shown of one curator task.
#[derive(Debug)]
pub struct ContextCuratorTaskPreview {
    pub task_id: String,
    pub role: StoredContextCuratorRole,
    pub target_label: String,
    pub effective_system_prompt: String,
    pub response_contract: String,
    pub estimated_input_tokens: usize,
    pub safe_input_budget: usize,
    pub request_bytes: usize,
    pub request_byte_limit: usize,
    pub image_count: usize,
    pub source_scope: Vec<ContextCuratorSourceScope>,
    pub file_evidence: Option<FileEvidence>,
    pub user_instructions: ContextCuratorInstructionDisclosure,
}

/// What a client is shown of a curator plan; the fingerprint is filled in once the preview's
/// canonical bytes are known.
#[derive(Debug)]
pub struct ContextCuratorPlanPreview {
    pub session_id: String,
    pub context_revision: u64,
    pub transcript_digest: u64,
    pub route: ContextCuratorRoutePreview,
    pub using_configured_default: bool,
    pub tasks: Vec<ContextCuratorTaskPreview>,
    pub fingerprint: String,
}

/// The preview of `task`: its identity, target label, prompt and contract; the measured
/// request against the byte limit; the disclosed scope (see [`public_scope`]); a range task's
/// file evidence; and the length in characters of the transaction's and the task's own
/// instructions.
pub fn curator_task_preview(
    messages: &[StoredMessage],
    task: &ContextCuratorTask,
    transaction_instructions: &str,
    prepared: PreparedTaskFigures,
    limits: ContextCuratorLimits,
) -> (r: ContextCuratorTaskPreview)
    requires
        task.scope@.len() + task.active_summary_texts@.len() <= usize::MAX,
    ensures
        r.task_id@ == task.task_id@,
        r.role == task.role,
        r.target_label@ == target_label(task.kind),
        r.effective_system_prompt@ == task.system_prompt@,
        r.response_contract@ == task.response_contract@,
        r.estimated_input_tokens == prepared.estimated_input_tokens,
        r.safe_input_budget == prepared.safe_input_budget,
        r.request_bytes == prepared.request_bytes,
        r.request_byte_limit == limits.max_request_bytes,
        r.image_count == prepared.image_count,
        r.source_scope@.len() == task.scope@.len() + task.active_summary_texts@.len(),
        forall|i: int|
            0 <= i < task.scope@.len() ==> discloses_message(
                messages@,
                #[trigger] r.source_scope@[i],
                task.scope@[i],
            ),
        forall|j: int|
            task.scope@.len() <= j < r.source_scope@.len() ==> discloses_summary(
                #[trigger] r.source_scope@[j],
            ),
        match task.kind {
            ContextCuratorTaskKind::Range(work) => same_optional_evidence(
                r.file_evidence,
                Some(work.file_evidence),
            ),
            ContextCuratorTaskKind::Tool(_) => r.file_evidence is None,
        },
        r.user_instructions.transaction_wide_chars == transaction_instructions@.len(),
        r.user_instructions.task_specific_chars == match task.kind {
            ContextCuratorTaskKind::Range(work) => work.additional_instructions@.len(),
            ContextCuratorTaskKind::Tool(_) => 0,
        },
{
    let (file_evidence, task_specific_chars) = match &task.kind {
        ContextCuratorTaskKind::Range(work) => (
            Some(copy_evidence(&work.file_evidence)),
            chars_of(work.additional_instructions.as_str()).len(),
        ),
        ContextCuratorTaskKind::Tool(_) => (None, 0),
    };
    ContextCuratorTaskPreview {
        task_id: task.task_id.clone(),
        role: task.role,
        target_label: task_target_label(&task.kind),
        effective_system_prompt: task.system_prompt.clone(),
        response_contract: task.response_contract.clone(),
        estimated_input_tokens: prepared.estimated_input_tokens,
        safe_input_budget: prepared.safe_input_budget,
        request_bytes: prepared.request_bytes,
        request_byte_limit: limits.max_request_bytes,
        image_count: prepared.image_count,
        source_scope: public_scope(
            messages,
            task.scope.as_slice(),
            task.active_summary_texts.as_slice(),
        ),
        file_evidence,
        user_instructions: ContextCuratorInstructionDisclosure {
            transaction_wide_chars: chars_of(transaction_instructions).len(),
            task_specific_chars,
        },
    }
}

/// The preview of a plan over its task previews, before its fingerprint is known: the
/// session, revision and transcript digest it was planned against, the route as shown to
/// clients, and whether the route is the configured default.
pub fn curator_plan_preview(
    session_id: &str,
    context_revision: u64,
    transcript_digest: u64,
    route: &ContextCuratorRoute,
    selection_source: StoredContextCuratorSelectionSource,
    tasks: Vec<ContextCuratorTaskPreview>,
) -> (r: ContextCuratorPlanPreview)
    ensures
        r.session_id@ == session_id@,
        r.context_revision == context_revision,
        r.transcript_digest == transcript_digest,
        r.route.provider_name == route.provider_name,
        r.route.provider_display_name == route.provider_display_name,
        r.route.model == route.model,
        r.route.route == route.route,
        r.route.effort == route.effort,
        r.using_configured_default == (selection_source
            == StoredContextCuratorSelectionSource::ConfiguredDefault),
        r.tasks@ == tasks@,
        r.fingerprint@.len() == 0,
{
    ContextCuratorPlanPreview {
        session_id: String::from_str(session_id),
        context_revision,
        transcript_digest,
        route: route.preview(),
        using_configured_default: match selection_source {
            StoredContextCuratorSelectionSource::ConfiguredDefault => true,
            StoredContextCuratorSelectionSource::PerRunOverride => false,
        },
        tasks,
        fingerprint: String::new(),
    }
}

} // verus!
