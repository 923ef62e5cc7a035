//! Request and draft types shared by the transaction service and its clients.

use vstd::prelude::*;

use crate::session::{StoredContextAuthorization, StoredContextOperation, StoredToolResultDistillation};

verus! {

/// Longest provider, route, model or effort identifier, in characters.
pub const CONTEXT_IDENTIFIER_MAX_CHARS: usize = 256;

/// Most summary ranges in one draft request.
pub const CONTEXT_MAX_SUMMARY_RANGES: usize = 32;

/// Longest single curator instruction field, in characters.
pub const CONTEXT_CURATOR_INSTRUCTION_MAX_CHARS: usize = 8192;

/// Longest total of all curator instructions of a run, in characters.
pub const CONTEXT_CURATOR_TOTAL_INSTRUCTION_MAX_CHARS: usize = 32768;

/// Largest protocol event, in bytes.
pub const CONTEXT_PROTOCOL_MAX_EVENT_BYTES: usize = 4194304;

/// A range of messages named by the messages at its two ends, in either order.
#[derive(Clone, Debug)]
pub struct ContextMessageRangeSelection {
    pub start_message_id: String,
    pub end_message_id: String,
}

/// Extra curator instructions for one staged range.
#[derive(Clone, Debug)]
pub struct ContextCuratorRangeInstructions {
    pub range: ContextMessageRangeSelection,
    pub instructions: String,
}

/// A per-run choice of curator provider, route, model and effort.
#[derive(Clone, Debug)]
pub struct ContextCuratorSelection {
    pub provider: Option<String>,
    pub route: Option<String>,
    pub model: Option<String>,
    pub effort: Option<String>,
}

/// How one curator run is configured.
#[derive(Clone, Debug)]
pub struct ContextCuratorRunConfig {
    pub selection: Option<ContextCuratorSelection>,
    pub transaction_instructions: String,
    pub range_instructions: Vec<ContextCuratorRangeInstructions>,
    pub expected_plan_fingerprint: Option<String>,
}

/// What a draft was captured against.
#[derive(Debug)]
pub struct ContextDraftIdentity {
    pub draft_id: String,
    pub session_id: String,
    pub base_context_revision: u64,
    pub raw_message_count: usize,
    pub transcript_digest: u64,
    pub provider_name: String,
    pub model: String,
    pub route: String,
    /// Milliseconds since the Unix epoch.
    pub created_at: i64,
    /// Milliseconds since the Unix epoch.
    pub expires_at: i64,
}

impl Clone for ContextDraftIdentity {
    fn clone(&self) -> (r: Self)
        ensures
            r == *self,
    {
        ContextDraftIdentity {
            draft_id: self.draft_id.clone(),
            session_id: self.session_id.clone(),
            base_context_revision: self.base_context_revision,
            raw_message_count: self.raw_message_count,
            transcript_digest: self.transcript_digest,
            provider_name: self.provider_name.clone(),
            model: self.model.clone(),
            route: self.route.clone(),
            created_at: self.created_at,
            expires_at: self.expires_at,
        }
    }
}

/// An optional tool-result distillation the user may select.
#[derive(Debug)]
pub struct ContextDistillationProposal {
    pub proposal_id: String,
    pub selected_by_default: bool,
    pub operation: StoredToolResultDistillation,
}

impl Clone for ContextDistillationProposal {
    fn clone(&self) -> (r: Self)
        ensures
            r == *self,
    {
        ContextDistillationProposal {
            proposal_id: self.proposal_id.clone(),
            selected_by_default: self.selected_by_default,
            operation: self.operation.clone(),
        }
    }
}

/// A copy of a list of proposals.
pub fn copy_proposals(v: &Vec<ContextDistillationProposal>) -> (r: Vec<ContextDistillationProposal>)
    ensures
        r@ == v@,
{
    let mut out: Vec<ContextDistillationProposal> = Vec::new();
    let mut i: usize = 0;
    while i < v.len()
        invariant
            i <= v@.len(),
            out@ == v@.take(i as int),
        decreases v.len() - i,
    {
        out.push(v[i].clone());
        proof {
            assert(v@.take(i + 1) =~= v@.take(i as int).push(v@[i as int]));
        }
        i += 1;
    }
    proof {
        assert(v@.take(v@.len() as int) =~= v@);
    }
    out
}

/// A reviewed draft, ready to apply.
#[derive(Clone, Debug)]
pub struct ContextDraft {
    pub identity: ContextDraftIdentity,
    pub authorization: StoredContextAuthorization,
    pub active_agent_profile_message_id: Option<String>,
    pub required_operations: Vec<StoredContextOperation>,
    pub distillation_proposals: Vec<ContextDistillationProposal>,
}

} // verus!
