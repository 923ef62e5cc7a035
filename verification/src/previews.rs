//! What a draft preview shows of each operation it would commit: a range summary with the
//! request that produced it and its file evidence, a reasoning suppression with its targets, and a tool-result
//! distillation with the proposal it came from.

use vstd::prelude::*;

use crate::model::StoredContextBlockKind;
use crate::proposals::CapturedRange;
use crate::protocol::ContextDistillationProposal;
use crate::evidence::extract::{copy_evidence, FileEvidence};
use crate::session::{
    copy_string_list, copy_suppression, same_optional_evidence, StoredContextOperation,
    StoredMessageRange,
};
use crate::text::str_eq;

verus! {

/// One operation of a draft as its preview shows it.
#[derive(Debug)]
pub enum ContextOperationPreview {
    RangeSummary {
        request_id: String,
        source_range: StoredMessageRange,
        source_tokens: usize,
        replacement_tokens: usize,
        changed_files: Vec<String>,
        change_evidence_complete: bool,
        file_evidence: Option<FileEvidence>,
    },
    ReasoningSuppression {
        target_count: usize,
        assistant_turns_affected: usize,
        replay_block_kinds: Vec<StoredContextBlockKind>,
        removed_tokens: usize,
    },
    ToolResultDistillation {
        proposal_id: String,
        tool_name: String,
        tool_call_id: String,
        original_tokens: usize,
        replacement_tokens: usize,
        selected_by_default: bool,
    },
}

/// The last of the first `n` captured ranges that starts at message `start`.
pub open spec fn last_range_starting_at(ranges: Seq<CapturedRange>, start: Seq<char>, n: int) -> Option<
    int,
>
    decreases n,
{
    if n <= 0 || n > ranges.len() {
        None
    } else if ranges[n - 1].source_range.start_message_id@ == start {
        Some(n - 1)
    } else {
        last_range_starting_at(ranges, start, n - 1)
    }
}

/// The last of the first `n` proposals that replaces the result of call `call`.
pub open spec fn last_proposal_for_call(
    proposals: Seq<ContextDistillationProposal>,
    call: Seq<char>,
    n: int,
) -> Option<int>
    decreases n,
{
    if n <= 0 || n > proposals.len() {
        None
    } else if proposals[n - 1].operation.tool_use_id@ == call {
        Some(n - 1)
    } else {
        last_proposal_for_call(proposals, call, n - 1)
    }
}

/// A range found among the first `n` is one of them.
pub proof fn lemma_last_range_in_bounds(ranges: Seq<CapturedRange>, start: Seq<char>, n: int)
    ensures
        last_range_starting_at(ranges, start, n) matches Some(k) ==> 0 <= k < n && k < ranges.len(),
    decreases n,
{
    if n > 0 && n <= ranges.len() {
        lemma_last_range_in_bounds(ranges, start, n - 1);
    }
}

/// A proposal found among the first `n` is one of them.
pub proof fn lemma_last_proposal_in_bounds(
    proposals: Seq<ContextDistillationProposal>,
    call: Seq<char>,
    n: int,
)
    ensures
        last_proposal_for_call(proposals, call, n) matches Some(k) ==> 0 <= k < n && k
            < proposals.len(),
    decreases n,
{
    if n > 0 && n <= proposals.len() {
        lemma_last_proposal_in_bounds(proposals, call, n - 1);
    }
}

/// The request ID of the range that starts at `start` (the last one listed wins), or empty
/// when no range starts there.
pub open spec fn range_request_id(ranges: Seq<CapturedRange>, start: Seq<char>) -> Seq<char> {
    match last_range_starting_at(ranges, start, ranges.len() as int) {
        Some(k) => ranges[k].request_id@,
        None => Seq::empty(),
    }
}

/// Whether `p` is the preview of operation `op`: range summaries name the request of the
/// range starting where they start, distillations the proposal for the same call (its ID and
/// whether it is selected by default; empty and not selected when there is none).
pub open spec fn previews_operation(
    p: ContextOperationPreview,
    op: StoredContextOperation,
    ranges: Seq<CapturedRange>,
    proposals: Seq<ContextDistillationProposal>,
) -> bool {
    match (op, p) {
        (
            StoredContextOperation::RangeSummary(s),
            ContextOperationPreview::RangeSummary {
                request_id,
                source_range,
                source_tokens,
                replacement_tokens,
                changed_files,
                change_evidence_complete,
                file_evidence,
            },
        ) => {
            &&& request_id@ == range_request_id(ranges, s.source_range.start_message_id@)
            &&& source_range == s.source_range
            &&& source_tokens == s.source_token_estimate
            &&& replacement_tokens == s.replacement_token_estimate
            &&& changed_files@ == s.changed_files@
            &&& change_evidence_complete == s.change_evidence_complete
            &&& same_optional_evidence(file_evidence, s.file_evidence)
        },
        (
            StoredContextOperation::ReasoningSuppression(s),
            ContextOperationPreview::ReasoningSuppression {
                target_count,
                assistant_turns_affected,
                replay_block_kinds,
                removed_tokens,
            },
        ) => {
            &&& target_count == s.targets@.len()
            &&& assistant_turns_affected == s.assistant_turns_affected
            &&& replay_block_kinds@ == s.replay_block_kinds@
            &&& removed_tokens == s.original_token_estimate
        },
        (
            StoredContextOperation::ToolResultDistillation(d),
            ContextOperationPreview::ToolResultDistillation {
                proposal_id,
                tool_name,
                tool_call_id,
                original_tokens,
                replacement_tokens,
                selected_by_default,
            },
        ) => {
            &&& tool_name@ == d.tool_name@
            &&& tool_call_id@ == d.tool_use_id@
            &&& original_tokens == d.original_token_estimate
            &&& replacement_tokens == d.replacement_token_estimate
            &&& match last_proposal_for_call(proposals, d.tool_use_id@, proposals.len() as int) {
                Some(k) => proposal_id@ == proposals[k].proposal_id@ && selected_by_default
                    == proposals[k].selected_by_default,
                None => proposal_id@ == Seq::<char>::empty() && !selected_by_default,
            }
        },
        _ => false,
    }
}

/// The position of the last captured range that starts at message `start`.
fn find_range_starting_at(ranges: &[CapturedRange], start: &str) -> (r: Option<usize>)
    ensures
        r matches Some(k) ==> k < ranges@.len() && last_range_starting_at(
            ranges@,
            start@,
            ranges@.len() as int,
        ) == Some(k as int),
        r is None ==> last_range_starting_at(ranges@, start@, ranges@.len() as int) is None,
{
    proof {
        lemma_last_range_in_bounds(ranges@, start@, ranges@.len() as int);
    }
    let mut i: usize = ranges.len();
    while i > 0
        invariant
            i <= ranges@.len(),
            last_range_starting_at(ranges@, start@, ranges@.len() as int)
                == last_range_starting_at(ranges@, start@, i as int),
        decreases i,
    {
        if str_eq(ranges[i - 1].source_range.start_message_id.as_str(), start) {
            return Some(i - 1);
        }
        i -= 1;
    }
    None
}

/// The position of the last proposal that replaces the result of call `call`.
fn find_proposal_for_call(proposals: &[ContextDistillationProposal], call: &str) -> (r: Option<
    usize,
>)
    ensures
        r matches Some(k) ==> k < proposals@.len() && last_proposal_for_call(
            proposals@,
            call@,
            proposals@.len() as int,
        ) == Some(k as int),
        r is None ==> last_proposal_for_call(proposals@, call@, proposals@.len() as int) is None,
{
    proof {
        lemma_last_proposal_in_bounds(proposals@, call@, proposals@.len() as int);
    }
    let mut i: usize = proposals.len();
    while i > 0
        invariant
            i <= proposals@.len(),
            last_proposal_for_call(proposals@, call@, proposals@.len() as int)
                == last_proposal_for_call(proposals@, call@, i as int),
        decreases i,
    {
        if str_eq(proposals[i - 1].operation.tool_use_id.as_str(), call) {
            return Some(i - 1);
        }
        i -= 1;
    }
    None
}

/// The preview of one operation.
pub fn operation_preview(
    op: &StoredContextOperation,
    ranges: &[CapturedRange],
    proposals: &[ContextDistillationProposal],
) -> (r: ContextOperationPreview)
    ensures
        previews_operation(r, *op, ranges@, proposals@),
{
    match op {
        StoredContextOperation::RangeSummary(s) => {
            let request_id = match find_range_starting_at(
                ranges,
                s.source_range.start_message_id.as_str(),
            ) {
                Some(k) => ranges[k].request_id.clone(),
                None => String::new(),
            };
            ContextOperationPreview::RangeSummary {
                request_id,
                source_range: s.source_range.clone(),
                source_tokens: s.source_token_estimate,
                replacement_tokens: s.replacement_token_estimate,
                changed_files: copy_string_list(&s.changed_files),
                change_evidence_complete: s.change_evidence_complete,
                file_evidence: match &s.file_evidence {
                    Some(e) => Some(copy_evidence(e)),
                    None => None,
                },
            }
        },
        StoredContextOperation::ReasoningSuppression(s) => {
            let copy = copy_suppression(s);
            ContextOperationPreview::ReasoningSuppression {
                target_count: s.targets.len(),
                assistant_turns_affected: s.assistant_turns_affected,
                replay_block_kinds: copy.replay_block_kinds,
                removed_tokens: s.original_token_estimate,
            }
        },
        StoredContextOperation::ToolResultDistillation(d) => {
            let (proposal_id, selected_by_default) = match find_proposal_for_call(
                proposals,
                d.tool_use_id.as_str(),
            ) {
                Some(k) => (proposals[k].proposal_id.clone(), proposals[k].selected_by_default),
                None => (String::new(), false),
            };
            ContextOperationPreview::ToolResultDistillation {
                proposal_id,
                tool_name: d.tool_name.clone(),
                tool_call_id: d.tool_use_id.clone(),
                original_tokens: d.original_token_estimate,
                replacement_tokens: d.replacement_token_estimate,
                selected_by_default,
            }
        },
    }
}

/// The previews of a draft's operations, one for each, in order.
pub fn operation_previews(
    ops: &[StoredContextOperation],
    ranges: &[CapturedRange],
    proposals: &[ContextDistillationProposal],
) -> (r: Vec<ContextOperationPreview>)
    ensures
        r@.len() == ops@.len(),
        forall|i: int|
            0 <= i < ops@.len() ==> previews_operation(#[trigger] r@[i], ops@[i], ranges@, proposals@),
{
    let mut out: Vec<ContextOperationPreview> = Vec::new();
    let mut i: usize = 0;
    while i < ops.len()
        invariant
            i <= ops@.len(),
            out@.len() == i,
            forall|k: int|
                0 <= k < i ==> previews_operation(#[trigger] out@[k], ops@[k], ranges@, proposals@),
        decreases ops.len() - i,
    {
        out.push(operation_preview(&ops[i], ranges, proposals));
        i += 1;
    }
    out
}

} // verus!
