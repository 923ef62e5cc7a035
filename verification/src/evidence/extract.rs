//! Evidence extraction over one range of stored messages.

use vstd::prelude::*;

use crate::evidence::category::{
    omitted_paths_warning, omitted_warnings_warning, CategoryModel, PathEvidence,
    STORED_CONTEXT_EVIDENCE_MAX_PATHS_PER_CATEGORY,
    STORED_CONTEXT_EVIDENCE_MAX_WARNINGS_PER_CATEGORY,
};
use crate::evidence::inspect::{
    inspect_tool_call, spec_inspect, FileEvidenceAccumulator, FileEvidenceModel,
};
use crate::evidence::outcome::{
    flat_blocks, outcome_from_results, range_of, results_for, top_level_tool_outcome,
};
use crate::model::{ContentBlock, StoredMessage};
use crate::plan::copy_strings;
use crate::text::{strictly_sorted, views};

verus! {

/// The three persisted evidence categories of a range.
#[derive(Debug)]
pub struct FileEvidence {
    pub changed: PathEvidence,
    pub read_or_inspected: PathEvidence,
    pub searched_or_browsed: PathEvidence,
}

/// Why a message range could not be resolved.
#[derive(PartialEq, Eq, Structural, Clone, Copy, Debug)]
pub enum MessageRangeResolutionError {
    /// The range ends before it starts.
    Reversed,
    /// The range reaches past the stored transcript.
    OutOfBounds,
}

/// Whether `pe` is the persisted form of the accumulated category `m`.
pub open spec fn finished(pe: PathEvidence, m: CategoryModel) -> bool {
    &&& strictly_sorted(views(pe.paths@))
    &&& strictly_sorted(views(pe.warnings@))
    &&& views(pe.paths@).to_set() == m.paths
    &&& pe.complete == m.complete
    &&& views(pe.warnings@).to_set() == m.warnings.union(
        if m.omitted_paths > 0 {
            set![omitted_paths_warning(m.omitted_paths)]
        } else {
            Set::empty()
        },
    ).union(
        if m.omitted_warnings > 0 {
            set![omitted_warnings_warning(m.omitted_warnings)]
        } else {
            Set::empty()
        },
    )
    &&& pe.paths@.len() <= STORED_CONTEXT_EVIDENCE_MAX_PATHS_PER_CATEGORY
    &&& pe.warnings@.len() <= STORED_CONTEXT_EVIDENCE_MAX_WARNINGS_PER_CATEGORY
}

/// Whether `ev` is the persisted evidence of messages `start..=end`: each category the
/// finished form of what the range accumulates.
pub open spec fn extracted_from(ev: FileEvidence, messages: Seq<StoredMessage>, start: int, end: int) -> bool {
    &&& finished(ev.changed, range_evidence(messages, start, end).changed)
    &&& finished(ev.read_or_inspected, range_evidence(messages, start, end).read_or_inspected)
    &&& finished(ev.searched_or_browsed, range_evidence(messages, start, end).searched_or_browsed)
}

/// Whether two persisted categories say the same: the same paths and warnings in the same
/// order, and the same completeness.
pub open spec fn same_path_evidence(a: PathEvidence, b: PathEvidence) -> bool {
    &&& views(a.paths@) == views(b.paths@)
    &&& a.complete == b.complete
    &&& views(a.warnings@) == views(b.warnings@)
}

/// The effect of one content block: a tool call is judged by its results in the range.
pub open spec fn tool_use_step(
    ev: FileEvidenceModel,
    block: ContentBlock,
    range_blocks: Seq<ContentBlock>,
) -> FileEvidenceModel {
    match block {
        ContentBlock::ToolUse { id, name, input, .. } => spec_inspect(
            ev,
            name@,
            input@,
            outcome_from_results(results_for(range_blocks, id@)),
            0,
        ),
        _ => ev,
    }
}

/// The evidence after the blocks of `prefix`, judged against all blocks of the range.
pub open spec fn evidence_over(prefix: Seq<ContentBlock>, range_blocks: Seq<ContentBlock>) -> FileEvidenceModel
    decreases prefix.len(),
{
    if prefix.len() == 0 {
        FileEvidenceModel::empty_complete()
    } else {
        tool_use_step(evidence_over(prefix.drop_last(), range_blocks), prefix.last(), range_blocks)
    }
}

/// The evidence of messages `start..=end`.
pub open spec fn range_evidence(msgs: Seq<StoredMessage>, start: int, end: int) -> FileEvidenceModel {
    let blocks = flat_blocks(range_of(msgs, start, end));
    evidence_over(blocks, blocks)
}

impl FileEvidenceAccumulator {
    /// The persisted categories.
    pub fn finish(self) -> (r: FileEvidence)
        requires
            self.wf(),
        ensures
            finished(r.changed, self@.changed),
            finished(r.read_or_inspected, self@.read_or_inspected),
            finished(r.searched_or_browsed, self@.searched_or_browsed),
    {
        FileEvidence {
            changed: self.changed.finish(),
            read_or_inspected: self.read_or_inspected.finish(),
            searched_or_browsed: self.searched_or_browsed.finish(),
        }
    }
}

/// Extracts auditable file evidence from exactly the messages `start..=end`: only tool calls in
/// the range count, each judged by its results within the range.
pub fn extract_context_file_evidence(messages: &Vec<StoredMessage>, start: usize, end: usize) -> (r:
    Result<FileEvidence, MessageRangeResolutionError>)
    ensures
        match r {
            Ok(ev) => {
                &&& start <= end < messages.len()
                &&& extracted_from(ev, messages@, start as int, end as int)
            },
            Err(MessageRangeResolutionError::Reversed) => start > end,
            Err(MessageRangeResolutionError::OutOfBounds) => start <= end && end >= messages.len(),
        },
{
    if start > end {
        return Err(MessageRangeResolutionError::Reversed);
    }
    if end >= messages.len() {
        return Err(MessageRangeResolutionError::OutOfBounds);
    }
    let ghost range = range_of(messages@, start as int, end as int);
    let ghost all = flat_blocks(range);
    let mut acc = FileEvidenceAccumulator::complete();
    let mut k: usize = start;
    let ghost mut prefix: Seq<ContentBlock> = Seq::empty();
    assert(range.take(0) =~= Seq::<StoredMessage>::empty());
    while k <= end
        invariant
            start <= k <= end + 1,
            end < messages.len(),
            range == range_of(messages@, start as int, end as int),
            all == flat_blocks(range),
            prefix == flat_blocks(range.take(k - start)),
            acc.wf(),
            acc@ == evidence_over(prefix, all),
        decreases end + 1 - k,
    {
        let msg = &messages[k];
        assert(range[k - start] == messages@[k as int]);
        let ghost base = prefix;
        let mut j: usize = 0;
        while j < msg.content.len()
            invariant
                j <= msg.content.len(),
                start <= k <= end,
                end < messages.len(),
                range == range_of(messages@, start as int, end as int),
                all == flat_blocks(range),
                prefix == base + msg.content@.take(j as int),
                acc.wf(),
                acc@ == evidence_over(prefix, all),
            decreases msg.content.len() - j,
        {
            let ghost next = base + msg.content@.take(j + 1);
            assert(next =~= prefix.push(msg.content@[j as int]));
            assert(next.drop_last() =~= prefix);
            match &msg.content[j] {
                ContentBlock::ToolUse { id, name, input, .. } => {
                    let outcome = top_level_tool_outcome(messages, start, end, id.as_str());
                    inspect_tool_call(name.as_str(), input, outcome, 0, &mut acc);
                },
                _ => {},
            }
            proof {
                prefix = next;
            }
            j += 1;
        }
        assert(msg.content@.take(msg.content.len() as int) =~= msg.content@);
        assert(range.take(k + 1 - start).drop_last() =~= range.take(k - start));
        k += 1;
    }
    assert(range.take(end + 1 - start) =~= range);
    Ok(acc.finish())
}

/// Whether two range evidence records say the same.
pub open spec fn same_evidence(a: FileEvidence, b: FileEvidence) -> bool {
    &&& same_path_evidence(a.changed, b.changed)
    &&& same_path_evidence(a.read_or_inspected, b.read_or_inspected)
    &&& same_path_evidence(a.searched_or_browsed, b.searched_or_browsed)
}

/// A copy of a persisted category.
pub fn copy_path_evidence(e: &PathEvidence) -> (r: PathEvidence)
    ensures
        same_path_evidence(r, *e),
{
    PathEvidence {
        paths: copy_strings(&e.paths),
        complete: e.complete,
        warnings: copy_strings(&e.warnings),
    }
}

/// A copy of a range's persisted evidence.
pub fn copy_evidence(e: &FileEvidence) -> (r: FileEvidence)
    ensures
        same_evidence(r, *e),
{
    FileEvidence {
        changed: copy_path_evidence(&e.changed),
        read_or_inspected: copy_path_evidence(&e.read_or_inspected),
        searched_or_browsed: copy_path_evidence(&e.searched_or_browsed),
    }
}

} // verus!
