//! Turning the distiller's judgements into a draft's optional distillations: an eligible
//! replacement becomes a proposal (selected by default) once it passes the strict 20 percent
//! gate, an ineligible one is listed with its reason.

use vstd::prelude::*;

use crate::curator::{
    nonblank, opt_view, strictly_below_fifth, ContextCuratorRangeArtifact, ContextCuratorRoute,
    ContextCuratorToolArtifact, StoredContextArtifactGenerator, StoredContextCuratorRole,
    StoredContextCuratorSelectionSource, CONTEXT_RANGE_SUMMARIZER_PROMPT_VERSION,
};
use crate::evidence::extract::{copy_evidence, same_evidence, FileEvidence};
use crate::protocol::ContextDistillationProposal;
use crate::scope::{ContextCuratorRangeWork, ContextCuratorToolWork};
use crate::session::{
    copy_string_list, copy_suppression, same_suppression, ContextServiceError, ServiceErrorModel,
    StoredContextOperation, StoredMessageRange, StoredRangeSummary, StoredReasoningSuppression,
    StoredToolResultDistillation,
};
use crate::text::{concat2, concat3, str_eq};

verus! {

/// A tool result the distiller judged ineligible, with its reason.
#[derive(Clone, Debug)]
pub struct ContextIneligibleDistillation {
    pub request_id: String,
    pub tool_name: String,
    pub tool_call_id: String,
    pub reason: String,
    pub uncertainties: Vec<String>,
}

/// A replacement's size relative to the original, in millionths, at most `u32::MAX`; an
/// original estimated at zero counts as one token.
pub open spec fn ratio_millionths(replacement: nat, original: nat) -> nat {
    let r = replacement * 1_000_000 / if original == 0 {
        1
    } else {
        original
    };
    if r > u32::MAX {
        u32::MAX as nat
    } else {
        r
    }
}

/// The replacement's size relative to the original (see [`ratio_millionths`]).
pub fn replacement_ratio_millionths(replacement: usize, original: usize) -> (r: u32)
    ensures
        r == ratio_millionths(replacement as nat, original as nat),
{
    let divisor: u128 = if original == 0 {
        1
    } else {
        original as u128
    };
    let scaled: u128 = (replacement as u128) * 1_000_000;
    let r = scaled / divisor;
    if r > u32::MAX as u128 {
        u32::MAX
    } else {
        r as u32
    }
}

/// The last tool work with request ID `id` among the first `n`.
pub open spec fn last_work(tools: Seq<ContextCuratorToolWork>, id: Seq<char>, n: int) -> Option<int>
    decreases n,
{
    if n <= 0 {
        None
    } else if tools[n - 1].request_id@ == id {
        Some(n - 1)
    } else {
        last_work(tools, id, n - 1)
    }
}

proof fn lemma_last_work(tools: Seq<ContextCuratorToolWork>, id: Seq<char>, n: int)
    requires
        n <= tools.len(),
    ensures
        last_work(tools, id, n) matches Some(w) ==> 0 <= w < n && tools[w].request_id@ == id,
    decreases n,
{
    if n > 0 {
        lemma_last_work(tools, id, n - 1);
    }
}

/// Whether `p` proposes replacing the result of `work` as judged eligible under request `id`.
pub open spec fn proposal_for(
    p: ContextDistillationProposal,
    id: Seq<char>,
    work: ContextCuratorToolWork,
    replacement: Seq<char>,
    estimate: usize,
    rationale: Seq<char>,
) -> bool {
    &&& p.proposal_id@ == id
    &&& p.selected_by_default
    &&& p.operation.tool_use_id@ == work.tool_call_id@
    &&& p.operation.tool_name@ == work.tool_name@
    &&& p.operation.replacement@ == replacement
    &&& p.operation.original_token_estimate == work.original_token_estimate
    &&& p.operation.replacement_token_estimate == estimate
    &&& p.operation.replacement_ratio_millionths == ratio_millionths(
        estimate as nat,
        work.original_token_estimate as nat,
    )
    &&& p.operation.preservation_rationale@ == rationale
}

/// Whether `i` lists the result of `work` as judged ineligible under request `id`.
pub open spec fn ineligible_for(
    i: ContextIneligibleDistillation,
    id: Seq<char>,
    work: ContextCuratorToolWork,
    reason: Seq<char>,
    uncertainties: Seq<String>,
) -> bool {
    &&& i.request_id@ == id
    &&& i.tool_name@ == work.tool_name@
    &&& i.tool_call_id@ == work.tool_call_id@
    &&& i.reason@ == reason
    &&& i.uncertainties@ == uncertainties
}

/// What one judgement under request `id` gives: refused when no tool work has that request
/// ID, or when an eligible replacement is not strictly below 20 percent of the original.
pub open spec fn judgement_error(
    tools: Seq<ContextCuratorToolWork>,
    id: Seq<char>,
    artifact: ContextCuratorToolArtifact,
) -> Option<ServiceErrorModel> {
    match last_work(tools, id, tools.len() as int) {
        None => Some(ServiceErrorModel::Curator("unknown tool artifact "@ + id)),
        Some(w) => match artifact {
            ContextCuratorToolArtifact::Eligible { replacement_token_estimate, .. } => if strictly_below_fifth(
                replacement_token_estimate as nat,
                tools[w].original_token_estimate as nat,
            ) {
                None
            } else {
                Some(
                    ServiceErrorModel::Curator(
                        "tool artifact "@ + id + " failed the strict below-20-percent gate"@,
                    ),
                )
            },
            ContextCuratorToolArtifact::Ineligible { .. } => None,
        },
    }
}

/// The judgements accepted before the first refused one: all of them when none is refused.
pub open spec fn accepted_prefix(
    tools: Seq<ContextCuratorToolWork>,
    judgements: Seq<(String, ContextCuratorToolArtifact)>,
) -> int
    decreases judgements.len(),
{
    if judgements.len() == 0 {
        0
    } else {
        let p = accepted_prefix(tools, judgements.drop_last());
        if p < judgements.len() - 1 {
            p
        } else if judgement_error(tools, judgements.last().0@, judgements.last().1) is Some {
            p
        } else {
            judgements.len() as int
        }
    }
}

proof fn lemma_accepted_prefix_bounds(
    tools: Seq<ContextCuratorToolWork>,
    judgements: Seq<(String, ContextCuratorToolArtifact)>,
)
    ensures
        0 <= accepted_prefix(tools, judgements) <= judgements.len(),
        accepted_prefix(tools, judgements) < judgements.len() ==> judgement_error(
            tools,
            judgements[accepted_prefix(tools, judgements)].0@,
            judgements[accepted_prefix(tools, judgements)].1,
        ) is Some,
        forall|k: int|
            0 <= k < accepted_prefix(tools, judgements) ==> judgement_error(
                tools,
                (#[trigger] judgements[k]).0@,
                judgements[k].1,
            ) is None,
    decreases judgements.len(),
{
    if judgements.len() > 0 {
        let prev = judgements.drop_last();
        lemma_accepted_prefix_bounds(tools, prev);
        let p = accepted_prefix(tools, judgements);
        assert forall|k: int| 0 <= k < p implies judgement_error(
            tools,
            (#[trigger] judgements[k]).0@,
            judgements[k].1,
        ) is None by {
            if k < prev.len() {
                assert(prev[k] == judgements[k]);
            } else {
                assert(judgements.last() == judgements[k]);
            }
        }
    }
}

fn find_work(tools: &[ContextCuratorToolWork], id: &str) -> (r: Option<usize>)
    ensures
        match r {
            Some(w) => w < tools@.len() && last_work(tools@, id@, tools@.len() as int) == Some(
                w as int,
            ),
            None => last_work(tools@, id@, tools@.len() as int) is None,
        },
{
    proof {
        lemma_last_work(tools@, id@, tools@.len() as int);
    }
    let mut n: usize = tools.len();
    while n > 0
        invariant
            n <= tools@.len(),
            last_work(tools@, id@, tools@.len() as int) == last_work(tools@, id@, n as int),
        decreases n,
    {
        if str_eq(tools[n - 1].request_id.as_str(), id) {
            return Some(n - 1);
        }
        n -= 1;
    }
    None
}

/// How many of the first `n` judgements are eligible replacements.
pub open spec fn eligible_count(judgements: Seq<(String, ContextCuratorToolArtifact)>, n: int) -> int
    decreases n,
{
    if n <= 0 {
        0
    } else {
        eligible_count(judgements, n - 1) + if judgements[n - 1].1 is Eligible {
            1int
        } else {
            0int
        }
    }
}

proof fn lemma_eligible_count(judgements: Seq<(String, ContextCuratorToolArtifact)>, a: int, b: int)
    requires
        0 <= a <= b,
    ensures
        0 <= eligible_count(judgements, a) <= eligible_count(judgements, b),
        eligible_count(judgements, b) - eligible_count(judgements, a) <= b - a,
    decreases b - a,
{
    if a < b {
        lemma_eligible_count(judgements, a, b - 1);
    } else {
        lemma_eligible_count_nonnegative(judgements, a);
    }
}

proof fn lemma_eligible_count_nonnegative(judgements: Seq<(String, ContextCuratorToolArtifact)>, n: int)
    ensures
        0 <= eligible_count(judgements, n),
    decreases n,
{
    if n > 0 {
        lemma_eligible_count_nonnegative(judgements, n - 1);
    }
}

/// Whether judgement `k` stands in the output: an eligible one as the proposal after those of
/// the eligible judgements before it, an ineligible one as the listing after those of the
/// ineligible judgements before it.
pub open spec fn judgement_listed(
    tools: Seq<ContextCuratorToolWork>,
    judgements: Seq<(String, ContextCuratorToolArtifact)>,
    k: int,
    proposals: Seq<ContextDistillationProposal>,
    ineligible: Seq<ContextIneligibleDistillation>,
) -> bool {
    let id = judgements[k].0@;
    let w = tools[last_work(tools, id, tools.len() as int)->0];
    let c = eligible_count(judgements, k);
    match judgements[k].1 {
        ContextCuratorToolArtifact::Eligible {
            replacement,
            replacement_token_estimate,
            preservation_rationale,
            ..
        } => proposal_for(
            proposals[c],
            id,
            w,
            replacement@,
            replacement_token_estimate,
            preservation_rationale@,
        ),
        ContextCuratorToolArtifact::Ineligible { reason, uncertainties } => ineligible_for(
            ineligible[k - c],
            id,
            w,
            reason@,
            uncertainties@,
        ),
    }
}

/// The proposals and ineligible listings of the distiller's judgements, each list in the
/// order of the judgements (the order of their request IDs): each judgement is matched to the
/// last tool work with its request ID. Refused at the first judgement with no such work, or
/// whose eligible replacement is not strictly below 20 percent of the original (see
/// [`judgement_error`]).
pub fn distillation_proposals(
    tools: &[ContextCuratorToolWork],
    judgements: Vec<(String, ContextCuratorToolArtifact)>,
) -> (r: Result<
    (Vec<ContextDistillationProposal>, Vec<ContextIneligibleDistillation>),
    ContextServiceError,
>)
    ensures
        ({
            let p = accepted_prefix(tools@, judgements@);
            let n = judgements@.len() as int;
            match r {
                Ok((proposals, ineligible)) => {
                    &&& p == n
                    &&& proposals@.len() == eligible_count(judgements@, n)
                    &&& ineligible@.len() == n - eligible_count(judgements@, n)
                    &&& forall|k: int|
                        0 <= k < n ==> judgement_listed(
                            tools@,
                            judgements@,
                            k,
                            proposals@,
                            ineligible@,
                        )
                    &&& forall|q: int|
                        0 <= q < proposals@.len() ==> strictly_below_fifth(
                            (#[trigger] proposals@[q]).operation.replacement_token_estimate as nat,
                            proposals@[q].operation.original_token_estimate as nat,
                        )
                },
                Err(e) => p < n && judgement_error(tools@, judgements@[p].0@, judgements@[p].1)
                    == Some(e@),
            }
        }),
{
    let ghost all = judgements@;
    let judgement_count: usize = judgements.len();
    proof {
        lemma_accepted_prefix_bounds(tools@, all);
    }
    let mut pending = judgements;
    let mut proposals: Vec<ContextDistillationProposal> = Vec::new();
    let mut ineligible: Vec<ContextIneligibleDistillation> = Vec::new();
    let mut i: usize = 0;
    while pending.len() > 0
        invariant
            i <= all.len(),
            all == judgements@,
            all.len() == judgement_count,
            pending@ == all.skip(i as int),
            proposals@.len() == eligible_count(all, i as int),
            ineligible@.len() == i - eligible_count(all, i as int),
            0 <= accepted_prefix(tools@, all) <= all.len(),
            accepted_prefix(tools@, all) < all.len() ==> judgement_error(
                tools@,
                all[accepted_prefix(tools@, all)].0@,
                all[accepted_prefix(tools@, all)].1,
            ) is Some,
            forall|k: int|
                0 <= k < accepted_prefix(tools@, all) ==> judgement_error(
                    tools@,
                    (#[trigger] all[k]).0@,
                    all[k].1,
                ) is None,
            i <= accepted_prefix(tools@, all),
            forall|k: int|
                0 <= k < i ==> judgement_listed(tools@, all, k, proposals@, ineligible@),
            forall|q: int|
                0 <= q < proposals@.len() ==> strictly_below_fifth(
                    (#[trigger] proposals@[q]).operation.replacement_token_estimate as nat,
                    proposals@[q].operation.original_token_estimate as nat,
                ),
        decreases pending.len(),
    {
        let (id, artifact) = pending.remove(0);
        proof {
            assert((id, artifact) == all[i as int]);
            assert(pending@ =~= all.skip(i + 1));
            lemma_eligible_count(all, 0, i as int);
        }
        let w = match find_work(tools, id.as_str()) {
            Some(w) => w,
            None => {
                let message = concat2("unknown tool artifact ", id.as_str());
                proof {
                    assert(judgement_error(tools@, all[i as int].0@, all[i as int].1) == Some(
                        ServiceErrorModel::Curator(message@),
                    ));
                    assert(i == accepted_prefix(tools@, all));
                }
                return Err(ContextServiceError::Curator(message));
            },
        };
        let work = &tools[w];
        let ghost old_proposals = proposals@;
        let ghost old_ineligible = ineligible@;
        match artifact {
            ContextCuratorToolArtifact::Eligible {
                replacement,
                replacement_token_estimate,
                preservation_rationale,
                uncertainties: _,
            } => {
                let original = work.original_token_estimate;
                let below = original > 0 && (replacement_token_estimate as u128) * 100
                    < (original as u128) * 20;
                if !below {
                    let message = concat3(
                        "tool artifact ",
                        id.as_str(),
                        " failed the strict below-20-percent gate",
                    );
                    proof {
                        assert(judgement_error(tools@, all[i as int].0@, all[i as int].1) == Some(
                            ServiceErrorModel::Curator(message@),
                        ));
                        assert(i == accepted_prefix(tools@, all));
                    }
                    return Err(ContextServiceError::Curator(message));
                }
                let ratio = replacement_ratio_millionths(replacement_token_estimate, original);
                proposals.push(
                    ContextDistillationProposal {
                        proposal_id: id,
                        selected_by_default: true,
                        operation: StoredToolResultDistillation {
                            tool_use_id: work.tool_call_id.clone(),
                            tool_name: work.tool_name.clone(),
                            replacement,
                            original_token_estimate: original,
                            replacement_token_estimate,
                            replacement_ratio_millionths: ratio,
                            preservation_rationale,
                        },
                    },
                );
            },
            ContextCuratorToolArtifact::Ineligible { reason, uncertainties } => {
                ineligible.push(
                    ContextIneligibleDistillation {
                        request_id: id,
                        tool_name: work.tool_name.clone(),
                        tool_call_id: work.tool_call_id.clone(),
                        reason,
                        uncertainties,
                    },
                );
            },
        }
        proof {
            assert forall|k: int| 0 <= k < i + 1 implies judgement_listed(
                tools@,
                all,
                k,
                proposals@,
                ineligible@,
            ) by {
                lemma_eligible_count(all, k, i as int);
                lemma_eligible_count(all, 0, k);
                if k < i {
                    assert(judgement_listed(tools@, all, k, old_proposals, old_ineligible));
                    lemma_eligible_count(all, k + 1, i as int);
                    if all[k].1 is Eligible {
                        assert(proposals@[eligible_count(all, k)] == old_proposals[eligible_count(
                            all,
                            k,
                        )]);
                    } else {
                        assert(ineligible@[k - eligible_count(all, k)] == old_ineligible[k
                            - eligible_count(all, k)]);
                    }
                }
            }
        }
        i += 1;
    }
    proof {
        assert(all.skip(i as int).len() == 0);
        assert(i == all.len());
    }
    Ok((proposals, ineligible))
}

/// A range captured for summarizing: its request ID, the stored range, the file evidence
/// extracted from it and the range's estimated provider tokens.
pub struct CapturedRange {
    pub request_id: String,
    pub source_range: StoredMessageRange,
    pub file_evidence: FileEvidence,
    pub source_token_estimate: usize,
}

/// The first captured range work at or after position `k` with request ID `id`.
pub open spec fn first_range_work(ranges: Seq<ContextCuratorRangeWork>, id: Seq<char>, k: int) -> Option<
    int,
>
    decreases ranges.len() - k,
{
    if k < 0 || k >= ranges.len() {
        None
    } else if ranges[k].request_id@ == id {
        Some(k)
    } else {
        first_range_work(ranges, id, k + 1)
    }
}

/// The last generated summary for request ID `id` among the first `n`.
pub open spec fn last_summary(
    summaries: Seq<(String, ContextCuratorRangeArtifact)>,
    id: Seq<char>,
    n: int,
) -> Option<int>
    decreases n,
{
    if n <= 0 {
        None
    } else if summaries[n - 1].0@ == id {
        Some(n - 1)
    } else {
        last_summary(summaries, id, n - 1)
    }
}

pub open spec fn no_route_text() -> Seq<char> {
    "generated context artifacts have no independent curator route identity"@
}

/// Why the required operations of a draft cannot be built, if they cannot: artifacts were
/// generated without a curator route, or the first captured range lacks its work or its
/// generated summary.
pub open spec fn required_operations_error(
    metadata: Seq<CapturedRange>,
    ranges: Seq<ContextCuratorRangeWork>,
    summaries: Seq<(String, ContextCuratorRangeArtifact)>,
    has_route: bool,
    has_tools: bool,
) -> Option<Seq<char>> {
    if !has_route && (metadata.len() > 0 || has_tools) {
        Some(no_route_text())
    } else {
        first_range_error(metadata, ranges, summaries, metadata.len() as int)
    }
}

/// The error of the first of the first `n` captured ranges that lacks its work or summary.
pub open spec fn first_range_error(
    metadata: Seq<CapturedRange>,
    ranges: Seq<ContextCuratorRangeWork>,
    summaries: Seq<(String, ContextCuratorRangeArtifact)>,
    n: int,
) -> Option<Seq<char>>
    decreases n,
{
    if n <= 0 {
        None
    } else {
        match first_range_error(metadata, ranges, summaries, n - 1) {
            Some(e) => Some(e),
            None => {
                let id = metadata[n - 1].request_id@;
                if first_range_work(ranges, id, 0) is None {
                    Some("missing captured range work "@ + id)
                } else if last_summary(summaries, id, summaries.len() as int) is None {
                    Some("missing generated range artifact "@ + id)
                } else {
                    None
                }
            },
        }
    }
}

/// Whether `g` records route `route` generating with the given role, prompt version,
/// selection source and instructions (blank instructions recorded as absent).
pub open spec fn generated_by(
    g: StoredContextArtifactGenerator,
    route: ContextCuratorRoute,
    role: StoredContextCuratorRole,
    prompt_version: Seq<char>,
    selection_source: StoredContextCuratorSelectionSource,
    transaction_instructions: Seq<char>,
    task_instructions: Seq<char>,
) -> bool {
    &&& g.provider == route.provider_name
    &&& g.model == route.model
    &&& g.route == route.route
    &&& g.prompt_version@ == prompt_version
    &&& g.effort == route.effort
    &&& g.role == Some(role)
    &&& g.selection_source == Some(selection_source)
    &&& opt_view(g.transaction_instructions) == nonblank(transaction_instructions)
    &&& opt_view(g.task_instructions) == nonblank(task_instructions)
}

/// Whether `op` is the range summary of captured range `m`: the generated artifact's summary,
/// file-change digest and warnings; the range's file evidence; no asserted changed files
/// yet; generated by `route` as range summarizer with the transaction's and the range work's
/// instructions; created at `now`; its replacement not yet measured.
pub open spec fn range_summary_of(
    op: StoredContextOperation,
    m: CapturedRange,
    artifact: ContextCuratorRangeArtifact,
    work: ContextCuratorRangeWork,
    route: ContextCuratorRoute,
    selection_source: StoredContextCuratorSelectionSource,
    transaction_instructions: Seq<char>,
    now: i64,
) -> bool {
    &&& op matches StoredContextOperation::RangeSummary(s)
    &&& s.source_range == m.source_range
    &&& s.summary@ == artifact.summary@
    &&& s.file_change_digest@ == artifact.file_change_digest@
    &&& s.changed_files@.len() == 0
    &&& !s.change_evidence_complete
    &&& (s.file_evidence matches Some(fe) && same_evidence(fe, m.file_evidence))
    &&& (s.generator matches Some(g) && generated_by(
        g,
        route,
        StoredContextCuratorRole::RangeSummarizer,
        CONTEXT_RANGE_SUMMARIZER_PROMPT_VERSION@,
        selection_source,
        transaction_instructions,
        work.additional_instructions@,
    ))
    &&& s.source_token_estimate == m.source_token_estimate
    &&& s.replacement_token_estimate == 0
    &&& s.warnings@ == artifact.warnings@
    &&& s.created_at == now
}

/// The summary of captured range `m` among the required operations, given the works,
/// artifacts and provenance.
pub open spec fn summarizes_range(
    op: StoredContextOperation,
    m: CapturedRange,
    ranges: Seq<ContextCuratorRangeWork>,
    summaries: Seq<(String, ContextCuratorRangeArtifact)>,
    route: ContextCuratorRoute,
    selection_source: StoredContextCuratorSelectionSource,
    transaction_instructions: Seq<char>,
    now: i64,
) -> bool {
    range_summary_of(
        op,
        m,
        summaries[last_summary(summaries, m.request_id@, summaries.len() as int)->0].1,
        ranges[first_range_work(ranges, m.request_id@, 0)->0],
        route,
        selection_source,
        transaction_instructions,
        now,
    )
}

/// Whether a reasoning suppression is present and has targets.
pub open spec fn has_reasoning_targets(reasoning: Option<StoredReasoningSuppression>) -> bool {
    reasoning matches Some(s) && s.targets@.len() > 0
}

fn find_range_work(ranges: &[ContextCuratorRangeWork], id: &str) -> (r: Option<usize>)
    ensures
        match r {
            Some(w) => w < ranges@.len() && first_range_work(ranges@, id@, 0) == Some(w as int),
            None => first_range_work(ranges@, id@, 0) is None,
        },
{
    let mut k: usize = 0;
    while k < ranges.len()
        invariant
            k <= ranges@.len(),
            first_range_work(ranges@, id@, 0) == first_range_work(ranges@, id@, k as int),
        decreases ranges.len() - k,
    {
        if str_eq(ranges[k].request_id.as_str(), id) {
            return Some(k);
        }
        k += 1;
    }
    None
}

fn find_summary(summaries: &[(String, ContextCuratorRangeArtifact)], id: &str) -> (r: Option<usize>)
    ensures
        match r {
            Some(w) => w < summaries@.len() && last_summary(summaries@, id@, summaries@.len() as int)
                == Some(w as int),
            None => last_summary(summaries@, id@, summaries@.len() as int) is None,
        },
{
    let mut n: usize = summaries.len();
    while n > 0
        invariant
            n <= summaries@.len(),
            last_summary(summaries@, id@, summaries@.len() as int) == last_summary(
                summaries@,
                id@,
                n as int,
            ),
        decreases n,
    {
        if str_eq(summaries[n - 1].0.as_str(), id) {
            return Some(n - 1);
        }
        n -= 1;
    }
    None
}

proof fn lemma_first_range_error_stays(
    metadata: Seq<CapturedRange>,
    ranges: Seq<ContextCuratorRangeWork>,
    summaries: Seq<(String, ContextCuratorRangeArtifact)>,
    a: int,
    b: int,
)
    requires
        0 <= a <= b,
        first_range_error(metadata, ranges, summaries, a) is Some,
    ensures
        first_range_error(metadata, ranges, summaries, b) == first_range_error(
            metadata,
            ranges,
            summaries,
            a,
        ),
    decreases b - a,
{
    if a < b {
        lemma_first_range_error_stays(metadata, ranges, summaries, a, b - 1);
    }
}

/// The operations a ready draft requires: a range summary for each captured range, in order
/// (see [`summarizes_range`]: the last artifact generated for its request ID, the first work
/// with that ID, generated by `route`, created at `now`), then the reasoning suppression when
/// it has targets. Refused when artifacts were generated without a curator route, or a
/// captured range lacks its work or its summary (see [`required_operations_error`]).
pub fn required_operations(
    metadata: &[CapturedRange],
    ranges: &[ContextCuratorRangeWork],
    summaries: &[(String, ContextCuratorRangeArtifact)],
    reasoning: &Option<StoredReasoningSuppression>,
    route: &Option<ContextCuratorRoute>,
    has_tools: bool,
    selection_source: StoredContextCuratorSelectionSource,
    transaction_instructions: &str,
    now: i64,
) -> (r: Result<Vec<StoredContextOperation>, ContextServiceError>)
    ensures
        match required_operations_error(metadata@, ranges@, summaries@, route is Some, has_tools) {
            Some(m) => r matches Err(e) && e@ == ServiceErrorModel::Curator(m),
            None => {
                &&& r matches Ok(ops)
                &&& ops@.len() == metadata@.len() + if has_reasoning_targets(*reasoning) {
                    1int
                } else {
                    0int
                }
                &&& forall|k: int|
                    0 <= k < metadata@.len() ==> summarizes_range(
                        #[trigger] ops@[k],
                        metadata@[k],
                        ranges@,
                        summaries@,
                        route->0,
                        selection_source,
                        transaction_instructions@,
                        now,
                    )
                &&& has_reasoning_targets(*reasoning) ==> (ops@.last() matches StoredContextOperation::ReasoningSuppression(x)
                    && same_suppression(x, reasoning->0))
            },
        },
{
    if route.is_none() && (metadata.len() > 0 || has_tools) {
        return Err(ContextServiceError::Curator(String::from_str(
            "generated context artifacts have no independent curator route identity",
        )));
    }
    let mut ops: Vec<StoredContextOperation> = Vec::new();
    let mut i: usize = 0;
    while i < metadata.len()
        invariant
            i <= metadata@.len(),
            route is Some || (metadata@.len() == 0 && !has_tools),
            first_range_error(metadata@, ranges@, summaries@, i as int) is None,
            ops@.len() == i,
            forall|k: int|
                0 <= k < i ==> summarizes_range(
                    #[trigger] ops@[k],
                    metadata@[k],
                    ranges@,
                    summaries@,
                    route->0,
                    selection_source,
                    transaction_instructions@,
                    now,
                ),
        decreases metadata.len() - i,
    {
        let m = &metadata[i];
        let work = match find_range_work(ranges, m.request_id.as_str()) {
            Some(k) => k,
            None => {
                let e = concat2("missing captured range work ", m.request_id.as_str());
                proof {
                    lemma_first_range_error_stays(
                        metadata@,
                        ranges@,
                        summaries@,
                        i + 1,
                        metadata@.len() as int,
                    );
                }
                return Err(ContextServiceError::Curator(e));
            },
        };
        let w = match find_summary(summaries, m.request_id.as_str()) {
            Some(w) => w,
            None => {
                let e = concat2("missing generated range artifact ", m.request_id.as_str());
                proof {
                    lemma_first_range_error_stays(
                        metadata@,
                        ranges@,
                        summaries@,
                        i + 1,
                        metadata@.len() as int,
                    );
                }
                return Err(ContextServiceError::Curator(e));
            },
        };
        let generator = match route {
            Some(rt) => rt.generator(
                StoredContextCuratorRole::RangeSummarizer,
                CONTEXT_RANGE_SUMMARIZER_PROMPT_VERSION,
                selection_source,
                transaction_instructions,
                ranges[work].additional_instructions.as_str(),
            ),
            None => {
                return Err(ContextServiceError::Curator(String::from_str(
                    "generated context artifacts have no independent curator route identity",
                )));
            },
        };
        let artifact = &summaries[w].1;
        ops.push(
            StoredContextOperation::RangeSummary(
                StoredRangeSummary {
                    source_range: m.source_range.clone(),
                    summary: artifact.summary.clone(),
                    file_change_digest: artifact.file_change_digest.clone(),
                    changed_files: Vec::new(),
                    change_evidence_complete: false,
                    file_evidence: Some(copy_evidence(&m.file_evidence)),
                    generator: Some(generator),
                    source_token_estimate: m.source_token_estimate,
                    replacement_token_estimate: 0,
                    warnings: copy_string_list(&artifact.warnings),
                    created_at: now,
                },
            ),
        );
        i += 1;
    }
    match reasoning {
        Some(s) => {
            if s.targets.len() > 0 {
                ops.push(StoredContextOperation::ReasoningSuppression(copy_suppression(s)));
            }
        },
        None => {},
    }
    Ok(ops)
}

/// The notice a review carries when nothing is left to change.
pub open spec fn no_op_notice() -> Seq<char> {
    "No provider-context change remains after exact active-operation and proposal filtering. This review is a no-op and cannot be applied."@
}

/// The notices of a ready draft: those of its capture, then the no-op notice when no
/// operation remains to apply.
pub fn ready_draft_notices(notices: Vec<String>, operations: &[StoredContextOperation]) -> (r: Vec<
    String,
>)
    ensures
        operations@.len() > 0 ==> r@ == notices@,
        operations@.len() == 0 ==> r@.len() == notices@.len() + 1 && r@.drop_last() == notices@
            && r@.last()@ == no_op_notice(),
{
    let mut notices = notices;
    if operations.len() == 0 {
        let notice = String::from_str(
            "No provider-context change remains after exact active-operation and proposal filtering. This review is a no-op and cannot be applied.",
        );
        proof {
            reveal_strlit(
                "No provider-context change remains after exact active-operation and proposal filtering. This review is a no-op and cannot be applied.",
            );
        }
        notices.push(notice);
    }
    notices
}

} // verus!
