//! Capturing a draft from the transcript: the tool results selected for distillation, the
//! replayed reasoning left to suppress once summaries and active operations are accounted
//! for, and the notices that say what was omitted.

use vstd::prelude::*;

use crate::draft::interval_contains;
use crate::model::{
    message_position, position_of_message, ContentBlock, JsonValue, StoredContextBlockKind,
    StoredMessage,
};
use crate::scope::{
    call_positions, in_intervals, is_call_block, lemma_call_positions_valid, tool_call_positions,
    valid_position, ContextCuratorToolWork,
};
use crate::session::{
    spec_is_active, ContextServiceError, ServiceErrorModel, StoredContextOperation,
    StoredContextTransaction, StoredContextViewState, StoredReasoningSuppression,
    StoredReasoningTarget,
};
use crate::text::{
    concat2, concat3, decimal, decimal_string, insert_sorted, join_strings, join_with, sat_add,
    strictly_sorted, views,
};

verus! {

/// Whether `name` and `input` are those of the tool call block `block`.
pub open spec fn call_has(block: ContentBlock, name: Seq<char>, input: JsonValue) -> bool {
    block matches ContentBlock::ToolUse { name: n, input: i, .. } && n@ == name && i@ == input@
}

/// Why no single tool call answers a result, if none does: no call, or more than one.
pub open spec fn unique_call_error(msgs: Seq<StoredMessage>, tool_use_id: Seq<char>) -> Option<
    ServiceErrorModel,
> {
    let n = call_positions(msgs, tool_use_id).len();
    if n == 0 {
        Some(
            ServiceErrorModel::InvalidSelection(
                "matching ToolUse not found for result "@ + tool_use_id,
            ),
        )
    } else if n > 1 {
        Some(
            ServiceErrorModel::InvalidSelection(
                "matching ToolUse is ambiguous for result "@ + tool_use_id,
            ),
        )
    } else {
        None
    }
}

/// The name and input of the one tool call that a tool result answers.
pub fn find_unique_tool_call(messages: &[StoredMessage], tool_use_id: &str) -> (r: Result<
    (String, JsonValue),
    ContextServiceError,
>)
    ensures
        match r {
            Ok((name, input)) => {
                let p = call_positions(messages@, tool_use_id@)[0];
                &&& unique_call_error(messages@, tool_use_id@) is None
                &&& call_has(messages@[p.0 as int].content@[p.1 as int], name@, input)
            },
            Err(e) => unique_call_error(messages@, tool_use_id@) == Some(e@),
        },
{
    let calls = tool_call_positions(messages, tool_use_id);
    let n = messages.len();
    proof {
        lemma_call_positions_valid(messages@, tool_use_id@);
    }
    if calls.len() == 0 {
        return Err(
            ContextServiceError::InvalidSelection(
                concat2("matching ToolUse not found for result ", tool_use_id),
            ),
        );
    }
    if calls.len() > 1 {
        return Err(
            ContextServiceError::InvalidSelection(
                concat2("matching ToolUse is ambiguous for result ", tool_use_id),
            ),
        );
    }
    let p = calls[0];
    assert(valid_position(messages@, p));
    match &messages[p.0].content[p.1] {
        ContentBlock::ToolUse { name, input, .. } => Ok((name.clone(), input.deep_clone())),
        _ => {
            assert(false);
            Err(ContextServiceError::EmptyRequest)
        },
    }
}

/// The texts of the range summaries among some operations, in order.
pub open spec fn summary_texts_of(ops: Seq<StoredContextOperation>) -> Seq<Seq<char>>
    decreases ops.len(),
{
    if ops.len() == 0 {
        Seq::empty()
    } else {
        summary_texts_of(ops.drop_last()) + match ops.last() {
            StoredContextOperation::RangeSummary(s) => seq![s.summary@],
            _ => Seq::empty(),
        }
    }
}

/// The texts of the active range summaries of some transactions, in order.
pub open spec fn active_summary_texts_of(txs: Seq<StoredContextTransaction>) -> Seq<Seq<char>>
    decreases txs.len(),
{
    if txs.len() == 0 {
        Seq::empty()
    } else {
        active_summary_texts_of(txs.drop_last()) + if spec_is_active(txs.last()) {
            summary_texts_of(txs.last().operations@)
        } else {
            Seq::empty()
        }
    }
}

/// The texts of the range summaries of the active transactions, in order: what a tool
/// distiller is told the provider already sees in place of summarized ranges.
pub fn active_summary_texts(state: &StoredContextViewState) -> (r: Vec<String>)
    ensures
        views(r@) == active_summary_texts_of(state.transactions@),
{
    let mut out: Vec<String> = Vec::new();
    let txs = &state.transactions;
    let mut t: usize = 0;
    while t < txs.len()
        invariant
            t <= txs@.len(),
            views(out@) == active_summary_texts_of(txs@.take(t as int)),
        decreases txs.len() - t,
    {
        let ghost before = views(out@);
        let tx = &txs[t];
        if tx.is_active() {
            let ops = &tx.operations;
            let mut o: usize = 0;
            while o < ops.len()
                invariant
                    o <= ops@.len(),
                    views(out@) == before + summary_texts_of(ops@.take(o as int)),
                decreases ops.len() - o,
            {
                let ghost prev = views(out@);
                match &ops[o] {
                    StoredContextOperation::RangeSummary(s) => {
                        out.push(s.summary.clone());
                        assert(views(out@) =~= prev + seq![s.summary@]);
                    },
                    _ => {
                        assert(views(out@) =~= prev + Seq::<Seq<char>>::empty());
                    },
                }
                proof {
                    assert(ops@.take(o + 1).drop_last() =~= ops@.take(o as int));
                    assert(ops@.take(o + 1).last() == ops@[o as int]);
                    assert(views(out@) =~= before + summary_texts_of(ops@.take(o + 1)));
                }
                o += 1;
            }
            proof {
                assert(ops@.take(ops@.len() as int) =~= ops@);
            }
        }
        proof {
            assert(txs@.take(t + 1).drop_last() =~= txs@.take(t as int));
            assert(views(out@) =~= active_summary_texts_of(txs@.take(t + 1)));
        }
        t += 1;
    }
    proof {
        assert(txs@.take(txs@.len() as int) =~= txs@);
    }
    out
}

/// A tool result selected for distillation: a stored message and the ordinal of the block.
#[derive(Clone, Debug)]
pub struct ContextToolResultSelection {
    pub message_id: String,
    pub block_ordinal: usize,
}

/// What one selected tool result contributes to a capture.
pub enum SelectionStep {
    Fail(ServiceErrorModel),
    Omit(Seq<char>),
    Take(usize, usize),
}

/// The (message, block) positions of the selections taken so far.
pub open spec fn picked_pairs(picked: Seq<(nat, usize, usize)>) -> Seq<(usize, usize)> {
    picked.map_values(|p: (nat, usize, usize)| (p.1, p.2))
}

/// The notice for a selection inside a range selected for summary.
pub open spec fn omitted_notice(id: Seq<char>, ord: usize) -> Seq<char> {
    "Tool result "@ + id + " block "@ + decimal(ord as nat)
        + " is inside a selected summary range and was omitted."@
}

/// `prefix`, the message ID, `" block "` and the ordinal.
pub open spec fn selection_text(prefix: Seq<char>, id: Seq<char>, ord: usize) -> Seq<char> {
    prefix + id + " block "@ + decimal(ord as nat)
}

/// What a selection contributes, given the positions taken before it: the message must exist;
/// inside a selected summary range it is omitted with a notice; else its block must exist, be
/// taken once only, be a tool result, and answer exactly one tool call.
pub open spec fn selection_step(
    msgs: Seq<StoredMessage>,
    intervals: Seq<(usize, usize)>,
    sel: ContextToolResultSelection,
    picked: Seq<(nat, usize, usize)>,
) -> SelectionStep {
    let id = sel.message_id@;
    let ord = sel.block_ordinal;
    match message_position(msgs, id) {
        None => SelectionStep::Fail(
            ServiceErrorModel::InvalidSelection("tool-result message not found: "@ + id),
        ),
        Some(mi) => if in_intervals(intervals, mi as int) {
            SelectionStep::Omit(omitted_notice(id, ord))
        } else if ord >= msgs[mi as int].content@.len() {
            SelectionStep::Fail(
                ServiceErrorModel::InvalidSelection(
                    selection_text("tool-result block is out of bounds: "@, id, ord),
                ),
            )
        } else if picked_pairs(picked).contains((mi as usize, ord)) {
            SelectionStep::Fail(
                ServiceErrorModel::InvalidSelection(
                    selection_text("tool-result target was selected more than once: "@, id, ord),
                ),
            )
        } else {
            match msgs[mi as int].content@[ord as int] {
                ContentBlock::ToolResult { tool_use_id, .. } => match unique_call_error(
                    msgs,
                    tool_use_id@,
                ) {
                    Some(e) => SelectionStep::Fail(e),
                    None => SelectionStep::Take(mi as usize, ord),
                },
                _ => SelectionStep::Fail(
                    ServiceErrorModel::InvalidSelection(
                        selection_text("selected block is not a ToolResult: "@, id, ord),
                    ),
                ),
            }
        },
    }
}

/// The outcome of capturing selected tool results: the first failure, or the positions taken
/// (with the index of their selection) and the notices of omitted ones.
pub enum ToolCaptureModel {
    Failed(ServiceErrorModel),
    Captured(Seq<(nat, usize, usize)>, Seq<Seq<char>>),
}

/// Captures the selections in order.
pub open spec fn tool_capture(
    msgs: Seq<StoredMessage>,
    intervals: Seq<(usize, usize)>,
    sels: Seq<ContextToolResultSelection>,
) -> ToolCaptureModel
    decreases sels.len(),
{
    if sels.len() == 0 {
        ToolCaptureModel::Captured(Seq::empty(), Seq::empty())
    } else {
        match tool_capture(msgs, intervals, sels.drop_last()) {
            ToolCaptureModel::Failed(e) => ToolCaptureModel::Failed(e),
            ToolCaptureModel::Captured(picked, notices) => match selection_step(
                msgs,
                intervals,
                sels.last(),
                picked,
            ) {
                SelectionStep::Fail(e) => ToolCaptureModel::Failed(e),
                SelectionStep::Omit(n) => ToolCaptureModel::Captured(picked, notices.push(n)),
                SelectionStep::Take(mi, ord) => ToolCaptureModel::Captured(
                    picked.push(((sels.len() - 1) as nat, mi, ord)),
                    notices,
                ),
            },
        }
    }
}

/// Whether `w` is the distillation work for the selection taken at `pick`: named after its
/// selection, at the picked block, for the call it answers.
pub open spec fn work_for(
    msgs: Seq<StoredMessage>,
    pick: (nat, usize, usize),
    w: ContextCuratorToolWork,
) -> bool {
    let block = msgs[pick.1 as int].content@[pick.2 as int];
    &&& w.request_id@ == "tool-"@ + decimal(pick.0 + 1)
    &&& w.message_index == pick.1
    &&& w.block_index == pick.2
    &&& block matches ContentBlock::ToolResult { tool_use_id, is_error, .. } && w.tool_call_id@
        == tool_use_id@ && w.is_error == is_error && {
        let p = call_positions(msgs, tool_use_id@)[0];
        call_has(msgs[p.0 as int].content@[p.1 as int], w.tool_name@, w.tool_input)
    }
}

proof fn lemma_capture_failure_persists(
    msgs: Seq<StoredMessage>,
    intervals: Seq<(usize, usize)>,
    sels: Seq<ContextToolResultSelection>,
    j: int,
    e: ServiceErrorModel,
)
    requires
        0 <= j <= sels.len(),
        tool_capture(msgs, intervals, sels.take(j)) == ToolCaptureModel::Failed(e),
    ensures
        tool_capture(msgs, intervals, sels) == ToolCaptureModel::Failed(e),
    decreases sels.len() - j,
{
    if j < sels.len() {
        assert(sels.take(j + 1).drop_last() =~= sels.take(j));
        lemma_capture_failure_persists(msgs, intervals, sels, j + 1, e);
    } else {
        assert(sels.take(j) =~= sels);
    }
}

fn selection_error(prefix: &str, sel: &ContextToolResultSelection) -> (e: ContextServiceError)
    ensures
        e@ == ServiceErrorModel::InvalidSelection(
            selection_text(prefix@, sel.message_id@, sel.block_ordinal),
        ),
{
    let mut m = concat3(prefix, sel.message_id.as_str(), " block ");
    m.append(decimal_string(sel.block_ordinal as u64).as_str());
    ContextServiceError::InvalidSelection(m)
}

/// Captures the tool results selected for distillation, in order: each names its selection
/// (`tool-1`, `tool-2`, ... by selection position), its result block, and the one call it
/// answers; `estimate_tokens` sizes the original result. Selections inside ranges selected
/// for summary are omitted with a notice.
pub fn capture_tool_results<F: Fn(&ContentBlock) -> usize>(
    messages: &[StoredMessage],
    summary_intervals: &[(usize, usize)],
    selections: &[ContextToolResultSelection],
    estimate_tokens: &F,
) -> (r: Result<(Vec<ContextCuratorToolWork>, Vec<String>), ContextServiceError>)
    requires
        forall|b: &ContentBlock| estimate_tokens.requires((b,)),
    ensures
        match tool_capture(messages@, summary_intervals@, selections@) {
            ToolCaptureModel::Failed(m) => r matches Err(e) && e@ == m,
            ToolCaptureModel::Captured(picked, notices) => r matches Ok((works, ns)) && {
                &&& views(ns@) == notices
                &&& works@.len() == picked.len()
                &&& forall|k: int|
                    0 <= k < picked.len() ==> work_for(messages@, picked[k], #[trigger] works@[k])
                        && estimate_tokens.ensures(
                        (&messages@[picked[k].1 as int].content@[picked[k].2 as int],),
                        works@[k].original_token_estimate,
                    )
            },
        },
{
    let ghost msgs = messages@;
    let ghost iv = summary_intervals@;
    let ghost sels = selections@;
    let ghost mut picked: Seq<(nat, usize, usize)> = Seq::empty();
    let mut works: Vec<ContextCuratorToolWork> = Vec::new();
    let mut notices: Vec<String> = Vec::new();
    let mut seen: Vec<(usize, usize)> = Vec::new();
    let mut i: usize = 0;
    proof {
        assert(sels.take(0) =~= Seq::<ContextToolResultSelection>::empty());
        assert(views(notices@) =~= Seq::<Seq<char>>::empty());
        assert(seen@ =~= picked_pairs(picked));
    }
    while i < selections.len()
        invariant
            i <= sels.len(),
            msgs == messages@,
            iv == summary_intervals@,
            sels == selections@,
            forall|b: &ContentBlock| estimate_tokens.requires((b,)),
            tool_capture(msgs, iv, sels.take(i as int)) == ToolCaptureModel::Captured(
                picked,
                views(notices@),
            ),
            seen@ == picked_pairs(picked),
            works@.len() == picked.len(),
            forall|k: int|
                0 <= k < picked.len() ==> work_for(msgs, picked[k], #[trigger] works@[k])
                    && estimate_tokens.ensures(
                    (&msgs[picked[k].1 as int].content@[picked[k].2 as int],),
                    works@[k].original_token_estimate,
                ),
        decreases selections.len() - i,
    {
        let sel = &selections[i];
        proof {
            assert(sels.take(i + 1).drop_last() =~= sels.take(i as int));
            assert(sels.take(i + 1).last() == sels[i as int]);
            crate::model::lemma_message_position(msgs, sel.message_id@);
        }
        let ghost step = selection_step(msgs, iv, *sel, picked);
        let mi = match position_of_message(messages, sel.message_id.as_str()) {
            Some(m) => m,
            None => {
                let e = ContextServiceError::InvalidSelection(
                    concat2("tool-result message not found: ", sel.message_id.as_str()),
                );
                proof {
                    lemma_capture_failure_persists(msgs, iv, sels, i + 1, e@);
                }
                return Err(e);
            },
        };
        if interval_contains(summary_intervals, mi) {
            let mut n = concat3("Tool result ", sel.message_id.as_str(), " block ");
            n.append(decimal_string(sel.block_ordinal as u64).as_str());
            n.append(" is inside a selected summary range and was omitted.");
            let ghost before = views(notices@);
            notices.push(n);
            proof {
                assert(views(notices@) =~= before.push(omitted_notice(sel.message_id@, sel.block_ordinal)));
            }
        } else {
            let ord = sel.block_ordinal;
            if ord >= messages[mi].content.len() {
                let e = selection_error("tool-result block is out of bounds: ", sel);
                proof {
                    lemma_capture_failure_persists(msgs, iv, sels, i + 1, e@);
                }
                return Err(e);
            }
            if crate::scope::pair_listed(&seen, (mi, ord)) {
                let e = selection_error("tool-result target was selected more than once: ", sel);
                proof {
                    lemma_capture_failure_persists(msgs, iv, sels, i + 1, e@);
                }
                return Err(e);
            }
            let block = &messages[mi].content[ord];
            match block {
                ContentBlock::ToolResult { tool_use_id, is_error, .. } => {
                    let (tool_name, tool_input) = match find_unique_tool_call(
                        messages,
                        tool_use_id.as_str(),
                    ) {
                        Ok(found) => found,
                        Err(e) => {
                            proof {
                                lemma_capture_failure_persists(msgs, iv, sels, i + 1, e@);
                            }
                            return Err(e);
                        },
                    };
                    let estimate = estimate_tokens(block);
                    let request_id = concat2(
                        "tool-",
                        decimal_string((i + 1) as u64).as_str(),
                    );
                    works.push(
                        ContextCuratorToolWork {
                            request_id,
                            message_index: mi,
                            block_index: ord,
                            tool_name,
                            tool_call_id: tool_use_id.clone(),
                            tool_input,
                            is_error: *is_error,
                            original_token_estimate: estimate,
                        },
                    );
                    seen.push((mi, ord));
                    proof {
                        let pick = (i as nat, mi, ord);
                        let old_picked = picked;
                        picked = picked.push(pick);
                        assert(seen@ =~= picked_pairs(picked));
                        assert forall|k: int|
                            0 <= k < picked.len() implies work_for(
                            msgs,
                            picked[k],
                            #[trigger] works@[k],
                        ) && estimate_tokens.ensures(
                            (&msgs[picked[k].1 as int].content@[picked[k].2 as int],),
                            works@[k].original_token_estimate,
                        ) by {
                            if k < old_picked.len() {
                                assert(picked[k] == old_picked[k]);
                            }
                        }
                    }
                },
                _ => {
                    let e = selection_error("selected block is not a ToolResult: ", sel);
                    proof {
                        lemma_capture_failure_persists(msgs, iv, sels, i + 1, e@);
                    }
                    return Err(e);
                },
            }
        }
        i += 1;
    }
    proof {
        assert(sels.take(sels.len() as int) =~= sels);
    }
    Ok((works, notices))
}

/// A replayed-reasoning block proposed for suppression, located in the transcript, with its
/// kind and its estimated provider tokens.
#[derive(Clone, Copy, Debug)]
pub struct ReasoningCandidate {
    pub message_index: usize,
    pub block_index: usize,
    pub kind: StoredContextBlockKind,
    pub estimated_tokens: usize,
}

/// How many proposed reasoning targets were dropped, and why.
#[derive(Clone, Copy, Debug)]
pub struct ReasoningFilterStats {
    /// Inside a range selected for summary in the same draft.
    pub selected_summary_targets: usize,
    /// Inside a range an active summary already replaces.
    pub active_summary_targets: usize,
    /// Already suppressed by an active transaction.
    pub already_suppressed_targets: usize,
}

/// The reasoning suppression left once ineffective targets are dropped.
#[derive(Clone, Debug)]
pub struct FilteredReasoning {
    pub retained: Vec<ReasoningCandidate>,
    /// The number of distinct messages the retained targets are in.
    pub assistant_turns_affected: usize,
    /// The kinds of the retained targets, distinct, in kind order.
    pub replay_block_kinds: Vec<StoredContextBlockKind>,
    /// The retained targets' estimated tokens, summed (saturating).
    pub original_token_estimate: usize,
    pub stats: ReasoningFilterStats,
}

/// Why a proposed reasoning target is dropped, or that it is kept.
pub enum ReasoningClass {
    SelectedSummary,
    ActiveSummary,
    AlreadySuppressed,
    Retained,
}

/// The class of a proposed reasoning target: the checks run in this order.
pub open spec fn reasoning_class(
    c: ReasoningCandidate,
    summary: Seq<(usize, usize)>,
    active_summary: Seq<(usize, usize)>,
    suppressed: Seq<(usize, usize)>,
) -> ReasoningClass {
    if in_intervals(summary, c.message_index as int) {
        ReasoningClass::SelectedSummary
    } else if in_intervals(active_summary, c.message_index as int) {
        ReasoningClass::ActiveSummary
    } else if suppressed.contains((c.message_index, c.block_index)) {
        ReasoningClass::AlreadySuppressed
    } else {
        ReasoningClass::Retained
    }
}

/// The retained targets, in order.
pub open spec fn retained_targets(
    cands: Seq<ReasoningCandidate>,
    summary: Seq<(usize, usize)>,
    active_summary: Seq<(usize, usize)>,
    suppressed: Seq<(usize, usize)>,
) -> Seq<ReasoningCandidate>
    decreases cands.len(),
{
    if cands.len() == 0 {
        Seq::empty()
    } else {
        retained_targets(cands.drop_last(), summary, active_summary, suppressed) + if reasoning_class(
            cands.last(),
            summary,
            active_summary,
            suppressed,
        ) is Retained {
            seq![cands.last()]
        } else {
            Seq::empty()
        }
    }
}

/// How many targets fall in class `class`.
pub open spec fn class_count(
    cands: Seq<ReasoningCandidate>,
    summary: Seq<(usize, usize)>,
    active_summary: Seq<(usize, usize)>,
    suppressed: Seq<(usize, usize)>,
    class: ReasoningClass,
) -> nat
    decreases cands.len(),
{
    if cands.len() == 0 {
        0
    } else {
        class_count(cands.drop_last(), summary, active_summary, suppressed, class) + if reasoning_class(
            cands.last(),
            summary,
            active_summary,
            suppressed,
        ) == class {
            1nat
        } else {
            0nat
        }
    }
}

/// The targets' estimated tokens, summed with saturation.
pub open spec fn token_total(cands: Seq<ReasoningCandidate>) -> nat
    decreases cands.len(),
{
    if cands.len() == 0 {
        0
    } else {
        sat_add(token_total(cands.drop_last()), cands.last().estimated_tokens as nat)
    }
}

/// The messages of some targets.
pub open spec fn target_messages(cands: Seq<ReasoningCandidate>) -> Seq<usize> {
    cands.map_values(|c: ReasoningCandidate| c.message_index)
}

/// Every block kind, in kind order.
pub open spec fn kind_order() -> Seq<StoredContextBlockKind> {
    seq![
        StoredContextBlockKind::Text,
        StoredContextBlockKind::Reasoning,
        StoredContextBlockKind::ReasoningTrace,
        StoredContextBlockKind::AnthropicThinking,
        StoredContextBlockKind::OpenAiReasoning,
        StoredContextBlockKind::ToolUse,
        StoredContextBlockKind::ToolResult,
        StoredContextBlockKind::Image,
        StoredContextBlockKind::OpenAiCompaction,
    ]
}

/// Whether some target has kind `k`.
pub open spec fn has_kind(cands: Seq<ReasoningCandidate>, k: StoredContextBlockKind) -> bool {
    exists|i: int| 0 <= i < cands.len() && (#[trigger] cands[i]).kind == k
}

/// The kinds of some targets, distinct, in kind order.
pub open spec fn kinds_in_order(cands: Seq<ReasoningCandidate>) -> Seq<StoredContextBlockKind> {
    kind_order().filter(|k: StoredContextBlockKind| has_kind(cands, k))
}

pub(crate) fn kind_order_vec() -> (r: Vec<StoredContextBlockKind>)
    ensures
        r@ == kind_order(),
{
    let mut v: Vec<StoredContextBlockKind> = Vec::new();
    v.push(StoredContextBlockKind::Text);
    v.push(StoredContextBlockKind::Reasoning);
    v.push(StoredContextBlockKind::ReasoningTrace);
    v.push(StoredContextBlockKind::AnthropicThinking);
    v.push(StoredContextBlockKind::OpenAiReasoning);
    v.push(StoredContextBlockKind::ToolUse);
    v.push(StoredContextBlockKind::ToolResult);
    v.push(StoredContextBlockKind::Image);
    v.push(StoredContextBlockKind::OpenAiCompaction);
    assert(v@ =~= kind_order());
    v
}

fn any_of_kind(cands: &Vec<ReasoningCandidate>, k: StoredContextBlockKind) -> (r: bool)
    ensures
        r == has_kind(cands@, k),
{
    let mut i: usize = 0;
    while i < cands.len()
        invariant
            i <= cands@.len(),
            forall|j: int| 0 <= j < i ==> (#[trigger] cands@[j]).kind != k,
        decreases cands.len() - i,
    {
        if cands[i].kind == k {
            return true;
        }
        i += 1;
    }
    false
}

fn usize_listed(v: &Vec<usize>, x: usize) -> (r: bool)
    ensures
        r == v@.contains(x),
{
    let mut i: usize = 0;
    while i < v.len()
        invariant
            i <= v@.len(),
            forall|j: int| 0 <= j < i ==> v@[j] != x,
        decreases v.len() - i,
    {
        if v[i] == x {
            return true;
        }
        i += 1;
    }
    false
}

/// Drops the proposed reasoning targets that would change nothing: those inside a range
/// selected for summary in the same draft (`summary_intervals`), inside a range an active
/// summary already replaces (`active_summary_intervals`), or already suppressed by an active
/// transaction (`active_suppression_targets`), counting each; and describes what is left.
pub fn filter_effective_reasoning(
    candidates: &Vec<ReasoningCandidate>,
    summary_intervals: &[(usize, usize)],
    active_summary_intervals: &[(usize, usize)],
    active_suppression_targets: &[(usize, usize)],
) -> (r: FilteredReasoning)
    ensures
        ({
            let s = summary_intervals@;
            let a = active_summary_intervals@;
            let t = active_suppression_targets@;
            let kept = retained_targets(candidates@, s, a, t);
            &&& r.retained@ == kept
            &&& r.stats.selected_summary_targets == class_count(
                candidates@,
                s,
                a,
                t,
                ReasoningClass::SelectedSummary,
            )
            &&& r.stats.active_summary_targets == class_count(
                candidates@,
                s,
                a,
                t,
                ReasoningClass::ActiveSummary,
            )
            &&& r.stats.already_suppressed_targets == class_count(
                candidates@,
                s,
                a,
                t,
                ReasoningClass::AlreadySuppressed,
            )
            &&& r.assistant_turns_affected == target_messages(kept).to_set().len()
            &&& r.replay_block_kinds@ == kinds_in_order(kept)
            &&& r.original_token_estimate == token_total(kept)
        }),
{
    let ghost s = summary_intervals@;
    let ghost a = active_summary_intervals@;
    let ghost t = active_suppression_targets@;
    let ghost cands = candidates@;
    let mut retained: Vec<ReasoningCandidate> = Vec::new();
    let mut selected: usize = 0;
    let mut active: usize = 0;
    let mut suppressed: usize = 0;
    let mut tokens: usize = 0;
    let mut turns: Vec<usize> = Vec::new();
    let mut i: usize = 0;
    proof {
        assert(cands.take(0) =~= Seq::<ReasoningCandidate>::empty());
        assert(turns@.to_set() =~= target_messages(retained@).to_set());
    }
    while i < candidates.len()
        invariant
            i <= cands.len(),
            cands == candidates@,
            s == summary_intervals@,
            a == active_summary_intervals@,
            t == active_suppression_targets@,
            retained@ == retained_targets(cands.take(i as int), s, a, t),
            selected == class_count(cands.take(i as int), s, a, t, ReasoningClass::SelectedSummary),
            active == class_count(cands.take(i as int), s, a, t, ReasoningClass::ActiveSummary),
            suppressed == class_count(
                cands.take(i as int),
                s,
                a,
                t,
                ReasoningClass::AlreadySuppressed,
            ),
            selected + active + suppressed + retained@.len() == i,
            tokens == token_total(retained@),
            turns@.no_duplicates(),
            turns@.to_set() == target_messages(retained@).to_set(),
        decreases candidates.len() - i,
    {
        let c = candidates[i];
        let ghost prefix = cands.take(i as int);
        let ghost old_retained = retained@;
        proof {
            assert(cands.take(i + 1).drop_last() =~= prefix);
            assert(cands.take(i + 1).last() == c);
        }
        if interval_contains(summary_intervals, c.message_index) {
            selected += 1;
        } else if interval_contains(active_summary_intervals, c.message_index) {
            active += 1;
        } else if crate::scope::pair_listed(
            active_suppression_targets,
            (c.message_index, c.block_index),
        ) {
            suppressed += 1;
        } else {
            let ghost old_turns = turns@;
            if !usize_listed(&turns, c.message_index) {
                turns.push(c.message_index);
                proof {
                    old_turns.lemma_push_to_set_commute(c.message_index);
                    assert(turns@ == old_turns.push(c.message_index));
                    assert forall|x: int, y: int|
                        0 <= x < turns@.len() && 0 <= y < turns@.len() && x != y implies turns@[x]
                        != turns@[y] by {
                        if x < old_turns.len() && y < old_turns.len() {
                        } else if x < old_turns.len() {
                            assert(old_turns.contains(turns@[x]));
                        } else {
                            assert(old_turns.contains(turns@[y]));
                        }
                    }
                }
            } else {
                proof {
                    assert(old_turns.to_set().contains(c.message_index));
                    assert(old_turns.to_set().insert(c.message_index) =~= old_turns.to_set());
                }
            }
            tokens = tokens.saturating_add(c.estimated_tokens);
            retained.push(c);
            proof {
                assert(retained@.drop_last() =~= old_retained);
                assert(target_messages(retained@) =~= target_messages(old_retained).push(
                    c.message_index,
                ));
                target_messages(old_retained).lemma_push_to_set_commute(c.message_index);
                assert(turns@.to_set() =~= target_messages(retained@).to_set());
            }
        }
        proof {
            assert(retained@ =~= retained_targets(cands.take(i + 1), s, a, t));
        }
        i += 1;
    }
    proof {
        assert(cands.take(cands.len() as int) =~= cands);
        turns@.unique_seq_to_set();
    }
    let order = kind_order_vec();
    let mut kinds: Vec<StoredContextBlockKind> = Vec::new();
    let mut k: usize = 0;
    while k < order.len()
        invariant
            k <= order@.len(),
            order@ == kind_order(),
            kinds@ == order@.take(k as int).filter(
                |x: StoredContextBlockKind| has_kind(retained@, x),
            ),
        decreases order.len() - k,
    {
        let kind = order[k];
        let present = any_of_kind(&retained, kind);
        if present {
            kinds.push(kind);
        }
        proof {
            let f = |x: StoredContextBlockKind| has_kind(retained@, x);
            assert(order@.take(k + 1).drop_last() =~= order@.take(k as int));
            reveal(Seq::filter);
            assert(kinds@ =~= order@.take(k + 1).filter(f));
        }
        k += 1;
    }
    proof {
        assert(order@.take(order@.len() as int) =~= order@);
    }
    FilteredReasoning {
        retained,
        assistant_turns_affected: turns.len(),
        replay_block_kinds: kinds,
        original_token_estimate: tokens,
        stats: ReasoningFilterStats {
            selected_summary_targets: selected,
            active_summary_targets: active,
            already_suppressed_targets: suppressed,
        },
    }
}

/// An active range summary, located in the transcript as the closed interval `start..=end`.
#[derive(Clone, Debug)]
pub struct ActiveSummarySpan {
    pub transaction_id: String,
    pub operation_index: usize,
    pub start: usize,
    pub end: usize,
}

/// The message a block operation of an active transaction targets.
#[derive(Clone, Debug)]
pub struct ActiveBlockTarget {
    pub transaction_id: String,
    pub operation_index: usize,
    pub message_index: usize,
}

/// Whether two closed intervals share a position.
pub open spec fn overlaps(a: (usize, usize), start: usize, end: usize) -> bool {
    a.0 <= end && start <= a.1
}

/// Whether a span overlaps one of some ranges.
pub open spec fn span_overlaps(span: ActiveSummarySpan, ranges: Seq<(usize, usize)>) -> bool {
    exists|k: int| 0 <= k < ranges.len() && overlaps(#[trigger] ranges[k], span.start, span.end)
}

/// `"{transaction}:{operation}"`, how an operation is named in notices.
pub open spec fn operation_label(transaction_id: Seq<char>, operation_index: usize) -> Seq<char> {
    transaction_id + ":"@ + decimal(operation_index as nat)
}

/// Refuses selected ranges that overlap an active range summary, naming the first one.
pub fn reject_active_summary_overlap(
    spans: &[ActiveSummarySpan],
    ranges: &[(usize, usize)],
) -> (r: Result<(), ContextServiceError>)
    ensures
        match r {
            Ok(()) => forall|i: int| 0 <= i < spans@.len() ==> !span_overlaps(#[trigger] spans@[i], ranges@),
            Err(e) => exists|i: int|
                0 <= i < spans@.len() && span_overlaps(#[trigger] spans@[i], ranges@) && (forall|j: int|
                    0 <= j < i ==> !span_overlaps(#[trigger] spans@[j], ranges@)) && e@
                    == ServiceErrorModel::Conflict(
                    "selected range overlaps active summary "@ + spans@[i].transaction_id@
                        + " operation "@ + decimal(spans@[i].operation_index as nat),
                ),
        },
{
    let mut i: usize = 0;
    while i < spans.len()
        invariant
            i <= spans@.len(),
            forall|j: int| 0 <= j < i ==> !span_overlaps(#[trigger] spans@[j], ranges@),
        decreases spans.len() - i,
    {
        let span = &spans[i];
        let mut k: usize = 0;
        while k < ranges.len()
            invariant
                k <= ranges@.len(),
                i < spans@.len(),
                *span == spans@[i as int],
                forall|j: int| 0 <= j < i ==> !span_overlaps(#[trigger] spans@[j], ranges@),
                forall|m: int| 0 <= m < k ==> !overlaps(#[trigger] ranges@[m], span.start, span.end),
            decreases ranges.len() - k,
        {
            if ranges[k].0 <= span.end && span.start <= ranges[k].1 {
                assert(overlaps(ranges@[k as int], span.start, span.end));
                assert(span_overlaps(spans@[i as int], ranges@));
                let mut m = concat3(
                    "selected range overlaps active summary ",
                    span.transaction_id.as_str(),
                    " operation ",
                );
                m.append(decimal_string(span.operation_index as u64).as_str());
                return Err(ContextServiceError::Conflict(m));
            }
            k += 1;
        }
        i += 1;
    }
    Ok(())
}

/// The names of the operations whose targets fall in some ranges.
pub open spec fn shadowed_labels(targets: Seq<ActiveBlockTarget>, ranges: Seq<(usize, usize)>) -> Set<
    Seq<char>,
>
    decreases targets.len(),
{
    if targets.len() == 0 {
        Set::empty()
    } else {
        let t = targets.last();
        let prev = shadowed_labels(targets.drop_last(), ranges);
        if in_intervals(ranges, t.message_index as int) {
            prev.insert(operation_label(t.transaction_id@, t.operation_index))
        } else {
            prev
        }
    }
}

/// The active block operations that selected summary ranges would shadow, as
/// `"{transaction}:{operation}"` names, sorted and distinct.
pub fn active_block_operations_shadowed(
    targets: &[ActiveBlockTarget],
    ranges: &[(usize, usize)],
) -> (r: Vec<String>)
    ensures
        strictly_sorted(views(r@)),
        views(r@).to_set() == shadowed_labels(targets@, ranges@),
{
    let mut out: Vec<String> = Vec::new();
    let mut i: usize = 0;
    proof {
        assert(views(out@).to_set() =~= Set::<Seq<char>>::empty());
        assert(targets@.take(0) =~= Seq::<ActiveBlockTarget>::empty());
    }
    while i < targets.len()
        invariant
            i <= targets@.len(),
            strictly_sorted(views(out@)),
            views(out@).to_set() == shadowed_labels(targets@.take(i as int), ranges@),
        decreases targets.len() - i,
    {
        let t = &targets[i];
        proof {
            assert(targets@.take(i + 1).drop_last() =~= targets@.take(i as int));
            assert(targets@.take(i + 1).last() == targets@[i as int]);
        }
        if interval_contains(ranges, t.message_index) {
            let mut label = concat2(t.transaction_id.as_str(), ":");
            label.append(decimal_string(t.operation_index as u64).as_str());
            insert_sorted(&mut out, label);
        }
        i += 1;
    }
    proof {
        assert(targets@.take(targets@.len() as int) =~= targets@);
    }
    out
}

/// Refuses summaries that would shadow active operations, unless shadowing is allowed.
pub fn check_shadowing(shadowed: &Vec<String>, allow_shadowing: bool) -> (r: Result<
    (),
    ContextServiceError,
>)
    ensures
        match r {
            Ok(()) => shadowed@.len() == 0 || allow_shadowing,
            Err(e) => shadowed@.len() > 0 && !allow_shadowing && e@ == ServiceErrorModel::Conflict(
                "selected summaries would shadow active operations: "@ + join_with(
                    views(shadowed@),
                    ", "@,
                ),
            ),
        },
{
    if shadowed.len() > 0 && !allow_shadowing {
        let joined = join_strings(shadowed, ", ");
        return Err(
            ContextServiceError::Conflict(
                concat2("selected summaries would shadow active operations: ", joined.as_str()),
            ),
        );
    }
    Ok(())
}

/// The notices of a capture: one per shadowed operation, then one per kind of dropped
/// reasoning target that was dropped at least once.
pub open spec fn capture_notice_texts(shadowed: Seq<Seq<char>>, stats: ReasoningFilterStats) -> Seq<
    Seq<char>,
> {
    shadowed.map_values(|op: Seq<char>| "Selected summaries shadow active operation "@ + op + "."@)
        + if stats.selected_summary_targets > 0 {
        seq![
            "Selected summaries already replace "@ + decimal(
                stats.selected_summary_targets as nat,
            ) + " staged replayed-reasoning block target(s); those targets were omitted."@,
        ]
    } else {
        Seq::empty()
    } + if stats.active_summary_targets > 0 {
        seq![
            "Active range summaries already remove "@ + decimal(stats.active_summary_targets as nat)
                + " requested replayed-reasoning block target(s) from provider context; those targets are already satisfied."@,
        ]
    } else {
        Seq::empty()
    } + if stats.already_suppressed_targets > 0 {
        seq![
            "Active context transactions already suppressed "@ + decimal(
                stats.already_suppressed_targets as nat,
            )
                + " requested replayed-reasoning block target(s); only newly eligible exact targets remain staged."@,
        ]
    } else {
        Seq::empty()
    }
}

/// The notices of a capture (see [`capture_notice_texts`]).
pub fn capture_notices(shadowed: &Vec<String>, stats: ReasoningFilterStats) -> (r: Vec<String>)
    ensures
        views(r@) == capture_notice_texts(views(shadowed@), stats),
{
    let mut out: Vec<String> = Vec::new();
    let mut i: usize = 0;
    while i < shadowed.len()
        invariant
            i <= shadowed@.len(),
            views(out@) == views(shadowed@).take(i as int).map_values(
                |op: Seq<char>| "Selected summaries shadow active operation "@ + op + "."@,
            ),
        decreases shadowed.len() - i,
    {
        let ghost prev = views(out@);
        out.push(concat3("Selected summaries shadow active operation ", shadowed[i].as_str(), "."));
        proof {
            let f = |op: Seq<char>| "Selected summaries shadow active operation "@ + op + "."@;
            assert(views(out@) =~= prev.push(f(shadowed@[i as int]@)));
            assert(views(shadowed@).take(i + 1) =~= views(shadowed@).take(i as int).push(
                shadowed@[i as int]@,
            ));
            assert(views(shadowed@).take(i + 1).map_values(f) =~= views(shadowed@).take(
                i as int,
            ).map_values(f).push(f(shadowed@[i as int]@)));
            assert(views(out@) =~= views(shadowed@).take(i + 1).map_values(
                |op: Seq<char>| "Selected summaries shadow active operation "@ + op + "."@,
            ));
        }
        i += 1;
    }
    proof {
        assert(views(shadowed@).take(shadowed@.len() as int) =~= views(shadowed@));
    }
    let ghost head = views(out@);
    if stats.selected_summary_targets > 0 {
        let mut m = concat2(
            "Selected summaries already replace ",
            decimal_string(stats.selected_summary_targets as u64).as_str(),
        );
        m.append(" staged replayed-reasoning block target(s); those targets were omitted.");
        out.push(m);
    }
    let ghost head2 = views(out@);
    if stats.active_summary_targets > 0 {
        let mut m = concat2(
            "Active range summaries already remove ",
            decimal_string(stats.active_summary_targets as u64).as_str(),
        );
        m.append(
            " requested replayed-reasoning block target(s) from provider context; those targets are already satisfied.",
        );
        out.push(m);
    }
    let ghost head3 = views(out@);
    if stats.already_suppressed_targets > 0 {
        let mut m = concat2(
            "Active context transactions already suppressed ",
            decimal_string(stats.already_suppressed_targets as u64).as_str(),
        );
        m.append(
            " requested replayed-reasoning block target(s); only newly eligible exact targets remain staged.",
        );
        out.push(m);
    }
    proof {
        assert(views(out@) =~= capture_notice_texts(views(shadowed@), stats));
    }
    out
}

/// The stored target of a reasoning candidate: the ID of its message, its block and kind.
pub open spec fn stored_target_of(c: ReasoningCandidate, messages: Seq<StoredMessage>) -> StoredReasoningTarget {
    StoredReasoningTarget {
        message_id: messages[c.message_index as int].id,
        block_index: c.block_index,
        kind: c.kind,
    }
}

/// The reasoning suppression a draft stores for the targets left after filtering: each
/// retained target by its message's ID and its block, with the filter's turn count, kinds
/// and token estimate, and no validation evidence yet.
pub fn reasoning_suppression(filtered: &FilteredReasoning, messages: &[StoredMessage]) -> (r:
    StoredReasoningSuppression)
    requires
        forall|i: int|
            0 <= i < filtered.retained@.len() ==> (#[trigger] filtered.retained@[i]).message_index
                < messages@.len(),
    ensures
        r.targets@.len() == filtered.retained@.len(),
        forall|i: int|
            0 <= i < filtered.retained@.len() ==> #[trigger] r.targets@[i] == stored_target_of(
                filtered.retained@[i],
                messages@,
            ),
        r.assistant_turns_affected == filtered.assistant_turns_affected,
        r.replay_block_kinds@ == filtered.replay_block_kinds@,
        r.original_token_estimate == filtered.original_token_estimate,
        r.validation@.len() == 0,
{
    let mut targets: Vec<StoredReasoningTarget> = Vec::new();
    let mut i: usize = 0;
    while i < filtered.retained.len()
        invariant
            i <= filtered.retained@.len(),
            forall|j: int|
                0 <= j < filtered.retained@.len() ==> (#[trigger] filtered.retained@[j]).message_index
                    < messages@.len(),
            targets@.len() == i,
            forall|j: int|
                0 <= j < i ==> #[trigger] targets@[j] == stored_target_of(
                    filtered.retained@[j],
                    messages@,
                ),
        decreases filtered.retained.len() - i,
    {
        let c = &filtered.retained[i];
        targets.push(
            StoredReasoningTarget {
                message_id: messages[c.message_index].id.clone(),
                block_index: c.block_index,
                kind: c.kind,
            },
        );
        i += 1;
    }
    let mut kinds: Vec<StoredContextBlockKind> = Vec::new();
    let mut k: usize = 0;
    while k < filtered.replay_block_kinds.len()
        invariant
            k <= filtered.replay_block_kinds@.len(),
            kinds@ == filtered.replay_block_kinds@.take(k as int),
        decreases filtered.replay_block_kinds.len() - k,
    {
        kinds.push(filtered.replay_block_kinds[k]);
        proof {
            assert(filtered.replay_block_kinds@.take(k + 1) =~= filtered.replay_block_kinds@.take(
                k as int,
            ).push(filtered.replay_block_kinds@[k as int]));
        }
        k += 1;
    }
    proof {
        assert(filtered.replay_block_kinds@.take(filtered.replay_block_kinds@.len() as int)
            =~= filtered.replay_block_kinds@);
    }
    StoredReasoningSuppression {
        targets,
        assistant_turns_affected: filtered.assistant_turns_affected,
        replay_block_kinds: kinds,
        original_token_estimate: filtered.original_token_estimate,
        validation: Vec::new(),
    }
}

/// The exact positions of reasoning targets in the transcript, in order; or the ID of the
/// first target whose message is not there.
pub open spec fn resolved_targets(targets: Seq<StoredReasoningTarget>, messages: Seq<StoredMessage>) -> Result<
    Seq<(usize, usize)>,
    Seq<char>,
>
    decreases targets.len(),
{
    if targets.len() == 0 {
        Ok(Seq::empty())
    } else {
        match resolved_targets(targets.drop_last(), messages) {
            Err(e) => Err(e),
            Ok(prev) => match message_position(messages, targets.last().message_id@) {
                Some(i) => Ok(prev.push((i as usize, targets.last().block_index))),
                None => Err(targets.last().message_id@),
            },
        }
    }
}

/// The exact positions of the reasoning targets that the active transactions among `txs`
/// suppress, transaction by transaction and operation by operation; or the ID of the first
/// target whose message is not in the transcript.
pub open spec fn active_suppression_positions(
    txs: Seq<StoredContextTransaction>,
    messages: Seq<StoredMessage>,
) -> Result<Seq<(usize, usize)>, Seq<char>>
    decreases txs.len(),
{
    if txs.len() == 0 {
        Ok(Seq::empty())
    } else {
        match active_suppression_positions(txs.drop_last(), messages) {
            Err(e) => Err(e),
            Ok(prev) => if spec_is_active(txs.last()) {
                match operation_positions(txs.last().operations@, messages) {
                    Err(e) => Err(e),
                    Ok(more) => Ok(prev + more),
                }
            } else {
                Ok(prev)
            },
        }
    }
}

/// The exact positions of the reasoning targets among some operations.
pub open spec fn operation_positions(ops: Seq<StoredContextOperation>, messages: Seq<StoredMessage>) -> Result<
    Seq<(usize, usize)>,
    Seq<char>,
>
    decreases ops.len(),
{
    if ops.len() == 0 {
        Ok(Seq::empty())
    } else {
        match operation_positions(ops.drop_last(), messages) {
            Err(e) => Err(e),
            Ok(prev) => match ops.last() {
                StoredContextOperation::ReasoningSuppression(s) => match resolved_targets(
                    s.targets@,
                    messages,
                ) {
                    Err(e) => Err(e),
                    Ok(more) => Ok(prev + more),
                },
                _ => Ok(prev),
            },
        }
    }
}

/// The refusal when an active target's message is no longer in the transcript.
pub open spec fn missing_target_text(id: Seq<char>) -> Seq<char> {
    "active reasoning target message not found: "@ + id
}

fn push_resolved_targets(
    out: &mut Vec<(usize, usize)>,
    targets: &Vec<StoredReasoningTarget>,
    messages: &[StoredMessage],
) -> (r: Result<(), String>)
    ensures
        match resolved_targets(targets@, messages@) {
            Ok(more) => r is Ok && final(out)@ == old(out)@ + more,
            Err(id) => r matches Err(e) && e@ == id,
        },
{
    let ghost start = out@;
    let mut i: usize = 0;
    while i < targets.len()
        invariant
            i <= targets@.len(),
            resolved_targets(targets@.take(i as int), messages@) matches Ok(done) && out@ == start
                + done,
        decreases targets.len() - i,
    {
        proof {
            assert(targets@.take(i + 1).drop_last() =~= targets@.take(i as int));
        }
        match position_of_message(messages, targets[i].message_id.as_str()) {
            Some(p) => {
                let ghost done = resolved_targets(targets@.take(i as int), messages@)->Ok_0;
                out.push((p, targets[i].block_index));
                proof {
                    assert(out@ =~= start + done.push((p, targets@[i as int].block_index)));
                }
            },
            None => {
                proof {
                    lemma_resolved_error_stays(targets@, messages@, i + 1);
                }
                return Err(targets[i].message_id.clone());
            },
        }
        i += 1;
    }
    proof {
        assert(targets@.take(targets@.len() as int) =~= targets@);
    }
    Ok(())
}

proof fn lemma_resolved_error_stays(targets: Seq<StoredReasoningTarget>, messages: Seq<StoredMessage>, n: int)
    requires
        0 < n <= targets.len(),
        resolved_targets(targets.take(n), messages) is Err,
    ensures
        resolved_targets(targets, messages) == resolved_targets(targets.take(n), messages),
    decreases targets.len() - n,
{
    if n < targets.len() {
        assert(targets.take(n + 1).drop_last() =~= targets.take(n));
        lemma_resolved_error_stays(targets, messages, n + 1);
    } else {
        assert(targets.take(n) =~= targets);
    }
}

proof fn lemma_operation_error_stays(ops: Seq<StoredContextOperation>, messages: Seq<StoredMessage>, n: int)
    requires
        0 < n <= ops.len(),
        operation_positions(ops.take(n), messages) is Err,
    ensures
        operation_positions(ops, messages) == operation_positions(ops.take(n), messages),
    decreases ops.len() - n,
{
    if n < ops.len() {
        assert(ops.take(n + 1).drop_last() =~= ops.take(n));
        lemma_operation_error_stays(ops, messages, n + 1);
    } else {
        assert(ops.take(n) =~= ops);
    }
}

proof fn lemma_active_error_stays(txs: Seq<StoredContextTransaction>, messages: Seq<StoredMessage>, n: int)
    requires
        0 < n <= txs.len(),
        active_suppression_positions(txs.take(n), messages) is Err,
    ensures
        active_suppression_positions(txs, messages) == active_suppression_positions(txs.take(n), messages),
    decreases txs.len() - n,
{
    if n < txs.len() {
        assert(txs.take(n + 1).drop_last() =~= txs.take(n));
        lemma_active_error_stays(txs, messages, n + 1);
    } else {
        assert(txs.take(n) =~= txs);
    }
}

fn push_operation_targets(
    out: &mut Vec<(usize, usize)>,
    ops: &Vec<StoredContextOperation>,
    messages: &[StoredMessage],
) -> (r: Result<(), String>)
    ensures
        match operation_positions(ops@, messages@) {
            Ok(more) => r is Ok && final(out)@ == old(out)@ + more,
            Err(id) => r matches Err(e) && e@ == id,
        },
{
    let ghost start = out@;
    let mut i: usize = 0;
    while i < ops.len()
        invariant
            i <= ops@.len(),
            operation_positions(ops@.take(i as int), messages@) matches Ok(done) && out@ == start
                + done,
        decreases ops.len() - i,
    {
        proof {
            assert(ops@.take(i + 1).drop_last() =~= ops@.take(i as int));
        }
        let ghost done = operation_positions(ops@.take(i as int), messages@)->Ok_0;
        match &ops[i] {
            StoredContextOperation::ReasoningSuppression(sup) => {
                let ghost before = out@;
                match push_resolved_targets(out, &sup.targets, messages) {
                    Ok(()) => {
                        proof {
                            let more = resolved_targets(sup.targets@, messages@)->Ok_0;
                            assert(out@ =~= start + (done + more));
                        }
                    },
                    Err(e) => {
                        proof {
                            lemma_operation_error_stays(ops@, messages@, i + 1);
                        }
                        return Err(e);
                    },
                }
            },
            _ => {},
        }
        i += 1;
    }
    proof {
        assert(ops@.take(ops@.len() as int) =~= ops@);
    }
    Ok(())
}

/// The exact positions of the reasoning blocks the view's active transactions already
/// suppress (see [`active_suppression_positions`]); refused as stale when a target's message
/// is no longer in the transcript.
pub fn active_suppression_targets(state: &StoredContextViewState, messages: &[StoredMessage]) -> (r:
    Result<Vec<(usize, usize)>, ContextServiceError>)
    ensures
        match active_suppression_positions(state.transactions@, messages@) {
            Ok(p) => r matches Ok(v) && v@ == p,
            Err(id) => r matches Err(e) && e@ == ServiceErrorModel::Stale(missing_target_text(id)),
        },
{
    let txs = &state.transactions;
    let mut out: Vec<(usize, usize)> = Vec::new();
    let mut i: usize = 0;
    while i < txs.len()
        invariant
            txs == &state.transactions,
            i <= txs@.len(),
            active_suppression_positions(txs@.take(i as int), messages@) matches Ok(done) && out@
                == done,
        decreases txs.len() - i,
    {
        proof {
            assert(txs@.take(i + 1).drop_last() =~= txs@.take(i as int));
        }
        if txs[i].is_active() {
            let ghost done = out@;
            match push_operation_targets(&mut out, &txs[i].operations, messages) {
                Ok(()) => {},
                Err(id) => {
                    proof {
                        assert(txs@.take(i + 1).last() == txs@[i as int]);
                        lemma_active_error_stays(txs@, messages@, i + 1);
                        reveal_strlit("active reasoning target message not found: ");
                    }
                    return Err(ContextServiceError::Stale(concat2(
                        "active reasoning target message not found: ",
                        id.as_str(),
                    )));
                },
            }
        }
        i += 1;
    }
    proof {
        assert(txs@.take(txs@.len() as int) =~= txs@);
    }
    Ok(out)
}

} // verus!
