//! The atomic tasks of a curator plan: one range-summary task per selected range, then one
//! distillation task per selected tool result, each with its system prompt, its response
//! contract and its isolated source scope.

use vstd::prelude::*;

use crate::curator::{
    effective_prompt_text, range_system_prompt, tool_system_prompt, ContextCuratorError,
    StoredContextCuratorRole, RANGE_MANDATORY_INSTRUCTIONS, RANGE_SUMMARIZER_BASE_PROMPT,
    TOOL_DISTILLER_BASE_PROMPT, TOOL_MANDATORY_INSTRUCTIONS,
};
use crate::model::StoredMessage;
use crate::scope::{
    call_positions, exclusion_list, in_intervals, law_exclusions_cover_every_tool_source,
    law_tool_scope_support_is_isolated, lemma_call_positions_valid, range_scope,
    range_scope_entries, scope_view, shows_block, tool_scope, tool_scope_entries,
    tool_scope_outcome, tool_source_exclusions, valid_position, ContextCuratorRangeWork,
    ContextCuratorSourcePurpose, ContextCuratorTaskKind, ContextCuratorToolWork, ScopedMessage,
};
use crate::text::views;

verus! {

/// One atomic curator task.
pub struct ContextCuratorTask {
    pub task_id: String,
    pub role: StoredContextCuratorRole,
    pub kind: ContextCuratorTaskKind,
    pub system_prompt: String,
    pub response_contract: String,
    pub scope: Vec<ScopedMessage>,
    pub active_summary_texts: Vec<String>,
}

/// Whether `t` is the range-summary task for `work` over `interval`.
pub open spec fn range_task(
    t: ContextCuratorTask,
    work: ContextCuratorRangeWork,
    interval: (usize, usize),
    transaction: Seq<char>,
    contract: Seq<char>,
) -> bool {
    &&& t.task_id@ == work.request_id@
    &&& t.role == StoredContextCuratorRole::RangeSummarizer
    &&& t.kind == ContextCuratorTaskKind::Range(work)
    &&& t.system_prompt@ == effective_prompt_text(
        RANGE_SUMMARIZER_BASE_PROMPT@,
        RANGE_MANDATORY_INSTRUCTIONS@,
        transaction,
        work.additional_instructions@,
    )
    &&& t.response_contract@ == contract
    &&& scope_view(t.scope@) == range_scope_entries(interval.0, interval.1)
    &&& t.active_summary_texts@.len() == 0
}

/// Whether `t` is the distillation task for `work`, scoped against the selected ranges and
/// the exclusions of all tool tasks, shown the active summaries.
pub open spec fn tool_task(
    msgs: Seq<StoredMessage>,
    t: ContextCuratorTask,
    work: ContextCuratorToolWork,
    ranges: Seq<(usize, usize)>,
    excluded: Seq<(usize, usize)>,
    summaries: Seq<Seq<char>>,
    transaction: Seq<char>,
    contract: Seq<char>,
) -> bool {
    &&& t.task_id@ == work.request_id@
    &&& t.role == StoredContextCuratorRole::ToolResultDistiller
    &&& t.kind == ContextCuratorTaskKind::Tool(work)
    &&& t.system_prompt@ == effective_prompt_text(
        TOOL_DISTILLER_BASE_PROMPT@,
        TOOL_MANDATORY_INSTRUCTIONS@,
        transaction,
        Seq::empty(),
    )
    &&& t.response_contract@ == contract
    &&& tool_scope_outcome(msgs, work, ranges, excluded, Ok(t.scope))
    &&& views(t.active_summary_texts@) == summaries
}

/// Whether a tool task has exactly one matching call.
pub open spec fn scopable(msgs: Seq<StoredMessage>, work: ContextCuratorToolWork) -> bool {
    call_positions(msgs, work.tool_call_id@).len() == 1
}

pub(crate) fn copy_strings(v: &Vec<String>) -> (r: Vec<String>)
    ensures
        views(r@) == views(v@),
{
    let mut out: Vec<String> = Vec::new();
    let mut i: usize = 0;
    while i < v.len()
        invariant
            i <= v@.len(),
            views(out@) == views(v@.take(i as int)),
        decreases v.len() - i,
    {
        let ghost prev = out@;
        out.push(v[i].clone());
        proof {
            assert(views(out@) =~= views(prev).push(v@[i as int]@));
            assert(v@.take(i + 1) =~= v@.take(i as int).push(v@[i as int]));
            assert(views(v@.take(i + 1)) =~= views(v@.take(i as int)).push(v@[i as int]@));
            assert(views(out@) =~= views(v@.take(i + 1)));
        }
        i += 1;
    }
    proof {
        assert(v@.take(v@.len() as int) =~= v@);
    }
    out
}

/// The tasks of a curator plan, in order: a range-summary task for each range work over its
/// interval of `range_intervals`, then a distillation task for each tool work. Each tool
/// task's supporting conversation leaves out the selected ranges and every tool task's own
/// call and result. Refused, with the first such task's error, when a tool task has no single
/// matching call.
#[verifier::loop_isolation(false)]
pub fn build_curator_tasks(
    messages: &[StoredMessage],
    ranges: Vec<ContextCuratorRangeWork>,
    range_intervals: &[(usize, usize)],
    tools: Vec<ContextCuratorToolWork>,
    active_summary_texts: &Vec<String>,
    transaction_instructions: &str,
    range_contract: &str,
    tool_contract: &str,
) -> (r: Result<Vec<ContextCuratorTask>, ContextCuratorError>)
    requires
        ranges@.len() == range_intervals@.len(),
        forall|k: int|
            0 <= k < tools@.len() ==> valid_position(
                messages@,
                (#[trigger] tools@[k].message_index, tools@[k].block_index),
            ),
    ensures
        match r {
            Ok(tasks) => {
                &&& tasks@.len() == ranges@.len() + tools@.len()
                &&& forall|k: int|
                    0 <= k < ranges@.len() ==> range_task(
                        #[trigger] tasks@[k],
                        ranges@[k],
                        range_intervals@[k],
                        transaction_instructions@,
                        range_contract@,
                    )
                &&& forall|k: int|
                    0 <= k < tools@.len() ==> tool_task(
                        messages@,
                        #[trigger] tasks@[ranges@.len() + k],
                        tools@[k],
                        range_intervals@,
                        exclusion_list(messages@, tools@),
                        views(active_summary_texts@),
                        transaction_instructions@,
                        tool_contract@,
                    )
            },
            Err(e) => exists|k: int|
                0 <= k < tools@.len() && !scopable(messages@, #[trigger] tools@[k]) && (forall|j: int|
                    0 <= j < k ==> scopable(messages@, #[trigger] tools@[j])) && tool_scope_outcome(
                    messages@,
                    tools@[k],
                    range_intervals@,
                    exclusion_list(messages@, tools@),
                    Err(e),
                ),
        },
{
    let exclusions = tool_source_exclusions(messages, &tools);
    let range_count: usize = ranges.len();
    let tool_count: usize = tools.len();
    let ghost all_ranges = ranges@;
    let ghost all_tools = tools@;
    let mut tasks: Vec<ContextCuratorTask> = Vec::new();
    let mut ranges = ranges;
    let mut i: usize = 0;
    while ranges.len() > 0
        invariant
            i <= all_ranges.len(),
            all_ranges.len() == range_intervals@.len(),
            all_ranges.len() == range_count,
            ranges@ == all_ranges.skip(i as int),
            tasks@.len() == i,
            forall|k: int|
                0 <= k < i ==> range_task(
                    #[trigger] tasks@[k],
                    all_ranges[k],
                    range_intervals@[k],
                    transaction_instructions@,
                    range_contract@,
                ),
        decreases ranges.len(),
    {
        let work = ranges.remove(0);
        proof {
            assert(work == all_ranges[i as int]);
            assert(ranges@ =~= all_ranges.skip(i + 1));
        }
        let (start, end) = range_intervals[i];
        let task = ContextCuratorTask {
            task_id: work.request_id.clone(),
            role: StoredContextCuratorRole::RangeSummarizer,
            system_prompt: range_system_prompt(
                transaction_instructions,
                work.additional_instructions.as_str(),
            ),
            response_contract: String::from_str(range_contract),
            scope: range_scope(start, end),
            active_summary_texts: Vec::new(),
            kind: ContextCuratorTaskKind::Range(work),
        };
        tasks.push(task);
        i += 1;
    }
    let ghost range_tasks = tasks@;
    let mut tools = tools;
    let mut j: usize = 0;
    while tools.len() > 0
        invariant
            j <= all_tools.len(),
            all_tools.len() == tool_count,
            i == all_ranges.len(),
            tools@ == all_tools.skip(j as int),
            exclusions@ == exclusion_list(messages@, all_tools),
            tasks@.len() == i + j,
            forall|k: int| 0 <= k < i ==> #[trigger] tasks@[k] == range_tasks[k],
            forall|k: int|
                0 <= k < i ==> range_task(
                    #[trigger] range_tasks[k],
                    all_ranges[k],
                    range_intervals@[k],
                    transaction_instructions@,
                    range_contract@,
                ),
            forall|k: int|
                0 <= k < all_tools.len() ==> valid_position(
                    messages@,
                    (#[trigger] all_tools[k].message_index, all_tools[k].block_index),
                ),
            forall|k: int| 0 <= k < j ==> scopable(messages@, #[trigger] all_tools[k]),
            forall|k: int|
                0 <= k < j ==> tool_task(
                    messages@,
                    #[trigger] tasks@[i + k],
                    all_tools[k],
                    range_intervals@,
                    exclusion_list(messages@, all_tools),
                    views(active_summary_texts@),
                    transaction_instructions@,
                    tool_contract@,
                ),
        decreases tools.len(),
    {
        let work = tools.remove(0);
        proof {
            assert(work == all_tools[j as int]);
            assert(tools@ =~= all_tools.skip(j + 1));
        }
        let scope = match tool_scope(messages, &work, range_intervals, &exclusions) {
            Ok(scope) => scope,
            Err(e) => {
                proof {
                    assert(!scopable(messages@, all_tools[j as int]));
                    assert(tool_scope_outcome(
                        messages@,
                        all_tools[j as int],
                        range_intervals@,
                        exclusion_list(messages@, all_tools),
                        Err(e),
                    ));
                    assert(0 <= j < all_tools.len() && !scopable(messages@, all_tools[j as int])
                        && (forall|jj: int| 0 <= jj < j ==> scopable(messages@, #[trigger] all_tools[jj])));
                }
                return Err(e);
            },
        };
        let task = ContextCuratorTask {
            task_id: work.request_id.clone(),
            role: StoredContextCuratorRole::ToolResultDistiller,
            system_prompt: tool_system_prompt(transaction_instructions),
            response_contract: String::from_str(tool_contract),
            scope,
            active_summary_texts: copy_strings(active_summary_texts),
            kind: ContextCuratorTaskKind::Tool(work),
        };
        let ghost before = tasks@;
        tasks.push(task);
        proof {
            assert(tasks@[i + j as int] == task);
            assert forall|k: int| 0 <= k < i implies #[trigger] tasks@[k] == range_tasks[k] by {
                assert(tasks@[k] == before[k]);
            }
            assert forall|k: int|
                0 <= k < j + 1 implies tool_task(
                messages@,
                #[trigger] tasks@[i + k],
                all_tools[k],
                range_intervals@,
                exclusion_list(messages@, all_tools),
                views(active_summary_texts@),
                transaction_instructions@,
                tool_contract@,
            ) by {
                if k < j {
                    assert(tasks@[i + k] == before[i + k]);
                }
            }
        }
        j += 1;
    }
    Ok(tasks)
}

/// The tool tasks of a plan are isolated: what a tool task is shown as supporting conversation
/// is never inside a range selected for summary, and never the result or the call of any tool
/// task of the plan, its own included.
pub proof fn law_tool_tasks_are_isolated(
    msgs: Seq<StoredMessage>,
    ranges: Seq<(usize, usize)>,
    tools: Seq<ContextCuratorToolWork>,
    k: int,
    other: int,
    entry: int,
    b: usize,
)
    requires
        msgs.len() <= usize::MAX,
        forall|t: int|
            0 <= t < tools.len() ==> valid_position(
                msgs,
                (#[trigger] tools[t].message_index, tools[t].block_index),
            ),
        0 <= k < tools.len(),
        0 <= other < tools.len(),
        scopable(msgs, tools[k]),
        ({
            let entries = tool_scope_entries(
                msgs,
                ranges,
                call_positions(msgs, tools[k].tool_call_id@)[0],
                (tools[k].message_index, tools[k].block_index),
                exclusion_list(msgs, tools),
            );
            &&& 0 <= entry < entries.len()
            &&& entries[entry].purpose == ContextCuratorSourcePurpose::SupportingConversation
            &&& shows_block(msgs, entries[entry], b)
        }),
    ensures
        ({
            let mi = tool_scope_entries(
                msgs,
                ranges,
                call_positions(msgs, tools[k].tool_call_id@)[0],
                (tools[k].message_index, tools[k].block_index),
                exclusion_list(msgs, tools),
            )[entry].message_index;
            &&& !in_intervals(ranges, mi as int)
            &&& (mi, b) != (tools[other].message_index, tools[other].block_index)
            &&& !call_positions(msgs, tools[other].tool_call_id@).contains((mi, b))
        }),
{
    let call = call_positions(msgs, tools[k].tool_call_id@)[0];
    let result = (tools[k].message_index, tools[k].block_index);
    let excluded = exclusion_list(msgs, tools);
    lemma_call_positions_valid(msgs, tools[k].tool_call_id@);
    assert(valid_position(msgs, call));
    assert(valid_position(msgs, result));
    law_tool_scope_support_is_isolated(msgs, ranges, call, result, excluded, entry, b);
    let mi = tool_scope_entries(msgs, ranges, call, result, excluded)[entry].message_index;
    if (mi, b) == (tools[other].message_index, tools[other].block_index) {
        law_exclusions_cover_every_tool_source(msgs, tools, other, (mi, b));
    }
    if call_positions(msgs, tools[other].tool_call_id@).contains((mi, b)) {
        law_exclusions_cover_every_tool_source(msgs, tools, other, (mi, b));
    }
}

} // verus!
