//! The source scope of atomic curator tasks: which stored messages, and which of their
//! blocks, a range summarizer or a tool-result distiller is shown.

use vstd::prelude::*;

use crate::curator::{invalid_response, ContextCuratorError};
use crate::draft::interval_contains;
use crate::evidence::extract::FileEvidence;
use crate::model::{ContentBlock, JsonValue, Role, StoredMessage};
use crate::session::StoredMessageRange;
use crate::text::{concat2, concat3, debug_quoted, debug_str, decimal, decimal_string, str_eq};

verus! {

/// Why a message, or a text, is shown to a curator task.
#[derive(PartialEq, Eq, Structural, Clone, Copy, Debug)]
pub enum ContextCuratorSourcePurpose {
    PrimaryRange,
    PrimaryToolCall,
    PrimaryToolResult,
    SupportingConversation,
    ActiveSummary,
}

/// One stored message shown to a curator task: every block, or the listed ordinals.
#[derive(Clone, Debug)]
pub struct ScopedMessage {
    pub purpose: ContextCuratorSourcePurpose,
    pub message_index: usize,
    pub block_ordinals: Vec<usize>,
    pub includes_all_blocks: bool,
}

/// What a [`ScopedMessage`] says.
pub struct ScopeEntry {
    pub purpose: ContextCuratorSourcePurpose,
    pub message_index: usize,
    pub block_ordinals: Seq<usize>,
    pub includes_all_blocks: bool,
}

impl View for ScopedMessage {
    type V = ScopeEntry;

    open spec fn view(&self) -> ScopeEntry {
        ScopeEntry {
            purpose: self.purpose,
            message_index: self.message_index,
            block_ordinals: self.block_ordinals@,
            includes_all_blocks: self.includes_all_blocks,
        }
    }
}

/// The entries of a scope.
pub open spec fn scope_view(scope: Seq<ScopedMessage>) -> Seq<ScopeEntry> {
    scope.map_values(|s: ScopedMessage| s@)
}

/// A range of stored messages offered to the range summarizer.
pub struct ContextCuratorRangeWork {
    pub request_id: String,
    pub source_range: StoredMessageRange,
    pub file_evidence: FileEvidence,
    pub additional_instructions: String,
}

/// A tool result offered to the tool-result distiller; `message_index` and `block_index`
/// locate the result block in the stored transcript.
#[derive(Clone, Debug)]
pub struct ContextCuratorToolWork {
    pub request_id: String,
    pub message_index: usize,
    pub block_index: usize,
    pub tool_name: String,
    pub tool_call_id: String,
    pub tool_input: JsonValue,
    pub is_error: Option<bool>,
    pub original_token_estimate: usize,
}

/// Whether a block is the tool call with the given ID.
pub open spec fn is_call_block(block: ContentBlock, call_id: Seq<char>) -> bool {
    block matches ContentBlock::ToolUse { id, .. } && id@ == call_id
}

/// The positions, among the first `n` blocks of message `mi`, of the tool calls with ID
/// `call_id`.
pub open spec fn calls_in_blocks(
    blocks: Seq<ContentBlock>,
    call_id: Seq<char>,
    mi: usize,
    n: int,
) -> Seq<(usize, usize)>
    decreases n,
{
    if n <= 0 {
        Seq::empty()
    } else {
        calls_in_blocks(blocks, call_id, mi, n - 1) + if is_call_block(blocks[n - 1], call_id) {
            seq![(mi, (n - 1) as usize)]
        } else {
            Seq::empty()
        }
    }
}

/// The positions, in the first `m` messages, of the tool calls with ID `call_id`.
pub open spec fn calls_upto(msgs: Seq<StoredMessage>, call_id: Seq<char>, m: int) -> Seq<
    (usize, usize),
>
    decreases m,
{
    if m <= 0 {
        Seq::empty()
    } else {
        calls_upto(msgs, call_id, m - 1) + calls_in_blocks(
            msgs[m - 1].content@,
            call_id,
            (m - 1) as usize,
            msgs[m - 1].content@.len() as int,
        )
    }
}

/// The (message, block) positions of the tool calls with ID `call_id`, in transcript order.
pub open spec fn call_positions(msgs: Seq<StoredMessage>, call_id: Seq<char>) -> Seq<
    (usize, usize),
> {
    calls_upto(msgs, call_id, msgs.len() as int)
}

/// Whether a position names a block of the transcript.
pub open spec fn valid_position(msgs: Seq<StoredMessage>, p: (usize, usize)) -> bool {
    p.0 < msgs.len() && p.1 < msgs[p.0 as int].content@.len()
}

proof fn lemma_calls_in_blocks_valid(
    msgs: Seq<StoredMessage>,
    call_id: Seq<char>,
    mi: usize,
    n: int,
)
    requires
        mi < msgs.len(),
        n <= msgs[mi as int].content.len(),
    ensures
        forall|k: int|
            0 <= k < calls_in_blocks(msgs[mi as int].content@, call_id, mi, n).len() ==> {
                let p = #[trigger] calls_in_blocks(msgs[mi as int].content@, call_id, mi, n)[k];
                &&& valid_position(msgs, p)
                &&& p.0 == mi
                &&& is_call_block(msgs[mi as int].content@[p.1 as int], call_id)
            },
    decreases n,
{
    if n > 0 {
        lemma_calls_in_blocks_valid(msgs, call_id, mi, n - 1);
        assert(msgs[mi as int].content.len() == msgs[mi as int].content@.len());
        let blocks = msgs[mi as int].content@;
        let prev = calls_in_blocks(blocks, call_id, mi, n - 1);
        let all = calls_in_blocks(blocks, call_id, mi, n);
        assert forall|k: int| 0 <= k < all.len() implies {
            let p = #[trigger] all[k];
            &&& valid_position(msgs, p)
            &&& p.0 == mi
            &&& is_call_block(blocks[p.1 as int], call_id)
        } by {
            if k < prev.len() {
                assert(all[k] == prev[k]);
            }
        }
    }
}

proof fn lemma_calls_upto_valid(msgs: Seq<StoredMessage>, call_id: Seq<char>, m: int)
    requires
        m <= msgs.len(),
        msgs.len() <= usize::MAX,
    ensures
        forall|k: int|
            0 <= k < calls_upto(msgs, call_id, m).len() ==> {
                let p = #[trigger] calls_upto(msgs, call_id, m)[k];
                &&& valid_position(msgs, p)
                &&& is_call_block(msgs[p.0 as int].content@[p.1 as int], call_id)
            },
    decreases m,
{
    if m > 0 {
        lemma_calls_upto_valid(msgs, call_id, m - 1);
        assert(msgs[m - 1].content.len() == msgs[m - 1].content@.len());
        lemma_calls_in_blocks_valid(
            msgs,
            call_id,
            (m - 1) as usize,
            msgs[m - 1].content@.len() as int,
        );
        let prev = calls_upto(msgs, call_id, m - 1);
        let last = calls_in_blocks(
            msgs[m - 1].content@,
            call_id,
            (m - 1) as usize,
            msgs[m - 1].content@.len() as int,
        );
        let all = calls_upto(msgs, call_id, m);
        assert forall|k: int| 0 <= k < all.len() implies {
            let p = #[trigger] all[k];
            &&& valid_position(msgs, p)
            &&& is_call_block(msgs[p.0 as int].content@[p.1 as int], call_id)
        } by {
            if k < prev.len() {
                assert(all[k] == prev[k]);
            } else {
                assert(all[k] == last[k - prev.len()]);
            }
        }
    }
}

/// Every listed call position names a tool call with that ID.
pub proof fn lemma_call_positions_valid(msgs: Seq<StoredMessage>, call_id: Seq<char>)
    requires
        msgs.len() <= usize::MAX,
    ensures
        forall|k: int|
            0 <= k < call_positions(msgs, call_id).len() ==> {
                let p = #[trigger] call_positions(msgs, call_id)[k];
                &&& valid_position(msgs, p)
                &&& is_call_block(msgs[p.0 as int].content@[p.1 as int], call_id)
            },
{
    lemma_calls_upto_valid(msgs, call_id, msgs.len() as int);
}

fn is_call(block: &ContentBlock, call_id: &str) -> (r: bool)
    ensures
        r == is_call_block(*block, call_id@),
{
    match block {
        ContentBlock::ToolUse { id, .. } => str_eq(id.as_str(), call_id),
        _ => false,
    }
}

/// The positions of the tool calls with ID `call_id`, in transcript order.
pub fn tool_call_positions(messages: &[StoredMessage], call_id: &str) -> (r: Vec<(usize, usize)>)
    ensures
        r@ == call_positions(messages@, call_id@),
{
    let mut out: Vec<(usize, usize)> = Vec::new();
    let mut m: usize = 0;
    while m < messages.len()
        invariant
            m <= messages@.len(),
            out@ == calls_upto(messages@, call_id@, m as int),
        decreases messages.len() - m,
    {
        let blocks = &messages[m].content;
        let ghost before = out@;
        let mut b: usize = 0;
        while b < blocks.len()
            invariant
                m < messages@.len(),
                *blocks == messages@[m as int].content,
                b <= blocks@.len(),
                before == calls_upto(messages@, call_id@, m as int),
                out@ == before + calls_in_blocks(blocks@, call_id@, m, b as int),
            decreases blocks.len() - b,
        {
            if is_call(&blocks[b], call_id) {
                out.push((m, b));
            }
            proof {
                assert(out@ =~= before + calls_in_blocks(blocks@, call_id@, m, b + 1));
            }
            b += 1;
        }
        m += 1;
    }
    out
}

/// Whether `p` is listed.
pub fn pair_listed(list: &[(usize, usize)], p: (usize, usize)) -> (r: bool)
    ensures
        r == list@.contains(p),
{
    let mut i: usize = 0;
    while i < list.len()
        invariant
            i <= list@.len(),
            forall|k: int| 0 <= k < i ==> list@[k] != p,
        decreases list.len() - i,
    {
        if list[i].0 == p.0 && list[i].1 == p.1 {
            assert(list@[i as int] == p);
            return true;
        }
        i += 1;
    }
    false
}

/// Whether a position falls in one of some closed intervals.
pub open spec fn in_intervals(intervals: Seq<(usize, usize)>, index: int) -> bool {
    exists|k: int|
        0 <= k < intervals.len() && (#[trigger] intervals[k]).0 <= index && index <= intervals[k].1
}

/// The ordinals among the first `n` blocks of message `mi` that are neither the task's own
/// source (`call`, `result`) nor excluded.
pub open spec fn free_ordinals(
    call: (usize, usize),
    result: (usize, usize),
    excluded: Seq<(usize, usize)>,
    mi: usize,
    n: int,
) -> Seq<usize>
    decreases n,
{
    if n <= 0 {
        Seq::empty()
    } else {
        let p = (mi, (n - 1) as usize);
        free_ordinals(call, result, excluded, mi, n - 1) + if p != call && p != result
            && !excluded.contains(p) {
            seq![(n - 1) as usize]
        } else {
            Seq::empty()
        }
    }
}

/// The blocks of message `mi` that may support a tool task: none inside a range selected for
/// summary, else every block that is neither the task's own source nor excluded.
pub open spec fn supporting_ordinals(
    msgs: Seq<StoredMessage>,
    ranges: Seq<(usize, usize)>,
    call: (usize, usize),
    result: (usize, usize),
    excluded: Seq<(usize, usize)>,
    mi: usize,
) -> Seq<usize> {
    if in_intervals(ranges, mi as int) {
        Seq::empty()
    } else {
        free_ordinals(call, result, excluded, mi, msgs[mi as int].content@.len() as int)
    }
}

proof fn lemma_free_ordinals_bounded(
    call: (usize, usize),
    result: (usize, usize),
    excluded: Seq<(usize, usize)>,
    mi: usize,
    n: int,
)
    ensures
        free_ordinals(call, result, excluded, mi, n).len() <= if n < 0 {
            0
        } else {
            n
        },
    decreases n,
{
    if n > 0 {
        lemma_free_ordinals_bounded(call, result, excluded, mi, n - 1);
    }
}

fn supporting_ordinals_of(
    messages: &[StoredMessage],
    ranges: &[(usize, usize)],
    call: (usize, usize),
    result: (usize, usize),
    excluded: &[(usize, usize)],
    mi: usize,
) -> (r: Vec<usize>)
    requires
        mi < messages@.len(),
    ensures
        r@ == supporting_ordinals(messages@, ranges@, call, result, excluded@, mi),
{
    let mut out: Vec<usize> = Vec::new();
    if interval_contains(ranges, mi) {
        return out;
    }
    let n = messages[mi].content.len();
    let mut b: usize = 0;
    while b < n
        invariant
            mi < messages@.len(),
            n == messages@[mi as int].content@.len(),
            b <= n,
            out@ == free_ordinals(call, result, excluded@, mi, b as int),
        decreases n - b,
    {
        let p = (mi, b);
        if !(p.0 == call.0 && p.1 == call.1) && !(p.0 == result.0 && p.1 == result.1)
            && !pair_listed(excluded, p) {
            out.push(b);
        }
        proof {
            assert(out@ =~= free_ordinals(call, result, excluded@, mi, b + 1));
        }
        b += 1;
    }
    out
}

/// The supporting entry for message `mi` with the given ordinals: all blocks are named by
/// `includes_all_blocks` when every block is supporting.
pub open spec fn support_entry(msgs: Seq<StoredMessage>, mi: usize, ords: Seq<usize>) -> ScopeEntry {
    let all = ords.len() == msgs[mi as int].content@.len();
    ScopeEntry {
        purpose: ContextCuratorSourcePurpose::SupportingConversation,
        message_index: mi,
        block_ordinals: if all {
            Seq::empty()
        } else {
            ords
        },
        includes_all_blocks: all,
    }
}

/// The supporting scope of one message.
pub fn scoped_support(messages: &[StoredMessage], message_index: usize, ordinals: Vec<usize>) -> (r:
    ScopedMessage)
    requires
        message_index < messages@.len(),
    ensures
        r@ == support_entry(messages@, message_index, ordinals@),
{
    let includes_all_blocks = ordinals.len() == messages[message_index].content.len();
    ScopedMessage {
        purpose: ContextCuratorSourcePurpose::SupportingConversation,
        message_index,
        block_ordinals: if includes_all_blocks {
            Vec::new()
        } else {
            ordinals
        },
        includes_all_blocks,
    }
}

/// The supporting entry of message `mi`, when it has supporting blocks.
pub open spec fn optional_support(
    msgs: Seq<StoredMessage>,
    ranges: Seq<(usize, usize)>,
    call: (usize, usize),
    result: (usize, usize),
    excluded: Seq<(usize, usize)>,
    mi: usize,
) -> Seq<ScopeEntry> {
    let ords = supporting_ordinals(msgs, ranges, call, result, excluded, mi);
    if ords.len() > 0 {
        seq![support_entry(msgs, mi, ords)]
    } else {
        Seq::empty()
    }
}

/// The nearest user message before position `k` that has supporting blocks.
pub open spec fn prior_user_support(
    msgs: Seq<StoredMessage>,
    ranges: Seq<(usize, usize)>,
    call: (usize, usize),
    result: (usize, usize),
    excluded: Seq<(usize, usize)>,
    k: int,
) -> Option<usize>
    decreases k,
{
    if k <= 0 {
        None
    } else if msgs[k - 1].role == Role::User && supporting_ordinals(
        msgs,
        ranges,
        call,
        result,
        excluded,
        (k - 1) as usize,
    ).len() > 0 {
        Some((k - 1) as usize)
    } else {
        prior_user_support(msgs, ranges, call, result, excluded, k - 1)
    }
}

/// The supporting entries of the messages from `from` up to, not including, `to`.
pub open spec fn trailing_support(
    msgs: Seq<StoredMessage>,
    ranges: Seq<(usize, usize)>,
    call: (usize, usize),
    result: (usize, usize),
    excluded: Seq<(usize, usize)>,
    from: int,
    to: int,
) -> Seq<ScopeEntry>
    decreases to - from,
{
    if to <= from {
        Seq::empty()
    } else {
        trailing_support(msgs, ranges, call, result, excluded, from, to - 1) + optional_support(
            msgs,
            ranges,
            call,
            result,
            excluded,
            (to - 1) as usize,
        )
    }
}

/// The scope of a tool task whose call is at `call` and whose result is at `result`: the
/// call block, the result block, then as supporting conversation the nearest earlier user
/// message, the call's and the result's messages, and every later message, each with the
/// blocks that are neither inside a range selected for summary, the task's own source, nor
/// excluded.
pub open spec fn tool_scope_entries(
    msgs: Seq<StoredMessage>,
    ranges: Seq<(usize, usize)>,
    call: (usize, usize),
    result: (usize, usize),
    excluded: Seq<(usize, usize)>,
) -> Seq<ScopeEntry> {
    let primary = seq![
        ScopeEntry {
            purpose: ContextCuratorSourcePurpose::PrimaryToolCall,
            message_index: call.0,
            block_ordinals: seq![call.1],
            includes_all_blocks: false,
        },
        ScopeEntry {
            purpose: ContextCuratorSourcePurpose::PrimaryToolResult,
            message_index: result.0,
            block_ordinals: seq![result.1],
            includes_all_blocks: false,
        },
    ];
    let before = if call.0 <= result.0 {
        call.0
    } else {
        result.0
    };
    let prior = match prior_user_support(msgs, ranges, call, result, excluded, before as int) {
        Some(p) => optional_support(msgs, ranges, call, result, excluded, p),
        None => Seq::empty(),
    };
    primary + prior + optional_support(msgs, ranges, call, result, excluded, call.0)
        + optional_support(msgs, ranges, call, result, excluded, result.0) + trailing_support(
        msgs,
        ranges,
        call,
        result,
        excluded,
        result.0 + 1,
        msgs.len() as int,
    )
}

/// The refusal of a tool task without exactly one matching call.
pub open spec fn call_count_error(request_id: Seq<char>, found: nat) -> Seq<char> {
    "tool task "@ + debug_str(request_id) + " requires exactly one matching ToolUse, found "@
        + decimal(found)
}

/// What scoping a tool task gives.
pub open spec fn tool_scope_outcome(
    msgs: Seq<StoredMessage>,
    tool: ContextCuratorToolWork,
    ranges: Seq<(usize, usize)>,
    excluded: Seq<(usize, usize)>,
    r: Result<Vec<ScopedMessage>, ContextCuratorError>,
) -> bool {
    let calls = call_positions(msgs, tool.tool_call_id@);
    match r {
        Ok(scope) => {
            &&& calls.len() == 1
            &&& scope_view(scope@) == tool_scope_entries(
                msgs,
                ranges,
                calls[0],
                (tool.message_index, tool.block_index),
                excluded,
            )
        },
        Err(e) => calls.len() != 1 && invalid_response(
            e,
            call_count_error(tool.request_id@, calls.len()),
        ),
    }
}

fn push_support(
    scope: &mut Vec<ScopedMessage>,
    messages: &[StoredMessage],
    ranges: &[(usize, usize)],
    call: (usize, usize),
    result: (usize, usize),
    excluded: &[(usize, usize)],
    mi: usize,
)
    requires
        mi < messages@.len(),
    ensures
        scope_view(final(scope)@) == scope_view(old(scope)@) + optional_support(
            messages@,
            ranges@,
            call,
            result,
            excluded@,
            mi,
        ),
{
    let ords = supporting_ordinals_of(messages, ranges, call, result, excluded, mi);
    if ords.len() > 0 {
        let entry = scoped_support(messages, mi, ords);
        scope.push(entry);
        assert(scope_view(scope@) =~= scope_view(old(scope)@) + optional_support(
            messages@,
            ranges@,
            call,
            result,
            excluded@,
            mi,
        ));
    } else {
        assert(scope_view(scope@) =~= scope_view(old(scope)@) + optional_support(
            messages@,
            ranges@,
            call,
            result,
            excluded@,
            mi,
        ));
    }
}

/// The source scope of one tool-result task. `selected_ranges` are the message intervals
/// selected for summary, whose messages never support a tool task; `exclusions` are the blocks
/// that belong to tool tasks (see [`tool_source_exclusions`]). The task needs exactly one
/// matching tool call.
pub fn tool_scope(
    messages: &[StoredMessage],
    tool: &ContextCuratorToolWork,
    selected_ranges: &[(usize, usize)],
    exclusions: &[(usize, usize)],
) -> (r: Result<Vec<ScopedMessage>, ContextCuratorError>)
    requires
        valid_position(messages@, (tool.message_index, tool.block_index)),
    ensures
        tool_scope_outcome(messages@, *tool, selected_ranges@, exclusions@, r),
{
    let calls = tool_call_positions(messages, tool.tool_call_id.as_str());
    let n = messages.len();
    proof {
        lemma_call_positions_valid(messages@, tool.tool_call_id@);
    }
    if calls.len() != 1 {
        let mut m = concat3("tool task ", debug_quoted(tool.request_id.as_str()).as_str(), " requires exactly one matching ToolUse, found ");
        m.append(decimal_string(calls.len() as u64).as_str());
        return Err(ContextCuratorError::InvalidResponse(m));
    }
    let call = calls[0];
    assert(valid_position(messages@, call));
    let result = (tool.message_index, tool.block_index);
    let mut call_ordinals: Vec<usize> = Vec::new();
    call_ordinals.push(call.1);
    let mut result_ordinals: Vec<usize> = Vec::new();
    result_ordinals.push(result.1);
    let mut scope: Vec<ScopedMessage> = Vec::new();
    scope.push(
        ScopedMessage {
            purpose: ContextCuratorSourcePurpose::PrimaryToolCall,
            message_index: call.0,
            block_ordinals: call_ordinals,
            includes_all_blocks: false,
        },
    );
    scope.push(
        ScopedMessage {
            purpose: ContextCuratorSourcePurpose::PrimaryToolResult,
            message_index: result.0,
            block_ordinals: result_ordinals,
            includes_all_blocks: false,
        },
    );
    let ghost msgs = messages@;
    let ghost ranges = selected_ranges@;
    let ghost excluded = exclusions@;
    let ghost primary = scope_view(scope@);
    let before = if call.0 <= result.0 {
        call.0
    } else {
        result.0
    };
    let mut k: usize = before;
    let mut found: Option<usize> = None;
    while k > 0 && found.is_none()
        invariant
            k <= before,
            before < msgs.len(),
            msgs == messages@,
            ranges == selected_ranges@,
            excluded == exclusions@,
            found is None ==> prior_user_support(msgs, ranges, call, result, excluded, before as int)
                == prior_user_support(msgs, ranges, call, result, excluded, k as int),
            found is Some ==> prior_user_support(msgs, ranges, call, result, excluded, before as int)
                == found,
            found matches Some(p) ==> p < msgs.len(),
        decreases k,
    {
        k -= 1;
        if messages[k].role == Role::User {
            let ords = supporting_ordinals_of(messages, selected_ranges, call, result, exclusions, k);
            if ords.len() > 0 {
                found = Some(k);
            }
        }
    }
    match found {
        Some(p) => {
            push_support(&mut scope, messages, selected_ranges, call, result, exclusions, p);
        },
        None => {},
    }
    push_support(&mut scope, messages, selected_ranges, call, result, exclusions, call.0);
    push_support(&mut scope, messages, selected_ranges, call, result, exclusions, result.0);
    let ghost head = scope_view(scope@);
    let mut mi: usize = result.0 + 1;
    while mi < n
        invariant
            result.0 + 1 <= mi <= n,
            n == msgs.len(),
            msgs == messages@,
            ranges == selected_ranges@,
            excluded == exclusions@,
            scope_view(scope@) == head + trailing_support(
                msgs,
                ranges,
                call,
                result,
                excluded,
                result.0 + 1,
                mi as int,
            ),
        decreases n - mi,
    {
        push_support(&mut scope, messages, selected_ranges, call, result, exclusions, mi);
        proof {
            assert(scope_view(scope@) =~= head + trailing_support(
                msgs,
                ranges,
                call,
                result,
                excluded,
                result.0 + 1,
                mi + 1,
            ));
        }
        mi += 1;
    }
    proof {
        assert(primary =~= seq![
            ScopeEntry {
                purpose: ContextCuratorSourcePurpose::PrimaryToolCall,
                message_index: call.0,
                block_ordinals: seq![call.1],
                includes_all_blocks: false,
            },
            ScopeEntry {
                purpose: ContextCuratorSourcePurpose::PrimaryToolResult,
                message_index: result.0,
                block_ordinals: seq![result.1],
                includes_all_blocks: false,
            },
        ]);
        assert(scope_view(scope@) =~= tool_scope_entries(msgs, ranges, call, result, excluded));
    }
    Ok(scope)
}

/// The blocks that belong to tool tasks, in order: for each tool, its result block and every
/// call with its ID.
pub open spec fn exclusion_list(msgs: Seq<StoredMessage>, tools: Seq<ContextCuratorToolWork>) -> Seq<
    (usize, usize),
>
    decreases tools.len(),
{
    if tools.len() == 0 {
        Seq::empty()
    } else {
        let t = tools.last();
        exclusion_list(msgs, tools.drop_last()) + seq![(t.message_index, t.block_index)]
            + call_positions(msgs, t.tool_call_id@)
    }
}

/// The blocks that no tool task may show as supporting conversation: every tool task's result
/// block and matching call blocks.
pub fn tool_source_exclusions(messages: &[StoredMessage], tools: &[ContextCuratorToolWork]) -> (r:
    Vec<(usize, usize)>)
    ensures
        r@ == exclusion_list(messages@, tools@),
{
    let mut out: Vec<(usize, usize)> = Vec::new();
    let mut i: usize = 0;
    while i < tools.len()
        invariant
            i <= tools@.len(),
            out@ == exclusion_list(messages@, tools@.take(i as int)),
        decreases tools.len() - i,
    {
        let tool = &tools[i];
        out.push((tool.message_index, tool.block_index));
        let calls = tool_call_positions(messages, tool.tool_call_id.as_str());
        let ghost before = out@;
        let mut k: usize = 0;
        while k < calls.len()
            invariant
                k <= calls@.len(),
                out@ == before + calls@.take(k as int),
            decreases calls.len() - k,
        {
            out.push(calls[k]);
            proof {
                assert(calls@.take(k + 1) =~= calls@.take(k as int).push(calls@[k as int]));
                assert(out@ =~= before + calls@.take(k + 1));
            }
            k += 1;
        }
        proof {
            assert(calls@.take(calls@.len() as int) =~= calls@);
            assert(tools@.take(i + 1).drop_last() =~= tools@.take(i as int));
            assert(out@ =~= exclusion_list(messages@, tools@.take(i + 1)));
        }
        i += 1;
    }
    proof {
        assert(tools@.take(tools@.len() as int) =~= tools@);
    }
    out
}

/// The scope of a range task over the closed interval `start..=end`: each message whole.
pub open spec fn range_scope_entries(start: usize, end: usize) -> Seq<ScopeEntry> {
    Seq::new(
        if start <= end {
            (end - start + 1) as nat
        } else {
            0
        },
        |i: int|
            ScopeEntry {
                purpose: ContextCuratorSourcePurpose::PrimaryRange,
                message_index: (start + i) as usize,
                block_ordinals: Seq::empty(),
                includes_all_blocks: true,
            },
    )
}

/// The scope of a range task: every message of `start..=end`, whole.
pub fn range_scope(start: usize, end: usize) -> (r: Vec<ScopedMessage>)
    ensures
        scope_view(r@) == range_scope_entries(start, end),
{
    let mut out: Vec<ScopedMessage> = Vec::new();
    if start > end {
        assert(scope_view(out@) =~= range_scope_entries(start, end));
        return out;
    }
    let mut i: usize = start;
    let ghost all = range_scope_entries(start, end);
    loop
        invariant_except_break
            start <= i <= end,
            all == range_scope_entries(start, end),
            scope_view(out@) =~= all.take(i - start),
        ensures
            scope_view(out@) =~= range_scope_entries(start, end),
        decreases end - i,
    {
        let ghost prev = scope_view(out@);
        out.push(
            ScopedMessage {
                purpose: ContextCuratorSourcePurpose::PrimaryRange,
                message_index: i,
                block_ordinals: Vec::new(),
                includes_all_blocks: true,
            },
        );
        assert(scope_view(out@) =~= prev.push(all[i - start]));
        assert(all.take(i - start + 1) =~= all.take(i - start).push(all[i - start]));
        if i == end {
            assert(all.take(i - start + 1) =~= all);
            break;
        }
        i += 1;
    }
    out
}

/// What a curator task discloses about one source: the stored message's ID and index, or
/// neither for an active summary text.
#[derive(Clone, Debug)]
pub struct ContextCuratorSourceScope {
    pub purpose: ContextCuratorSourcePurpose,
    pub message_id: Option<String>,
    pub stored_index: Option<usize>,
    pub block_ordinals: Vec<usize>,
    pub includes_all_blocks: bool,
}

/// Whether `d` discloses the scoped message `s`.
pub open spec fn discloses_message(
    msgs: Seq<StoredMessage>,
    d: ContextCuratorSourceScope,
    s: ScopedMessage,
) -> bool {
    &&& d.purpose == s.purpose
    &&& if s.message_index < msgs.len() {
        d.message_id matches Some(id) && id@ == msgs[s.message_index as int].id@
    } else {
        d.message_id is None
    }
    &&& d.stored_index == Some(s.message_index)
    &&& d.block_ordinals@ == s.block_ordinals@
    &&& d.includes_all_blocks == s.includes_all_blocks
}

/// Whether `d` discloses one active summary text.
pub open spec fn discloses_summary(d: ContextCuratorSourceScope) -> bool {
    &&& d.purpose == ContextCuratorSourcePurpose::ActiveSummary
    &&& d.message_id is None
    &&& d.stored_index is None
    &&& d.block_ordinals@.len() == 0
    &&& d.includes_all_blocks
}

/// The disclosed scope of a task: its scoped messages in order, then one entry per active
/// summary text it is shown.
pub fn public_scope(
    messages: &[StoredMessage],
    scope: &[ScopedMessage],
    active_summary_texts: &[String],
) -> (r: Vec<ContextCuratorSourceScope>)
    requires
        scope@.len() + active_summary_texts@.len() <= usize::MAX,
    ensures
        r@.len() == scope@.len() + active_summary_texts@.len(),
        forall|i: int|
            0 <= i < scope@.len() ==> discloses_message(messages@, #[trigger] r@[i], scope@[i]),
        forall|j: int|
            scope@.len() <= j < r@.len() ==> discloses_summary(#[trigger] r@[j]),
{
    let mut out: Vec<ContextCuratorSourceScope> = Vec::new();
    let mut i: usize = 0;
    while i < scope.len()
        invariant
            i <= scope@.len(),
            out@.len() == i,
            forall|k: int| 0 <= k < i ==> discloses_message(messages@, #[trigger] out@[k], scope@[k]),
        decreases scope.len() - i,
    {
        let item = &scope[i];
        let message_id = if item.message_index < messages.len() {
            Some(messages[item.message_index].id.clone())
        } else {
            None
        };
        out.push(
            ContextCuratorSourceScope {
                purpose: item.purpose,
                message_id,
                stored_index: Some(item.message_index),
                block_ordinals: item.block_ordinals.clone(),
                includes_all_blocks: item.includes_all_blocks,
            },
        );
        i += 1;
    }
    let mut j: usize = 0;
    while j < active_summary_texts.len()
        invariant
            j <= active_summary_texts@.len(),
            out@.len() == scope@.len() + j,
            forall|k: int| 0 <= k < scope@.len() ==> discloses_message(messages@, #[trigger] out@[k], scope@[k]),
            forall|k: int| scope@.len() <= k < out@.len() ==> discloses_summary(#[trigger] out@[k]),
        decreases active_summary_texts.len() - j,
    {
        out.push(
            ContextCuratorSourceScope {
                purpose: ContextCuratorSourcePurpose::ActiveSummary,
                message_id: None,
                stored_index: None,
                block_ordinals: Vec::new(),
                includes_all_blocks: true,
            },
        );
        j += 1;
    }
    out
}

/// The work of one atomic curator task.
pub enum ContextCuratorTaskKind {
    Range(ContextCuratorRangeWork),
    Tool(ContextCuratorToolWork),
}

/// The label under which a task is previewed.
pub open spec fn target_label(kind: ContextCuratorTaskKind) -> Seq<char> {
    match kind {
        ContextCuratorTaskKind::Range(work) => "range "@ + decimal(
            work.source_range.start_index_hint as nat,
        ) + ".."@ + decimal(work.source_range.end_index_hint as nat) + " ("@ + decimal(
            work.source_range.message_count as nat,
        ) + " messages)"@,
        ContextCuratorTaskKind::Tool(work) => work.tool_name@ + " result for call "@
            + work.tool_call_id@,
    }
}

/// The label under which a task is previewed: its range and size, or its tool and call.
pub fn task_target_label(kind: &ContextCuratorTaskKind) -> (r: String)
    ensures
        r@ == target_label(*kind),
{
    match kind {
        ContextCuratorTaskKind::Range(work) => {
            let mut out = concat3(
                "range ",
                decimal_string(work.source_range.start_index_hint as u64).as_str(),
                "..",
            );
            out.append(decimal_string(work.source_range.end_index_hint as u64).as_str());
            out.append(" (");
            out.append(decimal_string(work.source_range.message_count as u64).as_str());
            out.append(" messages)");
            out
        },
        ContextCuratorTaskKind::Tool(work) => concat3(
            work.tool_name.as_str(),
            " result for call ",
            work.tool_call_id.as_str(),
        ),
    }
}

/// Whether a scope entry shows block `b` of its message.
pub open spec fn shows_block(msgs: Seq<StoredMessage>, e: ScopeEntry, b: usize) -> bool {
    if e.includes_all_blocks {
        b < msgs[e.message_index as int].content@.len()
    } else {
        e.block_ordinals.contains(b)
    }
}

/// Whether a supporting entry is the supporting entry of its message.
pub open spec fn support_ok(
    msgs: Seq<StoredMessage>,
    ranges: Seq<(usize, usize)>,
    call: (usize, usize),
    result: (usize, usize),
    excluded: Seq<(usize, usize)>,
    e: ScopeEntry,
) -> bool {
    e.purpose == ContextCuratorSourcePurpose::SupportingConversation ==> {
        let ords = supporting_ordinals(msgs, ranges, call, result, excluded, e.message_index);
        &&& e.message_index < msgs.len()
        &&& ords.len() > 0
        &&& e == support_entry(msgs, e.message_index, ords)
    }
}

proof fn lemma_concat_support_ok(
    msgs: Seq<StoredMessage>,
    ranges: Seq<(usize, usize)>,
    call: (usize, usize),
    result: (usize, usize),
    excluded: Seq<(usize, usize)>,
    a: Seq<ScopeEntry>,
    b: Seq<ScopeEntry>,
)
    requires
        forall|j: int| 0 <= j < a.len() ==> support_ok(msgs, ranges, call, result, excluded, #[trigger] a[j]),
        forall|j: int| 0 <= j < b.len() ==> support_ok(msgs, ranges, call, result, excluded, #[trigger] b[j]),
    ensures
        forall|j: int|
            0 <= j < (a + b).len() ==> support_ok(msgs, ranges, call, result, excluded, #[trigger] (a + b)[j]),
{
    assert forall|j: int| 0 <= j < (a + b).len() implies support_ok(
        msgs,
        ranges,
        call,
        result,
        excluded,
        #[trigger] (a + b)[j],
    ) by {
        if j < a.len() {
            assert((a + b)[j] == a[j]);
        } else {
            assert((a + b)[j] == b[j - a.len()]);
        }
    }
}

proof fn lemma_trailing_support_ok(
    msgs: Seq<StoredMessage>,
    ranges: Seq<(usize, usize)>,
    call: (usize, usize),
    result: (usize, usize),
    excluded: Seq<(usize, usize)>,
    from: int,
    to: int,
)
    requires
        0 <= from,
        to <= msgs.len(),
    ensures
        forall|j: int|
            0 <= j < trailing_support(msgs, ranges, call, result, excluded, from, to).len()
                ==> support_ok(
                msgs,
                ranges,
                call,
                result,
                excluded,
                #[trigger] trailing_support(msgs, ranges, call, result, excluded, from, to)[j],
            ),
    decreases to - from,
{
    if to > from {
        lemma_trailing_support_ok(msgs, ranges, call, result, excluded, from, to - 1);
        lemma_concat_support_ok(
            msgs,
            ranges,
            call,
            result,
            excluded,
            trailing_support(msgs, ranges, call, result, excluded, from, to - 1),
            optional_support(msgs, ranges, call, result, excluded, (to - 1) as usize),
        );
    }
}

proof fn lemma_prior_user_support_bound(
    msgs: Seq<StoredMessage>,
    ranges: Seq<(usize, usize)>,
    call: (usize, usize),
    result: (usize, usize),
    excluded: Seq<(usize, usize)>,
    k: int,
)
    ensures
        prior_user_support(msgs, ranges, call, result, excluded, k) matches Some(p) ==> p < k,
    decreases k,
{
    if k > 0 {
        lemma_prior_user_support_bound(msgs, ranges, call, result, excluded, k - 1);
    }
}

proof fn lemma_free_ordinals_members(
    call: (usize, usize),
    result: (usize, usize),
    excluded: Seq<(usize, usize)>,
    mi: usize,
    n: int,
)
    ensures
        forall|j: int|
            0 <= j < free_ordinals(call, result, excluded, mi, n).len() ==> {
                let b = #[trigger] free_ordinals(call, result, excluded, mi, n)[j];
                &&& b < n
                &&& (mi, b) != call
                &&& (mi, b) != result
                &&& !excluded.contains((mi, b))
            },
    decreases n,
{
    if n > 0 {
        lemma_free_ordinals_members(call, result, excluded, mi, n - 1);
        let prev = free_ordinals(call, result, excluded, mi, n - 1);
        let all = free_ordinals(call, result, excluded, mi, n);
        assert forall|j: int| 0 <= j < all.len() implies {
            let b = #[trigger] all[j];
            &&& b < n
            &&& (mi, b) != call
            &&& (mi, b) != result
            &&& !excluded.contains((mi, b))
        } by {
            if j < prev.len() {
                assert(all[j] == prev[j]);
            }
        }
    }
}

proof fn lemma_free_ordinals_full(
    call: (usize, usize),
    result: (usize, usize),
    excluded: Seq<(usize, usize)>,
    mi: usize,
    n: int,
)
    requires
        0 <= n <= usize::MAX,
        free_ordinals(call, result, excluded, mi, n).len() == n,
    ensures
        forall|b: usize| b < n ==> free_ordinals(call, result, excluded, mi, n).contains(b),
    decreases n,
{
    if n > 0 {
        let prev = free_ordinals(call, result, excluded, mi, n - 1);
        let all = free_ordinals(call, result, excluded, mi, n);
        lemma_free_ordinals_bounded(call, result, excluded, mi, n - 1);
        lemma_free_ordinals_full(call, result, excluded, mi, n - 1);
        assert(all.len() == prev.len() + 1);
        assert(all[n - 1] == (n - 1) as usize);
        assert forall|b: usize| b < n implies all.contains(b) by {
            if b < n - 1 {
                assert(prev.contains(b));
                let j = choose|j: int| 0 <= j < prev.len() && prev[j] == b;
                assert(all[j] == prev[j]);
            } else {
                assert(all[n - 1] == b);
            }
        }
    }
}

/// A tool task never shows as supporting conversation a block inside a range selected for
/// summary, its own call or result, or an excluded block (every tool task's call and result,
/// see [`law_exclusions_cover_every_tool_source`]).
pub proof fn law_tool_scope_support_is_isolated(
    msgs: Seq<StoredMessage>,
    ranges: Seq<(usize, usize)>,
    call: (usize, usize),
    result: (usize, usize),
    excluded: Seq<(usize, usize)>,
    k: int,
    b: usize,
)
    requires
        msgs.len() <= usize::MAX,
        valid_position(msgs, call),
        valid_position(msgs, result),
        0 <= k < tool_scope_entries(msgs, ranges, call, result, excluded).len(),
        tool_scope_entries(msgs, ranges, call, result, excluded)[k].purpose
            == ContextCuratorSourcePurpose::SupportingConversation,
        shows_block(msgs, tool_scope_entries(msgs, ranges, call, result, excluded)[k], b),
    ensures
        ({
            let mi = tool_scope_entries(msgs, ranges, call, result, excluded)[k].message_index;
            &&& mi < msgs.len()
            &&& b < msgs[mi as int].content@.len()
            &&& !in_intervals(ranges, mi as int)
            &&& (mi, b) != call
            &&& (mi, b) != result
            &&& !excluded.contains((mi, b))
        }),
{
    let entries = tool_scope_entries(msgs, ranges, call, result, excluded);
    let primary = seq![
        ScopeEntry {
            purpose: ContextCuratorSourcePurpose::PrimaryToolCall,
            message_index: call.0,
            block_ordinals: seq![call.1],
            includes_all_blocks: false,
        },
        ScopeEntry {
            purpose: ContextCuratorSourcePurpose::PrimaryToolResult,
            message_index: result.0,
            block_ordinals: seq![result.1],
            includes_all_blocks: false,
        },
    ];
    let before = if call.0 <= result.0 {
        call.0
    } else {
        result.0
    };
    let prior = match prior_user_support(msgs, ranges, call, result, excluded, before as int) {
        Some(p) => optional_support(msgs, ranges, call, result, excluded, p),
        None => Seq::empty(),
    };
    lemma_prior_user_support_bound(msgs, ranges, call, result, excluded, before as int);
    let oc = optional_support(msgs, ranges, call, result, excluded, call.0);
    let or = optional_support(msgs, ranges, call, result, excluded, result.0);
    let tr = trailing_support(
        msgs,
        ranges,
        call,
        result,
        excluded,
        result.0 + 1,
        msgs.len() as int,
    );
    lemma_trailing_support_ok(msgs, ranges, call, result, excluded, result.0 + 1, msgs.len() as int);
    lemma_concat_support_ok(msgs, ranges, call, result, excluded, primary, prior);
    lemma_concat_support_ok(msgs, ranges, call, result, excluded, primary + prior, oc);
    lemma_concat_support_ok(msgs, ranges, call, result, excluded, primary + prior + oc, or);
    lemma_concat_support_ok(msgs, ranges, call, result, excluded, primary + prior + oc + or, tr);
    assert(entries == primary + prior + oc + or + tr);
    let e = entries[k];
    assert(support_ok(msgs, ranges, call, result, excluded, e));
    let mi = e.message_index;
    let ords = supporting_ordinals(msgs, ranges, call, result, excluded, mi);
    let n = msgs[mi as int].content@.len() as int;
    assert(msgs[mi as int].content.len() == msgs[mi as int].content@.len());
    assert(!in_intervals(ranges, mi as int));
    assert(ords == free_ordinals(call, result, excluded, mi, n));
    lemma_free_ordinals_members(call, result, excluded, mi, n);
    if e.includes_all_blocks {
        lemma_free_ordinals_full(call, result, excluded, mi, n);
        assert(ords.contains(b));
    }
    let j = choose|j: int| 0 <= j < ords.len() && ords[j] == b;
    assert(ords[j] == b);
}

/// The exclusions of a set of tool tasks hold every task's result block and every call block
/// with its ID.
pub proof fn law_exclusions_cover_every_tool_source(
    msgs: Seq<StoredMessage>,
    tools: Seq<ContextCuratorToolWork>,
    i: int,
    p: (usize, usize),
)
    requires
        0 <= i < tools.len(),
        p == (tools[i].message_index, tools[i].block_index) || call_positions(
            msgs,
            tools[i].tool_call_id@,
        ).contains(p),
    ensures
        exclusion_list(msgs, tools).contains(p),
    decreases tools.len(),
{
    let t = tools.last();
    let prev = exclusion_list(msgs, tools.drop_last());
    let own = seq![(t.message_index, t.block_index)] + call_positions(msgs, t.tool_call_id@);
    assert(exclusion_list(msgs, tools) =~= prev + own);
    if i < tools.len() - 1 {
        assert(tools.drop_last()[i] == tools[i]);
        law_exclusions_cover_every_tool_source(msgs, tools.drop_last(), i, p);
        let j = choose|j: int| 0 <= j < prev.len() && prev[j] == p;
        assert((prev + own)[j] == p);
    } else if p == (t.message_index, t.block_index) {
        assert((prev + own)[prev.len() as int] == p);
    } else {
        let calls = call_positions(msgs, t.tool_call_id@);
        let j = choose|j: int| 0 <= j < calls.len() && calls[j] == p;
        assert((prev + own)[prev.len() + 1 + j] == p);
    }
}

/// The tool result that stands in the projected history in place of a distilled one: the
/// same call and error flag, with the replacement as content.
pub fn replacement_tool_result_block(work: &ContextCuratorToolWork, replacement: String) -> (r:
    ContentBlock)
    ensures
        r matches ContentBlock::ToolResult { tool_use_id, content, is_error } && tool_use_id@
            == work.tool_call_id@ && content@ == replacement@ && is_error == work.is_error,
{
    ContentBlock::ToolResult {
        tool_use_id: work.tool_call_id.clone(),
        content: replacement,
        is_error: work.is_error,
    }
}

} // verus!
