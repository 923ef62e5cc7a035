//! The message rows of a context-editor snapshot: per-block facts, tool groups, which
//! reasoning the provider could remove, and the active operations that touch each block.

use vstd::prelude::*;

use crate::capture::kind_order;
use crate::model::{
    content_block_semantic_id, context_block_kind, spec_block_kind, spec_semantic_id,
    ContentBlock, StoredContextBlockKind, StoredMessage,
};
use crate::snapshot::{
    badge_views, bounded_message_preview, message_preview, BadgeModel, ContextEditorBlock,
    ContextEditorMessage, ContextOperationBadge, ContextOperationBadgeKind,
    ContextSummaryCoverage,
};
use crate::text::{insert_sorted, strictly_sorted, views};

verus! {

/// The characters of an optional text.
pub open spec fn opt_chars(o: Option<String>) -> Option<Seq<char>> {
    match o {
        Some(s) => Some(s@),
        None => None,
    }
}

/// The tool a block calls, if it is a tool call.
pub open spec fn block_tool_name(block: ContentBlock) -> Option<Seq<char>> {
    match block {
        ContentBlock::ToolUse { name, .. } => Some(name@),
        _ => None,
    }
}

/// The tool call a block is or answers.
pub open spec fn block_tool_use_id(block: ContentBlock) -> Option<Seq<char>> {
    match block {
        ContentBlock::ToolUse { id, .. } => Some(id@),
        ContentBlock::ToolResult { tool_use_id, .. } => Some(tool_use_id@),
        _ => None,
    }
}

/// Whether `b` describes `block` at `ordinal` with the given estimate and badges; its
/// reasoning is removable when its kind is among `removable`.
pub open spec fn block_row(
    b: ContextEditorBlock,
    block: ContentBlock,
    ordinal: usize,
    estimate: usize,
    removable: Seq<StoredContextBlockKind>,
    badges: Seq<BadgeModel>,
) -> bool {
    &&& b.ordinal == ordinal
    &&& b.kind == spec_block_kind(block)
    &&& opt_chars(b.semantic_id) == spec_semantic_id(block)
    &&& b.estimated_provider_tokens == estimate
    &&& opt_chars(b.tool_name) == block_tool_name(block)
    &&& opt_chars(b.tool_use_id) == block_tool_use_id(block)
    &&& b.tool_result_is_error == (block matches ContentBlock::ToolResult { is_error, .. } && is_error
        == Some(true))
    &&& b.has_image_payload == (block is Image)
    &&& b.has_tool_thought_signature == (block matches ContentBlock::ToolUse {
        thought_signature,
        ..
    } && thought_signature is Some)
    &&& b.provider_removable_reasoning == removable.contains(spec_block_kind(block))
    &&& badge_views(b.active_operations@) == badges
}

/// A copy of some badges.
pub fn clone_badges(v: &Vec<ContextOperationBadge>) -> (r: Vec<ContextOperationBadge>)
    ensures
        badge_views(r@) == badge_views(v@),
{
    let mut out: Vec<ContextOperationBadge> = Vec::new();
    let mut i: usize = 0;
    while i < v.len()
        invariant
            i <= v@.len(),
            badge_views(out@) == badge_views(v@.take(i as int)),
        decreases v.len() - i,
    {
        let ghost prev = out@;
        let badge = ContextOperationBadge {
            transaction_id: v[i].transaction_id.clone(),
            operation_index: v[i].operation_index,
            kind: v[i].kind,
        };
        assert(badge@ == v@[i as int]@);
        out.push(badge);
        proof {
            assert(out@ =~= prev.push(badge));
            assert(v@.take(i + 1) =~= v@.take(i as int).push(v@[i as int]));
            assert(badge_views(out@) =~= badge_views(prev).push(badge@));
            assert(badge_views(v@.take(i + 1)) =~= badge_views(v@.take(i as int)).push(
                v@[i as int]@,
            ));
            assert(badge_views(out@) =~= badge_views(v@.take(i + 1)));
        }
        i += 1;
    }
    proof {
        assert(v@.take(v@.len() as int) =~= v@);
    }
    out
}

fn kind_listed(v: &Vec<StoredContextBlockKind>, k: StoredContextBlockKind) -> (r: bool)
    ensures
        r == v@.contains(k),
{
    let mut i: usize = 0;
    while i < v.len()
        invariant
            i <= v@.len(),
            forall|j: int| 0 <= j < i ==> v@[j] != k,
        decreases v.len() - i,
    {
        if v[i] == k {
            return true;
        }
        i += 1;
    }
    false
}

/// What the badges of each block say.
pub open spec fn block_badge_views(v: Seq<Vec<ContextOperationBadge>>) -> Seq<Seq<BadgeModel>> {
    v.map_values(|b: Vec<ContextOperationBadge>| badge_views(b@))
}

/// The row of one block.
pub fn editor_block(
    block: &ContentBlock,
    ordinal: usize,
    estimate: usize,
    removable: &Vec<StoredContextBlockKind>,
    badges: &Vec<ContextOperationBadge>,
) -> (r: ContextEditorBlock)
    ensures
        block_row(r, *block, ordinal, estimate, removable@, badge_views(badges@)),
{
    let kind = context_block_kind(block);
    let (tool_name, tool_use_id, tool_result_is_error, has_thought_signature) = match block {
        ContentBlock::ToolUse { id, name, thought_signature, .. } => (
            Some(name.clone()),
            Some(id.clone()),
            false,
            thought_signature.is_some(),
        ),
        ContentBlock::ToolResult { tool_use_id, is_error, .. } => (
            None,
            Some(tool_use_id.clone()),
            match is_error {
                Some(e) => *e,
                None => false,
            },
            false,
        ),
        _ => (None, None, false, false),
    };
    let has_image_payload = match block {
        ContentBlock::Image { .. } => true,
        _ => false,
    };
    ContextEditorBlock {
        ordinal,
        kind,
        semantic_id: content_block_semantic_id(block),
        estimated_provider_tokens: estimate,
        tool_name,
        tool_use_id,
        tool_result_is_error,
        has_image_payload,
        has_tool_thought_signature: has_thought_signature,
        provider_removable_reasoning: kind_listed(removable, kind),
        active_operations: clone_badges(badges),
    }
}

/// The tool calls the first `n` blocks are or answer.
pub open spec fn tool_group_set(blocks: Seq<ContentBlock>, n: int) -> Set<Seq<char>>
    decreases n,
{
    if n <= 0 {
        Set::empty()
    } else {
        let prev = tool_group_set(blocks, n - 1);
        match block_tool_use_id(blocks[n - 1]) {
            Some(id) => prev.insert(id),
            None => prev,
        }
    }
}

/// The tool calls a message's blocks are or answer, sorted and distinct.
pub fn tool_group_ids(message: &StoredMessage) -> (r: Vec<String>)
    ensures
        strictly_sorted(views(r@)),
        views(r@).to_set() == tool_group_set(message.content@, message.content@.len() as int),
{
    let mut out: Vec<String> = Vec::new();
    let blocks = &message.content;
    let mut i: usize = 0;
    proof {
        assert(views(out@).to_set() =~= Set::<Seq<char>>::empty());
    }
    while i < blocks.len()
        invariant
            i <= blocks@.len(),
            strictly_sorted(views(out@)),
            views(out@).to_set() == tool_group_set(blocks@, i as int),
        decreases blocks.len() - i,
    {
        match &blocks[i] {
            ContentBlock::ToolUse { id, .. } => {
                insert_sorted(&mut out, id.clone());
            },
            ContentBlock::ToolResult { tool_use_id, .. } => {
                insert_sorted(&mut out, tool_use_id.clone());
            },
            _ => {},
        }
        i += 1;
    }
    out
}

/// Whether some block of `blocks` has kind `k` and that kind is removable.
pub open spec fn removable_present(
    blocks: Seq<ContentBlock>,
    removable: Seq<StoredContextBlockKind>,
    k: StoredContextBlockKind,
) -> bool {
    removable.contains(k) && exists|j: int|
        0 <= j < blocks.len() && spec_block_kind(#[trigger] blocks[j]) == k
}

/// Whether `row` describes `message` at `stored_index`: one block row per block, its tool
/// groups sorted and distinct, and the removable reasoning kinds it holds in kind order.
pub open spec fn message_row(
    row: ContextEditorMessage,
    message: StoredMessage,
    stored_index: usize,
    estimates: Seq<usize>,
    raw_tokens: usize,
    projected_tokens: usize,
    removable: Seq<StoredContextBlockKind>,
    block_badges: Seq<Seq<BadgeModel>>,
    badges: Seq<BadgeModel>,
) -> bool {
    &&& row.message_id@ == message.id@
    &&& row.stored_index == stored_index
    &&& row.role == message.role
    &&& opt_chars(row.display_role) == opt_chars(message.display_role)
    &&& row.timestamp == message.timestamp
    &&& row.raw_provider_tokens == raw_tokens
    &&& row.projected_provider_tokens == projected_tokens
    &&& row.preview@ == message_preview(message)
    &&& row.blocks@.len() == message.content@.len()
    &&& forall|j: int|
        0 <= j < message.content@.len() ==> block_row(
            #[trigger] row.blocks@[j],
            message.content@[j],
            j as usize,
            estimates[j],
            removable,
            block_badges[j],
        )
    &&& strictly_sorted(views(row.tool_group_ids@))
    &&& views(row.tool_group_ids@).to_set() == tool_group_set(
        message.content@,
        message.content@.len() as int,
    )
    &&& badge_views(row.active_operations@) == badges
    &&& row.removable_reasoning_kinds@ == kind_order().filter(
        |k: StoredContextBlockKind| removable_present(message.content@, removable, k),
    )
}

/// The snapshot row of one stored message. `block_estimates` and `block_badges` hold one entry
/// per block; `removable` lists the reasoning kinds the provider could remove.
pub fn editor_message_row(
    message: &StoredMessage,
    stored_index: usize,
    block_estimates: &Vec<usize>,
    raw_provider_tokens: usize,
    projected_provider_tokens: usize,
    removable: &Vec<StoredContextBlockKind>,
    block_badges: &Vec<Vec<ContextOperationBadge>>,
    message_badges: &Vec<ContextOperationBadge>,
    summary_coverage: Option<ContextSummaryCoverage>,
) -> (r: ContextEditorMessage)
    requires
        block_estimates@.len() == message.content@.len(),
        block_badges@.len() == message.content@.len(),
    ensures
        message_row(
            r,
            *message,
            stored_index,
            block_estimates@,
            raw_provider_tokens,
            projected_provider_tokens,
            removable@,
            block_badge_views(block_badges@),
            badge_views(message_badges@),
        ),
        r.summary_coverage == summary_coverage,
{
    let content = &message.content;
    let mut blocks: Vec<ContextEditorBlock> = Vec::new();
    let mut j: usize = 0;
    while j < content.len()
        invariant
            j <= content@.len(),
            *content == message.content,
            block_estimates@.len() == content@.len(),
            block_badges@.len() == content@.len(),
            blocks@.len() == j,
            forall|k: int|
                0 <= k < j ==> block_row(
                    #[trigger] blocks@[k],
                    content@[k],
                    k as usize,
                    block_estimates@[k],
                    removable@,
                    badge_views(block_badges@[k]@),
                ),
        decreases content.len() - j,
    {
        let b = editor_block(&content[j], j, block_estimates[j], removable, &block_badges[j]);
        blocks.push(b);
        j += 1;
    }
    let order = crate::capture::kind_order_vec();
    let ghost pred = |k: StoredContextBlockKind| removable_present(content@, removable@, k);
    let mut kinds: Vec<StoredContextBlockKind> = Vec::new();
    let mut o: usize = 0;
    while o < order.len()
        invariant
            o <= order@.len(),
            order@ == kind_order(),
            *content == message.content,
            pred == (|k: StoredContextBlockKind| removable_present(content@, removable@, k)),
            kinds@ == order@.take(o as int).filter(pred),
        decreases order.len() - o,
    {
        let kind = order[o];
        let mut present = false;
        if kind_listed(removable, kind) {
            let mut i: usize = 0;
            while i < content.len() && !present
                invariant
                    i <= content@.len(),
                    present ==> exists|j: int|
                        0 <= j < content@.len() && spec_block_kind(#[trigger] content@[j]) == kind,
                    !present ==> forall|j: int|
                        0 <= j < i ==> spec_block_kind(#[trigger] content@[j]) != kind,
                decreases content.len() - i,
            {
                if context_block_kind(&content[i]) == kind {
                    present = true;
                }
                i += 1;
            }
        }
        if present {
            kinds.push(kind);
        }
        proof {
            assert(order@.take(o + 1).drop_last() =~= order@.take(o as int));
            reveal(Seq::filter);
            assert(pred(kind) == present);
            assert(kinds@ =~= order@.take(o + 1).filter(pred));
        }
        o += 1;
    }
    proof {
        assert(order@.take(order@.len() as int) =~= order@);
    }
    ContextEditorMessage {
        message_id: message.id.clone(),
        stored_index,
        role: message.role,
        display_role: message.display_role.clone(),
        timestamp: message.timestamp,
        raw_provider_tokens,
        projected_provider_tokens,
        preview: bounded_message_preview(message),
        blocks,
        tool_group_ids: tool_group_ids(message),
        summary_coverage,
        active_operations: clone_badges(message_badges),
        removable_reasoning_kinds: kinds,
    }
}

/// Where an active operation lands in the transcript: the closed message interval a range
/// summary replaces, or the (message, block) positions a block operation targets.
#[derive(Clone, Debug)]
pub enum ResolvedTargets {
    Range { start: usize, end: usize },
    Blocks(Vec<(usize, usize)>),
}

/// An active operation, located in the transcript.
#[derive(Clone, Debug)]
pub struct ResolvedOperation {
    pub transaction_id: String,
    pub operation_index: usize,
    pub kind: ContextOperationBadgeKind,
    pub targets: ResolvedTargets,
}

/// The badge of an operation.
pub open spec fn badge_of(op: ResolvedOperation) -> BadgeModel {
    BadgeModel {
        transaction_id: op.transaction_id@,
        operation_index: op.operation_index,
        kind: op.kind,
    }
}

/// Whether an operation touches message `m`.
pub open spec fn touches(op: ResolvedOperation, m: usize) -> bool {
    match op.targets {
        ResolvedTargets::Range { start, end } => start <= m <= end,
        ResolvedTargets::Blocks(v) => positions_touch(v@, m),
    }
}

/// Whether some position is in message `m`.
pub open spec fn positions_touch(v: Seq<(usize, usize)>, m: usize) -> bool {
    exists|k: int| 0 <= k < v.len() && (#[trigger] v[k]).0 == m
}

fn any_in_message(v: &Vec<(usize, usize)>, m: usize) -> (r: bool)
    ensures
        r == positions_touch(v@, m),
{
    let mut k: usize = 0;
    while k < v.len()
        invariant
            k <= v@.len(),
            forall|j: int| 0 <= j < k ==> (#[trigger] v@[j]).0 != m,
        decreases v.len() - k,
    {
        if v[k].0 == m {
            assert(v@[k as int].0 == m);
            return true;
        }
        k += 1;
    }
    false
}

/// How often `p` occurs among some positions.
pub open spec fn occurrences(v: Seq<(usize, usize)>, p: (usize, usize)) -> nat
    decreases v.len(),
{
    if v.len() == 0 {
        0
    } else {
        occurrences(v.drop_last(), p) + if v.last() == p {
            1nat
        } else {
            0nat
        }
    }
}

/// How often an operation targets block `b` of message `m`.
pub open spec fn block_hits(op: ResolvedOperation, m: usize, b: usize) -> nat {
    match op.targets {
        ResolvedTargets::Range { .. } => 0,
        ResolvedTargets::Blocks(v) => occurrences(v@, (m, b)),
    }
}

/// The badges of message `m`: one per operation that touches it, in operation order.
pub open spec fn message_badges_of(ops: Seq<ResolvedOperation>, m: usize) -> Seq<BadgeModel>
    decreases ops.len(),
{
    if ops.len() == 0 {
        Seq::empty()
    } else {
        message_badges_of(ops.drop_last(), m) + if touches(ops.last(), m) {
            seq![badge_of(ops.last())]
        } else {
            Seq::empty()
        }
    }
}

/// The badges of block `b` of message `m`: one per targeting of it, in operation order.
pub open spec fn block_badges_of(ops: Seq<ResolvedOperation>, m: usize, b: usize) -> Seq<BadgeModel>
    decreases ops.len(),
{
    if ops.len() == 0 {
        Seq::empty()
    } else {
        block_badges_of(ops.drop_last(), m, b) + Seq::new(
            block_hits(ops.last(), m, b),
            |i: int| badge_of(ops.last()),
        )
    }
}

/// The last range summary that covers message `m`.
pub open spec fn coverage_of(ops: Seq<ResolvedOperation>, m: usize) -> Option<(Seq<char>, usize)>
    decreases ops.len(),
{
    if ops.len() == 0 {
        None
    } else if ops.last().kind == ContextOperationBadgeKind::RangeSummary && touches(ops.last(), m) {
        Some((ops.last().transaction_id@, ops.last().operation_index))
    } else {
        coverage_of(ops.drop_last(), m)
    }
}

fn badge(op: &ResolvedOperation) -> (r: ContextOperationBadge)
    ensures
        r@ == badge_of(*op),
{
    ContextOperationBadge {
        transaction_id: op.transaction_id.clone(),
        operation_index: op.operation_index,
        kind: op.kind,
    }
}

fn op_touches(op: &ResolvedOperation, m: usize) -> (r: bool)
    ensures
        r == touches(*op, m),
{
    match &op.targets {
        ResolvedTargets::Range { start, end } => *start <= m && m <= *end,
        ResolvedTargets::Blocks(v) => any_in_message(v, m),
    }
}

/// The badges of message `m` (see [`message_badges_of`]).
pub fn message_badges(ops: &[ResolvedOperation], m: usize) -> (r: Vec<ContextOperationBadge>)
    ensures
        badge_views(r@) == message_badges_of(ops@, m),
{
    let mut out: Vec<ContextOperationBadge> = Vec::new();
    let mut i: usize = 0;
    while i < ops.len()
        invariant
            i <= ops@.len(),
            badge_views(out@) == message_badges_of(ops@.take(i as int), m),
        decreases ops.len() - i,
    {
        let ghost prev = out@;
        if op_touches(&ops[i], m) {
            let b = badge(&ops[i]);
            out.push(b);
            proof {
                assert(out@ =~= prev.push(b));
                assert(badge_views(out@) =~= badge_views(prev).push(b@));
            }
        } else {
            assert(out@ =~= prev);
        }
        proof {
            assert(ops@.take(i + 1).drop_last() =~= ops@.take(i as int));
            assert(ops@.take(i + 1).last() == ops@[i as int]);
            assert(badge_views(out@) =~= message_badges_of(ops@.take(i + 1), m));
        }
        i += 1;
    }
    proof {
        assert(ops@.take(ops@.len() as int) =~= ops@);
    }
    out
}

/// The badges of block `b` of message `m` (see [`block_badges_of`]).
pub fn block_badges(ops: &[ResolvedOperation], m: usize, b: usize) -> (r: Vec<ContextOperationBadge>)
    ensures
        badge_views(r@) == block_badges_of(ops@, m, b),
{
    let mut out: Vec<ContextOperationBadge> = Vec::new();
    let mut i: usize = 0;
    while i < ops.len()
        invariant
            i <= ops@.len(),
            badge_views(out@) == block_badges_of(ops@.take(i as int), m, b),
        decreases ops.len() - i,
    {
        let op = &ops[i];
        let ghost base = badge_views(out@);
        match &op.targets {
            ResolvedTargets::Range { .. } => {
                assert(Seq::new(block_hits(*op, m, b), |j: int| badge_of(*op)) =~= Seq::<
                    BadgeModel,
                >::empty());
            },
            ResolvedTargets::Blocks(v) => {
                let mut k: usize = 0;
                while k < v.len()
                    invariant
                        k <= v@.len(),
                        op.targets == ResolvedTargets::Blocks(*v),
                        badge_views(out@) == base + Seq::new(
                            occurrences(v@.take(k as int), (m, b)),
                            |j: int| badge_of(*op),
                        ),
                    decreases v.len() - k,
                {
                    let ghost prev = out@;
                    if v[k].0 == m && v[k].1 == b {
                        let nb = badge(op);
                        out.push(nb);
                        proof {
                            assert(out@ =~= prev.push(nb));
                            assert(badge_views(out@) =~= badge_views(prev).push(nb@));
                        }
                    }
                    proof {
                        assert(v@.take(k + 1).drop_last() =~= v@.take(k as int));
                        assert(v@.take(k + 1).last() == v@[k as int]);
                        assert(badge_views(out@) =~= base + Seq::new(
                            occurrences(v@.take(k + 1), (m, b)),
                            |j: int| badge_of(*op),
                        ));
                    }
                    k += 1;
                }
                proof {
                    assert(v@.take(v@.len() as int) =~= v@);
                }
            },
        }
        proof {
            assert(ops@.take(i + 1).drop_last() =~= ops@.take(i as int));
            assert(ops@.take(i + 1).last() == ops@[i as int]);
            assert(badge_views(out@) =~= block_badges_of(ops@.take(i + 1), m, b));
        }
        i += 1;
    }
    proof {
        assert(ops@.take(ops@.len() as int) =~= ops@);
    }
    out
}

/// The last range summary that covers message `m` (see [`coverage_of`]).
pub fn summary_coverage(ops: &[ResolvedOperation], m: usize) -> (r: Option<ContextSummaryCoverage>)
    ensures
        match r {
            Some(c) => coverage_of(ops@, m) == Some((c.transaction_id@, c.operation_index)),
            None => coverage_of(ops@, m) is None,
        },
{
    let mut i: usize = ops.len();
    assert(ops@.take(i as int) =~= ops@);
    while i > 0
        invariant
            i <= ops@.len(),
            coverage_of(ops@, m) == coverage_of(ops@.take(i as int), m),
        decreases i,
    {
        let op = &ops[i - 1];
        proof {
            assert(ops@.take(i as int).last() == ops@[i - 1]);
            assert(ops@.take(i as int).drop_last() =~= ops@.take(i - 1));
        }
        if op.kind == ContextOperationBadgeKind::RangeSummary && op_touches(op, m) {
            return Some(
                ContextSummaryCoverage {
                    transaction_id: op.transaction_id.clone(),
                    operation_index: op.operation_index,
                },
            );
        }
        i -= 1;
    }
    None
}

/// Whether `c` names the last range summary that covers message `m`, or is absent when none
/// does.
pub open spec fn coverage_row(c: Option<ContextSummaryCoverage>, ops: Seq<ResolvedOperation>, m: usize) -> bool {
    match c {
        Some(c) => coverage_of(ops, m) == Some((c.transaction_id@, c.operation_index)),
        None => coverage_of(ops, m) is None,
    }
}

/// The message rows of a snapshot, one per stored message in order, with the badges and
/// summary coverage of the active operations. `block_estimates[i]` holds one token estimate
/// per block of message `i`; `raw_tokens[i]` and `projected_tokens[i]` are message `i`'s raw and
/// projected estimates; `removable` lists the reasoning kinds the provider could remove.
pub fn editor_rows(
    messages: &[StoredMessage],
    operations: &[ResolvedOperation],
    block_estimates: &Vec<Vec<usize>>,
    raw_tokens: &Vec<usize>,
    projected_tokens: &Vec<usize>,
    removable: &Vec<StoredContextBlockKind>,
) -> (r: Vec<ContextEditorMessage>)
    requires
        block_estimates@.len() == messages@.len(),
        raw_tokens@.len() == messages@.len(),
        projected_tokens@.len() == messages@.len(),
        forall|i: int|
            0 <= i < messages@.len() ==> (#[trigger] block_estimates@[i])@.len()
                == messages@[i].content@.len(),
    ensures
        r@.len() == messages@.len(),
        forall|i: int|
            0 <= i < messages@.len() ==> message_row(
                #[trigger] r@[i],
                messages@[i],
                i as usize,
                block_estimates@[i]@,
                raw_tokens@[i],
                projected_tokens@[i],
                removable@,
                Seq::new(
                    messages@[i].content@.len(),
                    |b: int| block_badges_of(operations@, i as usize, b as usize),
                ),
                message_badges_of(operations@, i as usize),
            ) && coverage_row(r@[i].summary_coverage, operations@, i as usize),
{
    let mut rows: Vec<ContextEditorMessage> = Vec::new();
    let mut i: usize = 0;
    while i < messages.len()
        invariant
            i <= messages@.len(),
            rows@.len() == i,
            block_estimates@.len() == messages@.len(),
            raw_tokens@.len() == messages@.len(),
            projected_tokens@.len() == messages@.len(),
            forall|k: int|
                0 <= k < messages@.len() ==> (#[trigger] block_estimates@[k])@.len()
                    == messages@[k].content@.len(),
            forall|k: int|
                0 <= k < i ==> message_row(
                    #[trigger] rows@[k],
                    messages@[k],
                    k as usize,
                    block_estimates@[k]@,
                    raw_tokens@[k],
                    projected_tokens@[k],
                    removable@,
                    Seq::new(
                        messages@[k].content@.len(),
                        |b: int| block_badges_of(operations@, k as usize, b as usize),
                    ),
                    message_badges_of(operations@, k as usize),
                ) && coverage_row(rows@[k].summary_coverage, operations@, k as usize),
        decreases messages.len() - i,
    {
        let message = &messages[i];
        let n = message.content.len();
        let mut per_block: Vec<Vec<ContextOperationBadge>> = Vec::new();
        let mut b: usize = 0;
        while b < n
            invariant
                b <= n,
                n == message.content@.len(),
                per_block@.len() == b,
                forall|k: int|
                    0 <= k < b ==> badge_views((#[trigger] per_block@[k])@) == block_badges_of(
                        operations@,
                        i,
                        k as usize,
                    ),
            decreases n - b,
        {
            per_block.push(block_badges(operations, i, b));
            b += 1;
        }
        let row = editor_message_row(
            message,
            i,
            &block_estimates[i],
            raw_tokens[i],
            projected_tokens[i],
            removable,
            &per_block,
            &message_badges(operations, i),
            summary_coverage(operations, i),
        );
        proof {
            assert(block_badge_views(per_block@) =~= Seq::new(
                messages@[i as int].content@.len(),
                |b: int| block_badges_of(operations@, i, b as usize),
            ));
        }
        rows.push(row);
        i += 1;
    }
    rows
}

} // verus!
