//! Request preflight: how much image payload a provider request carries, and the token
//! breakdown of a request by category.

use vstd::prelude::*;

use crate::model::{ContentBlock, Message};
use crate::text::{sat_add, utf8_len};

verus! {

/// The image payload of a provider request.
#[derive(Clone, Copy, Debug)]
pub struct ContextPayloadPressure {
    pub image_count: usize,
    pub estimated_base64_bytes: usize,
}

/// `(images, bytes)` after one more block: an image adds one and its data's length, each sum
/// saturating at `usize::MAX`.
pub open spec fn block_pressure(acc: (nat, nat), block: ContentBlock) -> (nat, nat) {
    match block {
        ContentBlock::Image { data, .. } => (sat_add(acc.0, 1), sat_add(acc.1, utf8_len(data@))),
        _ => acc,
    }
}

/// The pressure after some blocks.
pub open spec fn blocks_pressure(acc: (nat, nat), blocks: Seq<ContentBlock>) -> (nat, nat)
    decreases blocks.len(),
{
    if blocks.len() == 0 {
        acc
    } else {
        block_pressure(blocks_pressure(acc, blocks.drop_last()), blocks.last())
    }
}

/// The image pressure of some messages, block by block in order.
pub open spec fn messages_pressure(msgs: Seq<Message>) -> (nat, nat)
    decreases msgs.len(),
{
    if msgs.len() == 0 {
        (0, 0)
    } else {
        blocks_pressure(messages_pressure(msgs.drop_last()), msgs.last().content@)
    }
}

/// The number of image blocks in a request and the bytes of their encoded data, each
/// saturating at `usize::MAX`.
pub fn request_payload_pressure(messages: &[Message]) -> (r: ContextPayloadPressure)
    ensures
        (r.image_count as nat, r.estimated_base64_bytes as nat) == messages_pressure(messages@),
{
    let mut image_count: usize = 0;
    let mut bytes: usize = 0;
    let mut m: usize = 0;
    while m < messages.len()
        invariant
            m <= messages@.len(),
            (image_count as nat, bytes as nat) == messages_pressure(messages@.take(m as int)),
        decreases messages.len() - m,
    {
        let blocks = &messages[m].content;
        let ghost start = (image_count as nat, bytes as nat);
        let mut b: usize = 0;
        while b < blocks.len()
            invariant
                b <= blocks@.len(),
                (image_count as nat, bytes as nat) == blocks_pressure(start, blocks@.take(b as int)),
            decreases blocks.len() - b,
        {
            match &blocks[b] {
                ContentBlock::Image { data, .. } => {
                    image_count = image_count.saturating_add(1);
                    bytes = bytes.saturating_add(data.as_str().len());
                },
                _ => {},
            }
            proof {
                assert(blocks@.take(b + 1).drop_last() =~= blocks@.take(b as int));
                assert(blocks@.take(b + 1).last() == blocks@[b as int]);
            }
            b += 1;
        }
        proof {
            assert(blocks@.take(blocks@.len() as int) =~= blocks@);
            assert(messages@.take(m + 1).drop_last() =~= messages@.take(m as int));
            assert(messages@.take(m + 1).last() == messages@[m as int]);
        }
        m += 1;
    }
    proof {
        assert(messages@.take(messages@.len() as int) =~= messages@);
    }
    ContextPayloadPressure { image_count, estimated_base64_bytes: bytes }
}

/// The estimated tokens of a provider request, by category.
#[derive(Clone, Copy, Debug)]
pub struct ContextRequestTokenBreakdown {
    pub system_tokens: usize,
    pub tool_definition_tokens: usize,
    pub historical_message_tokens: usize,
    pub pending_input_tokens: usize,
    pub memory_tokens: usize,
}

/// The projected input of a breakdown: every category, summed with saturation.
pub open spec fn projected_input(b: ContextRequestTokenBreakdown) -> nat {
    sat_add(
        sat_add(
            sat_add(
                sat_add(b.system_tokens as nat, b.tool_definition_tokens as nat),
                b.historical_message_tokens as nat,
            ),
            b.pending_input_tokens as nat,
        ),
        b.memory_tokens as nat,
    )
}

impl ContextRequestTokenBreakdown {
    /// The projected input tokens: every category counted once.
    pub fn projected_input_tokens(&self) -> (r: usize)
        ensures
            r == projected_input(*self),
    {
        self.system_tokens.saturating_add(self.tool_definition_tokens).saturating_add(
            self.historical_message_tokens,
        ).saturating_add(self.pending_input_tokens).saturating_add(self.memory_tokens)
    }
}

/// The token breakdown of a request whose messages, pending input included, are estimated at
/// `all_message_tokens`: the pending input and memory are counted in their own categories and
/// left out of the history (each subtraction saturating at zero).
pub fn request_token_breakdown(
    all_message_tokens: usize,
    pending_input_tokens: usize,
    memory_tokens: usize,
    system_tokens: usize,
    tool_definition_tokens: usize,
) -> (r: ContextRequestTokenBreakdown)
    ensures
        r.system_tokens == system_tokens,
        r.tool_definition_tokens == tool_definition_tokens,
        r.pending_input_tokens == pending_input_tokens,
        r.memory_tokens == memory_tokens,
        r.historical_message_tokens == if all_message_tokens >= pending_input_tokens
            + memory_tokens {
            all_message_tokens - pending_input_tokens - memory_tokens
        } else {
            0
        },
{
    ContextRequestTokenBreakdown {
        system_tokens,
        tool_definition_tokens,
        historical_message_tokens: all_message_tokens.saturating_sub(pending_input_tokens).saturating_sub(
            memory_tokens,
        ),
        pending_input_tokens,
        memory_tokens,
    }
}

/// Counting each category once: when the messages' estimate covers the pending input and the
/// memory, the history and those two categories add back up to it.
pub proof fn law_breakdown_counts_each_category_once(
    b: ContextRequestTokenBreakdown,
    all_message_tokens: usize,
)
    requires
        all_message_tokens >= b.pending_input_tokens + b.memory_tokens,
        b.historical_message_tokens == all_message_tokens - b.pending_input_tokens
            - b.memory_tokens,
        b.system_tokens + b.tool_definition_tokens + all_message_tokens <= usize::MAX,
    ensures
        b.historical_message_tokens + b.pending_input_tokens + b.memory_tokens
            == all_message_tokens,
        projected_input(b) == b.system_tokens + b.tool_definition_tokens + all_message_tokens,
{
}

/// How close a request is to its limits.
#[derive(PartialEq, Eq, Structural, Clone, Copy, Debug)]
pub enum ContextPressureLevel {
    Normal,
    Notice,
    Urgent,
    Blocked,
}

/// The input budget of a provider request, as the provider's budget reports it.
#[derive(Clone, Copy, Debug)]
pub struct ContextBudgetFigures {
    pub context_window: usize,
    /// The input the request may safely use.
    pub safe_input_budget: usize,
    pub requested_max_output_tokens: Option<usize>,
    /// The output the budget holds back for the reply.
    pub output_reserve_tokens: usize,
    pub estimator_margin_tokens: usize,
    /// Whether the output reserve is the request's own output cap.
    pub exact_output_reserve_known: bool,
}

/// The pressure a request is under, as the pressure calculation reports it.
#[derive(Clone, Copy, Debug)]
pub struct ContextPressureFigures {
    pub level: ContextPressureLevel,
    pub remaining_context_tokens: usize,
    pub remaining_safe_input_tokens: usize,
}

/// What the preflight check reports of a request before it is sent.
#[derive(Clone, Copy, Debug)]
pub struct ContextPreflightReport {
    pub context_revision: u64,
    pub pressure: ContextPressureLevel,
    pub context_window: usize,
    pub safe_input_budget: usize,
    pub projected_input_tokens: usize,
    /// How many tokens must go for the request to fit the safe budget.
    pub required_reduction_tokens: usize,
    pub remaining_context_tokens: usize,
    pub remaining_safe_input_tokens: usize,
    pub requested_max_output_tokens: Option<usize>,
    pub output_reserve_tokens: usize,
    pub estimator_margin_tokens: usize,
    pub exact_output_reserve_known: bool,
    pub breakdown: ContextRequestTokenBreakdown,
}

/// The preflight report of a request at `context_revision`: the breakdown's projected input
/// against the budget, the reduction the safe budget requires (saturating at zero), and the
/// pressure as calculated for that projection.
pub fn evaluate_context_preflight(
    context_revision: u64,
    budget: ContextBudgetFigures,
    pressure: ContextPressureFigures,
    breakdown: ContextRequestTokenBreakdown,
) -> (r: ContextPreflightReport)
    ensures
        r.context_revision == context_revision,
        r.pressure == pressure.level,
        r.context_window == budget.context_window,
        r.safe_input_budget == budget.safe_input_budget,
        r.projected_input_tokens == projected_input(breakdown),
        r.required_reduction_tokens == (if projected_input(breakdown) > budget.safe_input_budget {
            projected_input(breakdown) - budget.safe_input_budget
        } else {
            0
        }),
        r.remaining_context_tokens == pressure.remaining_context_tokens,
        r.remaining_safe_input_tokens == pressure.remaining_safe_input_tokens,
        r.requested_max_output_tokens == budget.requested_max_output_tokens,
        r.output_reserve_tokens == budget.output_reserve_tokens,
        r.estimator_margin_tokens == budget.estimator_margin_tokens,
        r.exact_output_reserve_known == budget.exact_output_reserve_known,
        r.breakdown == breakdown,
{
    let projected = breakdown.projected_input_tokens();
    ContextPreflightReport {
        context_revision,
        pressure: pressure.level,
        context_window: budget.context_window,
        safe_input_budget: budget.safe_input_budget,
        projected_input_tokens: projected,
        required_reduction_tokens: projected.saturating_sub(budget.safe_input_budget),
        remaining_context_tokens: pressure.remaining_context_tokens,
        remaining_safe_input_tokens: pressure.remaining_safe_input_tokens,
        requested_max_output_tokens: budget.requested_max_output_tokens,
        output_reserve_tokens: budget.output_reserve_tokens,
        estimator_margin_tokens: budget.estimator_margin_tokens,
        exact_output_reserve_known: budget.exact_output_reserve_known,
        breakdown,
    }
}

} // verus!
