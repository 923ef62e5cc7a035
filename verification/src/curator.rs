//! The context curator: its prompts, limits, artifacts and errors, the checks on its
//! structured responses, route selection, response collection and usage accounting.

use vstd::prelude::*;

use crate::protocol::{CONTEXT_IDENTIFIER_MAX_CHARS, CONTEXT_PROTOCOL_MAX_EVENT_BYTES};
use crate::provider::{ModelRoute, Provider};
use sha2::Digest;
use crate::text::{
    ascii_lower_seq, chars_of, concat2, concat3, contains_chars, contains_seq, decimal,
    debug_quoted, debug_str, decimal_string, is_blank, lower_chars, sat_add, str_eq, trim_chars,
    lemma_trim_len, trim_seq, utf8_len,
};

verus! {

/// Version of the range-summarizer prompt.
pub const CONTEXT_RANGE_SUMMARIZER_PROMPT_VERSION: &'static str = "context-range-summarizer-v3";

/// Version of the tool-result-distiller prompt.
pub const CONTEXT_TOOL_DISTILLER_PROMPT_VERSION: &'static str = "context-tool-result-distiller-v2";

/// Product-approved verbatim base instruction of the range summarizer. Changing it needs an
/// explicit product decision and a new prompt version.
pub const RANGE_SUMMARIZER_BASE_PROMPT: &'static str = r#"This is `jcode`, an agentic coding harness. You are a __range summarizer__. A "range" is a (continuous) *slice* from a coding session. You will be given such a slice, and your task is to **losslessly summarize this slice**. A coding session, expectedly, includes user messages, assistant messages, assistant tool calls and their outputs. The purpose of compacting a slice is to reduce clutter by compressing a less-relevant past slice of a session into a smaller one. Less-relevant does not mean *not relevant*, and that's the reason you are "summarizing" it instead of simply removing it from the session history.
The slice will be *replaced* with your summary, and thus the working agent will *forget* the original slice completely, and their memory of that slice will be replaced by your summary. Thus, the agent will _rely_ on your summary. The agent will **continue working** after your summary. The agent does _not_ continue from where your summary ends — the slice you see is not the full session itself.
For example, if the session had 100 messages, your slice can be anything: message 20 to 30, 10 to 90, 50 to 80, and so on.
Keep your summary very detailed, informative, high-quality, well-written, and robust. Tell about what's been done, what interactions happened, what tool calls were made, what actions were taken, and so on. If files were read, explain the contents of these files (since if your slice contains a file read, it means the agent will "forget" that file as well, evidently), and so on. Make your summary *intentional*, and specific, and detailed. Not "files were read", "x file was read", "commits were made", and so on — these give no valuable information to the agent.
Return exactly one JSON object matching the supplied schema. Do not use markdown fences. Be **meticulous**."#;

/// Requirements every range summary must meet.
pub const RANGE_MANDATORY_INSTRUCTIONS: &'static str = r#"Mandatory correctness requirements:
- Preserve user intent and preferences, decisions and rejected alternatives, exact constraints and invariants, implementation state at the end of the slice, files and symbols changed, commands and observed results, failures, unresolved issues, next steps, provider and environment facts, and operationally relevant IDs, hashes, paths, versions, values, and error strings.
- Preserve the substantive contents and findings of file reads, not merely the fact that a file was read.
- Never claim unverified work passed, omit unresolved failures, invent changed files, or replace precise technical facts with vague prose.
- Treat the complete `conversation_slice` as the authoritative primary source. Harness-generated file evidence is supporting metadata and never replaces substantive source content.
- Keep files changed, files read or inspected, and paths searched or browsed distinct. A search or directory browse does not prove that a file was read, and a read does not prove that a file changed.
- Use every harness-generated evidence category honestly. When any category is marked incomplete, retain its uncertainty and reasons.
- Return only the required JSON object with non-empty `summary`, `file_change_digest`, and `warnings` fields of the declared types."#;

/// Base instruction of the tool-result distiller.
pub const TOOL_DISTILLER_BASE_PROMPT: &'static str = r#"This is `jcode`, an agentic coding harness. You are a __tool-result distiller__. You will receive one complete tool result, its matching tool call, and only the supporting conversation needed to understand what later work relies upon. Your task is to decide whether that one result can be replaced by a substantially smaller representation without losing any meaningful information that could affect continued coding work.

The original tool result will disappear from the provider-facing context if the user accepts your proposal. Preserve exact errors and failing names, paths and line numbers, hashes, IDs, ports, versions, values, test counts, exit status, user-visible output, warnings, uncertainty, negative findings, and every fact relied upon later. A vague statement that a command ran or a file was inspected is not a substitute for its substantive findings. If a safe replacement cannot fit strictly below the supplied token threshold, mark the result ineligible.

Return exactly one JSON object matching the supplied schema. Do not use markdown fences or commentary. Be meticulous."#;

/// Requirements every tool-result distillation must meet.
pub const TOOL_MANDATORY_INSTRUCTIONS: &'static str = r#"Mandatory correctness requirements:
- Evaluate only the one supplied tool result. Do not summarize unrelated conversation or propose other context operations.
- `eligible: true` requires a non-empty replacement and preservation rationale, no ineligible reason, and a replacement that remains strictly below 20 percent after Jcode re-tokenizes the preserved ToolResult structure.
- `eligible: false` requires a non-empty ineligible reason and must not provide eligible-only fields.
- A completely unnecessary result still needs a concise explicit marker when eligible.
- Preserve uncertainty and mark the result ineligible whenever lossless reduction below the limit is not possible.
- Return only the required JSON object."#;

/// Size and time bounds of curator work.
#[derive(Clone, Copy, Debug)]
pub struct ContextCuratorLimits {
    pub max_request_bytes: usize,
    pub max_response_bytes: usize,
    pub max_plan_preview_bytes: usize,
    /// Longest a curator request may run, in seconds.
    pub timeout_secs: u64,
}

impl Default for ContextCuratorLimits {
    /// 32 MiB requests, 2 MiB responses, plan previews 4 KiB below the protocol's event bound,
    /// and ten minutes per request.
    fn default() -> (r: Self)
        ensures
            r.max_request_bytes == 33554432,
            r.max_response_bytes == 2097152,
            r.max_plan_preview_bytes == CONTEXT_PROTOCOL_MAX_EVENT_BYTES - 4096,
            r.timeout_secs == 600,
    {
        ContextCuratorLimits {
            max_request_bytes: 32 * 1024 * 1024,
            max_response_bytes: 2 * 1024 * 1024,
            max_plan_preview_bytes: CONTEXT_PROTOCOL_MAX_EVENT_BYTES - 4 * 1024,
            timeout_secs: 10 * 60,
        }
    }
}

/// A generated range summary.
#[derive(Clone, Debug)]
pub struct ContextCuratorRangeArtifact {
    pub summary: String,
    pub file_change_digest: String,
    pub warnings: Vec<String>,
}

/// A generated judgement on one tool result.
#[derive(Clone, Debug)]
pub enum ContextCuratorToolArtifact {
    Eligible {
        replacement: String,
        replacement_token_estimate: usize,
        preservation_rationale: String,
        uncertainties: Vec<String>,
    },
    Ineligible { reason: String, uncertainties: Vec<String> },
}

/// Why curator work failed.
#[derive(Clone, Debug)]
pub enum ContextCuratorError {
    Route(String),
    RequestTooLarge { bytes: usize, limit: usize },
    InputTooLarge { estimated_tokens: usize, safe_budget: usize },
    ImagesUnsupported { count: usize, provider: String },
    ResponseTooLarge { bytes: usize, limit: usize },
    PlanPreviewTooLarge { bytes: usize, limit: usize },
    Timeout,
    Canceled,
    Provider(String),
    UnexpectedToolUse,
    InvalidResponse(String),
    TaskFailed { task_id: String, completed: usize, total: usize, reason: String },
}

/// The explanation of a curator error.
pub open spec fn curator_error_message(e: ContextCuratorError) -> Seq<char> {
    match e {
        ContextCuratorError::Route(reason) => "context curator route is unavailable: "@ + reason@,
        ContextCuratorError::RequestTooLarge { bytes, limit } => "complete atomic curator request is "@
            + decimal(bytes as nat) + " bytes, exceeding the "@ + decimal(limit as nat)
            + "-byte bound; no source was truncated"@,
        ContextCuratorError::InputTooLarge { estimated_tokens, safe_budget } =>
            "complete atomic curator input is estimated at "@ + decimal(estimated_tokens as nat)
            + " tokens, exceeding the selected route's safe "@ + decimal(safe_budget as nat)
            + "-token input budget; no source was truncated"@,
        ContextCuratorError::ImagesUnsupported { count, provider } =>
            "complete atomic curator material contains "@ + decimal(count as nat)
            + " image(s), but route "@ + provider@ + " does not support image input"@,
        ContextCuratorError::ResponseTooLarge { bytes, limit } => "context curator response reached "@
            + decimal(bytes as nat) + " bytes, exceeding the "@ + decimal(limit as nat)
            + "-byte bound"@,
        ContextCuratorError::PlanPreviewTooLarge { bytes, limit } => "exact curator plan preview is "@
            + decimal(bytes as nat) + " bytes, exceeding the "@ + decimal(limit as nat)
            + "-byte bound; reduce the number of atomic tasks or ephemeral instructions before generation"@,
        ContextCuratorError::Timeout => "context curator request timed out"@,
        ContextCuratorError::Canceled => "context curator request was canceled"@,
        ContextCuratorError::Provider(reason) => "context curator provider failed: "@ + reason@,
        ContextCuratorError::UnexpectedToolUse =>
            "context curator attempted a tool call; artifact generation requires JSON text only"@,
        ContextCuratorError::InvalidResponse(reason) =>
            "context curator returned invalid structured output: "@ + reason@,
        ContextCuratorError::TaskFailed { task_id, completed, total, reason } =>
            "atomic curator task "@ + task_id@ + " failed after "@ + decimal(completed as nat)
            + " of "@ + decimal(total as nat) + " task(s) completed: "@ + reason@
            + "; no generated artifact was activated or retained as an applicable transaction"@,
    }
}

fn join5(a: &str, b: &str, c: &str, d: &str, e: &str) -> (r: String)
    ensures
        r@ == a@ + b@ + c@ + d@ + e@,
{
    let mut out = concat3(a, b, c);
    out.append(d);
    out.append(e);
    out
}

fn num(n: usize) -> (r: String)
    ensures
        r@ == decimal(n as nat),
{
    decimal_string(n as u64)
}

impl ContextCuratorError {
    /// The explanation of the error.
    pub fn message(&self) -> (r: String)
        ensures
            r@ == curator_error_message(*self),
    {
        match self {
            ContextCuratorError::Route(reason) => concat2(
                "context curator route is unavailable: ",
                reason.as_str(),
            ),
            ContextCuratorError::RequestTooLarge { bytes, limit } => join5(
                "complete atomic curator request is ",
                num(*bytes).as_str(),
                " bytes, exceeding the ",
                num(*limit).as_str(),
                "-byte bound; no source was truncated",
            ),
            ContextCuratorError::InputTooLarge { estimated_tokens, safe_budget } => join5(
                "complete atomic curator input is estimated at ",
                num(*estimated_tokens).as_str(),
                " tokens, exceeding the selected route's safe ",
                num(*safe_budget).as_str(),
                "-token input budget; no source was truncated",
            ),
            ContextCuratorError::ImagesUnsupported { count, provider } => join5(
                "complete atomic curator material contains ",
                num(*count).as_str(),
                " image(s), but route ",
                provider.as_str(),
                " does not support image input",
            ),
            ContextCuratorError::ResponseTooLarge { bytes, limit } => join5(
                "context curator response reached ",
                num(*bytes).as_str(),
                " bytes, exceeding the ",
                num(*limit).as_str(),
                "-byte bound",
            ),
            ContextCuratorError::PlanPreviewTooLarge { bytes, limit } => join5(
                "exact curator plan preview is ",
                num(*bytes).as_str(),
                " bytes, exceeding the ",
                num(*limit).as_str(),
                "-byte bound; reduce the number of atomic tasks or ephemeral instructions before generation",
            ),
            ContextCuratorError::Timeout => String::from_str("context curator request timed out"),
            ContextCuratorError::Canceled => String::from_str(
                "context curator request was canceled",
            ),
            ContextCuratorError::Provider(reason) => concat2(
                "context curator provider failed: ",
                reason.as_str(),
            ),
            ContextCuratorError::UnexpectedToolUse => String::from_str(
                "context curator attempted a tool call; artifact generation requires JSON text only",
            ),
            ContextCuratorError::InvalidResponse(reason) => concat2(
                "context curator returned invalid structured output: ",
                reason.as_str(),
            ),
            ContextCuratorError::TaskFailed { task_id, completed, total, reason } => {
                let mut out = join5(
                    "atomic curator task ",
                    task_id.as_str(),
                    " failed after ",
                    num(*completed).as_str(),
                    " of ",
                );
                out.append(num(*total).as_str());
                out.append(" task(s) completed: ");
                out.append(reason.as_str());
                out.append(
                    "; no generated artifact was activated or retained as an applicable transaction",
                );
                out
            },
        }
    }
}

/// The system prompt of a curator role: its base and mandatory instructions, then any
/// user-approved transaction-wide and task-specific instructions that are not blank, then,
/// when there were any, a reminder that they are additive.
pub open spec fn effective_prompt_text(
    base: Seq<char>,
    mandatory: Seq<char>,
    transaction: Seq<char>,
    task: Seq<char>,
) -> Seq<char> {
    let has_transaction = trim_seq(transaction).len() > 0;
    let has_task = trim_seq(task).len() > 0;
    base + "\n\n"@ + mandatory + (if has_transaction {
        "\n\nUser-approved additional instructions for this context transaction:\n"@ + transaction
    } else {
        Seq::empty()
    }) + (if has_task {
        "\n\nUser-approved additional instructions for this specific range:\n"@ + task
    } else {
        Seq::empty()
    }) + (if has_transaction || has_task {
        "\n\nThese additional instructions are additive. Ignore any part that conflicts with the base role, mandatory preservation guarantees, complete-source semantics, or output contract."@
    } else {
        Seq::empty()
    })
}

/// A curator prompt always opens with its base and mandatory instructions. When any
/// user-approved instructions are appended (transaction-wide or task-specific, not blank),
/// the transaction-wide ones come first, right after the mandatory instructions, and the
/// prompt ends with the additive-instructions reminder; without any, the prompt is exactly
/// the base and mandatory instructions.
pub proof fn law_user_instructions_close_with_the_additive_notice(
    base: Seq<char>,
    mandatory: Seq<char>,
    transaction: Seq<char>,
    task: Seq<char>,
)
    ensures
        ({
            let p = effective_prompt_text(base, mandatory, transaction, task);
            let head = base + "\n\n"@ + mandatory;
            &&& p.len() >= head.len()
            &&& p.subrange(0, head.len() as int) == head
            &&& (trim_seq(transaction).len() > 0 || trim_seq(task).len() > 0) ==> {
                &&& p.len() >= head.len() + ("\n\nThese additional instructions are additive. Ignore any part that conflicts with the base role, mandatory preservation guarantees, complete-source semantics, or output contract."@).len()
                &&& p.subrange(p.len() - ("\n\nThese additional instructions are additive. Ignore any part that conflicts with the base role, mandatory preservation guarantees, complete-source semantics, or output contract."@).len(), p.len() as int)
                    == ("\n\nThese additional instructions are additive. Ignore any part that conflicts with the base role, mandatory preservation guarantees, complete-source semantics, or output contract."@)
            }
            &&& trim_seq(transaction).len() > 0 ==> {
                let with_tx = head
                    + "\n\nUser-approved additional instructions for this context transaction:\n"@
                    + transaction;
                p.len() >= with_tx.len() && p.subrange(0, with_tx.len() as int) == with_tx
            }
            &&& (trim_seq(transaction).len() == 0 && trim_seq(task).len() == 0) ==> p == head
            &&& trim_seq(task).len() > 0 ==> {
                let tail = "\n\nUser-approved additional instructions for this specific range:\n"@
                    + task + ("\n\nThese additional instructions are additive. Ignore any part that conflicts with the base role, mandatory preservation guarantees, complete-source semantics, or output contract."@);
                p.len() >= tail.len() && p.subrange(p.len() - tail.len(), p.len() as int) == tail
            }
        }),
        trim_seq(transaction).len() == 0 ==> effective_prompt_text(base, mandatory, transaction, task)
            == effective_prompt_text(base, mandatory, Seq::empty(), task),
        trim_seq(task).len() == 0 ==> effective_prompt_text(base, mandatory, transaction, task)
            == effective_prompt_text(base, mandatory, transaction, Seq::empty()),
{
    let p = effective_prompt_text(base, mandatory, transaction, task);
    let head = base + "\n\n"@ + mandatory;
    let has_transaction = trim_seq(transaction).len() > 0;
    let has_task = trim_seq(task).len() > 0;
    let a = if has_transaction {
        "\n\nUser-approved additional instructions for this context transaction:\n"@ + transaction
    } else {
        Seq::empty()
    };
    let b = if has_task {
        "\n\nUser-approved additional instructions for this specific range:\n"@ + task
    } else {
        Seq::empty()
    };
    let c = if has_transaction || has_task {
        ("\n\nThese additional instructions are additive. Ignore any part that conflicts with the base role, mandatory preservation guarantees, complete-source semantics, or output contract."@)
    } else {
        Seq::empty()
    };
    assert(p == head + a + b + c);
    assert(p.subrange(0, head.len() as int) =~= head);
    if has_transaction || has_task {
        assert(p.subrange(p.len() - c.len(), p.len() as int) =~= c);
    }
    if has_transaction {
        assert(p.subrange(0, (head + a).len() as int) =~= head + a);
    }
    if !has_transaction && !has_task {
        assert(p =~= head);
    }
    if has_task {
        let tail = "\n\nUser-approved additional instructions for this specific range:\n"@ + task
            + ("\n\nThese additional instructions are additive. Ignore any part that conflicts with the base role, mandatory preservation guarantees, complete-source semantics, or output contract."@);
        assert(p == (head + a) + tail);
        assert(p.subrange(p.len() - tail.len(), p.len() as int) =~= tail);
    }
    lemma_trim_len(Seq::<char>::empty());
}

/// Builds [`effective_prompt_text`].
pub fn effective_prompt(base: &str, mandatory: &str, transaction: &str, task: &str) -> (r: String)
    ensures
        r@ == effective_prompt_text(base@, mandatory@, transaction@, task@),
{
    let mut prompt = concat3(base, "\n\n", mandatory);
    let ghost p0 = prompt@;
    let has_transaction = !is_blank(transaction);
    let has_task = !is_blank(task);
    if has_transaction {
        prompt.append("\n\nUser-approved additional instructions for this context transaction:\n");
        prompt.append(transaction);
    }
    let ghost p1 = prompt@;
    if has_task {
        prompt.append("\n\nUser-approved additional instructions for this specific range:\n");
        prompt.append(task);
    }
    let ghost p2 = prompt@;
    if has_transaction || has_task {
        prompt.append(
            "\n\nThese additional instructions are additive. Ignore any part that conflicts with the base role, mandatory preservation guarantees, complete-source semantics, or output contract.",
        );
    }
    proof {
        reveal_strlit("");
        assert(p1 == p0 + (if has_transaction {
            "\n\nUser-approved additional instructions for this context transaction:\n"@ + transaction@
        } else {
            Seq::empty()
        }));
    }
    prompt
}

/// The range summarizer's system prompt.
pub fn range_system_prompt(transaction: &str, task: &str) -> (r: String)
    ensures
        r@ == effective_prompt_text(
            RANGE_SUMMARIZER_BASE_PROMPT@,
            RANGE_MANDATORY_INSTRUCTIONS@,
            transaction@,
            task@,
        ),
{
    effective_prompt(RANGE_SUMMARIZER_BASE_PROMPT, RANGE_MANDATORY_INSTRUCTIONS, transaction, task)
}

/// The tool-result distiller's system prompt; it has no task-specific instructions.
pub fn tool_system_prompt(transaction: &str) -> (r: String)
    ensures
        r@ == effective_prompt_text(
            TOOL_DISTILLER_BASE_PROMPT@,
            TOOL_MANDATORY_INSTRUCTIONS@,
            transaction@,
            Seq::empty(),
        ),
{
    proof {
        reveal_strlit("");
    }
    effective_prompt(TOOL_DISTILLER_BASE_PROMPT, TOOL_MANDATORY_INSTRUCTIONS, transaction, "")
}

/// The value, unless it is blank.
pub fn nonempty_owned(value: &str) -> (r: Option<String>)
    ensures
        match r {
            Some(s) => s@ == value@ && trim_seq(value@).len() > 0,
            None => trim_seq(value@).len() == 0,
        },
{
    if is_blank(value) {
        None
    } else {
        Some(String::from_str(value))
    }
}

/// The two curator roles.
#[derive(PartialEq, Eq, Structural, Clone, Copy, Debug)]
pub enum StoredContextCuratorRole {
    RangeSummarizer,
    ToolResultDistiller,
}

/// The prompt version a role runs with.
pub fn task_prompt_version(role: StoredContextCuratorRole) -> (r: &'static str)
    ensures
        r@ == match role {
            StoredContextCuratorRole::RangeSummarizer => CONTEXT_RANGE_SUMMARIZER_PROMPT_VERSION@,
            StoredContextCuratorRole::ToolResultDistiller => CONTEXT_TOOL_DISTILLER_PROMPT_VERSION@,
        },
{
    match role {
        StoredContextCuratorRole::RangeSummarizer => CONTEXT_RANGE_SUMMARIZER_PROMPT_VERSION,
        StoredContextCuratorRole::ToolResultDistiller => CONTEXT_TOOL_DISTILLER_PROMPT_VERSION,
    }
}

/// How a provider reports cached input tokens.
#[derive(PartialEq, Eq, Structural, Clone, Copy, Debug)]
pub enum CacheUsageAccounting {
    /// Cached tokens are reported beside the input tokens.
    Split,
    /// Cached tokens are included in the input tokens.
    Inclusive,
}

/// The cache accounting of a provider, judged by its lower-cased, trimmed name.
pub open spec fn spec_cache_usage_accounting(provider_name: Seq<char>) -> Option<CacheUsageAccounting> {
    let n = ascii_lower_seq(trim_seq(provider_name));
    if contains_seq(n, "anthropic"@) {
        Some(CacheUsageAccounting::Split)
    } else if contains_seq(n, "openai"@) || contains_seq(n, "openrouter"@) || contains_seq(
        n,
        "chatgpt"@,
    ) || contains_seq(n, "codex"@) {
        Some(CacheUsageAccounting::Inclusive)
    } else {
        None
    }
}

fn name_contains(n: &Vec<char>, p: &str) -> (r: bool)
    ensures
        r == contains_seq(n@, p@),
{
    contains_chars(n, &chars_of(p))
}

/// The cache accounting of a provider, if it is known.
pub fn cache_usage_accounting(provider_name: &str) -> (r: Option<CacheUsageAccounting>)
    ensures
        r == spec_cache_usage_accounting(provider_name@),
{
    let n = lower_chars(&trim_chars(&chars_of(provider_name)));
    if name_contains(&n, "anthropic") {
        return Some(CacheUsageAccounting::Split);
    }
    if name_contains(&n, "openai") || name_contains(&n, "openrouter") || name_contains(
        &n,
        "chatgpt",
    ) || name_contains(&n, "codex") {
        return Some(CacheUsageAccounting::Inclusive);
    }
    None
}

/// A range summarizer's structured response, as parsed.
#[derive(Clone, Debug)]
pub struct CuratorRangeResponse {
    pub summary: String,
    pub file_change_digest: String,
    pub warnings: Vec<String>,
}

/// A tool-result distiller's structured response, as parsed.
#[derive(Clone, Debug)]
pub struct CuratorToolResponse {
    pub eligible: bool,
    pub replacement: Option<String>,
    pub preservation_rationale: Option<String>,
    pub ineligible_reason: Option<String>,
    pub uncertainties: Vec<String>,
}

pub open spec fn invalid_response(e: ContextCuratorError, reason: Seq<char>) -> bool {
    e matches ContextCuratorError::InvalidResponse(r) && r@ == reason
}

/// Accepts a range response whose summary and digest are not blank.
pub fn range_artifact_from_response(response: CuratorRangeResponse) -> (r: Result<
    ContextCuratorRangeArtifact,
    ContextCuratorError,
>)
    ensures
        match r {
            Ok(a) => {
                &&& trim_seq(response.summary@).len() > 0
                &&& trim_seq(response.file_change_digest@).len() > 0
                &&& a.summary == response.summary
                &&& a.file_change_digest == response.file_change_digest
                &&& a.warnings == response.warnings
            },
            Err(e) => if trim_seq(response.summary@).len() == 0 {
                invalid_response(e, "range summary is empty"@)
            } else {
                trim_seq(response.file_change_digest@).len() == 0 && invalid_response(
                    e,
                    "range file-change digest is empty"@,
                )
            },
        },
{
    if is_blank(response.summary.as_str()) {
        return Err(ContextCuratorError::InvalidResponse(String::from_str("range summary is empty")));
    }
    if is_blank(response.file_change_digest.as_str()) {
        return Err(
            ContextCuratorError::InvalidResponse(
                String::from_str("range file-change digest is empty"),
            ),
        );
    }
    Ok(
        ContextCuratorRangeArtifact {
            summary: response.summary,
            file_change_digest: response.file_change_digest,
            warnings: response.warnings,
        },
    )
}

/// A present, non-blank text.
pub open spec fn present(o: Option<String>) -> bool {
    o matches Some(s) && trim_seq(s@).len() > 0
}

/// A replacement is small enough when the original is estimated above zero tokens and the
/// replacement at strictly less than 20 percent of it.
pub open spec fn strictly_below_fifth(replacement: nat, original: nat) -> bool {
    original > 0 && replacement * 100 < original * 20
}

pub open spec fn above_fifth_reason(request_id: Seq<char>, replacement: nat, original: nat) -> Seq<
    char,
> {
    "eligible tool request "@ + debug_str(request_id) + " replacement is not strictly below 20 percent ("@
        + decimal(replacement) + " of "@ + decimal(original) + " estimated tokens)"@
}

/// Accepts a consistent tool response. An eligible one needs a non-blank replacement and
/// rationale, no ineligible reason, and a replacement estimated (as a tool result, by the
/// caller) at strictly less than 20 percent of the original; an ineligible one needs a
/// non-blank reason and none of the eligible-only fields.
pub fn tool_artifact_from_response(
    response: CuratorToolResponse,
    request_id: &str,
    original_token_estimate: usize,
    replacement_token_estimate: usize,
) -> (r: Result<ContextCuratorToolArtifact, ContextCuratorError>)
    ensures
        match r {
            Ok(ContextCuratorToolArtifact::Eligible {
                replacement,
                replacement_token_estimate: est,
                preservation_rationale,
                uncertainties,
            }) => {
                &&& response.eligible
                &&& response.replacement == Some(replacement) && present(response.replacement)
                &&& response.preservation_rationale == Some(preservation_rationale) && present(
                    response.preservation_rationale,
                )
                &&& response.ineligible_reason is None
                &&& strictly_below_fifth(
                    replacement_token_estimate as nat,
                    original_token_estimate as nat,
                )
                &&& est == replacement_token_estimate
                &&& uncertainties == response.uncertainties
            },
            Ok(ContextCuratorToolArtifact::Ineligible { reason, uncertainties }) => {
                &&& !response.eligible
                &&& response.replacement is None && response.preservation_rationale is None
                &&& response.ineligible_reason == Some(reason) && present(
                    response.ineligible_reason,
                )
                &&& uncertainties == response.uncertainties
            },
            Err(e) => if response.eligible {
                if !present(response.replacement) {
                    invalid_response(e, "eligible tool result has no replacement"@)
                } else if !present(response.preservation_rationale) {
                    invalid_response(e, "eligible tool result has no preservation rationale"@)
                } else if response.ineligible_reason is Some {
                    invalid_response(e, "eligible tool result also supplied an ineligible reason"@)
                } else {
                    !strictly_below_fifth(
                        replacement_token_estimate as nat,
                        original_token_estimate as nat,
                    ) && invalid_response(
                        e,
                        above_fifth_reason(
                            request_id@,
                            replacement_token_estimate as nat,
                            original_token_estimate as nat,
                        ),
                    )
                }
            } else if response.replacement is Some || response.preservation_rationale is Some {
                invalid_response(e, "ineligible tool result supplied eligible-only fields"@)
            } else {
                !present(response.ineligible_reason) && invalid_response(
                    e,
                    "ineligible tool result has no reason"@,
                )
            },
        },
{
    if response.eligible {
        let replacement = match response.replacement {
            Some(text) => {
                if is_blank(text.as_str()) {
                    return Err(
                        ContextCuratorError::InvalidResponse(
                            String::from_str("eligible tool result has no replacement"),
                        ),
                    );
                }
                text
            },
            None => {
                return Err(
                    ContextCuratorError::InvalidResponse(
                        String::from_str("eligible tool result has no replacement"),
                    ),
                );
            },
        };
        let rationale = match response.preservation_rationale {
            Some(text) => {
                if is_blank(text.as_str()) {
                    return Err(
                        ContextCuratorError::InvalidResponse(
                            String::from_str("eligible tool result has no preservation rationale"),
                        ),
                    );
                }
                text
            },
            None => {
                return Err(
                    ContextCuratorError::InvalidResponse(
                        String::from_str("eligible tool result has no preservation rationale"),
                    ),
                );
            },
        };
        if response.ineligible_reason.is_some() {
            return Err(
                ContextCuratorError::InvalidResponse(
                    String::from_str("eligible tool result also supplied an ineligible reason"),
                ),
            );
        }
        if original_token_estimate == 0 || (replacement_token_estimate as u128) * 100
            >= (original_token_estimate as u128) * 20 {
            let mut reason = concat3(
                "eligible tool request ",
                debug_quoted(request_id).as_str(),
                " replacement is not strictly below 20 percent (",
            );
            reason.append(num(replacement_token_estimate).as_str());
            reason.append(" of ");
            reason.append(num(original_token_estimate).as_str());
            reason.append(" estimated tokens)");
            return Err(ContextCuratorError::InvalidResponse(reason));
        }
        Ok(
            ContextCuratorToolArtifact::Eligible {
                replacement,
                replacement_token_estimate,
                preservation_rationale: rationale,
                uncertainties: response.uncertainties,
            },
        )
    } else {
        if response.replacement.is_some() || response.preservation_rationale.is_some() {
            return Err(
                ContextCuratorError::InvalidResponse(
                    String::from_str("ineligible tool result supplied eligible-only fields"),
                ),
            );
        }
        let reason = match response.ineligible_reason {
            Some(text) => {
                if is_blank(text.as_str()) {
                    return Err(
                        ContextCuratorError::InvalidResponse(
                            String::from_str("ineligible tool result has no reason"),
                        ),
                    );
                }
                text
            },
            None => {
                return Err(
                    ContextCuratorError::InvalidResponse(
                        String::from_str("ineligible tool result has no reason"),
                    ),
                );
            },
        };
        Ok(ContextCuratorToolArtifact::Ineligible { reason, uncertainties: response.uncertainties })
    }
}

/// The configured curator selectors.
#[derive(Clone, Debug)]
pub struct ContextCuratorConfig {
    pub provider: Option<String>,
    pub route: Option<String>,
    pub model: Option<String>,
    pub effort: Option<String>,
}

/// The resolved identity of the curator's provider fork.
#[derive(Clone, Debug)]
pub struct ContextCuratorRoute {
    pub provider_name: String,
    pub provider_display_name: String,
    pub model: String,
    pub route: String,
    pub effort: Option<String>,
}

/// Why one configured selector is invalid, if it is.
pub open spec fn selector_error(label: Seq<char>, value: Option<String>) -> Option<Seq<char>> {
    match value {
        None => None,
        Some(v) => if trim_seq(v@).len() == 0 {
            Some("configured curator "@ + label + " selector is empty"@)
        } else if v@.len() > CONTEXT_IDENTIFIER_MAX_CHARS {
            Some(
                "configured curator "@ + label + " selector contains "@ + decimal(v@.len())
                    + " characters, exceeding the "@ + decimal(
                    CONTEXT_IDENTIFIER_MAX_CHARS as nat,
                ) + "-character bound"@,
            )
        } else {
            None
        },
    }
}

/// The first invalid selector's error: provider, route, model, then effort.
pub open spec fn config_selector_error(c: ContextCuratorConfig) -> Option<Seq<char>> {
    if selector_error("provider"@, c.provider) is Some {
        selector_error("provider"@, c.provider)
    } else if selector_error("route"@, c.route) is Some {
        selector_error("route"@, c.route)
    } else if selector_error("model"@, c.model) is Some {
        selector_error("model"@, c.model)
    } else {
        selector_error("effort"@, c.effort)
    }
}

fn check_selector(label: &str, value: &Option<String>) -> (r: Result<(), ContextCuratorError>)
    ensures
        match r {
            Ok(()) => selector_error(label@, *value) is None,
            Err(e) => selector_error(label@, *value) matches Some(m) && (
            e matches ContextCuratorError::Route(x) && x@ == m),
        },
{
    match value {
        None => Ok(()),
        Some(v) => {
            let chars = chars_of(v.as_str());
            if trim_chars(&chars).len() == 0 {
                return Err(
                    ContextCuratorError::Route(
                        concat3("configured curator ", label, " selector is empty"),
                    ),
                );
            }
            if chars.len() > CONTEXT_IDENTIFIER_MAX_CHARS {
                let mut m = join5(
                    "configured curator ",
                    label,
                    " selector contains ",
                    num(chars.len()).as_str(),
                    " characters, exceeding the ",
                );
                m.append(num(CONTEXT_IDENTIFIER_MAX_CHARS).as_str());
                m.append("-character bound");
                return Err(ContextCuratorError::Route(m));
            }
            Ok(())
        },
    }
}

/// Whether a selector names a route: by provider, API method or stable ID, ignoring ASCII case
/// and surrounding whitespace. A blank selector names nothing.
pub open spec fn spec_route_selector_matches(selector: Seq<char>, route: ModelRoute) -> bool {
    let s = ascii_lower_seq(trim_seq(selector));
    &&& s.len() > 0
    &&& ascii_lower_seq(route.provider@) == s || ascii_lower_seq(route.api_method@) == s
        || ascii_lower_seq(route.stable_id@) == s
}

fn lowered(s: &str) -> (r: Vec<char>)
    ensures
        r@ == ascii_lower_seq(s@),
{
    lower_chars(&chars_of(s))
}

/// Whether a selector names a route (see [`spec_route_selector_matches`]).
pub fn route_selector_matches(selector: &str, route: &ModelRoute) -> (r: bool)
    ensures
        r == spec_route_selector_matches(selector@, *route),
{
    let s = lower_chars(&trim_chars(&chars_of(selector)));
    if s.len() == 0 {
        return false;
    }
    crate::text::chars_eq(&lowered(route.provider.as_str()), &s) || crate::text::chars_eq(
        &lowered(route.api_method.as_str()),
        &s,
    ) || crate::text::chars_eq(&lowered(route.stable_id.as_str()), &s)
}

/// Whether a route is a candidate for the configured selectors and the requested model. A
/// provider selector alone may name the route in any way; beside a route selector it names the
/// provider only.
pub open spec fn route_candidate(
    r: ModelRoute,
    c: ContextCuratorConfig,
    requested_model: Seq<char>,
) -> bool {
    &&& r.available
    &&& r.model@ == requested_model
    &&& match c.provider {
        None => true,
        Some(sel) => if c.route is None {
            spec_route_selector_matches(sel@, r)
        } else {
            ascii_lower_seq(r.provider@) == ascii_lower_seq(trim_seq(sel@))
        },
    }
    &&& match c.route {
        None => true,
        Some(sel) => spec_route_selector_matches(sel@, r),
    }
}

/// The positions of the candidate routes, in order.
pub open spec fn route_candidates(
    routes: Seq<ModelRoute>,
    c: ContextCuratorConfig,
    requested_model: Seq<char>,
) -> Seq<int>
    decreases routes.len(),
{
    if routes.len() == 0 {
        Seq::empty()
    } else {
        let prev = route_candidates(routes.drop_last(), c, requested_model);
        if route_candidate(routes.last(), c, requested_model) {
            prev.push(routes.len() - 1)
        } else {
            prev
        }
    }
}

/// `Debug` of an optional text.
pub open spec fn debug_opt(o: Option<String>) -> Seq<char> {
    match o {
        Some(s) => "Some("@ + debug_str(s@) + ")"@,
        None => "None"@,
    }
}

/// `provider (api_method)` of each candidate, joined by `", "`.
pub open spec fn route_choices(routes: Seq<ModelRoute>, idx: Seq<int>) -> Seq<char>
    decreases idx.len(),
{
    if idx.len() == 0 {
        Seq::empty()
    } else {
        let prev = route_choices(routes, idx.drop_last());
        let r = routes[idx.last()];
        let item = r.provider@ + " ("@ + r.api_method@ + ")"@;
        if idx.len() == 1 {
            item
        } else {
            prev + ", "@ + item
        }
    }
}

/// What route resolution does to the provider fork.
#[derive(PartialEq, Eq, Structural, Clone, Copy, Debug)]
pub enum CuratorRouteChoice {
    /// Switch to the listed route at this position.
    Route(usize),
    /// Switch the model of the active route.
    Model,
    /// Keep the fork's route and model.
    Keep,
}

pub open spec fn has_selector(o: Option<String>) -> bool {
    o matches Some(v) && trim_seq(v@).len() > 0
}

/// Whether `e` is the route error with the given explanation.
pub open spec fn route_error(e: ContextCuratorError, m: Seq<char>) -> bool {
    e matches ContextCuratorError::Route(x) && x@ == m
}

/// The route choice for a configuration: with a provider or route selector, the one candidate
/// route (none and several are errors); else a model switch when a model is configured.
pub open spec fn spec_route_choice(
    routes: Seq<ModelRoute>,
    c: ContextCuratorConfig,
    requested_model: Seq<char>,
) -> Result<CuratorRouteChoice, Seq<char>> {
    let idx = route_candidates(routes, c, requested_model);
    if has_selector(c.route) || has_selector(c.provider) {
        if idx.len() == 1 {
            Ok(CuratorRouteChoice::Route(idx[0] as usize))
        } else if idx.len() == 0 {
            Err(
                "no available route matches provider "@ + debug_opt(c.provider) + ", route "@
                    + debug_opt(c.route) + ", and model "@ + debug_str(requested_model),
            )
        } else {
            Err(
                "provider "@ + debug_opt(c.provider) + ", route "@ + debug_opt(c.route)
                    + ", and model "@ + debug_str(requested_model)
                    + " are ambiguous; matching routes: "@ + route_choices(routes, idx),
            )
        }
    } else if c.model is Some {
        Ok(CuratorRouteChoice::Model)
    } else {
        Ok(CuratorRouteChoice::Keep)
    }
}

/// Whether `route` is the route that the choice for `requested_model` gives: the chosen
/// route's API method, or the active route when the choice keeps it or switches only the model.
pub open spec fn route_follows_choice(
    routes: Seq<ModelRoute>,
    c: ContextCuratorConfig,
    requested_model: Seq<char>,
    route: Seq<char>,
    active_route: Seq<char>,
) -> bool {
    match spec_route_choice(routes, c, requested_model) {
        Ok(CuratorRouteChoice::Route(k)) => route == routes[k as int].api_method@,
        Ok(_) => route == active_route,
        Err(_) => false,
    }
}

fn selector_present(o: &Option<String>) -> (r: bool)
    ensures
        r == has_selector(*o),
{
    match o {
        Some(v) => !is_blank(v.as_str()),
        None => false,
    }
}

fn debug_option(o: &Option<String>) -> (r: String)
    ensures
        r@ == debug_opt(*o),
{
    match o {
        Some(s) => concat3("Some(", debug_quoted(s.as_str()).as_str(), ")"),
        None => String::from_str("None"),
    }
}

fn is_route_candidate(r: &ModelRoute, c: &ContextCuratorConfig, requested_model: &str) -> (b: bool)
    ensures
        b == route_candidate(*r, *c, requested_model@),
{
    if !r.available || !str_eq(r.model.as_str(), requested_model) {
        return false;
    }
    let provider_ok = match &c.provider {
        None => true,
        Some(sel) => if c.route.is_none() {
            route_selector_matches(sel.as_str(), r)
        } else {
            crate::text::chars_eq(
                &lowered(r.provider.as_str()),
                &lower_chars(&trim_chars(&chars_of(sel.as_str()))),
            )
        },
    };
    let route_ok = match &c.route {
        None => true,
        Some(sel) => route_selector_matches(sel.as_str(), r),
    };
    provider_ok && route_ok
}

proof fn lemma_candidates_bounded(routes: Seq<ModelRoute>, c: ContextCuratorConfig, m: Seq<char>)
    ensures
        route_candidates(routes, c, m).len() <= routes.len(),
        forall|k: int|
            0 <= k < route_candidates(routes, c, m).len() ==> 0 <= #[trigger] route_candidates(
                routes,
                c,
                m,
            )[k] < routes.len(),
    decreases routes.len(),
{
    if routes.len() > 0 {
        lemma_candidates_bounded(routes.drop_last(), c, m);
    }
}

/// The route choice for a configuration (see [`spec_route_choice`]).
pub fn select_curator_route(
    model_routes: &Vec<ModelRoute>,
    config: &ContextCuratorConfig,
    requested_model: &str,
) -> (r: Result<CuratorRouteChoice, ContextCuratorError>)
    ensures
        match spec_route_choice(model_routes@, *config, requested_model@) {
            Ok(choice) => r == Ok::<CuratorRouteChoice, ContextCuratorError>(choice),
            Err(m) => r matches Err(e) && route_error(e, m),
        },
{
    if !(selector_present(&config.route) || selector_present(&config.provider)) {
        return if config.model.is_some() {
            Ok(CuratorRouteChoice::Model)
        } else {
            Ok(CuratorRouteChoice::Keep)
        };
    }
    let mut matches: Vec<usize> = Vec::new();
    let mut i: usize = 0;
    while i < model_routes.len()
        invariant
            i <= model_routes@.len(),
            matches@.len() == route_candidates(model_routes@.take(i as int), *config, requested_model@).len(),
            forall|k: int|
                0 <= k < matches@.len() ==> matches@[k] as int == #[trigger] route_candidates(
                    model_routes@.take(i as int),
                    *config,
                    requested_model@,
                )[k],
        decreases model_routes.len() - i,
    {
        proof {
            assert(model_routes@.take(i + 1).drop_last() =~= model_routes@.take(i as int));
            lemma_candidates_bounded(model_routes@.take(i as int), *config, requested_model@);
        }
        if is_route_candidate(&model_routes[i], config, requested_model) {
            matches.push(i);
        }
        i += 1;
    }
    proof {
        assert(model_routes@.take(model_routes@.len() as int) =~= model_routes@);
    }
    let ghost idx = route_candidates(model_routes@, *config, requested_model@);
    if matches.len() == 1 {
        return Ok(CuratorRouteChoice::Route(matches[0]));
    }
    let provider = debug_option(&config.provider);
    let route = debug_option(&config.route);
    let model = debug_quoted(requested_model);
    if matches.len() == 0 {
        let mut m = join5(
            "no available route matches provider ",
            provider.as_str(),
            ", route ",
            route.as_str(),
            ", and model ",
        );
        m.append(model.as_str());
        return Err(ContextCuratorError::Route(m));
    }
    proof {
        lemma_candidates_bounded(model_routes@, *config, requested_model@);
    }
    let mut choices = String::new();
    let mut k: usize = 0;
    while k < matches.len()
        invariant
            k <= matches@.len(),
            matches@.len() == idx.len(),
            forall|q: int| 0 <= q < matches@.len() ==> matches@[q] as int == #[trigger] idx[q],
            forall|q: int| 0 <= q < idx.len() ==> 0 <= #[trigger] idx[q] < model_routes@.len(),
            choices@ == route_choices(model_routes@, idx.take(k as int)),
        decreases matches.len() - k,
    {
        proof {
            assert(idx.take(k + 1).drop_last() =~= idx.take(k as int));
            reveal_strlit("");
            assert(matches@[k as int] as int == idx[k as int]);
            assert(0 <= idx[k as int] < model_routes@.len());
        }
        let r = &model_routes[matches[k]];
        if k > 0 {
            choices.append(", ");
        }
        choices.append(r.provider.as_str());
        choices.append(" (");
        choices.append(r.api_method.as_str());
        choices.append(")");
        proof {
            if k == 0 {
                assert(choices@ =~= r.provider@ + " ("@ + r.api_method@ + ")"@);
            }
        }
        k += 1;
    }
    proof {
        assert(idx.take(idx.len() as int) =~= idx);
    }
    let mut m = join5("provider ", provider.as_str(), ", route ", route.as_str(), ", and model ");
    m.append(model.as_str());
    m.append(" are ambiguous; matching routes: ");
    m.append(choices.as_str());
    Err(ContextCuratorError::Route(m))
}

/// Resolves the curator's route on an independent provider fork: checks the selectors, picks
/// the route (see [`spec_route_choice`], the requested model defaulting to the fork's own),
/// applies the choice and any effort to the fork, and requires a stable identity. The fork's
/// own answers (its model, its refusals, the identity it reports) are not known in advance; a
/// refusal is reported as a route error.
#[verifier::spinoff_prover]
#[verifier::rlimit(40)]
pub fn resolve_context_curator_route<P: Provider>(
    provider_fork: &P,
    model_routes: &Vec<ModelRoute>,
    active_route: &str,
    config: &ContextCuratorConfig,
) -> (r: Result<ContextCuratorRoute, ContextCuratorError>)
    ensures
        match r {
            Ok(route) => {
                &&& config_selector_error(*config) is None
                &&& trim_seq(route.provider_name@).len() > 0
                &&& trim_seq(route.model@).len() > 0
                &&& trim_seq(route.route@).len() > 0
                &&& config.model matches Some(m) ==> (match spec_route_choice(
                    model_routes@,
                    *config,
                    m@,
                ) {
                    Ok(CuratorRouteChoice::Route(k)) => route.route@ == model_routes@[k as int].api_method@,
                    Ok(_) => route.route@ == active_route@,
                    Err(_) => false,
                })
                &&& !has_selector(config.provider) && !has_selector(config.route) ==> route.route@
                    == active_route@
                &&& exists|m: Seq<char>|
                    #[trigger] route_follows_choice(
                        model_routes@,
                        *config,
                        m,
                        route.route@,
                        active_route@,
                    )
            },
            Err(e) => {
                &&& e is Route
                &&& config_selector_error(*config) matches Some(m) ==> route_error(e, m)
                &&& config_selector_error(*config) is None ==> (config.model matches Some(model)
                    ==> (spec_route_choice(model_routes@, *config, model@) matches Err(m)
                    ==> route_error(e, m)))
            },
        },
{
    match check_selector("provider", &config.provider) {
        Ok(()) => {},
        Err(e) => {
            return Err(e);
        },
    }
    match check_selector("route", &config.route) {
        Ok(()) => {},
        Err(e) => {
            return Err(e);
        },
    }
    match check_selector("model", &config.model) {
        Ok(()) => {},
        Err(e) => {
            return Err(e);
        },
    }
    match check_selector("effort", &config.effort) {
        Ok(()) => {},
        Err(e) => {
            return Err(e);
        },
    }
    let requested_model = match &config.model {
        Some(m) => m.clone(),
        None => provider_fork.model(),
    };
    let mut route = String::from_str(active_route);
    match select_curator_route(model_routes, config, requested_model.as_str()) {
        Ok(CuratorRouteChoice::Route(k)) => {
            proof {
                lemma_candidates_bounded(model_routes@, *config, requested_model@);
            }
            match provider_fork.set_route_selection(&model_routes[k]) {
                Ok(()) => {},
                Err(m) => {
                    return Err(ContextCuratorError::Route(m));
                },
            }
            route = model_routes[k].api_method.clone();
        },
        Ok(CuratorRouteChoice::Model) => {
            match provider_fork.set_model(requested_model.as_str()) {
                Ok(()) => {},
                Err(m) => {
                    return Err(ContextCuratorError::Route(m));
                },
            }
        },
        Ok(CuratorRouteChoice::Keep) => {},
        Err(e) => {
            return Err(e);
        },
    }
    match &config.effort {
        Some(effort) => match provider_fork.set_reasoning_effort(effort.as_str()) {
            Ok(()) => {},
            Err(m) => {
                return Err(ContextCuratorError::Route(m));
            },
        },
        None => {},
    }
    let provider_name = provider_fork.name();
    let provider_display_name = provider_fork.display_name();
    let model = provider_fork.model();
    if is_blank(provider_name.as_str()) || is_blank(model.as_str()) {
        return Err(
            ContextCuratorError::Route(
                String::from_str(
                    "the independent provider fork did not expose a stable provider and model identity",
                ),
            ),
        );
    }
    if is_blank(route.as_str()) {
        return Err(
            ContextCuratorError::Route(
                String::from_str(
                    "the independent curator provider did not expose a stable route identity",
                ),
            ),
        );
    }
    assert(route_follows_choice(
        model_routes@,
        *config,
        requested_model@,
        route@,
        active_route@,
    ));
    assert(!has_selector(config.provider) && !has_selector(config.route) ==> route@ == active_route@);
    let ghost route_view = route@;
    let result = ContextCuratorRoute {
        provider_name,
        provider_display_name,
        model,
        route,
        effort: provider_fork.reasoning_effort(),
    };
    assert(result.route@ == route_view);
    assert(route_follows_choice(
        model_routes@,
        *config,
        requested_model@,
        result.route@,
        active_route@,
    ));
    assert(exists|m: Seq<char>|
        #[trigger] route_follows_choice(
            model_routes@,
            *config,
            m,
            result.route@,
            active_route@,
        ));
    Ok(result)
}

/// What a client is shown of a curator route.
#[derive(Clone, Debug)]
pub struct ContextCuratorRoutePreview {
    pub provider_name: String,
    pub provider_display_name: String,
    pub model: String,
    pub route: String,
    pub effort: Option<String>,
}

/// Whether a curator run used the configured default or a per-run override.
#[derive(PartialEq, Eq, Structural, Clone, Copy, Debug)]
pub enum StoredContextCuratorSelectionSource {
    ConfiguredDefault,
    PerRunOverride,
}

/// The recorded provenance of a generated artifact.
#[derive(Clone, Debug)]
pub struct StoredContextArtifactGenerator {
    pub provider: String,
    pub model: String,
    pub route: String,
    pub prompt_version: String,
    pub effort: Option<String>,
    pub role: Option<StoredContextCuratorRole>,
    pub selection_source: Option<StoredContextCuratorSelectionSource>,
    pub transaction_instructions: Option<String>,
    pub task_instructions: Option<String>,
}

/// The text, unless it is blank.
pub open spec fn nonblank(s: Seq<char>) -> Option<Seq<char>> {
    if trim_seq(s).len() > 0 {
        Some(s)
    } else {
        None
    }
}

pub open spec fn opt_view(o: Option<String>) -> Option<Seq<char>> {
    match o {
        Some(s) => Some(s@),
        None => None,
    }
}

impl ContextCuratorRoute {
    /// The route's identity as shown to clients.
    pub fn preview(&self) -> (r: ContextCuratorRoutePreview)
        ensures
            r.provider_name == self.provider_name,
            r.provider_display_name == self.provider_display_name,
            r.model == self.model,
            r.route == self.route,
            r.effort == self.effort,
    {
        ContextCuratorRoutePreview {
            provider_name: self.provider_name.clone(),
            provider_display_name: self.provider_display_name.clone(),
            model: self.model.clone(),
            route: self.route.clone(),
            effort: self.effort.clone(),
        }
    }

    /// The provenance recorded with an artifact this route generated; blank instructions are
    /// recorded as absent.
    pub fn generator(
        &self,
        role: StoredContextCuratorRole,
        prompt_version: &str,
        selection_source: StoredContextCuratorSelectionSource,
        transaction_instructions: &str,
        task_instructions: &str,
    ) -> (r: StoredContextArtifactGenerator)
        ensures
            r.provider == self.provider_name,
            r.model == self.model,
            r.route == self.route,
            r.prompt_version@ == prompt_version@,
            r.effort == self.effort,
            r.role == Some(role),
            r.selection_source == Some(selection_source),
            opt_view(r.transaction_instructions) == nonblank(transaction_instructions@),
            opt_view(r.task_instructions) == nonblank(task_instructions@),
    {
        StoredContextArtifactGenerator {
            provider: self.provider_name.clone(),
            model: self.model.clone(),
            route: self.route.clone(),
            prompt_version: String::from_str(prompt_version),
            effort: self.effort.clone(),
            role: Some(role),
            selection_source: Some(selection_source),
            transaction_instructions: nonempty_owned(transaction_instructions),
            task_instructions: nonempty_owned(task_instructions),
        }
    }
}

/// One event of a streamed curator response.
#[derive(Clone, Debug)]
pub enum CuratorStreamEvent {
    TextDelta(String),
    TokenUsage {
        input_tokens: Option<u64>,
        output_tokens: Option<u64>,
        cache_read_input_tokens: Option<u64>,
        cache_creation_input_tokens: Option<u64>,
    },
    /// The provider retried: everything streamed so far is void.
    RetryRollback,
    /// Any tool call, tool result or generated image.
    ToolActivity,
    Error(String),
    /// Anything else, which the curator ignores.
    Other,
}

/// The token usage reported so far; each report replaces the counts it carries.
#[derive(Clone, Copy, Debug)]
pub struct CuratorUsageAccumulator {
    pub input_tokens: Option<u64>,
    pub output_tokens: Option<u64>,
    pub cache_read_input_tokens: Option<u64>,
    pub cache_creation_input_tokens: Option<u64>,
}

impl CuratorUsageAccumulator {
    pub open spec fn is_empty(self) -> bool {
        &&& self.input_tokens is None
        &&& self.output_tokens is None
        &&& self.cache_read_input_tokens is None
        &&& self.cache_creation_input_tokens is None
    }
}

/// Collects a curator's streamed JSON text and token usage within a byte bound.
#[derive(Clone, Debug)]
pub struct CuratorResponseCollector {
    pub text: String,
    pub usage: CuratorUsageAccumulator,
    pub max_response_bytes: usize,
}

pub open spec fn replace_if_some(old: Option<u64>, new: Option<u64>) -> Option<u64> {
    if new is Some {
        new
    } else {
        old
    }
}

impl CuratorResponseCollector {
    /// An empty collector.
    pub fn new(max_response_bytes: usize) -> (r: Self)
        ensures
            r.text@.len() == 0,
            r.usage.is_empty(),
            r.max_response_bytes == max_response_bytes,
    {
        CuratorResponseCollector {
            text: String::new(),
            usage: CuratorUsageAccumulator {
                input_tokens: None,
                output_tokens: None,
                cache_read_input_tokens: None,
                cache_creation_input_tokens: None,
            },
            max_response_bytes,
        }
    }

    /// Takes one streamed event. Text is appended while the total stays within the bound;
    /// usage counts replace earlier ones; a retry discards everything collected; a tool call is
    /// refused and a provider error reported. A refused event changes nothing.
    pub fn on_event(&mut self, event: CuratorStreamEvent) -> (r: Result<(), ContextCuratorError>)
        ensures
            final(self).max_response_bytes == old(self).max_response_bytes,
            match event {
                CuratorStreamEvent::TextDelta(delta) => {
                    let n = sat_add(utf8_len(old(self).text@), utf8_len(delta@));
                    if n > old(self).max_response_bytes {
                        &&& r matches Err(ContextCuratorError::ResponseTooLarge { bytes, limit })
                        &&& bytes == n && limit == old(self).max_response_bytes
                        &&& *final(self) == *old(self)
                    } else {
                        &&& r is Ok
                        &&& final(self).text@ == old(self).text@ + delta@
                        &&& final(self).usage == old(self).usage
                    }
                },
                CuratorStreamEvent::TokenUsage {
                    input_tokens,
                    output_tokens,
                    cache_read_input_tokens,
                    cache_creation_input_tokens,
                } => {
                    &&& r is Ok
                    &&& final(self).text == old(self).text
                    &&& final(self).usage.input_tokens == replace_if_some(
                        old(self).usage.input_tokens,
                        input_tokens,
                    )
                    &&& final(self).usage.output_tokens == replace_if_some(
                        old(self).usage.output_tokens,
                        output_tokens,
                    )
                    &&& final(self).usage.cache_read_input_tokens == replace_if_some(
                        old(self).usage.cache_read_input_tokens,
                        cache_read_input_tokens,
                    )
                    &&& final(self).usage.cache_creation_input_tokens == replace_if_some(
                        old(self).usage.cache_creation_input_tokens,
                        cache_creation_input_tokens,
                    )
                },
                CuratorStreamEvent::RetryRollback => {
                    &&& r is Ok
                    &&& final(self).text@.len() == 0
                    &&& final(self).usage.is_empty()
                },
                CuratorStreamEvent::ToolActivity => {
                    &&& r matches Err(ContextCuratorError::UnexpectedToolUse)
                    &&& *final(self) == *old(self)
                },
                CuratorStreamEvent::Error(message) => {
                    &&& r matches Err(ContextCuratorError::Provider(m)) && m == message
                    &&& *final(self) == *old(self)
                },
                CuratorStreamEvent::Other => r is Ok && *final(self) == *old(self),
            },
    {
        match event {
            CuratorStreamEvent::TextDelta(delta) => {
                let new_len = self.text.as_str().len().saturating_add(delta.as_str().len());
                if new_len > self.max_response_bytes {
                    return Err(
                        ContextCuratorError::ResponseTooLarge {
                            bytes: new_len,
                            limit: self.max_response_bytes,
                        },
                    );
                }
                self.text.append(delta.as_str());
                Ok(())
            },
            CuratorStreamEvent::TokenUsage {
                input_tokens,
                output_tokens,
                cache_read_input_tokens,
                cache_creation_input_tokens,
            } => {
                if input_tokens.is_some() {
                    self.usage.input_tokens = input_tokens;
                }
                if output_tokens.is_some() {
                    self.usage.output_tokens = output_tokens;
                }
                if cache_read_input_tokens.is_some() {
                    self.usage.cache_read_input_tokens = cache_read_input_tokens;
                }
                if cache_creation_input_tokens.is_some() {
                    self.usage.cache_creation_input_tokens = cache_creation_input_tokens;
                }
                Ok(())
            },
            CuratorStreamEvent::RetryRollback => {
                self.text = String::new();
                self.usage = CuratorUsageAccumulator {
                    input_tokens: None,
                    output_tokens: None,
                    cache_read_input_tokens: None,
                    cache_creation_input_tokens: None,
                };
                Ok(())
            },
            CuratorStreamEvent::ToolActivity => Err(ContextCuratorError::UnexpectedToolUse),
            CuratorStreamEvent::Error(message) => Err(ContextCuratorError::Provider(message)),
            CuratorStreamEvent::Other => Ok(()),
        }
    }
}

/// The tokens a usage record needs: both input and output must have been reported.
pub fn curator_usage_tokens(usage: &CuratorUsageAccumulator) -> (r: Option<(u64, u64, Option<u64>, Option<u64>)>)
    ensures
        match r {
            Some((i, o, read, creation)) => usage.input_tokens == Some(i) && usage.output_tokens
                == Some(o) && read == usage.cache_read_input_tokens && creation
                == usage.cache_creation_input_tokens,
            None => usage.input_tokens is None || usage.output_tokens is None,
        },
{
    match (usage.input_tokens, usage.output_tokens) {
        (Some(i), Some(o)) => Some(
            (i, o, usage.cache_read_input_tokens, usage.cache_creation_input_tokens),
        ),
        _ => None,
    }
}

/// The token counts a cost is priced on.
#[derive(PartialEq, Eq, Structural, Clone, Copy, Debug)]
pub struct UsageTokenSplit {
    /// The input count that selects the price tier.
    pub tier_input_tokens: u64,
    /// The input tokens billed at the fresh-input rate.
    pub fresh_input_tokens: u64,
}

pub open spec fn sat_add64(a: nat, b: nat) -> nat {
    if a + b <= u64::MAX {
        a + b
    } else {
        u64::MAX as nat
    }
}

/// How a usage is priced: with cached tokens, a provider whose accounting is unknown cannot be
/// priced; split accounting tiers on all input and bills the reported input as fresh; inclusive
/// accounting tiers on the reported input and bills what is not cached as fresh.
pub open spec fn spec_usage_token_split(
    provider_name: Seq<char>,
    input_tokens: u64,
    cache_read_tokens: u64,
    cache_creation_tokens: u64,
) -> Option<UsageTokenSplit> {
    let cached = cache_read_tokens > 0 || cache_creation_tokens > 0;
    if !cached {
        Some(UsageTokenSplit { tier_input_tokens: input_tokens, fresh_input_tokens: input_tokens })
    } else {
        match spec_cache_usage_accounting(provider_name) {
            None => None,
            Some(CacheUsageAccounting::Split) => Some(
                UsageTokenSplit {
                    tier_input_tokens: sat_add64(
                        sat_add64(input_tokens as nat, cache_read_tokens as nat),
                        cache_creation_tokens as nat,
                    ) as u64,
                    fresh_input_tokens: input_tokens,
                },
            ),
            Some(CacheUsageAccounting::Inclusive) => {
                let c = sat_add64(cache_read_tokens as nat, cache_creation_tokens as nat);
                let m = if c < input_tokens {
                    c
                } else {
                    input_tokens as nat
                };
                Some(
                    UsageTokenSplit {
                        tier_input_tokens: input_tokens,
                        fresh_input_tokens: (input_tokens - m) as u64,
                    },
                )
            },
        }
    }
}

/// Computes [`spec_usage_token_split`].
pub fn usage_token_split(
    provider_name: &str,
    input_tokens: u64,
    cache_read_tokens: u64,
    cache_creation_tokens: u64,
) -> (r: Option<UsageTokenSplit>)
    ensures
        r == spec_usage_token_split(
            provider_name@,
            input_tokens,
            cache_read_tokens,
            cache_creation_tokens,
        ),
{
    if !(cache_read_tokens > 0 || cache_creation_tokens > 0) {
        return Some(
            UsageTokenSplit { tier_input_tokens: input_tokens, fresh_input_tokens: input_tokens },
        );
    }
    match cache_usage_accounting(provider_name) {
        None => None,
        Some(CacheUsageAccounting::Split) => Some(
            UsageTokenSplit {
                tier_input_tokens: input_tokens.saturating_add(cache_read_tokens).saturating_add(
                    cache_creation_tokens,
                ),
                fresh_input_tokens: input_tokens,
            },
        ),
        Some(CacheUsageAccounting::Inclusive) => {
            let c = cache_read_tokens.saturating_add(cache_creation_tokens);
            let m = if c < input_tokens {
                c
            } else {
                input_tokens
            };
            Some(
                UsageTokenSplit {
                    tier_input_tokens: input_tokens,
                    fresh_input_tokens: input_tokens - m,
                },
            )
        },
    }
}

/// Whether `e` is the refusal of a task call, judged in order: images the route cannot take,
/// a request over the byte bound, then an input over the route's safe token budget.
pub open spec fn task_call_error(
    image_count: usize,
    supports_images: bool,
    provider_display_name: Seq<char>,
    request_bytes: usize,
    limits: ContextCuratorLimits,
    estimated_input_tokens: usize,
    safe_input_budget: usize,
) -> Option<ContextCuratorError> {
    if image_count > 0 && !supports_images {
        None
    } else if request_bytes > limits.max_request_bytes {
        Some(
            ContextCuratorError::RequestTooLarge {
                bytes: request_bytes,
                limit: limits.max_request_bytes,
            },
        )
    } else if estimated_input_tokens > safe_input_budget {
        Some(
            ContextCuratorError::InputTooLarge {
                estimated_tokens: estimated_input_tokens,
                safe_budget: safe_input_budget,
            },
        )
    } else {
        None
    }
}

/// Checks that one complete, untruncated task call fits its route: images only where the route
/// takes them, the request within the byte bound, the input within the safe token budget.
pub fn check_task_call_bounds(
    image_count: usize,
    supports_images: bool,
    provider_display_name: &str,
    request_bytes: usize,
    limits: ContextCuratorLimits,
    estimated_input_tokens: usize,
    safe_input_budget: usize,
) -> (r: Result<(), ContextCuratorError>)
    ensures
        match r {
            Ok(()) => !(image_count > 0 && !supports_images) && request_bytes
                <= limits.max_request_bytes && estimated_input_tokens <= safe_input_budget,
            Err(e) => if image_count > 0 && !supports_images {
                e matches ContextCuratorError::ImagesUnsupported { count, provider } && count
                    == image_count && provider@ == provider_display_name@
            } else {
                task_call_error(
                    image_count,
                    supports_images,
                    provider_display_name@,
                    request_bytes,
                    limits,
                    estimated_input_tokens,
                    safe_input_budget,
                ) == Some(e)
            },
        },
{
    if image_count > 0 && !supports_images {
        return Err(
            ContextCuratorError::ImagesUnsupported {
                count: image_count,
                provider: String::from_str(provider_display_name),
            },
        );
    }
    if request_bytes > limits.max_request_bytes {
        return Err(
            ContextCuratorError::RequestTooLarge {
                bytes: request_bytes,
                limit: limits.max_request_bytes,
            },
        );
    }
    if estimated_input_tokens > safe_input_budget {
        return Err(
            ContextCuratorError::InputTooLarge {
                estimated_tokens: estimated_input_tokens,
                safe_budget: safe_input_budget,
            },
        );
    }
    Ok(())
}

/// Whether a character is a lowercase hexadecimal digit.
pub open spec fn is_lower_hex(c: char) -> bool {
    ('0' <= c && c <= '9') || ('a' <= c && c <= 'f')
}

/// The lowercase hexadecimal SHA-256 digest of some bytes.
pub uninterp spec fn sha256_lower_hex(bytes: Seq<u8>) -> Seq<char>;

/// `format!("{:x}", Sha256::digest(bytes))`: the 32-byte digest, two lowercase hexadecimal
/// digits per byte. The digest itself is named, not computed here.
#[verifier::external_body]
fn sha256_hex(bytes: &[u8]) -> (r: String)
    ensures
        r@ == sha256_lower_hex(bytes@),
        r@.len() == 64,
        forall|i: int| 0 <= i < 64 ==> is_lower_hex(#[trigger] r@[i]),
{
    format!("{:x}", sha2::Sha256::digest(bytes))
}

/// The fingerprint of a canonical plan preview: its SHA-256 digest, unless the final preview
/// (the canonical bytes plus room for the fingerprint) exceeds the preview bound.
pub fn plan_fingerprint(canonical: &[u8], limits: ContextCuratorLimits) -> (r: Result<
    String,
    ContextCuratorError,
>)
    ensures
        match r {
            Ok(f) => {
                &&& sat_add(canonical@.len(), 128) <= limits.max_plan_preview_bytes
                &&& f@ == sha256_lower_hex(canonical@)
                &&& f@.len() == 64
                &&& forall|i: int| 0 <= i < 64 ==> is_lower_hex(#[trigger] f@[i])
            },
            Err(e) => {
                let n = sat_add(canonical@.len(), 128);
                &&& n > limits.max_plan_preview_bytes
                &&& e matches ContextCuratorError::PlanPreviewTooLarge { bytes, limit }
                &&& bytes == n && limit == limits.max_plan_preview_bytes
            },
        },
{
    let final_preview_bytes = canonical.len().saturating_add(128);
    if final_preview_bytes > limits.max_plan_preview_bytes {
        return Err(
            ContextCuratorError::PlanPreviewTooLarge {
                bytes: final_preview_bytes,
                limit: limits.max_plan_preview_bytes,
            },
        );
    }
    Ok(sha256_hex(canonical))
}

/// How a failed task is reported: a cancellation stays a cancellation; anything else names the
/// task, how many of all tasks completed before it, and why it failed.
pub fn task_failure(
    error: ContextCuratorError,
    task_id: &str,
    completed: usize,
    total: usize,
) -> (r: ContextCuratorError)
    ensures
        error is Canceled ==> r is Canceled,
        !(error is Canceled) ==> (r matches ContextCuratorError::TaskFailed {
            task_id: t,
            completed: c,
            total: n,
            reason,
        } && t@ == task_id@ && c == completed && n == total && reason@ == curator_error_message(
            error,
        )),
{
    match error {
        ContextCuratorError::Canceled => ContextCuratorError::Canceled,
        other => ContextCuratorError::TaskFailed {
            task_id: String::from_str(task_id),
            completed,
            total,
            reason: other.message(),
        },
    }
}

} // verus!
