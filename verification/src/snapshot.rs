//! Context-editor snapshots: bounded pages of message rows and lazily fetched block detail.

use vstd::prelude::*;

use crate::model::{
    clone_number, content_block_semantic_id, context_block_kind, spec_block_kind, spec_semantic_id,
    ContentBlock, JsonModel, JsonValue, Role, StoredContextBlockKind, StoredMessage,
};
use crate::text::{
    chars_of, concat2, concat3, decimal, decimal_string, join_strings, join_with, sat_add,
    slice_chars, str_eq, string_from_chars, trim_chars, trim_seq, utf8_len,
};

verus! {

/// Most message rows in one snapshot page.
pub const CONTEXT_SNAPSHOT_MAX_PAGE_SIZE: usize = 500;

/// Most characters in one detail chunk.
pub const CONTEXT_MESSAGE_DETAIL_MAX_CHARS: usize = 16384;

/// Longest message preview, in characters, before the ellipsis.
pub const MESSAGE_PREVIEW_MAX_CHARS: usize = 320;

/// Error of a snapshot or detail request, with its explanation.
#[derive(Clone, Debug)]
pub struct ContextSnapshotError(pub String);

/// The kind of operation a badge names.
#[derive(PartialEq, Eq, Structural, Clone, Copy, Debug)]
pub enum ContextOperationBadgeKind {
    RangeSummary,
    ReasoningSuppression,
    ToolResultDistillation,
}

/// An active operation that touches a message or a block.
#[derive(Clone, Debug)]
pub struct ContextOperationBadge {
    pub transaction_id: String,
    pub operation_index: usize,
    pub kind: ContextOperationBadgeKind,
}

/// What a badge says: the transaction, the operation's position in it, and its kind.
pub struct BadgeModel {
    pub transaction_id: Seq<char>,
    pub operation_index: usize,
    pub kind: ContextOperationBadgeKind,
}

impl View for ContextOperationBadge {
    type V = BadgeModel;

    open spec fn view(&self) -> BadgeModel {
        BadgeModel {
            transaction_id: self.transaction_id@,
            operation_index: self.operation_index,
            kind: self.kind,
        }
    }
}

/// What some badges say.
pub open spec fn badge_views(v: Seq<ContextOperationBadge>) -> Seq<BadgeModel> {
    v.map_values(|b: ContextOperationBadge| b@)
}

/// The active range summary that covers a message.
#[derive(Clone, Debug)]
pub struct ContextSummaryCoverage {
    pub transaction_id: String,
    pub operation_index: usize,
}

/// One block of a message row.
#[derive(Clone, Debug)]
pub struct ContextEditorBlock {
    pub ordinal: usize,
    pub kind: StoredContextBlockKind,
    pub semantic_id: Option<String>,
    pub estimated_provider_tokens: usize,
    pub tool_name: Option<String>,
    pub tool_use_id: Option<String>,
    pub tool_result_is_error: bool,
    pub has_image_payload: bool,
    pub has_tool_thought_signature: bool,
    pub provider_removable_reasoning: bool,
    pub active_operations: Vec<ContextOperationBadge>,
}

/// One message row of a context-editor snapshot.
#[derive(Clone, Debug)]
pub struct ContextEditorMessage {
    pub message_id: String,
    pub stored_index: usize,
    pub role: Role,
    pub display_role: Option<String>,
    pub timestamp: Option<i64>,
    pub raw_provider_tokens: usize,
    pub projected_provider_tokens: usize,
    pub preview: String,
    pub blocks: Vec<ContextEditorBlock>,
    pub tool_group_ids: Vec<String>,
    pub summary_coverage: Option<ContextSummaryCoverage>,
    pub active_operations: Vec<ContextOperationBadge>,
    pub removable_reasoning_kinds: Vec<StoredContextBlockKind>,
}

/// The context editor's view of a session.
#[derive(Clone, Debug)]
pub struct ContextEditorSnapshot {
    pub session_id: String,
    pub context_revision: u64,
    pub raw_message_count: usize,
    pub transcript_digest: u64,
    pub processing: bool,
    pub provider_name: String,
    pub provider_display_name: String,
    pub model: String,
    pub route: String,
    pub context_window: usize,
    pub projected_request_tokens: usize,
    pub message_page_start: usize,
    pub message_page_end: usize,
    pub next_message_page_start: Option<usize>,
    pub messages: Vec<ContextEditorMessage>,
    /// The session's active transactions, newest first.
    pub active_transactions: Vec<crate::history::ContextTransactionSummary>,
    pub emergency_policy: crate::session::StoredContextEmergencyPolicy,
    /// The curator's resolved route, when one could be resolved.
    pub curator_route: Option<crate::curator::ContextCuratorRoute>,
    /// Why no curator route is available, when none is.
    pub curator_unavailable_reason: Option<String>,
}

/// The summaries of the active transactions among `txs`, in their order.
pub open spec fn active_summaries(txs: Seq<crate::session::StoredContextTransaction>) -> Seq<
    crate::history::ContextTransactionSummary,
>
    decreases txs.len(),
{
    if txs.len() == 0 {
        Seq::empty()
    } else {
        let before = active_summaries(txs.drop_last());
        if crate::session::spec_is_active(txs.last()) {
            before.push(crate::history::summary_of(txs.last()))
        } else {
            before
        }
    }
}

/// The summaries of a view's active transactions, in the order they were made.
pub fn active_transaction_summaries(state: &crate::session::StoredContextViewState) -> (r: Vec<
    crate::history::ContextTransactionSummary,
>)
    ensures
        r@ == active_summaries(state.transactions@),
{
    let txs = &state.transactions;
    let mut out: Vec<crate::history::ContextTransactionSummary> = Vec::new();
    let mut i: usize = 0;
    while i < txs.len()
        invariant
            i <= txs@.len(),
            out@ == active_summaries(txs@.take(i as int)),
        decreases txs.len() - i,
    {
        proof {
            assert(txs@.take(i + 1).drop_last() =~= txs@.take(i as int));
        }
        if txs[i].is_active() {
            out.push(crate::history::summarize_context_transaction(&txs[i]));
        }
        i += 1;
    }
    proof {
        assert(txs@.take(txs@.len() as int) =~= txs@);
    }
    out
}

/// The whole snapshot of a session for the context editor: a row for every stored message, in
/// order and all on one page (built by [`crate::rows::editor_rows`] from the transcript, its
/// resolved active operations and the token estimates), the view's active transactions and
/// emergency policy, and no curator route yet.
pub fn context_editor_snapshot(
    session_id: &str,
    messages: &[StoredMessage],
    context_view: &crate::session::StoredContextViewState,
    operations: &[crate::rows::ResolvedOperation],
    block_estimates: &Vec<Vec<usize>>,
    raw_tokens: &Vec<usize>,
    projected_tokens: &Vec<usize>,
    removable: &Vec<StoredContextBlockKind>,
    transcript_digest: u64,
    processing: bool,
    provider_name: &str,
    provider_display_name: &str,
    model: &str,
    route: &str,
    context_window: usize,
    projected_request_tokens: usize,
) -> (r: ContextEditorSnapshot)
    requires
        block_estimates@.len() == messages@.len(),
        raw_tokens@.len() == messages@.len(),
        projected_tokens@.len() == messages@.len(),
        forall|i: int|
            0 <= i < messages@.len() ==> (#[trigger] block_estimates@[i])@.len()
                == messages@[i].content@.len(),
    ensures
        r.session_id@ == session_id@,
        r.context_revision == context_view.revision,
        r.raw_message_count == messages@.len(),
        r.transcript_digest == transcript_digest,
        r.processing == processing,
        r.provider_name@ == provider_name@,
        r.provider_display_name@ == provider_display_name@,
        r.model@ == model@,
        r.route@ == route@,
        r.context_window == context_window,
        r.projected_request_tokens == projected_request_tokens,
        r.message_page_start == 0,
        r.message_page_end == messages@.len(),
        r.next_message_page_start is None,
        r.messages@.len() == messages@.len(),
        forall|i: int|
            0 <= i < messages@.len() ==> crate::rows::message_row(
                #[trigger] r.messages@[i],
                messages@[i],
                i as usize,
                block_estimates@[i]@,
                raw_tokens@[i],
                projected_tokens@[i],
                removable@,
                Seq::new(
                    messages@[i].content@.len(),
                    |b: int| crate::rows::block_badges_of(operations@, i as usize, b as usize),
                ),
                crate::rows::message_badges_of(operations@, i as usize),
            ) && crate::rows::coverage_row(r.messages@[i].summary_coverage, operations@, i as usize),
        r.active_transactions@ == active_summaries(context_view.transactions@),
        r.emergency_policy == context_view.emergency_policy,
        r.curator_route is None,
        r.curator_unavailable_reason is None,
{
    let rows = crate::rows::editor_rows(
        messages,
        operations,
        block_estimates,
        raw_tokens,
        projected_tokens,
        removable,
    );
    ContextEditorSnapshot {
        session_id: String::from_str(session_id),
        context_revision: context_view.revision,
        raw_message_count: messages.len(),
        transcript_digest,
        processing,
        provider_name: String::from_str(provider_name),
        provider_display_name: String::from_str(provider_display_name),
        model: String::from_str(model),
        route: String::from_str(route),
        context_window,
        projected_request_tokens,
        message_page_start: 0,
        message_page_end: messages.len(),
        next_message_page_start: None,
        messages: rows,
        active_transactions: active_transaction_summaries(context_view),
        emergency_policy: context_view.emergency_policy.clone(),
        curator_route: None,
        curator_unavailable_reason: None,
    }
}

pub open spec fn page_size_error(max: nat) -> Seq<char> {
    "context snapshot page size must be between 1 and "@ + decimal(max)
}

pub open spec fn page_start_error(start: nat, len: nat) -> Seq<char> {
    "context snapshot page start "@ + decimal(start) + " exceeds "@ + decimal(len) + " messages"@
}

/// One page of a snapshot's message rows, keeping every row's global identity: rows
/// `page_start..page_end` where `page_end` is `page_start + page_size` clipped to the rows,
/// with the next page's start when rows of the transcript remain.
pub fn paginate_context_editor_snapshot(
    snapshot: ContextEditorSnapshot,
    page_start: usize,
    page_size: usize,
) -> (r: Result<ContextEditorSnapshot, ContextSnapshotError>)
    ensures
        match r {
            Ok(page) => {
                let n = snapshot.messages@.len();
                let end = if sat_add(page_start as nat, page_size as nat) < n {
                    sat_add(page_start as nat, page_size as nat)
                } else {
                    n
                };
                &&& 1 <= page_size <= CONTEXT_SNAPSHOT_MAX_PAGE_SIZE
                &&& page_start <= n
                &&& page.messages@ == snapshot.messages@.subrange(page_start as int, end as int)
                &&& page.message_page_start == page_start
                &&& page.message_page_end == end
                &&& page.next_message_page_start == (if end < snapshot.raw_message_count {
                    Some(end as usize)
                } else {
                    None
                })
                &&& page.session_id == snapshot.session_id
                &&& page.context_revision == snapshot.context_revision
                &&& page.raw_message_count == snapshot.raw_message_count
                &&& page.transcript_digest == snapshot.transcript_digest
                &&& page.processing == snapshot.processing
                &&& page.provider_name == snapshot.provider_name
                &&& page.provider_display_name == snapshot.provider_display_name
                &&& page.model == snapshot.model
                &&& page.route == snapshot.route
                &&& page.context_window == snapshot.context_window
                &&& page.projected_request_tokens == snapshot.projected_request_tokens
                &&& page.active_transactions == snapshot.active_transactions
                &&& page.emergency_policy == snapshot.emergency_policy
                &&& page.curator_route == snapshot.curator_route
                &&& page.curator_unavailable_reason == snapshot.curator_unavailable_reason
            },
            Err(e) => if page_size == 0 || page_size > CONTEXT_SNAPSHOT_MAX_PAGE_SIZE {
                e.0@ == page_size_error(CONTEXT_SNAPSHOT_MAX_PAGE_SIZE as nat)
            } else {
                page_start > snapshot.messages@.len() && e.0@ == page_start_error(
                    page_start as nat,
                    snapshot.messages@.len(),
                )
            },
        },
{
    if page_size == 0 || page_size > CONTEXT_SNAPSHOT_MAX_PAGE_SIZE {
        let n = decimal_string(CONTEXT_SNAPSHOT_MAX_PAGE_SIZE as u64);
        return Err(
            ContextSnapshotError(
                concat2("context snapshot page size must be between 1 and ", n.as_str()),
            ),
        );
    }
    let len = snapshot.messages.len();
    if page_start > len {
        let a = decimal_string(page_start as u64);
        let b = decimal_string(len as u64);
        let m = concat3("context snapshot page start ", a.as_str(), " exceeds ");
        return Err(ContextSnapshotError(concat3(m.as_str(), b.as_str(), " messages")));
    }
    let page_end = if page_start.saturating_add(page_size) < len {
        page_start.saturating_add(page_size)
    } else {
        len
    };
    let mut snapshot = snapshot;
    let ghost all = snapshot.messages@;
    let mut rows = snapshot.messages.split_off(page_start);
    rows.truncate(page_end - page_start);
    assert(rows@ =~= all.subrange(page_start as int, page_end as int));
    snapshot.messages = rows;
    snapshot.message_page_start = page_start;
    snapshot.message_page_end = page_end;
    snapshot.next_message_page_start = if page_end < snapshot.raw_message_count {
        Some(page_end)
    } else {
        None
    };
    Ok(snapshot)
}

// ---------------------------------------------------------------------------
// Text chunks
// ---------------------------------------------------------------------------

/// A bounded, character-addressed chunk of a text.
#[derive(Clone, Debug)]
pub struct ContextTextChunk {
    pub start_char: usize,
    pub end_char: usize,
    pub total_chars: usize,
    pub text: String,
    pub next_start_char: Option<usize>,
}

/// Whether `c` is the chunk of `text` that starts at `start` and holds at most `max` characters.
pub open spec fn chunk_of(c: ContextTextChunk, text: Seq<char>, start: nat, max: nat) -> bool {
    let total = text.len();
    let end = if sat_add(start, max) < total {
        sat_add(start, max)
    } else {
        total
    };
    &&& start <= total
    &&& c.start_char == start
    &&& c.end_char == end
    &&& c.total_chars == total
    &&& c.text@ == text.subrange(start as int, end as int)
    &&& c.next_start_char == (if end < total {
        Some(end as usize)
    } else {
        None
    })
}

pub open spec fn chunk_start_error(start: nat, total: nat) -> Seq<char> {
    "context detail start "@ + decimal(start) + " exceeds "@ + decimal(total) + " characters"@
}

/// The chunk of `text` starting at character `start_char` with at most `max_chars` characters.
pub fn context_text_chunk(text: &str, start_char: usize, max_chars: usize) -> (r: Result<
    ContextTextChunk,
    ContextSnapshotError,
>)
    ensures
        match r {
            Ok(c) => chunk_of(c, text@, start_char as nat, max_chars as nat),
            Err(e) => start_char > text@.len() && e.0@ == chunk_start_error(
                start_char as nat,
                text@.len(),
            ),
        },
{
    let chars = chars_of(text);
    let total = chars.len();
    if start_char > total {
        let a = decimal_string(start_char as u64);
        let b = decimal_string(total as u64);
        let m = concat3("context detail start ", a.as_str(), " exceeds ");
        return Err(ContextSnapshotError(concat3(m.as_str(), b.as_str(), " characters")));
    }
    let end_char = if start_char.saturating_add(max_chars) < total {
        start_char.saturating_add(max_chars)
    } else {
        total
    };
    let chunk = slice_chars(&chars, start_char, end_char);
    Ok(
        ContextTextChunk {
            start_char,
            end_char,
            total_chars: total,
            text: string_from_chars(&chunk),
            next_start_char: if end_char < total {
                Some(end_char)
            } else {
                None
            },
        },
    )
}

// ---------------------------------------------------------------------------
// Message previews
// ---------------------------------------------------------------------------

/// The trimmed text, unless it is empty.
pub open spec fn spec_non_empty(v: Seq<char>) -> Option<Seq<char>> {
    let t = trim_seq(v);
    if t.len() == 0 {
        None
    } else {
        Some(t)
    }
}

/// The trimmed text, unless it is empty.
pub fn non_empty(value: &str) -> (r: Option<String>)
    ensures
        match r {
            Some(s) => spec_non_empty(value@) == Some(s@),
            None => spec_non_empty(value@) is None,
        },
{
    let c = chars_of(value);
    let t = trim_chars(&c);
    if t.len() == 0 {
        None
    } else {
        Some(string_from_chars(&t))
    }
}

pub open spec fn bracketed(label: Seq<char>, text: Seq<char>) -> Seq<char> {
    "["@ + label + text + "]"@
}

/// The preview a single block offers, if any.
pub open spec fn block_preview(block: ContentBlock) -> Option<Seq<char>> {
    match block {
        ContentBlock::Text { text } => spec_non_empty(text@),
        ContentBlock::ToolUse { name, .. } => Some(bracketed("tool: "@, name@)),
        ContentBlock::ToolResult { content, .. } => match spec_non_empty(content@) {
            Some(t) => Some(bracketed("result: "@, t)),
            None => None,
        },
        ContentBlock::Reasoning { text } => match spec_non_empty(text@) {
            Some(t) => Some(bracketed("reasoning: "@, t)),
            None => None,
        },
        ContentBlock::ReasoningTrace { text } => match spec_non_empty(text@) {
            Some(t) => Some(bracketed("reasoning trace: "@, t)),
            None => None,
        },
        ContentBlock::AnthropicThinking { thinking, .. } => match spec_non_empty(thinking@) {
            Some(t) => Some(bracketed("thinking: "@, t)),
            None => None,
        },
        ContentBlock::OpenAIReasoning { summary, .. } => match spec_non_empty(
            join_with(summary@.map_values(|s: String| s@), " "@),
        ) {
            Some(t) => Some(bracketed("reasoning: "@, t)),
            None => None,
        },
        ContentBlock::Image { media_type, data } => Some(
            "[image: "@ + media_type@ + ", "@ + decimal(utf8_len(data@)) + " encoded bytes]"@,
        ),
        ContentBlock::OpenAICompaction { .. } => Some("[legacy OpenAI compaction state]"@),
    }
}

/// The first preview any block offers.
pub open spec fn first_preview(blocks: Seq<ContentBlock>) -> Option<Seq<char>>
    decreases blocks.len(),
{
    if blocks.len() == 0 {
        None
    } else {
        match block_preview(blocks[0]) {
            Some(p) => Some(p),
            None => first_preview(blocks.drop_first()),
        }
    }
}

/// Line feeds replaced by spaces.
pub open spec fn one_line(s: Seq<char>) -> Seq<char> {
    s.map_values(|c: char| if c == '\n' { ' ' } else { c })
}

/// At most `max` characters, with an ellipsis when characters were cut.
pub open spec fn ellipsized(s: Seq<char>, max: nat) -> Seq<char> {
    if s.len() <= max {
        s
    } else {
        s.take(max as int).push('…')
    }
}

/// The one-line, bounded preview of a stored message.
pub open spec fn message_preview(message: StoredMessage) -> Seq<char> {
    ellipsized(
        one_line(first_preview(message.content@).unwrap_or("(empty)"@)),
        MESSAGE_PREVIEW_MAX_CHARS as nat,
    )
}

fn bracket(label: &str, text: &str) -> (r: String)
    ensures
        r@ == bracketed(label@, text@),
{
    concat3("[", label, text).concat("]")
}

fn preview_of_block(block: &ContentBlock) -> (r: Option<String>)
    ensures
        match r {
            Some(s) => block_preview(*block) == Some(s@),
            None => block_preview(*block) is None,
        },
{
    match block {
        ContentBlock::Text { text } => non_empty(text.as_str()),
        ContentBlock::ToolUse { name, .. } => Some(bracket("tool: ", name.as_str())),
        ContentBlock::ToolResult { content, .. } => match non_empty(content.as_str()) {
            Some(t) => Some(bracket("result: ", t.as_str())),
            None => None,
        },
        ContentBlock::Reasoning { text } => match non_empty(text.as_str()) {
            Some(t) => Some(bracket("reasoning: ", t.as_str())),
            None => None,
        },
        ContentBlock::ReasoningTrace { text } => match non_empty(text.as_str()) {
            Some(t) => Some(bracket("reasoning trace: ", t.as_str())),
            None => None,
        },
        ContentBlock::AnthropicThinking { thinking, .. } => match non_empty(thinking.as_str()) {
            Some(t) => Some(bracket("thinking: ", t.as_str())),
            None => None,
        },
        ContentBlock::OpenAIReasoning { summary, .. } => {
            let joined = join_strings(summary, " ");
            match non_empty(joined.as_str()) {
                Some(t) => Some(bracket("reasoning: ", t.as_str())),
                None => None,
            }
        },
        ContentBlock::Image { media_type, data } => {
            let n = decimal_string(data.as_str().len() as u64);
            let a = concat3("[image: ", media_type.as_str(), ", ");
            Some(concat3(a.as_str(), n.as_str(), " encoded bytes]"))
        },
        ContentBlock::OpenAICompaction { .. } => Some(
            String::from_str("[legacy OpenAI compaction state]"),
        ),
    }
}

/// The one-line preview of a stored message, at most 320 characters plus an ellipsis.
pub fn bounded_message_preview(message: &StoredMessage) -> (r: String)
    ensures
        r@ == message_preview(*message),
{
    let blocks = &message.content;
    let mut found: Option<String> = None;
    let mut i: usize = 0;
    assert(blocks@.subrange(0, blocks@.len() as int) =~= blocks@);
    while i < blocks.len()
        invariant
            i <= blocks@.len(),
            blocks == &message.content,
            found is None ==> first_preview(blocks@) == first_preview(
                blocks@.subrange(i as int, blocks@.len() as int),
            ),
            found matches Some(f) ==> first_preview(blocks@) == Some(f@),
        decreases blocks.len() - i,
    {
        if found.is_none() {
            let ghost rest = blocks@.subrange(i as int, blocks@.len() as int);
            assert(rest[0] == blocks@[i as int]);
            assert(rest.drop_first() =~= blocks@.subrange(i + 1, blocks@.len() as int));
            found = preview_of_block(&blocks[i]);
        }
        i += 1;
    }
    let text = match found {
        Some(f) => f,
        None => {
            assert(blocks@.subrange(i as int, blocks@.len() as int).len() == 0);
            String::from_str("(empty)")
        },
    };
    let c = chars_of(text.as_str());
    let mut line: Vec<char> = Vec::new();
    let mut k: usize = 0;
    while k < c.len()
        invariant
            k <= c.len(),
            line@ == one_line(c@.take(k as int)),
        decreases c.len() - k,
    {
        let ch = if c[k] == '\n' {
            ' '
        } else {
            c[k]
        };
        line.push(ch);
        assert(one_line(c@.take(k + 1)) =~= one_line(c@.take(k as int)).push(ch));
        k += 1;
    }
    assert(c@.take(c.len() as int) =~= c@);
    if line.len() <= MESSAGE_PREVIEW_MAX_CHARS {
        string_from_chars(&line)
    } else {
        let mut cut = slice_chars(&line, 0, MESSAGE_PREVIEW_MAX_CHARS);
        assert(cut@ =~= line@.take(MESSAGE_PREVIEW_MAX_CHARS as int));
        cut.push('…');
        string_from_chars(&cut)
    }
}

// ---------------------------------------------------------------------------
// Block detail
// ---------------------------------------------------------------------------

/// How a block's detail text is formatted.
#[derive(PartialEq, Eq, Structural, Clone, Copy, Debug)]
pub enum ContextMessageDetailFormat {
    Text,
    Json,
    MetadataOnly,
}

/// A lazily fetched detail chunk of one stored block. Opaque provider state (signatures,
/// encrypted reasoning, image data) is reported only by presence or size.
#[derive(Clone, Debug)]
pub struct ContextMessageDetail {
    pub session_id: String,
    pub context_revision: u64,
    pub transcript_digest: u64,
    pub message_id: String,
    pub stored_index: usize,
    pub role: Role,
    pub display_role: Option<String>,
    pub timestamp: Option<i64>,
    pub block_ordinal: usize,
    pub block_kind: StoredContextBlockKind,
    pub format: ContextMessageDetailFormat,
    pub content: ContextTextChunk,
    pub semantic_id: Option<String>,
    pub tool_name: Option<String>,
    pub tool_use_id: Option<String>,
    pub tool_result_is_error: Option<bool>,
    pub provider_status: Option<String>,
    pub image_media_type: Option<String>,
    pub image_encoded_bytes: Option<usize>,
    pub opaque_signature_present: bool,
    pub encrypted_state_present: bool,
}

/// A detail request: which block of which message, at which revision and transcript digest.
pub struct ContextMessageDetailInput<'a> {
    pub session_id: &'a str,
    pub messages: &'a [StoredMessage],
    /// The context revision of the session.
    pub context_revision: u64,
    /// The authoritative digest of `messages`.
    pub transcript_digest: u64,
    pub expected_context_revision: u64,
    pub expected_transcript_digest: u64,
    pub message_id: &'a str,
    pub block_ordinal: usize,
    pub start_char: usize,
    pub max_chars: usize,
}

/// Indices of the messages with the given ID, in order.
pub open spec fn indices_with_id(msgs: Seq<StoredMessage>, id: Seq<char>) -> Seq<int>
    decreases msgs.len(),
{
    if msgs.len() == 0 {
        Seq::empty()
    } else {
        let prev = indices_with_id(msgs.drop_last(), id);
        if msgs.last().id@ == id {
            prev.push(msgs.len() - 1)
        } else {
            prev
        }
    }
}

/// The detail text of a block (a tool call's JSON rendering excepted).
pub open spec fn block_detail_text(block: ContentBlock) -> Seq<char> {
    match block {
        ContentBlock::Text { text } => text@,
        ContentBlock::Reasoning { text } => text@,
        ContentBlock::ReasoningTrace { text } => text@,
        ContentBlock::AnthropicThinking { thinking, .. } => thinking@,
        ContentBlock::OpenAIReasoning { summary, .. } => join_with(
            summary@.map_values(|s: String| s@),
            "\n"@,
        ),
        ContentBlock::ToolResult { content, .. } => content@,
        _ => Seq::empty(),
    }
}

/// The detail text of a block: a tool call shows its input as pretty-printed JSON.
pub open spec fn detail_text(block: ContentBlock) -> Seq<char> {
    match block {
        ContentBlock::ToolUse { input, .. } => pretty_json_text(input@),
        _ => block_detail_text(block),
    }
}

/// Why a detail request fails, if it does.
pub open spec fn detail_error(input: ContextMessageDetailInput) -> Option<Seq<char>> {
    let msgs = input.messages@;
    let matches = indices_with_id(msgs, input.message_id@);
    if input.max_chars == 0 || input.max_chars > CONTEXT_MESSAGE_DETAIL_MAX_CHARS {
        Some(
            "context detail chunk size must be between 1 and "@ + decimal(
                CONTEXT_MESSAGE_DETAIL_MAX_CHARS as nat,
            ),
        )
    } else if input.context_revision != input.expected_context_revision {
        Some(
            "context revision changed from "@ + decimal(input.expected_context_revision as nat)
                + " to "@ + decimal(input.context_revision as nat),
        )
    } else if input.transcript_digest != input.expected_transcript_digest {
        Some(
            "authoritative transcript digest changed from "@ + decimal(
                input.expected_transcript_digest as nat,
            ) + " to "@ + decimal(input.transcript_digest as nat),
        )
    } else if matches.len() == 0 {
        Some("stored message not found: "@ + input.message_id@)
    } else if matches.len() > 1 {
        Some("stored message ID is ambiguous: "@ + input.message_id@)
    } else if input.block_ordinal >= msgs[matches[0]].content@.len() {
        Some(
            "stored message "@ + input.message_id@ + " has no block at ordinal "@ + decimal(
                input.block_ordinal as nat,
            ),
        )
    } else {
        let block = msgs[matches[0]].content@[input.block_ordinal as int];
        if input.start_char <= detail_text(block).len() {
            None
        } else {
            Some(chunk_start_error(input.start_char as nat, detail_text(block).len()))
        }
    }
}

/// The block a detail request names, once the message was found uniquely.
pub open spec fn selected_block(input: ContextMessageDetailInput) -> ContentBlock {
    let msgs = input.messages@;
    msgs[indices_with_id(msgs, input.message_id@)[0]].content@[input.block_ordinal as int]
}

pub open spec fn opt_view(o: Option<String>) -> Option<Seq<char>> {
    match o {
        Some(s) => Some(s@),
        None => None,
    }
}

/// The block-dependent fields of a detail.
pub open spec fn block_detail_fields(d: ContextMessageDetail, block: ContentBlock, start: nat, max: nat) -> bool {
    &&& d.block_kind == spec_block_kind(block)
    &&& opt_view(d.semantic_id) == spec_semantic_id(block)
    &&& match block {
        ContentBlock::ToolUse { id, name, input, thought_signature } => {
            &&& d.format == ContextMessageDetailFormat::Json
            &&& chunk_of(d.content, pretty_json_text(input@), start, max)
            &&& opt_view(d.tool_name) == Some(name@)
            &&& opt_view(d.tool_use_id) == Some(id@)
            &&& d.tool_result_is_error is None
            &&& d.provider_status is None
            &&& d.image_media_type is None
            &&& d.image_encoded_bytes is None
            &&& d.opaque_signature_present == (thought_signature matches Some(sig) && sig@.len()
                > 0)
            &&& !d.encrypted_state_present
        },
        _ => {
            &&& chunk_of(d.content, block_detail_text(block), start, max)
            &&& d.tool_name is None
            &&& match block {
                ContentBlock::ToolResult { tool_use_id, is_error, .. } => {
                    &&& opt_view(d.tool_use_id) == Some(tool_use_id@)
                    &&& d.tool_result_is_error == Some(is_error.unwrap_or(false))
                },
                _ => d.tool_use_id is None && d.tool_result_is_error is None,
            }
            &&& d.format == match block {
                ContentBlock::Image { .. } => ContextMessageDetailFormat::MetadataOnly,
                ContentBlock::OpenAICompaction { .. } => ContextMessageDetailFormat::MetadataOnly,
                _ => ContextMessageDetailFormat::Text,
            }
            &&& opt_view(d.provider_status) == match block {
                ContentBlock::OpenAIReasoning { status, .. } => opt_view(status),
                _ => None,
            }
            &&& opt_view(d.image_media_type) == match block {
                ContentBlock::Image { media_type, .. } => Some(media_type@),
                _ => None,
            }
            &&& d.image_encoded_bytes == match block {
                ContentBlock::Image { data, .. } => Some(utf8_len(data@) as usize),
                _ => None,
            }
            &&& d.opaque_signature_present == match block {
                ContentBlock::AnthropicThinking { signature, .. } => signature@.len() > 0,
                _ => false,
            }
            &&& d.encrypted_state_present == match block {
                ContentBlock::OpenAIReasoning { encrypted_content, .. } => (
                encrypted_content matches Some(c) && c@.len() > 0),
                ContentBlock::OpenAICompaction { compaction_content } => compaction_content@.len()
                    > 0,
                _ => false,
            }
        },
    }
}

/// A constructor for JSON values.
#[verifier::external_type_specification]
#[verifier::external_body]
pub struct ExSerdeJsonValue(serde_json::Value);

/// `Value::Null`.
#[verifier::external_body]
fn serde_null() -> serde_json::Value {
    serde_json::Value::Null
}

/// `Value::Bool`.
#[verifier::external_body]
fn serde_bool(b: bool) -> serde_json::Value {
    serde_json::Value::Bool(b)
}

/// `Value::Number`.
#[verifier::external_body]
fn serde_number(n: serde_json::Number) -> serde_json::Value {
    serde_json::Value::Number(n)
}

/// `Value::String`.
#[verifier::external_body]
fn serde_string(s: String) -> serde_json::Value {
    serde_json::Value::String(s)
}

/// `Value::Array`.
#[verifier::external_body]
fn serde_array(items: Vec<serde_json::Value>) -> serde_json::Value {
    serde_json::Value::Array(items)
}

/// `Value::Object`, from entries in order (a repeated key keeps its last value).
#[verifier::external_body]
fn serde_object(entries: Vec<(String, serde_json::Value)>) -> serde_json::Value {
    serde_json::Value::Object(entries.into_iter().collect())
}

/// The pretty-printed JSON text of a document, as `serde_json::to_string_pretty` renders it.
pub uninterp spec fn pretty_json_text(v: JsonModel) -> Seq<char>;

/// `serde_json::to_string_pretty` of the document converted to a `serde_json::Value`
/// (falling back to the compact `to_string` should rendering fail, which it does not for a
/// `Value`). The text is a function of the document alone and is named, not described.
#[verifier::external_body]
fn pretty_tool_input(v: &JsonValue) -> (r: String)
    ensures
        r@ == pretty_json_text(v@),
{
    let value = to_serde_value(v);
    serde_json::to_string_pretty(&value).unwrap_or_else(|_| value.to_string())
}

/// The document as a `serde_json` value.
pub(crate) fn to_serde_value(v: &JsonValue) -> serde_json::Value
    decreases v,
{
    match v {
        JsonValue::Null => serde_null(),
        JsonValue::Bool(b) => serde_bool(*b),
        JsonValue::Number(n) => serde_number(clone_number(n)),
        JsonValue::Str(s) => serde_string(s.clone()),
        JsonValue::Array(items) => {
            let mut out: Vec<serde_json::Value> = Vec::new();
            let mut i: usize = 0;
            while i < items.len()
                invariant
                    i <= items.len(),
                    *v == JsonValue::Array(*items),
                decreases items.len() - i,
            {
                assert(decreases_to!(*v => (*v)->Array_0));
                assert(decreases_to!(*items => items@));
                assert(decreases_to!(items@ => items@[i as int]));
                out.push(to_serde_value(&items[i]));
                i += 1;
            }
            serde_array(out)
        },
        JsonValue::Object(entries) => {
            let mut out: Vec<(String, serde_json::Value)> = Vec::new();
            let mut i: usize = 0;
            while i < entries.len()
                invariant
                    i <= entries.len(),
                    *v == JsonValue::Object(*entries),
                decreases entries.len() - i,
            {
                assert(decreases_to!(*v => (*v)->Object_0));
                assert(decreases_to!(*entries => entries@));
                assert(decreases_to!(entries@ => entries@[i as int]));
                assert(decreases_to!(entries@[i as int] => entries@[i as int].1));
                let value = to_serde_value(&entries[i].1);
                out.push((entries[i].0.clone(), value));
                i += 1;
            }
            serde_object(out)
        },
    }
}

fn detail_error_text(message: &str) -> (r: ContextSnapshotError)
    ensures
        r.0@ == message@,
{
    ContextSnapshotError(String::from_str(message))
}

/// The detail chunk of one block of one stored message (see [`detail_error`] for when the
/// request fails). The message is found by its stable ID, which must be unique.
pub fn build_context_message_detail(input: ContextMessageDetailInput<'_>) -> (r: Result<
    ContextMessageDetail,
    ContextSnapshotError,
>)
    ensures
        match r {
            Ok(d) => {
                let msgs = input.messages@;
                let index = indices_with_id(msgs, input.message_id@)[0];
                let message = msgs[index];
                &&& detail_error(input) is None
                &&& d.session_id@ == input.session_id@
                &&& d.context_revision == input.context_revision
                &&& d.transcript_digest == input.transcript_digest
                &&& d.message_id@ == message.id@
                &&& d.stored_index == index
                &&& d.role == message.role
                &&& d.display_role == message.display_role
                &&& d.timestamp == message.timestamp
                &&& d.block_ordinal == input.block_ordinal
                &&& block_detail_fields(
                    d,
                    message.content@[input.block_ordinal as int],
                    input.start_char as nat,
                    input.max_chars as nat,
                )
            },
            Err(e) => detail_error(input) == Some(e.0@),
        },
{
    if input.max_chars == 0 || input.max_chars > CONTEXT_MESSAGE_DETAIL_MAX_CHARS {
        let n = decimal_string(CONTEXT_MESSAGE_DETAIL_MAX_CHARS as u64);
        return Err(
            ContextSnapshotError(
                concat2("context detail chunk size must be between 1 and ", n.as_str()),
            ),
        );
    }
    if input.context_revision != input.expected_context_revision {
        let a = decimal_string(input.expected_context_revision);
        let b = decimal_string(input.context_revision);
        let m = concat3("context revision changed from ", a.as_str(), " to ");
        return Err(ContextSnapshotError(concat2(m.as_str(), b.as_str())));
    }
    if input.transcript_digest != input.expected_transcript_digest {
        let a = decimal_string(input.expected_transcript_digest);
        let b = decimal_string(input.transcript_digest);
        let m = concat3("authoritative transcript digest changed from ", a.as_str(), " to ");
        return Err(ContextSnapshotError(concat2(m.as_str(), b.as_str())));
    }
    let msgs = input.messages;
    let mut count: usize = 0;
    let mut found: usize = 0;
    let mut i: usize = 0;
    assert(msgs@.take(0) =~= Seq::<StoredMessage>::empty());
    while i < msgs.len()
        invariant
            i <= msgs@.len(),
            count == (if indices_with_id(msgs@.take(i as int), input.message_id@).len() < 2 {
                indices_with_id(msgs@.take(i as int), input.message_id@).len()
            } else {
                2
            }),
            count > 0 ==> indices_with_id(msgs@.take(i as int), input.message_id@)[0]
                == found as int,
            count > 0 ==> found < i,
        decreases msgs.len() - i,
    {
        let ghost t1 = msgs@.take(i + 1);
        assert(t1.drop_last() =~= msgs@.take(i as int));
        assert(t1.last() == msgs@[i as int]);
        if str_eq(msgs[i].id.as_str(), input.message_id) {
            if count == 0 {
                found = i;
            }
            if count < 2 {
                count = count + 1;
            }
        }
        i += 1;
    }
    assert(msgs@.take(msgs.len() as int) =~= msgs@);
    if count == 0 {
        return Err(
            ContextSnapshotError(concat2("stored message not found: ", input.message_id)),
        );
    }
    if count > 1 {
        return Err(
            ContextSnapshotError(concat2("stored message ID is ambiguous: ", input.message_id)),
        );
    }
    let message = &msgs[found];
    if input.block_ordinal >= message.content.len() {
        let n = decimal_string(input.block_ordinal as u64);
        let m = concat3("stored message ", input.message_id, " has no block at ordinal ");
        return Err(ContextSnapshotError(concat2(m.as_str(), n.as_str())));
    }
    let block = &message.content[input.block_ordinal];
    let block_kind = context_block_kind(block);
    let semantic_id = content_block_semantic_id(block);
    let mut format = ContextMessageDetailFormat::Text;
    let mut tool_name: Option<String> = None;
    let mut tool_use_id: Option<String> = None;
    let mut tool_result_is_error: Option<bool> = None;
    let mut provider_status: Option<String> = None;
    let mut image_media_type: Option<String> = None;
    let mut image_encoded_bytes: Option<usize> = None;
    let mut opaque_signature_present = false;
    let mut encrypted_state_present = false;
    let text: String = match block {
        ContentBlock::Text { text } => text.clone(),
        ContentBlock::Reasoning { text } => text.clone(),
        ContentBlock::ReasoningTrace { text } => text.clone(),
        ContentBlock::AnthropicThinking { thinking, signature } => {
            opaque_signature_present = !signature.as_str().is_empty();
            thinking.clone()
        },
        ContentBlock::OpenAIReasoning { summary, encrypted_content, status, .. } => {
            provider_status = status.clone();
            encrypted_state_present = match encrypted_content {
                Some(c) => {
                    !c.as_str().is_empty()
                },
                None => false,
            };
            join_strings(summary, "\n")
        },
        ContentBlock::ToolUse { id, name, input: tool_input, thought_signature } => {
            format = ContextMessageDetailFormat::Json;
            tool_name = Some(name.clone());
            tool_use_id = Some(id.clone());
            opaque_signature_present = match thought_signature {
                Some(sig) => {
                    !sig.as_str().is_empty()
                },
                None => false,
            };
            pretty_tool_input(tool_input)
        },
        ContentBlock::ToolResult { tool_use_id: id, content, is_error } => {
            tool_use_id = Some(id.clone());
            tool_result_is_error = Some(
                match is_error {
                    Some(e) => *e,
                    None => false,
                },
            );
            content.clone()
        },
        ContentBlock::Image { media_type, data } => {
            format = ContextMessageDetailFormat::MetadataOnly;
            image_media_type = Some(media_type.clone());
            image_encoded_bytes = Some(data.as_str().len());
            String::new()
        },
        ContentBlock::OpenAICompaction { compaction_content } => {
            format = ContextMessageDetailFormat::MetadataOnly;
            encrypted_state_present = !compaction_content.as_str().is_empty();
            String::new()
        },
    };
    proof {
        reveal_strlit("");
        assert(text@ == detail_text(*block));
    }
    let content = match context_text_chunk(text.as_str(), input.start_char, input.max_chars) {
        Ok(c) => c,
        Err(e) => {
            return Err(e);
        },
    };
    Ok(
        ContextMessageDetail {
            session_id: String::from_str(input.session_id),
            context_revision: input.context_revision,
            transcript_digest: input.transcript_digest,
            message_id: message.id.clone(),
            stored_index: found,
            role: message.role,
            display_role: message.display_role.clone(),
            timestamp: message.timestamp,
            block_ordinal: input.block_ordinal,
            block_kind,
            format,
            content,
            semantic_id,
            tool_name,
            tool_use_id,
            tool_result_is_error,
            provider_status,
            image_media_type,
            image_encoded_bytes,
            opaque_signature_present,
            encrypted_state_present,
        },
    )
}

} // verus!
