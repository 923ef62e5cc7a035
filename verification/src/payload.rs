//! The request of one curator task: the scoped source messages as JSON blocks, complete and
//! untruncated, with each image lifted out as an attachment that the JSON names by reference
//! (`image-1`, `image-2`, ... in order of appearance).

use vstd::prelude::*;

use crate::curator::ContextCuratorError;
use crate::evidence::category::PathEvidence;
use crate::evidence::extract::{copy_evidence, same_evidence, FileEvidence};
use crate::model::{json_get, lemma_entries_get_none, ContentBlock, Message, JsonModel, JsonValue, Role, StoredMessage};
use crate::plan::{copy_strings, ContextCuratorTask};
use crate::scope::{
    scope_view, ContextCuratorSourcePurpose, ContextCuratorTaskKind, ContextCuratorToolWork,
    ScopeEntry, ScopedMessage,
};
use crate::text::{concat2, concat3, decimal, decimal_string, views};

verus! {

/// An image block lifted out of the JSON payload and sent as its own block.
#[derive(Clone, Debug)]
pub struct CuratorImageAttachment {
    pub image_ref: String,
    pub media_type: String,
    pub data: String,
}

/// An attachment as (reference, media type, data).
pub type ImageModel = (Seq<char>, Seq<char>, Seq<char>);

impl View for CuratorImageAttachment {
    type V = ImageModel;

    open spec fn view(&self) -> ImageModel {
        (self.image_ref@, self.media_type@, self.data@)
    }
}

pub open spec fn image_views(images: Seq<CuratorImageAttachment>) -> Seq<ImageModel> {
    images.map_values(|i: CuratorImageAttachment| i@)
}

/// The members of a JSON object under construction.
pub open spec fn entries_model(entries: Seq<(String, JsonValue)>) -> Seq<(Seq<char>, JsonModel)> {
    Seq::new(entries.len(), |i: int| (entries[i].0@, entries[i].1@))
}

/// A JSON array of strings.
pub open spec fn strings_model(items: Seq<String>) -> Seq<JsonModel> {
    Seq::new(items.len(), |i: int| JsonModel::Str(items[i]@))
}

/// `"image-n"`.
pub open spec fn image_ref_text(n: nat) -> Seq<char> {
    "image-"@ + decimal(n)
}

pub open spec fn jstr(s: Seq<char>) -> JsonModel {
    JsonModel::Str(s)
}

pub open spec fn opt_str_model(o: Option<String>) -> JsonModel {
    match o {
        Some(s) => JsonModel::Str(s@),
        None => JsonModel::Null,
    }
}

pub open spec fn opt_bool_model(o: Option<bool>) -> JsonModel {
    match o {
        Some(b) => JsonModel::Bool(b),
        None => JsonModel::Null,
    }
}

/// The JSON form of one source block, `before` images having been attached before it:
/// images, opaque reasoning state, tool calls and compaction state are described (opaque
/// signatures and encrypted state only by their presence); every other block appears in its
/// stored form, tagged by `type`.
pub open spec fn block_payload(block: ContentBlock, before: nat) -> JsonModel {
    match block {
        ContentBlock::Image { media_type, .. } => JsonModel::Object(
            seq![
                ("kind"@, jstr("image"@)),
                ("image_ref"@, jstr(image_ref_text(before + 1))),
                ("media_type"@, jstr(media_type@)),
            ],
        ),
        ContentBlock::AnthropicThinking { thinking, signature } => JsonModel::Object(
            seq![
                ("kind"@, jstr("anthropic_thinking"@)),
                ("thinking"@, jstr(thinking@)),
                ("signature_present"@, JsonModel::Bool(signature@.len() > 0)),
            ],
        ),
        ContentBlock::OpenAIReasoning { id, summary, encrypted_content, status } => JsonModel::Object(
            seq![
                ("kind"@, jstr("openai_reasoning"@)),
                ("id"@, jstr(id@)),
                ("summary"@, JsonModel::Array(strings_model(summary@))),
                ("status"@, opt_str_model(status)),
                ("encrypted_content_present"@, JsonModel::Bool(encrypted_content is Some)),
            ],
        ),
        ContentBlock::ToolUse { id, name, input, thought_signature } => JsonModel::Object(
            seq![
                ("kind"@, jstr("tool_use"@)),
                ("id"@, jstr(id@)),
                ("name"@, jstr(name@)),
                ("input"@, input@),
                ("thought_signature_present"@, JsonModel::Bool(thought_signature is Some)),
            ],
        ),
        ContentBlock::OpenAICompaction { compaction_content } => JsonModel::Object(
            seq![
                ("kind"@, jstr("legacy_openai_compaction"@)),
                ("encrypted_content_present"@, JsonModel::Bool(compaction_content@.len() > 0)),
            ],
        ),
        ContentBlock::Text { text } => JsonModel::Object(
            seq![("type"@, jstr("text"@)), ("text"@, jstr(text@))],
        ),
        ContentBlock::Reasoning { text } => JsonModel::Object(
            seq![("type"@, jstr("reasoning"@)), ("text"@, jstr(text@))],
        ),
        ContentBlock::ReasoningTrace { text } => JsonModel::Object(
            seq![("type"@, jstr("reasoning_trace"@)), ("text"@, jstr(text@))],
        ),
        ContentBlock::ToolResult { tool_use_id, content, is_error } => JsonModel::Object(
            seq![
                ("type"@, jstr("tool_result"@)),
                ("tool_use_id"@, jstr(tool_use_id@)),
                ("content"@, jstr(content@)),
                ("is_error"@, opt_bool_model(is_error)),
            ],
        ),
    }
}

/// The attachment one block adds, `before` images having been attached before it.
pub open spec fn block_images(block: ContentBlock, before: nat) -> Seq<ImageModel> {
    match block {
        ContentBlock::Image { media_type, data } => seq![
            (image_ref_text(before + 1), media_type@, data@),
        ],
        _ => Seq::empty(),
    }
}

fn text_value(s: &str) -> (r: JsonValue)
    ensures
        r@ == JsonModel::Str(s@),
{
    JsonValue::Str(String::from_str(s))
}

fn push_entry(entries: &mut Vec<(String, JsonValue)>, key: &str, value: JsonValue)
    ensures
        entries_model(final(entries)@) == entries_model(old(entries)@).push((key@, value@)),
{
    let ghost before = entries@;
    entries.push((String::from_str(key), value));
    proof {
        assert(entries_model(entries@) =~= entries_model(before).push((key@, value@)));
    }
}

fn object(entries: Vec<(String, JsonValue)>) -> (r: JsonValue)
    ensures
        r@ == JsonModel::Object(entries_model(entries@)),
{
    let r = JsonValue::Object(entries);
    proof {
        assert(r@->Object_0 =~= entries_model(entries@));
    }
    r
}

fn string_array(items: &Vec<String>) -> (r: JsonValue)
    ensures
        r@ == JsonModel::Array(strings_model(items@)),
{
    let mut out: Vec<JsonValue> = Vec::new();
    let mut i: usize = 0;
    while i < items.len()
        invariant
            i <= items@.len(),
            out@.len() == i,
            forall|k: int| 0 <= k < i ==> (#[trigger] out@[k])@ == JsonModel::Str(items@[k]@),
        decreases items.len() - i,
    {
        out.push(JsonValue::Str(items[i].clone()));
        i += 1;
    }
    let r = JsonValue::Array(out);
    proof {
        assert(r@->Array_0 =~= strings_model(items@));
    }
    r
}

fn optional_text(o: &Option<String>) -> (r: JsonValue)
    ensures
        r@ == opt_str_model(*o),
{
    match o {
        Some(s) => JsonValue::Str(s.clone()),
        None => JsonValue::Null,
    }
}

/// The JSON form of one source block; an image is appended to `images` and named by its
/// position there.
pub fn curator_block_payload(block: &ContentBlock, images: &mut Vec<CuratorImageAttachment>) -> (r:
    JsonValue)
    ensures
        r@ == block_payload(*block, old(images)@.len()),
        image_views(final(images)@) == image_views(old(images)@) + block_images(
            *block,
            old(images)@.len(),
        ),
{
    let ghost before = images@;
    let mut entries: Vec<(String, JsonValue)> = Vec::new();
    match block {
        ContentBlock::Image { media_type, data } => {
            images.push(
                CuratorImageAttachment {
                    image_ref: String::new(),
                    media_type: media_type.clone(),
                    data: data.clone(),
                },
            );
            let count = images.len();
            let image_ref = concat2("image-", decimal_string(count as u64).as_str());
            let mut last = images.pop().unwrap();
            last.image_ref = image_ref.clone();
            images.push(last);
            proof {
                assert(image_views(images@) =~= image_views(before) + block_images(
                    *block,
                    before.len(),
                ));
            }
            push_entry(&mut entries, "kind", text_value("image"));
            push_entry(&mut entries, "image_ref", JsonValue::Str(image_ref));
            push_entry(&mut entries, "media_type", JsonValue::Str(media_type.clone()));
        },
        ContentBlock::AnthropicThinking { thinking, signature } => {
            push_entry(&mut entries, "kind", text_value("anthropic_thinking"));
            push_entry(&mut entries, "thinking", JsonValue::Str(thinking.clone()));
            push_entry(
                &mut entries,
                "signature_present",
                JsonValue::Bool(!signature.as_str().is_empty()),
            );
        },
        ContentBlock::OpenAIReasoning { id, summary, encrypted_content, status } => {
            push_entry(&mut entries, "kind", text_value("openai_reasoning"));
            push_entry(&mut entries, "id", JsonValue::Str(id.clone()));
            push_entry(&mut entries, "summary", string_array(summary));
            push_entry(&mut entries, "status", optional_text(status));
            push_entry(
                &mut entries,
                "encrypted_content_present",
                JsonValue::Bool(encrypted_content.is_some()),
            );
        },
        ContentBlock::ToolUse { id, name, input, thought_signature } => {
            push_entry(&mut entries, "kind", text_value("tool_use"));
            push_entry(&mut entries, "id", JsonValue::Str(id.clone()));
            push_entry(&mut entries, "name", JsonValue::Str(name.clone()));
            push_entry(&mut entries, "input", input.deep_clone());
            push_entry(
                &mut entries,
                "thought_signature_present",
                JsonValue::Bool(thought_signature.is_some()),
            );
        },
        ContentBlock::OpenAICompaction { compaction_content } => {
            push_entry(&mut entries, "kind", text_value("legacy_openai_compaction"));
            push_entry(
                &mut entries,
                "encrypted_content_present",
                JsonValue::Bool(!compaction_content.as_str().is_empty()),
            );
        },
        ContentBlock::Text { text } => {
            push_entry(&mut entries, "type", text_value("text"));
            push_entry(&mut entries, "text", JsonValue::Str(text.clone()));
        },
        ContentBlock::Reasoning { text } => {
            push_entry(&mut entries, "type", text_value("reasoning"));
            push_entry(&mut entries, "text", JsonValue::Str(text.clone()));
        },
        ContentBlock::ReasoningTrace { text } => {
            push_entry(&mut entries, "type", text_value("reasoning_trace"));
            push_entry(&mut entries, "text", JsonValue::Str(text.clone()));
        },
        ContentBlock::ToolResult { tool_use_id, content, is_error } => {
            push_entry(&mut entries, "type", text_value("tool_result"));
            push_entry(&mut entries, "tool_use_id", JsonValue::Str(tool_use_id.clone()));
            push_entry(&mut entries, "content", JsonValue::Str(content.clone()));
            let flag = match is_error {
                Some(b) => JsonValue::Bool(*b),
                None => JsonValue::Null,
            };
            push_entry(&mut entries, "is_error", flag);
        },
    }
    let r = object(entries);
    proof {
        assert(r@->Object_0 =~= block_payload(*block, before.len())->Object_0);
        if !(block is Image) {
            assert(image_views(images@) =~= image_views(before) + block_images(
                *block,
                before.len(),
            ));
        }
    }
    r
}

/// The JSON forms and attachments of a run of blocks, `start` images having been attached
/// before them.
pub open spec fn blocks_payload(blocks: Seq<ContentBlock>, start: nat) -> (Seq<JsonModel>, Seq<
    ImageModel,
>)
    decreases blocks.len(),
{
    if blocks.len() == 0 {
        (Seq::empty(), Seq::empty())
    } else {
        let (p, images) = blocks_payload(blocks.drop_last(), start);
        let before = start + images.len();
        (
            p.push(block_payload(blocks.last(), before)),
            images + block_images(blocks.last(), before),
        )
    }
}

/// The block ordinals a scope entry selects: every block, or the listed ones.
pub open spec fn entry_ordinals(message: StoredMessage, entry: ScopeEntry) -> Seq<int> {
    if entry.includes_all_blocks {
        Seq::new(message.content@.len(), |i: int| i)
    } else {
        entry.block_ordinals.map_values(|o: usize| o as int)
    }
}

/// The first of the first `k` ordinals that is not below `len`.
pub open spec fn first_missing(ordinals: Seq<int>, len: int, k: int) -> Option<int>
    decreases k,
{
    if k <= 0 {
        None
    } else {
        match first_missing(ordinals, len, k - 1) {
            Some(o) => Some(o),
            None => if ordinals[k - 1] >= len {
                Some(ordinals[k - 1])
            } else {
                None
            },
        }
    }
}

proof fn lemma_first_missing_stays(ordinals: Seq<int>, len: int, a: int, b: int)
    requires
        a <= b,
        first_missing(ordinals, len, a) is Some,
    ensures
        first_missing(ordinals, len, b) == first_missing(ordinals, len, a),
    decreases b - a,
{
    if a < b {
        lemma_first_missing_stays(ordinals, len, a, b - 1);
    }
}

pub open spec fn selected_blocks(message: StoredMessage, ordinals: Seq<int>) -> Seq<ContentBlock> {
    ordinals.map_values(|o: int| message.content@[o])
}

pub open spec fn missing_block_text(ordinal: int, message_index: nat) -> Seq<char> {
    "curator scope references missing block "@ + decimal(ordinal as nat)
        + " in stored message index "@ + decimal(message_index)
}

pub open spec fn missing_message_text(message_index: nat) -> Seq<char> {
    "curator scope references missing stored message index "@ + decimal(message_index)
}

/// One source message shown to a curator task.
#[derive(Clone, Debug)]
pub struct CuratorMessagePayload {
    pub sequence: usize,
    pub role: Role,
    pub blocks: Vec<JsonValue>,
}

/// A message payload as (sequence, role, blocks).
pub type MessageModel = (nat, Role, Seq<JsonModel>);

pub open spec fn json_views(values: Seq<JsonValue>) -> Seq<JsonModel> {
    values.map_values(|v: JsonValue| v@)
}

pub open spec fn message_models(payloads: Seq<CuratorMessagePayload>) -> Seq<MessageModel> {
    payloads.map_values(
        |p: CuratorMessagePayload| (p.sequence as nat, p.role, json_views(p.blocks@)),
    )
}

/// The payloads and attachments of the scope entries with the given purpose, numbered from 0
/// in scope order, `start` images having been attached before them; or why the scope does not
/// fit the transcript.
pub open spec fn scoped_payload_models(
    messages: Seq<StoredMessage>,
    scope: Seq<ScopeEntry>,
    purpose: ContextCuratorSourcePurpose,
    start: nat,
) -> Result<(Seq<MessageModel>, Seq<ImageModel>), Seq<char>>
    decreases scope.len(),
{
    if scope.len() == 0 {
        Ok((Seq::empty(), Seq::empty()))
    } else {
        match scoped_payload_models(messages, scope.drop_last(), purpose, start) {
            Err(e) => Err(e),
            Ok((payloads, images)) => {
                let entry = scope.last();
                if entry.purpose != purpose {
                    Ok((payloads, images))
                } else if entry.message_index >= messages.len() {
                    Err(missing_message_text(entry.message_index as nat))
                } else {
                    let message = messages[entry.message_index as int];
                    let ordinals = entry_ordinals(message, entry);
                    match first_missing(ordinals, message.content@.len() as int, ordinals.len() as int) {
                        Some(o) => Err(missing_block_text(o, entry.message_index as nat)),
                        None => {
                            let (blocks, added) = blocks_payload(
                                selected_blocks(message, ordinals),
                                start + images.len(),
                            );
                            Ok(
                                (
                                    payloads.push((payloads.len(), message.role, blocks)),
                                    images + added,
                                ),
                            )
                        },
                    }
                }
            },
        }
    }
}

fn missing_block(ordinal: usize, message_index: usize) -> (r: ContextCuratorError)
    ensures
        r matches ContextCuratorError::InvalidResponse(m) && m@ == missing_block_text(
            ordinal as int,
            message_index as nat,
        ),
{
    let head = concat3(
        "curator scope references missing block ",
        decimal_string(ordinal as u64).as_str(),
        " in stored message index ",
    );
    ContextCuratorError::InvalidResponse(
        concat2(head.as_str(), decimal_string(message_index as u64).as_str()),
    )
}

fn message_payload(
    message: &StoredMessage,
    entry: &ScopedMessage,
    sequence: usize,
    images: &mut Vec<CuratorImageAttachment>,
) -> (r: Result<CuratorMessagePayload, ContextCuratorError>)
    ensures
        ({
            let ordinals = entry_ordinals(*message, entry@);
            match first_missing(ordinals, message.content@.len() as int, ordinals.len() as int) {
                Some(o) => r matches Err(ContextCuratorError::InvalidResponse(m)) && m@
                    == missing_block_text(o, entry.message_index as nat),
                None => {
                    let (blocks, added) = blocks_payload(
                        selected_blocks(*message, ordinals),
                        old(images)@.len(),
                    );
                    &&& r matches Ok(p)
                    &&& p.sequence == sequence
                    &&& p.role == message.role
                    &&& json_views(p.blocks@) == blocks
                    &&& image_views(final(images)@) == image_views(old(images)@) + added
                },
            }
        }),
{
    let ghost ordinals = entry_ordinals(*message, entry@);
    let ghost start = images@.len();
    let ghost initial = image_views(images@);
    let content = &message.content;
    let count = if entry.includes_all_blocks {
        content.len()
    } else {
        entry.block_ordinals.len()
    };
    let mut blocks: Vec<JsonValue> = Vec::new();
    let mut k: usize = 0;
    while k < count
        invariant
            k <= count,
            count == ordinals.len(),
            ordinals == entry_ordinals(*message, entry@),
            content == &message.content,
            first_missing(ordinals, content@.len() as int, k as int) is None,
            json_views(blocks@) == blocks_payload(
                selected_blocks(*message, ordinals.take(k as int)),
                start,
            ).0,
            image_views(images@) == initial + blocks_payload(
                selected_blocks(*message, ordinals.take(k as int)),
                start,
            ).1,
            images@.len() == start + blocks_payload(
                selected_blocks(*message, ordinals.take(k as int)),
                start,
            ).1.len(),
        decreases count - k,
    {
        let ordinal = if entry.includes_all_blocks {
            k
        } else {
            entry.block_ordinals[k]
        };
        assert(ordinal as int == ordinals[k as int]);
        if ordinal >= content.len() {
            proof {
                assert(first_missing(ordinals, content@.len() as int, k + 1) == Some(
                    ordinal as int,
                ));
                lemma_first_missing_stays(
                    ordinals,
                    content@.len() as int,
                    k + 1,
                    ordinals.len() as int,
                );
            }
            return Err(missing_block(ordinal, entry.message_index));
        }
        let ghost prefix = selected_blocks(*message, ordinals.take(k as int));
        let ghost next = selected_blocks(*message, ordinals.take(k + 1));
        let ghost prev_blocks = json_views(blocks@);
        let ghost prev_images = image_views(images@);
        let payload = curator_block_payload(&content[ordinal], images);
        blocks.push(payload);
        proof {
            assert(next.drop_last() =~= prefix);
            assert(next.last() == content@[ordinal as int]);
            assert(json_views(blocks@) =~= prev_blocks.push(payload@));
            assert(image_views(images@).len() == images@.len());
        }
        k += 1;
    }
    proof {
        assert(ordinals.take(count as int) =~= ordinals);
    }
    Ok(CuratorMessagePayload { sequence, role: message.role, blocks })
}

fn missing_message(message_index: usize) -> (r: ContextCuratorError)
    ensures
        r matches ContextCuratorError::InvalidResponse(m) && m@ == missing_message_text(
            message_index as nat,
        ),
{
    ContextCuratorError::InvalidResponse(
        concat2(
            "curator scope references missing stored message index ",
            decimal_string(message_index as u64).as_str(),
        ),
    )
}

/// The payloads of the scope entries with the given purpose, in scope order; their images are
/// appended to `images`.
fn scoped_payloads(
    messages: &[StoredMessage],
    scope: &[ScopedMessage],
    purpose: ContextCuratorSourcePurpose,
    images: &mut Vec<CuratorImageAttachment>,
) -> (r: Result<Vec<CuratorMessagePayload>, ContextCuratorError>)
    ensures
        match scoped_payload_models(messages@, scope_view(scope@), purpose, old(images)@.len()) {
            Err(m) => r matches Err(ContextCuratorError::InvalidResponse(x)) && x@ == m,
            Ok((payloads, added)) => {
                &&& r matches Ok(out)
                &&& message_models(out@) == payloads
                &&& image_views(final(images)@) == image_views(old(images)@) + added
            },
        },
{
    let ghost start = images@.len();
    let ghost initial = image_views(images@);
    let ghost entries = scope_view(scope@);
    let mut out: Vec<CuratorMessagePayload> = Vec::new();
    let mut i: usize = 0;
    while i < scope.len()
        invariant
            i <= scope@.len(),
            start == old(images)@.len(),
            initial == image_views(old(images)@),
            entries == scope_view(scope@),
            entries.len() == scope@.len(),
            scoped_payload_models(messages@, entries.take(i as int), purpose, start) matches Ok(
                (payloads, added),
            ) && message_models(out@) == payloads && image_views(images@) == initial + added
                && images@.len() == start + added.len(),
        decreases scope.len() - i,
    {
        let entry = &scope[i];
        let ghost prefix = entries.take(i as int);
        let ghost next = entries.take(i + 1);
        proof {
            assert(next.drop_last() =~= prefix);
            assert(next.last() == scope@[i as int]@);
        }
        if entry.purpose == purpose {
            if entry.message_index >= messages.len() {
                let error = missing_message(entry.message_index);
                proof {
                    assert(scoped_payload_models(messages@, next, purpose, start) == Err::<
                        (Seq<MessageModel>, Seq<ImageModel>),
                        Seq<char>,
                    >(missing_message_text(entry.message_index as nat)));
                    lemma_scoped_error_stays(messages@, entries, purpose, start, i + 1);
                }
                return Err(error);
            }
            let ghost prev = out@;
            let sequence = out.len();
            let message = &messages[entry.message_index];
            match message_payload(message, entry, sequence, images) {
                Ok(payload) => {
                    out.push(payload);
                    proof {
                        assert(message_models(out@) =~= message_models(prev).push(
                            (payload.sequence as nat, payload.role, json_views(payload.blocks@)),
                        ));
                        assert(image_views(images@).len() == images@.len());
                    }
                },
                Err(e) => {
                    proof {
                        let ordinals = entry_ordinals(*message, entry@);
                        let o = first_missing(
                            ordinals,
                            message.content@.len() as int,
                            ordinals.len() as int,
                        )->0;
                        assert(scoped_payload_models(messages@, next, purpose, start) == Err::<
                            (Seq<MessageModel>, Seq<ImageModel>),
                            Seq<char>,
                        >(missing_block_text(o, entry.message_index as nat)));
                        lemma_scoped_error_stays(messages@, entries, purpose, start, i + 1);
                    }
                    return Err(e);
                },
            }
        }
        i += 1;
    }
    proof {
        assert(entries.take(scope@.len() as int) =~= entries);
    }
    Ok(out)
}

proof fn lemma_scoped_error_stays(
    messages: Seq<StoredMessage>,
    scope: Seq<ScopeEntry>,
    purpose: ContextCuratorSourcePurpose,
    start: nat,
    k: int,
)
    requires
        0 <= k <= scope.len(),
        scoped_payload_models(messages, scope.take(k), purpose, start) is Err,
    ensures
        scoped_payload_models(messages, scope, purpose, start) == scoped_payload_models(
            messages,
            scope.take(k),
            purpose,
            start,
        ),
    decreases scope.len() - k,
{
    if k < scope.len() {
        let next = scope.take(k + 1);
        assert(next.drop_last() =~= scope.take(k));
        lemma_scoped_error_stays(messages, scope, purpose, start, k + 1);
    } else {
        assert(scope.take(k) =~= scope);
    }
}

/// The tool a distillation task is about.
#[derive(Clone, Debug)]
pub struct CuratorToolPayload {
    pub name: String,
    pub input: JsonValue,
    pub original_token_estimate: usize,
    pub replacement_must_be_below_tokens: usize,
}

/// The largest replacement estimate still strictly below 20 percent of the original:
/// `(original * 20 - 1) / 100`, the product saturating at `usize::MAX` and the difference at 0.
pub open spec fn replacement_bound(original: nat) -> nat {
    let scaled = if original * 20 > usize::MAX {
        usize::MAX as nat
    } else {
        original * 20
    };
    if scaled == 0 {
        0
    } else {
        ((scaled - 1) as nat) / 100
    }
}

/// See [`replacement_bound`].
pub fn replacement_must_be_below_tokens(original: usize) -> (r: usize)
    ensures
        r == replacement_bound(original as nat),
{
    let scaled: usize = if original <= usize::MAX / 20 {
        original * 20
    } else {
        usize::MAX
    };
    if scaled == 0 {
        0
    } else {
        (scaled - 1) / 100
    }
}

/// Whether `p` describes the tool of `work`.
pub open spec fn tool_payload_of(p: CuratorToolPayload, work: ContextCuratorToolWork) -> bool {
    &&& p.name@ == work.tool_name@
    &&& p.input@ == work.tool_input@
    &&& p.original_token_estimate == work.original_token_estimate
    &&& p.replacement_must_be_below_tokens == replacement_bound(work.original_token_estimate as nat)
}

/// What a curator task is asked, besides its response contract.
pub enum CuratorTaskRequestPayload {
    RangeSummary {
        harness_file_evidence: FileEvidence,
        conversation_slice: Vec<CuratorMessagePayload>,
    },
    ToolResultDistillation {
        tool: CuratorToolPayload,
        matching_tool_call: Vec<CuratorMessagePayload>,
        complete_tool_result: Vec<CuratorMessagePayload>,
        supporting_conversation: Vec<CuratorMessagePayload>,
        active_context_summaries: Vec<String>,
    },
}

/// A task request: its payload and the images it references.
pub struct BuiltTaskRequest {
    pub payload: CuratorTaskRequestPayload,
    pub images: Vec<CuratorImageAttachment>,
}

/// The matching call, the complete result and the supporting conversation of a distillation
/// task, with their images in that order; or the first reason the scope does not fit.
pub open spec fn tool_request_models(messages: Seq<StoredMessage>, scope: Seq<ScopeEntry>) -> Result<
    (Seq<MessageModel>, Seq<MessageModel>, Seq<MessageModel>, Seq<ImageModel>),
    Seq<char>,
> {
    match scoped_payload_models(messages, scope, ContextCuratorSourcePurpose::PrimaryToolCall, 0) {
        Err(e) => Err(e),
        Ok((calls, first)) => match scoped_payload_models(
            messages,
            scope,
            ContextCuratorSourcePurpose::PrimaryToolResult,
            first.len(),
        ) {
            Err(e) => Err(e),
            Ok((results, second)) => match scoped_payload_models(
                messages,
                scope,
                ContextCuratorSourcePurpose::SupportingConversation,
                first.len() + second.len(),
            ) {
                Err(e) => Err(e),
                Ok((support, third)) => Ok((calls, results, support, first + second + third)),
            },
        },
    }
}

/// Builds the request of one curator task from the stored transcript: a range task sees its
/// primary range with the harness's file evidence; a tool task sees its tool, the matching
/// call, the complete result, its supporting conversation and the active summaries. Refused
/// when a scope entry names a missing message or block.
pub fn build_task_request(messages: &[StoredMessage], task: &ContextCuratorTask) -> (r: Result<
    BuiltTaskRequest,
    ContextCuratorError,
>)
    ensures
        match task.kind {
            ContextCuratorTaskKind::Range(work) => match scoped_payload_models(
                messages@,
                scope_view(task.scope@),
                ContextCuratorSourcePurpose::PrimaryRange,
                0,
            ) {
                Err(m) => r matches Err(ContextCuratorError::InvalidResponse(x)) && x@ == m,
                Ok((slice, images)) => {
                    &&& r matches Ok(built)
                    &&& image_views(built.images@) == images
                    &&& built.payload matches CuratorTaskRequestPayload::RangeSummary {
                        harness_file_evidence,
                        conversation_slice,
                    }
                    &&& same_evidence(harness_file_evidence, work.file_evidence)
                    &&& message_models(conversation_slice@) == slice
                },
            },
            ContextCuratorTaskKind::Tool(work) => match tool_request_models(
                messages@,
                scope_view(task.scope@),
            ) {
                Err(m) => r matches Err(ContextCuratorError::InvalidResponse(x)) && x@ == m,
                Ok((calls, results, support, images)) => {
                    &&& r matches Ok(built)
                    &&& image_views(built.images@) == images
                    &&& built.payload matches CuratorTaskRequestPayload::ToolResultDistillation {
                        tool,
                        matching_tool_call,
                        complete_tool_result,
                        supporting_conversation,
                        active_context_summaries,
                    }
                    &&& tool_payload_of(tool, work)
                    &&& message_models(matching_tool_call@) == calls
                    &&& message_models(complete_tool_result@) == results
                    &&& message_models(supporting_conversation@) == support
                    &&& views(active_context_summaries@) == views(task.active_summary_texts@)
                },
            },
        },
{
    let mut images: Vec<CuratorImageAttachment> = Vec::new();
    proof {
        assert(image_views(images@) =~= Seq::<ImageModel>::empty());
    }
    match &task.kind {
        ContextCuratorTaskKind::Range(work) => {
            let slice = scoped_payloads(
                messages,
                task.scope.as_slice(),
                ContextCuratorSourcePurpose::PrimaryRange,
                &mut images,
            )?;
            Ok(
                BuiltTaskRequest {
                    payload: CuratorTaskRequestPayload::RangeSummary {
                        harness_file_evidence: copy_evidence(&work.file_evidence),
                        conversation_slice: slice,
                    },
                    images,
                },
            )
        },
        ContextCuratorTaskKind::Tool(work) => {
            let tool = CuratorToolPayload {
                name: work.tool_name.clone(),
                input: work.tool_input.deep_clone(),
                original_token_estimate: work.original_token_estimate,
                replacement_must_be_below_tokens: replacement_must_be_below_tokens(
                    work.original_token_estimate,
                ),
            };
            let calls = scoped_payloads(
                messages,
                task.scope.as_slice(),
                ContextCuratorSourcePurpose::PrimaryToolCall,
                &mut images,
            )?;
            let results = scoped_payloads(
                messages,
                task.scope.as_slice(),
                ContextCuratorSourcePurpose::PrimaryToolResult,
                &mut images,
            )?;
            let support = scoped_payloads(
                messages,
                task.scope.as_slice(),
                ContextCuratorSourcePurpose::SupportingConversation,
                &mut images,
            )?;
            Ok(
                BuiltTaskRequest {
                    payload: CuratorTaskRequestPayload::ToolResultDistillation {
                        tool,
                        matching_tool_call: calls,
                        complete_tool_result: results,
                        supporting_conversation: support,
                        active_context_summaries: copy_strings(&task.active_summary_texts),
                    },
                    images,
                },
            )
        },
    }
}

/// Opaque provider state and image data never appear in a block's JSON form: no member
/// carries a signature, encrypted content, compaction content or image data; their
/// presence is reported by a flag only.
pub proof fn law_opaque_state_stays_out_of_payloads(block: ContentBlock, before: nat)
    ensures
        json_get(block_payload(block, before), "signature"@) is None,
        json_get(block_payload(block, before), "thought_signature"@) is None,
        json_get(block_payload(block, before), "encrypted_content"@) is None,
        json_get(block_payload(block, before), "compaction_content"@) is None,
        json_get(block_payload(block, before), "data"@) is None,
{
    let keys = seq![
        "signature"@,
        "thought_signature"@,
        "encrypted_content"@,
        "compaction_content"@,
        "data"@,
    ];
    reveal_strlit("signature");
    reveal_strlit("thought_signature");
    reveal_strlit("encrypted_content");
    reveal_strlit("compaction_content");
    reveal_strlit("data");
    reveal_strlit("kind");
    reveal_strlit("type");
    reveal_strlit("image_ref");
    reveal_strlit("media_type");
    reveal_strlit("thinking");
    reveal_strlit("signature_present");
    reveal_strlit("id");
    reveal_strlit("summary");
    reveal_strlit("status");
    reveal_strlit("encrypted_content_present");
    reveal_strlit("name");
    reveal_strlit("input");
    reveal_strlit("thought_signature_present");
    reveal_strlit("text");
    reveal_strlit("tool_use_id");
    reveal_strlit("content");
    reveal_strlit("is_error");
    let entries = block_payload(block, before)->Object_0;
    assert forall|q: int, m: int| 0 <= q < keys.len() && 0 <= m < entries.len() implies (
    #[trigger] entries[m]).0 != #[trigger] keys[q] by {
        assert(entries[m].0.len() != keys[q].len() || entries[m].0[0] != keys[q][0]
            || entries[m].0[1] != keys[q][1] || entries[m].0[2] != keys[q][2]);
    }
    lemma_entries_get_none(entries, keys[0]);
    lemma_entries_get_none(entries, keys[1]);
    lemma_entries_get_none(entries, keys[2]);
    lemma_entries_get_none(entries, keys[3]);
    lemma_entries_get_none(entries, keys[4]);
}

/// A JSON number for a count, as `serde_json::Number::from(n)` makes it.
pub uninterp spec fn json_number_of(n: u64) -> serde_json::Number;

/// `serde_json::Number::from(u64)`: the number `n`. The value is named, not described.
#[verifier::external_body]
fn json_number(n: u64) -> (r: serde_json::Number)
    ensures
        r == json_number_of(n),
{
    serde_json::Number::from(n)
}

fn count_value(n: usize) -> (r: JsonValue)
    ensures
        r@ == JsonModel::Number(json_number_of(n as u64)),
{
    JsonValue::Number(json_number(n as u64))
}

/// An array of strings.
pub open spec fn strings_json(items: Seq<String>) -> JsonModel {
    JsonModel::Array(strings_model(items))
}

/// The response contract shown to a range summarizer.
pub open spec fn range_response_schema_model() -> JsonModel {
    JsonModel::Object(
        seq![
            ("summary"@, jstr("non-empty lossless summary"@)),
            (
                "file_change_digest"@,
                jstr("evidence-based digest; may state that no files changed"@),
            ),
            ("warnings"@, JsonModel::Array(seq![jstr("uncertainty or preservation warning"@)])),
        ],
    )
}

/// The response contract shown to a tool-result distiller.
pub open spec fn tool_response_schema_model() -> JsonModel {
    JsonModel::Object(
        seq![
            ("eligible"@, JsonModel::Bool(true)),
            ("replacement"@, jstr("required and non-empty only when eligible"@)),
            ("preservation_rationale"@, jstr("required and non-empty only when eligible"@)),
            ("ineligible_reason"@, jstr("required and non-empty only when ineligible"@)),
            ("uncertainties"@, JsonModel::Array(seq![jstr("uncertainty"@)])),
        ],
    )
}

/// The response contract shown to a range summarizer.
pub fn range_response_schema() -> (r: JsonValue)
    ensures
        r@ == range_response_schema_model(),
{
    let mut warnings: Vec<JsonValue> = Vec::new();
    warnings.push(text_value("uncertainty or preservation warning"));
    let warnings = JsonValue::Array(warnings);
    proof {
        assert(warnings@->Array_0 =~= seq![jstr("uncertainty or preservation warning"@)]);
    }
    let mut entries: Vec<(String, JsonValue)> = Vec::new();
    push_entry(&mut entries, "summary", text_value("non-empty lossless summary"));
    push_entry(
        &mut entries,
        "file_change_digest",
        text_value("evidence-based digest; may state that no files changed"),
    );
    push_entry(&mut entries, "warnings", warnings);
    let r = object(entries);
    proof {
        assert(r@->Object_0 =~= range_response_schema_model()->Object_0);
    }
    r
}

/// The response contract shown to a tool-result distiller.
pub fn tool_response_schema() -> (r: JsonValue)
    ensures
        r@ == tool_response_schema_model(),
{
    let mut uncertainties: Vec<JsonValue> = Vec::new();
    uncertainties.push(text_value("uncertainty"));
    let uncertainties = JsonValue::Array(uncertainties);
    proof {
        assert(uncertainties@->Array_0 =~= seq![jstr("uncertainty"@)]);
    }
    let mut entries: Vec<(String, JsonValue)> = Vec::new();
    push_entry(&mut entries, "eligible", JsonValue::Bool(true));
    push_entry(&mut entries, "replacement", text_value("required and non-empty only when eligible"));
    push_entry(
        &mut entries,
        "preservation_rationale",
        text_value("required and non-empty only when eligible"),
    );
    push_entry(
        &mut entries,
        "ineligible_reason",
        text_value("required and non-empty only when ineligible"),
    );
    push_entry(&mut entries, "uncertainties", uncertainties);
    let r = object(entries);
    proof {
        assert(r@->Object_0 =~= tool_response_schema_model()->Object_0);
    }
    r
}

/// How a role is named in a request.
pub open spec fn role_text(role: Role) -> Seq<char> {
    match role {
        Role::User => "user"@,
        Role::Assistant => "assistant"@,
    }
}

/// One evidence category as JSON.
pub open spec fn path_evidence_model(e: PathEvidence) -> JsonModel {
    JsonModel::Object(
        seq![
            ("paths"@, strings_json(e.paths@)),
            ("complete"@, JsonModel::Bool(e.complete)),
            ("warnings"@, strings_json(e.warnings@)),
        ],
    )
}

/// A range's file evidence as JSON.
pub open spec fn file_evidence_model(e: FileEvidence) -> JsonModel {
    JsonModel::Object(
        seq![
            ("changed"@, path_evidence_model(e.changed)),
            ("read_or_inspected"@, path_evidence_model(e.read_or_inspected)),
            ("searched_or_browsed"@, path_evidence_model(e.searched_or_browsed)),
        ],
    )
}

/// One source message as JSON.
pub open spec fn message_payload_model(p: CuratorMessagePayload) -> JsonModel {
    JsonModel::Object(
        seq![
            ("sequence"@, JsonModel::Number(json_number_of(p.sequence as u64))),
            ("role"@, jstr(role_text(p.role))),
            ("blocks"@, JsonModel::Array(json_views(p.blocks@))),
        ],
    )
}

/// Source messages as a JSON array.
pub open spec fn messages_model(ps: Seq<CuratorMessagePayload>) -> JsonModel {
    JsonModel::Array(Seq::new(ps.len(), |i: int| message_payload_model(ps[i])))
}

/// The JSON document a curator task is sent: the task kind, its response contract and its
/// payload.
pub open spec fn request_document_model(payload: CuratorTaskRequestPayload) -> JsonModel {
    match payload {
        CuratorTaskRequestPayload::RangeSummary { harness_file_evidence, conversation_slice } =>
            JsonModel::Object(
            seq![
                ("task"@, jstr("range_summary"@)),
                ("response_schema"@, range_response_schema_model()),
                ("harness_file_evidence"@, file_evidence_model(harness_file_evidence)),
                ("conversation_slice"@, messages_model(conversation_slice@)),
            ],
        ),
        CuratorTaskRequestPayload::ToolResultDistillation {
            tool,
            matching_tool_call,
            complete_tool_result,
            supporting_conversation,
            active_context_summaries,
        } => JsonModel::Object(
            seq![
                ("task"@, jstr("tool_result_distillation"@)),
                ("response_schema"@, tool_response_schema_model()),
                (
                    "tool"@,
                    JsonModel::Object(
                        seq![
                            ("name"@, jstr(tool.name@)),
                            ("input"@, tool.input@),
                            (
                                "original_token_estimate"@,
                                JsonModel::Number(json_number_of(tool.original_token_estimate as u64)),
                            ),
                            (
                                "replacement_must_be_below_tokens"@,
                                JsonModel::Number(
                                    json_number_of(tool.replacement_must_be_below_tokens as u64),
                                ),
                            ),
                        ],
                    ),
                ),
                ("matching_tool_call"@, messages_model(matching_tool_call@)),
                ("complete_tool_result"@, messages_model(complete_tool_result@)),
                ("supporting_conversation"@, messages_model(supporting_conversation@)),
                ("active_context_summaries"@, strings_json(active_context_summaries@)),
            ],
        ),
    }
}

fn path_evidence_document(e: &PathEvidence) -> (r: JsonValue)
    ensures
        r@ == path_evidence_model(*e),
{
    let mut entries: Vec<(String, JsonValue)> = Vec::new();
    push_entry(&mut entries, "paths", string_array(&e.paths));
    push_entry(&mut entries, "complete", JsonValue::Bool(e.complete));
    push_entry(&mut entries, "warnings", string_array(&e.warnings));
    let r = object(entries);
    proof {
        assert(r@->Object_0 =~= path_evidence_model(*e)->Object_0);
    }
    r
}

fn file_evidence_document(e: &FileEvidence) -> (r: JsonValue)
    ensures
        r@ == file_evidence_model(*e),
{
    let mut entries: Vec<(String, JsonValue)> = Vec::new();
    push_entry(&mut entries, "changed", path_evidence_document(&e.changed));
    push_entry(&mut entries, "read_or_inspected", path_evidence_document(&e.read_or_inspected));
    push_entry(&mut entries, "searched_or_browsed", path_evidence_document(&e.searched_or_browsed));
    let r = object(entries);
    proof {
        assert(r@->Object_0 =~= file_evidence_model(*e)->Object_0);
    }
    r
}

fn message_document(p: &CuratorMessagePayload) -> (r: JsonValue)
    ensures
        r@ == message_payload_model(*p),
{
    let mut blocks: Vec<JsonValue> = Vec::new();
    let mut i: usize = 0;
    while i < p.blocks.len()
        invariant
            i <= p.blocks@.len(),
            blocks@.len() == i,
            forall|k: int| 0 <= k < i ==> (#[trigger] blocks@[k])@ == p.blocks@[k]@,
        decreases p.blocks.len() - i,
    {
        blocks.push(p.blocks[i].deep_clone());
        i += 1;
    }
    let blocks = JsonValue::Array(blocks);
    proof {
        assert(blocks@->Array_0 =~= json_views(p.blocks@));
    }
    let role = match p.role {
        Role::User => text_value("user"),
        Role::Assistant => text_value("assistant"),
    };
    let mut entries: Vec<(String, JsonValue)> = Vec::new();
    push_entry(&mut entries, "sequence", count_value(p.sequence));
    push_entry(&mut entries, "role", role);
    push_entry(&mut entries, "blocks", blocks);
    let r = object(entries);
    proof {
        assert(r@->Object_0 =~= message_payload_model(*p)->Object_0);
    }
    r
}

fn messages_document(ps: &Vec<CuratorMessagePayload>) -> (r: JsonValue)
    ensures
        r@ == messages_model(ps@),
{
    let mut out: Vec<JsonValue> = Vec::new();
    let mut i: usize = 0;
    while i < ps.len()
        invariant
            i <= ps@.len(),
            out@.len() == i,
            forall|k: int| 0 <= k < i ==> (#[trigger] out@[k])@ == message_payload_model(ps@[k]),
        decreases ps.len() - i,
    {
        out.push(message_document(&ps[i]));
        i += 1;
    }
    let r = JsonValue::Array(out);
    proof {
        assert(r@->Array_0 =~= messages_model(ps@)->Array_0);
    }
    r
}

/// The JSON document a curator task is sent (see [`request_document_model`]).
pub fn task_request_document(payload: &CuratorTaskRequestPayload) -> (r: JsonValue)
    ensures
        r@ == request_document_model(*payload),
{
    let mut entries: Vec<(String, JsonValue)> = Vec::new();
    match payload {
        CuratorTaskRequestPayload::RangeSummary { harness_file_evidence, conversation_slice } => {
            push_entry(&mut entries, "task", text_value("range_summary"));
            push_entry(&mut entries, "response_schema", range_response_schema());
            push_entry(
                &mut entries,
                "harness_file_evidence",
                file_evidence_document(harness_file_evidence),
            );
            push_entry(&mut entries, "conversation_slice", messages_document(conversation_slice));
        },
        CuratorTaskRequestPayload::ToolResultDistillation {
            tool,
            matching_tool_call,
            complete_tool_result,
            supporting_conversation,
            active_context_summaries,
        } => {
            let mut tool_entries: Vec<(String, JsonValue)> = Vec::new();
            push_entry(&mut tool_entries, "name", JsonValue::Str(tool.name.clone()));
            push_entry(&mut tool_entries, "input", tool.input.deep_clone());
            push_entry(
                &mut tool_entries,
                "original_token_estimate",
                count_value(tool.original_token_estimate),
            );
            push_entry(
                &mut tool_entries,
                "replacement_must_be_below_tokens",
                count_value(tool.replacement_must_be_below_tokens),
            );
            let tool_value = object(tool_entries);
            proof {
                assert(tool_value@->Object_0 =~= request_document_model(
                    *payload,
                )->Object_0[2].1->Object_0);
            }
            push_entry(&mut entries, "task", text_value("tool_result_distillation"));
            push_entry(&mut entries, "response_schema", tool_response_schema());
            push_entry(&mut entries, "tool", tool_value);
            push_entry(&mut entries, "matching_tool_call", messages_document(matching_tool_call));
            push_entry(&mut entries, "complete_tool_result", messages_document(complete_tool_result));
            push_entry(
                &mut entries,
                "supporting_conversation",
                messages_document(supporting_conversation),
            );
            push_entry(
                &mut entries,
                "active_context_summaries",
                string_array(active_context_summaries),
            );
        },
    }
    let r = object(entries);
    proof {
        assert(r@->Object_0 =~= request_document_model(*payload)->Object_0);
    }
    r
}

/// The compact JSON text of a document, as `serde_json` renders a `Value` (`to_string`).
pub uninterp spec fn compact_json_text(v: JsonModel) -> Seq<char>;

/// The compact rendering (`Value::to_string`) of the document converted to a
/// `serde_json::Value`. The text is a function of the document alone and is named.
#[verifier::external_body]
fn json_text(v: &JsonValue) -> (r: String)
    ensures
        r@ == compact_json_text(v@),
{
    crate::snapshot::to_serde_value(v).to_string()
}

/// `"Image attachment {image_ref}:"`, the line that names an attached image.
pub open spec fn image_caption(image_ref: Seq<char>) -> Seq<char> {
    "Image attachment "@ + image_ref + ":"@
}

/// A text block holding exactly `t`.
pub open spec fn text_block_with(block: ContentBlock, t: Seq<char>) -> bool {
    match block {
        ContentBlock::Text { text } => text@ == t,
        _ => false,
    }
}

/// An image block carrying the media type and data of `image`.
pub open spec fn image_block_of(block: ContentBlock, image: CuratorImageAttachment) -> bool {
    match block {
        ContentBlock::Image { media_type, data } => media_type@ == image.media_type@ && data@
            == image.data@,
        _ => false,
    }
}

/// The provider message of a task request: a user message holding the compact JSON request,
/// then, for each image in order, a line naming it and the image itself.
pub fn task_request_message(request: &BuiltTaskRequest) -> (r: Message)
    ensures
        r.role == Role::User,
        r.content@.len() == 1 + 2 * request.images@.len(),
        text_block_with(r.content@[0], compact_json_text(request_document_model(request.payload))),
        forall|i: int|
            0 <= i < request.images@.len() ==> text_block_with(
                #[trigger] r.content@[1 + 2 * i],
                image_caption(request.images@[i].image_ref@),
            ),
        forall|i: int|
            0 <= i < request.images@.len() ==> image_block_of(
                #[trigger] r.content@[2 + 2 * i],
                request.images@[i],
            ),
{
    let document = task_request_document(&request.payload);
    let mut content: Vec<ContentBlock> = Vec::new();
    content.push(ContentBlock::Text { text: json_text(&document) });
    let mut i: usize = 0;
    while i < request.images.len()
        invariant
            i <= request.images@.len(),
            content@.len() == 1 + 2 * i,
            text_block_with(content@[0], compact_json_text(request_document_model(request.payload))),
            forall|k: int|
                0 <= k < i ==> text_block_with(
                    #[trigger] content@[1 + 2 * k],
                    image_caption(request.images@[k].image_ref@),
                ),
            forall|k: int|
                0 <= k < i ==> image_block_of(#[trigger] content@[2 + 2 * k], request.images@[k]),
        decreases request.images.len() - i,
    {
        let image = &request.images[i];
        let caption = concat3("Image attachment ", image.image_ref.as_str(), ":");
        proof {
            reveal_strlit("Image attachment ");
            reveal_strlit(":");
        }
        let ghost before = content@;
        content.push(ContentBlock::Text { text: caption });
        content.push(
            ContentBlock::Image { media_type: image.media_type.clone(), data: image.data.clone() },
        );
        proof {
            assert forall|k: int| 0 <= k < i + 1 implies text_block_with(
                #[trigger] content@[1 + 2 * k],
                image_caption(request.images@[k].image_ref@),
            ) by {
                if k < i {
                    assert(content@[1 + 2 * k] == before[1 + 2 * k]);
                }
            }
            assert forall|k: int| 0 <= k < i + 1 implies image_block_of(
                #[trigger] content@[2 + 2 * k],
                request.images@[k],
            ) by {
                if k < i {
                    assert(content@[2 + 2 * k] == before[2 + 2 * k]);
                }
            }
        }
        i += 1;
    }
    Message { role: Role::User, content }
}

} // verus!
