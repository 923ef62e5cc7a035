//! Plain-value model of stored transcripts: messages, content blocks and tool inputs.

use vstd::prelude::*;

use crate::text::chars_eq;
use crate::text::chars_of;

verus! {

/// An opaque JSON number, carried through unchanged.
#[verifier::external_type_specification]
#[verifier::external_body]
pub struct ExJsonNumber(serde_json::Number);

/// Structured tool input, as a JSON document. Objects keep their keys in order,
/// each key at most once.
#[derive(Debug)]
pub enum JsonValue {
    Null,
    Bool(bool),
    Number(serde_json::Number),
    Str(String),
    Array(Vec<JsonValue>),
    Object(Vec<(String, JsonValue)>),
}

/// The mathematical content of a JSON document.
pub enum JsonModel {
    Null,
    Bool(bool),
    Number(serde_json::Number),
    Str(Seq<char>),
    Array(Seq<JsonModel>),
    Object(Seq<(Seq<char>, JsonModel)>),
}

pub open spec fn json_view(v: JsonValue) -> JsonModel
    decreases v,
{
    match v {
        JsonValue::Null => JsonModel::Null,
        JsonValue::Bool(b) => JsonModel::Bool(b),
        JsonValue::Number(n) => JsonModel::Number(n),
        JsonValue::Str(s) => JsonModel::Str(s@),
        JsonValue::Array(items) => JsonModel::Array(
            Seq::new(
                items@.len(),
                |i: int|
                    if 0 <= i < items@.len() {
                        json_view(items@[i])
                    } else {
                        JsonModel::Null
                    },
            ),
        ),
        JsonValue::Object(entries) => JsonModel::Object(
            Seq::new(
                entries@.len(),
                |i: int|
                    if 0 <= i < entries@.len() {
                        (entries@[i].0@, json_view(entries@[i].1))
                    } else {
                        (Seq::empty(), JsonModel::Null)
                    },
            ),
        ),
    }
}


impl View for JsonValue {
    type V = JsonModel;

    open spec fn view(&self) -> JsonModel {
        json_view(*self)
    }
}

/// The value stored under `key` in a list of object entries: the first entry with that key.
pub open spec fn entries_get(entries: Seq<(Seq<char>, JsonModel)>, key: Seq<char>) -> Option<
    JsonModel,
>
    decreases entries.len(),
{
    if entries.len() == 0 {
        None
    } else if entries[0].0 == key {
        Some(entries[0].1)
    } else {
        entries_get(entries.drop_first(), key)
    }
}

/// `Value::get(key)`: the member of an object, nothing for any other value.
pub open spec fn json_get(v: JsonModel, key: Seq<char>) -> Option<JsonModel> {
    match v {
        JsonModel::Object(entries) => entries_get(entries, key),
        _ => None,
    }
}

/// `Value::as_str`: the text of a string value.
pub open spec fn json_as_str(v: Option<JsonModel>) -> Option<Seq<char>> {
    match v {
        Some(JsonModel::Str(s)) => Some(s),
        _ => None,
    }
}

/// The string member `key` of `v`, if `v` is an object holding a string there.
pub open spec fn json_str_member(v: JsonModel, key: Seq<char>) -> Option<Seq<char>> {
    json_as_str(json_get(v, key))
}

proof fn lemma_entries_get_skip(entries: Seq<(Seq<char>, JsonModel)>, key: Seq<char>, i: int)
    requires
        0 <= i < entries.len(),
        forall|k: int| 0 <= k < i ==> (#[trigger] entries[k]).0 != key,
    ensures
        entries_get(entries, key) == entries_get(entries.subrange(i, entries.len() as int), key),
    decreases i,
{
    if i > 0 {
        let t = entries.drop_first();
        assert forall|k: int| 0 <= k < i - 1 implies (#[trigger] t[k]).0 != key by {
            assert(t[k] == entries[k + 1]);
        }
        lemma_entries_get_skip(t, key, i - 1);
        assert(t.subrange(i - 1, t.len() as int) =~= entries.subrange(i, entries.len() as int));
    } else {
        assert(entries.subrange(0, entries.len() as int) =~= entries);
    }
}

pub(crate) proof fn lemma_entries_get_none(entries: Seq<(Seq<char>, JsonModel)>, key: Seq<char>)
    requires
        forall|m: int| 0 <= m < entries.len() ==> (#[trigger] entries[m]).0 != key,
    ensures
        entries_get(entries, key) is None,
    decreases entries.len(),
{
    if entries.len() > 0 {
        let t = entries.drop_first();
        assert forall|m: int| 0 <= m < t.len() implies (#[trigger] t[m]).0 != key by {
            assert(t[m] == entries[m + 1]);
        }
        lemma_entries_get_none(t, key);
    }
}

/// `Number::clone`: a copy of the number.
#[verifier::external_body]
pub(crate) fn clone_number(n: &serde_json::Number) -> (r: serde_json::Number)
    ensures
        r == *n,
{
    n.clone()
}

impl Clone for JsonValue {
    fn clone(&self) -> (r: Self)
        ensures
            r@ == self@,
    {
        self.deep_clone()
    }
}

impl JsonValue {
    /// `Value::get(key)`.
    pub fn get(&self, key: &str) -> (r: Option<&JsonValue>)
        ensures
            match r {
                Some(v) => json_get(self@, key@) == Some(v@),
                None => json_get(self@, key@) is None,
            },
    {
        match self {
            JsonValue::Object(entries) => {
                let ghost ev = self@->Object_0;
                assert(ev.len() == entries@.len());
                let k = chars_of(key);
                let mut i: usize = 0;
                while i < entries.len()
                    invariant
                        i <= entries.len(),
                        k@ == key@,
                        *self == JsonValue::Object(*entries),
                        ev == self@->Object_0,
                        ev.len() == entries@.len(),
                        forall|m: int| 0 <= m < i ==> (#[trigger] ev[m]).0 != key@,
                    decreases entries.len() - i,
                {
                    let ek = chars_of(entries[i].0.as_str());
                    assert(ev[i as int] == (entries@[i as int].0@, entries@[i as int].1@));
                    if chars_eq(&ek, &k) {
                        proof {
                            lemma_entries_get_skip(ev, key@, i as int);
                            let sub = ev.subrange(i as int, ev.len() as int);
                            assert(sub[0] == ev[i as int]);
                        }
                        return Some(&entries[i].1);
                    }
                    i += 1;
                }
                proof {
                    lemma_entries_get_none(ev, key@);
                }
                None
            },
            _ => None,
        }
    }

    /// The string member `key`, if present and a string.
    pub fn get_str(&self, key: &str) -> (r: Option<&String>)
        ensures
            match r {
                Some(s) => json_str_member(self@, key@) == Some(s@),
                None => json_str_member(self@, key@) is None,
            },
    {
        match self.get(key) {
            Some(JsonValue::Str(s)) => Some(s),
            _ => None,
        }
    }

    pub fn is_object(&self) -> (r: bool)
        ensures
            r == (self@ is Object),
    {
        match self {
            JsonValue::Object(_) => true,
            _ => false,
        }
    }

    /// A copy of this document.
    pub fn deep_clone(&self) -> (r: JsonValue)
        ensures
            r@ == self@,
        decreases self,
    {
        match self {
            JsonValue::Null => JsonValue::Null,
            JsonValue::Bool(b) => JsonValue::Bool(*b),
            JsonValue::Number(n) => JsonValue::Number(clone_number(n)),
            JsonValue::Str(s) => JsonValue::Str(s.clone()),
            JsonValue::Array(items) => {
                let mut out: Vec<JsonValue> = Vec::new();
                let mut i: usize = 0;
                while i < items.len()
                    invariant
                        i <= items.len(),
                        *self == JsonValue::Array(*items),
                        out@.len() == i,
                        forall|k: int| 0 <= k < i ==> (#[trigger] out@[k])@ == items@[k]@,
                    decreases items.len() - i,
                {
                    assert(decreases_to!(*self => (*self)->Array_0));
                    assert(decreases_to!(*items => items@));
                    assert(decreases_to!(items@ => items@[i as int]));
                    let c = items[i].deep_clone();
                    out.push(c);
                    i += 1;
                }
                let r = JsonValue::Array(out);
                assert(r@->Array_0 =~= self@->Array_0);
                r
            },
            JsonValue::Object(entries) => {
                let mut out: Vec<(String, JsonValue)> = Vec::new();
                let mut i: usize = 0;
                while i < entries.len()
                    invariant
                        i <= entries.len(),
                        *self == JsonValue::Object(*entries),
                        out@.len() == i,
                        forall|k: int|
                            0 <= k < i ==> (#[trigger] out@[k]).0@ == entries@[k].0@ && out@[k].1@
                                == entries@[k].1@,
                    decreases entries.len() - i,
                {
                    assert(decreases_to!(*self => (*self)->Object_0));
                    assert(decreases_to!(*entries => entries@));
                    assert(decreases_to!(entries@ => entries@[i as int]));
                    assert(decreases_to!(entries@[i as int] => entries@[i as int].1));
                    let c = entries[i].1.deep_clone();
                    out.push((entries[i].0.clone(), c));
                    i += 1;
                }
                let r = JsonValue::Object(out);
                assert(r@->Object_0 =~= self@->Object_0);
                r
            },
        }
    }
}

/// Who wrote a stored message.
#[derive(PartialEq, Eq, Structural, Clone, Copy, Debug)]
pub enum Role {
    User,
    Assistant,
}

/// One content block of a stored or provider-facing message.
#[derive(Clone, Debug)]
pub enum ContentBlock {
    Text { text: String },
    Reasoning { text: String },
    ReasoningTrace { text: String },
    AnthropicThinking { thinking: String, signature: String },
    OpenAIReasoning {
        id: String,
        summary: Vec<String>,
        encrypted_content: Option<String>,
        status: Option<String>,
    },
    ToolUse { id: String, name: String, input: JsonValue, thought_signature: Option<String> },
    ToolResult { tool_use_id: String, content: String, is_error: Option<bool> },
    Image { media_type: String, data: String },
    OpenAICompaction { compaction_content: String },
}

/// The kind of a content block, as persisted in context operations.
#[derive(PartialEq, Eq, Structural, Clone, Copy, Debug)]
pub enum StoredContextBlockKind {
    Text,
    Reasoning,
    ReasoningTrace,
    AnthropicThinking,
    OpenAiReasoning,
    ToolUse,
    ToolResult,
    Image,
    OpenAiCompaction,
}

/// The kind of a content block.
pub open spec fn spec_block_kind(block: ContentBlock) -> StoredContextBlockKind {
    match block {
        ContentBlock::Text { .. } => StoredContextBlockKind::Text,
        ContentBlock::Reasoning { .. } => StoredContextBlockKind::Reasoning,
        ContentBlock::ReasoningTrace { .. } => StoredContextBlockKind::ReasoningTrace,
        ContentBlock::AnthropicThinking { .. } => StoredContextBlockKind::AnthropicThinking,
        ContentBlock::OpenAIReasoning { .. } => StoredContextBlockKind::OpenAiReasoning,
        ContentBlock::ToolUse { .. } => StoredContextBlockKind::ToolUse,
        ContentBlock::ToolResult { .. } => StoredContextBlockKind::ToolResult,
        ContentBlock::Image { .. } => StoredContextBlockKind::Image,
        ContentBlock::OpenAICompaction { .. } => StoredContextBlockKind::OpenAiCompaction,
    }
}

/// The kind of a content block.
pub fn context_block_kind(block: &ContentBlock) -> (r: StoredContextBlockKind)
    ensures
        r == spec_block_kind(*block),
{
    match block {
        ContentBlock::Text { .. } => StoredContextBlockKind::Text,
        ContentBlock::Reasoning { .. } => StoredContextBlockKind::Reasoning,
        ContentBlock::ReasoningTrace { .. } => StoredContextBlockKind::ReasoningTrace,
        ContentBlock::AnthropicThinking { .. } => StoredContextBlockKind::AnthropicThinking,
        ContentBlock::OpenAIReasoning { .. } => StoredContextBlockKind::OpenAiReasoning,
        ContentBlock::ToolUse { .. } => StoredContextBlockKind::ToolUse,
        ContentBlock::ToolResult { .. } => StoredContextBlockKind::ToolResult,
        ContentBlock::Image { .. } => StoredContextBlockKind::Image,
        ContentBlock::OpenAICompaction { .. } => StoredContextBlockKind::OpenAiCompaction,
    }
}

/// The stable provider identifier a block carries, if any.
pub open spec fn spec_semantic_id(block: ContentBlock) -> Option<Seq<char>> {
    match block {
        ContentBlock::ToolUse { id, .. } => Some(id@),
        ContentBlock::ToolResult { tool_use_id, .. } => Some(tool_use_id@),
        ContentBlock::OpenAIReasoning { id, .. } => Some(id@),
        _ => None,
    }
}

/// The stable provider identifier a block carries, if any.
pub fn content_block_semantic_id(block: &ContentBlock) -> (r: Option<String>)
    ensures
        match r {
            Some(s) => spec_semantic_id(*block) == Some(s@),
            None => spec_semantic_id(*block) is None,
        },
{
    match block {
        ContentBlock::ToolUse { id, .. } => Some(id.clone()),
        ContentBlock::ToolResult { tool_use_id, .. } => Some(tool_use_id.clone()),
        ContentBlock::OpenAIReasoning { id, .. } => Some(id.clone()),
        _ => None,
    }
}

/// A message of the authoritative stored transcript.
#[derive(Clone, Debug)]
pub struct StoredMessage {
    pub id: String,
    pub role: Role,
    pub content: Vec<ContentBlock>,
    pub display_role: Option<String>,
    /// Milliseconds since the Unix epoch.
    pub timestamp: Option<i64>,
}

/// A provider-facing message.
#[derive(Clone, Debug)]
pub struct Message {
    pub role: Role,
    pub content: Vec<ContentBlock>,
}

impl Message {
    /// A user message holding one text block.
    pub fn user(text: &str) -> (m: Message)
        ensures
            m.role == Role::User,
            m.content@.len() == 1,
            m.content@[0] matches ContentBlock::Text { text: t } && t@ == text@,
    {
        let mut content: Vec<ContentBlock> = Vec::new();
        content.push(ContentBlock::Text { text: String::from_str(text) });
        Message { role: Role::User, content }
    }
}

/// The position of the first message with the given ID.
pub open spec fn message_position(msgs: Seq<StoredMessage>, id: Seq<char>) -> Option<nat>
    decreases msgs.len(),
{
    if msgs.len() == 0 {
        None
    } else {
        match message_position(msgs.drop_last(), id) {
            Some(i) => Some(i),
            None => if msgs.last().id@ == id {
                Some((msgs.len() - 1) as nat)
            } else {
                None
            },
        }
    }
}

/// What [`message_position`] finds: the first message with the ID, or proof that none has it.
pub proof fn lemma_message_position(msgs: Seq<StoredMessage>, id: Seq<char>)
    ensures
        message_position(msgs, id) matches Some(i) ==> i < msgs.len() && msgs[i as int].id@ == id
            && forall|k: int| 0 <= k < i ==> #[trigger] msgs[k].id@ != id,
        message_position(msgs, id) is None ==> forall|k: int|
            0 <= k < msgs.len() ==> #[trigger] msgs[k].id@ != id,
    decreases msgs.len(),
{
    if msgs.len() > 0 {
        lemma_message_position(msgs.drop_last(), id);
        assert forall|k: int| 0 <= k < msgs.len() - 1 implies #[trigger] msgs[k] == msgs.drop_last()[k] by {}
    }
}

/// The position of the first message with the given ID.
pub fn position_of_message(messages: &[StoredMessage], id: &str) -> (r: Option<usize>)
    ensures
        match r {
            Some(i) => message_position(messages@, id@) == Some(i as nat),
            None => message_position(messages@, id@) is None,
        },
{
    let mut i: usize = 0;
    while i < messages.len()
        invariant
            i <= messages@.len(),
            message_position(messages@.take(i as int), id@) is None,
        decreases messages.len() - i,
    {
        proof {
            assert(messages@.take(i + 1).drop_last() =~= messages@.take(i as int));
        }
        if crate::text::str_eq(messages[i].id.as_str(), id) {
            proof {
                lemma_position_extends(messages@, id@, i + 1);
            }
            return Some(i);
        }
        i += 1;
    }
    proof {
        assert(messages@.take(messages@.len() as int) =~= messages@);
    }
    None
}

proof fn lemma_position_extends(msgs: Seq<StoredMessage>, id: Seq<char>, j: int)
    requires
        0 < j <= msgs.len(),
        message_position(msgs.take(j), id) is Some,
    ensures
        message_position(msgs, id) == message_position(msgs.take(j), id),
    decreases msgs.len() - j,
{
    if j < msgs.len() {
        assert(msgs.take(j + 1).drop_last() =~= msgs.take(j));
        lemma_position_extends(msgs, id, j + 1);
    } else {
        assert(msgs.take(j) =~= msgs);
    }
}

} // verus!
