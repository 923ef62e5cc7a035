use context_ledger::model::{ContentBlock, JsonValue, Role, StoredMessage};
use context_ledger::session::{StoredContextEmergencyPolicy, StoredContextViewState};
use context_ledger::snapshot::{
    bounded_message_preview, build_context_message_detail, context_text_chunk, non_empty,
    context_editor_snapshot, paginate_context_editor_snapshot,
    ContextMessageDetailFormat, ContextMessageDetailInput, CONTEXT_MESSAGE_DETAIL_MAX_CHARS,
    CONTEXT_SNAPSHOT_MAX_PAGE_SIZE,
};

fn stored(id: &str, role: Role, content: Vec<ContentBlock>) -> StoredMessage {
    StoredMessage { id: id.to_string(), role, content, display_role: None, timestamp: None }
}

fn text(value: &str) -> ContentBlock {
    ContentBlock::Text { text: value.to_string() }
}

#[test]
fn snapshot_pagination_preserves_global_identity_and_enforces_bounds() {
    let messages = vec![
        stored("message-1", Role::User, vec![text("one")]),
        stored("message-2", Role::Assistant, vec![text("two")]),
        stored("message-3", Role::User, vec![text("three")]),
    ];
    let view = StoredContextViewState {
        revision: 7,
        transactions: Vec::new(),
        emergency_policy: StoredContextEmergencyPolicy::Block,
    };
    let block_estimates: Vec<Vec<usize>> = messages.iter().map(|m| vec![1; m.content.len()]).collect();
    let ones = vec![1usize; messages.len()];
    let mut snapshot = context_editor_snapshot(
        "session-page",
        &messages,
        &view,
        &[],
        &block_estimates,
        &ones,
        &ones,
        &Vec::new(),
        0xfeed,
        false,
        "fixture",
        "Fixture",
        "fixture-model",
        "fixture-route",
        100_000,
        3,
    );
    assert_eq!(snapshot.messages[1].blocks.len(), 1);
    assert_eq!(snapshot.messages[1].preview, bounded_message_preview(&messages[1]));
    snapshot.curator_unavailable_reason = Some("no curator route configured".to_string());
    let digest = snapshot.transcript_digest;

    let first = paginate_context_editor_snapshot(snapshot.clone(), 0, 2).expect("first bounded page");
    assert_eq!(first.context_revision, 7);
    assert_eq!(first.transcript_digest, digest);
    assert_eq!(first.raw_message_count, 3);
    assert_eq!(first.message_page_start, 0);
    assert_eq!(first.message_page_end, 2);
    assert_eq!(first.next_message_page_start, Some(2));
    assert!(matches!(first.emergency_policy, StoredContextEmergencyPolicy::Block));
    assert_eq!(first.curator_unavailable_reason.as_deref(), Some("no curator route configured"));
    assert!(first.curator_route.is_none() && first.active_transactions.is_empty());
    assert_eq!(
        first.messages.iter().map(|message| message.message_id.as_str()).collect::<Vec<_>>(),
        vec!["message-1", "message-2"]
    );

    let final_page =
        paginate_context_editor_snapshot(snapshot.clone(), 2, 1).expect("final bounded page");
    assert_eq!(final_page.message_page_start, 2);
    assert_eq!(final_page.message_page_end, 3);
    assert_eq!(final_page.next_message_page_start, None);
    assert_eq!(final_page.messages[0].message_id, "message-3");
    assert_eq!(final_page.messages[0].stored_index, 2);

    let empty_tail = paginate_context_editor_snapshot(snapshot.clone(), 3, 1)
        .expect("page start at raw length is a valid empty tail");
    assert!(empty_tail.messages.is_empty());
    assert_eq!(empty_tail.message_page_start, 3);
    assert_eq!(empty_tail.message_page_end, 3);
    assert_eq!(empty_tail.next_message_page_start, None);

    assert!(paginate_context_editor_snapshot(snapshot.clone(), 4, 1).is_err());
    let zero = paginate_context_editor_snapshot(snapshot.clone(), 0, 0).unwrap_err();
    assert_eq!(zero.0, "context snapshot page size must be between 1 and 500");
    assert!(
        paginate_context_editor_snapshot(snapshot.clone(), 0, CONTEXT_SNAPSHOT_MAX_PAGE_SIZE + 1)
            .is_err()
    );
    let beyond = paginate_context_editor_snapshot(snapshot, 4, 1).unwrap_err();
    assert_eq!(beyond.0, "context snapshot page start 4 exceeds 3 messages");
}

fn detail_messages() -> Vec<StoredMessage> {
    vec![stored(
        "message-detail",
        Role::Assistant,
        vec![
            text("A🙂éZ"),
            ContentBlock::Image {
                media_type: "image/png".to_string(),
                data: "BASE64_SECRET".to_string(),
            },
            ContentBlock::ToolUse {
                id: "tool-1".to_string(),
                name: "read".to_string(),
                input: JsonValue::Object(vec![(
                    "file_path".to_string(),
                    JsonValue::Str("src/lib.rs".to_string()),
                )]),
                thought_signature: Some("THOUGHT_SIGNATURE_SECRET".to_string()),
            },
            ContentBlock::OpenAIReasoning {
                id: "reasoning-1".to_string(),
                summary: vec!["safe summary".to_string()],
                encrypted_content: Some("ENCRYPTED_REASONING_SECRET".to_string()),
                status: Some("completed".to_string()),
            },
            ContentBlock::OpenAICompaction {
                compaction_content: "ENCRYPTED_COMPACTION_SECRET".to_string(),
            },
        ],
    )]
}

fn input<'a>(
    messages: &'a [StoredMessage],
    message_id: &'a str,
    expected_revision: u64,
    expected_digest: u64,
    block_ordinal: usize,
    start_char: usize,
    max_chars: usize,
) -> ContextMessageDetailInput<'a> {
    ContextMessageDetailInput {
        session_id: "session-detail",
        messages,
        context_revision: 9,
        transcript_digest: 42,
        expected_context_revision: expected_revision,
        expected_transcript_digest: expected_digest,
        message_id,
        block_ordinal,
        start_char,
        max_chars,
    }
}

#[test]
fn lazy_detail_chunks_unicode_and_never_exposes_opaque_provider_state() {
    let messages = detail_messages();
    let detail = |block_ordinal, start_char, max_chars| {
        build_context_message_detail(input(
            &messages,
            "message-detail",
            9,
            42,
            block_ordinal,
            start_char,
            max_chars,
        ))
    };

    let unicode = detail(0, 1, 2).expect("Unicode detail chunk");
    assert_eq!(unicode.content.text, "🙂é");
    assert_eq!(unicode.content.start_char, 1);
    assert_eq!(unicode.content.end_char, 3);
    assert_eq!(unicode.content.total_chars, 4);
    assert_eq!(unicode.content.next_start_char, Some(3));

    let image = detail(1, 0, 16).expect("image metadata detail");
    assert_eq!(image.format, ContextMessageDetailFormat::MetadataOnly);
    assert_eq!(image.content.text, "");
    assert_eq!(image.image_media_type.as_deref(), Some("image/png"));
    assert_eq!(image.image_encoded_bytes, Some("BASE64_SECRET".len()));
    assert!(!format!("{:?}", image).contains("BASE64_SECRET"));

    let tool = detail(2, 0, 1_024).expect("tool detail");
    assert_eq!(tool.format, ContextMessageDetailFormat::Json);
    assert!(tool.opaque_signature_present);
    assert!(tool.content.text.contains("src/lib.rs"));
    assert!(!tool.content.text.contains("THOUGHT_SIGNATURE_SECRET"));

    let reasoning = detail(3, 0, 1_024).expect("OpenAI reasoning detail");
    assert_eq!(reasoning.content.text, "safe summary");
    assert!(reasoning.encrypted_state_present);
    assert!(!format!("{:?}", reasoning).contains("ENCRYPTED_REASONING_SECRET"));

    let compaction = detail(4, 0, 16).expect("legacy compaction metadata detail");
    assert_eq!(compaction.format, ContextMessageDetailFormat::MetadataOnly);
    assert!(compaction.encrypted_state_present);
    assert!(!format!("{:?}", compaction).contains("ENCRYPTED_COMPACTION_SECRET"));

    assert!(detail(0, 5, 1).is_err());
    assert!(detail(0, 0, 0).is_err());
    assert!(detail(0, 0, CONTEXT_MESSAGE_DETAIL_MAX_CHARS + 1).is_err());

    let stale_revision = build_context_message_detail(input(&messages, "message-detail", 8, 42, 0, 0, 16))
        .expect_err("revision mismatch must be stale");
    assert!(stale_revision.0.contains("revision changed"));

    let stale_digest = build_context_message_detail(input(&messages, "message-detail", 9, 43, 0, 0, 16))
        .expect_err("digest mismatch must be stale");
    assert!(stale_digest.0.contains("digest changed"));

    let missing_message =
        build_context_message_detail(input(&messages, "missing-message", 9, 42, 0, 0, 16))
            .expect_err("missing stable ID must fail");
    assert!(missing_message.0.contains("not found"));

    let missing_block = detail(99, 0, 16).expect_err("missing block must fail");
    assert!(missing_block.0.contains("no block"));

    let ambiguous_messages = vec![messages[0].clone(), messages[0].clone()];
    let ambiguous =
        build_context_message_detail(input(&ambiguous_messages, "message-detail", 9, 42, 0, 0, 16))
            .expect_err("ambiguous stable ID must fail");
    assert!(ambiguous.0.contains("ambiguous"));
}

#[test]
fn text_chunks_are_character_addressed() {
    let chunk = context_text_chunk("héllo", 1, 3).expect("chunk");
    assert_eq!(chunk.text, "éll");
    assert_eq!(chunk.next_start_char, Some(4));
    let tail = context_text_chunk("héllo", 5, 3).expect("empty tail");
    assert_eq!(tail.text, "");
    assert_eq!(tail.next_start_char, None);
    let error = context_text_chunk("héllo", 6, 3).unwrap_err();
    assert_eq!(error.0, "context detail start 6 exceeds 5 characters");
}

#[test]
fn previews_are_one_line_bounded_and_skip_empty_blocks() {
    let message = stored(
        "m",
        Role::Assistant,
        vec![text("   "), ContentBlock::ToolUse {
            id: "t".to_string(),
            name: "read".to_string(),
            input: JsonValue::Null,
            thought_signature: None,
        }],
    );
    assert_eq!(bounded_message_preview(&message), "[tool: read]");
    let long = stored("n", Role::User, vec![text(&format!("a\nb{}", "x".repeat(400)))]);
    let preview = bounded_message_preview(&long);
    assert!(preview.starts_with("a b"));
    assert_eq!(preview.chars().count(), 321);
    assert!(preview.ends_with('…'));
    let empty = stored("e", Role::User, vec![]);
    assert_eq!(bounded_message_preview(&empty), "(empty)");
    let image = stored("i", Role::User, vec![ContentBlock::Image {
        media_type: "image/png".to_string(),
        data: "abcd".to_string(),
    }]);
    assert_eq!(bounded_message_preview(&image), "[image: image/png, 4 encoded bytes]");
    assert_eq!(non_empty("  x  ").as_deref(), Some("x"));
    assert_eq!(non_empty(" \n "), None);
}
