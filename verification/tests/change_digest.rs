use context_ledger::evidence::category::{
    CategoryAccumulator, STORED_CONTEXT_EVIDENCE_MAX_PATHS_PER_CATEGORY,
    STORED_CONTEXT_EVIDENCE_MAX_PATH_CHARS, STORED_CONTEXT_EVIDENCE_MAX_WARNINGS_PER_CATEGORY,
};
use context_ledger::evidence::extract::{
    extract_context_file_evidence, FileEvidence, MessageRangeResolutionError,
};
use context_ledger::evidence::inspect::{inspect_batch, FileEvidenceAccumulator, MAX_BATCH_NESTING};
use context_ledger::evidence::paths::normalize_path;
use context_ledger::model::{ContentBlock, JsonValue, Role, StoredMessage};

fn s(value: &str) -> JsonValue {
    JsonValue::Str(value.to_string())
}

fn obj(entries: Vec<(&str, JsonValue)>) -> JsonValue {
    JsonValue::Object(entries.into_iter().map(|(k, v)| (k.to_string(), v)).collect())
}

fn arr(items: Vec<JsonValue>) -> JsonValue {
    JsonValue::Array(items)
}

fn stored(id: String, role: Role, content: Vec<ContentBlock>) -> StoredMessage {
    StoredMessage { id, role, content, display_role: None, timestamp: None }
}

fn tool_use_only(id: &str, name: &str, input: JsonValue) -> StoredMessage {
    stored(
        format!("use-{id}"),
        Role::Assistant,
        vec![ContentBlock::ToolUse {
            id: format!("call-{id}"),
            name: name.to_string(),
            input,
            thought_signature: None,
        }],
    )
}

fn tool_pair(
    id: &str,
    name: &str,
    input: JsonValue,
    output: &str,
    is_error: Option<bool>,
) -> Vec<StoredMessage> {
    vec![
        tool_use_only(id, name, input),
        stored(
            format!("result-{id}"),
            Role::User,
            vec![ContentBlock::ToolResult {
                tool_use_id: format!("call-{id}"),
                content: output.to_string(),
                is_error,
            }],
        ),
    ]
}

fn evidence(messages: &Vec<StoredMessage>) -> FileEvidence {
    extract_context_file_evidence(messages, 0, messages.len() - 1).expect("evidence")
}

#[test]
fn successful_structured_tools_keep_changed_read_and_searched_categories_distinct() {
    let mut messages = Vec::new();
    messages.extend(tool_pair(
        "write",
        "write",
        obj(vec![("file_path", s("./src/lib.rs")), ("content", s("x"))]),
        "wrote file",
        None,
    ));
    messages.extend(tool_pair(
        "read",
        "read",
        obj(vec![("file_path", s("src/../src/lib.rs"))]),
        "file contents",
        None,
    ));
    messages.extend(tool_pair(
        "grep",
        "agentgrep",
        obj(vec![("mode", s("grep")), ("path", s("src")), ("query", s("Parser"))]),
        "matches",
        None,
    ));
    messages.extend(tool_pair(
        "outline",
        "agentgrep",
        obj(vec![("mode", s("outline")), ("file", s("src/parser.rs"))]),
        "outline",
        None,
    ));
    messages.extend(tool_pair("ls", "ls", obj(vec![("path", s("tests"))]), "entries", None));
    messages.extend(tool_pair(
        "browser",
        "browser",
        obj(vec![("action", s("open")), ("url", s("https://example.test/docs"))]),
        "opened",
        None,
    ));
    messages.extend(tool_pair(
        "browser-upload",
        "browser",
        obj(vec![("action", s("upload")), ("path", s("fixtures/input.png"))]),
        "uploaded",
        None,
    ));
    messages.extend(tool_pair(
        "open",
        "open",
        obj(vec![("action", s("open")), ("target", s("docs/README.md"))]),
        "opened",
        None,
    ));
    messages.extend(tool_pair(
        "webfetch",
        "webfetch",
        obj(vec![("url", s("https://example.test/api"))]),
        "fetched",
        None,
    ));

    let evidence = evidence(&messages);
    assert_eq!(evidence.changed.paths, ["src/lib.rs"]);
    assert_eq!(evidence.read_or_inspected.paths, ["src/lib.rs", "src/parser.rs"]);
    assert_eq!(
        evidence.searched_or_browsed.paths,
        [
            "docs/README.md",
            "fixtures/input.png",
            "https://example.test/api",
            "https://example.test/docs",
            "src",
            "src/parser.rs",
            "tests",
        ]
    );
    assert!(evidence.changed.complete);
    assert!(evidence.read_or_inspected.complete);
    assert!(evidence.searched_or_browsed.complete);
}

#[test]
fn search_never_implies_read_and_outline_is_explicit_inspection() {
    let mut messages = tool_pair(
        "grep",
        "grep",
        obj(vec![("path", s("crates")), ("query", s("needle"))]),
        "matches",
        None,
    );
    messages.extend(tool_pair(
        "outline",
        "agentgrep",
        obj(vec![("mode", s("outline")), ("file_path", s("src/lib.rs"))]),
        "symbols",
        None,
    ));

    let evidence = evidence(&messages);
    assert_eq!(evidence.read_or_inspected.paths, ["src/lib.rs"]);
    assert_eq!(evidence.searched_or_browsed.paths, ["crates", "src/lib.rs"]);
    assert!(!evidence.read_or_inspected.paths.contains(&"crates".to_string()));
}

#[test]
fn failed_missing_and_duplicate_results_never_create_false_success_evidence() {
    let mut messages = tool_pair(
        "failed-write",
        "write",
        obj(vec![("file_path", s("failed.rs"))]),
        "permission denied",
        Some(true),
    );
    messages.push(tool_use_only("missing-read", "read", obj(vec![("file_path", s("missing.rs"))])));
    messages.push(tool_use_only("duplicate-ls", "ls", obj(vec![("path", s("duplicate"))])));
    for suffix in ["a", "b"] {
        messages.push(stored(
            format!("duplicate-result-{suffix}"),
            Role::User,
            vec![ContentBlock::ToolResult {
                tool_use_id: "call-duplicate-ls".to_string(),
                content: "entries".to_string(),
                is_error: None,
            }],
        ));
    }

    let evidence = evidence(&messages);
    assert!(evidence.changed.paths.is_empty());
    assert!(evidence.read_or_inspected.paths.is_empty());
    assert!(evidence.searched_or_browsed.paths.is_empty());
    assert!(!evidence.changed.complete);
    assert!(!evidence.read_or_inspected.complete);
    assert!(!evidence.searched_or_browsed.complete);
    assert!(evidence.changed.warnings[0].contains("returned an error"));
    assert!(evidence
        .read_or_inspected
        .warnings
        .iter()
        .any(|warning| warning.contains("no matching result")));
    assert!(evidence
        .searched_or_browsed
        .warnings
        .iter()
        .any(|warning| warning.contains("multiple matching results")));
}

#[test]
fn batch_uses_per_subcall_outcomes_and_preserves_category_semantics() {
    let output = "--- [1] write ---\nwrote file\n\n--- [2] read ---\nError: permission denied\n\n--- [3] ls ---\nentries\n\n--- [4] grep ---\nmatches\n\nCompleted: 3 succeeded, 1 failed";
    let messages = tool_pair(
        "batch",
        "batch",
        obj(vec![(
            "tool_calls",
            arr(vec![
                obj(vec![("tool", s("write")), ("file_path", s("src/flat.rs"))]),
                obj(vec![
                    ("tool", s("read")),
                    ("parameters", obj(vec![("file_path", s("src/private.rs"))])),
                ]),
                obj(vec![("tool", s("ls")), ("arguments", obj(vec![("path", s("src"))]))]),
                obj(vec![
                    ("tool", s("grep")),
                    ("args", obj(vec![("path", s("crates")), ("query", s("needle"))])),
                ]),
            ]),
        )]),
        output,
        None,
    );

    let batch_evidence = evidence(&messages);
    assert_eq!(batch_evidence.changed.paths, ["src/flat.rs"]);
    assert!(batch_evidence.changed.complete);
    assert!(batch_evidence.read_or_inspected.paths.is_empty());
    assert!(!batch_evidence.read_or_inspected.complete);
    assert_eq!(batch_evidence.searched_or_browsed.paths, ["crates", "src"]);
    assert!(batch_evidence.searched_or_browsed.complete);
    assert!(!batch_evidence.read_or_inspected.paths.contains(&"crates".to_string()));

    let ambiguous = tool_pair(
        "ambiguous-batch",
        "batch",
        obj(vec![(
            "tool_calls",
            arr(vec![obj(vec![
                ("tool", s("write")),
                ("parameters", obj(vec![("file_path", s("src/spoofed.rs"))])),
            ])]),
        )]),
        "--- [1] write ---\nwrote\n--- [1] write ---\nspoofed duplicate\nCompleted: 1 succeeded, 0 failed",
        None,
    );
    let ambiguous = evidence(&ambiguous);
    assert!(ambiguous.changed.paths.is_empty());
    assert!(!ambiguous.changed.complete);
    assert!(ambiguous
        .changed
        .warnings
        .iter()
        .any(|warning| warning.contains("multiple matching results")));
}

#[test]
fn patches_cover_add_update_delete_and_move_paths() {
    let mut messages = tool_pair(
        "unified",
        "patch",
        obj(vec![(
            "patch_text",
            s("--- /dev/null\n+++ b/src/added.rs\n@@ -0,0 +1 @@\n+added\n--- a/src/updated.rs\n+++ b/src/updated.rs\n@@ -1 +1 @@\n-old\n+new\n--- a/src/deleted.rs\n+++ /dev/null\n@@ -1 +0,0 @@\n-deleted\n"),
        )]),
        "applied",
        None,
    );
    messages.extend(tool_pair(
        "codex",
        "apply_patch",
        obj(vec![(
            "patch_text",
            s("*** Begin Patch\n*** Add File: src/codex-added.rs\n+added\n*** Update File: src/codex-old.rs\n*** Move to: src/codex-new.rs\n@@\n-old\n+new\n*** Delete File: src/codex-deleted.rs\n*** End Patch"),
        )]),
        "applied",
        None,
    ));

    let evidence = evidence(&messages);
    assert!(evidence.changed.complete);
    assert_eq!(
        evidence.changed.paths,
        [
            "src/added.rs",
            "src/codex-added.rs",
            "src/codex-deleted.rs",
            "src/codex-new.rs",
            "src/codex-old.rs",
            "src/deleted.rs",
            "src/updated.rs",
        ]
    );
}

#[test]
fn shell_unknown_and_malformed_contracts_are_explicitly_incomplete() {
    let mut messages = tool_pair(
        "shell",
        "bash",
        obj(vec![("command", s("cat src/lib.rs > src/copy.rs"))]),
        "done",
        None,
    );
    messages.extend(tool_pair(
        "unknown",
        "custom_mutator",
        obj(vec![("file_path", s("unknown.rs"))]),
        "done",
        None,
    ));
    messages.extend(tool_pair(
        "bad-patch",
        "patch",
        obj(vec![("patch_text", s("--- a/src/lib.rs\nmissing plus header"))]),
        "done",
        None,
    ));

    let evidence = evidence(&messages);
    assert!(evidence.changed.paths.is_empty());
    assert!(!evidence.changed.complete);
    assert!(!evidence.read_or_inspected.complete);
    assert!(!evidence.searched_or_browsed.complete);
    assert!(evidence.changed.warnings.iter().any(|warning| warning.contains("shell commands")));
    assert!(evidence.changed.warnings.iter().any(|warning| warning.contains("custom_mutator")));
    assert!(evidence
        .changed
        .warnings
        .iter()
        .any(|warning| warning.contains("no parseable file paths")));
}

#[test]
fn evidence_never_uses_tool_calls_or_results_outside_the_selected_range() {
    let mut messages =
        tool_pair("outside", "write", obj(vec![("file_path", s("outside.rs"))]), "wrote", None);
    let inside_start = messages.len();
    messages.extend(tool_pair(
        "inside",
        "read",
        obj(vec![("file_path", s("inside.rs"))]),
        "contents",
        None,
    ));
    let inside_end = messages.len() - 1;
    let evidence =
        extract_context_file_evidence(&messages, inside_start, inside_end).expect("evidence");
    assert!(evidence.changed.paths.is_empty());
    assert_eq!(evidence.read_or_inspected.paths, ["inside.rs"]);
}

#[test]
fn the_same_selected_messages_give_the_same_evidence_whatever_surrounds_them() {
    let inside = || {
        let mut m = tool_pair("a", "read", obj(vec![("file_path", s("src/b.rs"))]), "contents", None);
        m.extend(tool_pair("c", "write", obj(vec![("file_path", s("src/a.rs"))]), "wrote", None));
        m
    };
    let alone = inside();
    let mut surrounded =
        tool_pair("before", "write", obj(vec![("file_path", s("outside.rs"))]), "wrote", None);
    let start = surrounded.len();
    surrounded.extend(inside());
    let end = surrounded.len() - 1;
    surrounded.extend(tool_pair("after", "read", obj(vec![("file_path", s("late.rs"))]), "x", None));
    let a = extract_context_file_evidence(&alone, 0, alone.len() - 1).expect("evidence");
    let b = extract_context_file_evidence(&surrounded, start, end).expect("evidence");
    assert_eq!(a.changed.paths, b.changed.paths);
    assert_eq!(a.changed.warnings, b.changed.warnings);
    assert_eq!(a.changed.complete, b.changed.complete);
    assert_eq!(a.read_or_inspected.paths, b.read_or_inspected.paths);
    assert_eq!(a.searched_or_browsed.paths, b.searched_or_browsed.paths);
    assert_eq!(b.changed.paths, ["src/a.rs"]);
    assert_eq!(b.read_or_inspected.paths, ["src/b.rs"]);
}

#[test]
fn every_batch_parameter_shape_is_supported_and_malformed_nesting_is_bounded() {
    let mut excessive = obj(vec![(
        "tool_calls",
        arr(vec![obj(vec![
            ("tool", s("write")),
            ("parameters", obj(vec![("file_path", s("src/too-deep.rs"))])),
        ])]),
    )]);
    for _ in 0..=MAX_BATCH_NESTING {
        excessive = obj(vec![(
            "tool_calls",
            arr(vec![obj(vec![("tool", s("batch")), ("input", excessive)])]),
        )]);
    }
    let output = "--- [1] write ---\nok\n\n--- [2] write ---\nok\n\n--- [3] edit ---\nok\n\n--- [4] multiedit ---\nok\n\n--- [5] write ---\nok\n\n--- [6] batch ---\nmissing nested execution detail\n\nCompleted: 6 succeeded, 0 failed";
    let messages = tool_pair(
        "batch-shapes",
        "batch",
        obj(vec![(
            "tool_calls",
            arr(vec![
                obj(vec![("tool", s("write")), ("file_path", s("src/flat.rs"))]),
                obj(vec![
                    ("tool", s("write")),
                    ("parameters", obj(vec![("file_path", s("src/parameters.rs"))])),
                ]),
                obj(vec![
                    ("name", s("edit")),
                    ("arguments", obj(vec![("file_path", s("src/arguments.rs"))])),
                ]),
                obj(vec![
                    ("tool", s("multiedit")),
                    ("args", obj(vec![("file_path", s("src/args.rs"))])),
                ]),
                obj(vec![
                    ("tool", s("write")),
                    ("input", obj(vec![("file_path", s("src/input.rs"))])),
                ]),
                obj(vec![("tool", s("batch")), ("parameters", excessive.clone())]),
                JsonValue::Number(serde_json::Number::from(7)),
                obj(vec![("parameters", obj(vec![("file_path", s("src/missing-name.rs"))]))]),
            ]),
        )]),
        output,
        None,
    );

    let evidence = evidence(&messages);
    assert_eq!(
        evidence.changed.paths,
        ["src/args.rs", "src/arguments.rs", "src/flat.rs", "src/input.rs", "src/parameters.rs"]
    );
    assert!(!evidence.changed.complete);
    assert!(evidence.changed.warnings.iter().any(|warning| warning.contains("non-object")));
    assert!(evidence
        .changed
        .warnings
        .iter()
        .any(|warning| warning.contains("without a tool name")));
    let mut bounded = FileEvidenceAccumulator::complete();
    inspect_batch(&excessive, "", MAX_BATCH_NESTING, &mut bounded);
    let bounded = bounded.finish();
    assert!(bounded.changed.warnings.iter().any(|warning| warning.contains("nesting exceeded")));
}

#[test]
fn path_normalization_preserves_absolute_parent_windows_and_url_semantics() {
    let mut messages = tool_pair(
        "absolute",
        "write",
        obj(vec![("file_path", s("/Users/test/../project/./src/lib.rs"))]),
        "wrote",
        None,
    );
    messages.extend(tool_pair(
        "parent",
        "edit",
        obj(vec![("file_path", s("../../src/../lib.rs"))]),
        "edited",
        None,
    ));
    messages.extend(tool_pair(
        "windows-drive",
        "write",
        obj(vec![("file_path", s(r"C:\Users\test\..\project\src\lib.rs"))]),
        "wrote",
        None,
    ));
    messages.extend(tool_pair(
        "windows-unc",
        "write",
        obj(vec![("file_path", s(r"\\server\share\directory\..\file.rs"))]),
        "wrote",
        None,
    ));
    messages.extend(tool_pair(
        "url",
        "webfetch",
        obj(vec![("url", s("https://example.test/a/../b"))]),
        "fetched",
        None,
    ));
    messages.extend(tool_pair("empty", "read", obj(vec![("file_path", s("   "))]), "contents", None));

    let evidence = evidence(&messages);
    assert_eq!(
        evidence.changed.paths,
        [
            "../../lib.rs",
            "//server/share/file.rs",
            "/Users/project/src/lib.rs",
            "C:/Users/project/src/lib.rs",
        ]
    );
    assert_eq!(evidence.searched_or_browsed.paths, ["https://example.test/a/../b"]);
    assert!(!evidence.read_or_inspected.complete);
    assert!(evidence
        .read_or_inspected
        .warnings
        .iter()
        .any(|warning| warning.contains("empty or unusable")));
}

#[test]
fn persisted_path_and_warning_provenance_is_bounded_without_false_completeness() {
    let mut category = CategoryAccumulator::complete();
    for index in 0..STORED_CONTEXT_EVIDENCE_MAX_PATHS_PER_CATEGORY + 3 {
        category.insert_path(&format!("src/generated/{index}.rs"), "write");
    }
    category.insert_locator(
        &format!("https://example.test/{}", "x".repeat(STORED_CONTEXT_EVIDENCE_MAX_PATH_CHARS + 1)),
        "browser",
    );
    for index in 0..STORED_CONTEXT_EVIDENCE_MAX_WARNINGS_PER_CATEGORY + 5 {
        category.mark_incomplete(&format!("warning {index}"));
    }
    let evidence = category.finish();
    assert_eq!(evidence.paths.len(), STORED_CONTEXT_EVIDENCE_MAX_PATHS_PER_CATEGORY);
    assert!(!evidence.complete);
    assert!(evidence.warnings.len() <= STORED_CONTEXT_EVIDENCE_MAX_WARNINGS_PER_CATEGORY);
    assert!(evidence
        .warnings
        .iter()
        .any(|warning| warning.contains("3 additional evidence path(s) were omitted")));
    assert!(evidence
        .warnings
        .iter()
        .any(|warning| warning.contains("additional evidence warning(s) were omitted")));
    assert!(evidence
        .warnings
        .iter()
        .any(|warning| warning.contains("longer than the persisted evidence limit")));
}

#[test]
fn reversed_or_out_of_bounds_ranges_are_refused() {
    let messages = tool_pair("x", "read", obj(vec![("file_path", s("a.rs"))]), "ok", None);
    assert!(matches!(
        extract_context_file_evidence(&messages, 1, 0),
        Err(MessageRangeResolutionError::Reversed)
    ));
    assert!(matches!(
        extract_context_file_evidence(&messages, 0, 2),
        Err(MessageRangeResolutionError::OutOfBounds)
    ));
}

#[test]
fn normalization_examples() {
    assert_eq!(normalize_path("  ./a/./b/../c  ").as_deref(), Some("a/c"));
    assert_eq!(normalize_path("/..").as_deref(), Some("/"));
    assert_eq!(normalize_path("   "), None);
    assert_eq!(normalize_path(".").as_deref(), None);
}

#[test]
fn unsuccessful_outline_marks_both_search_and_read_categories() {
    let messages = tool_pair(
        "outline",
        "agentgrep",
        obj(vec![("mode", s("Outline")), ("file", s("src/x.rs"))]),
        "boom",
        Some(true),
    );
    let evidence = evidence(&messages);
    assert!(evidence.read_or_inspected.paths.is_empty());
    assert!(evidence.searched_or_browsed.paths.is_empty());
    assert!(!evidence.read_or_inspected.complete);
    assert!(!evidence.searched_or_browsed.complete);
    assert!(evidence.changed.complete);
}

#[test]
fn whitespace_classification_matches_std_for_every_char() {
    for n in 0u32..=0x10FFFF {
        if let Some(c) = char::from_u32(n) {
            assert_eq!(context_ledger::text::is_whitespace(c), c.is_whitespace(), "U+{n:04X}");
        }
    }
}
