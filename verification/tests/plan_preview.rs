use context_ledger::curator::{
    ContextCuratorLimits, ContextCuratorRoute, StoredContextCuratorRole, StoredContextCuratorSelectionSource,
};
use context_ledger::evidence::category::PathEvidence;
use context_ledger::evidence::extract::FileEvidence;
use context_ledger::model::{ContentBlock, Role, StoredMessage};
use context_ledger::plan::ContextCuratorTask;
use context_ledger::plan_preview::{curator_plan_preview, curator_task_preview, PreparedTaskFigures};
use context_ledger::scope::{ContextCuratorRangeWork, ContextCuratorSourcePurpose, ContextCuratorTaskKind, ScopedMessage};
use context_ledger::session::StoredMessageRange;

fn message(id: &str) -> StoredMessage {
    StoredMessage {
        id: id.to_string(),
        role: Role::User,
        content: vec![ContentBlock::Text { text: id.to_string() }],
        display_role: None,
        timestamp: None,
    }
}

fn range_task() -> ContextCuratorTask {
    let category = |paths: Vec<&str>| PathEvidence {
        paths: paths.into_iter().map(String::from).collect(),
        complete: true,
        warnings: Vec::new(),
    };
    ContextCuratorTask {
        task_id: "range-1".to_string(),
        role: StoredContextCuratorRole::RangeSummarizer,
        kind: ContextCuratorTaskKind::Range(ContextCuratorRangeWork {
            request_id: "range-1".to_string(),
            source_range: StoredMessageRange {
                start_message_id: "m0".to_string(),
                end_message_id: "m1".to_string(),
                start_index_hint: 0,
                end_index_hint: 1,
                message_count: 2,
            },
            file_evidence: FileEvidence {
                changed: category(vec!["src/lib.rs"]),
                read_or_inspected: category(Vec::new()),
                searched_or_browsed: category(Vec::new()),
            },
            additional_instructions: "keep é".to_string(),
        }),
        system_prompt: "summarize".to_string(),
        response_contract: "{}".to_string(),
        scope: vec![
            ScopedMessage { purpose: ContextCuratorSourcePurpose::PrimaryRange, message_index: 0, block_ordinals: Vec::new(), includes_all_blocks: true },
            ScopedMessage { purpose: ContextCuratorSourcePurpose::PrimaryRange, message_index: 1, block_ordinals: Vec::new(), includes_all_blocks: true },
        ],
        active_summary_texts: vec!["earlier".to_string()],
    }
}

#[test]
fn plan_previews_disclose_each_task_and_the_route_without_a_fingerprint() {
    let messages = vec![message("m0"), message("m1")];
    let limits = ContextCuratorLimits::default();
    let prepared = PreparedTaskFigures { estimated_input_tokens: 120, safe_input_budget: 90_000, request_bytes: 2_048, image_count: 0 };
    let task = curator_task_preview(&messages, &range_task(), "be brief", prepared, limits);
    assert_eq!(task.task_id, "range-1");
    assert_eq!(task.role, StoredContextCuratorRole::RangeSummarizer);
    assert_eq!(task.effective_system_prompt, "summarize");
    assert_eq!(task.request_bytes, 2_048);
    assert_eq!(task.request_byte_limit, 32 * 1024 * 1024);
    assert_eq!(task.source_scope.len(), 3);
    assert_eq!(task.source_scope[1].message_id.as_deref(), Some("m1"));
    assert_eq!(task.source_scope[2].message_id, None);
    assert_eq!(task.file_evidence.as_ref().unwrap().changed.paths, vec!["src/lib.rs".to_string()]);
    assert_eq!(task.user_instructions.transaction_wide_chars, 8);
    assert_eq!(task.user_instructions.task_specific_chars, 6);
    assert!(task.target_label.starts_with("range 0.."));

    let route = ContextCuratorRoute {
        provider_name: "curator".to_string(),
        provider_display_name: "Curator".to_string(),
        model: "curator-model".to_string(),
        route: "curator-route".to_string(),
        effort: Some("low".to_string()),
    };
    let plan = curator_plan_preview("session", 4, 77, &route, StoredContextCuratorSelectionSource::ConfiguredDefault, vec![task]);
    assert_eq!(plan.session_id, "session");
    assert_eq!(plan.context_revision, 4);
    assert_eq!(plan.transcript_digest, 77);
    assert_eq!(plan.route.model, "curator-model");
    assert_eq!(plan.route.effort.as_deref(), Some("low"));
    assert!(plan.using_configured_default);
    assert_eq!(plan.tasks.len(), 1);
    assert!(plan.fingerprint.is_empty());
}
