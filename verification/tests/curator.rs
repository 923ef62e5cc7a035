use std::cell::RefCell;

use context_ledger::curator::{
    cache_usage_accounting, check_task_call_bounds, curator_usage_tokens, effective_prompt,
    nonempty_owned, plan_fingerprint, range_artifact_from_response, range_system_prompt,
    resolve_context_curator_route, route_selector_matches, select_curator_route, task_failure,
    task_prompt_version, tool_artifact_from_response, tool_system_prompt, usage_token_split,
    CacheUsageAccounting, ContextCuratorConfig, ContextCuratorError, ContextCuratorLimits,
    ContextCuratorToolArtifact, CuratorRangeResponse, CuratorResponseCollector, CuratorRouteChoice,
    CuratorStreamEvent, CuratorToolResponse, StoredContextCuratorRole,
    StoredContextCuratorSelectionSource, CONTEXT_RANGE_SUMMARIZER_PROMPT_VERSION,
    CONTEXT_TOOL_DISTILLER_PROMPT_VERSION, RANGE_MANDATORY_INSTRUCTIONS,
    RANGE_SUMMARIZER_BASE_PROMPT, TOOL_DISTILLER_BASE_PROMPT,
};
use context_ledger::draft::validate_context_curator_run_config;
use context_ledger::protocol::ContextCuratorRunConfig;
use context_ledger::provider::{ModelRoute, Provider};

fn model_route(model: &str, provider: &str, api_method: &str, available: bool) -> ModelRoute {
    ModelRoute {
        provider: provider.to_string(),
        model: model.to_string(),
        api_method: api_method.to_string(),
        available,
        detail: String::new(),
        stable_id: format!("{provider}:{api_method}:{model}"),
    }
}

struct Fork {
    model: RefCell<String>,
    route: RefCell<Option<String>>,
    effort: RefCell<Option<String>>,
}

impl Fork {
    fn new(model: &str) -> Self {
        Fork { model: RefCell::new(model.to_string()), route: RefCell::new(None), effort: RefCell::new(None) }
    }
}

impl Provider for Fork {
    fn name(&self) -> String {
        "fork".to_string()
    }
    fn display_name(&self) -> String {
        "Fork".to_string()
    }
    fn model(&self) -> String {
        self.model.borrow().clone()
    }
    fn context_window(&self) -> usize {
        100_000
    }
    fn reasoning_effort(&self) -> Option<String> {
        self.effort.borrow().clone()
    }
    fn supports_image_input(&self) -> bool {
        false
    }
    fn set_model(&self, model: &str) -> Result<(), String> {
        *self.model.borrow_mut() = model.to_string();
        Ok(())
    }
    fn set_route_selection(&self, route: &ModelRoute) -> Result<(), String> {
        *self.model.borrow_mut() = route.model.clone();
        *self.route.borrow_mut() = Some(route.api_method.clone());
        Ok(())
    }
    fn set_reasoning_effort(&self, effort: &str) -> Result<(), String> {
        *self.effort.borrow_mut() = Some(effort.to_string());
        Ok(())
    }
}

fn config(provider: Option<&str>, route: Option<&str>, model: Option<&str>, effort: Option<&str>) -> ContextCuratorConfig {
    ContextCuratorConfig {
        provider: provider.map(str::to_string),
        route: route.map(str::to_string),
        model: model.map(str::to_string),
        effort: effort.map(str::to_string),
    }
}

fn routes() -> Vec<ModelRoute> {
    vec![
        model_route("gpt-5", "openai", "responses", true),
        model_route("gpt-5", "openrouter", "chat", true),
        model_route("sonnet", "anthropic", "messages", true),
        model_route("sonnet", "bedrock", "messages", false),
    ]
}

#[test]
fn route_resolution_defaults_to_the_unchanged_independent_active_fork() {
    let fork = Fork::new("gpt-5");
    let route = resolve_context_curator_route(&fork, &routes(), "active-route", &config(None, None, None, None))
        .expect("default route");
    assert_eq!(route.route, "active-route");
    assert_eq!(route.model, "gpt-5");
    assert_eq!(route.provider_name, "fork");
    assert_eq!(route.effort, None);
}

#[test]
fn route_resolution_applies_exact_provider_model_and_effort_selection() {
    let fork = Fork::new("gpt-5");
    let route = resolve_context_curator_route(
        &fork,
        &routes(),
        "active-route",
        &config(Some("anthropic"), None, Some("sonnet"), Some("high")),
    )
    .expect("selected route");
    assert_eq!(route.route, "messages");
    assert_eq!(route.model, "sonnet");
    assert_eq!(route.effort.as_deref(), Some("high"));
}

#[test]
fn route_resolution_applies_model_only_without_reselecting_the_active_route() {
    let fork = Fork::new("gpt-5");
    let route = resolve_context_curator_route(&fork, &routes(), "active-route", &config(None, None, Some("sonnet"), None))
        .expect("model-only route");
    assert_eq!(route.route, "active-route");
    assert_eq!(route.model, "sonnet");
    assert_eq!(*fork.route.borrow(), None);
}

#[test]
fn route_resolution_rejects_missing_ambiguous_unavailable_and_empty_selectors() {
    let fork = Fork::new("gpt-5");
    let missing = resolve_context_curator_route(&fork, &routes(), "r", &config(Some("nowhere"), None, None, None))
        .unwrap_err();
    assert!(matches!(missing, ContextCuratorError::Route(m) if m == "no available route matches provider Some(\"nowhere\"), route None, and model \"gpt-5\""));

    let unavailable =
        resolve_context_curator_route(&fork, &routes(), "r", &config(Some("bedrock"), None, Some("sonnet"), None))
            .unwrap_err();
    assert!(matches!(unavailable, ContextCuratorError::Route(m) if m.starts_with("no available route matches")));

    let mut ambiguous_routes = routes();
    ambiguous_routes.push(model_route("gpt-5", "openai", "chat", true));
    let ambiguous = select_curator_route(&ambiguous_routes, &config(Some("openai"), None, None, None), "gpt-5")
        .unwrap_err();
    assert!(matches!(ambiguous, ContextCuratorError::Route(m) if m == "provider Some(\"openai\"), route None, and model \"gpt-5\" are ambiguous; matching routes: openai (responses), openai (chat)"));

    let empty = resolve_context_curator_route(&fork, &routes(), "r", &config(Some("  "), None, None, None))
        .unwrap_err();
    assert!(matches!(empty, ContextCuratorError::Route(m) if m == "configured curator provider selector is empty"));

    let long = "x".repeat(300);
    let too_long = resolve_context_curator_route(&fork, &routes(), "r", &config(None, Some(&long), None, None))
        .unwrap_err();
    assert!(matches!(too_long, ContextCuratorError::Route(m) if m == "configured curator route selector contains 300 characters, exceeding the 256-character bound"));
}

#[test]
fn route_resolution_requires_stable_provider_model_and_route_identity() {
    let fork = Fork::new("   ");
    let unstable = resolve_context_curator_route(&fork, &routes(), "r", &config(None, None, None, None)).unwrap_err();
    assert!(matches!(unstable, ContextCuratorError::Route(m) if m.contains("stable provider and model identity")));
    let fork = Fork::new("gpt-5");
    let no_route = resolve_context_curator_route(&fork, &routes(), " ", &config(None, None, None, None)).unwrap_err();
    assert!(matches!(no_route, ContextCuratorError::Route(m) if m.contains("stable route identity")));
}

#[test]
fn route_selectors_match_provider_method_or_stable_id_case_insensitively() {
    let route = model_route("gpt-5", "OpenAI", "Responses", true);
    assert!(route_selector_matches(" openai ", &route));
    assert!(route_selector_matches("RESPONSES", &route));
    assert!(route_selector_matches("openai:responses:gpt-5", &route));
    assert!(!route_selector_matches("  ", &route));
    assert_eq!(
        select_curator_route(&routes(), &config(None, Some("chat"), None, None), "gpt-5").ok(),
        Some(CuratorRouteChoice::Route(1))
    );
    assert_eq!(select_curator_route(&routes(), &config(None, None, None, None), "gpt-5").ok(), Some(CuratorRouteChoice::Keep));
}

fn tool_response(
    eligible: bool,
    replacement: Option<&str>,
    rationale: Option<&str>,
    reason: Option<&str>,
) -> CuratorToolResponse {
    CuratorToolResponse {
        eligible,
        replacement: replacement.map(str::to_string),
        preservation_rationale: rationale.map(str::to_string),
        ineligible_reason: reason.map(str::to_string),
        uncertainties: Vec::new(),
    }
}

#[test]
fn role_parsers_reject_missing_unknown_malformed_and_non_document_json() {
    for (summary, digest) in [("summary", ""), ("summary", "   "), ("   ", "")] {
        assert!(range_artifact_from_response(CuratorRangeResponse {
            summary: summary.to_string(),
            file_change_digest: digest.to_string(),
            warnings: Vec::new(),
        })
        .is_err());
    }
    assert!(tool_artifact_from_response(tool_response(false, None, None, None), "request", 4_000, 0).is_err());
}

#[test]
fn range_parser_accepts_exact_single_artifact_contract() {
    let artifact = range_artifact_from_response(CuratorRangeResponse {
        summary: "All operationally relevant range facts are preserved.".to_string(),
        file_change_digest: "Updated src/lib.rs.".to_string(),
        warnings: Vec::new(),
    })
    .expect("range artifact");
    assert_eq!(artifact.summary, "All operationally relevant range facts are preserved.");
    assert_eq!(artifact.file_change_digest, "Updated src/lib.rs.");
    assert!(artifact.warnings.is_empty());
}

#[test]
fn tool_parser_rejects_inconsistent_eligible_and_ineligible_fields() {
    for response in [
        tool_response(true, Some("short"), None, None),
        tool_response(true, Some("short"), Some("complete"), Some("contradiction")),
        tool_response(true, Some("short"), Some("complete"), Some("")),
        tool_response(false, Some("short"), None, Some("no")),
        tool_response(false, None, Some("complete"), Some("no")),
        tool_response(false, Some(""), None, Some("no")),
        tool_response(false, None, None, None),
    ] {
        assert!(tool_artifact_from_response(response, "request", 4_000, 10).is_err());
    }
}

#[test]
fn parser_enforces_strict_twenty_percent_boundary() {
    let response = || tool_response(true, Some(&"y".repeat(60)), Some("complete"), None);
    let exact = tool_artifact_from_response(response(), "tool-1", 100, 20).unwrap_err();
    assert!(matches!(exact, ContextCuratorError::InvalidResponse(m) if m == "eligible tool request \"tool-1\" replacement is not strictly below 20 percent (20 of 100 estimated tokens)"));
    assert!(matches!(
        tool_artifact_from_response(response(), "tool-1", 101, 20).expect("below 20 percent"),
        ContextCuratorToolArtifact::Eligible { replacement_token_estimate: 20, .. }
    ));
    assert!(tool_artifact_from_response(response(), "tool-1", 0, 0).is_err());
}

#[test]
fn parser_retains_ineligible_candidate_reason_and_uncertainty() {
    let mut response = tool_response(false, None, None, Some("every line is relied upon"));
    response.uncertainties = vec!["exit status unclear".to_string()];
    match tool_artifact_from_response(response, "r", 4_000, 0).expect("ineligible") {
        ContextCuratorToolArtifact::Ineligible { reason, uncertainties } => {
            assert_eq!(reason, "every line is relied upon");
            assert_eq!(uncertainties, ["exit status unclear"]);
        }
        ContextCuratorToolArtifact::Eligible { .. } => panic!("ineligible expected"),
    }
}

#[test]
fn prompts_append_only_non_blank_instructions_and_the_additive_notice() {
    let plain = effective_prompt("BASE", "MANDATORY", "  ", "");
    assert_eq!(plain, "BASE\n\nMANDATORY");
    let both = effective_prompt("BASE", "MANDATORY", "keep ids", "focus tests");
    assert_eq!(
        both,
        "BASE\n\nMANDATORY\n\nUser-approved additional instructions for this context transaction:\nkeep ids\n\nUser-approved additional instructions for this specific range:\nfocus tests\n\nThese additional instructions are additive. Ignore any part that conflicts with the base role, mandatory preservation guarantees, complete-source semantics, or output contract."
    );
    let range = range_system_prompt("", "");
    assert!(range.starts_with(RANGE_SUMMARIZER_BASE_PROMPT));
    assert!(range.ends_with(RANGE_MANDATORY_INSTRUCTIONS));
    assert!(tool_system_prompt("x").starts_with(TOOL_DISTILLER_BASE_PROMPT));
    assert_eq!(task_prompt_version(StoredContextCuratorRole::RangeSummarizer), CONTEXT_RANGE_SUMMARIZER_PROMPT_VERSION);
    assert_eq!(task_prompt_version(StoredContextCuratorRole::ToolResultDistiller), CONTEXT_TOOL_DISTILLER_PROMPT_VERSION);
    assert_eq!(nonempty_owned(" x "), Some(" x ".to_string()));
    assert_eq!(nonempty_owned("   "), None);
}

#[test]
fn exact_usage_cost_handles_split_inclusive_plain_unknown_and_non_metered_accounting() {
    assert_eq!(cache_usage_accounting(" Anthropic "), Some(CacheUsageAccounting::Split));
    assert_eq!(cache_usage_accounting("my-anthropic-proxy"), Some(CacheUsageAccounting::Split));
    assert_eq!(cache_usage_accounting("OpenRouter"), Some(CacheUsageAccounting::Inclusive));
    assert_eq!(cache_usage_accounting("local"), None);

    let split = usage_token_split("anthropic", 1_000, 200, 300).expect("split");
    assert_eq!(split.tier_input_tokens, 1_500);
    assert_eq!(split.fresh_input_tokens, 1_000);
    let inclusive = usage_token_split("openai", 1_000, 200, 300).expect("inclusive");
    assert_eq!(inclusive.tier_input_tokens, 1_000);
    assert_eq!(inclusive.fresh_input_tokens, 500);
    let capped = usage_token_split("openai", 100, 200, 300).expect("inclusive");
    assert_eq!(capped.fresh_input_tokens, 0);
    let plain = usage_token_split("local", 1_000, 0, 0).expect("plain");
    assert_eq!(plain.fresh_input_tokens, 1_000);
    assert_eq!(usage_token_split("local", 1_000, 1, 0), None);
}

#[test]
fn curator_usage_requires_both_input_and_output_and_keeps_cache_fields_separate() {
    let mut collector = CuratorResponseCollector::new(64);
    collector
        .on_event(CuratorStreamEvent::TokenUsage {
            input_tokens: Some(10),
            output_tokens: None,
            cache_read_input_tokens: Some(3),
            cache_creation_input_tokens: None,
        })
        .expect("usage");
    assert_eq!(curator_usage_tokens(&collector.usage), None);
    collector
        .on_event(CuratorStreamEvent::TokenUsage {
            input_tokens: None,
            output_tokens: Some(4),
            cache_read_input_tokens: None,
            cache_creation_input_tokens: Some(2),
        })
        .expect("usage");
    assert_eq!(curator_usage_tokens(&collector.usage), Some((10, 4, Some(3), Some(2))));
}

#[test]
fn response_collection_is_bounded_rolls_back_and_refuses_tools() {
    let mut collector = CuratorResponseCollector::new(8);
    collector.on_event(CuratorStreamEvent::TextDelta("abcd".to_string())).expect("fits");
    let error = collector.on_event(CuratorStreamEvent::TextDelta("efghi".to_string())).unwrap_err();
    assert!(matches!(error, ContextCuratorError::ResponseTooLarge { bytes: 9, limit: 8 }));
    assert_eq!(collector.text, "abcd");
    collector.on_event(CuratorStreamEvent::RetryRollback).expect("rollback");
    assert_eq!(collector.text, "");
    collector.on_event(CuratorStreamEvent::TextDelta("é".to_string())).expect("two bytes");
    assert_eq!(collector.text, "é");
    assert!(matches!(
        collector.on_event(CuratorStreamEvent::ToolActivity),
        Err(ContextCuratorError::UnexpectedToolUse)
    ));
    assert!(matches!(
        collector.on_event(CuratorStreamEvent::Error("boom".to_string())),
        Err(ContextCuratorError::Provider(m)) if m == "boom"
    ));
}

#[test]
fn complete_atomic_source_overflow_fails_before_any_provider_call() {
    let limits = ContextCuratorLimits::default();
    assert_eq!(limits.max_request_bytes, 32 * 1024 * 1024);
    assert_eq!(limits.timeout_secs, 600);
    let too_large = check_task_call_bounds(0, false, "Fork", limits.max_request_bytes + 1, limits, 1, 10).unwrap_err();
    assert_eq!(
        too_large.message(),
        format!(
            "complete atomic curator request is {} bytes, exceeding the {}-byte bound; no source was truncated",
            limits.max_request_bytes + 1,
            limits.max_request_bytes
        )
    );
    let images = check_task_call_bounds(2, false, "Fork", 1, limits, 1, 10).unwrap_err();
    assert_eq!(images.message(), "complete atomic curator material contains 2 image(s), but route Fork does not support image input");
    let tokens = check_task_call_bounds(0, false, "Fork", 1, limits, 11, 10).unwrap_err();
    assert!(matches!(tokens, ContextCuratorError::InputTooLarge { estimated_tokens: 11, safe_budget: 10 }));
    assert!(check_task_call_bounds(1, true, "Fork", 1, limits, 10, 10).is_ok());
}

#[test]
fn plan_fingerprints_are_accepted_by_run_validation() {
    let limits = ContextCuratorLimits::default();
    let fingerprint = plan_fingerprint(b"{\"tasks\":[]}", limits).expect("fingerprint");
    assert_eq!(fingerprint.len(), 64);
    assert_eq!(plan_fingerprint(b"abc", limits).unwrap(), "ba7816bf8f01cfea414140de5dae2223b00361a396177a9cb410ff61f20015ad");
    let run = ContextCuratorRunConfig {
        selection: None,
        transaction_instructions: String::new(),
        range_instructions: Vec::new(),
        expected_plan_fingerprint: Some(fingerprint),
    };
    assert!(validate_context_curator_run_config(&run).is_ok());
    let tight = ContextCuratorLimits { max_plan_preview_bytes: 130, ..limits };
    assert!(matches!(
        plan_fingerprint(b"abc", tight),
        Err(ContextCuratorError::PlanPreviewTooLarge { bytes: 131, limit: 130 })
    ));
}

#[test]
fn task_failures_name_the_task_and_keep_cancellation() {
    assert!(matches!(task_failure(ContextCuratorError::Canceled, "t", 1, 3), ContextCuratorError::Canceled));
    let failed = task_failure(ContextCuratorError::Timeout, "task-2", 1, 3);
    assert_eq!(
        failed.message(),
        "atomic curator task task-2 failed after 1 of 3 task(s) completed: context curator request timed out; no generated artifact was activated or retained as an applicable transaction"
    );
}

#[test]
fn generator_records_non_blank_instructions_only() {
    let fork = Fork::new("gpt-5");
    let route = resolve_context_curator_route(&fork, &routes(), "active", &config(None, None, None, None)).unwrap();
    let generator = route.generator(
        StoredContextCuratorRole::RangeSummarizer,
        CONTEXT_RANGE_SUMMARIZER_PROMPT_VERSION,
        StoredContextCuratorSelectionSource::PerRunOverride,
        "  ",
        "focus",
    );
    assert_eq!(generator.transaction_instructions, None);
    assert_eq!(generator.task_instructions.as_deref(), Some("focus"));
    assert_eq!(generator.route, "active");
    assert_eq!(route.preview().model, "gpt-5");
}
