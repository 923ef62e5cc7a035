use context_ledger::draft::{
    bounded_context_metadata, canonical_range_key, curator_selection_from_config,
    effective_curator_config, interval_contains, ordered_interval, proposed_revision,
    reject_active_agent_profile_ranges, resolve_range_instructions, unique_message_indices,
    validate_capture_identity_parts, validate_context_curator_run_config,
    validate_context_curator_selection, ContextServiceLimits,
};
use context_ledger::curator::{ContextCuratorConfig, StoredContextCuratorSelectionSource};
use context_ledger::model::{ContentBlock, Role, StoredMessage};
use context_ledger::protocol::{
    ContextCuratorRangeInstructions, ContextCuratorRunConfig, ContextCuratorSelection,
    ContextDraftIdentity, ContextMessageRangeSelection,
};
use context_ledger::provider::{ModelRoute, Provider};
use context_ledger::session::ContextServiceError;

fn range(start: &str, end: &str) -> ContextMessageRangeSelection {
    ContextMessageRangeSelection { start_message_id: start.to_string(), end_message_id: end.to_string() }
}

fn message(id: &str) -> StoredMessage {
    StoredMessage {
        id: id.to_string(),
        role: Role::User,
        content: vec![ContentBlock::Text { text: id.to_string() }],
        display_role: None,
        timestamp: None,
    }
}

fn run(selection: Option<ContextCuratorSelection>, transaction: &str, ranges: Vec<ContextCuratorRangeInstructions>, fingerprint: Option<&str>) -> ContextCuratorRunConfig {
    ContextCuratorRunConfig {
        selection,
        transaction_instructions: transaction.to_string(),
        range_instructions: ranges,
        expected_plan_fingerprint: fingerprint.map(str::to_string),
    }
}

fn invalid(error: ContextServiceError) -> String {
    match error {
        ContextServiceError::InvalidSelection(m) => m,
        other => panic!("invalid selection expected, got {other:?}"),
    }
}

#[test]
fn metadata_is_bounded_with_an_ellipsis() {
    assert_eq!(bounded_context_metadata("abc", 3), "abc");
    assert_eq!(bounded_context_metadata("abcd", 3), "ab…");
    assert_eq!(bounded_context_metadata("abcd", 0), "");
    assert_eq!(bounded_context_metadata("é漢字x", 2), "é…");
}

#[test]
fn curator_run_configuration_is_bounded() {
    assert!(validate_context_curator_run_config(&run(None, "", Vec::new(), None)).is_ok());
    let blank = ContextCuratorSelection { provider: Some(" ".to_string()), route: None, model: None, effort: None };
    assert_eq!(
        invalid(validate_context_curator_selection(&blank).unwrap_err()),
        "curator provider must contain between 1 and 256 characters"
    );
    let long_effort = ContextCuratorSelection { provider: None, route: None, model: None, effort: Some("e".repeat(257)) };
    assert_eq!(
        invalid(validate_context_curator_run_config(&run(Some(long_effort), "", Vec::new(), None)).unwrap_err()),
        "curator effort must contain between 1 and 256 characters"
    );
    let too_many: Vec<_> = (0..33)
        .map(|i| ContextCuratorRangeInstructions { range: range(&format!("a{i}"), "b"), instructions: String::new() })
        .collect();
    assert_eq!(
        invalid(validate_context_curator_run_config(&run(None, "", too_many, None)).unwrap_err()),
        "at most 32 range-specific curator instructions may be supplied"
    );
    assert_eq!(
        invalid(validate_context_curator_run_config(&run(None, &"x".repeat(8193), Vec::new(), None)).unwrap_err()),
        "transaction-wide curator instructions contain 8193 characters, exceeding the 8192-character per-field bound"
    );
    let long_range = vec![ContextCuratorRangeInstructions { range: range("a", "b"), instructions: "y".repeat(8193) }];
    assert_eq!(
        invalid(validate_context_curator_run_config(&run(None, "", long_range, None)).unwrap_err()),
        "range-specific curator instructions contain 8193 characters, exceeding the 8192-character per-field bound"
    );
    let many: Vec<_> = (0..4)
        .map(|i| ContextCuratorRangeInstructions { range: range(&format!("a{i}"), "b"), instructions: "z".repeat(8000) })
        .collect();
    assert_eq!(
        invalid(validate_context_curator_run_config(&run(None, &"x".repeat(1000), many, None)).unwrap_err()),
        "curator instructions contain 33000 characters in total, exceeding the 32768-character bound"
    );
    for bad in ["ABC", &"A".repeat(64), &"g".repeat(64), &"a".repeat(63)] {
        assert_eq!(
            invalid(validate_context_curator_run_config(&run(None, "", Vec::new(), Some(bad))).unwrap_err()),
            "curator plan fingerprint must be exactly 64 lowercase hexadecimal characters"
        );
    }
    assert!(validate_context_curator_run_config(&run(None, "", Vec::new(), Some(&"0f".repeat(32)))).is_ok());
}

#[test]
fn forward_and_backward_summary_ranges_produce_the_same_canonical_preview() {
    let forward = canonical_range_key(&range("tool-call-message", "tool-result-message"));
    let backward = canonical_range_key(&range("tool-result-message", "tool-call-message"));
    assert_eq!(forward, backward);
    assert_eq!(forward.0, "tool-call-message");
}

#[test]
fn range_instructions_reference_staged_ranges_once() {
    let staged = vec![range("a", "c"), range("d", "e")];
    let instructions = vec![
        ContextCuratorRangeInstructions { range: range("c", "a"), instructions: "first".to_string() },
        ContextCuratorRangeInstructions { range: range("d", "e"), instructions: "second".to_string() },
    ];
    let resolved = resolve_range_instructions(&staged, &instructions).expect("resolved");
    assert_eq!(resolved[0].0, ("a".to_string(), "c".to_string()));
    assert_eq!(resolved[0].1, "first");
    let unstaged = vec![ContextCuratorRangeInstructions { range: range("x", "y"), instructions: String::new() }];
    assert_eq!(
        invalid(resolve_range_instructions(&staged, &unstaged).unwrap_err()),
        "range-specific curator instructions reference an unstaged range x..y"
    );
    let twice = vec![
        ContextCuratorRangeInstructions { range: range("a", "c"), instructions: String::new() },
        ContextCuratorRangeInstructions { range: range("c", "a"), instructions: String::new() },
    ];
    assert_eq!(
        invalid(resolve_range_instructions(&staged, &twice).unwrap_err()),
        "range-specific curator instructions were supplied more than once for c..a"
    );
}

#[test]
fn intervals_and_revisions() {
    assert_eq!(ordered_interval(5, 2), (2, 5));
    assert_eq!(ordered_interval(2, 5), (2, 5));
    assert!(interval_contains(&[(1, 3), (7, 9)], 8));
    assert!(!interval_contains(&[(1, 3), (7, 9)], 5));
    assert_eq!(proposed_revision(4, false).ok(), Some(4));
    assert_eq!(proposed_revision(4, true).ok(), Some(5));
    assert!(matches!(proposed_revision(u64::MAX, true), Err(ContextServiceError::RevisionOverflow)));
}

#[test]
fn active_agent_profile_is_locked_before_range_preview_or_curator_capture() {
    let messages = vec![message("ordinary-message"), message("active-profile-message"), message("later")];
    let error = reject_active_agent_profile_ranges(&messages, Some("active-profile-message"), &[(0, 1)]).unwrap_err();
    assert!(matches!(error, ContextServiceError::Conflict(m) if m.starts_with("selected range includes active agent profile message active-profile-message")));
    assert!(reject_active_agent_profile_ranges(&messages, Some("active-profile-message"), &[(2, 2)]).is_ok());
    let missing = reject_active_agent_profile_ranges(&messages, Some("gone"), &[]).unwrap_err();
    assert!(matches!(missing, ContextServiceError::Stale(m) if m == "active agent profile message gone is missing from authoritative history"));
    assert!(reject_active_agent_profile_ranges(&messages, None, &[(0, 2)]).is_ok());
}

#[test]
fn duplicate_message_ids_are_refused() {
    assert!(unique_message_indices(&[message("a"), message("b")]).is_ok());
    let error = unique_message_indices(&[message("a"), message("b"), message("a")]).unwrap_err();
    assert_eq!(invalid(error), "duplicate stored message ID: a");
}

struct Named {
    name: &'static str,
    model: &'static str,
}

impl Provider for Named {
    fn name(&self) -> String {
        self.name.to_string()
    }
    fn display_name(&self) -> String {
        self.name.to_string()
    }
    fn model(&self) -> String {
        self.model.to_string()
    }
    fn context_window(&self) -> usize {
        1_000
    }
    fn reasoning_effort(&self) -> Option<String> {
        None
    }
    fn supports_image_input(&self) -> bool {
        false
    }
    fn set_model(&self, _model: &str) -> Result<(), String> {
        Err("fixed".to_string())
    }
    fn set_route_selection(&self, _route: &ModelRoute) -> Result<(), String> {
        Err("fixed".to_string())
    }
    fn set_reasoning_effort(&self, _effort: &str) -> Result<(), String> {
        Err("fixed".to_string())
    }
}

fn identity() -> ContextDraftIdentity {
    ContextDraftIdentity {
        draft_id: "draft".to_string(),
        session_id: "session".to_string(),
        base_context_revision: 3,
        raw_message_count: 2,
        transcript_digest: 99,
        provider_name: "provider".to_string(),
        model: "model".to_string(),
        route: "route".to_string(),
        created_at: 0,
        expires_at: 0,
    }
}

fn stale(error: ContextServiceError) -> String {
    match error {
        ContextServiceError::Stale(m) => m,
        other => panic!("stale expected, got {other:?}"),
    }
}

#[test]
fn every_captured_identity_dimension_is_revalidated_after_generation() {
    let messages = vec![message("a"), message("b")];
    let provider = Named { name: "provider", model: "model" };
    let id = identity();
    assert!(validate_capture_identity_parts("session", &messages, 3, 99, &provider, "route", &id).is_ok());
    assert_eq!(stale(validate_capture_identity_parts("other", &messages, 3, 99, &provider, "route", &id).unwrap_err()), "session ID changed");
    assert_eq!(stale(validate_capture_identity_parts("session", &messages, 4, 99, &provider, "route", &id).unwrap_err()), "context revision changed from 3 to 4");
    assert_eq!(stale(validate_capture_identity_parts("session", &messages[..1], 3, 99, &provider, "route", &id).unwrap_err()), "raw message count changed from 2 to 1");
    assert_eq!(stale(validate_capture_identity_parts("session", &messages, 3, 98, &provider, "route", &id).unwrap_err()), "authoritative transcript digest changed");
    let other = Named { name: "other", model: "model" };
    assert_eq!(stale(validate_capture_identity_parts("session", &messages, 3, 99, &other, "route", &id).unwrap_err()), "provider changed from provider to other");
    let other_model = Named { name: "provider", model: "m2" };
    assert_eq!(stale(validate_capture_identity_parts("session", &messages, 3, 99, &other_model, "route", &id).unwrap_err()), "model changed from model to m2");
    assert_eq!(stale(validate_capture_identity_parts("session", &messages, 3, 99, &provider, "r2", &id).unwrap_err()), "route changed from route to r2");
}

#[test]
fn run_selection_overrides_the_configured_default() {
    let default = ContextCuratorConfig { provider: Some("p".to_string()), route: None, model: None, effort: None };
    let (config, source) = effective_curator_config(&default, &run(None, "", Vec::new(), None));
    assert_eq!(config.provider.as_deref(), Some("p"));
    assert_eq!(source, StoredContextCuratorSelectionSource::ConfiguredDefault);
    let selection = curator_selection_from_config(&ContextCuratorConfig { provider: None, route: None, model: Some("m".to_string()), effort: None });
    let (config, source) = effective_curator_config(&default, &run(Some(selection), "", Vec::new(), None));
    assert_eq!(config.provider, None);
    assert_eq!(config.model.as_deref(), Some("m"));
    assert_eq!(source, StoredContextCuratorSelectionSource::PerRunOverride);
    let limits = ContextServiceLimits::default();
    assert_eq!(limits.max_drafts, 32);
    assert_eq!(limits.max_total_bytes, 64 * 1024 * 1024);
}
