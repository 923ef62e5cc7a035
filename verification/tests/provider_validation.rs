use context_ledger::model::Message;
use context_ledger::draft::{preview_validation, validation_for_preview};
use context_ledger::session::ContextServiceError;
use context_ledger::provider::{
    require_supported_projected_messages, validate_projected_messages, ContextProjectionOperationKind,
    ContextProjectionValidationOperation, ContextProjectionValidationReport,
    ContextProjectionValidationStatus, ContextProviderFamily, ModelRoute, Provider,
};

struct NoAdapterProvider;

impl Provider for NoAdapterProvider {
    fn name(&self) -> String {
        "no-adapter".to_string()
    }
    fn display_name(&self) -> String {
        "No Adapter".to_string()
    }
    fn model(&self) -> String {
        "test-model".to_string()
    }
    fn context_window(&self) -> usize {
        100_000
    }
    fn reasoning_effort(&self) -> Option<String> {
        None
    }
    fn supports_image_input(&self) -> bool {
        false
    }
    fn set_model(&self, _model: &str) -> Result<(), String> {
        Ok(())
    }
    fn set_route_selection(&self, _route: &ModelRoute) -> Result<(), String> {
        Ok(())
    }
    fn set_reasoning_effort(&self, _effort: &str) -> Result<(), String> {
        Ok(())
    }
}

struct ValidatingProvider;

impl Provider for ValidatingProvider {
    fn name(&self) -> String {
        "validating".to_string()
    }
    fn display_name(&self) -> String {
        "Validating".to_string()
    }
    fn model(&self) -> String {
        "test-model".to_string()
    }
    fn context_window(&self) -> usize {
        100_000
    }
    fn reasoning_effort(&self) -> Option<String> {
        None
    }
    fn supports_image_input(&self) -> bool {
        true
    }
    fn set_model(&self, _model: &str) -> Result<(), String> {
        Ok(())
    }
    fn set_route_selection(&self, _route: &ModelRoute) -> Result<(), String> {
        Ok(())
    }
    fn set_reasoning_effort(&self, _effort: &str) -> Result<(), String> {
        Ok(())
    }
    fn validate_projected_context(
        &self,
        messages: &[Message],
        _operations: &[ContextProjectionValidationOperation],
    ) -> ContextProjectionValidationReport {
        ContextProjectionValidationReport {
            provider_family: ContextProviderFamily::AnthropicMessages,
            provider_name: self.name(),
            provider_display_name: self.display_name(),
            model: self.model(),
            evidence_tag: "test_real_builder_v1".to_string(),
            builder_status: ContextProjectionValidationStatus::Supported,
            normalized_item_count: messages.len(),
            formatter_placeholder_count: 0,
            normalization_notes: Vec::new(),
            findings: Vec::new(),
        }
    }
}

#[test]
fn default_provider_adapter_fails_closed_with_actionable_identity() {
    let provider = NoAdapterProvider;
    let operation = ContextProjectionValidationOperation {
        id: "summary-1".to_string(),
        kind: ContextProjectionOperationKind::RangeSummary,
    };
    let error = require_supported_projected_messages(
        &provider,
        &[Message::user("projected")],
        &[operation],
    )
    .unwrap_err();

    assert_eq!(error.report.provider_name, "no-adapter");
    assert_eq!(error.report.model, "test-model");
    assert!(error
        .message()
        .contains("no production request-builder validation adapter"));
}

#[test]
fn supported_adapter_returns_evidence_without_raw_content() {
    let provider = ValidatingProvider;
    let report = require_supported_projected_messages(
        &provider,
        &[Message::user("sensitive projected content")],
        &[ContextProjectionValidationOperation {
            id: "summary-1".to_string(),
            kind: ContextProjectionOperationKind::RangeSummary,
        }],
    )
    .expect("validation must pass");

    assert!(report.is_supported());
    assert_eq!(report.normalized_item_count, 1);
    assert_eq!(report.evidence_tag, "test_real_builder_v1");
    let serialized = format!("{:?}", report);
    assert!(!serialized.contains("sensitive projected content"));
}

#[test]
fn validation_runs_the_providers_own_builder() {
    let report = validate_projected_messages(&ValidatingProvider, &[Message::user("a")], &[]);
    assert!(report.is_supported());
    let report = validate_projected_messages(&NoAdapterProvider, &[Message::user("a")], &[]);
    assert!(!report.is_supported());
    assert_eq!(report.provider_display_name, "No Adapter");
}

#[test]
fn default_adapter_report_lists_one_unsupported_finding_per_operation() {
    let operations = vec![
        ContextProjectionValidationOperation { id: "a".to_string(), kind: ContextProjectionOperationKind::RangeSummary },
        ContextProjectionValidationOperation { id: "b".to_string(), kind: ContextProjectionOperationKind::ToolResultDistillation },
    ];
    let report = NoAdapterProvider.validate_projected_context(&[], &operations);
    assert_eq!(report.findings.len(), 3);
    assert_eq!(report.findings[0].operation_id, None);
    assert_eq!(report.findings[1].operation_id.as_deref(), Some("a"));
    assert_eq!(report.findings[2].operation_id.as_deref(), Some("b"));
    assert!(report
        .findings
        .iter()
        .all(|f| f.status == ContextProjectionValidationStatus::Unsupported
            && f.reason.as_deref()
                == Some("no production request-builder validation adapter is registered for No Adapter model test-model")));
    assert_eq!(report.normalized_item_count, 0);
    assert!(report.evidence_tag.is_empty());
}

#[test]
fn preview_shows_an_unchanged_verdict_and_gates_a_changing_one() {
    let unsupported = NoAdapterProvider.validate_projected_context(&[], &[]);
    let shown = preview_validation(unsupported.clone(), false).expect("no-change preview shows the verdict");
    assert!(!shown.is_supported());
    match validation_for_preview(&NoAdapterProvider, &[], &[], true) {
        Err(ContextServiceError::ProviderValidation(m)) => assert_eq!(
            m,
            "Projected context is unsupported by No Adapter model test-model: no production request-builder validation adapter is registered for No Adapter model test-model"
        ),
        other => panic!("unexpected {other:?}"),
    }
    assert!(validation_for_preview(&ValidatingProvider, &[], &[], true).expect("supported").is_supported());
}
