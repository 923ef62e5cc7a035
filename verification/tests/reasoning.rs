use context_ledger::model::{ContentBlock, Message, Role, StoredContextBlockKind, StoredMessage};
use context_ledger::provider::{
    context_projection_validation_report, ContextProjectionValidationOperation,
    ContextProjectionValidationReport, ContextProviderFamily, ContextProviderValidationIdentity,
    ContextReasoningBlockKind, ContextRequestBuilderValidation, ModelRoute, Provider,
};
use context_ledger::reasoning::{
    parse_decimal_usize, provider_removable_reasoning_kinds, reasoning_kinds_present,
    reasoning_op_index,
};

struct ReasoningProvider {
    family: ContextProviderFamily,
    supported_reasoning: Option<ContextReasoningBlockKind>,
    builder_supported: bool,
}

impl Provider for ReasoningProvider {
    fn name(&self) -> String {
        "reasoning".to_string()
    }
    fn display_name(&self) -> String {
        "Reasoning".to_string()
    }
    fn model(&self) -> String {
        "model".to_string()
    }
    fn context_window(&self) -> usize {
        100_000
    }
    fn reasoning_effort(&self) -> Option<String> {
        None
    }
    fn supports_image_input(&self) -> bool {
        false
    }
    fn set_model(&self, _model: &str) -> Result<(), String> {
        Ok(())
    }
    fn set_route_selection(&self, _route: &ModelRoute) -> Result<(), String> {
        Ok(())
    }
    fn set_reasoning_effort(&self, _effort: &str) -> Result<(), String> {
        Ok(())
    }
    fn validate_projected_context(
        &self,
        messages: &[Message],
        operations: &[ContextProjectionValidationOperation],
    ) -> ContextProjectionValidationReport {
        let builder = if self.builder_supported {
            Ok(ContextRequestBuilderValidation::new(messages.len()))
        } else {
            Err("builder rejected the projection".to_string())
        };
        context_projection_validation_report(
            ContextProviderValidationIdentity {
                family: self.family,
                provider_name: self.name(),
                provider_display_name: self.display_name(),
                model: self.model(),
                evidence_tag: "test_builder".to_string(),
            },
            operations,
            self.supported_reasoning,
            builder,
        )
    }
}

fn all_reasoning() -> Vec<StoredMessage> {
    vec![StoredMessage {
        id: "all-reasoning".to_string(),
        role: Role::Assistant,
        content: vec![
            ContentBlock::Reasoning { text: "generic".to_string() },
            ContentBlock::ReasoningTrace { text: "trace".to_string() },
            ContentBlock::AnthropicThinking {
                thinking: "anthropic".to_string(),
                signature: "signed".to_string(),
            },
            ContentBlock::OpenAIReasoning {
                id: "reasoning-id".to_string(),
                summary: vec!["openai".to_string()],
                encrypted_content: Some("opaque".to_string()),
                status: Some("completed".to_string()),
            },
            ContentBlock::Text { text: "visible".to_string() },
        ],
        display_role: None,
        timestamp: None,
    }]
}

#[test]
fn decimal_indices_parse_like_std() {
    let parse = |s: &str| parse_decimal_usize(&s.chars().collect());
    assert_eq!(parse("0"), Some(0));
    assert_eq!(parse("+5"), Some(5));
    assert_eq!(parse("007"), Some(7));
    assert_eq!(parse(""), None);
    assert_eq!(parse("+"), None);
    assert_eq!(parse("1a"), None);
    assert_eq!(parse("-1"), None);
    assert_eq!(parse(&usize::MAX.to_string()), Some(usize::MAX));
    assert_eq!(parse(&format!("{}0", usize::MAX)), None);
    assert_eq!(reasoning_op_index("snapshot-reasoning-3"), Some(3));
    assert_eq!(reasoning_op_index("snapshot-reasoning-"), None);
    assert_eq!(reasoning_op_index("summary-3"), None);
}

#[test]
fn present_reasoning_kinds_are_distinct_and_ordered() {
    let mut messages = all_reasoning();
    messages[0].content.push(ContentBlock::Reasoning { text: "again".to_string() });
    assert_eq!(
        reasoning_kinds_present(&messages),
        vec![
            StoredContextBlockKind::Reasoning,
            StoredContextBlockKind::ReasoningTrace,
            StoredContextBlockKind::AnthropicThinking,
            StoredContextBlockKind::OpenAiReasoning,
        ]
    );
}

#[test]
fn reasoning_removability_tracks_provider_family_and_fails_closed_on_builder_rejection() {
    let messages = all_reasoning();
    let projected: Vec<Message> = Vec::new();
    let cases = [
        (
            ContextProviderFamily::OpenRouterCompatible,
            ContextReasoningBlockKind::GenericReasoning,
            StoredContextBlockKind::Reasoning,
        ),
        (
            ContextProviderFamily::AnthropicMessages,
            ContextReasoningBlockKind::AnthropicThinking,
            StoredContextBlockKind::AnthropicThinking,
        ),
        (
            ContextProviderFamily::OpenAiResponses,
            ContextReasoningBlockKind::OpenAiReasoning,
            StoredContextBlockKind::OpenAiReasoning,
        ),
    ];
    for (family, supported, expected) in cases {
        let provider =
            ReasoningProvider { family, supported_reasoning: Some(supported), builder_supported: true };
        let removable = provider_removable_reasoning_kinds(&provider, &projected, &messages);
        assert_eq!(removable, vec![expected]);
        assert!(!removable.contains(&StoredContextBlockKind::ReasoningTrace));
    }
    let rejected = ReasoningProvider {
        family: ContextProviderFamily::OpenRouterCompatible,
        supported_reasoning: Some(ContextReasoningBlockKind::GenericReasoning),
        builder_supported: false,
    };
    assert!(provider_removable_reasoning_kinds(&rejected, &projected, &messages).is_empty());
    let plain = vec![StoredMessage {
        id: "plain".to_string(),
        role: Role::User,
        content: vec![ContentBlock::Text { text: "hi".to_string() }],
        display_role: None,
        timestamp: None,
    }];
    let any = ReasoningProvider {
        family: ContextProviderFamily::AnthropicMessages,
        supported_reasoning: Some(ContextReasoningBlockKind::AnthropicThinking),
        builder_supported: true,
    };
    assert!(provider_removable_reasoning_kinds(&any, &projected, &plain).is_empty());
}
