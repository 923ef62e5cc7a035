//! Provider-side validation of projected histories, and the provider interface that
//! supplies it.
//!
//! The active runtime remains the authority: a provider validates a projected history with
//! the same production request builder it uses to send requests. A provider without such an
//! adapter fails closed.

use vstd::prelude::*;

use crate::model::Message;
use crate::text::{concat2, concat3, decimal};

verus! {

/// Whether an optional string is present with the given text.
pub open spec fn opt_text_is(o: Option<String>, text: Seq<char>) -> bool {
    match o {
        Some(x) => x@ == text,
        None => false,
    }
}

/// The request-builder family of a provider.
#[derive(PartialEq, Eq, Structural, Clone, Copy, Debug)]
pub enum ContextProviderFamily {
    Unknown,
    AnthropicMessages,
    OpenAiResponses,
    OpenAiChatCompletions,
    OpenRouterCompatible,
}

/// Whether a builder or an operation is supported.
#[derive(PartialEq, Eq, Structural, Clone, Copy, Debug)]
pub enum ContextProjectionValidationStatus {
    Supported,
    Unsupported,
}

/// The provider-facing kinds of replayed reasoning blocks.
#[derive(PartialEq, Eq, Structural, Clone, Copy, Debug)]
pub enum ContextReasoningBlockKind {
    GenericReasoning,
    AnthropicThinking,
    OpenAiReasoning,
    ReasoningTrace,
}

/// What a projected-history operation does.
#[derive(PartialEq, Eq, Structural, Clone, Copy, Debug)]
pub enum ContextProjectionOperationKind {
    RangeSummary,
    ToolResultDistillation,
    ReasoningSuppression { block_kind: ContextReasoningBlockKind },
}

/// One operation of a projected history, as submitted for validation.
#[derive(Clone, Debug)]
pub struct ContextProjectionValidationOperation {
    pub id: String,
    pub kind: ContextProjectionOperationKind,
}

/// The verdict on one operation.
#[derive(Clone, Debug)]
pub struct ContextProjectionValidationFinding {
    pub operation_id: Option<String>,
    pub status: ContextProjectionValidationStatus,
    pub reason: Option<String>,
}

/// The provider's verdict on a projected history. It names the provider and request builder
/// and never carries message content.
#[derive(Clone, Debug)]
pub struct ContextProjectionValidationReport {
    pub provider_family: ContextProviderFamily,
    pub provider_name: String,
    pub provider_display_name: String,
    pub model: String,
    pub evidence_tag: String,
    pub builder_status: ContextProjectionValidationStatus,
    pub normalized_item_count: usize,
    pub formatter_placeholder_count: usize,
    pub normalization_notes: Vec<String>,
    pub findings: Vec<ContextProjectionValidationFinding>,
}

impl ContextProjectionValidationReport {
    /// The builder accepted the projection and every operation is supported.
    pub open spec fn spec_is_supported(&self) -> bool {
        &&& self.builder_status == ContextProjectionValidationStatus::Supported
        &&& forall|i: int|
            0 <= i < self.findings@.len() ==> (#[trigger] self.findings@[i]).status
                == ContextProjectionValidationStatus::Supported
    }

    /// Whether the projection is fully supported.
    pub fn is_supported(&self) -> (r: bool)
        ensures
            r == self.spec_is_supported(),
    {
        if self.builder_status != ContextProjectionValidationStatus::Supported {
            return false;
        }
        let mut i: usize = 0;
        while i < self.findings.len()
            invariant
                i <= self.findings@.len(),
                forall|k: int|
                    0 <= k < i ==> (#[trigger] self.findings@[k]).status
                        == ContextProjectionValidationStatus::Supported,
            decreases self.findings.len() - i,
        {
            if self.findings[i].status != ContextProjectionValidationStatus::Supported {
                return false;
            }
            i += 1;
        }
        true
    }

    /// The reasons given by unsupported findings, in order.
    pub fn unsupported_reasons(&self) -> (r: Vec<String>)
        ensures
            r@.map_values(|s: String| s@) == unsupported_reasons_of(self.findings@),
    {
        let mut r: Vec<String> = Vec::new();
        let mut i: usize = 0;
        while i < self.findings.len()
            invariant
                i <= self.findings@.len(),
                r@.map_values(|s: String| s@) == unsupported_reasons_of(
                    self.findings@.take(i as int),
                ),
            decreases self.findings.len() - i,
        {
            let ghost before = r@.map_values(|s: String| s@);
            assert(self.findings@.take(i + 1).drop_last() =~= self.findings@.take(i as int));
            let f = &self.findings[i];
            if f.status == ContextProjectionValidationStatus::Unsupported {
                match &f.reason {
                    Some(reason) => {
                        r.push(reason.clone());
                        assert(r@.map_values(|s: String| s@) =~= before.push(reason@));
                    },
                    None => {},
                }
            }
            i += 1;
        }
        assert(self.findings@.take(self.findings.len() as int) =~= self.findings@);
        r
    }
}

/// The reasons of the unsupported findings, in order.
pub open spec fn unsupported_reasons_of(findings: Seq<ContextProjectionValidationFinding>) -> Seq<
    Seq<char>,
>
    decreases findings.len(),
{
    if findings.len() == 0 {
        Seq::empty()
    } else {
        let prev = unsupported_reasons_of(findings.drop_last());
        let f = findings.last();
        if f.status == ContextProjectionValidationStatus::Unsupported && f.reason is Some {
            prev.push(f.reason->0@)
        } else {
            prev
        }
    }
}

/// Reason recorded by a provider that has no request-builder validation adapter.
pub open spec fn missing_adapter_reason(display_name: Seq<char>, model: Seq<char>) -> Seq<char> {
    "no production request-builder validation adapter is registered for "@ + display_name
        + " model "@ + model
}

/// Whether `r` is the fail-closed report of a provider without a validation adapter, for the
/// given operations: an unknown family with no evidence tag, no normalized item, placeholder
/// or note, the builder unsupported, and one unsupported finding for the builder followed by
/// one per operation, in order, each giving the missing-adapter reason for the report's
/// provider and model.
pub open spec fn missing_adapter_shape(
    r: ContextProjectionValidationReport,
    operations: Seq<ContextProjectionValidationOperation>,
) -> bool {
    &&& r.provider_family == ContextProviderFamily::Unknown
    &&& r.evidence_tag@.len() == 0
    &&& r.builder_status == ContextProjectionValidationStatus::Unsupported
    &&& r.normalized_item_count == 0
    &&& r.formatter_placeholder_count == 0
    &&& r.normalization_notes@.len() == 0
    &&& r.findings@.len() == operations.len() + 1
    &&& r.findings@[0].operation_id is None
    &&& forall|i: int|
        0 <= i < operations.len() ==> opt_text_is(
            (#[trigger] r.findings@[i + 1]).operation_id,
            operations[i].id@,
        )
    &&& forall|i: int|
        0 <= i < r.findings@.len() ==> (#[trigger] r.findings@[i]).status
            == ContextProjectionValidationStatus::Unsupported && opt_text_is(
            r.findings@[i].reason,
            missing_adapter_reason(r.provider_display_name@, r.model@),
        )
}

/// The fail-closed report of a provider without a validation adapter: the builder and every
/// operation are unsupported.
pub fn missing_adapter_report(
    provider_name: String,
    provider_display_name: String,
    model: String,
    operations: &[ContextProjectionValidationOperation],
) -> (r: ContextProjectionValidationReport)
    ensures
        r.provider_name@ == provider_name@,
        r.provider_display_name@ == provider_display_name@,
        r.model@ == model@,
        r.builder_status == ContextProjectionValidationStatus::Unsupported,
        !r.spec_is_supported(),
        missing_adapter_shape(r, operations@),
{
    let reason = concat3(
        "no production request-builder validation adapter is registered for ",
        provider_display_name.as_str(),
        " model ",
    );
    let reason = concat2(reason.as_str(), model.as_str());
    let mut findings: Vec<ContextProjectionValidationFinding> = Vec::new();
    findings.push(
        ContextProjectionValidationFinding {
            operation_id: None,
            status: ContextProjectionValidationStatus::Unsupported,
            reason: Some(reason.clone()),
        },
    );
    let mut i: usize = 0;
    while i < operations.len()
        invariant
            i <= operations@.len(),
            findings@.len() == i + 1,
            findings@[0].operation_id is None,
            forall|k: int|
                0 <= k < i ==> opt_text_is(
                    (#[trigger] findings@[k + 1]).operation_id,
                    operations@[k].id@,
                ),
            reason@ == missing_adapter_reason(provider_display_name@, model@),
            forall|k: int|
                0 <= k < findings@.len() ==> (#[trigger] findings@[k]).status
                    == ContextProjectionValidationStatus::Unsupported && opt_text_is(findings@[k].reason, reason@),
        decreases operations.len() - i,
    {
        findings.push(
            ContextProjectionValidationFinding {
                operation_id: Some(operations[i].id.clone()),
                status: ContextProjectionValidationStatus::Unsupported,
                reason: Some(reason.clone()),
            },
        );
        i += 1;
    }
    let r = ContextProjectionValidationReport {
        provider_family: ContextProviderFamily::Unknown,
        provider_name,
        provider_display_name,
        model,
        evidence_tag: String::new(),
        builder_status: ContextProjectionValidationStatus::Unsupported,
        normalized_item_count: 0,
        formatter_placeholder_count: 0,
        normalization_notes: Vec::new(),
        findings,
    };
    proof {
        assert(!r.spec_is_supported()) by {
            assert(r.findings@[0].status == ContextProjectionValidationStatus::Unsupported);
        }
    }
    r
}

/// What the production request builder reported for an accepted projection.
#[derive(Clone, Debug)]
pub struct ContextRequestBuilderValidation {
    pub normalized_item_count: usize,
    pub formatter_placeholder_count: usize,
    pub normalization_notes: Vec<String>,
}

impl ContextRequestBuilderValidation {
    /// A builder result with `normalized_item_count` items and no normalization.
    pub fn new(normalized_item_count: usize) -> (r: ContextRequestBuilderValidation)
        ensures
            r.normalized_item_count == normalized_item_count,
            r.formatter_placeholder_count == 0,
            r.normalization_notes@.len() == 0,
    {
        ContextRequestBuilderValidation {
            normalized_item_count,
            formatter_placeholder_count: 0,
            normalization_notes: Vec::new(),
        }
    }
}

/// Who validated a projection.
#[derive(Clone, Debug)]
pub struct ContextProviderValidationIdentity {
    pub family: ContextProviderFamily,
    pub provider_name: String,
    pub provider_display_name: String,
    pub model: String,
    pub evidence_tag: String,
}

/// Whether an adapter supports an operation: summaries and distillations always, reasoning
/// suppression only for the one block kind the adapter can remove.
pub open spec fn operation_supported(
    kind: ContextProjectionOperationKind,
    supported_reasoning: Option<ContextReasoningBlockKind>,
) -> bool {
    match kind {
        ContextProjectionOperationKind::ReasoningSuppression { block_kind } => supported_reasoning
            == Some(block_kind),
        _ => true,
    }
}

/// The report of an adapter that ran the production request builder (`builder`: what it
/// returned, or why it rejected the projection).
pub fn context_projection_validation_report(
    identity: ContextProviderValidationIdentity,
    operations: &[ContextProjectionValidationOperation],
    supported_reasoning: Option<ContextReasoningBlockKind>,
    builder: Result<ContextRequestBuilderValidation, String>,
) -> (r: ContextProjectionValidationReport)
    ensures
        r.provider_name@ == identity.provider_name@,
        r.model@ == identity.model@,
        r.evidence_tag@ == identity.evidence_tag@,
        r.builder_status == (if builder is Ok {
            ContextProjectionValidationStatus::Supported
        } else {
            ContextProjectionValidationStatus::Unsupported
        }),
        builder matches Ok(b) ==> r.normalized_item_count == b.normalized_item_count
            && r.formatter_placeholder_count == b.formatter_placeholder_count,
        r.findings@.len() == operations@.len() + (if builder is Ok {
            0int
        } else {
            1int
        }),
        forall|i: int|
            0 <= i < operations@.len() ==> (#[trigger] r.findings@[i]).status == (if operation_supported(
                operations@[i].kind,
                supported_reasoning,
            ) {
                ContextProjectionValidationStatus::Supported
            } else {
                ContextProjectionValidationStatus::Unsupported
            }) && opt_text_is(r.findings@[i].operation_id, operations@[i].id@),
        r.spec_is_supported() <==> (builder is Ok && forall|i: int|
            0 <= i < operations@.len() ==> operation_supported(
                #[trigger] operations@[i].kind,
                supported_reasoning,
            )),
{
    let mut findings: Vec<ContextProjectionValidationFinding> = Vec::new();
    let mut i: usize = 0;
    while i < operations.len()
        invariant
            i <= operations@.len(),
            findings@.len() == i,
            forall|k: int|
                0 <= k < i ==> (#[trigger] findings@[k]).status == (if operation_supported(
                    operations@[k].kind,
                    supported_reasoning,
                ) {
                    ContextProjectionValidationStatus::Supported
                } else {
                    ContextProjectionValidationStatus::Unsupported
                }) && opt_text_is(findings@[k].operation_id, operations@[k].id@),
        decreases operations.len() - i,
    {
        let op = &operations[i];
        let supported = match op.kind {
            ContextProjectionOperationKind::ReasoningSuppression { block_kind } => {
                match supported_reasoning {
                    Some(k) => k == block_kind,
                    None => false,
                }
            },
            _ => true,
        };
        let finding = if supported {
            ContextProjectionValidationFinding {
                operation_id: Some(op.id.clone()),
                status: ContextProjectionValidationStatus::Supported,
                reason: None,
            }
        } else {
            ContextProjectionValidationFinding {
                operation_id: Some(op.id.clone()),
                status: ContextProjectionValidationStatus::Unsupported,
                reason: Some(
                    concat2(
                        identity.provider_display_name.as_str(),
                        " cannot remove this replayed-reasoning block kind",
                    ),
                ),
            }
        };
        findings.push(finding);
        i += 1;
    }
    let (builder_status, normalized_item_count, formatter_placeholder_count, normalization_notes) =
        match builder {
        Ok(b) => (
            ContextProjectionValidationStatus::Supported,
            b.normalized_item_count,
            b.formatter_placeholder_count,
            b.normalization_notes,
        ),
        Err(reason) => {
            findings.push(
                ContextProjectionValidationFinding {
                    operation_id: None,
                    status: ContextProjectionValidationStatus::Unsupported,
                    reason: Some(reason),
                },
            );
            (ContextProjectionValidationStatus::Unsupported, 0, 0, Vec::new())
        },
    };
    let r = ContextProjectionValidationReport {
        provider_family: identity.family,
        provider_name: identity.provider_name,
        provider_display_name: identity.provider_display_name,
        model: identity.model,
        evidence_tag: identity.evidence_tag,
        builder_status,
        normalized_item_count,
        formatter_placeholder_count,
        normalization_notes,
        findings,
    };
    proof {
        if r.spec_is_supported() {
            assert forall|i: int| 0 <= i < operations@.len() implies operation_supported(
                #[trigger] operations@[i].kind,
                supported_reasoning,
            ) by {
                assert(r.findings@[i].status == ContextProjectionValidationStatus::Supported);
            }
        }
    }
    r
}

/// One route through which a model can be reached.
#[derive(Clone, Debug)]
pub struct ModelRoute {
    pub provider: String,
    pub model: String,
    /// The API method, which names the route.
    pub api_method: String,
    pub available: bool,
    pub detail: String,
    /// The stable identifier of the route's runtime key.
    pub stable_id: String,
}

/// A model provider, as far as context transactions need it. Implementations validate
/// projected histories with their production request builder; the provided default has no
/// adapter and fails closed.
pub trait Provider {
    /// The stable provider identifier.
    fn name(&self) -> String;

    /// The human-readable provider name.
    fn display_name(&self) -> String;

    /// The active model.
    fn model(&self) -> String;

    /// The model's context window, in tokens.
    fn context_window(&self) -> usize;

    /// The active reasoning effort, if any.
    fn reasoning_effort(&self) -> Option<String>;

    /// Whether requests may carry images.
    fn supports_image_input(&self) -> bool;

    /// Switches to another model of the active route.
    fn set_model(&self, model: &str) -> Result<(), String>;

    /// Switches to a listed route.
    fn set_route_selection(&self, route: &ModelRoute) -> Result<(), String>;

    /// Sets the reasoning effort.
    fn set_reasoning_effort(&self, effort: &str) -> Result<(), String>;

    /// Validates a projected history without network I/O.
    fn validate_projected_context(
        &self,
        messages: &[Message],
        operations: &[ContextProjectionValidationOperation],
    ) -> (r: ContextProjectionValidationReport)
        default_ensures
            missing_adapter_shape(r, operations@),
    {
        missing_adapter_report(self.name(), self.display_name(), self.model(), operations)
    }
}

/// Runs the provider's validation of a projected history (no network I/O).
pub fn validate_projected_messages<P: Provider>(
    provider: &P,
    messages: &[Message],
    operations: &[ContextProjectionValidationOperation],
) -> ContextProjectionValidationReport {
    provider.validate_projected_context(messages, operations)
}

/// Actionable error returned when a projected history cannot be committed for the active route.
#[derive(Clone, Debug)]
pub struct UnsupportedProjectedContext {
    pub report: Box<ContextProjectionValidationReport>,
}

/// `"; "`-joined reasons.
pub open spec fn join_reasons(reasons: Seq<Seq<char>>) -> Seq<char>
    decreases reasons.len(),
{
    if reasons.len() == 0 {
        Seq::empty()
    } else if reasons.len() == 1 {
        reasons[0]
    } else {
        join_reasons(reasons.drop_last()) + "; "@ + reasons.last()
    }
}

/// The message of an unsupported projection.
pub open spec fn unsupported_message(report: ContextProjectionValidationReport) -> Seq<char> {
    let reasons = unsupported_reasons_of(report.findings@);
    let head = "Projected context is unsupported by "@ + report.provider_display_name@
        + " model "@ + report.model@;
    if reasons.len() == 0 {
        head + "."@
    } else {
        head + ": "@ + join_reasons(reasons)
    }
}

impl UnsupportedProjectedContext {
    /// The error's human-readable message.
    pub fn message(&self) -> (r: String)
        ensures
            r@ == unsupported_message(*self.report),
    {
        let report: &ContextProjectionValidationReport = &self.report;
        let reasons = report.unsupported_reasons();
        let ghost rv = reasons@.map_values(|s: String| s@);
        let head = concat3(
            "Projected context is unsupported by ",
            report.provider_display_name.as_str(),
            " model ",
        );
        let head = concat2(head.as_str(), report.model.as_str());
        if reasons.len() == 0 {
            return concat2(head.as_str(), ".");
        }
        let mut joined = String::from_str(reasons[0].as_str());
        let mut i: usize = 1;
        assert(rv.take(1) =~= seq![rv[0]]);
        while i < reasons.len()
            invariant
                1 <= i <= reasons@.len(),
                rv == reasons@.map_values(|s: String| s@),
                joined@ == join_reasons(rv.take(i as int)),
            decreases reasons.len() - i,
        {
            assert(rv.take(i + 1).drop_last() =~= rv.take(i as int));
            joined = concat3(joined.as_str(), "; ", reasons[i].as_str());
            i += 1;
        }
        assert(rv.take(reasons.len() as int) =~= rv);
        concat3(head.as_str(), ": ", joined.as_str())
    }
}

/// Accepts exactly the fully supported reports.
pub fn require_supported_report(report: ContextProjectionValidationReport) -> (r: Result<
    ContextProjectionValidationReport,
    UnsupportedProjectedContext,
>)
    ensures
        match r {
            Ok(accepted) => report.spec_is_supported() && accepted == report,
            Err(error) => !report.spec_is_supported() && *error.report == report,
        },
{
    if report.is_supported() {
        Ok(report)
    } else {
        Err(UnsupportedProjectedContext { report: Box::new(report) })
    }
}

/// Requires a fully supported provider validation result before a projection is activated:
/// the provider's report is returned when supported, and wrapped in the error otherwise.
pub fn require_supported_projected_messages<P: Provider>(
    provider: &P,
    messages: &[Message],
    operations: &[ContextProjectionValidationOperation],
) -> (r: Result<ContextProjectionValidationReport, UnsupportedProjectedContext>)
    ensures
        match r {
            Ok(report) => report.spec_is_supported(),
            Err(error) => !error.report.spec_is_supported(),
        },
{
    let report = validate_projected_messages(provider, messages, operations);
    require_supported_report(report)
}

} // verus!
