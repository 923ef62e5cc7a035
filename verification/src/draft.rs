//! Draft preparation: curator run configuration, range resolution, capture identity, and the
//! bounded store of drafts.

use vstd::prelude::*;

use crate::clock::{clock_error_text, now_unix_millis};
use crate::curator::{
    is_lower_hex, ContextCuratorConfig, ContextCuratorLimits, StoredContextCuratorSelectionSource,
};
use crate::model::{message_position, position_of_message, Message, StoredMessage};
use crate::protocol::{
    ContextCuratorRangeInstructions, ContextCuratorRunConfig, ContextCuratorSelection,
    ContextDraftIdentity, ContextMessageRangeSelection, CONTEXT_CURATOR_INSTRUCTION_MAX_CHARS,
    CONTEXT_CURATOR_TOTAL_INSTRUCTION_MAX_CHARS, CONTEXT_IDENTIFIER_MAX_CHARS,
    CONTEXT_MAX_SUMMARY_RANGES,
};
use crate::provider::{
    require_supported_projected_messages, require_supported_report, unsupported_message,
    validate_projected_messages, ContextProjectionValidationOperation, UnsupportedProjectedContext,
    ContextProjectionValidationReport, Provider,
};
use crate::model::StoredContextBlockKind;
use crate::provider::{ContextProjectionOperationKind, ContextReasoningBlockKind};
use crate::session::{
    spec_is_active, ContextServiceError, ContextSession, ServiceErrorModel,
    StoredContextAuthorization, StoredContextEconomics, StoredContextEmergencyAudit,
    StoredContextOperation,
    StoredContextStatusEvent, StoredContextTransaction, StoredContextTransactionStatusKind,
    StoredContextViewState,
};
use crate::text::{
    chars_of, concat2, concat3, decimal, decimal_string, sat_add, seq_lt, str_eq, str_lt,
    string_from_chars, trim_chars, trim_seq,
};

verus! {

/// At most `max_chars` characters of a value; a longer value keeps `max_chars - 1` of them and
/// ends in an ellipsis.
pub open spec fn bounded_metadata(value: Seq<char>, max_chars: nat) -> Seq<char> {
    if value.len() <= max_chars {
        value
    } else if max_chars == 0 {
        Seq::empty()
    } else {
        value.take(max_chars - 1).push('…')
    }
}

/// Bounds a piece of metadata for display (see [`bounded_metadata`]).
pub fn bounded_context_metadata(value: &str, max_chars: usize) -> (r: String)
    ensures
        r@ == bounded_metadata(value@, max_chars as nat),
{
    let chars = chars_of(value);
    if chars.len() <= max_chars {
        return String::from_str(value);
    }
    if max_chars == 0 {
        return String::new();
    }
    let mut kept = crate::text::slice_chars(&chars, 0, max_chars - 1);
    assert(kept@ =~= value@.take(max_chars - 1));
    kept.push('…');
    string_from_chars(&kept)
}

/// The per-run selection that repeats a configuration.
pub fn curator_selection_from_config(config: &ContextCuratorConfig) -> (r: ContextCuratorSelection)
    ensures
        r.provider == config.provider,
        r.route == config.route,
        r.model == config.model,
        r.effort == config.effort,
{
    ContextCuratorSelection {
        provider: config.provider.clone(),
        route: config.route.clone(),
        model: config.model.clone(),
        effort: config.effort.clone(),
    }
}

/// The configuration a run uses: its own selection when it has one, else the configured
/// default, with where it came from.
pub fn effective_curator_config(
    configured_default: &ContextCuratorConfig,
    run: &ContextCuratorRunConfig,
) -> (r: (ContextCuratorConfig, StoredContextCuratorSelectionSource))
    ensures
        match run.selection {
            None => r.0.provider == configured_default.provider && r.0.route
                == configured_default.route && r.0.model == configured_default.model && r.0.effort
                == configured_default.effort && r.1
                == StoredContextCuratorSelectionSource::ConfiguredDefault,
            Some(s) => r.0.provider == s.provider && r.0.route == s.route && r.0.model == s.model
                && r.0.effort == s.effort && r.1
                == StoredContextCuratorSelectionSource::PerRunOverride,
        },
{
    match &run.selection {
        None => (
            ContextCuratorConfig {
                provider: configured_default.provider.clone(),
                route: configured_default.route.clone(),
                model: configured_default.model.clone(),
                effort: configured_default.effort.clone(),
            },
            StoredContextCuratorSelectionSource::ConfiguredDefault,
        ),
        Some(selection) => (
            ContextCuratorConfig {
                provider: selection.provider.clone(),
                route: selection.route.clone(),
                model: selection.model.clone(),
                effort: selection.effort.clone(),
            },
            StoredContextCuratorSelectionSource::PerRunOverride,
        ),
    }
}

/// Whether a selected identifier is unusable: blank, or longer than the identifier bound.
pub open spec fn bad_identifier(value: Option<String>) -> bool {
    value matches Some(v) && (trim_seq(v@).len() == 0 || v@.len() > CONTEXT_IDENTIFIER_MAX_CHARS)
}

pub open spec fn identifier_error(label: Seq<char>) -> ServiceErrorModel {
    ServiceErrorModel::InvalidSelection(
        label + " must contain between 1 and "@ + decimal(CONTEXT_IDENTIFIER_MAX_CHARS as nat)
            + " characters"@,
    )
}

/// Why a curator selection is refused, if it is: its first unusable identifier among provider,
/// route, model and effort.
pub open spec fn selection_error(s: ContextCuratorSelection) -> Option<ServiceErrorModel> {
    if bad_identifier(s.provider) {
        Some(identifier_error("curator provider"@))
    } else if bad_identifier(s.route) {
        Some(identifier_error("curator route"@))
    } else if bad_identifier(s.model) {
        Some(identifier_error("curator model"@))
    } else if bad_identifier(s.effort) {
        Some(identifier_error("curator effort"@))
    } else {
        None
    }
}

fn check_identifier(label: &str, value: &Option<String>) -> (r: Result<(), ContextServiceError>)
    ensures
        match r {
            Ok(()) => !bad_identifier(*value),
            Err(e) => bad_identifier(*value) && e@ == identifier_error(label@),
        },
{
    match value {
        Some(v) => {
            let chars = chars_of(v.as_str());
            if trim_chars(&chars).len() == 0 || chars.len() > CONTEXT_IDENTIFIER_MAX_CHARS {
                let mut m = concat2(label, " must contain between 1 and ");
                m.append(decimal_string(CONTEXT_IDENTIFIER_MAX_CHARS as u64).as_str());
                m.append(" characters");
                return Err(ContextServiceError::InvalidSelection(m));
            }
            Ok(())
        },
        None => Ok(()),
    }
}

/// Checks a per-run curator selection (see [`selection_error`]).
pub fn validate_context_curator_selection(selection: &ContextCuratorSelection) -> (r: Result<
    (),
    ContextServiceError,
>)
    ensures
        match r {
            Ok(()) => selection_error(*selection) is None,
            Err(e) => selection_error(*selection) == Some(e@),
        },
{
    match check_identifier("curator provider", &selection.provider) {
        Ok(()) => {},
        Err(e) => {
            return Err(e);
        },
    }
    match check_identifier("curator route", &selection.route) {
        Ok(()) => {},
        Err(e) => {
            return Err(e);
        },
    }
    match check_identifier("curator model", &selection.model) {
        Ok(()) => {},
        Err(e) => {
            return Err(e);
        },
    }
    check_identifier("curator effort", &selection.effort)
}

/// The running character total of the transaction-wide instructions and the first `k`
/// range-specific ones, saturating.
pub open spec fn instruction_total(
    transaction: Seq<char>,
    ranges: Seq<ContextCuratorRangeInstructions>,
    k: int,
) -> nat
    decreases k,
{
    if k <= 0 {
        transaction.len()
    } else {
        sat_add(instruction_total(transaction, ranges, k - 1), ranges[k - 1].instructions@.len())
    }
}

/// The first range-specific instruction that is over the per-field bound, if any.
pub open spec fn first_long_range_instruction(ranges: Seq<ContextCuratorRangeInstructions>) -> Option<
    nat,
>
    decreases ranges.len(),
{
    if ranges.len() == 0 {
        None
    } else {
        match first_long_range_instruction(ranges.drop_last()) {
            Some(i) => Some(i),
            None => if ranges.last().instructions@.len() > CONTEXT_CURATOR_INSTRUCTION_MAX_CHARS {
                Some((ranges.len() - 1) as nat)
            } else {
                None
            },
        }
    }
}

/// Whether a plan fingerprint is well formed: exactly 64 lowercase hexadecimal digits.
pub open spec fn fingerprint_well_formed(f: Seq<char>) -> bool {
    f.len() == 64 && forall|i: int| 0 <= i < f.len() ==> is_lower_hex(#[trigger] f[i])
}

/// Why a curator run configuration is refused, if it is: its selection; more range-specific
/// instructions than summary ranges; an instruction over the per-field bound; instructions over
/// the total bound; or a malformed expected plan fingerprint.
pub open spec fn run_config_error(run: ContextCuratorRunConfig) -> Option<ServiceErrorModel> {
    let ranges = run.range_instructions@;
    if run.selection is Some && selection_error(run.selection->0) is Some {
        selection_error(run.selection->0)
    } else if ranges.len() > CONTEXT_MAX_SUMMARY_RANGES {
        Some(
            ServiceErrorModel::InvalidSelection(
                "at most "@ + decimal(CONTEXT_MAX_SUMMARY_RANGES as nat)
                    + " range-specific curator instructions may be supplied"@,
            ),
        )
    } else if run.transaction_instructions@.len() > CONTEXT_CURATOR_INSTRUCTION_MAX_CHARS {
        Some(
            ServiceErrorModel::InvalidSelection(
                "transaction-wide curator instructions contain "@ + decimal(
                    run.transaction_instructions@.len(),
                ) + " characters, exceeding the "@ + decimal(
                    CONTEXT_CURATOR_INSTRUCTION_MAX_CHARS as nat,
                ) + "-character per-field bound"@,
            ),
        )
    } else if first_long_range_instruction(ranges) is Some {
        Some(
            ServiceErrorModel::InvalidSelection(
                "range-specific curator instructions contain "@ + decimal(
                    ranges[first_long_range_instruction(ranges)->0 as int].instructions@.len(),
                ) + " characters, exceeding the "@ + decimal(
                    CONTEXT_CURATOR_INSTRUCTION_MAX_CHARS as nat,
                ) + "-character per-field bound"@,
            ),
        )
    } else if instruction_total(run.transaction_instructions@, ranges, ranges.len() as int)
        > CONTEXT_CURATOR_TOTAL_INSTRUCTION_MAX_CHARS {
        Some(
            ServiceErrorModel::InvalidSelection(
                "curator instructions contain "@ + decimal(
                    instruction_total(run.transaction_instructions@, ranges, ranges.len() as int),
                ) + " characters in total, exceeding the "@ + decimal(
                    CONTEXT_CURATOR_TOTAL_INSTRUCTION_MAX_CHARS as nat,
                ) + "-character bound"@,
            ),
        )
    } else if run.expected_plan_fingerprint matches Some(f) && !fingerprint_well_formed(f@) {
        Some(
            ServiceErrorModel::InvalidSelection(
                "curator plan fingerprint must be exactly 64 lowercase hexadecimal characters"@,
            ),
        )
    } else {
        None
    }
}

fn lower_hex_char(c: char) -> (r: bool)
    ensures
        r == is_lower_hex(c),
{
    ('0' <= c && c <= '9') || ('a' <= c && c <= 'f')
}

fn well_formed_fingerprint(f: &str) -> (r: bool)
    ensures
        r == fingerprint_well_formed(f@),
{
    let chars = chars_of(f);
    if chars.len() != 64 {
        return false;
    }
    let mut i: usize = 0;
    while i < chars.len()
        invariant
            i <= chars@.len(),
            chars@ == f@,
            forall|k: int| 0 <= k < i ==> is_lower_hex(#[trigger] chars@[k]),
        decreases chars.len() - i,
    {
        if !lower_hex_char(chars[i]) {
            return false;
        }
        i += 1;
    }
    true
}

fn invalid_selection(message: String) -> (e: ContextServiceError)
    ensures
        e@ == ServiceErrorModel::InvalidSelection(message@),
{
    ContextServiceError::InvalidSelection(message)
}

/// Checks a curator run configuration (see [`run_config_error`]).
pub fn validate_context_curator_run_config(run: &ContextCuratorRunConfig) -> (r: Result<
    (),
    ContextServiceError,
>)
    ensures
        match r {
            Ok(()) => run_config_error(*run) is None,
            Err(e) => run_config_error(*run) == Some(e@),
        },
{
    match &run.selection {
        Some(selection) => match validate_context_curator_selection(selection) {
            Ok(()) => {},
            Err(e) => {
                return Err(e);
            },
        },
        None => {},
    }
    let ranges = &run.range_instructions;
    if ranges.len() > CONTEXT_MAX_SUMMARY_RANGES {
        let m = concat3(
            "at most ",
            decimal_string(CONTEXT_MAX_SUMMARY_RANGES as u64).as_str(),
            " range-specific curator instructions may be supplied",
        );
        return Err(invalid_selection(m));
    }
    let mut total_chars = chars_of(run.transaction_instructions.as_str()).len();
    if total_chars > CONTEXT_CURATOR_INSTRUCTION_MAX_CHARS {
        let mut m = concat3(
            "transaction-wide curator instructions contain ",
            decimal_string(total_chars as u64).as_str(),
            " characters, exceeding the ",
        );
        m.append(decimal_string(CONTEXT_CURATOR_INSTRUCTION_MAX_CHARS as u64).as_str());
        m.append("-character per-field bound");
        return Err(invalid_selection(m));
    }
    let mut i: usize = 0;
    while i < ranges.len()
        invariant
            i <= ranges@.len(),
            ranges == &run.range_instructions,
            run.selection is Some ==> selection_error(run.selection->0) is None,
            ranges@.len() <= CONTEXT_MAX_SUMMARY_RANGES,
            run.transaction_instructions@.len() <= CONTEXT_CURATOR_INSTRUCTION_MAX_CHARS,
            first_long_range_instruction(ranges@.take(i as int)) is None,
            total_chars == instruction_total(run.transaction_instructions@, ranges@, i as int),
        decreases ranges.len() - i,
    {
        proof {
            assert(ranges@.take(i + 1).drop_last() =~= ranges@.take(i as int));
        }
        let chars = chars_of(ranges[i].instructions.as_str()).len();
        if chars > CONTEXT_CURATOR_INSTRUCTION_MAX_CHARS {
            proof {
                assert(ranges@.take(i + 1).last() == ranges@[i as int]);
                assert(first_long_range_instruction(ranges@.take(i + 1)) == Some(i as nat));
                lemma_first_long_prefix(ranges@, i + 1, i as nat);
            }
            let mut m = concat3(
                "range-specific curator instructions contain ",
                decimal_string(chars as u64).as_str(),
                " characters, exceeding the ",
            );
            m.append(decimal_string(CONTEXT_CURATOR_INSTRUCTION_MAX_CHARS as u64).as_str());
            m.append("-character per-field bound");
            return Err(invalid_selection(m));
        }
        total_chars = total_chars.saturating_add(chars);
        i += 1;
    }
    proof {
        assert(ranges@.take(ranges@.len() as int) =~= ranges@);
    }
    if total_chars > CONTEXT_CURATOR_TOTAL_INSTRUCTION_MAX_CHARS {
        let mut m = concat3(
            "curator instructions contain ",
            decimal_string(total_chars as u64).as_str(),
            " characters in total, exceeding the ",
        );
        m.append(decimal_string(CONTEXT_CURATOR_TOTAL_INSTRUCTION_MAX_CHARS as u64).as_str());
        m.append("-character bound");
        return Err(invalid_selection(m));
    }
    match &run.expected_plan_fingerprint {
        Some(f) => {
            if !well_formed_fingerprint(f.as_str()) {
                return Err(
                    invalid_selection(
                        String::from_str(
                            "curator plan fingerprint must be exactly 64 lowercase hexadecimal characters",
                        ),
                    ),
                );
            }
        },
        None => {},
    }
    Ok(())
}

proof fn lemma_first_long_prefix(ranges: Seq<ContextCuratorRangeInstructions>, j: int, x: nat)
    requires
        0 < j <= ranges.len(),
        first_long_range_instruction(ranges.take(j)) == Some(x),
    ensures
        first_long_range_instruction(ranges) == Some(x),
    decreases ranges.len() - j,
{
    if j < ranges.len() {
        assert(ranges.take(j + 1).drop_last() =~= ranges.take(j));
        lemma_first_long_prefix(ranges, j + 1, x);
    } else {
        assert(ranges.take(j) =~= ranges);
    }
}

/// A range's key: its two end IDs, the lesser first.
pub open spec fn canonical_key(s: ContextMessageRangeSelection) -> (Seq<char>, Seq<char>) {
    if !seq_lt(s.end_message_id@, s.start_message_id@) {
        (s.start_message_id@, s.end_message_id@)
    } else {
        (s.end_message_id@, s.start_message_id@)
    }
}

/// The key of a range selection, independent of the order of its ends.
pub fn canonical_range_key(selection: &ContextMessageRangeSelection) -> (r: (String, String))
    ensures
        (r.0@, r.1@) == canonical_key(*selection),
{
    if !str_lt(selection.end_message_id.as_str(), selection.start_message_id.as_str()) {
        (selection.start_message_id.clone(), selection.end_message_id.clone())
    } else {
        (selection.end_message_id.clone(), selection.start_message_id.clone())
    }
}

/// The keys of staged ranges.
pub open spec fn staged_keys(ranges: Seq<ContextMessageRangeSelection>) -> Set<(Seq<char>, Seq<char>)> {
    Set::new(
        |k: (Seq<char>, Seq<char>)|
            exists|i: int| 0 <= i < ranges.len() && canonical_key(#[trigger] ranges[i]) == k,
    )
}

/// The keys of the first `k` instruction items.
pub open spec fn item_keys(items: Seq<ContextCuratorRangeInstructions>, k: int) -> Seq<
    (Seq<char>, Seq<char>),
> {
    items.take(k).map_values(|it: ContextCuratorRangeInstructions| canonical_key(it.range))
}

/// Why range-specific instructions are refused, if they are: the first item (in order) whose
/// range is not staged, or that repeats an earlier item's range.
pub open spec fn range_instructions_error(
    selected: Seq<ContextMessageRangeSelection>,
    items: Seq<ContextCuratorRangeInstructions>,
) -> Option<ServiceErrorModel>
    decreases items.len(),
{
    if items.len() == 0 {
        None
    } else {
        let prev = range_instructions_error(selected, items.drop_last());
        let it = items.last();
        let key = canonical_key(it.range);
        if prev is Some {
            prev
        } else if !staged_keys(selected).contains(key) {
            Some(
                ServiceErrorModel::InvalidSelection(
                    "range-specific curator instructions reference an unstaged range "@
                        + it.range.start_message_id@ + ".."@ + it.range.end_message_id@,
                ),
            )
        } else if item_keys(items, items.len() - 1).contains(key) {
            Some(
                ServiceErrorModel::InvalidSelection(
                    "range-specific curator instructions were supplied more than once for "@
                        + it.range.start_message_id@ + ".."@ + it.range.end_message_id@,
                ),
            )
        } else {
            None
        }
    }
}

fn key_staged(selected: &[ContextMessageRangeSelection], key: &(String, String)) -> (r: bool)
    ensures
        r == staged_keys(selected@).contains((key.0@, key.1@)),
{
    let mut i: usize = 0;
    while i < selected.len()
        invariant
            i <= selected@.len(),
            forall|k: int| 0 <= k < i ==> canonical_key(#[trigger] selected@[k]) != (key.0@, key.1@),
        decreases selected.len() - i,
    {
        let k = canonical_range_key(&selected[i]);
        if str_eq(k.0.as_str(), key.0.as_str()) && str_eq(k.1.as_str(), key.1.as_str()) {
            assert(canonical_key(selected@[i as int]) == (key.0@, key.1@));
            return true;
        }
        i += 1;
    }
    false
}

/// Resolves range-specific instructions to their ranges' keys, in order; each must reference a
/// staged range (in either direction) at most once (see [`range_instructions_error`]).
pub fn resolve_range_instructions(
    selected_ranges: &[ContextMessageRangeSelection],
    instructions: &[ContextCuratorRangeInstructions],
) -> (r: Result<Vec<((String, String), String)>, ContextServiceError>)
    ensures
        match r {
            Ok(resolved) => {
                &&& range_instructions_error(selected_ranges@, instructions@) is None
                &&& resolved@.len() == instructions@.len()
                &&& forall|k: int|
                    0 <= k < resolved@.len() ==> ((#[trigger] resolved@[k]).0.0@, resolved@[k].0.1@)
                        == canonical_key(instructions@[k].range) && resolved@[k].1
                        == instructions@[k].instructions
            },
            Err(e) => range_instructions_error(selected_ranges@, instructions@) == Some(e@),
        },
{
    let mut resolved: Vec<((String, String), String)> = Vec::new();
    let mut i: usize = 0;
    while i < instructions.len()
        invariant
            i <= instructions@.len(),
            range_instructions_error(selected_ranges@, instructions@.take(i as int)) is None,
            resolved@.len() == i,
            forall|k: int|
                0 <= k < i ==> ((#[trigger] resolved@[k]).0.0@, resolved@[k].0.1@) == canonical_key(
                    instructions@[k].range,
                ) && resolved@[k].1 == instructions@[k].instructions,
        decreases instructions.len() - i,
    {
        let ghost pre = instructions@.take(i + 1);
        proof {
            assert(pre.drop_last() =~= instructions@.take(i as int));
            assert(item_keys(pre, i as int) =~= item_keys(instructions@, i as int));
        }
        let item = &instructions[i];
        let key = canonical_range_key(&item.range);
        if !key_staged(selected_ranges, &key) {
            proof {
                lemma_range_instructions_prefix(selected_ranges@, instructions@, i + 1);
            }
            let mut m = concat3(
                "range-specific curator instructions reference an unstaged range ",
                item.range.start_message_id.as_str(),
                "..",
            );
            m.append(item.range.end_message_id.as_str());
            return Err(invalid_selection(m));
        }
        let mut seen = false;
        let mut j: usize = 0;
        while j < i
            invariant
                j <= i,
                i <= instructions@.len(),
                resolved@.len() == i,
                forall|k: int|
                    0 <= k < i ==> ((#[trigger] resolved@[k]).0.0@, resolved@[k].0.1@)
                        == canonical_key(instructions@[k].range),
                seen == item_keys(instructions@, j as int).contains((key.0@, key.1@)),
            decreases i - j,
        {
            let ghost ks = item_keys(instructions@, j as int);
            let ghost kk = canonical_key(instructions@[j as int].range);
            let ghost want = (key.0@, key.1@);
            proof {
                assert(item_keys(instructions@, j + 1) =~= ks.push(kk));
                assert(ks.push(kk).contains(want) == (ks.contains(want) || kk == want)) by {
                    if kk == want {
                        assert(ks.push(kk)[ks.len() as int] == kk);
                    }
                    if ks.contains(want) {
                        let w = choose|w: int| 0 <= w < ks.len() && ks[w] == want;
                        assert(ks.push(kk)[w] == want);
                    }
                    if ks.push(kk).contains(want) {
                        let w = choose|w: int| 0 <= w < ks.len() + 1 && ks.push(kk)[w] == want;
                        if w < ks.len() {
                            assert(ks[w] == want);
                        }
                    }
                }
            }
            if str_eq(resolved[j].0.0.as_str(), key.0.as_str()) && str_eq(
                resolved[j].0.1.as_str(),
                key.1.as_str(),
            ) {
                seen = true;
            }
            j += 1;
        }
        if seen {
            proof {
                lemma_range_instructions_prefix(selected_ranges@, instructions@, i + 1);
            }
            let mut m = concat3(
                "range-specific curator instructions were supplied more than once for ",
                item.range.start_message_id.as_str(),
                "..",
            );
            m.append(item.range.end_message_id.as_str());
            return Err(invalid_selection(m));
        }
        resolved.push((key, item.instructions.clone()));
        i += 1;
    }
    proof {
        assert(instructions@.take(instructions@.len() as int) =~= instructions@);
    }
    Ok(resolved)
}

proof fn lemma_range_instructions_prefix(
    selected: Seq<ContextMessageRangeSelection>,
    items: Seq<ContextCuratorRangeInstructions>,
    j: int,
)
    requires
        0 < j <= items.len(),
        range_instructions_error(selected, items.take(j)) is Some,
    ensures
        range_instructions_error(selected, items) == range_instructions_error(
            selected,
            items.take(j),
        ),
    decreases items.len() - j,
{
    if j < items.len() {
        assert(items.take(j + 1).drop_last() =~= items.take(j));
        lemma_range_instructions_prefix(selected, items, j + 1);
    } else {
        assert(items.take(j) =~= items);
    }
}

/// Two positions, the lesser first.
pub fn ordered_interval(first: usize, second: usize) -> (r: (usize, usize))
    ensures
        r.0 <= r.1,
        (r.0 == first && r.1 == second) || (r.0 == second && r.1 == first),
{
    if first <= second {
        (first, second)
    } else {
        (second, first)
    }
}

/// Whether a position falls within one of some closed intervals.
pub fn interval_contains(intervals: &[(usize, usize)], index: usize) -> (r: bool)
    ensures
        r == exists|k: int|
            0 <= k < intervals@.len() && (#[trigger] intervals@[k]).0 <= index && index
                <= intervals@[k].1,
{
    let mut i: usize = 0;
    while i < intervals.len()
        invariant
            i <= intervals@.len(),
            forall|k: int|
                0 <= k < i ==> !((#[trigger] intervals@[k]).0 <= index && index <= intervals@[k].1),
        decreases intervals.len() - i,
    {
        if intervals[i].0 <= index && index <= intervals[i].1 {
            return true;
        }
        i += 1;
    }
    false
}

/// The first message whose ID an earlier message already has, if any.
pub open spec fn first_duplicate_message(msgs: Seq<StoredMessage>) -> Option<nat>
    decreases msgs.len(),
{
    if msgs.len() == 0 {
        None
    } else {
        match first_duplicate_message(msgs.drop_last()) {
            Some(i) => Some(i),
            None => if message_position(msgs.drop_last(), msgs.last().id@) is Some {
                Some((msgs.len() - 1) as nat)
            } else {
                None
            },
        }
    }
}

/// Checks that stored message IDs are unique, naming the first repeated one otherwise.
pub fn unique_message_indices(messages: &[StoredMessage]) -> (r: Result<(), ContextServiceError>)
    ensures
        match r {
            Ok(()) => first_duplicate_message(messages@) is None,
            Err(e) => first_duplicate_message(messages@) matches Some(i) && e@
                == ServiceErrorModel::InvalidSelection(
                "duplicate stored message ID: "@ + messages@[i as int].id@,
            ),
        },
{
    let mut i: usize = 0;
    while i < messages.len()
        invariant
            i <= messages@.len(),
            first_duplicate_message(messages@.take(i as int)) is None,
        decreases messages.len() - i,
    {
        let ghost pre = messages@.take(i + 1);
        proof {
            assert(pre.drop_last() =~= messages@.take(i as int));
        }
        let mut earlier = false;
        let mut j: usize = 0;
        while j < i
            invariant
                j <= i,
                i < messages@.len(),
                earlier == exists|k: int| 0 <= k < j && #[trigger] messages@[k].id@ == messages@[i as int].id@,
            decreases i - j,
        {
            if str_eq(messages[j].id.as_str(), messages[i].id.as_str()) {
                earlier = true;
                assert(messages@[j as int].id@ == messages@[i as int].id@);
            }
            proof {
                if !earlier {
                    assert forall|k: int| 0 <= k < j + 1 implies #[trigger] messages@[k].id@
                        != messages@[i as int].id@ by {
                        if k < j {
                        }
                    }
                }
            }
            j += 1;
        }
        proof {
            crate::model::lemma_message_position(messages@.take(i as int), messages@[i as int].id@);
            if earlier {
                let k = choose|k: int| 0 <= k < i && #[trigger] messages@[k].id@ == messages@[i as int].id@;
                assert(messages@.take(i as int)[k].id@ == messages@[i as int].id@);
            }
            assert(pre.last() == messages@[i as int]);
        }
        if earlier {
            proof {
                assert(first_duplicate_message(pre) == Some(i as nat));
                lemma_first_duplicate_prefix(messages@, i + 1, i as nat);
            }
            return Err(
                ContextServiceError::InvalidSelection(
                    concat2("duplicate stored message ID: ", messages[i].id.as_str()),
                ),
            );
        }
        i += 1;
    }
    proof {
        assert(messages@.take(messages@.len() as int) =~= messages@);
    }
    Ok(())
}

proof fn lemma_first_duplicate_prefix(msgs: Seq<StoredMessage>, j: int, x: nat)
    requires
        0 < j <= msgs.len(),
        first_duplicate_message(msgs.take(j)) == Some(x),
    ensures
        first_duplicate_message(msgs) == Some(x),
    decreases msgs.len() - j,
{
    if j < msgs.len() {
        assert(msgs.take(j + 1).drop_last() =~= msgs.take(j));
        lemma_first_duplicate_prefix(msgs, j + 1, x);
    } else {
        assert(msgs.take(j) =~= msgs);
    }
}

/// Refuses message ranges that include the active agent profile message; the message must
/// exist when one is active.
pub fn reject_active_agent_profile_ranges(
    messages: &[StoredMessage],
    active_agent_profile_message_id: Option<&str>,
    ranges: &[(usize, usize)],
) -> (r: Result<(), ContextServiceError>)
    ensures
        match active_agent_profile_message_id {
            None => r is Ok,
            Some(id) => match message_position(messages@, id@) {
                None => r matches Err(e) && e@ == ServiceErrorModel::Stale(
                    "active agent profile message "@ + id@
                        + " is missing from authoritative history"@,
                ),
                Some(p) => {
                    let covered = exists|k: int|
                        0 <= k < ranges@.len() && (#[trigger] ranges@[k]).0 <= p && p
                            <= ranges@[k].1;
                    if covered {
                        r matches Err(e) && e@ == ServiceErrorModel::Conflict(
                            "selected range includes active agent profile message "@ + id@
                                + "; switch or explicitly replace the system prompt before transforming it"@,
                        )
                    } else {
                        r is Ok
                    }
                },
            },
        },
{
    let message_id = match active_agent_profile_message_id {
        Some(id) => id,
        None => {
            return Ok(());
        },
    };
    let index = match position_of_message(messages, message_id) {
        Some(i) => i,
        None => {
            return Err(
                ContextServiceError::Stale(
                    concat3(
                        "active agent profile message ",
                        message_id,
                        " is missing from authoritative history",
                    ),
                ),
            );
        },
    };
    if interval_contains(ranges, index) {
        return Err(
            ContextServiceError::Conflict(
                concat3(
                    "selected range includes active agent profile message ",
                    message_id,
                    "; switch or explicitly replace the system prompt before transforming it",
                ),
            ),
        );
    }
    Ok(())
}

/// The revision a draft proposes: the current one when it has no operation, else the next.
pub fn proposed_revision(base_revision: u64, has_operations: bool) -> (r: Result<
    u64,
    ContextServiceError,
>)
    ensures
        match r {
            Ok(v) => v == if has_operations {
                base_revision + 1
            } else {
                base_revision as int
            },
            Err(e) => has_operations && base_revision == u64::MAX && e is RevisionOverflow,
        },
{
    if !has_operations {
        Ok(base_revision)
    } else {
        match base_revision.checked_add(1) {
            Some(v) => Ok(v),
            None => Err(ContextServiceError::RevisionOverflow),
        }
    }
}

/// Whether `r` is what a draft preview shows of the provider's verdict `report`: a preview
/// that changes nothing shows the verdict as it is; one that changes context shows it only
/// when fully supported, and otherwise fails with the unsupported-projection message.
pub open spec fn preview_validation_outcome(
    report: ContextProjectionValidationReport,
    changes_context: bool,
    r: Result<ContextProjectionValidationReport, ContextServiceError>,
) -> bool {
    match r {
        Ok(shown) => shown == report && (!changes_context || report.spec_is_supported()),
        Err(e) => changes_context && !report.spec_is_supported() && e@
            == ServiceErrorModel::ProviderValidation(unsupported_message(report)),
    }
}

/// What a draft preview shows of the provider's verdict (see [`preview_validation_outcome`]).
pub fn preview_validation(report: ContextProjectionValidationReport, changes_context: bool) -> (r:
    Result<ContextProjectionValidationReport, ContextServiceError>)
    ensures
        preview_validation_outcome(report, changes_context, r),
{
    if !changes_context {
        return Ok(report);
    }
    match require_supported_report(report) {
        Ok(accepted) => Ok(accepted),
        Err(error) => Err(ContextServiceError::ProviderValidation(error.message())),
    }
}

/// The provider validation a draft preview shows: the provider's verdict on the projected
/// messages and operations, passed through [`preview_validation`].
pub fn validation_for_preview<P: Provider>(
    provider: &P,
    messages: &[Message],
    operations: &[ContextProjectionValidationOperation],
    changes_context: bool,
) -> (r: Result<ContextProjectionValidationReport, ContextServiceError>)
    ensures
        !changes_context ==> r is Ok,
        exists|report: ContextProjectionValidationReport|
            #[trigger] preview_validation_outcome(report, changes_context, r),
{
    let report = validate_projected_messages(provider, messages, operations);
    let r = preview_validation(report, changes_context);
    proof {
        assert(preview_validation_outcome(report, changes_context, r));
    }
    r
}

/// Why a draft's captured identity no longer matches the session, if it does not; checked in
/// order: session, context revision, message count, transcript digest, provider, model, route.
pub open spec fn capture_identity_error(
    session_id: Seq<char>,
    message_count: nat,
    context_revision: u64,
    transcript_digest: u64,
    provider_name: Seq<char>,
    model: Seq<char>,
    route: Seq<char>,
    identity: ContextDraftIdentity,
) -> Option<ServiceErrorModel> {
    if session_id != identity.session_id@ {
        Some(ServiceErrorModel::Stale("session ID changed"@))
    } else if context_revision != identity.base_context_revision {
        Some(
            ServiceErrorModel::Stale(
                "context revision changed from "@ + decimal(identity.base_context_revision as nat)
                    + " to "@ + decimal(context_revision as nat),
            ),
        )
    } else if message_count != identity.raw_message_count {
        Some(
            ServiceErrorModel::Stale(
                "raw message count changed from "@ + decimal(identity.raw_message_count as nat)
                    + " to "@ + decimal(message_count),
            ),
        )
    } else if transcript_digest != identity.transcript_digest {
        Some(ServiceErrorModel::Stale("authoritative transcript digest changed"@))
    } else if provider_name != identity.provider_name@ {
        Some(
            ServiceErrorModel::Stale(
                "provider changed from "@ + identity.provider_name@ + " to "@ + provider_name,
            ),
        )
    } else if model != identity.model@ {
        Some(ServiceErrorModel::Stale("model changed from "@ + identity.model@ + " to "@ + model))
    } else if route != identity.route@ {
        Some(ServiceErrorModel::Stale("route changed from "@ + identity.route@ + " to "@ + route))
    } else {
        None
    }
}

/// The stale error for a provider that now answers with another name.
pub open spec fn provider_changed(identity: ContextDraftIdentity, name: Seq<char>) -> ServiceErrorModel {
    ServiceErrorModel::Stale("provider changed from "@ + identity.provider_name@ + " to "@ + name)
}

/// The stale error for a provider that now answers with another model.
pub open spec fn model_changed(identity: ContextDraftIdentity, model: Seq<char>) -> ServiceErrorModel {
    ServiceErrorModel::Stale("model changed from "@ + identity.model@ + " to "@ + model)
}

fn stale4(a: &str, b: &str, c: &str, d: &str) -> (e: ContextServiceError)
    ensures
        e@ == ServiceErrorModel::Stale(a@ + b@ + c@ + d@),
{
    let mut m = concat3(a, b, c);
    m.append(d);
    ContextServiceError::Stale(m)
}

/// Checks that a draft still matches the session it was captured from. The transcript digest
/// is the caller's digest of the current transcript; the provider is asked for its name and
/// model (see [`capture_identity_error`]).
pub fn validate_capture_identity_parts<P: Provider>(
    session_id: &str,
    messages: &[StoredMessage],
    context_revision: u64,
    transcript_digest: u64,
    provider: &P,
    route: &str,
    identity: &ContextDraftIdentity,
) -> (r: Result<(), ContextServiceError>)
    ensures
        match capture_identity_error(
            session_id@,
            messages@.len(),
            context_revision,
            transcript_digest,
            identity.provider_name@,
            identity.model@,
            identity.route@,
            *identity,
        ) {
            Some(m) => r matches Err(e) && e@ == m,
            None => match r {
                Ok(()) => route@ == identity.route@,
                Err(e) => {
                    ||| exists|name: Seq<char>|
                        name != identity.provider_name@ && e@ == #[trigger] provider_changed(
                            *identity,
                            name,
                        )
                    ||| exists|model: Seq<char>|
                        model != identity.model@ && e@ == #[trigger] model_changed(*identity, model)
                    ||| route@ != identity.route@ && e@ == ServiceErrorModel::Stale(
                        "route changed from "@ + identity.route@ + " to "@ + route@,
                    )
                },
            },
        },
{
    if !str_eq(session_id, identity.session_id.as_str()) {
        return Err(ContextServiceError::Stale(String::from_str("session ID changed")));
    }
    if context_revision != identity.base_context_revision {
        return Err(
            stale4(
                "context revision changed from ",
                decimal_string(identity.base_context_revision).as_str(),
                " to ",
                decimal_string(context_revision).as_str(),
            ),
        );
    }
    if messages.len() != identity.raw_message_count {
        return Err(
            stale4(
                "raw message count changed from ",
                decimal_string(identity.raw_message_count as u64).as_str(),
                " to ",
                decimal_string(messages.len() as u64).as_str(),
            ),
        );
    }
    if transcript_digest != identity.transcript_digest {
        return Err(
            ContextServiceError::Stale(String::from_str("authoritative transcript digest changed")),
        );
    }
    let provider_name = provider.name();
    if !str_eq(provider_name.as_str(), identity.provider_name.as_str()) {
        let e = stale4(
            "provider changed from ",
            identity.provider_name.as_str(),
            " to ",
            provider_name.as_str(),
        );
        assert(e@ == provider_changed(*identity, provider_name@));
        return Err(e);
    }
    let model = provider.model();
    if !str_eq(model.as_str(), identity.model.as_str()) {
        let e = stale4("model changed from ", identity.model.as_str(), " to ", model.as_str());
        assert(e@ == model_changed(*identity, model@));
        return Err(e);
    }
    if !str_eq(route, identity.route.as_str()) {
        return Err(stale4("route changed from ", identity.route.as_str(), " to ", route));
    }
    Ok(())
}

/// Checks a draft against a directly owned session and its provider (see
/// [`validate_capture_identity_parts`]).
pub fn validate_capture_identity<P: Provider>(
    session: &ContextSession,
    provider: &P,
    route: &str,
    transcript_digest: u64,
    identity: &ContextDraftIdentity,
) -> (r: Result<(), ContextServiceError>)
    ensures
        match capture_identity_error(
            session.id@,
            session.messages@.len(),
            session.context_view.revision,
            transcript_digest,
            identity.provider_name@,
            identity.model@,
            identity.route@,
            *identity,
        ) {
            Some(m) => r matches Err(e) && e@ == m,
            None => match r {
                Ok(()) => route@ == identity.route@,
                Err(e) => {
                    ||| exists|name: Seq<char>|
                        name != identity.provider_name@ && e@ == #[trigger] provider_changed(
                            *identity,
                            name,
                        )
                    ||| exists|model: Seq<char>|
                        model != identity.model@ && e@ == #[trigger] model_changed(*identity, model)
                    ||| route@ != identity.route@ && e@ == ServiceErrorModel::Stale(
                        "route changed from "@ + identity.route@ + " to "@ + route@,
                    )
                },
            },
        },
{
    validate_capture_identity_parts(
        session.id.as_str(),
        session.messages.as_slice(),
        session.context_view.revision,
        transcript_digest,
        provider,
        route,
        identity,
    )
}

/// Bounds of the draft store.
#[derive(Clone, Copy, Debug)]
pub struct ContextServiceLimits {
    pub max_drafts: usize,
    pub max_total_bytes: usize,
    /// How long a draft stays applicable, in seconds.
    pub ttl_secs: u64,
    pub curator: ContextCuratorLimits,
}

impl Default for ContextServiceLimits {
    /// 32 drafts, 64 MiB in all, thirty minutes each, and the default curator limits.
    fn default() -> (r: Self)
        ensures
            r.max_drafts == 32,
            r.max_total_bytes == 67108864,
            r.ttl_secs == 1800,
            r.curator.max_request_bytes == 33554432,
            r.curator.max_response_bytes == 2097152,
            r.curator.timeout_secs == 600,
    {
        ContextServiceLimits {
            max_drafts: 32,
            max_total_bytes: 64 * 1024 * 1024,
            ttl_secs: 30 * 60,
            curator: ContextCuratorLimits::default(),
        }
    }
}

/// The provider-facing kind of a stored reasoning block kind, if it is one.
pub open spec fn spec_provider_reasoning_kind(kind: StoredContextBlockKind) -> Option<ContextReasoningBlockKind> {
    match kind {
        StoredContextBlockKind::Reasoning => Some(ContextReasoningBlockKind::GenericReasoning),
        StoredContextBlockKind::ReasoningTrace => Some(ContextReasoningBlockKind::ReasoningTrace),
        StoredContextBlockKind::AnthropicThinking => Some(ContextReasoningBlockKind::AnthropicThinking),
        StoredContextBlockKind::OpenAiReasoning => Some(ContextReasoningBlockKind::OpenAiReasoning),
        _ => None,
    }
}

/// The provider-facing kind of a stored reasoning block kind (see
/// [`spec_provider_reasoning_kind`]).
pub fn provider_reasoning_kind(kind: StoredContextBlockKind) -> (r: Option<ContextReasoningBlockKind>)
    ensures
        r == spec_provider_reasoning_kind(kind),
{
    match kind {
        StoredContextBlockKind::Reasoning => Some(ContextReasoningBlockKind::GenericReasoning),
        StoredContextBlockKind::ReasoningTrace => Some(ContextReasoningBlockKind::ReasoningTrace),
        StoredContextBlockKind::AnthropicThinking => Some(ContextReasoningBlockKind::AnthropicThinking),
        StoredContextBlockKind::OpenAiReasoning => Some(ContextReasoningBlockKind::OpenAiReasoning),
        _ => None,
    }
}

/// The `Debug` name of a provider reasoning kind.
pub open spec fn reasoning_kind_name(kind: ContextReasoningBlockKind) -> Seq<char> {
    match kind {
        ContextReasoningBlockKind::GenericReasoning => "GenericReasoning"@,
        ContextReasoningBlockKind::AnthropicThinking => "AnthropicThinking"@,
        ContextReasoningBlockKind::OpenAiReasoning => "OpenAiReasoning"@,
        ContextReasoningBlockKind::ReasoningTrace => "ReasoningTrace"@,
    }
}

/// The operation IDs and kinds that one stored reasoning-suppression kind contributes.
pub open spec fn reasoning_ops(
    prefix: Seq<char>,
    kinds: Seq<StoredContextBlockKind>,
) -> Seq<(Seq<char>, ContextProjectionOperationKind)>
    decreases kinds.len(),
{
    if kinds.len() == 0 {
        Seq::empty()
    } else {
        let prev = reasoning_ops(prefix, kinds.drop_last());
        match spec_provider_reasoning_kind(kinds.last()) {
            Some(k) => prev.push(
                (
                    prefix + "reasoning:"@ + reasoning_kind_name(k),
                    ContextProjectionOperationKind::ReasoningSuppression { block_kind: k },
                ),
            ),
            None => prev,
        }
    }
}

/// The validation operations of one operation of a transaction.
pub open spec fn operation_validation_ops(
    transaction_id: Seq<char>,
    index: nat,
    op: StoredContextOperation,
) -> Seq<(Seq<char>, ContextProjectionOperationKind)> {
    let prefix = transaction_id + ":"@ + decimal(index) + ":"@;
    match op {
        StoredContextOperation::RangeSummary(_) => seq![
            (prefix + "range"@, ContextProjectionOperationKind::RangeSummary),
        ],
        StoredContextOperation::ToolResultDistillation(_) => seq![
            (prefix + "tool"@, ContextProjectionOperationKind::ToolResultDistillation),
        ],
        StoredContextOperation::ReasoningSuppression(s) => reasoning_ops(
            prefix,
            s.replay_block_kinds@,
        ),
    }
}

/// The validation operations of the first `k` operations of a transaction.
pub open spec fn transaction_validation_ops(
    t: StoredContextTransaction,
    k: int,
) -> Seq<(Seq<char>, ContextProjectionOperationKind)>
    decreases k,
{
    if k <= 0 {
        Seq::empty()
    } else {
        transaction_validation_ops(t, k - 1) + operation_validation_ops(
            t.id@,
            (k - 1) as nat,
            t.operations@[k - 1],
        )
    }
}

/// The validation operations of the first `k` transactions, active ones only.
pub open spec fn state_validation_ops(
    txs: Seq<StoredContextTransaction>,
    k: int,
) -> Seq<(Seq<char>, ContextProjectionOperationKind)>
    decreases k,
{
    if k <= 0 {
        Seq::empty()
    } else {
        let prev = state_validation_ops(txs, k - 1);
        let t = txs[k - 1];
        if spec_is_active(t) {
            prev + transaction_validation_ops(t, t.operations@.len() as int)
        } else {
            prev
        }
    }
}

pub open spec fn op_views(ops: Seq<ContextProjectionValidationOperation>) -> Seq<
    (Seq<char>, ContextProjectionOperationKind),
> {
    ops.map_values(|o: ContextProjectionValidationOperation| (o.id@, o.kind))
}

fn push_validation_op(
    out: &mut Vec<ContextProjectionValidationOperation>,
    id: String,
    kind: ContextProjectionOperationKind,
)
    ensures
        op_views(final(out)@) == op_views(old(out)@).push((id@, kind)),
{
    let ghost before = out@;
    out.push(ContextProjectionValidationOperation { id, kind });
    proof {
        assert(op_views(out@) =~= op_views(before).push((id@, kind)));
    }
}

/// The operations a provider must validate for a context view: for each active transaction,
/// each range summary and tool distillation once, and each reasoning suppression once per
/// provider-facing block kind it hides, with IDs `transaction:index:kind`.
pub fn projection_validation_operations(state: &StoredContextViewState) -> (r: Vec<
    ContextProjectionValidationOperation,
>)
    ensures
        op_views(r@) == state_validation_ops(state.transactions@, state.transactions@.len() as int),
{
    let mut out: Vec<ContextProjectionValidationOperation> = Vec::new();
    let txs = &state.transactions;
    let mut t: usize = 0;
    while t < txs.len()
        invariant
            t <= txs@.len(),
            txs == &state.transactions,
            op_views(out@) == state_validation_ops(txs@, t as int),
        decreases txs.len() - t,
    {
        let tx = &txs[t];
        if tx.is_active() {
            let ghost base = op_views(out@);
            let mut o: usize = 0;
            while o < tx.operations.len()
                invariant
                    o <= tx.operations@.len(),
                    op_views(out@) == base + transaction_validation_ops(*tx, o as int),
                decreases tx.operations.len() - o,
            {
                let prefix = concat3(tx.id.as_str(), ":", decimal_string(o as u64).as_str());
                let mut prefix = prefix;
                prefix.append(":");
                let ghost before = op_views(out@);
                match &tx.operations[o] {
                    StoredContextOperation::RangeSummary(_) => {
                        push_validation_op(
                            &mut out,
                            prefix.concat("range"),
                            ContextProjectionOperationKind::RangeSummary,
                        );
                    },
                    StoredContextOperation::ToolResultDistillation(_) => {
                        push_validation_op(
                            &mut out,
                            prefix.concat("tool"),
                            ContextProjectionOperationKind::ToolResultDistillation,
                        );
                    },
                    StoredContextOperation::ReasoningSuppression(sup) => {
                        let kinds = &sup.replay_block_kinds;
                        let mut k: usize = 0;
                        while k < kinds.len()
                            invariant
                                k <= kinds@.len(),
                                op_views(out@) == before + reasoning_ops(
                                    prefix@,
                                    kinds@.take(k as int),
                                ),
                            decreases kinds.len() - k,
                        {
                            proof {
                                assert(kinds@.take(k + 1).drop_last() =~= kinds@.take(k as int));
                            }
                            match provider_reasoning_kind(kinds[k]) {
                                Some(block_kind) => {
                                    let name = match block_kind {
                                        ContextReasoningBlockKind::GenericReasoning => "GenericReasoning",
                                        ContextReasoningBlockKind::AnthropicThinking => "AnthropicThinking",
                                        ContextReasoningBlockKind::OpenAiReasoning => "OpenAiReasoning",
                                        ContextReasoningBlockKind::ReasoningTrace => "ReasoningTrace",
                                    };
                                    let id = concat3(prefix.as_str(), "reasoning:", name);
                                    push_validation_op(
                                        &mut out,
                                        id,
                                        ContextProjectionOperationKind::ReasoningSuppression {
                                            block_kind,
                                        },
                                    );
                                },
                                None => {},
                            }
                            k += 1;
                        }
                        proof {
                            assert(kinds@.take(kinds@.len() as int) =~= kinds@);
                        }
                    },
                }
                proof {
                    assert(op_views(out@) == before + operation_validation_ops(
                        tx.id@,
                        o as nat,
                        tx.operations@[o as int],
                    ));
                    assert(base + transaction_validation_ops(*tx, o + 1) =~= base
                        + transaction_validation_ops(*tx, o as int) + operation_validation_ops(
                        tx.id@,
                        o as nat,
                        tx.operations@[o as int],
                    ));
                }
                o += 1;
            }
        }
        t += 1;
    }
    out
}

/// Validates every active operation of a context view against a provider: a view with
/// nothing to validate (a raw or default view) needs no gate and gives `None`; otherwise the
/// provider's report on those operations, refused unless it is fully supported.
pub fn require_supported_context_view<P: Provider>(
    provider: &P,
    messages: &[Message],
    state: &StoredContextViewState,
) -> (r: Result<Option<ContextProjectionValidationReport>, UnsupportedProjectedContext>)
    ensures
        ({
            let ops = state_validation_ops(state.transactions@, state.transactions@.len() as int);
            match r {
                Ok(None) => ops.len() == 0,
                Ok(Some(report)) => ops.len() > 0 && report.spec_is_supported(),
                Err(error) => ops.len() > 0 && !error.report.spec_is_supported(),
            }
        }),
{
    let operations = projection_validation_operations(state);
    if operations.len() == 0 {
        return Ok(None);
    }
    match require_supported_projected_messages(provider, messages, operations.as_slice()) {
        Ok(report) => Ok(Some(report)),
        Err(error) => Err(error),
    }
}

/// `state` with one more revision holding a newly applied transaction.
pub open spec fn with_new_transaction(
    state: StoredContextViewState,
    next: StoredContextViewState,
    transaction_id: Seq<char>,
    revision: u64,
    timestamp: i64,
) -> bool {
    let t = next.transactions@.last();
    &&& next.revision == revision
    &&& next.emergency_policy == state.emergency_policy
    &&& next.transactions@.drop_last() == state.transactions@
    &&& next.transactions@.len() == state.transactions@.len() + 1
    &&& t.id@ == transaction_id
    &&& t.base_revision == state.revision
    &&& t.created_at == timestamp
    &&& t.status_events@.len() == 1
    &&& t.status_events@[0].revision == revision
    &&& t.status_events@[0].timestamp == timestamp
    &&& t.status_events@[0].kind == StoredContextTransactionStatusKind::Applied
    &&& t.status_events@[0].reason is None
    &&& t.application is None
}

/// Appends a transaction applied now to a context view at the given revision; refused when
/// the clock cannot be read.
pub fn state_with_transaction(
    base_state: StoredContextViewState,
    transaction_id: &str,
    revision: u64,
    authorization: StoredContextAuthorization,
    operations: Vec<StoredContextOperation>,
    economics: Option<StoredContextEconomics>,
) -> (r: Result<StoredContextViewState, ContextServiceError>)
    ensures
        match r {
            Ok(next) => {
                &&& exists|timestamp: i64|
                    with_new_transaction(base_state, next, transaction_id@, revision, timestamp)
                &&& next.transactions@.last().operations == operations
                &&& next.transactions@.last().authorization == authorization
                &&& next.transactions@.last().economics == economics
                &&& next.transactions@.last().emergency_audit is None
            },
            Err(e) => e@ == ServiceErrorModel::Runtime(clock_error_text()),
        },
{
    let timestamp = now_unix_millis()?;
    Ok(
        state_with_transaction_at(
            base_state,
            transaction_id,
            revision,
            timestamp,
            authorization,
            operations,
            economics,
        ),
    )
}

/// Appends a newly applied transaction, stamped `timestamp`, to a context view at the given
/// revision.
pub fn state_with_transaction_at(
    base_state: StoredContextViewState,
    transaction_id: &str,
    revision: u64,
    timestamp: i64,
    authorization: StoredContextAuthorization,
    operations: Vec<StoredContextOperation>,
    economics: Option<StoredContextEconomics>,
) -> (r: StoredContextViewState)
    ensures
        with_new_transaction(base_state, r, transaction_id@, revision, timestamp),
        r.transactions@.last().operations == operations,
        r.transactions@.last().authorization == authorization,
        r.transactions@.last().economics == economics,
        r.transactions@.last().emergency_audit is None,
{
    state_with_transaction_and_audit_at(
        base_state,
        transaction_id,
        revision,
        timestamp,
        authorization,
        operations,
        economics,
        None,
    )
}

/// Appends a transaction applied now, with its emergency audit record, to a context view at
/// the given revision; refused when the clock cannot be read.
pub fn state_with_transaction_and_audit(
    base_state: StoredContextViewState,
    transaction_id: &str,
    revision: u64,
    authorization: StoredContextAuthorization,
    operations: Vec<StoredContextOperation>,
    economics: Option<StoredContextEconomics>,
    emergency_audit: Option<StoredContextEmergencyAudit>,
) -> (r: Result<StoredContextViewState, ContextServiceError>)
    ensures
        match r {
            Ok(next) => {
                &&& exists|timestamp: i64|
                    with_new_transaction(base_state, next, transaction_id@, revision, timestamp)
                &&& next.transactions@.last().operations == operations
                &&& next.transactions@.last().authorization == authorization
                &&& next.transactions@.last().economics == economics
                &&& next.transactions@.last().emergency_audit == emergency_audit
            },
            Err(e) => e@ == ServiceErrorModel::Runtime(clock_error_text()),
        },
{
    let timestamp = now_unix_millis()?;
    Ok(
        state_with_transaction_and_audit_at(
            base_state,
            transaction_id,
            revision,
            timestamp,
            authorization,
            operations,
            economics,
            emergency_audit,
        ),
    )
}

/// Appends a newly applied transaction, stamped `timestamp` and carrying its emergency audit
/// record, to a context view at the given revision.
pub fn state_with_transaction_and_audit_at(
    base_state: StoredContextViewState,
    transaction_id: &str,
    revision: u64,
    timestamp: i64,
    authorization: StoredContextAuthorization,
    operations: Vec<StoredContextOperation>,
    economics: Option<StoredContextEconomics>,
    emergency_audit: Option<StoredContextEmergencyAudit>,
) -> (r: StoredContextViewState)
    ensures
        with_new_transaction(base_state, r, transaction_id@, revision, timestamp),
        r.transactions@.last().operations == operations,
        r.transactions@.last().authorization == authorization,
        r.transactions@.last().economics == economics,
        r.transactions@.last().emergency_audit == emergency_audit,
{
    let mut state = base_state;
    let base_revision = state.revision;
    let ghost before = state.transactions@;
    let mut events: Vec<StoredContextStatusEvent> = Vec::new();
    events.push(
        StoredContextStatusEvent {
            revision,
            timestamp,
            kind: StoredContextTransactionStatusKind::Applied,
            reason: None,
        },
    );
    state.revision = revision;
    state.transactions.push(
        StoredContextTransaction {
            id: String::from_str(transaction_id),
            created_at: timestamp,
            base_revision,
            authorization,
            operations,
            status_events: events,
            application: None,
            economics,
            emergency_audit,
        },
    );
    proof {
        assert(state.transactions@.drop_last() =~= before);
    }
    state
}

/// The proposed context view of a draft: unchanged when it has no operation (its revision
/// must then be the current one), else with one transaction applied now at an advancing
/// revision.
pub fn proposed_state_for_operations(
    base_state: StoredContextViewState,
    transaction_id: &str,
    proposed_revision: u64,
    authorization: StoredContextAuthorization,
    operations: Vec<StoredContextOperation>,
) -> (r: Result<StoredContextViewState, ContextServiceError>)
    ensures
        match r {
            Ok(next) => if operations@.len() == 0 {
                proposed_revision == base_state.revision && next == base_state
            } else {
                &&& proposed_revision > base_state.revision
                &&& exists|timestamp: i64|
                    with_new_transaction(
                        base_state,
                        next,
                        transaction_id@,
                        proposed_revision,
                        timestamp,
                    )
                &&& next.transactions@.last().operations == operations
            },
            Err(e) => {
                &&& e is Runtime
                &&& if operations@.len() == 0 {
                    proposed_revision != base_state.revision
                } else {
                    proposed_revision <= base_state.revision || e@ == ServiceErrorModel::Runtime(
                        clock_error_text(),
                    )
                }
            },
        },
{
    if operations.len() == 0 {
        if proposed_revision != base_state.revision {
            let mut m = concat3(
                "no-change preview proposed revision ",
                decimal_string(proposed_revision).as_str(),
                " instead of current revision ",
            );
            m.append(decimal_string(base_state.revision).as_str());
            return Err(ContextServiceError::Runtime(m));
        }
        return Ok(base_state);
    }
    if proposed_revision <= base_state.revision {
        let mut m = concat3(
            "context-changing preview proposed non-advancing revision ",
            decimal_string(proposed_revision).as_str(),
            " from ",
        );
        m.append(decimal_string(base_state.revision).as_str());
        return Err(ContextServiceError::Runtime(m));
    }
    state_with_transaction(base_state, transaction_id, proposed_revision, authorization, operations, None)
}

} // verus!
