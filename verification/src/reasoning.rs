//! Which kinds of replayed reasoning the active provider could remove from a transcript: each
//! kind present is submitted to the provider's request-builder validation, and only the kinds
//! it supports are offered.

use vstd::prelude::*;

use crate::capture::kind_order;
use crate::draft::{provider_reasoning_kind, spec_provider_reasoning_kind};
use crate::model::{context_block_kind, spec_block_kind, Message, StoredContextBlockKind, StoredMessage};
use crate::provider::{
    validate_projected_messages, ContextProjectionOperationKind,
    ContextProjectionValidationOperation, ContextProjectionValidationReport,
    ContextProjectionValidationStatus, Provider,
};
use crate::text::{chars_of, concat2, decimal, decimal_string, slice_chars, starts_with_chars};

verus! {

/// The prefix of the operation IDs of reasoning kinds submitted for validation.
pub open spec fn reasoning_op_prefix() -> Seq<char> {
    "snapshot-reasoning-"@
}

/// Whether some block of some message has kind `k`.
pub open spec fn transcript_has_kind(msgs: Seq<StoredMessage>, k: StoredContextBlockKind) -> bool {
    exists|i: int, j: int|
        0 <= i < msgs.len() && 0 <= j < msgs[i].content@.len() && spec_block_kind(
            #[trigger] msgs[i].content@[j],
        ) == k
}

/// Whether `k` is a reasoning kind present in the transcript.
pub open spec fn present_reasoning(msgs: Seq<StoredMessage>, k: StoredContextBlockKind) -> bool {
    spec_provider_reasoning_kind(k) is Some && transcript_has_kind(msgs, k)
}

/// The reasoning kinds present in a transcript, distinct, in kind order.
pub open spec fn present_reasoning_kinds(msgs: Seq<StoredMessage>) -> Seq<StoredContextBlockKind> {
    kind_order().filter(|k: StoredContextBlockKind| present_reasoning(msgs, k))
}

/// Whether operation `op` submits reasoning kind `kind` at position `index`.
pub open spec fn submits(
    op: ContextProjectionValidationOperation,
    index: int,
    kind: StoredContextBlockKind,
) -> bool {
    &&& op.id@ == reasoning_op_prefix() + decimal(index as nat)
    &&& spec_provider_reasoning_kind(kind) matches Some(pk) && op.kind
        == (ContextProjectionOperationKind::ReasoningSuppression { block_kind: pk })
}

/// The value of some decimal digits.
pub open spec fn digits_value(s: Seq<char>) -> nat
    decreases s.len(),
{
    if s.len() == 0 {
        0
    } else {
        digits_value(s.drop_last()) * 10 + ((s.last() as nat) - ('0' as nat)) as nat
    }
}

/// Whether every character is an ASCII digit.
pub open spec fn all_digits(s: Seq<char>) -> bool {
    forall|i: int| 0 <= i < s.len() ==> '0' <= #[trigger] s[i] <= '9'
}

/// `str::parse::<usize>`: an optional `+`, then one or more ASCII digits whose value fits.
pub open spec fn parse_usize(s: Seq<char>) -> Option<nat> {
    let digits = if s.len() > 0 && s[0] == '+' {
        s.drop_first()
    } else {
        s
    };
    if digits.len() > 0 && all_digits(digits) && digits_value(digits) <= usize::MAX {
        Some(digits_value(digits))
    } else {
        None
    }
}

/// The position an operation ID names, if it is a reasoning operation ID.
pub open spec fn reasoning_index(id: Seq<char>) -> Option<nat> {
    let p = reasoning_op_prefix();
    if id.len() >= p.len() && id.take(p.len() as int) == p {
        parse_usize(id.skip(p.len() as int))
    } else {
        None
    }
}

/// Whether the report supports the kind at position `i` of `kinds`: the builder accepted the
/// projection and a supported finding names that position.
pub open spec fn report_supports(report: ContextProjectionValidationReport, i: nat) -> bool {
    &&& report.builder_status == ContextProjectionValidationStatus::Supported
    &&& exists|f: int|
        0 <= f < report.findings@.len() && (#[trigger] report.findings@[f]).status
            == ContextProjectionValidationStatus::Supported && (report.findings@[f].operation_id matches Some(
            id,
        ) && reasoning_index(id@) == Some(i))
}

/// The kinds of `kinds` the report supports, in kind order.
pub open spec fn supported_kinds(
    kinds: Seq<StoredContextBlockKind>,
    report: ContextProjectionValidationReport,
) -> Seq<StoredContextBlockKind> {
    kind_order().filter(
        |k: StoredContextBlockKind|
            exists|i: int| 0 <= i < kinds.len() && kinds[i] == k && report_supports(report, i as nat),
    )
}

proof fn lemma_digits_value_grows(s: Seq<char>, i: int)
    requires
        0 <= i <= s.len(),
        all_digits(s),
    ensures
        digits_value(s.take(i)) <= digits_value(s),
    decreases s.len() - i,
{
    if i < s.len() {
        lemma_digits_value_grows(s, i + 1);
        assert(s.take(i + 1).drop_last() =~= s.take(i));
        assert('0' <= s[i] <= '9');
    } else {
        assert(s.take(i) =~= s);
    }
}

/// `str::parse::<usize>` (see [`parse_usize`]).
pub fn parse_decimal_usize(s: &Vec<char>) -> (r: Option<usize>)
    ensures
        match r {
            Some(v) => parse_usize(s@) == Some(v as nat),
            None => parse_usize(s@) is None,
        },
{
    let mut start: usize = 0;
    if s.len() > 0 && s[0] == '+' {
        start = 1;
    }
    let ghost digits = if s@.len() > 0 && s@[0] == '+' {
        s@.drop_first()
    } else {
        s@
    };
    assert(digits =~= s@.skip(start as int));
    if start == s.len() {
        return None;
    }
    let mut value: usize = 0;
    let mut i: usize = start;
    while i < s.len()
        invariant
            start <= i <= s@.len(),
            start < s@.len(),
            digits == s@.skip(start as int),
            digits == if s@.len() > 0 && s@[0] == '+' {
                s@.drop_first()
            } else {
                s@
            },
            all_digits(digits.take(i - start)),
            value == digits_value(digits.take(i - start)),
        decreases s.len() - i,
    {
        let c = s[i];
        proof {
            assert(digits.take(i - start + 1).drop_last() =~= digits.take(i - start));
            assert(digits[i - start] == c);
        }
        if c < '0' || c > '9' {
            proof {
                assert(!all_digits(digits));
            }
            return None;
        }
        let d = (c as u32 - '0' as u32) as usize;
        let shifted = value.checked_mul(10);
        let next = match shifted {
            Some(v) => v.checked_add(d),
            None => None,
        };
        match next {
            Some(v) => {
                value = v;
            },
            None => {
                proof {
                    assert(all_digits(digits.take(i - start + 1)));
                    assert(digits_value(digits.take(i - start + 1)) > usize::MAX);
                    if all_digits(digits) {
                        lemma_digits_value_grows(digits, i - start + 1);
                    }
                }
                return None;
            },
        }
        i += 1;
    }
    proof {
        assert(digits.take(i - start) =~= digits);
    }
    Some(value)
}

/// The reasoning kinds present in a transcript (see [`present_reasoning_kinds`]).
pub fn reasoning_kinds_present(messages: &[StoredMessage]) -> (r: Vec<StoredContextBlockKind>)
    ensures
        r@ == present_reasoning_kinds(messages@),
{
    let order = crate::capture::kind_order_vec();
    let mut out: Vec<StoredContextBlockKind> = Vec::new();
    let mut k: usize = 0;
    while k < order.len()
        invariant
            k <= order@.len(),
            order@ == kind_order(),
            out@ == order@.take(k as int).filter(
                |x: StoredContextBlockKind| present_reasoning(messages@, x),
            ),
        decreases order.len() - k,
    {
        let kind = order[k];
        let mut present = false;
        if provider_reasoning_kind(kind).is_some() {
            let mut i: usize = 0;
            while i < messages.len() && !present
                invariant
                    i <= messages@.len(),
                    present ==> transcript_has_kind(messages@, kind),
                    !present ==> forall|a: int, b: int|
                        0 <= a < i && 0 <= b < messages@[a].content@.len() ==> spec_block_kind(
                            #[trigger] messages@[a].content@[b],
                        ) != kind,
                decreases messages.len() - i,
            {
                let blocks = &messages[i].content;
                let mut j: usize = 0;
                while j < blocks.len() && !present
                    invariant
                        i < messages@.len(),
                        *blocks == messages@[i as int].content,
                        j <= blocks@.len(),
                        present ==> transcript_has_kind(messages@, kind),
                        !present ==> forall|a: int, b: int|
                            0 <= a < i && 0 <= b < messages@[a].content@.len() ==> spec_block_kind(
                                #[trigger] messages@[a].content@[b],
                            ) != kind,
                        !present ==> forall|b: int|
                            0 <= b < j ==> spec_block_kind(#[trigger] blocks@[b]) != kind,
                    decreases blocks.len() - j,
                {
                    if context_block_kind(&blocks[j]) == kind {
                        present = true;
                        assert(spec_block_kind(messages@[i as int].content@[j as int]) == kind);
                    }
                    j += 1;
                }
                proof {
                    if !present {
                        assert forall|a: int, b: int|
                            0 <= a < i + 1 && 0 <= b < messages@[a].content@.len() implies spec_block_kind(
                            #[trigger] messages@[a].content@[b],
                        ) != kind by {
                            if a == i {
                                assert(messages@[a].content@[b] == blocks@[b]);
                            }
                        }
                    }
                }
                i += 1;
            }
        }
        if present {
            out.push(kind);
        }
        proof {
            let f = |x: StoredContextBlockKind| present_reasoning(messages@, x);
            assert(order@.take(k + 1).drop_last() =~= order@.take(k as int));
            reveal(Seq::filter);
            assert(f(kind) == present);
            assert(out@ =~= order@.take(k + 1).filter(f));
        }
        k += 1;
    }
    proof {
        assert(order@.take(order@.len() as int) =~= order@);
    }
    out
}

/// The validation operations that submit each kind at its position.
pub fn reasoning_validation_operations(kinds: &Vec<StoredContextBlockKind>) -> (r: Vec<
    ContextProjectionValidationOperation,
>)
    requires
        forall|i: int| 0 <= i < kinds@.len() ==> spec_provider_reasoning_kind(#[trigger] kinds@[i]) is Some,
    ensures
        r@.len() == kinds@.len(),
        forall|i: int| 0 <= i < kinds@.len() ==> submits(#[trigger] r@[i], i, kinds@[i]),
{
    let mut out: Vec<ContextProjectionValidationOperation> = Vec::new();
    let mut i: usize = 0;
    while i < kinds.len()
        invariant
            i <= kinds@.len(),
            out@.len() == i,
            forall|k: int| 0 <= k < kinds@.len() ==> spec_provider_reasoning_kind(#[trigger] kinds@[k]) is Some,
            forall|k: int| 0 <= k < i ==> submits(#[trigger] out@[k], k, kinds@[k]),
        decreases kinds.len() - i,
    {
        let pk = match provider_reasoning_kind(kinds[i]) {
            Some(pk) => pk,
            None => {
                assert(false);
                return out;
            },
        };
        let id = concat2("snapshot-reasoning-", decimal_string(i as u64).as_str());
        out.push(
            ContextProjectionValidationOperation {
                id,
                kind: ContextProjectionOperationKind::ReasoningSuppression { block_kind: pk },
            },
        );
        i += 1;
    }
    out
}

/// The position a reasoning operation ID names (see [`reasoning_index`]).
pub fn reasoning_op_index(id: &str) -> (r: Option<usize>)
    ensures
        match r {
            Some(i) => reasoning_index(id@) == Some(i as nat),
            None => reasoning_index(id@) is None,
        },
{
    let chars = chars_of(id);
    let prefix = chars_of("snapshot-reasoning-");
    if !starts_with_chars(&chars, &prefix) {
        return None;
    }
    let rest = slice_chars(&chars, prefix.len(), chars.len());
    assert(rest@ =~= id@.skip(prefix@.len() as int));
    parse_decimal_usize(&rest)
}

/// The kinds of `kinds` that a validation report supports, in kind order (see
/// [`supported_kinds`]).
pub fn removable_kinds_from_report(
    kinds: &Vec<StoredContextBlockKind>,
    report: &ContextProjectionValidationReport,
) -> (r: Vec<StoredContextBlockKind>)
    ensures
        r@ == supported_kinds(kinds@, *report),
{
    let mut marked: Vec<bool> = Vec::new();
    let mut i: usize = 0;
    while i < kinds.len()
        invariant
            i <= kinds@.len(),
            marked@.len() == i,
            forall|k: int| 0 <= k < i ==> !(#[trigger] marked@[k]),
        decreases kinds.len() - i,
    {
        marked.push(false);
        i += 1;
    }
    let builder_supported = report.builder_status == ContextProjectionValidationStatus::Supported;
    let findings = &report.findings;
    let mut f: usize = 0;
    while f < findings.len()
        invariant
            f <= findings@.len(),
            *findings == report.findings,
            builder_supported == (report.builder_status == ContextProjectionValidationStatus::Supported),
            marked@.len() == kinds@.len(),
            forall|k: int|
                0 <= k < kinds@.len() ==> #[trigger] marked@[k] == (builder_supported && exists|g: int|
                    0 <= g < f && (#[trigger] findings@[g]).status
                        == ContextProjectionValidationStatus::Supported && (findings@[g].operation_id matches Some(
                        id,
                    ) && reasoning_index(id@) == Some(k as nat))),
        decreases findings.len() - f,
    {
        let finding = &findings[f];
        let ghost before = marked@;
        if builder_supported && finding.status == ContextProjectionValidationStatus::Supported {
            match &finding.operation_id {
                Some(id) => match reasoning_op_index(id.as_str()) {
                    Some(index) => {
                        if index < marked.len() {
                            marked.set(index, true);
                        }
                    },
                    None => {},
                },
                None => {},
            }
        }
        proof {
            assert forall|k: int| 0 <= k < kinds@.len() implies #[trigger] marked@[k] == (
            builder_supported && exists|g: int|
                0 <= g < f + 1 && (#[trigger] findings@[g]).status
                    == ContextProjectionValidationStatus::Supported && (findings@[g].operation_id matches Some(
                    id,
                ) && reasoning_index(id@) == Some(k as nat))) by {
                if builder_supported && finding.status == ContextProjectionValidationStatus::Supported
                    && (finding.operation_id matches Some(id) && reasoning_index(id@) == Some(
                    k as nat,
                )) {
                    assert(findings@[f as int] == *finding);
                } else {
                    assert(marked@[k] == before[k]);
                    if builder_supported && exists|g: int|
                        0 <= g < f + 1 && (#[trigger] findings@[g]).status
                            == ContextProjectionValidationStatus::Supported && (findings@[g].operation_id matches Some(
                            id,
                        ) && reasoning_index(id@) == Some(k as nat)) {
                        let g = choose|g: int|
                            0 <= g < f + 1 && (#[trigger] findings@[g]).status
                                == ContextProjectionValidationStatus::Supported && (findings@[g].operation_id matches Some(
                                id,
                            ) && reasoning_index(id@) == Some(k as nat));
                        if g == f {
                            assert(findings@[g] == *finding);
                        }
                    }
                }
            }
        }
        f += 1;
    }
    let order = crate::capture::kind_order_vec();
    let mut out: Vec<StoredContextBlockKind> = Vec::new();
    let ghost pred = |k: StoredContextBlockKind|
        exists|i: int| 0 <= i < kinds@.len() && kinds@[i] == k && report_supports(*report, i as nat);
    let mut o: usize = 0;
    while o < order.len()
        invariant
            o <= order@.len(),
            order@ == kind_order(),
            marked@.len() == kinds@.len(),
            pred == (|k: StoredContextBlockKind|
                exists|i: int| 0 <= i < kinds@.len() && kinds@[i] == k && report_supports(*report, i as nat)),
            forall|k: int| 0 <= k < kinds@.len() ==> #[trigger] marked@[k] == report_supports(*report, k as nat),
            out@ == order@.take(o as int).filter(pred),
        decreases order.len() - o,
    {
        let kind = order[o];
        let mut found = false;
        let mut i: usize = 0;
        while i < kinds.len() && !found
            invariant
                i <= kinds@.len(),
                marked@.len() == kinds@.len(),
                forall|k: int| 0 <= k < kinds@.len() ==> #[trigger] marked@[k] == report_supports(*report, k as nat),
                found ==> pred(kind),
                pred == (|k: StoredContextBlockKind|
                    exists|i: int| 0 <= i < kinds@.len() && kinds@[i] == k && report_supports(*report, i as nat)),
                !found ==> forall|k: int| 0 <= k < i ==> !(kinds@[k] == kind && #[trigger] marked@[k]),
            decreases kinds.len() - i,
        {
            if kinds[i] == kind && marked[i] {
                found = true;
                assert(kinds@[i as int] == kind && report_supports(*report, i as nat));
            }
            i += 1;
        }
        if found {
            out.push(kind);
        }
        proof {
            assert(order@.take(o + 1).drop_last() =~= order@.take(o as int));
            reveal(Seq::filter);
            if !found {
                assert forall|k: int| 0 <= k < kinds@.len() implies !(kinds@[k] == kind && report_supports(*report, k as nat)) by {
                    assert(marked@[k] == report_supports(*report, k as nat));
                }
            }
            assert(pred(kind) == found);
            assert(out@ =~= order@.take(o + 1).filter(pred));
        }
        o += 1;
    }
    proof {
        assert(order@.take(order@.len() as int) =~= order@);
        assert(pred == (|k: StoredContextBlockKind|
            exists|i: int| 0 <= i < kinds@.len() && kinds@[i] == k && report_supports(*report, i as nat)));
    }
    out
}

/// The reasoning kinds present in the raw transcript that the provider's request builder can
/// remove from the projected history: each present kind is submitted for validation at its
/// position, and those it supports are returned in kind order. Nothing is submitted when no
/// reasoning is present.
pub fn provider_removable_reasoning_kinds<P: Provider>(
    provider: &P,
    projected_messages: &[Message],
    raw_messages: &[StoredMessage],
) -> (r: Vec<StoredContextBlockKind>)
    ensures
        exists|report: ContextProjectionValidationReport|
            r@ == supported_kinds(present_reasoning_kinds(raw_messages@), report),
        forall|i: int| 0 <= i < r@.len() ==> present_reasoning(raw_messages@, #[trigger] r@[i]),
{
    let kinds = reasoning_kinds_present(raw_messages);
    proof {
        assert forall|i: int| 0 <= i < kinds@.len() implies spec_provider_reasoning_kind(
            #[trigger] kinds@[i],
        ) is Some by {
            let f = |k: StoredContextBlockKind| present_reasoning(raw_messages@, k);
            kind_order().filter_lemma(f);
            assert(f(kinds@[i]));
        }
    }
    if kinds.len() == 0 {
        let r: Vec<StoredContextBlockKind> = Vec::new();
        proof {
            let any: ContextProjectionValidationReport = arbitrary();
            let pred = |k: StoredContextBlockKind|
                exists|i: int| 0 <= i < kinds@.len() && kinds@[i] == k && report_supports(any, i as nat);
            kind_order().filter_lemma(pred);
            if supported_kinds(kinds@, any).len() > 0 {
                assert(pred(supported_kinds(kinds@, any)[0]));
            }
            assert(r@ =~= supported_kinds(present_reasoning_kinds(raw_messages@), any));
        }
        return r;
    }
    let operations = reasoning_validation_operations(&kinds);
    let report = validate_projected_messages(provider, projected_messages, &operations);
    let r = removable_kinds_from_report(&kinds, &report);
    proof {
        let pred = |k: StoredContextBlockKind|
            exists|i: int| 0 <= i < kinds@.len() && kinds@[i] == k && report_supports(report, i as nat);
        kind_order().filter_lemma(pred);
        assert forall|i: int| 0 <= i < r@.len() implies present_reasoning(raw_messages@, #[trigger] r@[i]) by {
            assert(pred(r@[i]));
            let j = choose|j: int| 0 <= j < kinds@.len() && kinds@[j] == r@[i] && report_supports(report, j as nat);
            let f = |k: StoredContextBlockKind| present_reasoning(raw_messages@, k);
            kind_order().filter_lemma(f);
            assert(f(kinds@[j]));
        }
    }
    r
}

} // verus!
