//! The replacement estimates of range summaries: measured on the projection of the proposed
//! transaction, then carried over to the draft's required operations.

use vstd::prelude::*;

use crate::session::{StoredContextOperation, StoredRangeSummary};
use crate::text::str_eq;

verus! {

/// One projected summary message: the transaction and operation it stands for, and its
/// estimated provider tokens.
pub struct ProjectedSummaryEstimate {
    pub transaction_id: String,
    pub operation_index: usize,
    pub tokens: usize,
}

/// The tokens of the last of the first `n` projected summaries that stands for operation `k`
/// of transaction `transaction_id`.
pub open spec fn summary_estimate(
    estimates: Seq<ProjectedSummaryEstimate>,
    transaction_id: Seq<char>,
    k: int,
    n: int,
) -> Option<usize>
    decreases n,
{
    if n <= 0 {
        None
    } else if estimates[n - 1].transaction_id@ == transaction_id && estimates[n - 1].operation_index
        == k {
        Some(estimates[n - 1].tokens)
    } else {
        summary_estimate(estimates, transaction_id, k, n - 1)
    }
}

/// `op` with its replacement estimate set to `tokens` if it is a range summary.
pub open spec fn with_replacement_estimate(op: StoredContextOperation, tokens: usize) -> StoredContextOperation {
    match op {
        StoredContextOperation::RangeSummary(s) => StoredContextOperation::RangeSummary(
            StoredRangeSummary { replacement_token_estimate: tokens, ..s },
        ),
        _ => op,
    }
}

/// Operation `k` after the first `n` projected summaries were recorded.
pub open spec fn filled_operation(
    estimates: Seq<ProjectedSummaryEstimate>,
    transaction_id: Seq<char>,
    op: StoredContextOperation,
    k: int,
    n: int,
) -> StoredContextOperation {
    match summary_estimate(estimates, transaction_id, k, n) {
        Some(tokens) => with_replacement_estimate(op, tokens),
        None => op,
    }
}

fn set_replacement_estimate(operations: &mut Vec<StoredContextOperation>, k: usize, tokens: usize)
    requires
        k < old(operations)@.len(),
    ensures
        final(operations)@ == old(operations)@.update(
            k as int,
            with_replacement_estimate(old(operations)@[k as int], tokens),
        ),
{
    match &operations[k] {
        StoredContextOperation::RangeSummary(_) => {},
        _ => {
            return;
        },
    }
    let op = operations.remove(k);
    let updated = match op {
        StoredContextOperation::RangeSummary(s) => {
            StoredContextOperation::RangeSummary(
                StoredRangeSummary { replacement_token_estimate: tokens, ..s },
            )
        },
        other => other,
    };
    operations.insert(k, updated);
    proof {
        assert(operations@ =~= old(operations)@.update(
            k as int,
            with_replacement_estimate(old(operations)@[k as int], tokens),
        ));
    }
}

/// Records, on the operations of transaction `transaction_id`, the estimated tokens of each
/// of its range summaries as projected; operations without a projected summary, and other
/// transactions' summaries, are left as they are. A later estimate for the same operation
/// replaces an earlier one.
pub fn fill_range_replacement_estimates(
    estimates: &[ProjectedSummaryEstimate],
    transaction_id: &str,
    operations: &mut Vec<StoredContextOperation>,
)
    ensures
        final(operations)@.len() == old(operations)@.len(),
        forall|k: int|
            0 <= k < old(operations)@.len() ==> #[trigger] final(operations)@[k] == filled_operation(
                estimates@,
                transaction_id@,
                old(operations)@[k],
                k,
                estimates@.len() as int,
            ),
{
    let ghost original = operations@;
    let mut i: usize = 0;
    while i < estimates.len()
        invariant
            i <= estimates@.len(),
            original == old(operations)@,
            operations@.len() == original.len(),
            forall|k: int|
                0 <= k < original.len() ==> #[trigger] operations@[k] == filled_operation(
                    estimates@,
                    transaction_id@,
                    original[k],
                    k,
                    i as int,
                ),
        decreases estimates.len() - i,
    {
        let estimate = &estimates[i];
        if str_eq(estimate.transaction_id.as_str(), transaction_id) && estimate.operation_index
            < operations.len() {
            let ghost before = operations@;
            set_replacement_estimate(operations, estimate.operation_index, estimate.tokens);
            proof {
                assert forall|k: int| 0 <= k < original.len() implies #[trigger] operations@[k]
                    == filled_operation(estimates@, transaction_id@, original[k], k, i + 1) by {
                    if k == estimate.operation_index {
                        assert(before[k] == filled_operation(
                            estimates@,
                            transaction_id@,
                            original[k],
                            k,
                            i as int,
                        ));
                    } else {
                        assert(operations@[k] == before[k]);
                    }
                }
            }
        }
        i += 1;
    }
    proof {
        assert forall|k: int| 0 <= k < original.len() implies #[trigger] operations@[k]
            == filled_operation(estimates@, transaction_id@, original[k], k, estimates@.len() as int) by {
            assert(operations@[k] == filled_operation(
                estimates@,
                transaction_id@,
                original[k],
                k,
                i as int,
            ));
        }
    }
}

/// `destination` with the replacement estimate of `source` when both are range summaries.
pub open spec fn carried_estimate(
    source: StoredContextOperation,
    destination: StoredContextOperation,
) -> StoredContextOperation {
    match (source, destination) {
        (StoredContextOperation::RangeSummary(s), StoredContextOperation::RangeSummary(_)) =>
            with_replacement_estimate(destination, s.replacement_token_estimate),
        _ => destination,
    }
}

/// Carries the replacement estimates of range summaries from `all_operations` over to the
/// operations at the same positions of `required_operations`.
pub fn copy_filled_range_estimates(
    all_operations: &[StoredContextOperation],
    required_operations: &mut Vec<StoredContextOperation>,
)
    ensures
        final(required_operations)@.len() == old(required_operations)@.len(),
        forall|k: int|
            0 <= k < old(required_operations)@.len() ==> #[trigger] final(required_operations)@[k]
                == if k < all_operations@.len() {
                carried_estimate(all_operations@[k], old(required_operations)@[k])
            } else {
                old(required_operations)@[k]
            },
{
    let ghost original = required_operations@;
    let mut i: usize = 0;
    while i < all_operations.len() && i < required_operations.len()
        invariant
            i <= all_operations@.len(),
            original == old(required_operations)@,
            required_operations@.len() == original.len(),
            i <= original.len(),
            forall|k: int|
                0 <= k < original.len() ==> #[trigger] required_operations@[k] == if k < i {
                    carried_estimate(all_operations@[k], original[k])
                } else {
                    original[k]
                },
        decreases all_operations.len() - i,
    {
        match &all_operations[i] {
            StoredContextOperation::RangeSummary(s) => {
                set_replacement_estimate(required_operations, i, s.replacement_token_estimate);
            },
            _ => {},
        }
        i += 1;
    }
}

} // verus!
