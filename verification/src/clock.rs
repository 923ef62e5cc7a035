use vstd::prelude::*;

use crate::session::{ContextServiceError, ServiceErrorModel};

verus! {

/// Reads the wall clock with `SystemTime::now()` and measures it from `UNIX_EPOCH`
/// (`duration_since`), in whole milliseconds (`as_millis`); `None` when the clock reads
/// before the epoch. What time it reads is not stated: it depends on the machine.
#[verifier::external_body]
fn millis_since_epoch() -> Option<u128> {
    match std::time::SystemTime::now().duration_since(std::time::UNIX_EPOCH) {
        Ok(elapsed) => Some(elapsed.as_millis()),
        Err(_) => None,
    }
}

/// Why the clock could not be read.
pub open spec fn clock_error_text() -> Seq<char> {
    "system clock reads before the Unix epoch or beyond the millisecond range"@
}

/// The current time in milliseconds since the Unix epoch, or a runtime error when the clock
/// reads before the epoch or beyond what `i64` milliseconds hold.
pub(crate) fn now_unix_millis() -> (r: Result<i64, ContextServiceError>)
    ensures
        r matches Ok(t) ==> 0 <= t,
        r matches Err(e) ==> e@ == ServiceErrorModel::Runtime(clock_error_text()),
{
    match millis_since_epoch() {
        Some(millis) => {
            if millis <= 0x7fff_ffff_ffff_ffffu128 {
                Ok(millis as i64)
            } else {
                Err(
                    ContextServiceError::Runtime(
                        String::from_str(
                            "system clock reads before the Unix epoch or beyond the millisecond range",
                        ),
                    ),
                )
            }
        },
        None => Err(
            ContextServiceError::Runtime(
                String::from_str(
                    "system clock reads before the Unix epoch or beyond the millisecond range",
                ),
            ),
        ),
    }
}

} // verus!
