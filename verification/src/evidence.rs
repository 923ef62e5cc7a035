//! Auditable file evidence extracted from one stored-message range.
//!
//! Evidence is based on structured tool inputs and matching tool-result
//! outcomes. Extraction never reads the live filesystem, never upgrades a
//! search into a read, and never claims that a failed or result-less
//! operation succeeded.

pub mod paths;
pub mod category;
pub mod outcome;
pub mod patch;
pub mod inspect;
pub mod extract;
pub mod laws;
