//! Verified core of the context-transaction ledger: file evidence extraction,
//! snapshot paging, curator validation, draft bookkeeping and transaction history.

pub mod text;
pub mod clock;
pub mod model;
pub mod evidence;
pub mod provider;
pub mod snapshot;
pub mod session;
pub mod protocol;
pub mod history;
pub mod commit;
pub mod curator;
pub mod draft;
pub mod store;
pub mod scope;
pub mod capture;
pub mod reasoning;
pub mod rows;
pub mod preflight;
pub mod lifecycle;
pub mod plan;
pub mod proposals;
pub mod payload;
pub mod route_options;
pub mod estimates;
pub mod previews;
pub mod plan_preview;
