//! Documentation-compliance checks and commit-message rules, verified with Verus.
pub mod text;
pub mod check;
pub mod commit;
pub mod fmt;
pub mod diff;
pub mod land;
pub mod log;
pub mod push;
pub mod status;
pub mod config;
