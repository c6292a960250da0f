//! Writing bindings of the AFB application framework binder: JSON values,
//! errors, logs, permissions, the parts of an api and test suites, each
//! with a verified contract.

pub mod api;
pub mod data;
pub mod error;
pub mod event;
pub mod hexa;
pub mod jsonc;
pub mod laws;
pub mod log;
pub mod permission;
pub mod registry;
pub mod tap;
pub mod verb;
pub mod text;
