//! Verified core of a quota-bounded, token-gated file drop service.
//!
//! Administrators mint single-purpose upload links (bounded total size,
//! optional expiry), guests exchange a link token for an upload form, and
//! administrators review received files through a session-authenticated
//! console. This crate holds the rules of that service — link validity,
//! quota accounting, upload admission, session lifecycle, credential checks
//! and the text formats the service emits — with machine-checked contracts.
//! The surrounding web server, database and filesystem glue live outside it
//! and hand plain values in and out.

pub mod auth;
pub mod forms;
pub mod listing;
pub mod models;
pub mod size_format;
pub mod templates;
pub mod text;
pub mod uploads;
