//! Request middleware for a network service: correlation identifiers,
//! structured JSON log records with span-scoped fields, request metrics
//! labels, and a barrier that turns a panicking handler into an error response.
pub mod correlation_id;
pub mod headers;
pub mod json;
pub mod json_logging;
pub mod observability;
pub mod panics;
pub mod status;
