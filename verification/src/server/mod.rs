//! The decisions behind each endpoint of the localhost API: which requests are
//! refused, with which status and message, and what a served request does.
//! The HTTP plumbing around them lives with the binary.

pub mod routes;

pub use routes::ApiError;
