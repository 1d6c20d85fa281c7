//! What happens to every request before and behind its route.
pub mod auth;
pub mod headers;
pub mod rate_limit;
pub mod security_headers;
