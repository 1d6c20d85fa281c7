//! What the routes decide and compute.
pub mod api_auth;
pub mod api_settings;
pub mod api_upload;
pub mod pages;
