//! The Telegram side of the service.
pub mod bot_polling;
pub mod deletion;
pub mod manifest;
pub mod request;
pub mod service;
pub mod types;
