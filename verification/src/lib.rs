//! tgState: private file storage on top of a Telegram channel.
pub mod auth;
pub mod config;
pub mod constants;
pub mod database;
pub mod decimal;
pub mod error;
pub mod filename;
pub mod middleware;
pub mod outside;
pub mod routes;
pub mod sizes;
pub mod state;
pub mod telegram;
pub mod text;
