//! Core of a character-card chat assistant: budgeted context assembly,
//! per-conversation session state with incremental persistence, a bounded
//! session pool, a tool registry, and the bounded tool-call loop.

pub mod budget;
pub mod tokens;
pub mod strings;
pub mod score;
pub mod messages;
pub mod selection;
pub mod worldbook;
pub mod character;
pub mod context;
pub mod session;
pub mod manager;
pub mod chat;
pub mod tools;
pub mod services;
pub mod api_config;
pub mod commands;
pub mod png;
