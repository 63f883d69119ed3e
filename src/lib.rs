//! A content-moderation engine for chat guilds: each guild supplies a policy
//! of filters over messages, reactions and usernames, and the engine decides
//! which actions a piece of content calls for.

pub mod pattern;
pub mod config;
pub mod compile;
pub mod scoping;
pub mod actions;
pub mod text;
pub mod rules;
pub mod spam;
pub mod filters;
pub mod engine;
pub mod command;
pub mod validate;
