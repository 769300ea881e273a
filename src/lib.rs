//! An event-sourced conversation store: each conversation is an append-only log
//! of events, its title and messages are projections of that log, and a registry
//! keyed by identity holds the conversations.

pub mod commands;
pub mod conversation;
pub mod event;
pub mod ids;
pub mod registry;
