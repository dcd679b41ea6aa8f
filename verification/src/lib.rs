//! Event dispatch and voice-session lifecycle for a guild chat bot.
//!
//! The crate decides; it performs nothing. Each entry point takes the current
//! state and one event and returns the next state together with the actions
//! that the surrounding program has to carry out.

pub mod commands;
pub mod event;
pub mod failure;
pub mod lifecycle;
pub mod phrases;
pub mod registry;
pub mod router;
pub mod session;
pub mod text;
