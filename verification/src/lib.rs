//! Decision logic of a bot that accepts Spond event invitations the moment
//! they open, and reports what happened to a Discord webhook.
pub mod text;
pub mod time;
pub mod clock;
pub mod json;
pub mod members;
pub mod events;
pub mod accept;
pub mod config;
pub mod discord;
pub mod schedule;
