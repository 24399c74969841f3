//! Telegram channel: the bot's state, what it reports, and how it answers a message.
pub mod controller;
pub mod laws;
pub mod render;
pub mod state;
